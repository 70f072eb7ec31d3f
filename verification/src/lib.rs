//! Lists the chart versions of a Helm repository index as an aligned table.
//!
//! An [`index::IndexFile`] holds the charts of a repository. [`render::render`] turns it into
//! a table of text: it applies a name filter and a type filter, ranks the versions of each
//! chart newest first ([`version::compare_versions`]), formats each version as a row
//! ([`rows::format_row`]) and aligns the columns. [`output`] decides whether the table goes
//! through a pager.

pub mod created;
pub mod excerpt;
pub mod index;
pub mod output;
pub mod ranking;
pub mod render;
pub mod rows;
pub mod text;
pub mod version;
