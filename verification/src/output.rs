use crate::text::{count_lines, line_count};
use vstd::prelude::*;
use vstd::string::*;

verus! {

/// Number of lines, the header counted, from which a table goes through the pager.
pub const PAGING_THRESHOLD: usize = 25;

/// Where the rendered table is written.
#[derive(Clone, Copy, PartialEq, Eq, Debug, Structural)]
pub enum Sink {
    /// Straight to standard output.
    Stdout,
    /// To the standard input of a pager program.
    Pager,
}

/// The sink for a table of `lines` lines: standard output where paging is disabled or the
/// table is short, else the pager.
pub open spec fn sink_for(paging_disabled: bool, lines: nat) -> Sink {
    if !paging_disabled && lines >= PAGING_THRESHOLD {
        Sink::Pager
    } else {
        Sink::Stdout
    }
}

/// Whether paging is disabled: by the command-line flag, or by either of the two environment
/// toggles being set, whatever its value.
pub fn paging_disabled(no_pager_flag: bool, tool_toggle_set: bool, generic_toggle_set: bool) -> (disabled:
    bool)
    ensures
        disabled == (no_pager_flag || tool_toggle_set || generic_toggle_set),
{
    no_pager_flag || tool_toggle_set || generic_toggle_set
}

/// Decides where a table of `lines` lines is written.
pub fn choose_sink(paging_disabled: bool, lines: usize) -> (sink: Sink)
    ensures
        sink == sink_for(paging_disabled, lines as nat),
{
    if !paging_disabled && lines >= PAGING_THRESHOLD {
        Sink::Pager
    } else {
        Sink::Stdout
    }
}

/// Decides where the rendered table `text` is written, by the number of its lines.
pub fn sink_for_table(paging_disabled: bool, text: &str) -> (sink: Sink)
    ensures
        sink == sink_for(paging_disabled, line_count(text@)),
{
    choose_sink(paging_disabled, count_lines(text))
}

/// The pager program: the configured one, or `less` where none is configured.
pub fn pager_program(configured: Option<String>) -> (program: String)
    ensures
        program@ == match configured {
            Some(name) => name@,
            None => "less"@,
        },
{
    match configured {
        Some(name) => name,
        None => "less".to_owned(),
    }
}

} // verus!
