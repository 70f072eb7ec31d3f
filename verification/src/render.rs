use crate::index::{
    entry_views, version_views, ChartEntry, ChartEntryView, ChartVersion, ChartVersionView,
    IndexFile,
};
use crate::ranking::{lemma_newest_first_permutes, newest_first, record_views};
use crate::rows::{format_rows, row_shows, FormattedRow, RowView};
use crate::text::{ascii_case_eq, eq_ignore_ascii_case};
use std::io::Write;
use tabwriter::TabWriter;
use vstd::prelude::*;
use vstd::string::*;

verus! {

/// The text of a filter, where one was given.
pub open spec fn filter_text(filter: Option<&str>) -> Option<Seq<char>> {
    match filter {
        Some(wanted) => Some(wanted@),
        None => None,
    }
}

/// Whether a chart of this name passes the name filter: without a filter every chart does,
/// with one only a chart whose whole name is the filter's text, the case of ASCII letters
/// aside.
pub open spec fn name_selected(name: Seq<char>, chart_filter: Option<Seq<char>>) -> bool {
    match chart_filter {
        Some(wanted) => ascii_case_eq(name, wanted),
        None => true,
    }
}

/// Whether a record passes the type filter: without a filter every record does, with one
/// only a record that has a type, and that type is the filter's text, the case of ASCII
/// letters aside.
pub open spec fn type_selected(record: ChartVersionView, type_filter: Option<Seq<char>>) -> bool {
    match type_filter {
        Some(wanted) => match record.chart_type {
            Some(given) => ascii_case_eq(given, wanted),
            None => false,
        },
        None => true,
    }
}

/// The records that pass the type filter, in their order.
pub open spec fn kept_versions(
    versions: Seq<ChartVersionView>,
    type_filter: Option<Seq<char>>,
) -> Seq<ChartVersionView> {
    versions.filter(|record: ChartVersionView| type_selected(record, type_filter))
}

/// How [`kept_versions`] grows with the list: the last record joins those kept before it
/// where it passes the filter.
pub proof fn lemma_kept_versions_step(
    versions: Seq<ChartVersionView>,
    type_filter: Option<Seq<char>>,
)
    requires
        versions.len() > 0,
    ensures
        kept_versions(versions, type_filter) == if type_selected(versions.last(), type_filter) {
            kept_versions(versions.drop_last(), type_filter).push(versions.last())
        } else {
            kept_versions(versions.drop_last(), type_filter)
        },
{
    reveal_with_fuel(Seq::filter, 2);
}

/// No chart passes the name filter.
pub open spec fn no_name_selected(
    entries: Seq<ChartEntryView>,
    chart_filter: Option<Seq<char>>,
) -> bool {
    forall|i: int|
        0 <= i < entries.len() ==> !name_selected((#[trigger] entries[i]).name, chart_filter)
}

/// A record that the listing shows, with the name of its chart.
pub struct Listed {
    pub chart: Seq<char>,
    pub record: ChartVersionView,
}

/// What the listing shows of one chart: nothing where the name filter leaves the chart out,
/// else the records that pass the type filter, newest first.
pub open spec fn chart_listing(
    entry: ChartEntryView,
    chart_filter: Option<Seq<char>>,
    type_filter: Option<Seq<char>>,
) -> Seq<Listed> {
    if name_selected(entry.name, chart_filter) {
        newest_first(kept_versions(entry.versions, type_filter)).map_values(
            |record: ChartVersionView| Listed { chart: entry.name, record },
        )
    } else {
        Seq::empty()
    }
}

/// What the listing shows of an index: chart after chart in the order of the document,
/// each as [`chart_listing`] gives it.
pub open spec fn listing(
    entries: Seq<ChartEntryView>,
    chart_filter: Option<Seq<char>>,
    type_filter: Option<Seq<char>>,
) -> Seq<Listed>
    decreases entries.len(),
{
    if entries.len() == 0 {
        Seq::empty()
    } else {
        listing(entries.drop_last(), chart_filter, type_filter) + chart_listing(
            entries.last(),
            chart_filter,
            type_filter,
        )
    }
}

/// The rows of a list, each as contracts see it.
pub open spec fn row_views(rows: Seq<FormattedRow>) -> Seq<RowView> {
    rows.map_values(|row: FormattedRow| row@)
}

/// There is a row for each listed record, in the same order, and it shows that record.
pub open spec fn rows_show(rows: Seq<RowView>, listed: Seq<Listed>) -> bool {
    &&& rows.len() == listed.len()
    &&& forall|i: int|
        0 <= i < rows.len() ==> row_shows(#[trigger] rows[i], listed[i].chart, listed[i].record)
}

/// The titles of the seven columns, parted by tabs.
pub open spec fn header() -> Seq<char> {
    "CHART\tTYPE\tVERSION\tDESCRIPTION\tAPP VERSION\tCREATED\tKUBE VERSION"@
}

/// The character that ends a line.
pub open spec fn line_feed() -> Seq<char> {
    seq!['\n']
}

/// The table before its columns are aligned: the header and then the line of each row,
/// each ended by a line feed.
pub open spec fn table_text(rows: Seq<RowView>) -> Seq<char>
    decreases rows.len(),
{
    if rows.len() == 0 {
        header() + line_feed()
    } else {
        table_text(rows.drop_last()) + rows.last().line() + line_feed()
    }
}

/// What `tabwriter::TabWriter`, as `TabWriter::new` sets it up, writes for a
/// tab-delimited text: the same lines with each column padded to a common width.
pub uninterp spec fn tab_aligned(table: Seq<char>) -> Seq<char>;

/// The aligned table.
#[derive(Clone, Debug, PartialEq, Eq)]
pub struct Table {
    /// The rows, in the order in which they are listed.
    pub rows: Vec<FormattedRow>,
    /// The header and the rows as text, column-aligned.
    pub text: String,
}

/// How rendering an index ended.
#[derive(Clone, Debug, PartialEq, Eq)]
pub enum RenderOutcome {
    /// There is a table to show: a header and at least one row.
    Table(Table),
    /// A name filter was given and no chart carries that name. This is no failure.
    NoChartsForName,
    /// Nothing is left to list. This is a failure.
    NoChartsFound,
    /// The columns could not be aligned. This is a failure. [`render`] never ends so; the
    /// outcome is there for [`finish_table`], which takes whatever the alignment gave.
    AlignmentFailed,
}

/// What [`render`] owes for an index and two filters.
pub open spec fn rendered(
    entries: Seq<ChartEntryView>,
    chart_filter: Option<Seq<char>>,
    type_filter: Option<Seq<char>>,
    outcome: RenderOutcome,
) -> bool {
    if chart_filter is Some && no_name_selected(entries, chart_filter) {
        outcome is NoChartsForName
    } else if listing(entries, chart_filter, type_filter).len() == 0 {
        outcome is NoChartsFound
    } else {
        &&& outcome matches RenderOutcome::Table(table)
        &&& rows_show(row_views(table.rows@), listing(entries, chart_filter, type_filter))
        &&& table.text@ == tab_aligned(table_text(row_views(table.rows@)))
    }
}

/// Sends `table` through a `tabwriter::TabWriter` that writes into a byte vector
/// (`TabWriter::new`, `write_all`, `flush`) and reads the bytes back as UTF-8. The result
/// would be `None` where the writer reported an error or the bytes were no UTF-8. The
/// contract claims that there is always a text: the writer fails only where the vector
/// does, which never fails, and what it writes are the cells of `table`, cut at tabs and
/// line feeds, with spaces and line feeds between them, so UTF-8 as `table` is.
#[verifier::external_body]
fn align_columns(table: &str) -> (aligned: Option<String>)
    ensures
        aligned is Some,
        aligned matches Some(text) ==> text@ == tab_aligned(table@),
{
    let mut bytes: Vec<u8> = Vec::new();
    let mut writer = TabWriter::new(&mut bytes);
    if writer.write_all(table.as_bytes()).is_err() || writer.flush().is_err() {
        return None;
    }
    drop(writer);
    String::from_utf8(bytes).ok()
}

/// Tells whether a chart of this name passes the name filter.
pub fn name_matches(name: &str, chart_filter: Option<&str>) -> (yes: bool)
    ensures
        yes == name_selected(name@, filter_text(chart_filter)),
{
    match chart_filter {
        Some(wanted) => eq_ignore_ascii_case(name, wanted),
        None => true,
    }
}

/// Tells whether a record passes the type filter.
pub fn type_matches(record: &ChartVersion, type_filter: Option<&str>) -> (yes: bool)
    ensures
        yes == type_selected(record@, filter_text(type_filter)),
{
    match type_filter {
        Some(wanted) => match &record.chart_type {
            Some(given) => eq_ignore_ascii_case(given.as_str(), wanted),
            None => false,
        },
        None => true,
    }
}

/// The records of `versions` that pass the type filter, in their order.
pub fn select_versions<'a>(versions: &'a Vec<ChartVersion>, type_filter: Option<&str>) -> (kept:
    Vec<&'a ChartVersion>)
    ensures
        record_views(kept@) == kept_versions(version_views(versions@), filter_text(type_filter)),
{
    let ghost all = version_views(versions@);
    let ghost wanted = filter_text(type_filter);
    let mut kept: Vec<&'a ChartVersion> = Vec::new();
    let mut next: usize = 0;
    assert(record_views(kept@) =~= kept_versions(all.take(0), wanted));
    while next < versions.len()
        invariant
            all == version_views(versions@),
            wanted == filter_text(type_filter),
            next <= versions.len(),
            record_views(kept@) == kept_versions(all.take(next as int), wanted),
        decreases versions.len() - next,
    {
        let record = &versions[next];
        proof {
            assert(all.take(next + 1).drop_last() == all.take(next as int));
            assert(all.take(next + 1).last() == record@);
            lemma_kept_versions_step(all.take(next + 1), wanted);
        }
        if type_matches(record, type_filter) {
            let ghost before = record_views(kept@);
            kept.push(record);
            assert(record_views(kept@) =~= before.push(record@));
        }
        next += 1;
    }
    assert(all.take(next as int) == all);
    kept
}

/// Rows for two lists of records, one after the other, are rows for the joined list.
pub proof fn lemma_rows_show_joined(
    rows: Seq<RowView>,
    listed: Seq<Listed>,
    more_rows: Seq<RowView>,
    more_listed: Seq<Listed>,
)
    requires
        rows_show(rows, listed),
        rows_show(more_rows, more_listed),
    ensures
        rows_show(rows + more_rows, listed + more_listed),
{
    let all_rows = rows + more_rows;
    let all_listed = listed + more_listed;
    assert forall|i: int| 0 <= i < all_rows.len() implies row_shows(
        #[trigger] all_rows[i],
        all_listed[i].chart,
        all_listed[i].record,
    ) by {
        if i < rows.len() {
            assert(all_rows[i] == rows[i]);
        } else {
            assert(all_rows[i] == more_rows[i - rows.len()]);
        }
    }
}

/// Whether some chart of the index passes the name filter.
pub fn any_name_matches(entries: &Vec<ChartEntry>, chart_filter: Option<&str>) -> (any: bool)
    ensures
        any == !no_name_selected(entry_views(entries@), filter_text(chart_filter)),
{
    let mut next: usize = 0;
    while next < entries.len()
        invariant
            next <= entries.len(),
            forall|i: int|
                0 <= i < next ==> !name_selected(
                    (#[trigger] entry_views(entries@)[i]).name,
                    filter_text(chart_filter),
                ),
        decreases entries.len() - next,
    {
        assert(entry_views(entries@)[next as int].name == entries@[next as int].name@);
        if name_matches(entries[next].name.as_str(), chart_filter) {
            return true;
        }
        next += 1;
    }
    false
}

/// The rows of the listing: for each chart that passes the name filter, in the order of the
/// document, a row for each record that passes the type filter, newest first.
pub fn list_rows(entries: &Vec<ChartEntry>, chart_filter: Option<&str>, type_filter: Option<&str>)
    -> (rows: Vec<FormattedRow>)
    ensures
        rows_show(
            row_views(rows@),
            listing(entry_views(entries@), filter_text(chart_filter), filter_text(type_filter)),
        ),
{
    let ghost all = entry_views(entries@);
    let ghost by_name = filter_text(chart_filter);
    let ghost by_type = filter_text(type_filter);
    let mut rows: Vec<FormattedRow> = Vec::new();
    let mut next: usize = 0;
    assert(row_views(rows@) =~= Seq::empty());
    while next < entries.len()
        invariant
            all == entry_views(entries@),
            by_name == filter_text(chart_filter),
            by_type == filter_text(type_filter),
            next <= entries.len(),
            rows_show(row_views(rows@), listing(all.take(next as int), by_name, by_type)),
        decreases entries.len() - next,
    {
        let entry = &entries[next];
        let ghost before = row_views(rows@);
        let ghost listed = listing(all.take(next as int), by_name, by_type);
        proof {
            assert(all.take(next + 1).drop_last() == all.take(next as int));
            assert(all.take(next + 1).last() == entry@);
        }
        if name_matches(entry.name.as_str(), chart_filter) {
            let kept = select_versions(&entry.versions, type_filter);
            let mut chart_rows = format_rows(entry.name.as_str(), &kept);
            proof {
                let more = chart_listing(entry@, by_name, by_type);
                lemma_newest_first_permutes(record_views(kept@));
                assert(rows_show(row_views(chart_rows@), more));
                lemma_rows_show_joined(before, listed, row_views(chart_rows@), more);
            }
            let ghost added = row_views(chart_rows@);
            rows.append(&mut chart_rows);
            assert(row_views(rows@) =~= before + added);
        } else {
            assert(listed + chart_listing(entry@, by_name, by_type) =~= listed);
        }
        next += 1;
    }
    assert(all.take(next as int) == all);
    rows
}

/// The table as text before its columns are aligned.
pub fn raw_table(rows: &Vec<FormattedRow>) -> (text: String)
    ensures
        text@ == table_text(row_views(rows@)),
{
    proof {
        reveal_strlit("\n");
        assert("\n"@ == line_feed());
    }
    let ghost all = row_views(rows@);
    let mut text = "CHART\tTYPE\tVERSION\tDESCRIPTION\tAPP VERSION\tCREATED\tKUBE VERSION".to_owned();
    text.append("\n");
    let mut next: usize = 0;
    while next < rows.len()
        invariant
            all == row_views(rows@),
            "\n"@ == line_feed(),
            next <= rows.len(),
            text@ == table_text(all.take(next as int)),
        decreases rows.len() - next,
    {
        let line = rows[next].to_line();
        proof {
            assert(all.take(next + 1).drop_last() == all.take(next as int));
            assert(all.take(next + 1).last() == rows@[next as int]@);
        }
        text.append(line.as_str());
        text.append("\n");
        next += 1;
    }
    assert(all.take(next as int) == all);
    text
}

/// Settles the outcome for a listing that has rows, once the alignment was tried:
/// `aligned` is the aligned text, or `None` where the alignment failed.
pub fn finish_table(rows: Vec<FormattedRow>, aligned: Option<String>) -> (outcome: RenderOutcome)
    ensures
        outcome == match aligned {
            Some(text) => RenderOutcome::Table(Table { rows, text }),
            None => RenderOutcome::AlignmentFailed,
        },
{
    match aligned {
        Some(text) => RenderOutcome::Table(Table { rows, text }),
        None => RenderOutcome::AlignmentFailed,
    }
}

/// Renders the listing of an index: a header line and a line for each chart version that
/// passes the two filters, the columns aligned over the whole table. A name filter that no
/// chart passes and a listing without rows end in outcomes of their own; every other
/// listing ends in a table.
pub fn render(index: &IndexFile, chart_filter: Option<&str>, type_filter: Option<&str>) -> (outcome:
    RenderOutcome)
    ensures
        rendered(index@, filter_text(chart_filter), filter_text(type_filter), outcome),
{
    let entries = index.entries();
    if chart_filter.is_some() && !any_name_matches(entries, chart_filter) {
        return RenderOutcome::NoChartsForName;
    }
    let rows = list_rows(entries, chart_filter, type_filter);
    if rows.len() == 0 {
        return RenderOutcome::NoChartsFound;
    }
    let table = raw_table(&rows);
    let aligned = align_columns(table.as_str());
    finish_table(rows, aligned)
}

} // verus!
