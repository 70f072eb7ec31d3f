use crate::created::{created_shown, format_created, placeholder};
use crate::excerpt::{ellipsize, excerpt};
use crate::index::{version_views, ChartVersion, ChartVersionView};
use crate::ranking::{
    all_semantic, is_descending, lemma_newest_first_permutes, newest_first, precedence_descends,
    record_views, sort_newest_first,
};
use crate::text::optional_text;
use vstd::prelude::*;
use vstd::string::*;

verus! {

/// Number of characters that a description may have before it is shortened.
pub const DESCRIPTION_BUDGET: usize = 50;

/// One line of the listing, field by field.
#[derive(Clone, Debug, PartialEq, Eq)]
pub struct FormattedRow {
    pub chart: String,
    pub chart_type: String,
    pub version: String,
    pub description: String,
    pub app_version: String,
    pub created: String,
    pub kube_version: String,
}

/// A [`FormattedRow`] as contracts see it.
pub struct RowView {
    pub chart: Seq<char>,
    pub chart_type: Seq<char>,
    pub version: Seq<char>,
    pub description: Seq<char>,
    pub app_version: Seq<char>,
    pub created: Seq<char>,
    pub kube_version: Seq<char>,
}

impl View for FormattedRow {
    type V = RowView;

    open spec fn view(&self) -> RowView {
        RowView {
            chart: self.chart@,
            chart_type: self.chart_type@,
            version: self.version@,
            description: self.description@,
            app_version: self.app_version@,
            created: self.created@,
            kube_version: self.kube_version@,
        }
    }
}

/// The character that parts the fields of a line.
pub open spec fn tab() -> Seq<char> {
    seq!['\t']
}

impl RowView {
    /// The row as one line: its seven fields, parted by tabs.
    pub open spec fn line(self) -> Seq<char> {
        self.chart + tab() + self.chart_type + tab() + self.version + tab() + self.description
            + tab() + self.app_version + tab() + self.created + tab() + self.kube_version
    }
}

/// The text of an optional field, or the placeholder where the record has none.
pub open spec fn or_placeholder(value: Option<Seq<char>>) -> Seq<char> {
    match value {
        Some(text) => text,
        None => placeholder(),
    }
}

/// What a row shows for a description: the placeholder where the record has none, else
/// the description shortened to [`DESCRIPTION_BUDGET`] characters.
pub open spec fn description_shown(description: Option<Seq<char>>) -> Seq<char> {
    match description {
        Some(text) => excerpt(text, DESCRIPTION_BUDGET as nat),
        None => placeholder(),
    }
}

/// `row` is what the listing shows for `record` of the chart `chart`. Every field but
/// `created` is fixed by the record; for `created` see [`created_shown`].
pub open spec fn row_shows(row: RowView, chart: Seq<char>, record: ChartVersionView) -> bool {
    &&& row.chart == chart
    &&& row.chart_type == or_placeholder(record.chart_type)
    &&& row.version == record.version
    &&& row.description == description_shown(record.description)
    &&& row.app_version == or_placeholder(record.app_version)
    &&& created_shown(record.created, row.created)
    &&& row.kube_version == or_placeholder(record.kube_version)
}

/// `line` is the line of some row that the listing may show for `record`.
pub open spec fn is_line_of(line: Seq<char>, chart: Seq<char>, record: ChartVersionView) -> bool {
    exists|row: RowView| #[trigger] row_shows(row, chart, record) && line == row.line()
}

/// The text of an optional field, or the placeholder.
fn text_or_placeholder(value: &Option<String>) -> (text: String)
    ensures
        text@ == or_placeholder(optional_text(*value)),
{
    match value {
        Some(given) => given.clone(),
        None => "<unspecified>".to_owned(),
    }
}

impl FormattedRow {
    /// The row as one line of text, its fields parted by tabs.
    pub fn to_line(&self) -> (line: String)
        ensures
            line@ == self@.line(),
    {
        proof {
            reveal_strlit("\t");
            assert("\t"@ == tab());
        }
        let mut line = self.chart.clone();
        line.append("\t");
        line.append(self.chart_type.as_str());
        line.append("\t");
        line.append(self.version.as_str());
        line.append("\t");
        line.append(self.description.as_str());
        line.append("\t");
        line.append(self.app_version.as_str());
        line.append("\t");
        line.append(self.created.as_str());
        line.append("\t");
        line.append(self.kube_version.as_str());
        line
    }
}

/// Formats one record of the chart `chart_name` for display: every absent field shows the
/// placeholder, a description is shortened to [`DESCRIPTION_BUDGET`] characters, and the
/// creation time is shown as [`format_created`] gives it.
pub fn format_row(chart_name: &str, record: &ChartVersion) -> (row: FormattedRow)
    ensures
        row_shows(row@, chart_name@, record@),
{
    let description = match &record.description {
        Some(text) => ellipsize(text.as_str(), DESCRIPTION_BUDGET),
        None => "<unspecified>".to_owned(),
    };
    FormattedRow {
        chart: chart_name.to_owned(),
        chart_type: text_or_placeholder(&record.chart_type),
        version: record.version.clone(),
        description,
        app_version: text_or_placeholder(&record.app_version),
        created: format_created(&record.created),
        kube_version: text_or_placeholder(&record.kube_version),
    }
}

/// Formats the records of one chart: a row for each record, the newest version first.
pub fn format_rows(chart_name: &str, records: &Vec<&ChartVersion>) -> (rows: Vec<FormattedRow>)
    ensures
        rows@.len() == records@.len(),
        forall|i: int|
            0 <= i < rows@.len() ==> row_shows(
                (#[trigger] rows@[i])@,
                chart_name@,
                newest_first(record_views(records@))[i],
            ),
        is_descending(newest_first(record_views(records@))),
        all_semantic(record_views(records@)) ==> precedence_descends(
            newest_first(record_views(records@)),
        ),
{
    let sorted = sort_newest_first(records);
    let mut rows: Vec<FormattedRow> = Vec::new();
    let mut next: usize = 0;
    while next < sorted.len()
        invariant
            next <= sorted.len(),
            rows@.len() == next,
            sorted@.len() == records@.len(),
            record_views(sorted@) == newest_first(record_views(records@)),
            forall|i: int|
                0 <= i < rows@.len() ==> row_shows(
                    (#[trigger] rows@[i])@,
                    chart_name@,
                    newest_first(record_views(records@))[i],
                ),
        decreases sorted.len() - next,
    {
        let row = format_row(chart_name, sorted[next]);
        assert(record_views(sorted@)[next as int] == sorted@[next as int]@);
        rows.push(row);
        next += 1;
    }
    rows
}

/// Formats the versions of one chart into tab-delimited lines, the newest version first.
/// Each line holds the chart, its type, the version, the shortened description, the
/// application version, the creation time and the Kubernetes version. There is a line for
/// each record. Lines that follow each other are in order; where every version is a semantic
/// version, no line stands below one of lower precedence.
pub fn format_chart_versions(chart_name: &str, versions: &[ChartVersion]) -> (lines: Vec<String>)
    ensures
        lines@.len() == versions@.len(),
        forall|i: int|
            0 <= i < lines@.len() ==> is_line_of(
                (#[trigger] lines@[i])@,
                chart_name@,
                newest_first(version_views(versions@))[i],
            ),
        newest_first(version_views(versions@)).to_multiset() == version_views(
            versions@,
        ).to_multiset(),
        is_descending(newest_first(version_views(versions@))),
        all_semantic(version_views(versions@)) ==> precedence_descends(
            newest_first(version_views(versions@)),
        ),
{
    proof {
        lemma_newest_first_permutes(version_views(versions@));
    }
    let mut records: Vec<&ChartVersion> = Vec::new();
    let mut taken: usize = 0;
    while taken < versions.len()
        invariant
            taken <= versions.len(),
            records@.len() == taken,
            forall|i: int| 0 <= i < taken ==> records@[i] == versions@[i],
        decreases versions.len() - taken,
    {
        records.push(&versions[taken]);
        taken += 1;
    }
    assert(record_views(records@) =~= version_views(versions@));
    let rows = format_rows(chart_name, &records);
    let mut lines: Vec<String> = Vec::new();
    let mut next: usize = 0;
    while next < rows.len()
        invariant
            next <= rows.len(),
            lines@.len() == next,
            rows@.len() == versions@.len(),
            forall|i: int|
                0 <= i < rows@.len() ==> row_shows(
                    (#[trigger] rows@[i])@,
                    chart_name@,
                    newest_first(version_views(versions@))[i],
                ),
            forall|i: int|
                0 <= i < lines@.len() ==> is_line_of(
                    (#[trigger] lines@[i])@,
                    chart_name@,
                    newest_first(version_views(versions@))[i],
                ),
        decreases rows.len() - next,
    {
        let line = rows[next].to_line();
        assert(row_shows(
            rows@[next as int]@,
            chart_name@,
            newest_first(version_views(versions@))[next as int],
        ));
        lines.push(line);
        next += 1;
    }
    lines
}

} // verus!
