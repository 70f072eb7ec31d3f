use crate::text::{chars_of, optional_text};
use vstd::prelude::*;
use vstd::string::*;

verus! {

/// One published version of a chart, as the repository index lists it. Only `version` is
/// required, and nothing says that it is a semantic version.
#[derive(Clone, Debug, PartialEq, Eq)]
pub struct ChartVersion {
    pub version: String,
    pub description: Option<String>,
    pub app_version: Option<String>,
    pub created: Option<String>,
    pub kube_version: Option<String>,
    pub chart_type: Option<String>,
}

/// A [`ChartVersion`] as contracts see it.
pub struct ChartVersionView {
    pub version: Seq<char>,
    pub description: Option<Seq<char>>,
    pub app_version: Option<Seq<char>>,
    pub created: Option<Seq<char>>,
    pub kube_version: Option<Seq<char>>,
    pub chart_type: Option<Seq<char>>,
}

impl View for ChartVersion {
    type V = ChartVersionView;

    open spec fn view(&self) -> ChartVersionView {
        ChartVersionView {
            version: self.version@,
            description: optional_text(self.description),
            app_version: optional_text(self.app_version),
            created: optional_text(self.created),
            kube_version: optional_text(self.kube_version),
            chart_type: optional_text(self.chart_type),
        }
    }
}

/// The records of a list, each as contracts see it.
pub open spec fn version_views(versions: Seq<ChartVersion>) -> Seq<ChartVersionView> {
    versions.map_values(|version: ChartVersion| version@)
}

/// A chart of the index: its name and its published versions, in the order of the document.
#[derive(Clone, Debug, PartialEq, Eq)]
pub struct ChartEntry {
    pub name: String,
    pub versions: Vec<ChartVersion>,
}

/// A [`ChartEntry`] as contracts see it.
pub struct ChartEntryView {
    pub name: Seq<char>,
    pub versions: Seq<ChartVersionView>,
}

impl View for ChartEntry {
    type V = ChartEntryView;

    open spec fn view(&self) -> ChartEntryView {
        ChartEntryView { name: self.name@, versions: version_views(self.versions@) }
    }
}

/// The charts of a list, each as contracts see it.
pub open spec fn entry_views(entries: Seq<ChartEntry>) -> Seq<ChartEntryView> {
    entries.map_values(|entry: ChartEntry| entry@)
}

/// Where the chart called `name` stands among `entries`, if it is there. Names are told
/// apart by case.
pub open spec fn position_of(entries: Seq<ChartEntryView>, name: Seq<char>) -> Option<int>
    decreases entries.len(),
{
    if entries.len() == 0 {
        None
    } else {
        match position_of(entries.drop_last(), name) {
            Some(at) => Some(at),
            None => if entries.last().name == name {
                Some(entries.len() - 1)
            } else {
                None
            },
        }
    }
}

/// No two charts carry the same name.
pub open spec fn distinct_names(entries: Seq<ChartEntryView>) -> bool {
    forall|i: int, j: int|
        0 <= i < j < entries.len() ==> (#[trigger] entries[i]).name != (#[trigger] entries[j]).name
}

/// `entries` after the chart called `name` was given `versions`: a chart that was there
/// keeps its place and loses its former versions, a new one goes to the end.
pub open spec fn with_chart(
    entries: Seq<ChartEntryView>,
    name: Seq<char>,
    versions: Seq<ChartVersionView>,
) -> Seq<ChartEntryView> {
    let entry = ChartEntryView { name, versions };
    match position_of(entries, name) {
        Some(at) => entries.update(at, entry),
        None => entries.push(entry),
    }
}

/// The index that a list of charts makes when its charts are given to an empty index one
/// after the other: where a name comes again, the later versions replace the earlier ones.
pub open spec fn charts_of(charts: Seq<ChartEntryView>) -> Seq<ChartEntryView>
    decreases charts.len(),
{
    if charts.len() == 0 {
        Seq::empty()
    } else {
        with_chart(charts_of(charts.drop_last()), charts.last().name, charts.last().versions)
    }
}

/// What [`position_of`] finds: the first chart of that name, or that there is none.
pub proof fn lemma_position_of(entries: Seq<ChartEntryView>, name: Seq<char>)
    ensures
        match position_of(entries, name) {
            Some(at) => 0 <= at < entries.len() && entries[at].name == name && forall|i: int|
                0 <= i < at ==> (#[trigger] entries[i]).name != name,
            None => forall|i: int| 0 <= i < entries.len() ==> (#[trigger] entries[i]).name != name,
        },
    decreases entries.len(),
{
    if entries.len() > 0 {
        let front = entries.drop_last();
        lemma_position_of(front, name);
        assert forall|i: int| 0 <= i < front.len() implies front[i] == entries[i] by {}
        match position_of(front, name) {
            Some(at) => {
                assert forall|i: int| 0 <= i < at implies (#[trigger] entries[i]).name != name by {
                    assert(front[i].name != name);
                }
            },
            None => {
                assert forall|i: int| 0 <= i < front.len() implies (#[trigger] entries[i]).name
                    != name by {
                    assert(front[i].name != name);
                }
            },
        }
    }
}

/// A repository index: the charts it lists, in the order of the document, each name once.
#[derive(Clone, Debug, PartialEq, Eq)]
pub struct IndexFile {
    entries: Vec<ChartEntry>,
}

impl View for IndexFile {
    type V = Seq<ChartEntryView>;

    closed spec fn view(&self) -> Seq<ChartEntryView> {
        entry_views(self.entries@)
    }
}

impl IndexFile {
    /// The invariant of an index: no name occurs twice.
    pub open spec fn well_formed(&self) -> bool {
        distinct_names(self@)
    }

    /// An index without charts.
    pub fn new() -> (index: IndexFile)
        ensures
            index@ == Seq::<ChartEntryView>::empty(),
            index.well_formed(),
    {
        let index = IndexFile { entries: Vec::new() };
        assert(index@ =~= Seq::<ChartEntryView>::empty());
        index
    }

    /// The index of the charts that a document lists, in the order of the document. Where
    /// the document lists a name again, the later versions replace the earlier ones.
    pub fn from_charts(charts: Vec<ChartEntry>) -> (index: IndexFile)
        ensures
            index@ == charts_of(entry_views(charts@)),
            index.well_formed(),
    {
        let ghost all = entry_views(charts@);
        let mut index = IndexFile::new();
        for entry in it: charts
            invariant
                it.seq() == charts@,
                all == entry_views(charts@),
                index@ == charts_of(all.take(it.index())),
                index.well_formed(),
        {
            proof {
                assert(all.take(it.index() + 1).drop_last() == all.take(it.index()));
                assert(all.take(it.index() + 1).last() == entry@);
            }
            index.insert(entry.name, entry.versions);
        }
        assert(all.take(all.len() as int) == all);
        index
    }

    /// The charts, in the order of the document.
    pub fn entries(&self) -> (entries: &Vec<ChartEntry>)
        ensures
            entry_views(entries@) == self@,
    {
        &self.entries
    }

    /// Number of charts.
    pub fn len(&self) -> (count: usize)
        ensures
            count == self@.len(),
    {
        self.entries.len()
    }

    /// Gives the chart called `name` the versions `versions`, as a map would: a chart that is
    /// there keeps its place and has its versions replaced, a new one is added at the end.
    pub fn insert(&mut self, name: String, versions: Vec<ChartVersion>)
        ensures
            final(self)@ == with_chart(old(self)@, name@, version_views(versions@)),
            old(self).well_formed() ==> final(self).well_formed(),
    {
        let ghost before = self@;
        let mut at: usize = 0;
        while at < self.entries.len()
            invariant
                before == old(self)@,
                self@ == before,
                at <= self.entries.len(),
                position_of(before.take(at as int), name@) is None,
            decreases self.entries.len() - at,
        {
            if self.entries[at].name == name {
                let ghost entry = ChartEntryView { name: name@, versions: version_views(versions@) };
                proof {
                    assert(before[at as int].name == name@);
                    lemma_position_of(before, name@);
                    lemma_position_of(before.take(at as int), name@);
                    if let Some(first) = position_of(before, name@) {
                        if first < at {
                            assert(before.take(at as int)[first].name != name@);
                        }
                    }
                    assert(position_of(before, name@) == Some(at as int));
                }
                self.entries.set(at, ChartEntry { name, versions });
                proof {
                    assert(self@ =~= before.update(at as int, entry));
                    if distinct_names(before) {
                        assert(distinct_names(self@));
                    }
                }
                return ;
            }
            proof {
                assert(before.take(at + 1).drop_last() == before.take(at as int));
            }
            at += 1;
        }
        proof {
            assert(before.take(at as int) == before);
            lemma_position_of(before, name@);
        }
        let ghost entry = ChartEntryView { name: name@, versions: version_views(versions@) };
        self.entries.push(ChartEntry { name, versions });
        proof {
            assert(self@ =~= before.push(entry));
            if distinct_names(before) {
                assert(distinct_names(self@));
            }
        }
    }
}

/// `s` without the slashes at its end.
pub open spec fn without_trailing_slashes(s: Seq<char>) -> Seq<char>
    decreases s.len(),
{
    if s.len() > 0 && s.last() == '/' {
        without_trailing_slashes(s.drop_last())
    } else {
        s
    }
}

/// Where the index of the repository at `source` is found.
pub open spec fn index_location(source: Seq<char>) -> Seq<char> {
    without_trailing_slashes(source) + "/index.yaml"@
}

/// The address of the index document of the repository at `source`: the source without the
/// slashes at its end, then `/index.yaml`.
pub fn index_url(source: &str) -> (url: String)
    ensures
        url@ == index_location(source@),
{
    let chars = chars_of(source);
    let mut end: usize = chars.len();
    assert(source@.take(end as int) == source@);
    while end > 0 && chars[end - 1] == '/'
        invariant
            chars@ == source@,
            end <= chars.len(),
            without_trailing_slashes(source@) == without_trailing_slashes(source@.take(end as int)),
        decreases end,
    {
        assert(source@.take(end as int).drop_last() == source@.take(end - 1));
        end -= 1;
    }
    let mut url = source.substring_char(0, end).to_owned();
    assert(source@.subrange(0, end as int) == source@.take(end as int));
    url.append("/index.yaml");
    url
}

} // verus!
