use crate::index::{ChartVersion, ChartVersionView};
use crate::text::Comparison;
use crate::version::{
    carries_over, compare_versions, display_order, semver_precedence, semver_valid,
};
use vstd::prelude::*;
use vstd::seq_lib::*;

verus! {

/// The records behind a list of references, each as contracts see it.
pub open spec fn record_views(records: Seq<&ChartVersion>) -> Seq<ChartVersionView> {
    records.map_values(|record: &ChartVersion| record@)
}

/// Where a record with the given version joins a run that is already arranged: behind
/// the last record that need not be listed after it.
pub open spec fn slot(run: Seq<ChartVersionView>, version: Seq<char>) -> nat
    decreases run.len(),
{
    if run.len() > 0 && display_order(run.last().version, version) == Comparison::Greater {
        slot(run.drop_last(), version)
    } else {
        run.len()
    }
}

/// The records arranged for display, newest first. Each record in turn joins those before
/// it at its [`slot`], so records that rank alike keep the order they came in.
pub open spec fn newest_first(records: Seq<ChartVersionView>) -> Seq<ChartVersionView>
    decreases records.len(),
{
    if records.len() == 0 {
        records
    } else {
        let run = newest_first(records.drop_last());
        run.insert(slot(run, records.last().version) as int, records.last())
    }
}

/// No record is listed directly above one that ranks before it.
pub open spec fn is_descending(records: Seq<ChartVersionView>) -> bool {
    forall|i: int, j: int|
        0 <= i && j == i + 1 && j < records.len() ==> display_order(
            (#[trigger] records[i]).version,
            (#[trigger] records[j]).version,
        ) != Comparison::Greater
}

/// Every record carries a semantic version.
pub open spec fn all_semantic(records: Seq<ChartVersionView>) -> bool {
    forall|i: int| 0 <= i < records.len() ==> semver_valid((#[trigger] records[i]).version)
}

/// No record is listed anywhere above one that ranks before it.
pub open spec fn is_ranked(records: Seq<ChartVersionView>) -> bool {
    forall|i: int, j: int|
        0 <= i < j < records.len() ==> display_order(
            (#[trigger] records[i]).version,
            (#[trigger] records[j]).version,
        ) != Comparison::Greater
}

/// The list is in descending precedence: no record has a higher precedence than one
/// listed above it.
pub open spec fn precedence_descends(records: Seq<ChartVersionView>) -> bool {
    forall|i: int, j: int|
        0 <= i < j < records.len() ==> semver_precedence(
            (#[trigger] records[j]).version,
            (#[trigger] records[i]).version,
        ) != Comparison::Greater
}

/// Among semantic versions a ranked list is in descending precedence.
pub proof fn lemma_ranked_by_precedence(records: Seq<ChartVersionView>)
    requires
        all_semantic(records),
        is_ranked(records),
    ensures
        precedence_descends(records),
{
    assert forall|i: int, j: int| 0 <= i < j < records.len() implies semver_precedence(
        (#[trigger] records[j]).version,
        (#[trigger] records[i]).version,
    ) != Comparison::Greater by {
        assert(display_order(records[i].version, records[j].version) != Comparison::Greater);
    }
}

/// A slot lies inside the run or at its end.
pub proof fn lemma_slot_bounded(run: Seq<ChartVersionView>, version: Seq<char>)
    ensures
        slot(run, version) <= run.len(),
    decreases run.len(),
{
    if run.len() > 0 && display_order(run.last().version, version) == Comparison::Greater {
        lemma_slot_bounded(run.drop_last(), version);
    }
}

/// Arranging keeps every record, as often as it was there, and adds none.
pub proof fn lemma_newest_first_permutes(records: Seq<ChartVersionView>)
    ensures
        newest_first(records).len() == records.len(),
        newest_first(records).to_multiset() == records.to_multiset(),
    decreases records.len(),
{
    broadcast use group_to_multiset_ensures;

    if records.len() > 0 {
        let front = records.drop_last();
        let last = records.last();
        let run = newest_first(front);
        lemma_newest_first_permutes(front);
        lemma_slot_bounded(run, last.version);
        let at = slot(run, last.version) as int;
        let placed = run.insert(at, last);
        run.insert_ensures(at, last);
        assert(placed.remove(at) =~= run);
        assert(placed.to_multiset().remove(last) == run.to_multiset());
        assert(placed.to_multiset() =~= run.to_multiset().insert(last));
        assert(records =~= front.push(last));
    }
}

/// A record that joins a run behind a record that need not follow it, and before one that
/// it ranks before, leaves neighbours in order.
proof fn lemma_placed_descending(run: Seq<ChartVersionView>, at: int, record: ChartVersionView)
    requires
        0 <= at <= run.len(),
        is_descending(run),
        at > 0 ==> display_order(run[at - 1].version, record.version) != Comparison::Greater,
        at < run.len() ==> display_order(record.version, run[at].version) == Comparison::Less,
    ensures
        is_descending(run.insert(at, record)),
{
    let placed = run.insert(at, record);
    assert forall|i: int, j: int| 0 <= i && j == i + 1 && j < placed.len() implies display_order(
        (#[trigger] placed[i]).version,
        (#[trigger] placed[j]).version,
    ) != Comparison::Greater by {
        if j < at {
            assert(placed[i] == run[i] && placed[j] == run[j]);
        } else if j == at {
            assert(placed[i] == run[i]);
        } else if i == at {
            assert(placed[j] == run[at]);
        } else {
            assert(placed[i] == run[i - 1] && placed[j] == run[j - 1]);
        }
    }
}

/// Among semantic versions, a record that joins a ranked run behind a record that need not
/// follow it, and before the records that it ranks before, leaves the run ranked.
proof fn lemma_placed_ranked(run: Seq<ChartVersionView>, at: int, record: ChartVersionView)
    requires
        0 <= at <= run.len(),
        all_semantic(run),
        semver_valid(record.version),
        is_ranked(run),
        at > 0 ==> display_order(run[at - 1].version, record.version) != Comparison::Greater,
        at > 0 ==> carries_over(run[at - 1].version, record.version),
        forall|k: int|
            at <= k < run.len() ==> display_order(record.version, (#[trigger] run[k]).version)
                == Comparison::Less,
    ensures
        all_semantic(run.insert(at, record)),
        is_ranked(run.insert(at, record)),
{
    let placed = run.insert(at, record);
    assert forall|i: int| 0 <= i < placed.len() implies semver_valid(
        (#[trigger] placed[i]).version,
    ) by {
        if i < at {
            assert(placed[i] == run[i]);
        } else if i > at {
            assert(placed[i] == run[i - 1]);
        }
    }
    assert forall|i: int, j: int| 0 <= i < j < placed.len() implies display_order(
        (#[trigger] placed[i]).version,
        (#[trigger] placed[j]).version,
    ) != Comparison::Greater by {
        if j < at {
            assert(placed[i] == run[i] && placed[j] == run[j]);
        } else if j == at {
            assert(placed[i] == run[i]);
            assert(semver_valid(run[i].version));
            if i < at - 1 {
                assert(display_order(run[i].version, run[at - 1].version) != Comparison::Greater);
            }
        } else if i == at {
            assert(placed[j] == run[j - 1]);
        } else if i < at {
            assert(placed[i] == run[i] && placed[j] == run[j - 1]);
        } else {
            assert(placed[i] == run[i - 1] && placed[j] == run[j - 1]);
        }
    }
}

/// Whether `earlier` has to be listed after `later`.
fn ranks_after(earlier: &ChartVersion, later: &ChartVersion) -> (after: bool)
    ensures
        after == (display_order(earlier.version@, later.version@) == Comparison::Greater),
        after ==> display_order(later.version@, earlier.version@) == Comparison::Less,
        !after && semver_valid(earlier.version@) && semver_valid(later.version@) ==> carries_over(
            earlier.version@,
            later.version@,
        ),
{
    match compare_versions(earlier.version.as_str(), later.version.as_str()) {
        Comparison::Greater => true,
        _ => false,
    }
}

/// Arranges the records for display, newest first, keeping the order of those that rank
/// alike. Neighbours are always in order; where every version is a semantic version, so is
/// every pair.
pub fn sort_newest_first<'a>(records: &Vec<&'a ChartVersion>) -> (sorted: Vec<&'a ChartVersion>)
    ensures
        record_views(sorted@) == newest_first(record_views(records@)),
        sorted@.len() == records@.len(),
        record_views(sorted@).to_multiset() == record_views(records@).to_multiset(),
        is_descending(record_views(sorted@)),
        all_semantic(record_views(records@)) ==> is_ranked(record_views(sorted@))
            && precedence_descends(record_views(sorted@)),
{
    let ghost all = record_views(records@);
    let mut sorted: Vec<&'a ChartVersion> = Vec::new();
    let mut next: usize = 0;
    assert(all.take(0) =~= Seq::empty());
    assert(record_views(sorted@) =~= Seq::empty());
    while next < records.len()
        invariant
            all == record_views(records@),
            next <= records.len(),
            sorted@.len() == next,
            record_views(sorted@) == newest_first(all.take(next as int)),
            is_descending(record_views(sorted@)),
            all_semantic(all) ==> all_semantic(record_views(sorted@)) && is_ranked(
                record_views(sorted@),
            ),
        decreases records.len() - next,
    {
        let record = records[next];
        let ghost run = record_views(sorted@);
        let mut at: usize = sorted.len();
        assert(run.take(at as int) == run);
        assert(all[next as int] == record@);
        while at > 0 && ranks_after(sorted[at - 1], record)
            invariant
                run == record_views(sorted@),
                at <= sorted.len(),
                slot(run, record.version@) == slot(run.take(at as int), record.version@),
                forall|k: int|
                    at <= k < run.len() ==> display_order(
                        record.version@,
                        (#[trigger] run[k]).version,
                    ) == Comparison::Less,
            decreases at,
        {
            assert(run.take(at as int).drop_last() == run.take(at - 1));
            at -= 1;
        }
        sorted.insert(at, record);
        proof {
            let placed = run.insert(at as int, record@);
            assert(record_views(sorted@) =~= placed);
            assert(all.take(next + 1).drop_last() == all.take(next as int));
            assert(all.take(next + 1).last() == record@);
            lemma_placed_descending(run, at as int, record@);
            if all_semantic(all) {
                lemma_placed_ranked(run, at as int, record@);
            }
        }
        next += 1;
    }
    proof {
        assert(all.take(next as int) == all);
        lemma_newest_first_permutes(all);
        if all_semantic(all) {
            lemma_ranked_by_precedence(record_views(sorted@));
        }
    }
    sorted
}

} // verus!
