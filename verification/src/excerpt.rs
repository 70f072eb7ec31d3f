use crate::text::{is_white_space, white_space};
use vstd::prelude::*;
use vstd::string::*;

verus! {

/// The marker that ends a shortened text.
pub open spec fn ellipsis() -> Seq<char> {
    seq!['.', '.', '.']
}

/// Index of the last space of `s`, if it has one.
pub open spec fn last_space(s: Seq<char>) -> Option<int>
    decreases s.len(),
{
    if s.len() == 0 {
        None
    } else if s.last() == ' ' {
        Some(s.len() - 1)
    } else {
        last_space(s.drop_last())
    }
}

/// Length of `s` without the white space at its end.
pub open spec fn trimmed_len(s: Seq<char>) -> nat
    decreases s.len(),
{
    if s.len() > 0 && is_white_space(s.last()) {
        trimmed_len(s.drop_last())
    } else {
        s.len()
    }
}

/// How much of `head` a shortened text keeps: what stands before the last space, without
/// the white space at its end, or all of `head` where it has no space.
pub open spec fn kept_len(head: Seq<char>) -> nat {
    match last_space(head) {
        Some(at) => trimmed_len(head.take(at)),
        None => head.len(),
    }
}

/// `s` shortened to a budget of characters. A text within the budget stays as it is. A
/// longer one is cut to its first `budget` characters and then back to the last space
/// among them, and ends in the ellipsis.
pub open spec fn excerpt(s: Seq<char>, budget: nat) -> Seq<char> {
    if s.len() <= budget {
        s
    } else {
        let head = s.take(budget as int);
        head.take(kept_len(head) as int) + ellipsis()
    }
}

/// The last space is a space, stands inside the text, and no space follows it; a text
/// without one holds no space at all.
pub proof fn lemma_last_space(s: Seq<char>)
    ensures
        match last_space(s) {
            Some(at) => 0 <= at < s.len() && s[at] == ' ' && forall|i: int|
                at < i < s.len() ==> s[i] != ' ',
            None => forall|i: int| 0 <= i < s.len() ==> s[i] != ' ',
        },
    decreases s.len(),
{
    if s.len() > 0 && s.last() != ' ' {
        let front = s.drop_last();
        lemma_last_space(front);
        assert forall|i: int| 0 <= i < front.len() implies front[i] == s[i] by {}
        match last_space(front) {
            Some(at) => {
                assert forall|i: int| at < i < s.len() implies s[i] != ' ' by {
                    if i < front.len() {
                        assert(front[i] != ' ');
                    }
                }
            },
            None => {
                assert forall|i: int| 0 <= i < s.len() implies s[i] != ' ' by {
                    if i < front.len() {
                        assert(front[i] != ' ');
                    }
                }
            },
        }
    }
}

/// Trimming never lengthens a text.
pub proof fn lemma_trimmed_len_bounded(s: Seq<char>)
    ensures
        trimmed_len(s) <= s.len(),
    decreases s.len(),
{
    if s.len() > 0 && is_white_space(s.last()) {
        lemma_trimmed_len_bounded(s.drop_last());
    }
}

/// A shortened text keeps no more than it was given, and less where it was cut at a space.
pub proof fn lemma_kept_len_bounded(head: Seq<char>)
    ensures
        kept_len(head) <= head.len(),
        last_space(head) is Some ==> kept_len(head) < head.len(),
{
    lemma_last_space(head);
    if let Some(at) = last_space(head) {
        lemma_trimmed_len_bounded(head.take(at));
    }
}

/// An excerpt is never longer than the budget and the ellipsis together, and a text within
/// the budget is its own excerpt.
pub proof fn lemma_excerpt_bounded(s: Seq<char>, budget: nat)
    ensures
        excerpt(s, budget).len() <= budget + 3,
        s.len() <= budget ==> excerpt(s, budget) == s,
{
    if s.len() > budget {
        lemma_kept_len_bounded(s.take(budget as int));
    }
}

/// Shortening an excerpt again gives the same excerpt exactly when the text was within the
/// budget, its excerpt is, or its first `budget` characters hold no space.
pub proof fn lemma_excerpt_idempotent(s: Seq<char>, budget: nat)
    ensures
        excerpt(excerpt(s, budget), budget) == excerpt(s, budget) <==> (s.len() <= budget
            || excerpt(s, budget).len() <= budget || last_space(s.take(budget as int)) is None),
{
    let once = excerpt(s, budget);
    if s.len() > budget && once.len() > budget {
        let head = s.take(budget as int);
        let kept = kept_len(head);
        lemma_kept_len_bounded(head);
        let again_head = once.take(budget as int);
        if last_space(head) is None {
            assert(again_head =~= head);
        } else {
            assert forall|i: int| kept <= i < budget implies again_head[i] != ' ' by {
                assert(again_head[i] == ellipsis()[i - kept]);
            }
            lemma_last_space(again_head);
            lemma_kept_len_bounded(again_head);
            if let Some(at) = last_space(again_head) {
                lemma_trimmed_len_bounded(again_head.take(at));
            }
            assert(kept_len(again_head) != kept);
            assert(excerpt(once, budget).len() != once.len());
        }
    }
}

/// Where a shortened text ends: see [`kept_len`].
fn cut_point(head: &Vec<char>) -> (keep: usize)
    ensures
        keep == kept_len(head@),
        keep <= head.len(),
{
    let mut space_end: usize = head.len();
    assert(head@.take(space_end as int) == head@);
    while space_end > 0 && head[space_end - 1] != ' '
        invariant
            space_end <= head.len(),
            last_space(head@) == last_space(head@.take(space_end as int)),
        decreases space_end,
    {
        assert(head@.take(space_end as int).drop_last() == head@.take(space_end - 1));
        space_end -= 1;
    }
    if space_end == 0 {
        return head.len();
    }
    let at: usize = space_end - 1;
    let mut keep: usize = at;
    while keep > 0 && white_space(head[keep - 1])
        invariant
            keep <= at < head.len(),
            trimmed_len(head@.take(at as int)) == trimmed_len(head@.take(keep as int)),
        decreases keep,
    {
        assert(head@.take(keep as int).drop_last() == head@.take(keep - 1));
        keep -= 1;
    }
    keep
}

/// Shortens `text` to at most `max_chars` characters, counted as Unicode scalar values,
/// cutting at a word boundary and marking the cut with `...`.
pub fn ellipsize(text: &str, max_chars: usize) -> (out: String)
    ensures
        out@ == excerpt(text@, max_chars as nat),
        out@.len() <= max_chars + 3,
        text@.len() <= max_chars ==> out@ == text@,
{
    broadcast use vstd::string::group_string_axioms;

    let mut head: Vec<char> = Vec::new();
    let mut longer: bool = false;
    for c in it: text.chars()
        invariant
            it.seq() == text@,
            0 <= it.index() <= text@.len(),
            head.len() <= max_chars,
            head@ == text@.take(if it.index() <= max_chars { it.index() } else { max_chars as int }),
            longer == (it.index() > max_chars),
    {
        if head.len() < max_chars {
            head.push(c);
        } else {
            longer = true;
        }
    }
    proof {
        lemma_excerpt_bounded(text@, max_chars as nat);
    }
    if !longer {
        return text.to_owned();
    }
    let keep = cut_point(&head);
    let mut out = text.substring_char(0, keep).to_owned();
    out.append("...");
    proof {
        reveal_strlit("...");
        assert("..."@ == ellipsis());
        assert(text@.subrange(0, keep as int) == head@.take(keep as int));
    }
    out
}

} // verus!
