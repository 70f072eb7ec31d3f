use crate::text::{compare_text, lemma_byte_order_flips, text_order, Comparison};
use semver::Version;
use std::cmp::Ordering;
use vstd::prelude::*;
use vstd::utf8::encode_utf8;

verus! {

/// Whether `semver::Version::parse` accepts the text as a semantic version.
pub uninterp spec fn semver_valid(text: Seq<char>) -> bool;

/// How `semver::Version` orders the versions that two accepted texts parse to: the
/// precedence of the first against the second.
pub uninterp spec fn semver_precedence(a: Seq<char>, b: Seq<char>) -> Comparison;

/// Order in which two version strings are listed, newest first: `Less` puts the first
/// string above the second. Two semantic versions go by precedence, the higher one first.
/// Where either string is no semantic version, the raw strings go by their bytes, the
/// greater one first.
pub open spec fn display_order(a: Seq<char>, b: Seq<char>) -> Comparison {
    if semver_valid(a) && semver_valid(b) {
        semver_precedence(b, a)
    } else {
        text_order(b, a)
    }
}

/// Among semantic versions, whatever may be listed above `a` may be listed above `b`.
pub open spec fn carries_over(a: Seq<char>, b: Seq<char>) -> bool {
    forall|c: Seq<char>|
        semver_valid(c) && #[trigger] display_order(c, a) != Comparison::Greater ==> display_order(
            c,
            b,
        ) != Comparison::Greater
}

/// Parses both strings with `semver::Version::parse` and compares the two versions with the
/// `Ord` of `semver::Version`. The result is `None` when either string is rejected, else the
/// precedence of `a` against `b`. The crate documents its order as total. Two consequences
/// are claimed: the precedence of `b` against `a` is the flipped one, and where `a` is not
/// above `b`, it is not above any version that `b` is not above.
#[verifier::external_body]
fn semver_order(a: &str, b: &str) -> (order: Option<Comparison>)
    ensures
        order is Some <==> (semver_valid(a@) && semver_valid(b@)),
        order matches Some(precedence) ==> precedence == semver_precedence(a@, b@),
        order matches Some(precedence) ==> precedence.flipped() == semver_precedence(b@, a@),
        order matches Some(precedence) ==> (precedence != Comparison::Greater ==> forall|
            c: Seq<char>,
        |
            (semver_valid(c) && #[trigger] semver_precedence(b@, c) != Comparison::Greater)
                ==> semver_precedence(a@, c) != Comparison::Greater),
{
    match (Version::parse(a), Version::parse(b)) {
        (Ok(left), Ok(right)) => Some(
            match left.cmp(&right) {
                Ordering::Less => Comparison::Less,
                Ordering::Equal => Comparison::Equal,
                Ordering::Greater => Comparison::Greater,
            },
        ),
        _ => None,
    }
}

/// Settles the listing order of `a` and `b` once the semantic comparison was tried:
/// `semantic` is the precedence of `b` against `a` where both are semantic versions, and
/// `None` where the raw strings decide.
pub fn resolve_order(semantic: Option<Comparison>, a: &str, b: &str) -> (order: Comparison)
    ensures
        order == match semantic {
            Some(precedence) => precedence,
            None => text_order(b@, a@),
        },
{
    match semantic {
        Some(precedence) => precedence,
        None => compare_text(b, a),
    }
}

/// Ranks two version strings for display, newest first. Never fails: a string that is no
/// semantic version makes the pair fall back to the order of the raw strings. Among semantic
/// versions the order carries over: what may stand above `a` may stand above `b` where `a`
/// may.
pub fn compare_versions(a: &str, b: &str) -> (order: Comparison)
    ensures
        order == display_order(a@, b@),
        semver_valid(a@) && semver_valid(b@) ==> order == semver_precedence(b@, a@),
        !(semver_valid(a@) && semver_valid(b@)) ==> order == text_order(b@, a@),
        display_order(b@, a@) == order.flipped(),
        semver_valid(a@) && semver_valid(b@) && order != Comparison::Greater ==> carries_over(
            a@,
            b@,
        ),
{
    proof {
        lemma_byte_order_flips(encode_utf8(b@), encode_utf8(a@));
    }
    resolve_order(semver_order(b, a), a, b)
}

} // verus!
