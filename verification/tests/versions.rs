use helm_list_charts::text::{compare_bytes, compare_text, Comparison};
use helm_list_charts::version::{compare_versions, resolve_order};

#[test]
fn semantic_versions_go_by_precedence_newest_first() {
    // As raw strings "1.19.0" < "1.5.0"; as versions 1.5.0 < 1.19.0.
    assert_eq!(compare_versions("1.19.0", "1.5.0"), Comparison::Less);
    assert_eq!(compare_versions("1.5.0", "1.19.0"), Comparison::Greater);
    assert_eq!(compare_versions("2.0.0", "1.0.0"), Comparison::Less);
    assert_eq!(compare_versions("1.0.0", "2.0.0"), Comparison::Greater);
    assert_eq!(compare_versions("1.2.3", "1.2.3"), Comparison::Equal);
    assert_eq!(compare_versions("10.0.0", "9.0.0"), Comparison::Less);
}

#[test]
fn a_release_is_listed_above_its_pre_releases() {
    assert_eq!(compare_versions("1.0.0", "1.0.0-alpha"), Comparison::Less);
    assert_eq!(compare_versions("1.0.0-alpha", "1.0.0"), Comparison::Greater);
    assert_eq!(compare_versions("1.0.0-beta.11", "1.0.0-beta.2"), Comparison::Less);
    assert_eq!(compare_versions("1.0.0-alpha.1", "1.0.0-alpha.beta"), Comparison::Greater);
}

#[test]
fn strings_that_are_no_versions_go_by_their_bytes_greater_first() {
    assert_eq!(compare_versions("9", "10"), Comparison::Less);
    assert_eq!(compare_versions("10", "9"), Comparison::Greater);
    assert_eq!(compare_versions("latest", "latest"), Comparison::Equal);
    assert_eq!(compare_versions("v2", "v10"), Comparison::Less);
    assert_eq!(compare_versions("", ""), Comparison::Equal);
    assert_eq!(compare_versions("", "a"), Comparison::Greater);
}

#[test]
fn one_string_that_is_no_version_makes_the_pair_fall_back() {
    // "1.19.0" is a version, "1.5" is not: the raw strings decide, and "1.5" > "1.19.0".
    assert_eq!(compare_versions("1.5", "1.19.0"), Comparison::Less);
    assert_eq!(compare_versions("1.19.0", "1.5"), Comparison::Greater);
    assert_eq!(compare_versions("latest", "1.0.0"), Comparison::Less);
    assert_eq!(compare_versions("1.0.0", "latest"), Comparison::Greater);
    assert_eq!(compare_versions("v1.0.0", "1.0.0"), Comparison::Less);
}

#[test]
fn comparing_the_other_way_round_flips_the_order() {
    let versions = ["1.0.0", "1.0.0-rc.1", "2.1.0", "2.1.0+build", "latest", "1.5", "", "0.0.1"];
    for a in versions {
        for b in versions {
            let forth = compare_versions(a, b);
            let back = compare_versions(b, a);
            let flipped = match forth {
                Comparison::Less => Comparison::Greater,
                Comparison::Equal => Comparison::Equal,
                Comparison::Greater => Comparison::Less,
            };
            assert_eq!(back, flipped);
        }
    }
}

#[test]
fn resolve_order_takes_the_semantic_result_or_the_raw_strings() {
    assert_eq!(resolve_order(Some(Comparison::Less), "a", "b"), Comparison::Less);
    assert_eq!(resolve_order(Some(Comparison::Greater), "b", "a"), Comparison::Greater);
    assert_eq!(resolve_order(Some(Comparison::Equal), "a", "b"), Comparison::Equal);
    assert_eq!(resolve_order(None, "a", "b"), Comparison::Greater);
    assert_eq!(resolve_order(None, "b", "a"), Comparison::Less);
    assert_eq!(resolve_order(None, "a", "a"), Comparison::Equal);
}

#[test]
fn compare_text_goes_by_bytes() {
    assert_eq!(compare_text("abc", "abd"), Comparison::Less);
    assert_eq!(compare_text("abc", "ab"), Comparison::Greater);
    assert_eq!(compare_text("ab", "abc"), Comparison::Less);
    assert_eq!(compare_text("", ""), Comparison::Equal);
    assert_eq!(compare_text("Z", "a"), Comparison::Less);
    assert_eq!(compare_text("é", "z"), Comparison::Greater);
    assert_eq!(compare_text("1.19.0", "1.5.0"), Comparison::Less);
}

#[test]
fn compare_bytes_agrees_with_the_order_of_slices() {
    let samples: [&[u8]; 6] = [b"", b"a", b"ab", b"b", b"\xff", b"a\x00"];
    for a in samples {
        for b in samples {
            let expected = if a < b {
                Comparison::Less
            } else if a > b {
                Comparison::Greater
            } else {
                Comparison::Equal
            };
            assert_eq!(compare_bytes(a, b), expected);
        }
    }
}
