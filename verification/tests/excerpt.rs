use helm_list_charts::excerpt::ellipsize;

#[test]
fn test_ellipsize_short_text() {
    let text = "Short text";
    let result = ellipsize(text, 50);
    assert_eq!(result, text.to_string());
}

#[test]
fn test_ellipsize_exact_length() {
    let text = "Exact length text";
    let max_chars = text.chars().count();
    let result = ellipsize(text, max_chars);
    assert_eq!(result, text.to_string());
}

#[test]
fn test_ellipsize_long_text_no_space() {
    let text = "abcdefghijk";
    // With no spaces, it should simply cut at max_chars and add ellipsis.
    let result = ellipsize(text, 5);
    assert_eq!(result, "abcde...");
}

#[test]
fn test_ellipsize_long_text_with_space() {
    let text = "This is a longer text that should be cut off gracefully.";
    let result = ellipsize(text, 20);
    // Check that the result ends with an ellipsis.
    assert!(result.ends_with("..."));
    // Ensure it is shorter than the full text.
    assert!(result.len() < text.len());
}

#[test]
fn ellipsize_cuts_at_the_last_space_within_the_budget() {
    let text = "This is a longer text that should be cut off gracefully.";
    // The first 20 characters are "This is a longer tex"; the last space stands before "tex".
    assert_eq!(ellipsize(text, 20), "This is a longer...");
}

#[test]
fn ellipsize_empty_text_stays_empty() {
    assert_eq!(ellipsize("", 50), "");
    assert_eq!(ellipsize("", 0), "");
}

#[test]
fn ellipsize_with_no_budget_leaves_the_marker() {
    assert_eq!(ellipsize("abc", 0), "...");
}

#[test]
fn ellipsize_one_over_the_budget() {
    assert_eq!(ellipsize("abcdef", 5), "abcde...");
    assert_eq!(ellipsize("abcde", 5), "abcde");
}

#[test]
fn ellipsize_drops_white_space_before_the_cut() {
    // Head is "hello   " and its last space is the last character.
    assert_eq!(ellipsize("hello   world and more", 8), "hello...");
    // A tab before the last space goes too.
    assert_eq!(ellipsize("hello\t world", 8), "hello...");
    // A no-break space counts as white space.
    assert_eq!(ellipsize("hello\u{a0} world", 8), "hello...");
}

#[test]
fn ellipsize_keeps_white_space_that_is_no_trailing_one() {
    assert_eq!(ellipsize("a b c d e f", 4), "a b...");
}

#[test]
fn ellipsize_space_first_leaves_only_the_marker() {
    assert_eq!(ellipsize(" abcdefgh", 4), "...");
}

#[test]
fn ellipsize_counts_characters_not_bytes() {
    // Ten characters, twenty bytes.
    let text = "éééééééééé";
    assert_eq!(text.len(), 20);
    assert_eq!(ellipsize(text, 10), text);
    assert_eq!(ellipsize(text, 4), "éééé...");
    assert_eq!(ellipsize("日本語 のテキスト です", 6), "日本語...");
}

#[test]
fn ellipsize_never_exceeds_budget_and_marker() {
    let texts = [
        "",
        "a",
        "no-spaces-at-all-in-this-rather-long-text",
        "some words, then more words, and then even more words",
        "   leading and trailing   ",
        "ünïcödé text with spaces in it",
    ];
    for text in texts {
        for budget in 0..60usize {
            let out = ellipsize(text, budget);
            assert!(out.chars().count() <= budget + 3);
            if text.chars().count() <= budget {
                assert_eq!(out, text);
            } else {
                assert!(out.ends_with("..."));
            }
        }
    }
}

#[test]
fn ellipsize_twice_is_once_where_the_excerpt_fits_or_has_no_space() {
    // The excerpt fits the budget.
    let once = ellipsize("The quick brown fox jumps over the lazy dog", 20);
    assert_eq!(once, "The quick brown fox...");
    let short = ellipsize("aaa bbbbbbbbbbbbbbbbbbbbbbbb", 20);
    assert_eq!(short, "aaa...");
    assert_eq!(ellipsize(&short, 20), short);
    // No space among the first characters.
    let solid = ellipsize("abcdefghijk", 5);
    assert_eq!(ellipsize(&solid, 5), solid);
    // A text within the budget.
    assert_eq!(ellipsize(&ellipsize("abc", 5), 5), "abc");
}

#[test]
fn ellipsize_twice_differs_where_the_excerpt_is_long_and_has_a_space() {
    let once = ellipsize("ab cdefgh ijklmnop", 10);
    assert_eq!(once, "ab cdefgh...");
    assert_eq!(ellipsize(&once, 10), "ab...");
}
