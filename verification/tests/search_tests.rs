use azor::search::{find_bytes, fuzzy_find, split_words, string_of_chars};

#[test]
fn exact_match_ignores_case() {
    assert_eq!(
        fuzzy_find("The Discount can be applied ONLINE when purchasing tickets.", "discount can be applied online"),
        Some((4, 34))
    );
}

#[test]
fn three_word_prefix_match_is_cut_at_the_content_end() {
    assert_eq!(
        fuzzy_find(
            "Refunds are processed within five business days of the request.",
            "refunds are processed quickly in most cases"
        ),
        Some((0, 43))
    );
}

#[test]
fn close_window_is_found_by_edit_distance() {
    assert_eq!(
        fuzzy_find("Customers may upgrade their plan at any time from the dashboard.", "upgrade their plna"),
        Some((13, 31))
    );
    assert_eq!(
        fuzzy_find("Our premium support is available around the clock.", "premium suport is avialable"),
        Some((4, 31))
    );
}

#[test]
fn unrelated_text_is_not_found() {
    assert_eq!(
        fuzzy_find("Customers may upgrade their plan at any time from the dashboard.", "completely unrelated text"),
        None
    );
    assert_eq!(fuzzy_find("Short", "abc"), None);
    assert_eq!(fuzzy_find("Zürich Straße café", "STRASSE"), None);
}

#[test]
fn positions_are_byte_positions() {
    assert_eq!(fuzzy_find("café déjà vu", "DÉJÀ"), Some((6, 12)));
    assert_eq!(fuzzy_find("héllo wörld, this is long", "wörld thís"), Some((7, 18)));
}

#[test]
fn empty_needle_matches_at_start() {
    assert_eq!(fuzzy_find("anything", ""), Some((0, 0)));
}

#[test]
fn find_bytes_finds_the_first_occurrence() {
    assert_eq!(find_bytes(b"abcabc", b"bc"), Some(1));
    assert_eq!(find_bytes(b"abc", b""), Some(0));
    assert_eq!(find_bytes(b"abc", b"abcd"), None);
    assert_eq!(find_bytes(b"aaab", b"ab"), Some(2));
    assert_eq!(find_bytes(b"abc", b"x"), None);
}

#[test]
fn words_split_on_unicode_white_space() {
    let v: Vec<char> = "  one\ttwo\u{3000}three  ".chars().collect();
    let w = split_words(&v);
    let w: Vec<String> = w.iter().map(|x| x.iter().collect()).collect();
    assert_eq!(w, vec!["one", "two", "three"]);
    assert!(split_words(&Vec::new()).is_empty());
}

#[test]
fn string_of_chars_copies_a_range() {
    let v: Vec<char> = "hello".chars().collect();
    assert_eq!(string_of_chars(&v, 1, 4), "ell");
}

#[test]
fn lowered_search_finds_positions_in_the_lowered_text() {
    assert_eq!(
        azor::search::fuzzy_find_lowered("Hello World", "hello world", "world"),
        Some((6, 11))
    );
    assert_eq!(azor::search::fuzzy_find_lowered("Hello World", "hello world", "zzz"), None);
}

#[test]
fn close_windows_are_found_by_edit_distance() {
    // "kitten" against "sitting"-like windows: one substitution away.
    assert_eq!(fuzzy_find("the kitten sat", "kitteN sat"), Some((4, 14)));
    assert_eq!(fuzzy_find("the mitten sat here", "kitten sat"), Some((4, 14)));
}
