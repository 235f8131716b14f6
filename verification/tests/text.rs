use contrack::text::{char_is_space, split_list, starts_with, text_lt, trim};

#[test]
fn texts_are_ordered_by_their_characters() {
    assert!(text_lt("a", "b"));
    assert!(!text_lt("b", "a"));
    assert!(!text_lt("same", "same"));
    assert!(text_lt("", "a"));
    assert!(!text_lt("a", ""));
    assert!(!text_lt("", ""));
    assert!(text_lt("abc", "abcd"));
    assert!(!text_lt("abcd", "abc"));
    assert!(text_lt("Zeta", "alpha"));
    assert!(text_lt("abd", "abé"));
    assert!(text_lt("z", "é"));
    assert_eq!(text_lt("2024-01-01", "2024-01-02"), "2024-01-01" < "2024-01-02");
}

#[test]
fn a_prefix_starts_a_text() {
    assert!(starts_with("abc123def", "abc123"));
    assert!(starts_with("abc", "abc"));
    assert!(starts_with("abc", ""));
    assert!(starts_with("", ""));
    assert!(!starts_with("abc", "abcd"));
    assert!(!starts_with("abc", "b"));
    assert!(!starts_with("", "a"));
    assert!(starts_with("éa", "é"));
}

#[test]
fn trimming_takes_white_space_from_both_ends() {
    assert_eq!(trim("  a b \t\n"), "a b");
    assert_eq!(trim("ab"), "ab");
    assert_eq!(trim(""), "");
    assert_eq!(trim(" \u{a0}\u{2003}\u{3000} "), "");
    assert_eq!(trim("\u{2028}x\u{85}"), "x");
    assert_eq!(trim("\u{200b}x"), "\u{200b}x");
    for c in ['a', ' ', '\t', '\n', '\u{b}', '\u{c}', '\r', '\u{1c}', '\u{85}', '\u{a0}', '\u{1680}', '\u{2000}', '\u{200a}', '\u{200b}', '\u{2028}', '\u{2029}', '\u{202f}', '\u{205f}', '\u{3000}', '\u{feff}'] {
        assert_eq!(char_is_space(c), c.is_whitespace(), "{:?}", c);
    }
}

#[test]
fn a_list_is_split_at_its_commas() {
    assert_eq!(split_list("abc123"), vec!["abc123"]);
    assert_eq!(split_list("a1, b2 ,c3"), vec!["a1", "b2", "c3"]);
    assert_eq!(split_list(" a1 ,, ,b2,"), vec!["a1", "b2"]);
    assert!(split_list("").is_empty());
    assert!(split_list(" , ,").is_empty());
    assert_eq!(split_list(",x"), vec!["x"]);
    assert_eq!(split_list("a b,c"), vec!["a b", "c"]);
}
