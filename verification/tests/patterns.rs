use auth_core::pattern::{chars_of, escape_backslashes, like_chars, matches_pattern};

#[test]
fn plain_pattern_matches_itself_only() {
    assert!(matches_pattern("a@x.com", "a@x.com"));
    assert!(!matches_pattern("a@x.com", "a@x.co"));
    assert!(!matches_pattern("a@x.co", "a@x.com"));
    assert!(!matches_pattern("a@x.com", "A@x.com"));
    assert!(matches_pattern("", ""));
    assert!(!matches_pattern("a", ""));
    assert!(!matches_pattern("", "a"));
}

#[test]
fn percent_matches_any_run() {
    assert!(matches_pattern("", "%"));
    assert!(matches_pattern("anything", "%"));
    assert!(matches_pattern("a@x.com", "%@x.com"));
    assert!(matches_pattern("a@x.com", "a@%"));
    assert!(matches_pattern("a@x.com", "%x%"));
    assert!(matches_pattern("a@x.com", "a%m"));
    assert!(matches_pattern("a@x.com", "%%a@x.com%%"));
    assert!(!matches_pattern("a@x.com", "%@y.com"));
    assert!(!matches_pattern("a@x.com", "b%"));
    assert!(matches_pattern("abcabc", "%abc"));
    assert!(matches_pattern("aaa", "a%a"));
    assert!(!matches_pattern("a", "a%a"));
}

#[test]
fn underscore_matches_one_character() {
    assert!(matches_pattern("a", "_"));
    assert!(!matches_pattern("", "_"));
    assert!(!matches_pattern("ab", "_"));
    assert!(matches_pattern("a@x.com", "_@x.com"));
    assert!(matches_pattern("a@x.com", "_______"));
    assert!(!matches_pattern("a@x.com", "______"));
    assert!(matches_pattern("a@x.com", "_%_"));
    assert!(!matches_pattern("a", "_%_"));
}

#[test]
fn underscore_matches_a_character_of_several_bytes() {
    assert!(matches_pattern("\u{e9}", "_"));
    assert!(matches_pattern("caf\u{e9}@x.com", "caf_@x.com"));
    assert!(!matches_pattern("\u{e9}", "__"));
    assert!(matches_pattern("\u{1f600}a", "_a"));
}

#[test]
fn characters_are_read_one_by_one() {
    assert_eq!(chars_of("a\u{e9}b"), vec!['a', '\u{e9}', 'b']);
    assert_eq!(chars_of(""), Vec::<char>::new());
    assert!(like_chars(&vec!['a', 'b'], &vec!['a', '%']));
    assert!(!like_chars(&vec!['a', 'b'], &vec!['b', '%']));
}

#[test]
fn backslash_stands_for_itself() {
    assert!(matches_pattern("a\\b", "a\\b"));
    assert!(matches_pattern("a\\b", "a\\%"));
    assert!(!matches_pattern("a%", "a\\%"));
    assert!(matches_pattern("a\\%", "a\\%"));
}

#[test]
fn backslashes_are_doubled_for_a_database_that_escapes() {
    assert_eq!(escape_backslashes(""), "");
    assert_eq!(escape_backslashes("a%b_c"), "a%b_c");
    assert_eq!(escape_backslashes("\\"), "\\\\");
    assert_eq!(escape_backslashes("a\\%"), "a\\\\%");
    assert_eq!(escape_backslashes("\\\\"), "\\\\\\\\");
    assert_eq!(escape_backslashes("caf\u{e9}\\x"), "caf\u{e9}\\\\x");
}
