use static_server::text::{find_char_in, find_last_in, split_str, str_eq, str_starts_with};

#[test]
fn finds_first_occurrence() {
    assert_eq!(find_char_in("a?b?c", '?'), Some(1));
    assert_eq!(find_char_in("abc", '?'), None);
    assert_eq!(find_char_in("", '?'), None);
}

#[test]
fn finds_last_occurrence() {
    assert_eq!(find_last_in("a.b.c", '.'), Some(3));
    assert_eq!(find_last_in("abc", '.'), None);
    assert_eq!(find_last_in(".abc", '.'), Some(0));
}

#[test]
fn string_equality_is_exact() {
    assert!(str_eq("wasm", "wasm"));
    assert!(!str_eq("wasm", "wasq"));
    assert!(!str_eq("wasm", "was"));
    assert!(str_eq("", ""));
}

#[test]
fn prefix_test_matches_leading_characters() {
    assert!(str_starts_with("loglvl_base", "loglvl_"));
    assert!(str_starts_with("anything", ""));
    assert!(!str_starts_with("log", "loglvl_"));
    assert!(!str_starts_with("xloglvl_", "loglvl_"));
}

#[test]
fn split_keeps_empty_pieces() {
    let pieces = split_str("a&&b&", '&');
    assert_eq!(pieces, vec!["a", "", "b", ""]);
}

#[test]
fn split_without_separator_is_whole() {
    let pieces = split_str("abc", '&');
    assert_eq!(pieces, vec!["abc"]);
}
