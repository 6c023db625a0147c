use adb_client::text::{split_lines, str_lt, tokenize, split_pair};

#[test]
fn tokenize_splits_on_any_whitespace_run() {
    let toks = tokenize("a  b\tc");
    assert_eq!(toks, vec!["a".to_string(), "b".to_string(), "c".to_string()]);
    assert_eq!(tokenize("  "), Vec::<String>::new());
    assert_eq!(tokenize(""), Vec::<String>::new());
}

#[test]
fn split_lines_matches_line_iteration() {
    assert_eq!(split_lines("a\nb\n"), vec!["a".to_string(), "b".to_string()]);
    assert_eq!(split_lines("a\r\nb"), vec!["a".to_string(), "b".to_string()]);
    assert_eq!(split_lines(""), Vec::<String>::new());
    assert_eq!(split_lines("\n\n"), vec!["".to_string(), "".to_string()]);
}

#[test]
fn string_order_is_lexicographic() {
    assert!(str_lt("abc", "abd"));
    assert!(str_lt("ab", "abc"));
    assert!(!str_lt("b", "a"));
    assert!(!str_lt("a", "a"));
}

#[test]
fn pair_splitting_needs_exactly_one_colon() {
    assert_eq!(split_pair("k:v"), Some(("k".to_string(), "v".to_string())));
    assert_eq!(split_pair("kv"), None);
    assert_eq!(split_pair("a:b:c"), None);
    assert_eq!(split_pair(":"), Some(("".to_string(), "".to_string())));
}
