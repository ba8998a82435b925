use sentinel_core::text::{
    contains_str, eq_ignore_ascii_case_str, find_sub, join_strings, leading_name_run, match_at,
    replace_all, split_lines, split_plain_nl, starts_with_str, str_eq, trim_end_ws,
};

#[test]
fn replace_all_replaces_every_occurrence() {
    let r = replace_all("a <|user_name|> and <|user_name|>!", "<|user_name|>", "Sam");
    assert_eq!(r, "a Sam and Sam!");
}

#[test]
fn replace_all_leaves_text_without_the_pattern() {
    let r = replace_all("nothing here", "<|user_name|>", "Sam");
    assert_eq!(r, "nothing here");
}

#[test]
fn replace_all_does_not_rescan_replacement_text() {
    // the replacement itself contains the pattern; scanning must move on
    let r = replace_all("xx", "x", "xy");
    assert_eq!(r, "xyxy");
}

#[test]
fn find_sub_returns_earliest_index() {
    assert_eq!(find_sub("abcabc", "bc"), Some(1));
    assert_eq!(find_sub("abcabc", "zz"), None);
    assert_eq!(find_sub("abc", ""), Some(0));
}

#[test]
fn contains_and_prefix_checks() {
    assert!(contains_str("hello world", "lo w"));
    assert!(!contains_str("hello", "world"));
    assert!(starts_with_str("hello", "he"));
    assert!(!starts_with_str("hello", "el"));
    assert!(match_at("hello", 1, "ell"));
}

#[test]
fn str_eq_compares_by_characters() {
    assert!(str_eq("héllo", "héllo"));
    assert!(!str_eq("hello", "hellO"));
}

#[test]
fn trim_end_removes_trailing_whitespace_only() {
    assert_eq!(trim_end_ws("a b \n\t "), "a b");
    assert_eq!(trim_end_ws("  a"), "  a");
    assert_eq!(trim_end_ws(""), "");
}

#[test]
fn split_lines_matches_line_ending_rules() {
    let v = split_lines("one\r\ntwo\nthree\n");
    assert_eq!(v, vec!["one".to_string(), "two".to_string(), "three".to_string()]);
    let v2 = split_lines("");
    assert!(v2.is_empty());
    // a lone carriage return is not a line ending
    let v3 = split_lines("a\rb");
    assert_eq!(v3, vec!["a\rb".to_string()]);
}

#[test]
fn split_plain_nl_keeps_empty_pieces() {
    let v = split_plain_nl("a\n\nb\n");
    assert_eq!(
        v,
        vec!["a".to_string(), "".to_string(), "b".to_string(), "".to_string()]
    );
}

#[test]
fn join_strings_puts_separator_between_parts() {
    let v = vec!["a".to_string(), "b".to_string(), "c".to_string()];
    assert_eq!(join_strings(&v, "\n"), "a\nb\nc");
    let one = vec!["solo".to_string()];
    assert_eq!(join_strings(&one, "\n"), "solo");
    let none: Vec<String> = Vec::new();
    assert_eq!(join_strings(&none, "\n"), "");
}

#[test]
fn ascii_case_insensitive_comparison() {
    assert!(eq_ignore_ascii_case_str("Alice", "aLiCe"));
    assert!(!eq_ignore_ascii_case_str("Alice", "Alice "));
    assert!(!eq_ignore_ascii_case_str("Alice", "Alicia"));
}

#[test]
fn leading_name_run_stops_at_first_other_character() {
    assert_eq!(leading_name_run("Jane-D_2: hi"), 8);
    assert_eq!(leading_name_run(": hi"), 0);
    assert_eq!(leading_name_run("Zoë: hi"), 3);
}
