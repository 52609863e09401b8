use mellow::text::{
    decimal_string, find_char, join_strings, parse_u64, parse_usize, split_path_str, str_contains, str_ends_with,
    str_equal, str_starts_with, substring,
};

#[test]
fn decimal_notation() {
    assert_eq!(decimal_string(0), "0");
    assert_eq!(decimal_string(7), "7");
    assert_eq!(decimal_string(1234567890), "1234567890");
    assert_eq!(decimal_string(u64::MAX), "18446744073709551615");
}

#[test]
fn parsing_reads_what_decimal_writes() {
    for n in [0u64, 1, 9, 10, 99, 1000, 123456789012, u64::MAX] {
        assert_eq!(parse_u64(&decimal_string(n)), Some(n));
    }
}

#[test]
fn parsing_follows_std() {
    for s in ["", "+", "-1", "12a", " 1", "18446744073709551616", "00012", "+7", "0"] {
        assert_eq!(parse_u64(s), s.parse::<u64>().ok(), "{s}");
        assert_eq!(parse_usize(s), s.parse::<usize>().ok(), "{s}");
    }
}

#[test]
fn paths_split_at_double_colons() {
    assert_eq!(split_path_str("a::b::c"), vec!["a", "b", "c"]);
    assert_eq!(split_path_str("abc"), vec!["abc"]);
    assert_eq!(split_path_str(""), vec![""]);
    assert_eq!(split_path_str("a:b"), vec!["a:b"]);
    assert_eq!(split_path_str("a::"), vec!["a", ""]);
    assert_eq!(split_path_str("a:::b"), "a:::b".split("::").collect::<Vec<_>>());
}

#[test]
fn searching_strings() {
    assert!(str_contains("hello", "ell"));
    assert!(str_contains("hello", ""));
    assert!(!str_contains("hello", "hello!"));
    assert!(str_starts_with("hello", "he"));
    assert!(str_ends_with("hello", "lo"));
    assert!(!str_ends_with("lo", "hello"));
    assert!(str_equal("ab", "ab"));
    assert!(!str_equal("ab", "abc"));
    assert_eq!(find_char("name:123", ':'), Some(4));
    assert_eq!(find_char("name", ':'), None);
    assert_eq!(substring("héllo", 1, 4), "éll");
}

#[test]
fn joining_strings() {
    let v = vec!["a".to_string(), "b".to_string(), "c".to_string()];
    assert_eq!(join_strings(&v, "\n"), "a\nb\nc");
    assert_eq!(join_strings(&vec![], ", "), "");
    assert_eq!(join_strings(&vec!["x".to_string()], ", "), "x");
}
