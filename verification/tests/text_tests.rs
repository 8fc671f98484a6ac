use licenses_md::numbers::{i32_dec, u32_dec};
use licenses_md::quoting::quote_str;
use licenses_md::text::{join_strs, match_at, replace_all, split_str, str_eq};

#[test]
fn replace_all_replaces_every_occurrence() {
    assert_eq!(replace_all("x`<year>`y`<year>`", "`<year>`", "2024"), "x2024y2024");
    assert_eq!(replace_all("abc", "zz", "q"), "abc");
    assert_eq!(replace_all("", "zz", "q"), "");
}

#[test]
fn replace_all_is_left_to_right_and_non_overlapping() {
    assert_eq!(replace_all("aaa", "aa", "b"), "ba");
}

#[test]
fn split_str_matches_std_split() {
    let parts = split_str("mit or apache-2.0", " or ");
    assert_eq!(parts, vec![String::from("mit"), String::from("apache-2.0")]);
    let parts = split_str(" or ", " or ");
    assert_eq!(parts, vec![String::new(), String::new()]);
    let parts = split_str("", " or ");
    assert_eq!(parts, vec![String::new()]);
    let expected: Vec<String> = "a/b//c".split('/').map(String::from).collect();
    assert_eq!(split_str("a/b//c", "/"), expected);
}

#[test]
fn join_strs_interleaves_the_separator() {
    let v = vec![String::from("a"), String::from("b"), String::from("c")];
    assert_eq!(join_strs(&v, "\n\n"), "a\n\nb\n\nc");
    assert_eq!(join_strs(&Vec::new(), ", "), "");
    assert_eq!(join_strs(&vec![String::from("x")], ", "), "x");
}

#[test]
fn match_at_finds_patterns() {
    assert!(match_at("hello world", 6, "world"));
    assert!(!match_at("hello world", 5, "world"));
    assert!(!match_at("short", 3, "long-pattern"));
}

#[test]
fn str_eq_compares_contents() {
    assert!(str_eq("abc", "abc"));
    assert!(!str_eq("abc", "abd"));
    assert!(!str_eq("abc", "abcd"));
}

#[test]
fn decimal_rendering() {
    assert_eq!(u32_dec(0), "0");
    assert_eq!(u32_dec(2024), "2024");
    assert_eq!(u32_dec(1000000), "1000000");
    assert_eq!(i32_dec(-45), "-45");
    assert_eq!(i32_dec(i32::MIN), "-2147483648");
    assert_eq!(i32_dec(i32::MAX), "2147483647");
}

#[test]
fn quoting_wraps_and_escapes() {
    assert_eq!(quote_str("Jane Doe"), "\"Jane Doe\"");
    assert_eq!(quote_str("a\"b"), "\"a\\\"b\"");
    assert_eq!(quote_str("a\\b"), "\"a\\\\b\"");
    assert_eq!(quote_str(""), "\"\"");
    assert_eq!(quote_str("x"), format!("{:?}", "x"));
}
