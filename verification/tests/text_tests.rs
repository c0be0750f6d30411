use futils::text::{basename, dashes, parse_u32, str_contains, str_eq, str_replace};

#[test]
fn parse_u32_accepts_plain_numbers() {
    assert_eq!(parse_u32("0"), Some(0));
    assert_eq!(parse_u32("5"), Some(5));
    assert_eq!(parse_u32("007"), Some(7));
    assert_eq!(parse_u32("4294967295"), Some(u32::MAX));
}

#[test]
fn parse_u32_accepts_leading_plus() {
    assert_eq!(parse_u32("+12"), Some(12));
}

#[test]
fn parse_u32_rejects_bad_numbers() {
    assert_eq!(parse_u32(""), None);
    assert_eq!(parse_u32("+"), None);
    assert_eq!(parse_u32("12a"), None);
    assert_eq!(parse_u32("-3"), None);
    assert_eq!(parse_u32("4294967296"), None);
}

#[test]
fn str_eq_compares_contents() {
    assert!(str_eq("abc", "abc"));
    assert!(!str_eq("abc", "abd"));
    assert!(!str_eq("abc", "ab"));
    assert!(str_eq("", ""));
}

#[test]
fn str_contains_finds_substrings() {
    assert!(str_contains("hello world", "lo wo"));
    assert!(str_contains("hello", "hello"));
    assert!(str_contains("hello", ""));
    assert!(!str_contains("hello", "world"));
    assert!(!str_contains("he", "hello"));
}

#[test]
fn str_replace_replaces_every_occurrence() {
    assert_eq!(str_replace("aaa", "aa", "b"), "ba");
    assert_eq!(str_replace("hello hello", "hello", "hi"), "hi hi");
    assert_eq!(str_replace("abc", "x", "y"), "abc");
    assert_eq!(str_replace("", "x", "y"), "");
}

#[test]
fn str_replace_with_empty_pattern_inserts_everywhere() {
    assert_eq!(str_replace("ab", "", "-"), "-a-b-");
    assert_eq!(str_replace("", "", "-"), "-");
}

#[test]
fn basename_takes_the_last_component() {
    assert_eq!(basename("./a/hello.txt"), "hello.txt");
    assert_eq!(basename("hello.txt"), "hello.txt");
    assert_eq!(basename("a\\b\\c.txt"), "c.txt");
    assert_eq!(basename("a/"), "");
    assert_eq!(basename(""), "");
}

#[test]
fn dashes_repeats() {
    assert_eq!(dashes(4), "----");
    assert_eq!(dashes(0), "");
}
