use shape_gateway::text::{
    decimal_string, str_contains_ignore_case, str_eq, str_eq_ignore_case, str_trim,
};

#[test]
fn string_equality_is_character_exact() {
    assert!(str_eq("offset", "offset"));
    assert!(!str_eq("offset", "Offset"));
    assert!(!str_eq("offset", "offse"));
    assert!(str_eq("", ""));
}

#[test]
fn case_insensitive_equality_folds_ascii_only() {
    assert!(str_eq_ignore_case("Backlog", "bACKLOG"));
    assert!(str_eq_ignore_case("", ""));
    assert!(!str_eq_ignore_case("a", "b"));
    assert!(!str_eq_ignore_case("abc", "ab"));
}

#[test]
fn case_insensitive_search_finds_substrings() {
    assert!(str_contains_ignore_case("The Login Page", "login"));
    assert!(str_contains_ignore_case("abc", ""));
    assert!(!str_contains_ignore_case("abc", "abcd"));
    assert!(!str_contains_ignore_case("dashboard", "login"));
}

#[test]
fn trimming_removes_ascii_whitespace_at_both_ends() {
    assert_eq!(str_trim("  hello \t\n"), "hello");
    assert_eq!(str_trim("hello"), "hello");
    assert_eq!(str_trim("   "), "");
    assert_eq!(str_trim(""), "");
    assert_eq!(str_trim(" a b "), "a b");
}

#[test]
fn decimal_rendering_is_exact() {
    assert_eq!(decimal_string(0), "0");
    assert_eq!(decimal_string(7), "7");
    assert_eq!(decimal_string(42), "42");
    assert_eq!(decimal_string(10007), "10007");
}
