use replicant::classify::{is_default_branch_error, is_dmca_error};
use replicant::strutil::{
    contains_str, contains_str_ci, eq_ignore_ascii_case, first_nonblank_line, str_le, trim_ascii,
};

#[test]
fn default_branch_error_needs_both_parts() {
    let msg = "error: Your configuration specifies to merge with the ref 'refs/heads/master'\n\
               from the remote, but no such ref was fetched.";
    assert!(is_default_branch_error(msg));
    assert!(!is_default_branch_error(
        "Your configuration specifies to merge with the ref 'refs/heads/master'"
    ));
    assert!(!is_default_branch_error("no such ref was fetched"));
    assert!(!is_default_branch_error("fatal: unable to access repository"));
    assert!(!is_default_branch_error(""));
}

#[test]
fn dmca_error_is_ascii_case_insensitive() {
    assert!(is_dmca_error("Repository unavailable due to DMCA takedown."));
    assert!(is_dmca_error("dmca"));
    assert!(is_dmca_error("blocked (DmCa notice)"));
    assert!(!is_dmca_error("repository not found"));
    assert!(!is_dmca_error(""));
    assert!(!is_dmca_error("dmc"));
}

#[test]
fn substring_search() {
    assert!(contains_str("hello world", "lo wo"));
    assert!(contains_str("hello", ""));
    assert!(!contains_str("", "a"));
    assert!(!contains_str("abc", "abcd"));
    assert!(contains_str("aaab", "aab"));
    assert!(contains_str_ci("HeLLo", "hello"));
    assert!(!contains_str_ci("HeLLo", "world"));
}

#[test]
fn ascii_case_insensitive_equality() {
    assert!(eq_ignore_ascii_case("Alice", "aLICE"));
    assert!(!eq_ignore_ascii_case("alice", "bob"));
    assert!(!eq_ignore_ascii_case("alice", "alicea"));
    assert!(eq_ignore_ascii_case("", ""));
}

#[test]
fn lexicographic_order() {
    assert!(str_le("a", "b"));
    assert!(!str_le("b", "a"));
    assert!(str_le("abc", "abc"));
    assert!(str_le("ab", "abc"));
    assert!(!str_le("abc", "ab"));
    assert!(str_le("", "x"));
    assert!(str_le("alice/zoo", "bob/app"));
}

#[test]
fn trim_and_first_nonblank_line() {
    assert_eq!(trim_ascii("  origin/main \t\n"), "origin/main");
    assert_eq!(trim_ascii("\t \r\n"), "");
    assert_eq!(trim_ascii("x"), "x");
    assert_eq!(
        first_nonblank_line("  \n origin/main \nother"),
        Some(String::from("origin/main"))
    );
    assert_eq!(first_nonblank_line("first\nsecond"), Some(String::from("first")));
    assert_eq!(first_nonblank_line("\n \n\t\n"), None);
    assert_eq!(first_nonblank_line(""), None);
}
