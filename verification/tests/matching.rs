//! Glob matching, text primitives and list sources on concrete values.

use nvidia_hide::glob::glob_match;
use nvidia_hide::lists::{env_is_truthy, env_list_has_match, file_list_has_match, xdg_path};
use nvidia_hide::text::{basename, trim};

#[test]
fn trim_strips_surrounding_whitespace() {
    assert_eq!(trim("  hello \t\r\n"), "hello");
    assert_eq!(trim("hello"), "hello");
    assert_eq!(trim(" \t\n\r"), "");
    assert_eq!(trim(""), "");
    assert_eq!(trim("a b"), "a b");
}

#[test]
fn basename_takes_final_segment() {
    assert_eq!(basename("/usr/bin/python3"), "python3");
    assert_eq!(basename("python3"), "python3");
    assert_eq!(basename("/usr/bin/"), "");
    assert_eq!(basename(""), "");
    assert_eq!(basename("a/b/c"), "c");
}

#[test]
fn glob_literal_and_wildcards() {
    assert!(glob_match("python3", "/usr/bin/python3", "python3"));
    assert!(!glob_match("python3", "/usr/bin/python2", "python2"));
    assert!(glob_match("python*", "/usr/bin/python3", "python3"));
    assert!(glob_match("*", "/usr/bin/python3", "python3"));
    assert!(glob_match("python?", "/usr/bin/python3", "python3"));
    assert!(!glob_match("python?", "/usr/bin/python", "python"));
    assert!(glob_match("*thon3", "/usr/bin/python3", "python3"));
    assert!(glob_match("p*n*", "/usr/bin/python3", "python3"));
}

#[test]
fn glob_bracket_expressions() {
    assert!(glob_match("python[23]", "/usr/bin/python3", "python3"));
    assert!(!glob_match("python[45]", "/usr/bin/python3", "python3"));
    assert!(glob_match("python[0-9]", "/usr/bin/python3", "python3"));
    assert!(!glob_match("python[!0-9]", "/usr/bin/python3", "python3"));
    assert!(glob_match("python[!abc]", "/usr/bin/python3", "python3"));
    assert!(glob_match("python[^abc]", "/usr/bin/python3", "python3"));
    // a `]` standing first in the set is a member
    assert!(glob_match("x[]ab]", "/x]", "x]"));
    // an unterminated `[` is a literal
    assert!(glob_match("x[", "/tmp/x[", "x["));
    // `-` first or last is a literal
    assert!(glob_match("x[-a]", "/x-", "x-"));
    assert!(glob_match("x[a-]", "/x-", "x-"));
}

#[test]
fn glob_nul_bearing_input_never_matches() {
    // a NUL cannot live in a C string: malformed input fails to "no match"
    assert!(!glob_match("\0", "/x", "\0"));
    assert!(!glob_match("[!\0]", "/x", "x"));
    assert!(!glob_match("a\0b", "/a\0b", "a\0b"));
    assert!(!glob_match("*", "/x", "a\0"));
    assert!(!glob_match("/usr/*", "/usr/b\0in", "bin"));
    // a NUL in the string the pattern does not select changes nothing
    assert!(glob_match("python3", "/with\0nul/python3", "python3"));
    assert!(glob_match("/usr/bin/*", "/usr/bin/python3", "ba\0se"));
}

#[test]
fn glob_empty_pattern_matches_empty_string_only() {
    assert!(glob_match("", "/usr/bin/x", ""));
    assert!(!glob_match("", "/usr/bin/x", "x"));
    assert!(glob_match("*", "/usr/bin/x", ""));
}

#[test]
fn glob_pattern_with_slash_reads_full_path() {
    // no separator: only the base name decides
    assert!(glob_match("python3", "/anything/at/all", "python3"));
    assert!(!glob_match("python3", "/usr/bin/python3", "other"));
    // separator: only the full path decides
    assert!(glob_match("/usr/bin/*", "/usr/bin/python3", "unrelated"));
    assert!(!glob_match("/usr/bin/*", "/opt/python3", "python3"));
}

#[test]
fn env_list_matching() {
    let v = String::from("vim : python* :  ");
    assert!(env_list_has_match(Some(&v), "/usr/bin/python3", "python3"));
    let v2 = String::from("vim:emacs");
    assert!(!env_list_has_match(Some(&v2), "/usr/bin/python3", "python3"));
    assert!(!env_list_has_match(None, "/usr/bin/python3", "python3"));
    let empty = String::from("");
    assert!(!env_list_has_match(Some(&empty), "/usr/bin/python3", "python3"));
}

#[test]
fn file_list_matching_and_entries() {
    let text = String::from("# comment\n\n  python*  \nvim\n");
    let (matched, had) = file_list_has_match(Some(&text), "/usr/bin/python3", "python3");
    assert!(matched);
    assert!(had);
    let comments_only = String::from("# a\n   \n# b\n");
    let (matched2, had2) = file_list_has_match(Some(&comments_only), "/usr/bin/python3", "python3");
    assert!(!matched2);
    assert!(!had2);
    let (matched3, had3) = file_list_has_match(None, "/usr/bin/python3", "python3");
    assert!(!matched3);
    assert!(!had3);
}

#[test]
fn truthy_env_values() {
    let one = String::from("1");
    let zero = String::from("0");
    let empty = String::from("");
    assert!(env_is_truthy(Some(&one)));
    assert!(!env_is_truthy(Some(&zero)));
    assert!(!env_is_truthy(Some(&empty)));
    assert!(!env_is_truthy(None));
}

#[test]
fn config_file_location() {
    let xdg = String::from("/home/u/.cfg");
    let home = String::from("/home/u");
    assert_eq!(
        xdg_path(Some(&xdg), Some(&home), "allowlist"),
        "/home/u/.cfg/nvidia-hide/allowlist"
    );
    assert_eq!(
        xdg_path(None, Some(&home), "denylist"),
        "/home/u/.config/nvidia-hide/denylist"
    );
    assert_eq!(xdg_path(None, None, "allowlist"), "/nonexistent/allowlist");
}
