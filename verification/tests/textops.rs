//! Path arithmetic and text utilities.

use adbook::path::{join_str, normalize_str, resolve_str, strip_prefix, with_extension};
use adbook::text::{replace_all, split_lines, str_to_chars, trim, u64_to_chars};

fn chars(s: &str) -> Vec<char> {
    str_to_chars(s)
}

fn string_of(v: &Vec<char>) -> String {
    v.iter().collect()
}

#[test]
fn join_inserts_a_single_slash() {
    assert_eq!(join_str(&"/p".to_string(), &"src".to_string()), "/p/src");
    assert_eq!(join_str(&"/p/".to_string(), &"src".to_string()), "/p/src");
    assert_eq!(join_str(&"".to_string(), &"src".to_string()), "src");
    // an absolute right side replaces the base
    assert_eq!(join_str(&"/p".to_string(), &"/q".to_string()), "/q");
}

#[test]
fn normalize_resolves_dots() {
    assert_eq!(normalize_str(&"/p/src/sub/..".to_string()), "/p/src");
    assert_eq!(normalize_str(&"/p/./src//x".to_string()), "/p/src/x");
    assert_eq!(normalize_str(&"a/b/../c".to_string()), "a/c");
    assert_eq!(resolve_str(&"/p/src".to_string(), &"..".to_string()), "/p");
}

#[test]
fn extension_swap_follows_the_file_name() {
    assert_eq!(string_of(&with_extension(&chars("/p/a.adoc"), "html")), "/p/a.html");
    assert_eq!(string_of(&with_extension(&chars("/p/a"), "html")), "/p/a.html");
    assert_eq!(string_of(&with_extension(&chars("/p/.hidden"), "html")), "/p/.hidden.html");
    assert_eq!(string_of(&with_extension(&chars("a.b.c"), "html")), "a.b.html");
}

#[test]
fn prefix_strip_needs_a_whole_component() {
    assert_eq!(
        strip_prefix(&chars("/p/src/a.adoc"), &chars("/p/src")).map(|v| string_of(&v)),
        Some("a.adoc".to_string())
    );
    assert_eq!(strip_prefix(&chars("/p/srcx/a.adoc"), &chars("/p/src")), None);
    assert_eq!(
        strip_prefix(&chars("/p/src"), &chars("/p/src")).map(|v| string_of(&v)),
        Some("".to_string())
    );
}

#[test]
fn replace_all_substitutes_every_occurrence() {
    let r = replace_all(&chars("x{v}y{v}"), "{v}", &chars("1"));
    assert_eq!(string_of(&r), "x1y1");
    let none = replace_all(&chars("plain"), "{v}", &chars("1"));
    assert_eq!(string_of(&none), "plain");
}

#[test]
fn lines_split_like_the_standard_library() {
    let ls = split_lines(&chars("a\r\nb\nc"));
    let got: Vec<String> = ls.iter().map(string_of).collect();
    assert_eq!(got, vec!["a".to_string(), "b".to_string(), "c".to_string()]);
    let trailing = split_lines(&chars("a\n"));
    assert_eq!(trailing.len(), 1);
}

#[test]
fn trim_strips_surrounding_whitespace() {
    assert_eq!(string_of(&trim(&chars("  a b\t\n"))), "a b");
    assert_eq!(string_of(&trim(&chars("   "))), "");
}

#[test]
fn decimal_rendering_is_exact() {
    assert_eq!(string_of(&u64_to_chars(0)), "0");
    assert_eq!(string_of(&u64_to_chars(7)), "7");
    assert_eq!(string_of(&u64_to_chars(1203)), "1203");
}
