use fastn::text::{replace_str, trim};
use fastn::text::{
    ends_with, replace_char, rsplit_once_char, split_once_str, starts_with,
    str_eq, strip_suffix, trim_end_matches, trim_start_matches,
};

#[test]
fn prefixes_and_suffixes() {
    assert!(starts_with("hello", "he"));
    assert!(starts_with("hello", ""));
    assert!(!starts_with("he", "hello"));
    assert!(ends_with("hello", "llo"));
    assert!(!ends_with("hello", "hel"));
    assert_eq!(strip_suffix("logo.light", ".light").as_deref(), Some("logo"));
    assert_eq!(strip_suffix("logo", ".light"), None);
    assert!(str_eq("añb", "añb"));
    assert!(!str_eq("ab", "abc"));
}

#[test]
fn trimming_repeats() {
    assert_eq!(trim_start_matches("//a/", "/"), "a/");
    assert_eq!(trim_start_matches("files.files.x", "files."), "x");
    assert_eq!(trim_start_matches("abc", ""), "abc");
    assert_eq!(trim_end_matches("a/assets/assets", "/assets"), "a");
    assert_eq!(trim_end_matches("a//", "/"), "a");
}

#[test]
fn splitting_and_replacing() {
    assert_eq!(
        rsplit_once_char("a.b.png", '.'),
        Some(("a.b".to_string(), "png".to_string()))
    );
    assert_eq!(rsplit_once_char("noext", '.'), None);
    assert_eq!(replace_char("a.b.c", '.', "/"), "a/b/c");
    assert_eq!(
        split_once_str("pkg/assets#files.logo.png", "/assets#files."),
        Some(("pkg".to_string(), "logo.png".to_string()))
    );
    assert_eq!(split_once_str("pkg#x", "/assets#files."), None);
}

#[test]
fn trimming_white_space_and_replacing() {
    assert_eq!(trim("  a b \t\n"), "a b");
    assert_eq!(trim("\u{3000}x\u{a0}"), "x");
    assert_eq!(trim("   "), "");
    assert_eq!(replace_str("a/index.html/index.html", "/index.html", "/"), "a//");
    assert_eq!(replace_str("aaa", "aa", "b"), "ba");
}
