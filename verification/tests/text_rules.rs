use pj_rs::globs::matches_exclude;
use pj_rs::order::str_le;
use pj_rs::text::{eq_lower, extension_of, str_eq, strip_dots_front, to_lower};

fn strs(v: &[&str]) -> Vec<String> {
    v.iter().map(|s| s.to_string()).collect()
}

#[test]
fn extensions_follow_the_last_dot() {
    assert_eq!(extension_of("a.cs"), Some("cs".to_string()));
    assert_eq!(extension_of("archive.tar.gz"), Some("gz".to_string()));
    assert_eq!(extension_of("Gemfile"), None);
    assert_eq!(extension_of(".gitignore"), None);
    assert_eq!(extension_of(".config.yml"), Some("yml".to_string()));
    assert_eq!(extension_of("trailing."), Some("".to_string()));
    assert_eq!(extension_of(""), None);
}

#[test]
fn lowercasing_folds_ascii_letters_only() {
    assert_eq!(to_lower("AbC"), "abc".to_string());
    assert_eq!(to_lower("DLL"), "dll".to_string());
    assert_eq!(to_lower("a-b_9"), "a-b_9".to_string());
    assert_eq!(to_lower(""), "".to_string());
}

#[test]
fn string_comparisons() {
    assert!(str_eq("Gemfile", "Gemfile"));
    assert!(!str_eq("Gemfile", "gemfile"));
    assert!(eq_lower("Cs", "cS"));
    assert!(!eq_lower("cs", "csx"));
    assert_eq!(strip_dots_front("...rb"), "rb");
    assert_eq!(strip_dots_front("rb"), "rb");
    assert_eq!(strip_dots_front("..."), "");
}

#[test]
fn lexicographic_order_on_paths() {
    assert!(str_le("a.txt", "b.txt"));
    assert!(!str_le("b.txt", "a.txt"));
    assert!(str_le("abc", "abc"));
    assert!(str_le("ab", "abc"));
    assert!(!str_le("abc", "ab"));
    // uppercase sorts before lowercase, as byte order does
    assert!(str_le("Gemfile", "app.rb"));
}

#[test]
fn glob_patterns_match_basenames() {
    assert!(matches_exclude(&strs(&["*.gem"]), "app.gem"));
    assert!(!matches_exclude(&strs(&["*.gem"]), "app.rb"));
    assert!(matches_exclude(&strs(&["*.user", "*.suo"]), "proj.suo"));
    assert!(matches_exclude(&strs(&["*.generated.*"]), "Foo.generated.cs"));
    assert!(!matches_exclude(&strs(&["*.generated.*"]), "Foo.cs"));
    assert!(matches_exclude(&strs(&["TemporaryGeneratedFile_*.cs"]), "TemporaryGeneratedFile_x.cs"));
    assert!(matches_exclude(&strs(&[".DS_Store"]), ".DS_Store"));
    assert!(!matches_exclude(&Vec::new(), "anything"));
}

#[test]
fn invalid_glob_pattern_excludes_nothing() {
    assert!(!matches_exclude(&strs(&["[invalid"]), "x.cs"));
    // a valid pattern beside it still applies
    assert!(matches_exclude(&strs(&["[invalid", "*.cs"]), "x.cs"));
}

#[test]
fn overlong_glob_pattern_excludes_nothing() {
    // a pattern beyond the length bound is never handed to globset
    let long = format!("*.{}", "a".repeat(2000));
    let name = format!("x.{}", "a".repeat(2000));
    assert!(!matches_exclude(&vec![long.clone()], &name));
    // a valid pattern beside it still applies
    assert!(matches_exclude(&vec![long, "*.cs".to_string()], "x.cs"));
}
