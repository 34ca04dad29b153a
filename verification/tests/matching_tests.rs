use copycat::patterns::{classify_patterns, pattern_matches, should_exclude};

fn table_of(patterns: &[&str]) -> Vec<(String, bool, bool)> {
    classify_patterns(patterns.iter().map(|p| p.to_string()).collect())
}

#[test]
fn filename_literal_matches_exact_name_only() {
    let table = table_of(&["README"]);
    assert!(should_exclude("docs/README", "README", &table, false));
    assert!(should_exclude("README", "README", &table, false));
    assert!(!should_exclude("README.md", "README.md", &table, false));
    assert!(!should_exclude("readme", "readme", &table, false));
}

#[test]
fn anchored_literal_prefix_excludes_subtree() {
    let table = table_of(&["build/"]);
    assert!(should_exclude("build/obj/a.o", "a.o", &table, false));
    assert!(should_exclude("build", "build", &table, false));
    assert!(!should_exclude("src/build.rs", "build.rs", &table, false));
}

#[test]
fn leading_slash_is_stripped_before_matching() {
    let table = table_of(&["/copycat"]);
    assert!(should_exclude("copycat", "copycat", &table, false));
    assert!(should_exclude("copycat/out.md", "out.md", &table, false));
    assert!(!should_exclude("nested/copycat", "copycat", &table, false));
}

#[test]
fn anchored_prefix_is_string_based_not_segment_based() {
    let table = table_of(&["/copycat"]);
    assert!(should_exclude("copycats", "copycats", &table, false));
}

#[test]
fn filename_glob_tests_bare_name_only() {
    let table = table_of(&["*.lock"]);
    assert!(should_exclude("Cargo.lock", "Cargo.lock", &table, false));
    assert!(should_exclude("deep/dir/Cargo.lock", "Cargo.lock", &table, false));
    assert!(!should_exclude("lock.rs", "lock.rs", &table, false));
}

#[test]
fn anchored_glob_tests_relative_path() {
    let table = table_of(&["src/*.rs"]);
    assert!(should_exclude("src/lib.rs", "lib.rs", &table, false));
    assert!(!should_exclude("other/lib.rs", "lib.rs", &table, false));
}

#[test]
fn invalid_glob_fails_open() {
    // Three stars in a row do not compile as a glob; the pattern is ignored.
    let table = table_of(&["a***b"]);
    assert!(!should_exclude("ab", "ab", &table, false));
    assert!(!should_exclude("a***b", "a***b", &table, false));
}

#[test]
fn hidden_rule_applies_only_when_enabled() {
    let empty: Vec<(String, bool, bool)> = Vec::new();
    assert!(should_exclude(".git", ".git", &empty, true));
    assert!(!should_exclude(".git", ".git", &empty, false));
    assert!(!should_exclude("src/main.rs", "main.rs", &empty, true));
}

#[test]
fn hidden_rule_takes_precedence_over_empty_table() {
    let table = table_of(&["*.lock"]);
    assert!(should_exclude("sub/.secret", ".secret", &table, true));
}

#[test]
fn pattern_matches_dispatches_on_flags() {
    // The same string behaves differently under each classification.
    let p = "build".to_string();
    assert!(pattern_matches(&p, false, false, "src/build", "build"));
    assert!(!pattern_matches(&p, false, false, "src/build", "build.rs"));
    assert!(pattern_matches(&p, false, true, "build/a.o", "a.o"));
    assert!(!pattern_matches(&p, false, true, "src/build", "build"));
}
