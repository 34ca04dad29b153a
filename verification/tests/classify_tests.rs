use copycat::config::Config;
use copycat::patterns::{classify_patterns, filter_ignore_lines};

#[test]
fn default_config_values() {
    let c = Config::default();
    assert_eq!(c.output, "copycat/concatenated_codebase.md");
    assert_eq!(c.exclude, vec!["*.lock".to_string(), "*.md".to_string()]);
    assert!(c.includes.is_empty());
    assert!(c.ignore_hidden);
}

#[test]
fn classify_flags() {
    let table = classify_patterns(vec![
        "*.lock".to_string(),
        "target/".to_string(),
        "/copycat".to_string(),
        "README".to_string(),
        "src/*.rs".to_string(),
        "a?c".to_string(),
    ]);
    let expected = vec![
        ("*.lock".to_string(), true, false),
        ("target/".to_string(), false, true),
        ("/copycat".to_string(), false, true),
        ("README".to_string(), false, false),
        ("src/*.rs".to_string(), true, true),
        ("a?c".to_string(), true, false),
    ];
    assert_eq!(table, expected);
}

#[test]
fn classify_keeps_order_and_length() {
    let table = classify_patterns(vec!["b".to_string(), "a".to_string()]);
    assert_eq!(table.len(), 2);
    assert_eq!(table[0].0, "b");
    assert_eq!(table[1].0, "a");
}

#[test]
fn filter_drops_blank_and_comment_lines() {
    let kept = filter_ignore_lines(vec![
        "target/".to_string(),
        "".to_string(),
        "   ".to_string(),
        "# a comment".to_string(),
        "\t".to_string(),
        "*.log".to_string(),
    ]);
    assert_eq!(kept, vec!["target/".to_string(), "*.log".to_string()]);
}

#[test]
fn filter_drops_unicode_whitespace_lines() {
    // A line of only Unicode whitespace trims to nothing and is dropped,
    // exactly as str::trim sees it.
    let kept = filter_ignore_lines(vec![
        "\u{a0}".to_string(),
        "\u{2003}\u{2003}".to_string(),
        " \u{3000} ".to_string(),
        "keep".to_string(),
        "\u{a0}padded".to_string(),
    ]);
    assert_eq!(kept, vec!["keep".to_string(), "\u{a0}padded".to_string()]);
    for line in ["\u{a0}", "\u{2003}\u{2003}", " \u{3000} "] {
        assert!(line.trim().is_empty());
    }
}

#[test]
fn filter_keeps_everything_else_in_order() {
    let kept = filter_ignore_lines(vec![
        "/copycat".to_string(),
        " spaced pattern".to_string(),
    ]);
    assert_eq!(
        kept,
        vec!["/copycat".to_string(), " spaced pattern".to_string()]
    );
}
