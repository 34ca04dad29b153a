use copycat::emit::{concatenate_file, extension_of, render_heading};
use copycat::patterns::classify_patterns;
use copycat::utils::get_code_block_label;
use copycat::walk::{walk_and_concatenate, FsNode};

fn file(name: &str, content: &str) -> FsNode {
    FsNode::File {
        name: name.to_string(),
        content: Some(content.to_string()),
    }
}

fn binary_file(name: &str) -> FsNode {
    FsNode::File {
        name: name.to_string(),
        content: None,
    }
}

fn dir(name: &str, entries: Vec<FsNode>) -> FsNode {
    FsNode::Dir {
        name: name.to_string(),
        entries,
    }
}

fn table_of(patterns: &[&str]) -> Vec<(String, bool, bool)> {
    classify_patterns(patterns.iter().map(|p| p.to_string()).collect())
}

#[test]
fn label_mapping() {
    assert_eq!(get_code_block_label("rs"), "rust");
    assert_eq!(get_code_block_label("cs"), "csharp");
    assert_eq!(get_code_block_label("sh"), "bash");
    assert_eq!(get_code_block_label("toml"), "toml");
    assert_eq!(get_code_block_label(""), "");
}

#[test]
fn extension_rules() {
    assert_eq!(extension_of("lib.rs"), Some("rs".to_string()));
    assert_eq!(extension_of("archive.tar.gz"), Some("gz".to_string()));
    assert_eq!(extension_of(".bashrc"), None);
    assert_eq!(extension_of("Makefile"), None);
    assert_eq!(extension_of("trailing."), Some("".to_string()));
    assert_eq!(extension_of(".hidden.txt"), Some("txt".to_string()));
}

#[test]
fn block_for_a_text_file() {
    let block = concatenate_file("src/a.rs", "a.rs", Some("fn main(){}\n"));
    assert_eq!(block, "--- src/a.rs ---\n\n```rust\nfn main(){}\n\n```\n\n");
}

#[test]
fn block_for_a_file_without_extension() {
    let block = concatenate_file("LICENSE", "LICENSE", Some("text"));
    assert_eq!(block, "--- LICENSE ---\n\n```plaintext\ntext\n```\n\n");
}

#[test]
fn block_for_undecodable_content_holds_the_sentinel() {
    let block = concatenate_file("img.png", "img.png", None);
    assert_eq!(
        block,
        "--- img.png ---\n\n```png\n<file content not valid UTF-8>\n```\n\n"
    );
}

#[test]
fn heading_names_the_project() {
    assert_eq!(render_heading("demo"), "# demo codebase\n\n");
}

#[test]
fn scenario_single_rust_file_survives() {
    let entries = vec![
        file("a.rs", "fn main(){}"),
        file(".secret", "hidden"),
        file("notes.md", "# notes"),
    ];
    let table = table_of(&["*.md"]);
    let (doc, count) = walk_and_concatenate(&entries, &table, true, 100);
    assert_eq!(count, 1);
    assert_eq!(doc, "--- a.rs ---\n\n```rust\nfn main(){}\n```\n\n");
}

#[test]
fn scenario_anchored_literal_prunes_top_level_directory_only() {
    let entries = vec![
        dir("copycat", vec![file("x.txt", "x")]),
        dir("nested", vec![dir("copycat", vec![file("y.txt", "y")])]),
        dir("copycats", vec![file("z.txt", "z")]),
    ];
    let table = table_of(&["/copycat"]);
    let (doc, count) = walk_and_concatenate(&entries, &table, true, 100);
    assert!(!doc.contains("--- copycat/x.txt ---"));
    assert!(doc.contains("--- nested/copycat/y.txt ---"));
    // Prefix semantics on the relative-path string: `copycats` is excluded too.
    assert!(!doc.contains("z.txt"));
    assert_eq!(count, 1);
}

#[test]
fn hidden_directory_is_pruned_whole() {
    let entries = vec![
        dir(".git", vec![file("HEAD", "ref: x"), dir("objects", vec![file("aa", "bb")])]),
        file("kept.txt", "k"),
    ];
    let table: Vec<(String, bool, bool)> = Vec::new();
    let (doc, count) = walk_and_concatenate(&entries, &table, true, 100);
    assert_eq!(count, 1);
    assert_eq!(doc, "--- kept.txt ---\n\n```txt\nk\n```\n\n");

    let (doc_off, count_off) = walk_and_concatenate(&entries, &table, false, 100);
    assert_eq!(count_off, 3);
    assert!(doc_off.contains("--- .git/HEAD ---"));
    assert!(doc_off.contains("--- .git/objects/aa ---"));
}

#[test]
fn emission_stops_at_the_limit() {
    let entries = vec![
        file("a.txt", "a"),
        dir("sub", vec![file("b.txt", "b"), file("c.txt", "c")]),
        file("d.txt", "d"),
    ];
    let table: Vec<(String, bool, bool)> = Vec::new();
    let (doc, count) = walk_and_concatenate(&entries, &table, true, 2);
    assert_eq!(count, 2);
    assert!(doc.contains("--- a.txt ---"));
    assert!(doc.contains("--- sub/b.txt ---"));
    assert!(!doc.contains("c.txt"));
    assert!(!doc.contains("d.txt"));
}

#[test]
fn limit_zero_emits_nothing() {
    let entries = vec![file("a.txt", "a")];
    let table: Vec<(String, bool, bool)> = Vec::new();
    let (doc, count) = walk_and_concatenate(&entries, &table, true, 0);
    assert_eq!(count, 0);
    assert_eq!(doc, "");
}

#[test]
fn non_text_file_counts_toward_the_limit() {
    let entries = vec![binary_file("blob.bin"), file("late.txt", "late")];
    let table: Vec<(String, bool, bool)> = Vec::new();
    let (doc, count) = walk_and_concatenate(&entries, &table, true, 1);
    assert_eq!(count, 1);
    assert_eq!(
        doc,
        "--- blob.bin ---\n\n```bin\n<file content not valid UTF-8>\n```\n\n"
    );
    assert!(!doc.contains("late.txt"));
}

#[test]
fn walk_is_idempotent_over_an_unchanged_tree() {
    let entries = vec![
        file("a.rs", "x"),
        dir("sub", vec![file("b.md", "m"), binary_file("c.bin")]),
    ];
    let table = table_of(&["*.md"]);
    let first = walk_and_concatenate(&entries, &table, true, 100);
    let second = walk_and_concatenate(&entries, &table, true, 100);
    assert_eq!(first, second);
}

#[test]
fn pre_order_depth_first_ordering() {
    let entries = vec![
        dir("a", vec![file("one.txt", "1"), dir("b", vec![file("two.txt", "2")])]),
        file("three.txt", "3"),
    ];
    let table: Vec<(String, bool, bool)> = Vec::new();
    let (doc, count) = walk_and_concatenate(&entries, &table, true, 100);
    assert_eq!(count, 3);
    let first_block = doc.find("--- a/one.txt ---").unwrap();
    let second_block = doc.find("--- a/b/two.txt ---").unwrap();
    let third_block = doc.find("--- three.txt ---").unwrap();
    assert!(first_block < second_block && second_block < third_block);
}
