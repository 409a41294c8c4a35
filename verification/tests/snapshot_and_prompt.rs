use code_review::prompt::build_prompt;
use code_review::snapshot::Snapshot;

const CLOSING: &str = "\nPlease provide a detailed code review focusing on:\n1. Potential bugs or issues\n2. Code style and best practices\n3. Performance implications\n4. Security considerations\n5. Suggestions for improvement";

#[test]
fn empty_snapshot_is_empty() {
    let snapshot = Snapshot::new();
    assert!(snapshot.is_empty());
    assert_eq!(snapshot.len(), 0);
    assert!(snapshot.get("anything").is_none());
}

#[test]
fn insert_then_get_returns_content() {
    let mut snapshot = Snapshot::new();
    snapshot.insert("src/a.rs".to_string(), "fn a() {}".to_string());
    snapshot.insert("src/b.rs".to_string(), "fn b() {}".to_string());
    assert_eq!(snapshot.len(), 2);
    assert_eq!(snapshot.get("src/a.rs"), Some(&"fn a() {}".to_string()));
    assert_eq!(snapshot.get("src/b.rs"), Some(&"fn b() {}".to_string()));
    assert!(snapshot.get("src/c.rs").is_none());
}

#[test]
fn insert_same_path_replaces_content() {
    let mut snapshot = Snapshot::new();
    snapshot.insert("f".to_string(), "old".to_string());
    snapshot.insert("f".to_string(), "new".to_string());
    assert_eq!(snapshot.len(), 1);
    assert_eq!(snapshot.get("f"), Some(&"new".to_string()));
}

#[test]
fn prompt_has_exact_shape_for_one_file() {
    let mut snapshot = Snapshot::new();
    snapshot.insert("main.rs".to_string(), "fn main() {}".to_string());
    let prompt = build_prompt("- old\n+ new", &snapshot, 5);
    let expected = format!(
        "As a code review expert, analyze the following changes:\n\n```diff\n- old\n+ new\n```\n\n\
         Relevant files from the codebase for context:\n\n\
         main.rs:\n```\nfn main() {{}}\n```\n\n{}",
        CLOSING
    );
    assert_eq!(prompt, expected);
}

#[test]
fn prompt_contains_diff_and_checklist() {
    let snapshot = Snapshot::new();
    let prompt = build_prompt("the diff body", &snapshot, 5);
    assert!(prompt.contains("the diff body"));
    assert!(prompt.contains(CLOSING));
    assert!(prompt.contains("Relevant files from the codebase for context:"));
}

#[test]
fn prompt_renders_at_most_max_files_entries() {
    let mut snapshot = Snapshot::new();
    snapshot.insert("one".to_string(), "1".to_string());
    snapshot.insert("two".to_string(), "2".to_string());
    snapshot.insert("three".to_string(), "3".to_string());
    let prompt = build_prompt("d", &snapshot, 2);
    assert_eq!(prompt.matches(":\n```\n").count(), 2);
    assert!(prompt.contains("one:\n```\n1\n```\n\n"));
    assert!(prompt.contains("two:\n```\n2\n```\n\n"));
    assert!(!prompt.contains("three"));
}

#[test]
fn prompt_with_zero_bound_has_no_file_blocks() {
    let mut snapshot = Snapshot::new();
    snapshot.insert("one".to_string(), "1".to_string());
    let prompt = build_prompt("d", &snapshot, 0);
    assert_eq!(prompt.matches(":\n```\n").count(), 0);
}

#[test]
fn large_file_contents_are_embedded_whole() {
    let mut snapshot = Snapshot::new();
    let big = "x".repeat(100_000);
    snapshot.insert("big.rs".to_string(), big.clone());
    let prompt = build_prompt("d", &snapshot, 5);
    assert!(prompt.contains(&big));
}
