//! Tests of porcelain status parsing.

use codelane::git::{index_status_label, parse_status_porcelain, worktree_status_label};

#[test]
fn test_parse_status_porcelain() {
    let output = "M  src/lib.rs\n M src/term.rs\n?? notes.txt\nA  src/new.rs\nMM src/both.rs\n";
    let result = parse_status_porcelain(output, Some("main".to_string()));

    assert_eq!(result.branch, Some("main".to_string()));

    assert_eq!(result.staged.len(), 3);
    assert_eq!(result.staged[0].path, "src/lib.rs");
    assert_eq!(result.staged[0].status, "modified");
    assert_eq!(result.staged[1].path, "src/new.rs");
    assert_eq!(result.staged[1].status, "added");
    assert_eq!(result.staged[2].path, "src/both.rs");

    assert_eq!(result.unstaged.len(), 2);
    assert_eq!(result.unstaged[0].path, "src/term.rs");
    assert_eq!(result.unstaged[0].status, "modified");
    assert_eq!(result.unstaged[1].path, "src/both.rs");

    assert_eq!(result.untracked, vec!["notes.txt".to_string()]);
}

#[test]
fn test_status_labels() {
    assert_eq!(index_status_label('M'), "modified");
    assert_eq!(index_status_label('A'), "added");
    assert_eq!(index_status_label('D'), "deleted");
    assert_eq!(index_status_label('R'), "renamed");
    assert_eq!(index_status_label('C'), "copied");
    assert_eq!(index_status_label('T'), "typechange");
    assert_eq!(index_status_label('X'), "unknown");
    assert_eq!(worktree_status_label('M'), "modified");
    assert_eq!(worktree_status_label('D'), "deleted");
    assert_eq!(worktree_status_label('A'), "unknown");
}

#[test]
fn test_parse_status_empty_output() {
    let result = parse_status_porcelain("", None);
    assert!(result.branch.is_none());
    assert!(result.staged.is_empty());
    assert!(result.unstaged.is_empty());
    assert!(result.untracked.is_empty());
}
