//! Tests of dependency graph construction and topological ordering.

use codelane::dependency_graph::{normalize_path, sort_by_dependencies, topological_sort};
use codelane::git::FileChangeStats;

fn make_file(path: &str) -> FileChangeStats {
    FileChangeStats {
        path: path.to_string(),
        status: "modified".to_string(),
        additions: 10,
        deletions: 5,
    }
}

#[test]
fn test_topological_sort_simple() {
    let files = vec![
        make_file("src/c.ts"),
        make_file("src/a.ts"),
        make_file("src/b.ts"),
    ];

    // a.ts depends on nothing
    // b.ts depends on a.ts
    // c.ts depends on b.ts
    let graph = vec![
        ("src/a.ts".to_string(), vec![]),
        ("src/b.ts".to_string(), vec!["src/a.ts".to_string()]),
        ("src/c.ts".to_string(), vec!["src/b.ts".to_string()]),
    ];

    let sorted = topological_sort(files, &graph).unwrap();

    // a should come before b, b should come before c
    let paths: Vec<_> = sorted.iter().map(|f| f.path.as_str()).collect();
    let a_idx = paths.iter().position(|&p| p == "src/a.ts").unwrap();
    let b_idx = paths.iter().position(|&p| p == "src/b.ts").unwrap();
    let c_idx = paths.iter().position(|&p| p == "src/c.ts").unwrap();

    assert!(a_idx < b_idx);
    assert!(b_idx < c_idx);
}

#[test]
fn test_topological_sort_cycle() {
    let files = vec![make_file("src/a.ts"), make_file("src/b.ts")];

    // Cycle: a depends on b, b depends on a
    let graph = vec![
        ("src/a.ts".to_string(), vec!["src/b.ts".to_string()]),
        ("src/b.ts".to_string(), vec!["src/a.ts".to_string()]),
    ];

    let result = topological_sort(files, &graph);
    assert!(result.is_none()); // Should detect cycle
}

#[test]
fn test_normalize_path() {
    assert_eq!(normalize_path("./src/main.ts"), "src/main.ts");
    assert_eq!(normalize_path("../utils/helper.ts"), "utils/helper.ts");
    assert_eq!(normalize_path("src/app.ts"), "src/app.ts");
}

#[test]
fn test_topological_sort_empty() {
    let files = vec![];
    let graph = Vec::new();
    let result = topological_sort(files, &graph).unwrap();
    assert_eq!(result.len(), 0);
}

#[test]
fn test_topological_sort_no_dependencies() {
    let files = vec![
        make_file("src/a.ts"),
        make_file("src/b.ts"),
        make_file("src/c.ts"),
    ];

    // No dependencies between files
    let graph = vec![
        ("src/a.ts".to_string(), vec![]),
        ("src/b.ts".to_string(), vec![]),
        ("src/c.ts".to_string(), vec![]),
    ];

    let result = topological_sort(files, &graph).unwrap();
    assert_eq!(result.len(), 3);
    // Order doesn't matter when there are no dependencies
}

#[test]
fn test_topological_sort_diamond() {
    // Diamond dependency: d depends on b and c, both b and c depend on a
    let files = vec![
        make_file("src/a.ts"),
        make_file("src/b.ts"),
        make_file("src/c.ts"),
        make_file("src/d.ts"),
    ];

    let graph = vec![
        ("src/a.ts".to_string(), vec![]),
        ("src/b.ts".to_string(), vec!["src/a.ts".to_string()]),
        ("src/c.ts".to_string(), vec!["src/a.ts".to_string()]),
        (
            "src/d.ts".to_string(),
            vec!["src/b.ts".to_string(), "src/c.ts".to_string()],
        ),
    ];

    let sorted = topological_sort(files, &graph).unwrap();
    let paths: Vec<_> = sorted.iter().map(|f| f.path.as_str()).collect();

    let a_idx = paths.iter().position(|&p| p == "src/a.ts").unwrap();
    let b_idx = paths.iter().position(|&p| p == "src/b.ts").unwrap();
    let c_idx = paths.iter().position(|&p| p == "src/c.ts").unwrap();
    let d_idx = paths.iter().position(|&p| p == "src/d.ts").unwrap();

    // a should come before b and c
    assert!(a_idx < b_idx);
    assert!(a_idx < c_idx);
    // b and c should come before d
    assert!(b_idx < d_idx);
    assert!(c_idx < d_idx);
}

#[test]
fn test_topological_sort_single_file() {
    let files = vec![make_file("src/main.ts")];
    let graph = vec![("src/main.ts".to_string(), vec![])];

    let result = topological_sort(files, &graph).unwrap();
    assert_eq!(result.len(), 1);
    assert_eq!(result[0].path, "src/main.ts");
}

#[test]
fn test_sort_by_dependencies_empty() {
    let files = vec![];
    let file_contents = Vec::new();
    let result = sort_by_dependencies(files, &file_contents);
    assert_eq!(result.len(), 0);
}

#[test]
fn test_sort_by_dependencies_single() {
    let files = vec![make_file("src/main.ts")];
    let file_contents = Vec::new();
    let result = sort_by_dependencies(files, &file_contents);
    assert_eq!(result.len(), 1);
    assert_eq!(result[0].path, "src/main.ts");
}
