//! Tests of the heuristic file categorization and orderings.

use codelane::file_sorter::{
    categorize_file, sort_files_alphabetical, sort_files_by_size, sort_files_smart, FileTier,
};
use codelane::git::FileChangeStats;

fn make_file(path: &str, additions: u32, deletions: u32) -> FileChangeStats {
    FileChangeStats {
        path: path.to_string(),
        status: "modified".to_string(),
        additions,
        deletions,
    }
}

#[test]
fn test_categorize_project_config() {
    assert_eq!(categorize_file("package.json").tier, FileTier::ProjectConfig);
    assert_eq!(categorize_file("Cargo.toml").tier, FileTier::ProjectConfig);
    assert_eq!(
        categorize_file(".github/workflows/ci.yml").tier,
        FileTier::ProjectConfig
    );
    assert_eq!(categorize_file("tsconfig.json").tier, FileTier::ProjectConfig);
}

#[test]
fn test_categorize_type_definitions() {
    assert_eq!(
        categorize_file("src/types.d.ts").tier,
        FileTier::TypeDefinitions
    );
    assert_eq!(
        categorize_file("include/header.h").tier,
        FileTier::TypeDefinitions
    );
    assert_eq!(
        categorize_file("src/types/user.ts").tier,
        FileTier::TypeDefinitions
    );
    assert_eq!(categorize_file("schema.proto").tier, FileTier::TypeDefinitions);
}

#[test]
fn test_categorize_tests() {
    assert_eq!(categorize_file("src/app.test.ts").tier, FileTier::Tests);
    assert_eq!(categorize_file("src/app.spec.tsx").tier, FileTier::Tests);
    assert_eq!(
        categorize_file("tests/integration_test.rs").tier,
        FileTier::Tests
    );
    assert_eq!(
        categorize_file("__tests__/component.test.js").tier,
        FileTier::Tests
    );
}

#[test]
fn test_categorize_implementation() {
    assert_eq!(categorize_file("src/main.rs").tier, FileTier::Implementation);
    assert_eq!(categorize_file("lib/utils.ts").tier, FileTier::Implementation);
    assert_eq!(
        categorize_file("app/components/Button.tsx").tier,
        FileTier::Implementation
    );
}

#[test]
fn test_categorize_generated() {
    assert_eq!(categorize_file("package-lock.json").tier, FileTier::Generated);
    assert_eq!(categorize_file("Cargo.lock").tier, FileTier::Generated);
    assert_eq!(categorize_file("src/proto.pb.go").tier, FileTier::Generated);
    assert_eq!(categorize_file("vendor/lib.rs").tier, FileTier::Generated);
}

#[test]
fn test_categorize_documentation() {
    assert_eq!(categorize_file("README.md").tier, FileTier::Documentation);
    assert_eq!(categorize_file("CHANGELOG.md").tier, FileTier::Documentation);
    assert_eq!(categorize_file("docs/guide.md").tier, FileTier::Documentation);
}

#[test]
fn test_sort_alphabetical_orders_by_path() {
    let files = vec![
        make_file("zebra.rs", 1, 0),
        make_file("alpha.rs", 1, 0),
        make_file("midway.rs", 1, 0),
    ];
    let sorted = sort_files_alphabetical(files);
    assert_eq!(sorted[0].path, "alpha.rs");
    assert_eq!(sorted[1].path, "midway.rs");
    assert_eq!(sorted[2].path, "zebra.rs");
}

#[test]
fn test_sort_by_size_largest_first() {
    let files = vec![
        make_file("small.rs", 1, 1),
        make_file("large.rs", 100, 50),
        make_file("medium.rs", 10, 5),
    ];
    let sorted = sort_files_by_size(files);
    assert_eq!(sorted[0].path, "large.rs");
    assert_eq!(sorted[1].path, "medium.rs");
    assert_eq!(sorted[2].path, "small.rs");
}

#[test]
fn test_sort_smart_tiers_and_pairing() {
    let files = vec![
        make_file("README.md", 1, 0),
        make_file("src/app.rs", 10, 2),
        make_file("Cargo.toml", 1, 0),
        make_file("src/app_test.rs", 5, 1),
    ];
    let sorted = sort_files_smart(files);
    assert_eq!(sorted.len(), 4);
    assert_eq!(sorted[0].path, "Cargo.toml");
    assert_eq!(sorted[1].path, "src/app.rs");
    // the matching test follows its implementation file
    assert_eq!(sorted[2].path, "src/app_test.rs");
    assert_eq!(sorted[3].path, "README.md");
}
