//! Tests of the path helpers as the application commands use them.

use codelane::app_paths::{data_dir, db_path, env_name, worktree_path};

#[test]
fn paths_test_env_name_is_dev_in_debug() {
    assert_eq!(env_name(true), "dev");
}

#[test]
fn paths_test_data_dir_contains_env() {
    let dir = data_dir("/home/user", "dev");
    assert!(dir.contains(".codelane/dev"));
}

#[test]
fn paths_test_db_path() {
    let path = db_path("/home/user", "dev");
    assert!(path.ends_with("codelane.db"));
    assert!(path.contains(".codelane/dev"));
}

#[test]
fn paths_test_worktree_path_sanitizes_branch() {
    let path = worktree_path("/home/user", "dev", "my-project", "feature/login");
    assert!(path.contains("feature-login"));
}

#[test]
fn test_lanes_dir_ends_with_lanes() {
    let dir = codelane::app_paths::lanes_dir("/home/user", "dev");
    assert!(dir.ends_with("lanes"));
}
