//! Tests of the path construction helpers.

use codelane::paths::{data_dir, db_path, env_name, settings_path, worktree_path};

#[test]
fn test_env_name_is_dev_in_debug() {
    assert_eq!(env_name(true), "dev");
}

#[test]
fn test_env_name_is_prod_in_release() {
    assert_eq!(env_name(false), "prod");
}

#[test]
fn test_data_dir_contains_env() {
    let dir = data_dir("/home/user", "dev");
    assert!(dir.contains(".codelane/dev"));
}

#[test]
fn test_data_dir_is_absolute() {
    let dir = data_dir("/home/user", "dev");
    assert!(dir.starts_with('/'));
}

#[test]
fn test_settings_path() {
    let path = settings_path("/home/user", "dev");
    assert!(path.ends_with("settings.json"));
    assert!(path.contains(".codelane/dev"));
}

#[test]
fn test_db_path() {
    let path = db_path("/home/user", "dev");
    assert!(path.ends_with("codelane.db"));
    assert!(path.contains(".codelane/dev"));
}

#[test]
fn test_lanes_dir() {
    let dir = codelane::paths::lanes_dir("/home/user", "dev");
    assert!(dir.ends_with("lanes"));
}

#[test]
fn test_worktree_path_sanitizes_branch() {
    let path = worktree_path("/home/user", "dev", "my-project", "feature/login");
    assert!(path.contains("feature-login"));
    assert!(path.contains("my-project"));
}

#[test]
fn test_worktree_path_contains_env() {
    let path = worktree_path("/home/user", "dev", "proj", "main");
    assert!(path.contains(".codelane/dev/worktrees"));
}

#[test]
fn test_hook_events_dir_is_shared() {
    let dir = codelane::paths::hook_events_dir("/home/user");
    assert_eq!(dir, "/home/user/.codelane/hook-events");
    let lane_dir = codelane::paths::lane_hook_events_dir("/home/user", "lane-1");
    assert_eq!(lane_dir, "/home/user/.codelane/hook-events/lane-1");
}
