//! Tests of filesystem entry types and the directory listing order.

use codelane::fsys::{sort_file_entries, FileEntry, FileStats, FileWatchEvent};

#[test]
fn test_file_entry_directory() {
    let entry = FileEntry {
        name: "src".to_string(),
        path: "/project/src".to_string(),
        is_dir: true,
        is_file: false,
        is_symlink: false,
        size: None,
        modified: None,
    };

    assert!(entry.is_dir);
    assert!(!entry.is_file);
    assert!(entry.size.is_none());
}

#[test]
fn test_file_entry_symlink() {
    let entry = FileEntry {
        name: "link".to_string(),
        path: "/project/link".to_string(),
        is_dir: false,
        is_file: false,
        is_symlink: true,
        size: None,
        modified: None,
    };

    assert!(entry.is_symlink);
    assert!(!entry.is_dir);
    assert!(!entry.is_file);
}

#[test]
fn test_file_entry_clone() {
    let entry = FileEntry {
        name: "clone.txt".to_string(),
        path: "/test/clone.txt".to_string(),
        is_dir: false,
        is_file: true,
        is_symlink: false,
        size: Some(512),
        modified: Some(9876543210),
    };

    let cloned = entry.clone();
    assert_eq!(cloned.name, entry.name);
    assert_eq!(cloned.path, entry.path);
    assert_eq!(cloned.size, entry.size);
}

#[test]
fn test_file_watch_event_kinds() {
    let kinds = vec!["create", "modify", "delete", "rename"];
    for kind in kinds {
        let event = FileWatchEvent {
            watch_id: "test".to_string(),
            path: "/test".to_string(),
            kind: kind.to_string(),
        };
        assert_eq!(event.kind, kind);
    }
}

#[test]
fn test_file_watch_event_clone() {
    let event = FileWatchEvent {
        watch_id: "original".to_string(),
        path: "/original/path".to_string(),
        kind: "delete".to_string(),
    };

    let cloned = event.clone();
    assert_eq!(cloned.watch_id, event.watch_id);
    assert_eq!(cloned.path, event.path);
    assert_eq!(cloned.kind, event.kind);
}

#[test]
fn test_file_stats_clone() {
    let stats = FileStats {
        modified: Some(12345),
        size: 999,
    };

    let cloned = stats.clone();
    assert_eq!(cloned.modified, stats.modified);
    assert_eq!(cloned.size, stats.size);
}

fn plain_file(name: &str, path: &str, size: Option<u64>) -> FileEntry {
    FileEntry {
        name: name.to_string(),
        path: path.to_string(),
        is_dir: false,
        is_file: true,
        is_symlink: false,
        size,
        modified: None,
    }
}

#[test]
fn test_file_entry_sorting_dirs_first() {
    let entries = vec![
        plain_file("file.txt", "/file.txt", Some(100)),
        FileEntry {
            name: "src".to_string(),
            path: "/src".to_string(),
            is_dir: true,
            is_file: false,
            is_symlink: false,
            size: None,
            modified: None,
        },
        plain_file("README.md", "/README.md", Some(200)),
    ];

    let entries = sort_file_entries(entries);

    assert!(entries[0].is_dir, "Directory should be first");
    assert_eq!(entries[0].name, "src");
    assert_eq!(entries[1].name, "file.txt"); // 'f' before 'R' case-insensitive
    assert_eq!(entries[2].name, "README.md");
}

#[test]
fn test_file_entry_sorting_alphabetical() {
    let entries = vec![
        plain_file("zebra.txt", "/zebra.txt", None),
        plain_file("Apple.txt", "/Apple.txt", None),
        plain_file("banana.txt", "/banana.txt", None),
    ];

    let entries = sort_file_entries(entries);

    assert_eq!(entries[0].name, "Apple.txt");
    assert_eq!(entries[1].name, "banana.txt");
    assert_eq!(entries[2].name, "zebra.txt");
}
