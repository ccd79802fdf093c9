//! Tests of the surrounding data model: reviews, diagnostics, themes,
//! projects, git results and identifiers.

use codelane::ai::build_review_prompt;
use codelane::ids::TerminalId;
use codelane::project::ProjectType;
use codelane::errors::Error;
use codelane::review::Checklist;
use codelane::status::{FileStatus, StatusEntry};
use codelane::theme::Theme;

#[test]
fn test_default_review_checklist() {
    let checklist = Checklist::default_review();
    assert_eq!(checklist.items.len(), 5);
    assert!(!checklist.is_complete());
    let required: Vec<_> = checklist.items.iter().filter(|i| i.required).collect();
    assert_eq!(required.len(), 3);
}

#[test]
fn test_checklist_completion() {
    let mut checklist = Checklist::default_review();
    for item in &mut checklist.items {
        if item.required {
            item.checked = true;
        }
    }
    assert!(checklist.is_complete());
}

#[test]
fn test_theme_palettes() {
    let dark = Theme::dark();
    assert_eq!(dark.name, "dark");
    assert_eq!(dark.colors.bg_primary, "#1e1e1e");
    let light = Theme::light();
    assert_eq!(light.name, "light");
    assert_eq!(light.colors.bg_primary, "#ffffff");
    assert_eq!(Theme::default().name, "dark");
}

#[test]
fn test_project_type_detection() {
    let files = vec!["Cargo.toml".to_string(), "README.md".to_string()];
    assert_eq!(ProjectType::detect(&files), ProjectType::Rust);
    let files = vec!["package.json".to_string()];
    assert_eq!(ProjectType::detect(&files), ProjectType::Node);
    let files = vec!["notes.txt".to_string()];
    assert_eq!(ProjectType::detect(&files), ProjectType::Unknown);
    assert_eq!(
        ProjectType::Rust.recommended_lsp_servers(),
        vec!["rust-analyzer"]
    );
    assert_eq!(ProjectType::Rust.extensions(), vec!["rs"]);
}

#[test]
fn test_status_entry_flags() {
    let entry = StatusEntry {
        path: "src/lib.rs".to_string(),
        index_status: Some(FileStatus::Added),
        worktree_status: None,
    };
    assert!(entry.is_staged());
    assert!(!entry.has_unstaged_changes());
}

#[test]
fn test_terminal_ids() {
    let a = TerminalId::new();
    let b = TerminalId::new();
    assert_ne!(a.as_value(), b.as_value());
    let c = TerminalId::from_value(7);
    assert_eq!(c.as_value(), 7);
}

#[test]
fn test_review_prompt_framing() {
    let prompt = build_review_prompt("Review this", "+ added line");
    assert!(prompt.starts_with("Review this"));
    assert!(prompt.contains("```diff\n+ added line\n```"));
    assert!(prompt.ends_with("Please provide a concise summary and feedback."));
}

#[test]
fn test_terminal_size_default() {
    let size = codelane::TerminalSize::default();
    assert_eq!(size.cols, 80);
    assert_eq!(size.rows, 24);
}

#[test]
fn test_error_messages() {
    assert_eq!(Error::Pty("no tty".to_string()).message(), "PTY error: no tty");
    assert_eq!(Error::NotFound("abc".to_string()).message(), "Terminal not found: abc");
    assert_eq!(Error::Io("broken pipe".to_string()).message(), "IO error: broken pipe");
    assert_eq!(Error::Other("plain".to_string()).message(), "plain");
}

#[test]
fn test_project_discover() {
    let listings = vec![
        ("/work/app/src".to_string(), vec!["main.rs".to_string()]),
        (
            "/work/app".to_string(),
            vec!["Cargo.toml".to_string(), "src".to_string()],
        ),
        ("/work".to_string(), vec![".git".to_string()]),
    ];
    let project = codelane::project::Project::discover("/work/app/src", &listings, None).unwrap();
    assert_eq!(project.root, "/work/app");
    assert_eq!(project.project_type, ProjectType::Rust);
    assert_eq!(project.name, "app");
    assert_eq!(project.git_root, Some("/work".to_string()));

    let named =
        codelane::project::Project::discover("/work/app", &listings, Some("renamed".to_string()))
            .unwrap();
    assert_eq!(named.name, "renamed");

    assert!(codelane::project::Project::discover("/elsewhere", &listings, None).is_none());
}
