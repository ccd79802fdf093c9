//! Tests of the search registry and payload shapes.

use codelane::search::{
    SearchCompletePayload, SearchErrorPayload, SearchMatch, SearchResultPayload, SearchState,
    BATCH_SIZE, CONTEXT_LINES, DEFAULT_MAX_MATCHES, MAX_FILE_SIZE,
};

#[test]
fn test_search_state_creation() {
    let state = SearchState::new();
    assert!(state.searches.is_empty());
}

#[test]
fn test_search_state_default() {
    let state = SearchState::default();
    assert!(state.searches.is_empty());
}

#[test]
fn test_constants() {
    assert!(MAX_FILE_SIZE > 0);
    assert!(BATCH_SIZE > 0);
    assert!(DEFAULT_MAX_MATCHES > 0);
    // CONTEXT_LINES is usize, always >= 0
    let _ = CONTEXT_LINES;
}

#[test]
fn test_search_match_clone() {
    let original = SearchMatch {
        file_path: "/test.txt".to_string(),
        line_number: 1,
        column: 0,
        line_content: "test".to_string(),
        match_text: "test".to_string(),
        context_before: vec!["before".to_string()],
        context_after: vec!["after".to_string()],
    };

    let cloned = original.clone();
    assert_eq!(original.file_path, cloned.file_path);
    assert_eq!(original.match_text, cloned.match_text);
}

#[test]
fn test_search_result_payload_clone() {
    let original = SearchResultPayload {
        search_id: "test".to_string(),
        matches: vec![],
        files_searched: 10,
    };

    let cloned = original.clone();
    assert_eq!(original.search_id, cloned.search_id);
    assert_eq!(original.files_searched, cloned.files_searched);
}

#[test]
fn test_search_complete_payload_clone() {
    let original = SearchCompletePayload {
        search_id: "test".to_string(),
        total_matches: 5,
        total_files: 10,
        cancelled: false,
        truncated: false,
    };

    let cloned = original.clone();
    assert_eq!(original.search_id, cloned.search_id);
    assert_eq!(original.total_matches, cloned.total_matches);
}

#[test]
fn test_search_error_payload_clone() {
    let original = SearchErrorPayload {
        search_id: "test".to_string(),
        message: "error message".to_string(),
    };

    let cloned = original.clone();
    assert_eq!(original.search_id, cloned.search_id);
    assert_eq!(original.message, cloned.message);
}

#[test]
fn test_search_match_all_fields() {
    let m = SearchMatch {
        file_path: "/path/to/file.rs".to_string(),
        line_number: 100,
        column: 25,
        line_content: "    fn test_function() {".to_string(),
        match_text: "test_function".to_string(),
        context_before: vec!["// A test".to_string(), "impl Test {".to_string()],
        context_after: vec!["        // body".to_string(), "    }".to_string()],
    };

    assert_eq!(m.file_path, "/path/to/file.rs");
    assert_eq!(m.line_number, 100);
    assert_eq!(m.column, 25);
    assert_eq!(m.context_before.len(), 2);
    assert_eq!(m.context_after.len(), 2);
}

#[test]
fn test_search_match_debug() {
    let m = SearchMatch {
        file_path: "/test".to_string(),
        line_number: 1,
        column: 0,
        line_content: "test".to_string(),
        match_text: "test".to_string(),
        context_before: vec![],
        context_after: vec![],
    };

    // Debug formatting names the type and its contents
    let debug_str = format!("{:?}", m);
    assert!(debug_str.contains("SearchMatch"));
    assert!(debug_str.contains("/test"));
}

#[test]
fn test_search_registry_lifecycle() {
    let mut state = SearchState::new();
    state.register("abc".to_string());
    assert!(state.cancel("abc"));
    assert!(!state.cancel("missing"));
    assert!(state.remove("abc"));
    assert!(!state.remove("abc"));
}
