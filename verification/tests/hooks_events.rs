//! Tests of hook events.

use codelane::hooks::{HookEvent, HookEventType};

#[test]
fn test_hook_event_creation() {
    let event = HookEvent::new(
        "lane-123".to_string(),
        "copilot".to_string(),
        HookEventType::PermissionPrompt,
    );

    assert_eq!(event.lane_id, "lane-123");
    assert_eq!(event.agent_type, "copilot");
    assert_eq!(event.event_type, HookEventType::PermissionPrompt);
    assert!(event.timestamp > 0);
    assert!(event.message.is_none());
}

#[test]
fn test_hook_event_with_message() {
    let event = HookEvent::new(
        "lane-123".to_string(),
        "copilot".to_string(),
        HookEventType::IdlePrompt,
    )
    .with_message("Test message".to_string());

    assert_eq!(event.message, Some("Test message".to_string()));
}
