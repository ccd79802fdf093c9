//! Tests of the settings registry and agent configuration defaults.
use codelane::config::{AgentConfig, AgentSettings, AgentType};
use codelane::config::{AppConfig, FileSortOrder};

use codelane::settings::SettingsState;

#[test]
fn test_settings_state_new() {
    let state = SettingsState::new();
    let result = state.get_agent_settings();
    assert!(result.is_ok());
}

#[test]
fn test_settings_state_get_agent_settings() {
    let state = SettingsState::new();
    let settings = state.get_agent_settings().expect("Should get settings");

    // AgentSettings should have a default_agent
    let _ = settings.default_agent;
}

#[test]
fn test_settings_state_update_and_get() {
    let mut state = SettingsState::new();

    // Get current settings
    let original = state.get_agent_settings().expect("Should get settings");

    // Update with the same settings (no-op but tests the flow)
    let update_result = state.update_agent_settings(original.clone());
    assert!(update_result.is_ok());

    // Verify we can still get settings
    let after_update = state.get_agent_settings().expect("Should get settings");
    assert_eq!(
        after_update.default_agent.agent_type,
        original.default_agent.agent_type
    );
}

#[test]
fn test_agent_settings_default_has_presets() {
    let settings = AgentSettings::default();
    assert!(settings.presets.contains_key("shell"));
    assert!(settings.presets.contains_key("copilot"));
    assert!(settings.presets.contains_key("cursor"));
    assert!(settings.presets.contains_key("aider"));
}

#[test]
fn test_settings_state_multiple_updates() {
    let mut state = SettingsState::new();

    // Multiple sequential updates
    for _ in 0..3 {
        let settings = state.get_agent_settings().expect("Should get settings");
        state
            .update_agent_settings(settings)
            .expect("Should update settings");
    }

    // Should still work after multiple updates
    let final_settings = state.get_agent_settings();
    assert!(final_settings.is_ok());
}

#[test]
fn test_agent_presets() {
    let copilot = AgentConfig::copilot_preset();
    assert!(matches!(copilot.agent_type, AgentType::Copilot));
    assert_eq!(copilot.command, "copilot");

    let shell = AgentConfig::shell_default();
    assert!(matches!(shell.agent_type, AgentType::Shell));

    let cursor = AgentConfig::cursor_preset();
    assert!(matches!(cursor.agent_type, AgentType::Cursor));

    let aider = AgentConfig::aider_preset();
    assert!(matches!(aider.agent_type, AgentType::Aider));
}

#[test]
fn test_app_config_defaults() {

    let config = AppConfig::default();
    assert_eq!(config.general.font_size, 14);
    assert_eq!(config.general.font_family, "JetBrains Mono");
    assert_eq!(config.terminal.scrollback_lines, 10000);
    assert_eq!(config.terminal.cursor_style, "block");
    assert_eq!(config.editor.tab_size, 4);
    assert_eq!(config.git.auto_fetch_interval, 5);
    assert!(matches!(config.git.file_sort_order, FileSortOrder::Smart));
    assert_eq!(config.theme.name, "dark");
}
