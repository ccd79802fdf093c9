//! Tests of lanes and lane configuration.
use codelane::config::{AgentConfig, AgentType};

use codelane::lane::{Lane, LaneConfig};
use std::collections::HashMap;

#[test]
fn test_lane_config_default() {
    let config = LaneConfig::default();
    assert!(config.agent_override.is_none());
    assert!(config.env.is_empty());
    assert!(config.lsp_servers.is_empty());
}

#[test]
fn test_lane_config_clone() {
    let config = LaneConfig {
        agent_override: None,
        env: vec![("A".to_string(), "B".to_string())],
        lsp_servers: vec!["lsp1".to_string(), "lsp2".to_string()],
    };

    let cloned = config.clone();
    assert_eq!(cloned.env, config.env);
    assert_eq!(cloned.lsp_servers, config.lsp_servers);
}

#[test]
fn test_lane_config_with_agent_override() {
    let config = LaneConfig {
        agent_override: Some(AgentConfig {
            agent_type: AgentType::Copilot,
            command: "copilot".to_string(),
            args: vec!["--verbose".to_string()],
            env: HashMap::new(),
            use_lane_cwd: true,
        }),
        env: vec![],
        lsp_servers: vec![],
    };

    assert!(config.agent_override.is_some());
    let override_config = config.agent_override.unwrap();
    assert!(matches!(override_config.agent_type, AgentType::Copilot));
}

#[test]
fn test_lane_new_has_id_and_timestamps() {
    let lane = Lane::new("workbench".to_string(), "/tmp/project".to_string());
    assert_eq!(lane.name, "workbench");
    assert_eq!(lane.working_dir, "/tmp/project");
    assert_eq!(lane.id.len(), 36);
    assert_eq!(lane.created_at, lane.updated_at);
    assert!(lane.created_at > 0);
    assert!(lane.config.agent_override.is_none());
}

#[test]
fn test_lane_update_changes_fields() {
    let mut lane = Lane::new("old".to_string(), "/old".to_string());
    let id = lane.id.clone();
    lane.update(Some("new".to_string()), None);
    assert_eq!(lane.name, "new");
    assert_eq!(lane.working_dir, "/old");
    assert_eq!(lane.id, id);
}

#[test]
fn test_lane_ids_are_unique() {
    let a = Lane::new("a".to_string(), "/a".to_string());
    let b = Lane::new("b".to_string(), "/b".to_string());
    assert_ne!(a.id, b.id);
}
