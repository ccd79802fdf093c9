//! Tests of hook script generation and agent name parsing.

use codelane::config::AgentType;
use codelane::hook_setup::{
    agent_supports_hooks, generate_copilot_script, generate_codex_script, generate_gemini_script,
    gemini_hooks_yaml, parse_agent_type,
};

#[test]
fn test_generate_copilot_script() {
    let script = generate_copilot_script("/tmp/hooks");
    assert!(script.contains("#!/bin/bash"));
    assert!(script.contains("CODELANE_LANE_ID"));
    assert!(script.contains("/tmp/hooks"));
    assert!(script.contains("copilot"));
}

#[test]
fn test_generate_codex_script() {
    let script = generate_codex_script("/tmp/hooks");
    assert!(script.contains("#!/bin/bash"));
    assert!(script.contains("CODELANE_LANE_ID"));
    assert!(script.contains("codex"));
}

#[test]
fn test_generate_gemini_script() {
    let script = generate_gemini_script("/tmp/hooks");
    assert!(script.contains("#!/bin/bash"));
    assert!(script.contains("CODELANE_LANE_ID"));
    assert!(script.contains("gemini"));
}

#[test]
fn test_parse_agent_type_known_names() {
    assert_eq!(parse_agent_type("copilot"), Ok(AgentType::Copilot));
    assert_eq!(parse_agent_type("codex"), Ok(AgentType::Codex));
    assert_eq!(parse_agent_type("gemini"), Ok(AgentType::Gemini));
    assert_eq!(parse_agent_type("aider"), Ok(AgentType::Aider));
    assert_eq!(parse_agent_type("cursor"), Ok(AgentType::Cursor));
    assert_eq!(parse_agent_type("opencode"), Ok(AgentType::OpenCode));
    assert_eq!(parse_agent_type("shell"), Ok(AgentType::Shell));
}

#[test]
fn test_parse_agent_type_unknown() {
    let err = parse_agent_type("unknown-agent").unwrap_err();
    assert!(err.contains("Unknown agent type"));
    assert!(err.contains("unknown-agent"));
}

#[test]
fn test_agent_hook_support() {
    assert!(agent_supports_hooks(AgentType::Copilot));
    assert!(agent_supports_hooks(AgentType::Codex));
    assert!(agent_supports_hooks(AgentType::Gemini));
    assert!(!agent_supports_hooks(AgentType::Shell));
    assert!(!agent_supports_hooks(AgentType::Cursor));
}

#[test]
fn test_gemini_hooks_yaml() {
    let yaml = gemini_hooks_yaml("/home/u/.gemini/hooks/codelane.sh");
    assert!(yaml.starts_with("hooks:"));
    assert!(yaml.contains("command: /home/u/.gemini/hooks/codelane.sh"));
}
