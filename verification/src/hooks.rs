//! Hook event types for agent notification integration: agents' hook
//! systems deliver these when they need user input.

use vstd::prelude::*;

verus! {

/// Relies on std::time::SystemTime::now and
/// SystemTime::duration_since(UNIX_EPOCH): the current Unix time in whole
/// seconds; a clock before the epoch reads as zero. Nothing is promised
/// of a clock reading.
#[verifier::external_body]
pub fn now_unix_seconds() -> i64 {
    match std::time::SystemTime::now().duration_since(std::time::UNIX_EPOCH) {
        Ok(d) => d.as_secs() as i64,
        Err(_) => 0,
    }
}

/// Type of hook event received from an agent.
#[derive(Debug, Clone, PartialEq, Eq, Structural)]
pub enum HookEventType {
    /// Agent needs permission to use a tool.
    PermissionPrompt,
    /// Agent has been idle and waiting for input.
    IdlePrompt,
    /// Generic waiting for user input.
    WaitingForInput,
}

/// Hook event payload sent from agent hook scripts.
#[derive(Debug, Clone)]
pub struct HookEvent {
    /// Lane ID where the agent is running.
    pub lane_id: String,
    /// Type of agent that triggered the hook.
    pub agent_type: String,
    /// Type of event.
    pub event_type: HookEventType,
    /// Unix timestamp when the event occurred.
    pub timestamp: i64,
    /// Optional message from the agent.
    pub message: Option<String>,
}

impl HookEvent {
    /// A new hook event stamped with the current time and no message.
    pub fn new(lane_id: String, agent_type: String, event_type: HookEventType) -> (r: Self)
        ensures
            r.lane_id == lane_id,
            r.agent_type == agent_type,
            r.event_type == event_type,
            r.message is None,
    {
        HookEvent { lane_id, agent_type, event_type, timestamp: now_unix_seconds(), message: None }
    }

    /// The same event carrying a message.
    pub fn with_message(self, message: String) -> (r: Self)
        ensures
            r.lane_id == self.lane_id,
            r.agent_type == self.agent_type,
            r.event_type == self.event_type,
            r.timestamp == self.timestamp,
            r.message == Some(message),
    {
        HookEvent { message: Some(message), ..self }
    }
}

} // verus!
