//! In-memory settings registry. The host wraps it in its own lock and
//! persists changes to disk.

use vstd::prelude::*;

use crate::config::AgentSettings;

verus! {

/// Global settings state.
pub struct SettingsState {
    pub agent_settings: AgentSettings,
}

impl SettingsState {
    /// A fresh settings state holding the built-in defaults; the host
    /// replaces them with what it loaded from disk, if anything.
    pub fn new() -> (r: Self)
        ensures
            r.agent_settings.default_agent.agent_type == crate::config::AgentType::Shell,
    {
        SettingsState { agent_settings: AgentSettings::default() }
    }

    /// A copy of the current agent settings.
    pub fn get_agent_settings(&self) -> (r: Result<AgentSettings, String>)
        ensures
            r is Ok,
    {
        Ok(self.agent_settings.clone())
    }

    /// Replaces the agent settings. Persisting them is the host's part.
    pub fn update_agent_settings(&mut self, new_settings: AgentSettings) -> (r: Result<
        (),
        String,
    >)
        ensures
            r is Ok,
            final(self).agent_settings == new_settings,
    {
        self.agent_settings = new_settings;
        Ok(())
    }
}

impl Default for SettingsState {
    fn default() -> Self {
        Self::new()
    }
}

} // verus!
