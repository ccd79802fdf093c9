//! Lanes: project workspaces with their own terminals and agents.
//! Persistence of lanes to disk is the host's part.

use vstd::prelude::*;

use crate::config::AgentConfig;
use crate::ids::new_uuid_string;

verus! {

/// Relies on chrono::Utc::now and chrono::DateTime::timestamp: the
/// current Unix time in whole seconds. Nothing is promised of a clock
/// reading. chrono itself panics on a system clock set before the Unix
/// epoch; such a clock is treated like any other broken environment.
#[verifier::external_body]
pub fn now_timestamp() -> i64 {
    chrono::Utc::now().timestamp()
}

/// Lane configuration.
#[derive(Debug, Clone)]
pub struct LaneConfig {
    /// Per-lane agent override (overrides the global default).
    pub agent_override: Option<AgentConfig>,
    /// Environment variables to set.
    pub env: Vec<(String, String)>,
    /// LSP servers to enable.
    pub lsp_servers: Vec<String>,
}

impl Default for LaneConfig {
    /// No override, no environment, no servers.
    fn default() -> (r: Self)
        ensures
            r.agent_override is None,
            r.env@.len() == 0,
            r.lsp_servers@.len() == 0,
    {
        LaneConfig { agent_override: None, env: Vec::new(), lsp_servers: Vec::new() }
    }
}

/// A lane (project workspace).
#[derive(Debug, Clone)]
pub struct Lane {
    pub id: String,
    pub name: String,
    pub working_dir: String,
    pub created_at: i64,
    pub updated_at: i64,
    /// Lane-specific configuration.
    pub config: LaneConfig,
}

impl Lane {
    /// A new lane with a fresh UUID identifier, both timestamps set to
    /// the current time, and the default configuration.
    pub fn new(name: String, working_dir: String) -> (r: Self)
        ensures
            r.name == name,
            r.working_dir == working_dir,
            r.id@.len() == 36,
            r.created_at == r.updated_at,
            r.config.agent_override is None,
    {
        let now = now_timestamp();
        Lane {
            id: new_uuid_string(),
            name,
            working_dir,
            created_at: now,
            updated_at: now,
            config: LaneConfig::default(),
        }
    }

    /// Updates the name and/or working directory and refreshes the
    /// update timestamp.
    pub fn update(&mut self, name: Option<String>, working_dir: Option<String>)
        ensures
            final(self).name == (if name is Some { name.unwrap() } else { old(self).name }),
            final(self).working_dir == (if working_dir is Some {
                working_dir.unwrap()
            } else {
                old(self).working_dir
            }),
            final(self).id == old(self).id,
            final(self).created_at == old(self).created_at,
            final(self).config == old(self).config,
    {
        match name {
            Some(n) => {
                self.name = n;
            },
            None => {},
        }
        match working_dir {
            Some(wd) => {
                self.working_dir = wd;
            },
            None => {},
        }
        self.updated_at = now_timestamp();
    }
}

} // verus!
