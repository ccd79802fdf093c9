//! Hook installation support for agent notification integration: the hook
//! scripts and configuration snippets written into agent config
//! directories, and the parsing of agent names. Writing the files is the
//! host's part.

use vstd::prelude::*;

use crate::config::AgentType;
use crate::text::{append_str, str_eq};

verus! {

/// Hook installation status for an agent.
#[derive(Debug, Clone)]
pub struct HookStatus {
    pub agent_type: String,
    pub installed: bool,
    pub supported: bool,
}

/// Opening of every hook script, up to the events directory.
pub const HOOK_SCRIPT_HEAD: &'static str =
    "#!/bin/bash\n# Codelane hook script; managed by the application\n\nLANE_ID=\"${CODELANE_LANE_ID}\"\nHOOK_DIR=\"";

/// Middle of every hook script, after the events directory.
pub const HOOK_SCRIPT_MID: &'static str =
    "\"\n\nif [ -z \"$LANE_ID\" ]; then\n    exit 0\nfi\n\nEVENT_DIR=\"$HOOK_DIR/$LANE_ID\"\nmkdir -p \"$EVENT_DIR\"\n\nTIMESTAMP=$(date +%s%N)\nEVENT_FILE=\"$EVENT_DIR/event-$TIMESTAMP.json\"\n\n";

/// The hook script for an events directory, with the given event-reading
/// preamble and JSON body.
pub open spec fn spec_hook_script(dir: Seq<char>, tail: Seq<char>) -> Seq<char> {
    HOOK_SCRIPT_HEAD@ + dir + HOOK_SCRIPT_MID@ + tail
}

/// Tail of the Copilot hook script: event type and message come from the
/// script arguments.
pub const COPILOT_SCRIPT_TAIL: &'static str =
    "# Get event type from argument (default: permission_prompt)\nEVENT_TYPE=\"${1:-permission_prompt}\"\nMESSAGE=\"${2:-}\"\n\n# Write JSON event\ncat > \"$EVENT_FILE\" <<'EOF'\n{\n  \"laneId\": \"$LANE_ID\",\n  \"agentType\": \"copilot\",\n  \"eventType\": \"$EVENT_TYPE\",\n  \"timestamp\": $(date +%s)\n}\nEOF\n";

/// Tail of the Codex hook script.
pub const CODEX_SCRIPT_TAIL: &'static str =
    "# Write JSON event\ncat > \"$EVENT_FILE\" <<'EOF'\n{\n  \"laneId\": \"$LANE_ID\",\n  \"agentType\": \"codex\",\n  \"eventType\": \"waiting_for_input\",\n  \"timestamp\": $(date +%s)\n}\nEOF\n";

/// Tail of the Gemini hook script.
pub const GEMINI_SCRIPT_TAIL: &'static str =
    "# Write JSON event\ncat > \"$EVENT_FILE\" <<'EOF'\n{\n  \"laneId\": \"$LANE_ID\",\n  \"agentType\": \"gemini\",\n  \"eventType\": \"waiting_for_input\",\n  \"timestamp\": $(date +%s)\n}\nEOF\n";

fn build_hook_script(hook_events_dir: &str, tail: &'static str) -> (r: String)
    ensures
        r@ == spec_hook_script(hook_events_dir@, tail@),
{
    let mut r = HOOK_SCRIPT_HEAD.to_owned();
    append_str(&mut r, hook_events_dir);
    append_str(&mut r, HOOK_SCRIPT_MID);
    append_str(&mut r, tail);
    proof {
        assert(r@ =~= spec_hook_script(hook_events_dir@, tail@));
    }
    r
}

/// The Copilot hook script for the given events directory.
pub fn generate_copilot_script(hook_events_dir: &str) -> (r: String)
    ensures
        r@ == spec_hook_script(hook_events_dir@, COPILOT_SCRIPT_TAIL@),
{
    build_hook_script(hook_events_dir, COPILOT_SCRIPT_TAIL)
}

/// The Codex hook script for the given events directory.
pub fn generate_codex_script(hook_events_dir: &str) -> (r: String)
    ensures
        r@ == spec_hook_script(hook_events_dir@, CODEX_SCRIPT_TAIL@),
{
    build_hook_script(hook_events_dir, CODEX_SCRIPT_TAIL)
}

/// The Gemini CLI hook script for the given events directory.
pub fn generate_gemini_script(hook_events_dir: &str) -> (r: String)
    ensures
        r@ == spec_hook_script(hook_events_dir@, GEMINI_SCRIPT_TAIL@),
{
    build_hook_script(hook_events_dir, GEMINI_SCRIPT_TAIL)
}

/// The hooks.yaml content enabling the Gemini hook at a script path.
pub fn gemini_hooks_yaml(hook_script_path: &str) -> (r: String)
    ensures
        r@ == "hooks:\n  Notification:\n    - matcher: \".*\"\n      command: "@
            + hook_script_path@ + "\n"@,
{
    let mut r = "hooks:\n  Notification:\n    - matcher: \".*\"\n      command: ".to_owned();
    append_str(&mut r, hook_script_path);
    append_str(&mut r, "\n");
    proof {
        assert(r@ =~= "hooks:\n  Notification:\n    - matcher: \".*\"\n      command: "@
            + hook_script_path@ + "\n"@);
    }
    r
}

/// Which agent a name denotes: exactly the seven known names parse, and
/// each to its own agent.
pub fn parse_agent_type(agent_type: &str) -> (r: Result<AgentType, String>)
    ensures
        r is Ok <==> (agent_type@ == "copilot"@ || agent_type@ == "codex"@ || agent_type@
            == "gemini"@ || agent_type@ == "aider"@ || agent_type@ == "cursor"@ || agent_type@
            == "opencode"@ || agent_type@ == "shell"@),
        agent_type@ == "copilot"@ ==> r == Ok::<AgentType, String>(AgentType::Copilot),
        agent_type@ == "codex"@ ==> r == Ok::<AgentType, String>(AgentType::Codex),
        agent_type@ == "gemini"@ ==> r == Ok::<AgentType, String>(AgentType::Gemini),
        agent_type@ == "aider"@ ==> r == Ok::<AgentType, String>(AgentType::Aider),
        agent_type@ == "cursor"@ ==> r == Ok::<AgentType, String>(AgentType::Cursor),
        agent_type@ == "opencode"@ ==> r == Ok::<AgentType, String>(AgentType::OpenCode),
        agent_type@ == "shell"@ ==> r == Ok::<AgentType, String>(AgentType::Shell),
{
    proof {
        reveal_strlit("copilot");
        reveal_strlit("codex");
        reveal_strlit("gemini");
        reveal_strlit("aider");
        reveal_strlit("cursor");
        reveal_strlit("opencode");
        reveal_strlit("shell");
        assert("copilot"@.len() == 7 && "codex"@.len() == 5 && "gemini"@.len() == 6);
        assert("aider"@.len() == 5 && "cursor"@.len() == 6 && "opencode"@.len() == 8);
        assert("shell"@.len() == 5);
        assert("gemini"@[0] != "cursor"@[0]);
        assert("codex"@[0] != "aider"@[0]);
        assert("codex"@[0] != "shell"@[0]);
        assert("aider"@[0] != "shell"@[0]);
    }
    if str_eq(agent_type, "copilot") {
        Ok(AgentType::Copilot)
    } else if str_eq(agent_type, "codex") {
        Ok(AgentType::Codex)
    } else if str_eq(agent_type, "gemini") {
        Ok(AgentType::Gemini)
    } else if str_eq(agent_type, "aider") {
        Ok(AgentType::Aider)
    } else if str_eq(agent_type, "cursor") {
        Ok(AgentType::Cursor)
    } else if str_eq(agent_type, "opencode") {
        Ok(AgentType::OpenCode)
    } else if str_eq(agent_type, "shell") {
        Ok(AgentType::Shell)
    } else {
        let mut msg = "Unknown agent type: ".to_owned();
        append_str(&mut msg, agent_type);
        Err(msg)
    }
}

/// Whether an agent supports hooks: only Copilot, Codex and Gemini do.
pub fn agent_supports_hooks(agent: AgentType) -> (r: bool)
    ensures
        r == (agent == AgentType::Copilot || agent == AgentType::Codex || agent
            == AgentType::Gemini),
{
    match agent {
        AgentType::Copilot => true,
        AgentType::Codex => true,
        AgentType::Gemini => true,
        _ => false,
    }
}

} // verus!
