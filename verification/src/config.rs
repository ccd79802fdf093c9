//! Application configuration model and agent presets. Loading and saving
//! the configuration files is the host's part.

use vstd::prelude::*;

use std::collections::HashMap;

verus! {

/// Global application configuration.
#[derive(Debug, Clone)]
pub struct AppConfig {
    /// General settings.
    pub general: GeneralConfig,
    /// Terminal settings.
    pub terminal: TerminalConfig,
    /// Editor settings.
    pub editor: EditorConfig,
    /// Git settings.
    pub git: GitConfig,
    /// AI code review settings.
    pub ai: AIConfig,
    /// Theme settings.
    pub theme: ThemeConfig,
}

impl Default for AppConfig {
    fn default() -> Self {
        AppConfig {
            general: GeneralConfig::default(),
            terminal: TerminalConfig::default(),
            editor: EditorConfig::default(),
            git: GitConfig::default(),
            ai: AIConfig::default(),
            theme: ThemeConfig::default(),
        }
    }
}

#[derive(Debug, Clone)]
pub struct GeneralConfig {
    /// Font family for the application.
    pub font_family: String,
    /// Font size in pixels.
    pub font_size: u32,
    /// Whether to restore the previous session on startup.
    pub restore_session: bool,
}

impl Default for GeneralConfig {
    fn default() -> (r: Self)
        ensures
            r.font_family@ == "JetBrains Mono"@,
            r.font_size == 14,
            r.restore_session,
    {
        GeneralConfig {
            font_family: "JetBrains Mono".to_owned(),
            font_size: 14,
            restore_session: true,
        }
    }
}

#[derive(Debug, Clone)]
pub struct TerminalConfig {
    /// Default shell (None = system default).
    pub shell: Option<String>,
    /// Scrollback lines.
    pub scrollback_lines: u32,
    /// Cursor style: "block", "underline", or "beam".
    pub cursor_style: String,
    /// Cursor blink.
    pub cursor_blink: bool,
}

impl Default for TerminalConfig {
    fn default() -> (r: Self)
        ensures
            r.shell is None,
            r.scrollback_lines == 10000,
            r.cursor_style@ == "block"@,
            r.cursor_blink,
    {
        TerminalConfig {
            shell: None,
            scrollback_lines: 10000,
            cursor_style: "block".to_owned(),
            cursor_blink: true,
        }
    }
}

#[derive(Debug, Clone)]
pub struct EditorConfig {
    /// Tab size in spaces.
    pub tab_size: u32,
    /// Insert spaces instead of tabs.
    pub insert_spaces: bool,
    /// Word wrap.
    pub word_wrap: bool,
    /// Show minimap.
    pub minimap: bool,
    /// Show line numbers.
    pub line_numbers: bool,
    /// Enable bracket pair colorization.
    pub bracket_colorization: bool,
}

impl Default for EditorConfig {
    fn default() -> (r: Self)
        ensures
            r.tab_size == 4,
            r.insert_spaces,
            !r.word_wrap,
            r.minimap,
            r.line_numbers,
            r.bracket_colorization,
    {
        EditorConfig {
            tab_size: 4,
            insert_spaces: true,
            word_wrap: false,
            minimap: true,
            line_numbers: true,
            bracket_colorization: true,
        }
    }
}

#[derive(Debug, Clone)]
pub struct GitConfig {
    /// Auto-fetch interval in minutes (0 = disabled).
    pub auto_fetch_interval: u32,
    /// Show untracked files.
    pub show_untracked: bool,
    /// Enable AI explanations for changes.
    pub explain_changes: bool,
    /// File sort order for code review.
    pub file_sort_order: FileSortOrder,
}

impl Default for GitConfig {
    fn default() -> (r: Self)
        ensures
            r.auto_fetch_interval == 5,
            r.show_untracked,
            r.explain_changes,
            r.file_sort_order == FileSortOrder::Smart,
    {
        GitConfig {
            auto_fetch_interval: 5,
            show_untracked: true,
            explain_changes: true,
            file_sort_order: FileSortOrder::Smart,
        }
    }
}

/// File sorting strategy for code review.
#[derive(Debug, Clone, Copy, PartialEq, Eq, Structural)]
pub enum FileSortOrder {
    /// Alphabetical by path (default Git behavior).
    Alphabetical,
    /// Smart heuristic-based sorting (config, types, implementation,
    /// tests, generated, docs).
    Smart,
    /// Smart plus dependency-aware sorting using import analysis.
    SmartDependencies,
    /// Sort by change size (largest first).
    ChangeSize,
    /// No sorting (git order).
    Unsorted,
}

#[derive(Debug, Clone)]
pub struct ThemeConfig {
    /// Theme name or "system" for auto.
    pub name: String,
    /// Custom CSS overrides.
    pub custom_css: Option<String>,
}

impl Default for ThemeConfig {
    fn default() -> (r: Self)
        ensures
            r.name@ == "dark"@,
            r.custom_css is None,
    {
        ThemeConfig { name: "dark".to_owned(), custom_css: None }
    }
}

/// CLI agent type.
#[derive(Debug, Clone, Copy, PartialEq, Eq, Structural)]
pub enum AgentType {
    /// Copilot CLI.
    Copilot,
    /// Codex CLI.
    Codex,
    /// Gemini CLI.
    Gemini,
    /// Cursor CLI.
    Cursor,
    /// Aider CLI.
    Aider,
    /// OpenCode CLI.
    OpenCode,
    /// Traditional shell (backward compatibility).
    Shell,
}

/// AI code review configuration.
#[derive(Debug, Clone)]
pub struct AIConfig {
    /// Whether AI code review is enabled.
    pub enabled: bool,
    /// Which AI tool to use.
    pub tool: AITool,
    /// Custom command for the AI tool (if not using the default).
    pub custom_command: Option<String>,
    /// Additional arguments to pass to the AI tool.
    pub additional_args: Vec<String>,
}

impl Default for AIConfig {
    fn default() -> (r: Self)
        ensures
            r.enabled,
            r.tool == AITool::Copilot,
            r.custom_command is None,
            r.additional_args@.len() == 0,
    {
        AIConfig {
            enabled: true,
            tool: AITool::Copilot,
            custom_command: None,
            additional_args: Vec::new(),
        }
    }
}

/// AI tool for code review.
#[derive(Debug, Clone, Copy, PartialEq, Eq, Structural)]
pub enum AITool {
    /// Copilot CLI (copilot).
    Copilot,
    /// Aider CLI (aider).
    Aider,
    /// OpenCode CLI (opencode).
    OpenCode,
    /// Gemini CLI (gemini).
    Gemini,
    /// Custom command.
    Custom,
}

/// CLI agent configuration.
#[derive(Debug, Clone)]
pub struct AgentConfig {
    /// Type of agent.
    pub agent_type: AgentType,
    /// Command to execute.
    pub command: String,
    /// CLI arguments.
    pub args: Vec<String>,
    /// Environment variables.
    pub env: HashMap<String, String>,
    /// Use the lane's working directory.
    pub use_lane_cwd: bool,
}

impl Default for AgentConfig {
    fn default() -> (r: Self)
        ensures
            r.agent_type == AgentType::Shell,
    {
        AgentConfig::shell_default()
    }
}

impl AgentConfig {
    /// Default shell configuration: a login, interactive shell. The host
    /// may substitute the user's own shell for the command.
    pub fn shell_default() -> (r: Self)
        ensures
            r.agent_type == AgentType::Shell,
            r.command@ == "/bin/zsh"@,
            r.args@.len() == 2,
            r.use_lane_cwd,
    {
        let mut args: Vec<String> = Vec::new();
        args.push("-l".to_owned());
        args.push("-i".to_owned());
        AgentConfig {
            agent_type: AgentType::Shell,
            command: "/bin/zsh".to_owned(),
            args,
            env: HashMap::new(),
            use_lane_cwd: true,
        }
    }

    /// Copilot preset.
    pub fn copilot_preset() -> (r: Self)
        ensures
            r.agent_type == AgentType::Copilot,
            r.command@ == "copilot"@,
            r.args@.len() == 0,
            r.use_lane_cwd,
    {
        AgentConfig {
            agent_type: AgentType::Copilot,
            command: "copilot".to_owned(),
            args: Vec::new(),
            env: HashMap::new(),
            use_lane_cwd: true,
        }
    }

    /// Cursor preset.
    pub fn cursor_preset() -> (r: Self)
        ensures
            r.agent_type == AgentType::Cursor,
            r.command@ == "cursor"@,
            r.args@.len() == 0,
            r.use_lane_cwd,
    {
        AgentConfig {
            agent_type: AgentType::Cursor,
            command: "cursor".to_owned(),
            args: Vec::new(),
            env: HashMap::new(),
            use_lane_cwd: true,
        }
    }

    /// Aider preset.
    pub fn aider_preset() -> (r: Self)
        ensures
            r.agent_type == AgentType::Aider,
            r.command@ == "aider"@,
            r.args@.len() == 0,
            r.use_lane_cwd,
    {
        AgentConfig {
            agent_type: AgentType::Aider,
            command: "aider".to_owned(),
            args: Vec::new(),
            env: HashMap::new(),
            use_lane_cwd: true,
        }
    }
}

/// Global agent settings.
#[derive(Debug, Clone)]
pub struct AgentSettings {
    /// Default agent to use.
    pub default_agent: AgentConfig,
    /// Predefined agent configurations, by preset name.
    pub presets: HashMap<String, AgentConfig>,
}

impl AgentSettings {
    /// The settings file path, under the environment's data directory.
    pub fn settings_path(home: &str, env: &str) -> (r: String)
        ensures
            r@ == crate::paths::spec_data_dir(home@, env@) + "/settings.json"@,
    {
        crate::paths::settings_path(home, env)
    }
}

impl Default for AgentSettings {
    /// The built-in settings: the shell as the default agent, and the
    /// shell, copilot, cursor and aider presets.
    fn default() -> (r: Self)
        ensures
            r.default_agent.agent_type == AgentType::Shell,
    {
        let mut presets: HashMap<String, AgentConfig> = HashMap::new();
        presets.insert("shell".to_owned(), AgentConfig::shell_default());
        presets.insert("copilot".to_owned(), AgentConfig::copilot_preset());
        presets.insert("cursor".to_owned(), AgentConfig::cursor_preset());
        presets.insert("aider".to_owned(), AgentConfig::aider_preset());
        AgentSettings { default_agent: AgentConfig::shell_default(), presets }
    }
}

} // verus!
