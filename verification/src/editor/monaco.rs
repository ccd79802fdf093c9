//! Configuration types for Monaco editor instances.

use vstd::prelude::*;

verus! {

/// Monaco editor configuration.
#[derive(Debug, Clone)]
pub struct MonacoConfig {
    /// Editor theme (e.g., "vs-dark", "codelane-dark").
    pub theme: String,
    /// Font size in pixels.
    pub font_size: u32,
    /// Font family string.
    pub font_family: String,
    /// Tab size in spaces.
    pub tab_size: u32,
    /// Whether to insert spaces instead of tabs.
    pub insert_spaces: bool,
    /// Word wrap mode: "off", "on", "wordWrapColumn", "bounded".
    pub word_wrap: String,
    /// Whether the minimap is enabled.
    pub minimap_enabled: bool,
    /// Line numbers mode: "on", "off", "relative", "interval".
    pub line_numbers: String,
    /// Whether the editor is read-only.
    pub read_only: bool,
}

impl Default for MonacoConfig {
    fn default() -> (r: Self)
        ensures
            r.theme@ == "codelane-dark"@,
            r.font_size == 14,
            r.tab_size == 4,
            r.insert_spaces,
            r.word_wrap@ == "off"@,
            r.minimap_enabled,
            r.line_numbers@ == "on"@,
            !r.read_only,
    {
        MonacoConfig {
            theme: "codelane-dark".to_owned(),
            font_size: 14,
            font_family: "'JetBrains Mono', 'Fira Code', 'Consolas', monospace".to_owned(),
            tab_size: 4,
            insert_spaces: true,
            word_wrap: "off".to_owned(),
            minimap_enabled: true,
            line_numbers: "on".to_owned(),
            read_only: false,
        }
    }
}

impl MonacoConfig {
    /// A minimal configuration for performance: the default without the
    /// minimap.
    pub fn minimal() -> (r: Self)
        ensures
            !r.minimap_enabled,
            r.theme@ == "codelane-dark"@,
            !r.read_only,
    {
        MonacoConfig { minimap_enabled: false, ..MonacoConfig::default() }
    }

    /// A configuration for diff viewing: read-only, without the minimap.
    pub fn diff_viewer() -> (r: Self)
        ensures
            r.read_only,
            !r.minimap_enabled,
            r.theme@ == "codelane-dark"@,
    {
        MonacoConfig { read_only: true, minimap_enabled: false, ..MonacoConfig::default() }
    }

    /// The configuration with another theme.
    pub fn with_theme(self, theme: &str) -> (r: Self)
        ensures
            r.theme@ == theme@,
            r.font_size == self.font_size,
            r.read_only == self.read_only,
    {
        MonacoConfig { theme: theme.to_owned(), ..self }
    }

    /// The configuration with another font size.
    pub fn with_font_size(self, size: u32) -> (r: Self)
        ensures
            r.font_size == size,
            r.theme == self.theme,
    {
        MonacoConfig { font_size: size, ..self }
    }

    /// The configuration with another font family.
    pub fn with_font_family(self, family: &str) -> (r: Self)
        ensures
            r.font_family@ == family@,
            r.theme == self.theme,
    {
        MonacoConfig { font_family: family.to_owned(), ..self }
    }

    /// The configuration with another tab size.
    pub fn with_tab_size(self, size: u32) -> (r: Self)
        ensures
            r.tab_size == size,
            r.theme == self.theme,
    {
        MonacoConfig { tab_size: size, ..self }
    }

    /// The configuration with the minimap turned on or off.
    pub fn with_minimap(self, enabled: bool) -> (r: Self)
        ensures
            r.minimap_enabled == enabled,
            r.theme == self.theme,
    {
        MonacoConfig { minimap_enabled: enabled, ..self }
    }

    /// The configuration with read-only mode set.
    pub fn with_read_only(self, read_only: bool) -> (r: Self)
        ensures
            r.read_only == read_only,
            r.theme == self.theme,
    {
        MonacoConfig { read_only, ..self }
    }

    /// The configuration with another word wrap mode.
    pub fn with_word_wrap(self, mode: &str) -> (r: Self)
        ensures
            r.word_wrap@ == mode@,
            r.theme == self.theme,
    {
        MonacoConfig { word_wrap: mode.to_owned(), ..self }
    }

    /// The configuration with another line numbers mode.
    pub fn with_line_numbers(self, mode: &str) -> (r: Self)
        ensures
            r.line_numbers@ == mode@,
            r.theme == self.theme,
    {
        MonacoConfig { line_numbers: mode.to_owned(), ..self }
    }
}

/// Monaco diff editor configuration.
#[derive(Debug, Clone)]
pub struct DiffEditorConfig {
    pub render_side_by_side: bool,
    pub ignore_trim_whitespace: bool,
    pub original_editable: bool,
}

impl Default for DiffEditorConfig {
    fn default() -> (r: Self)
        ensures
            r.render_side_by_side,
            r.ignore_trim_whitespace,
            !r.original_editable,
    {
        DiffEditorConfig {
            render_side_by_side: true,
            ignore_trim_whitespace: true,
            original_editable: false,
        }
    }
}

/// Position in the editor.
#[derive(Debug, Clone, Copy, PartialEq, Eq, Structural)]
pub struct Position {
    pub line: u32,
    pub column: u32,
}

/// Range in the editor.
#[derive(Debug, Clone, Copy, PartialEq, Eq, Structural)]
pub struct Range {
    pub start: Position,
    pub end: Position,
}

} // verus!
