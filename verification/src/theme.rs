//! Theme definitions.

use vstd::prelude::*;

verus! {

/// Application theme.
#[derive(Debug, Clone)]
pub struct Theme {
    pub name: String,
    pub colors: ThemeColors,
}

/// Theme color palette.
#[derive(Debug, Clone)]
pub struct ThemeColors {
    /// Background colors.
    pub bg_primary: String,
    pub bg_secondary: String,
    pub bg_tertiary: String,
    /// Foreground (text) colors.
    pub fg_primary: String,
    pub fg_secondary: String,
    pub fg_muted: String,
    /// Accent colors.
    pub accent: String,
    pub accent_hover: String,
    /// Status colors.
    pub success: String,
    pub warning: String,
    pub error: String,
    pub info: String,
    /// Border colors.
    pub border: String,
    pub border_focus: String,
}

impl Default for Theme {
    /// The dark theme, field for field.
    fn default() -> (r: Self)
        ensures
            r.name@ == "dark"@,
            r.colors.bg_primary@ == "#1e1e1e"@,
            r.colors.bg_secondary@ == "#252526"@,
            r.colors.bg_tertiary@ == "#2d2d30"@,
            r.colors.fg_primary@ == "#d4d4d4"@,
            r.colors.fg_secondary@ == "#cccccc"@,
            r.colors.fg_muted@ == "#6e7681"@,
            r.colors.accent@ == "#0078d4"@,
            r.colors.accent_hover@ == "#1c8ae8"@,
            r.colors.success@ == "#3fb950"@,
            r.colors.warning@ == "#d29922"@,
            r.colors.error@ == "#f85149"@,
            r.colors.info@ == "#58a6ff"@,
            r.colors.border@ == "#3d3d3d"@,
            r.colors.border_focus@ == "#0078d4"@,
    {
        Theme::dark()
    }
}

impl Theme {
    /// The dark theme.
    pub fn dark() -> (r: Self)
        ensures
            r.name@ == "dark"@,
            r.colors.bg_primary@ == "#1e1e1e"@,
            r.colors.bg_secondary@ == "#252526"@,
            r.colors.bg_tertiary@ == "#2d2d30"@,
            r.colors.fg_primary@ == "#d4d4d4"@,
            r.colors.fg_secondary@ == "#cccccc"@,
            r.colors.fg_muted@ == "#6e7681"@,
            r.colors.accent@ == "#0078d4"@,
            r.colors.accent_hover@ == "#1c8ae8"@,
            r.colors.success@ == "#3fb950"@,
            r.colors.warning@ == "#d29922"@,
            r.colors.error@ == "#f85149"@,
            r.colors.info@ == "#58a6ff"@,
            r.colors.border@ == "#3d3d3d"@,
            r.colors.border_focus@ == "#0078d4"@,
    {
        Theme {
            name: "dark".to_owned(),
            colors: ThemeColors {
                bg_primary: "#1e1e1e".to_owned(),
                bg_secondary: "#252526".to_owned(),
                bg_tertiary: "#2d2d30".to_owned(),
                fg_primary: "#d4d4d4".to_owned(),
                fg_secondary: "#cccccc".to_owned(),
                fg_muted: "#6e7681".to_owned(),
                accent: "#0078d4".to_owned(),
                accent_hover: "#1c8ae8".to_owned(),
                success: "#3fb950".to_owned(),
                warning: "#d29922".to_owned(),
                error: "#f85149".to_owned(),
                info: "#58a6ff".to_owned(),
                border: "#3d3d3d".to_owned(),
                border_focus: "#0078d4".to_owned(),
            },
        }
    }

    /// The light theme.
    pub fn light() -> (r: Self)
        ensures
            r.name@ == "light"@,
            r.colors.bg_primary@ == "#ffffff"@,
            r.colors.bg_secondary@ == "#f5f5f5"@,
            r.colors.bg_tertiary@ == "#ebebeb"@,
            r.colors.fg_primary@ == "#1f1f1f"@,
            r.colors.fg_secondary@ == "#424242"@,
            r.colors.fg_muted@ == "#6e6e6e"@,
            r.colors.accent@ == "#0078d4"@,
            r.colors.accent_hover@ == "#106ebe"@,
            r.colors.success@ == "#1a7f37"@,
            r.colors.warning@ == "#9a6700"@,
            r.colors.error@ == "#cf222e"@,
            r.colors.info@ == "#0969da"@,
            r.colors.border@ == "#d0d7de"@,
            r.colors.border_focus@ == "#0078d4"@,
    {
        Theme {
            name: "light".to_owned(),
            colors: ThemeColors {
                bg_primary: "#ffffff".to_owned(),
                bg_secondary: "#f5f5f5".to_owned(),
                bg_tertiary: "#ebebeb".to_owned(),
                fg_primary: "#1f1f1f".to_owned(),
                fg_secondary: "#424242".to_owned(),
                fg_muted: "#6e6e6e".to_owned(),
                accent: "#0078d4".to_owned(),
                accent_hover: "#106ebe".to_owned(),
                success: "#1a7f37".to_owned(),
                warning: "#9a6700".to_owned(),
                error: "#cf222e".to_owned(),
                info: "#0969da".to_owned(),
                border: "#d0d7de".to_owned(),
                border_focus: "#0078d4".to_owned(),
            },
        }
    }
}

} // verus!
