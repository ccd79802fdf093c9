//! Plugin manifest model. Parsing a manifest file is the host's part;
//! these types carry what it holds.

use vstd::prelude::*;

verus! {

/// Plugin manifest.
#[derive(Debug, Clone)]
pub struct PluginManifest {
    /// Plugin metadata.
    pub plugin: PluginMeta,
    /// Capabilities this plugin provides.
    pub capabilities: PluginCapabilities,
    /// Permissions this plugin requires.
    pub permissions: PluginPermissions,
}

/// Plugin metadata.
#[derive(Debug, Clone)]
pub struct PluginMeta {
    /// Plugin name.
    pub name: String,
    /// Plugin version.
    pub version: String,
    /// Description.
    pub description: Option<String>,
    /// Entry point WASM file.
    pub entry: String,
}

/// Plugin capabilities.
#[derive(Debug, Clone)]
pub struct PluginCapabilities {
    /// Git provider configuration.
    pub git_provider: Option<GitProviderCapability>,
    /// Commands this plugin provides.
    pub commands: Vec<String>,
    /// Themes this plugin provides.
    pub themes: Vec<String>,
    /// Languages this plugin supports.
    pub languages: Vec<String>,
}

impl Default for PluginCapabilities {
    /// No capabilities.
    fn default() -> (r: Self)
        ensures
            r.git_provider is None,
            r.commands@.len() == 0,
            r.themes@.len() == 0,
            r.languages@.len() == 0,
    {
        PluginCapabilities {
            git_provider: None,
            commands: Vec::new(),
            themes: Vec::new(),
            languages: Vec::new(),
        }
    }
}

/// Git provider capability.
#[derive(Debug, Clone)]
pub struct GitProviderCapability {
    /// Domain this provider handles (e.g., "github.com").
    pub domain: String,
}

/// Plugin permissions.
#[derive(Debug, Clone)]
pub struct PluginPermissions {
    /// Network hosts this plugin can access.
    pub network: Vec<String>,
    /// Whether the plugin can read workspace files.
    pub read_workspace: bool,
    /// Whether the plugin can write workspace files.
    pub write_workspace: bool,
}

impl Default for PluginPermissions {
    /// No permissions.
    fn default() -> (r: Self)
        ensures
            r.network@.len() == 0,
            !r.read_workspace,
            !r.write_workspace,
    {
        PluginPermissions { network: Vec::new(), read_workspace: false, write_workspace: false }
    }
}

} // verus!
