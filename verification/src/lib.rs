//! Terminal emulation core: an ANSI/VT100 escape-sequence parser driving a
//! styled character grid, with render-state extraction for a host UI, plus
//! the supporting data model of the surrounding workspace application.

use vstd::prelude::*;

pub mod ai;
pub mod app_paths;
pub mod config;
pub mod db;
pub mod dependency_graph;
pub mod diff;
pub mod editor;
pub mod errors;
pub mod event;
pub mod file_sorter;
pub mod flags;
pub mod fsys;
pub mod git;
pub mod hook_setup;
pub mod hooks;
pub mod ids;
pub mod import_analyzer;
pub mod lane;
pub mod laws;
pub mod lsp;
pub mod migrations;
pub mod paths;
pub mod plugin;
pub mod process;
pub mod project;
pub mod renderer;
pub mod review;
pub mod search;
pub mod session;
pub mod settings;
pub mod sorting;
pub mod status;
pub mod term;
pub mod text;
pub mod theme;

verus! {

/// Terminal size in columns and rows.
#[derive(Debug, Clone, Copy, PartialEq, Eq, Structural)]
pub struct TerminalSize {
    pub cols: u16,
    pub rows: u16,
}

impl Default for TerminalSize {
    /// The conventional 80x24 terminal.
    fn default() -> (r: Self)
        ensures
            r.cols == 80,
            r.rows == 24,
    {
        TerminalSize { cols: 80, rows: 24 }
    }
}

} // verus!
