//! Events emitted by a terminal session towards the host UI.

use vstd::prelude::*;

use crate::ids::TerminalId;

verus! {

/// Events emitted by the terminal.
#[derive(Debug, Clone)]
pub enum TerminalEvent {
    /// Terminal output needs to be re-rendered.
    Redraw(TerminalId),
    /// Terminal title changed.
    TitleChanged(TerminalId, String),
    /// Terminal exited.
    Exited(TerminalId, i32),
    /// Bell.
    Bell(TerminalId),
}

} // verus!
