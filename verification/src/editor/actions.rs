//! Common Monaco action IDs.

use vstd::prelude::*;

verus! {

/// Format document.
pub const FORMAT_DOCUMENT: &'static str = "editor.action.formatDocument";

/// Format selection.
pub const FORMAT_SELECTION: &'static str = "editor.action.formatSelection";

/// Find.
pub const FIND: &'static str = "actions.find";

/// Find and replace.
pub const FIND_REPLACE: &'static str = "editor.action.startFindReplaceAction";

/// Go to line.
pub const GO_TO_LINE: &'static str = "editor.action.gotoLine";

/// Toggle comment.
pub const TOGGLE_COMMENT: &'static str = "editor.action.commentLine";

/// Toggle block comment.
pub const TOGGLE_BLOCK_COMMENT: &'static str = "editor.action.blockComment";

/// Fold.
pub const FOLD: &'static str = "editor.fold";

/// Unfold.
pub const UNFOLD: &'static str = "editor.unfold";

/// Fold all.
pub const FOLD_ALL: &'static str = "editor.foldAll";

/// Unfold all.
pub const UNFOLD_ALL: &'static str = "editor.unfoldAll";

/// Undo.
pub const UNDO: &'static str = "undo";

/// Redo.
pub const REDO: &'static str = "redo";

/// Select all.
pub const SELECT_ALL: &'static str = "editor.action.selectAll";

/// Copy.
pub const COPY: &'static str = "editor.action.clipboardCopyAction";

/// Cut.
pub const CUT: &'static str = "editor.action.clipboardCutAction";

/// Paste.
pub const PASTE: &'static str = "editor.action.clipboardPasteAction";

/// Trigger suggest.
pub const TRIGGER_SUGGEST: &'static str = "editor.action.triggerSuggest";

/// Trigger parameter hints.
pub const TRIGGER_PARAMETER_HINTS: &'static str = "editor.action.triggerParameterHints";

/// Quick fix.
pub const QUICK_FIX: &'static str = "editor.action.quickFix";

/// Go to definition.
pub const GO_TO_DEFINITION: &'static str = "editor.action.revealDefinition";

/// Peek definition.
pub const PEEK_DEFINITION: &'static str = "editor.action.peekDefinition";

/// Go to references.
pub const GO_TO_REFERENCES: &'static str = "editor.action.goToReferences";

/// Rename symbol.
pub const RENAME: &'static str = "editor.action.rename";

} // verus!
