//! Editor commands and the JavaScript each one executes.

use vstd::prelude::*;

use crate::text::{append_str, spec_dec, spec_json_quoted, json_quote, u32_to_string};

verus! {

/// Commands that can be executed on the Monaco editor.
#[derive(Debug, Clone)]
pub enum EditorCommand {
    /// Set editor content.
    SetContent(String),
    /// Insert text at the cursor.
    InsertText(String),
    /// Go to a line.
    GoToLine(u32),
    /// Set a selection.
    SetSelection { start_line: u32, start_column: u32, end_line: u32, end_column: u32 },
    /// Format the document.
    Format,
    /// Undo.
    Undo,
    /// Redo.
    Redo,
    /// Find.
    Find(String),
    /// Replace.
    Replace { find: String, replace: String },
    /// Fold all.
    FoldAll,
    /// Unfold all.
    UnfoldAll,
}

/// The editor lookup prefix of every generated snippet.
pub open spec fn spec_ed(editor_id: Seq<char>) -> Seq<char> {
    "window.monacoEditors['"@ + editor_id + "']"@
}

/// The JavaScript of one editor command.
pub open spec fn spec_command_js(cmd: EditorCommand, editor_id: Seq<char>) -> Seq<char> {
    match cmd {
        EditorCommand::SetContent(content) => spec_ed(editor_id) + "?.setValue("@
            + spec_json_quoted(content@) + ");"@,
        EditorCommand::InsertText(text) => spec_ed(editor_id)
            + "?.trigger('keyboard', 'type', { text: "@ + spec_json_quoted(text@) + " });"@,
        EditorCommand::GoToLine(line) => spec_ed(editor_id) + "?.revealLineInCenter("@ + spec_dec(
            line as nat,
        ) + ");"@,
        EditorCommand::SetSelection { start_line, start_column, end_line, end_column } => spec_ed(
            editor_id,
        ) + "?.setSelection({ startLineNumber: "@ + spec_dec(start_line as nat) + ", startColumn: "@
            + spec_dec(start_column as nat) + ", endLineNumber: "@ + spec_dec(end_line as nat)
            + ", endColumn: "@ + spec_dec(end_column as nat) + " });"@,
        EditorCommand::Format => spec_ed(editor_id)
            + "?.getAction('editor.action.formatDocument')?.run();"@,
        EditorCommand::Undo => spec_ed(editor_id) + "?.trigger('keyboard', 'undo');"@,
        EditorCommand::Redo => spec_ed(editor_id) + "?.trigger('keyboard', 'redo');"@,
        EditorCommand::Find(query) => spec_ed(editor_id) + "?.getAction('actions.find')?.run(); "@
            + spec_ed(editor_id) + "?.getContribution('editor.contrib.findController')?.setSearchString("@
            + spec_json_quoted(query@) + ");"@,
        EditorCommand::Replace { find, replace } => "const ctrl = "@ + spec_ed(editor_id)
            + "?.getContribution('editor.contrib.findController'); ctrl?.setSearchString("@
            + spec_json_quoted(find@) + "); ctrl?.setReplaceString("@ + spec_json_quoted(replace@)
            + ");"@,
        EditorCommand::FoldAll => spec_ed(editor_id) + "?.getAction('editor.foldAll')?.run();"@,
        EditorCommand::UnfoldAll => spec_ed(editor_id) + "?.getAction('editor.unfoldAll')?.run();"@,
    }
}

fn ed_prefix(editor_id: &str) -> (r: String)
    ensures
        r@ == spec_ed(editor_id@),
{
    let mut r = "window.monacoEditors['".to_owned();
    append_str(&mut r, editor_id);
    append_str(&mut r, "']");
    proof {
        assert(r@ =~= spec_ed(editor_id@));
    }
    r
}

impl EditorCommand {
    /// The JavaScript that executes this command on the given editor.
    pub fn to_js(&self, editor_id: &str) -> (r: String)
        ensures
            r@ == spec_command_js(*self, editor_id@),
    {
        match self {
            EditorCommand::SetContent(content) => {
                let mut r = ed_prefix(editor_id);
                append_str(&mut r, "?.setValue(");
                let quoted = json_quote(content.as_str());
                append_str(&mut r, quoted.as_str());
                append_str(&mut r, ");");
                proof {
                    assert(r@ =~= spec_command_js(*self, editor_id@));
                }
                r
            },
            EditorCommand::InsertText(text) => {
                let mut r = ed_prefix(editor_id);
                append_str(&mut r, "?.trigger('keyboard', 'type', { text: ");
                let quoted = json_quote(text.as_str());
                append_str(&mut r, quoted.as_str());
                append_str(&mut r, " });");
                proof {
                    assert(r@ =~= spec_command_js(*self, editor_id@));
                }
                r
            },
            EditorCommand::GoToLine(line) => {
                let mut r = ed_prefix(editor_id);
                append_str(&mut r, "?.revealLineInCenter(");
                let lt = u32_to_string(*line);
                append_str(&mut r, lt.as_str());
                append_str(&mut r, ");");
                proof {
                    assert(r@ =~= spec_command_js(*self, editor_id@));
                }
                r
            },
            EditorCommand::SetSelection { start_line, start_column, end_line, end_column } => {
                let mut r = ed_prefix(editor_id);
                append_str(&mut r, "?.setSelection({ startLineNumber: ");
                let t1 = u32_to_string(*start_line);
                append_str(&mut r, t1.as_str());
                append_str(&mut r, ", startColumn: ");
                let t2 = u32_to_string(*start_column);
                append_str(&mut r, t2.as_str());
                append_str(&mut r, ", endLineNumber: ");
                let t3 = u32_to_string(*end_line);
                append_str(&mut r, t3.as_str());
                append_str(&mut r, ", endColumn: ");
                let t4 = u32_to_string(*end_column);
                append_str(&mut r, t4.as_str());
                append_str(&mut r, " });");
                proof {
                    assert(r@ =~= spec_command_js(*self, editor_id@));
                }
                r
            },
            EditorCommand::Format => {
                let mut r = ed_prefix(editor_id);
                append_str(&mut r, "?.getAction('editor.action.formatDocument')?.run();");
                proof {
                    assert(r@ =~= spec_command_js(*self, editor_id@));
                }
                r
            },
            EditorCommand::Undo => {
                let mut r = ed_prefix(editor_id);
                append_str(&mut r, "?.trigger('keyboard', 'undo');");
                proof {
                    assert(r@ =~= spec_command_js(*self, editor_id@));
                }
                r
            },
            EditorCommand::Redo => {
                let mut r = ed_prefix(editor_id);
                append_str(&mut r, "?.trigger('keyboard', 'redo');");
                proof {
                    assert(r@ =~= spec_command_js(*self, editor_id@));
                }
                r
            },
            EditorCommand::Find(query) => {
                let mut r = ed_prefix(editor_id);
                append_str(&mut r, "?.getAction('actions.find')?.run(); ");
                let p2 = ed_prefix(editor_id);
                append_str(&mut r, p2.as_str());
                append_str(
                    &mut r,
                    "?.getContribution('editor.contrib.findController')?.setSearchString(",
                );
                let quoted = json_quote(query.as_str());
                append_str(&mut r, quoted.as_str());
                append_str(&mut r, ");");
                proof {
                    assert(r@ =~= spec_command_js(*self, editor_id@));
                }
                r
            },
            EditorCommand::Replace { find, replace } => {
                let mut r = "const ctrl = ".to_owned();
                let p = ed_prefix(editor_id);
                append_str(&mut r, p.as_str());
                append_str(
                    &mut r,
                    "?.getContribution('editor.contrib.findController'); ctrl?.setSearchString(",
                );
                let qf = json_quote(find.as_str());
                append_str(&mut r, qf.as_str());
                append_str(&mut r, "); ctrl?.setReplaceString(");
                let qr = json_quote(replace.as_str());
                append_str(&mut r, qr.as_str());
                append_str(&mut r, ");");
                proof {
                    assert(r@ =~= spec_command_js(*self, editor_id@));
                }
                r
            },
            EditorCommand::FoldAll => {
                let mut r = ed_prefix(editor_id);
                append_str(&mut r, "?.getAction('editor.foldAll')?.run();");
                proof {
                    assert(r@ =~= spec_command_js(*self, editor_id@));
                }
                r
            },
            EditorCommand::UnfoldAll => {
                let mut r = ed_prefix(editor_id);
                append_str(&mut r, "?.getAction('editor.unfoldAll')?.run();");
                proof {
                    assert(r@ =~= spec_command_js(*self, editor_id@));
                }
                r
            },
        }
    }
}

} // verus!
