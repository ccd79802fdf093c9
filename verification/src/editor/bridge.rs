//! JavaScript generation for the Monaco bridge layer.

use vstd::prelude::*;

use crate::editor::{spec_monaco_id, Language};
use crate::text::{append_str, spec_dec, u32_to_string};

verus! {

/// CDN URL for the Monaco editor loader.
pub const MONACO_CDN_LOADER: &'static str =
    "https://cdn.jsdelivr.net/npm/monaco-editor@0.45.0/min/vs/loader.js";

/// Monaco version used.
pub const MONACO_VERSION: &'static str = "0.45.0";

/// Opening of the bootstrap script, up to the loader URL.
pub const BOOTSTRAP_HEAD: &'static str =
    "\n(function() {\n    if (window.monaco) return Promise.resolve();\n\n    window.monacoEditors = window.monacoEditors || {};\n    window.monacoReady = false;\n    window.monacoReadyCallbacks = [];\n\n    window.onMonacoReady = function(callback) {\n        if (window.monacoReady && window.monaco) {\n            callback(window.monaco);\n        } else {\n            window.monacoReadyCallbacks.push(callback);\n        }\n    };\n\n    return new Promise(function(resolve, reject) {\n        var script = document.createElement('script');\n        script.src = '";

/// Middle of the bootstrap script, between the loader URL and the
/// version.
pub const BOOTSTRAP_MID: &'static str =
    "';\n        script.onload = function() {\n            require.config({\n                paths: { 'vs': 'https://cdn.jsdelivr.net/npm/monaco-editor@";

/// Closing of the bootstrap script, after the version.
pub const BOOTSTRAP_TAIL: &'static str =
    "/min/vs' }\n            });\n            require(['vs/editor/editor.main'], function() {\n                window.monacoReady = true;\n                window.monacoReadyCallbacks.forEach(function(cb) { cb(window.monaco); });\n                window.monacoReadyCallbacks = [];\n                resolve();\n            });\n        };\n        script.onerror = reject;\n        document.head.appendChild(script);\n    });\n})()\n";

/// The inline JavaScript that bootstraps Monaco from the CDN: the fixed
/// template around the loader URL and the pinned version.
pub fn get_monaco_bootstrap_script() -> (r: String)
    ensures
        r@ == BOOTSTRAP_HEAD@ + MONACO_CDN_LOADER@ + BOOTSTRAP_MID@ + MONACO_VERSION@
            + BOOTSTRAP_TAIL@,
{
    let mut r = BOOTSTRAP_HEAD.to_owned();
    append_str(&mut r, MONACO_CDN_LOADER);
    append_str(&mut r, BOOTSTRAP_MID);
    append_str(&mut r, MONACO_VERSION);
    append_str(&mut r, BOOTSTRAP_TAIL);
    proof {
        assert(r@ =~= BOOTSTRAP_HEAD@ + MONACO_CDN_LOADER@ + BOOTSTRAP_MID@ + MONACO_VERSION@
            + BOOTSTRAP_TAIL@);
    }
    r
}

/// The JavaScript that registers and activates the dark theme. A fixed
/// script: it defines the theme and sets it.
pub fn get_theme_registration_script() -> (r: &'static str)
    ensures
        r@ == THEME_REGISTRATION_SCRIPT@,
{
    THEME_REGISTRATION_SCRIPT
}

/// The theme registration script itself.
pub const THEME_REGISTRATION_SCRIPT: &'static str =
    "\n(function() {\n    if (!window.monaco) return;\n\n    window.monaco.editor.defineTheme('codelane-dark', {\n        base: 'vs-dark',\n        inherit: true,\n        rules: [\n            { token: 'comment', foreground: '6A9955', fontStyle: 'italic' },\n            { token: 'keyword', foreground: 'C586C0' },\n            { token: 'string', foreground: 'CE9178' },\n            { token: 'number', foreground: 'B5CEA8' },\n            { token: 'type', foreground: '4EC9B0' },\n            { token: 'function', foreground: 'DCDCAA' },\n            { token: 'variable', foreground: '9CDCFE' },\n            { token: 'constant', foreground: '4FC1FF' },\n        ],\n        colors: {\n            'editor.background': '#111827',\n            'editor.foreground': '#D4D4D4',\n            'editorCursor.foreground': '#AEAFAD',\n            'editor.lineHighlightBackground': '#1F2937',\n            'editorLineNumber.foreground': '#4B5563',\n            'editorLineNumber.activeForeground': '#9CA3AF',\n            'editor.selectionBackground': '#374151',\n            'editorIndentGuide.background1': '#374151',\n            'editorWidget.background': '#1F2937',\n            'editorWidget.border': '#374151',\n            'minimap.background': '#111827',\n            'scrollbarSlider.background': '#37415180',\n        }\n    });\n\n    window.monaco.editor.setTheme('codelane-dark');\n})()\n";

/// JavaScript code generator for Monaco operations on one editor.
pub struct MonacoJsBuilder {
    pub editor_id: String,
}

/// A one-argument bridge call: `window.<name>('<editor_id>')`.
pub open spec fn spec_call1(name: Seq<char>, editor_id: Seq<char>) -> Seq<char> {
    "window."@ + name + "('"@ + editor_id + "')"@
}

fn build_call1(name: &str, editor_id: &str) -> (r: String)
    ensures
        r@ == spec_call1(name@, editor_id@),
{
    let mut r = "window.".to_owned();
    append_str(&mut r, name);
    append_str(&mut r, "('");
    append_str(&mut r, editor_id);
    append_str(&mut r, "')");
    proof {
        assert(r@ =~= spec_call1(name@, editor_id@));
    }
    r
}

impl MonacoJsBuilder {
    /// A JavaScript builder for the given editor ID.
    pub fn new(editor_id: &str) -> (r: Self)
        ensures
            r.editor_id@ == editor_id@,
    {
        MonacoJsBuilder { editor_id: editor_id.to_owned() }
    }

    /// JS to get the editor content.
    pub fn get_content(&self) -> (r: String)
        ensures
            r@ == spec_call1("getMonacoContent"@, self.editor_id@),
    {
        build_call1("getMonacoContent", self.editor_id.as_str())
    }

    /// JS to set the language.
    pub fn set_language(&self, language: Language) -> (r: String)
        ensures
            r@ == "window.setMonacoLanguage('"@ + self.editor_id@ + "', '"@ + spec_monaco_id(
                language,
            ) + "')"@,
    {
        let mut r = "window.setMonacoLanguage('".to_owned();
        append_str(&mut r, self.editor_id.as_str());
        append_str(&mut r, "', '");
        append_str(&mut r, language.monaco_id());
        append_str(&mut r, "')");
        proof {
            assert(r@ =~= "window.setMonacoLanguage('"@ + self.editor_id@ + "', '"@
                + spec_monaco_id(language) + "')"@);
        }
        r
    }

    /// JS to set the theme, globally.
    pub fn set_theme(theme: &str) -> (r: String)
        ensures
            r@ == spec_call1("setMonacoTheme"@, theme@),
    {
        build_call1("setMonacoTheme", theme)
    }

    /// JS to dispose of the editor.
    pub fn dispose(&self) -> (r: String)
        ensures
            r@ == spec_call1("disposeMonacoEditor"@, self.editor_id@),
    {
        build_call1("disposeMonacoEditor", self.editor_id.as_str())
    }

    /// JS to scroll to a line.
    pub fn go_to_line(&self, line: u32) -> (r: String)
        ensures
            r@ == "window.goToMonacoLine('"@ + self.editor_id@ + "', "@ + spec_dec(line as nat)
                + ")"@,
    {
        let mut r = "window.goToMonacoLine('".to_owned();
        append_str(&mut r, self.editor_id.as_str());
        append_str(&mut r, "', ");
        let lt = u32_to_string(line);
        append_str(&mut r, lt.as_str());
        append_str(&mut r, ")");
        proof {
            assert(r@ =~= "window.goToMonacoLine('"@ + self.editor_id@ + "', "@ + spec_dec(
                line as nat,
            ) + ")"@);
        }
        r
    }

    /// JS to set a selection range.
    pub fn set_selection(&self, start_line: u32, start_col: u32, end_line: u32, end_col: u32) -> (r:
        String)
        ensures
            r@ == "window.setMonacoSelection('"@ + self.editor_id@ + "', "@ + spec_dec(
                start_line as nat,
            ) + ", "@ + spec_dec(start_col as nat) + ", "@ + spec_dec(end_line as nat) + ", "@
                + spec_dec(end_col as nat) + ")"@,
    {
        let mut r = "window.setMonacoSelection('".to_owned();
        append_str(&mut r, self.editor_id.as_str());
        append_str(&mut r, "', ");
        let t1 = u32_to_string(start_line);
        append_str(&mut r, t1.as_str());
        append_str(&mut r, ", ");
        let t2 = u32_to_string(start_col);
        append_str(&mut r, t2.as_str());
        append_str(&mut r, ", ");
        let t3 = u32_to_string(end_line);
        append_str(&mut r, t3.as_str());
        append_str(&mut r, ", ");
        let t4 = u32_to_string(end_col);
        append_str(&mut r, t4.as_str());
        append_str(&mut r, ")");
        proof {
            assert(r@ =~= "window.setMonacoSelection('"@ + self.editor_id@ + "', "@ + spec_dec(
                start_line as nat,
            ) + ", "@ + spec_dec(start_col as nat) + ", "@ + spec_dec(end_line as nat) + ", "@
                + spec_dec(end_col as nat) + ")"@);
        }
        r
    }

    /// JS to focus the editor.
    pub fn focus(&self) -> (r: String)
        ensures
            r@ == spec_call1("focusMonacoEditor"@, self.editor_id@),
    {
        build_call1("focusMonacoEditor", self.editor_id.as_str())
    }

    /// JS to set read-only mode.
    pub fn set_read_only(&self, read_only: bool) -> (r: String)
        ensures
            r@ == "window.setMonacoReadOnly('"@ + self.editor_id@ + "', "@ + (if read_only {
                "true"@
            } else {
                "false"@
            }) + ")"@,
    {
        let mut r = "window.setMonacoReadOnly('".to_owned();
        append_str(&mut r, self.editor_id.as_str());
        append_str(&mut r, "', ");
        if read_only {
            append_str(&mut r, "true");
        } else {
            append_str(&mut r, "false");
        }
        append_str(&mut r, ")");
        proof {
            assert(r@ =~= "window.setMonacoReadOnly('"@ + self.editor_id@ + "', "@ + (
            if read_only {
                "true"@
            } else {
                "false"@
            }) + ")"@);
        }
        r
    }

    /// JS to execute a named editor action.
    pub fn execute_action(&self, action_id: &str) -> (r: String)
        ensures
            r@ == "window.executeMonacoAction('"@ + self.editor_id@ + "', '"@ + action_id@ + "')"@,
    {
        let mut r = "window.executeMonacoAction('".to_owned();
        append_str(&mut r, self.editor_id.as_str());
        append_str(&mut r, "', '");
        append_str(&mut r, action_id);
        append_str(&mut r, "')");
        proof {
            assert(r@ =~= "window.executeMonacoAction('"@ + self.editor_id@ + "', '"@ + action_id@
                + "')"@);
        }
        r
    }

    /// JS to read the cursor position.
    pub fn get_cursor_position(&self) -> (r: String)
        ensures
            r@ == spec_call1("getMonacoCursorPosition"@, self.editor_id@),
    {
        build_call1("getMonacoCursorPosition", self.editor_id.as_str())
    }

    /// JS to lay out all editors.
    pub fn layout_all() -> (r: String)
        ensures
            r@ == "window.layoutMonacoEditors()"@,
    {
        "window.layoutMonacoEditors()".to_owned()
    }

    /// JS to ask whether Monaco is ready.
    pub fn is_ready() -> (r: String)
        ensures
            r@ == "window.isMonacoReady()"@,
    {
        "window.isMonacoReady()".to_owned()
    }
}

} // verus!
