//! Tests of the Monaco JavaScript generation.
use codelane::editor::bridge::MonacoJsBuilder;
use codelane::editor::bridge::get_monaco_bootstrap_script;
use codelane::editor::monaco::MonacoConfig;

use codelane::editor::commands::EditorCommand;
use codelane::editor::Language;

#[test]
fn test_js_builder_set_language() {
    let builder = MonacoJsBuilder::new("test_editor");
    let js = builder.set_language(Language::TypeScript);

    assert!(js.contains("setMonacoLanguage"));
    assert!(js.contains("typescript"));
}

#[test]
fn test_js_builder_calls() {
    let builder = MonacoJsBuilder::new("ed1");
    assert_eq!(builder.get_content(), "window.getMonacoContent('ed1')");
    assert_eq!(builder.dispose(), "window.disposeMonacoEditor('ed1')");
    assert_eq!(builder.focus(), "window.focusMonacoEditor('ed1')");
    assert_eq!(builder.go_to_line(42), "window.goToMonacoLine('ed1', 42)");
    assert_eq!(
        builder.set_selection(1, 2, 3, 4),
        "window.setMonacoSelection('ed1', 1, 2, 3, 4)"
    );
    assert_eq!(
        builder.set_read_only(true),
        "window.setMonacoReadOnly('ed1', true)"
    );
    assert_eq!(MonacoJsBuilder::layout_all(), "window.layoutMonacoEditors()");
    assert_eq!(MonacoJsBuilder::is_ready(), "window.isMonacoReady()");
    assert_eq!(
        MonacoJsBuilder::set_theme("vs-dark"),
        "window.setMonacoTheme('vs-dark')"
    );
}

#[test]
fn test_bootstrap_script_pins_version() {
    let js = get_monaco_bootstrap_script();
    assert!(js.contains("monaco-editor@0.45.0"));
    assert!(js.contains("window.onMonacoReady"));
}

#[test]
fn test_editor_command_to_js_escapes_content() {
    let js = EditorCommand::SetContent("fn main() {\n  \"hi\"\n}".to_string()).to_js("ed1");
    assert_eq!(
        js,
        "window.monacoEditors['ed1']?.setValue(\"fn main() {\\n  \\\"hi\\\"\\n}\");"
    );

    let js = EditorCommand::GoToLine(7).to_js("ed1");
    assert_eq!(js, "window.monacoEditors['ed1']?.revealLineInCenter(7);");

    let js = EditorCommand::Undo.to_js("ed1");
    assert_eq!(js, "window.monacoEditors['ed1']?.trigger('keyboard', 'undo');");
}

#[test]
fn test_language_ids_and_detection() {
    assert_eq!(Language::Rust.monaco_id(), "rust");
    assert_eq!(Language::PlainText.monaco_id(), "plaintext");
    assert_eq!(Language::from_extension("rs"), Language::Rust);
    assert_eq!(Language::from_extension("TSX"), Language::TypeScript);
    assert_eq!(Language::from_extension("weird"), Language::PlainText);
}

#[test]
fn test_monaco_config_builders() {
    let config = MonacoConfig::default()
        .with_theme("vs-dark")
        .with_font_size(16)
        .with_tab_size(2)
        .with_read_only(true);
    assert_eq!(config.theme, "vs-dark");
    assert_eq!(config.font_size, 16);
    assert_eq!(config.tab_size, 2);
    assert!(config.read_only);
    assert!(!MonacoConfig::minimal().minimap_enabled);
    assert!(MonacoConfig::diff_viewer().read_only);
}
