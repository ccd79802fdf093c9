//! Tests of the terminal session payloads and command-level checks.

use codelane::session::should_inherit_env_var;
use codelane::session::{apply_read, PtyRead, SessionAction};
use codelane::session::{build_wrapped_command, escape_single_quotes, is_shell_command};
use codelane::term::TerminalBuffer;

use codelane::session::{
    validate_dimensions, TerminalExitPayload, TerminalInfo, TerminalOutputPayload,
};

#[test]
fn test_terminal_output_payload_clone() {
    let original = TerminalOutputPayload {
        id: "test".to_string(),
        data: vec![1, 2, 3],
    };

    let cloned = original.clone();
    assert_eq!(original.id, cloned.id);
    assert_eq!(original.data, cloned.data);
}

#[test]
fn test_terminal_exit_payload_clone() {
    let original = TerminalExitPayload {
        id: "test".to_string(),
        code: Some(0),
    };

    let cloned = original.clone();
    assert_eq!(original.id, cloned.id);
    assert_eq!(original.code, cloned.code);
}

#[test]
fn test_terminal_info_clone() {
    let original = TerminalInfo {
        id: "test".to_string(),
        cols: 80,
        rows: 24,
    };

    let cloned = original.clone();
    assert_eq!(original.id, cloned.id);
    assert_eq!(original.cols, cloned.cols);
    assert_eq!(original.rows, cloned.rows);
}

#[test]
fn test_terminal_exit_payload_success_code() {
    let payload = TerminalExitPayload {
        id: "success".to_string(),
        code: Some(0),
    };

    assert_eq!(payload.code, Some(0));
}

#[test]
fn test_terminal_exit_payload_error_code() {
    let payload = TerminalExitPayload {
        id: "error".to_string(),
        code: Some(1),
    };

    assert_eq!(payload.code, Some(1));
}

#[test]
fn test_terminal_dimension_validation_zero() {
    // Zero dimensions are rejected
    let cols: u16 = 0;
    let rows: u16 = 0;

    assert!(cols == 0 || rows == 0, "Zero dimensions should be invalid");
    assert!(validate_dimensions(cols, rows).is_err());
}

#[test]
fn test_terminal_dimension_validation_max() {
    let cols: u16 = 1000;
    let rows: u16 = 1000;

    assert!(cols <= 1000 && rows <= 1000, "1000x1000 should be valid");
    assert!(validate_dimensions(cols, rows).is_ok());
}

#[test]
fn test_terminal_dimension_validation_over_max() {
    let cols: u16 = 1001;
    let rows: u16 = 1001;

    assert!(cols > 1000 || rows > 1000, "Over 1000 should be invalid");
    assert!(validate_dimensions(cols, rows).is_err());
}

#[test]
fn test_apply_read_feeds_buffer() {

    let mut buf = TerminalBuffer::new(10, 3);
    let act = apply_read(&mut buf, &PtyRead::Data(b"hi".to_vec()));
    assert_eq!(act, SessionAction::EmitRedraw);
    assert_eq!(buf.row_text(0), "hi        ");

    let act = apply_read(&mut buf, &PtyRead::Eof);
    assert_eq!(act, SessionAction::EmitExited);

    let act = apply_read(&mut buf, &PtyRead::Failed("boom".to_string()));
    assert_eq!(act, SessionAction::EmitExited);
}

#[test]
fn test_shell_command_wrapping() {

    assert!(is_shell_command("/bin/zsh"));
    assert!(is_shell_command("/usr/bin/bash"));
    assert!(is_shell_command("fish"));
    assert!(!is_shell_command("copilot"));

    assert_eq!(escape_single_quotes("it's"), "it'\\''s");

    let wrapped = build_wrapped_command(
        "copilot",
        &vec!["--model".to_string(), "it's".to_string()],
    );
    assert_eq!(wrapped, "copilot '--model' 'it'\\''s'");
}

#[test]
fn test_inherited_env_vars() {

    assert!(should_inherit_env_var("PATH"));
    assert!(should_inherit_env_var("HOME"));
    assert!(should_inherit_env_var("LC_ALL"));
    assert!(should_inherit_env_var("LANGUAGE"));
    assert!(should_inherit_env_var("TERM"));
    assert!(!should_inherit_env_var("SECRET_TOKEN"));
    assert!(!should_inherit_env_var("AWS_ACCESS_KEY_ID"));
}
