//! Session-level decisions: what one round of the background read loop
//! does to the screen buffer, how a shell command line is assembled, and
//! which resize requests are accepted.
//!
//! The read loop itself performs blocking I/O and lives with the host; it
//! hands each outcome of a PTY read to [`apply_read`], which mutates the
//! buffer and says which event to emit and whether to keep reading.

use vstd::prelude::*;

use crate::term::{m_feed, TerminalBuffer};
use crate::text::{
    push_char, spec_contains, spec_starts_with, str_contains, str_eq, str_starts_with,
};

verus! {

/// Payload for terminal output events emitted to the host UI.
#[derive(Debug, Clone)]
pub struct TerminalOutputPayload {
    /// Terminal ID.
    pub id: String,
    /// Output data as raw bytes, escape sequences preserved.
    pub data: Vec<u8>,
}

/// Payload for terminal exit events emitted to the host UI.
#[derive(Debug, Clone)]
pub struct TerminalExitPayload {
    /// Terminal ID.
    pub id: String,
    /// Exit code, when one is available.
    pub code: Option<i32>,
}

/// Terminal information reported to the host UI.
#[derive(Debug, Clone)]
pub struct TerminalInfo {
    /// Terminal ID.
    pub id: String,
    /// Number of columns.
    pub cols: u16,
    /// Number of rows.
    pub rows: u16,
}

/// The outcome of one blocking read from the PTY.
pub enum PtyRead {
    /// A zero-byte read: the child is gone.
    Eof,
    /// A chunk of output bytes, in arrival order.
    Data(Vec<u8>),
    /// A fatal read error, with its message.
    Failed(String),
}

/// What the read loop does after one read.
#[derive(Debug, Clone, Copy, PartialEq, Eq, Structural)]
pub enum SessionAction {
    /// Emit a redraw event and keep reading.
    EmitRedraw,
    /// Emit an exited event and stop.
    EmitExited,
}

/// One round of the read loop: data is applied to the buffer byte by
/// byte, in exactly the order delivered, and a redraw is requested; end
/// of file and fatal read errors both end the loop with an exited event.
pub fn apply_read(buffer: &mut TerminalBuffer, read: &PtyRead) -> (act: SessionAction)
    requires
        old(buffer)@.wf(),
    ensures
        final(buffer)@.wf(),
        (match read {
            PtyRead::Data(d) => final(buffer)@ == m_feed(old(buffer)@, d@) && act
                == SessionAction::EmitRedraw,
            PtyRead::Eof => final(buffer)@ == old(buffer)@ && act == SessionAction::EmitExited,
            PtyRead::Failed(_) => final(buffer)@ == old(buffer)@ && act
                == SessionAction::EmitExited,
        }),
{
    match read {
        PtyRead::Eof => SessionAction::EmitExited,
        PtyRead::Data(d) => {
            buffer.feed(d.as_slice());
            SessionAction::EmitRedraw
        },
        PtyRead::Failed(_) => SessionAction::EmitExited,
    }
}

/// Whether a resize request is acceptable: both dimensions at least 1 and
/// at most 1000.
pub fn validate_dimensions(cols: u16, rows: u16) -> (r: Result<(), String>)
    ensures
        r is Ok <==> (1 <= cols && cols <= 1000 && 1 <= rows && rows <= 1000),
{
    if cols == 0 || rows == 0 {
        Err("Terminal dimensions must be greater than 0".to_owned())
    } else if cols > 1000 || rows > 1000 {
        Err("Terminal dimensions too large (max 1000x1000)".to_owned())
    } else {
        Ok(())
    }
}

/// Whether the requested command is itself an interactive shell, which is
/// run directly rather than wrapped in a login shell.
pub fn is_shell_command(cmd: &str) -> (r: bool)
    ensures
        r == (spec_contains(cmd@, "zsh"@) || spec_contains(cmd@, "bash"@) || spec_contains(
            cmd@,
            "fish"@,
        )),
{
    str_contains(cmd, "zsh") || str_contains(cmd, "bash") || str_contains(cmd, "fish")
}

/// One character of a single-quoted shell argument: a single quote
/// becomes the four characters `'\''`, anything else stands as it is.
pub open spec fn spec_squote_escaped_char(c: char) -> Seq<char> {
    if c == '\'' {
        seq!['\'', '\\', '\'', '\'']
    } else {
        seq![c]
    }
}

/// A string with every single quote escaped for single-quoted shell use.
pub open spec fn spec_squote_escaped(s: Seq<char>) -> Seq<char>
    decreases s.len(),
{
    if s.len() == 0 {
        Seq::empty()
    } else {
        spec_squote_escaped(s.drop_last()) + spec_squote_escaped_char(s.last())
    }
}

/// Escapes single quotes in one argument for a single-quoted shell word.
pub fn escape_single_quotes(arg: &str) -> (r: String)
    ensures
        r@ == spec_squote_escaped(arg@),
{
    let n = arg.unicode_len();
    let mut r = String::new();
    let mut i: usize = 0;
    while i < n
        invariant
            i <= n,
            n == arg@.len(),
            r@ == spec_squote_escaped(arg@.take(i as int)),
        decreases n - i,
    {
        let c = arg.get_char(i);
        proof {
            assert(arg@.take(i + 1).drop_last() =~= arg@.take(i as int));
            assert(arg@.take(i + 1).last() == c);
        }
        if c == '\'' {
            push_char(&mut r, '\'');
            push_char(&mut r, '\\');
            push_char(&mut r, '\'');
            push_char(&mut r, '\'');
            proof {
                assert(r@ =~= spec_squote_escaped(arg@.take(i + 1)));
            }
        } else {
            push_char(&mut r, c);
            proof {
                assert(r@ =~= spec_squote_escaped(arg@.take(i + 1)));
            }
        }
        i += 1;
    }
    proof {
        assert(arg@.take(n as int) =~= arg@);
    }
    r
}

/// The command string of a non-shell command wrapped for a login shell:
/// the command followed by each argument as a single-quoted word.
pub open spec fn spec_wrapped_command(cmd: Seq<char>, args: Seq<Seq<char>>) -> Seq<char>
    decreases args.len(),
{
    if args.len() == 0 {
        cmd
    } else {
        spec_wrapped_command(cmd, args.drop_last()) + seq![' ', '\'']
            + spec_squote_escaped(args.last()) + seq!['\'']
    }
}

/// Builds the full command string run through `login_shell -l -i -c`,
/// quoting each argument.
pub fn build_wrapped_command(cmd: &str, args: &Vec<String>) -> (r: String)
    ensures
        r@ == spec_wrapped_command(cmd@, args@.map_values(|a: String| a@)),
{
    let ghost argseq = args@.map_values(|a: String| a@);
    let mut r = cmd.to_owned();
    let mut i: usize = 0;
    while i < args.len()
        invariant
            i <= args@.len(),
            argseq == args@.map_values(|a: String| a@),
            r@ == spec_wrapped_command(cmd@, argseq.take(i as int)),
        decreases args@.len() - i,
    {
        let escaped = escape_single_quotes(args[i].as_str());
        push_char(&mut r, ' ');
        push_char(&mut r, '\'');
        r.append(escaped.as_str());
        push_char(&mut r, '\'');
        proof {
            assert(argseq.take(i + 1).drop_last() =~= argseq.take(i as int));
            assert(argseq.take(i + 1).last() == argseq[i as int]);
            assert(r@ =~= spec_wrapped_command(cmd@, argseq.take(i + 1)));
        }
        i += 1;
    }
    proof {
        assert(argseq.take(args@.len() as int) =~= argseq);
    }
    r
}

/// Whether one of the host's environment variables is passed through to a
/// spawned terminal: the locale families, and a fixed list of session
/// variables.
pub open spec fn spec_inherited_env(key: Seq<char>) -> bool {
    ||| spec_starts_with(key, "LC_"@)
    ||| spec_starts_with(key, "LANG"@)
    ||| key == "PATH"@
    ||| key == "HOME"@
    ||| key == "USER"@
    ||| key == "LOGNAME"@
    ||| key == "TERM"@
    ||| key == "COLORTERM"@
    ||| key == "SHELL"@
    ||| key == "EDITOR"@
    ||| key == "VISUAL"@
    ||| key == "XDG_RUNTIME_DIR"@
    ||| key == "XDG_CONFIG_HOME"@
    ||| key == "XDG_DATA_HOME"@
}

/// Whether an environment variable of the host is inherited by a spawned
/// terminal.
pub fn should_inherit_env_var(key: &str) -> (r: bool)
    ensures
        r == spec_inherited_env(key@),
{
    str_starts_with(key, "LC_") || str_starts_with(key, "LANG") || str_eq(key, "PATH") || str_eq(
        key,
        "HOME",
    ) || str_eq(key, "USER") || str_eq(key, "LOGNAME") || str_eq(key, "TERM") || str_eq(
        key,
        "COLORTERM",
    ) || str_eq(key, "SHELL") || str_eq(key, "EDITOR") || str_eq(key, "VISUAL") || str_eq(
        key,
        "XDG_RUNTIME_DIR",
    ) || str_eq(key, "XDG_CONFIG_HOME") || str_eq(key, "XDG_DATA_HOME")
}

} // verus!
