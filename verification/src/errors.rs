//! Errors of the terminal subsystem. PTY creation and resize failures
//! surface synchronously; read and write failures end a session's read
//! loop and surface as lifecycle events; malformed escape sequences are
//! never an error at all — the parser discards them.

use vstd::prelude::*;

use crate::text::append_str;

verus! {

/// A terminal subsystem error.
#[derive(Debug, Clone)]
pub enum Error {
    /// PTY creation or resize failure, with the provider's message.
    Pty(String),
    /// No session with the requested id.
    NotFound(String),
    /// A read or write on the PTY failed, with the reported message.
    Io(String),
    /// Anything else, described in words.
    Other(String),
}

/// The rendered form of an error: its kind's prefix and its message.
pub open spec fn spec_error_text(e: Error) -> Seq<char> {
    match e {
        Error::Pty(m) => "PTY error: "@ + m@,
        Error::NotFound(m) => "Terminal not found: "@ + m@,
        Error::Io(m) => "IO error: "@ + m@,
        Error::Other(m) => m@,
    }
}

impl Error {
    /// The error as one line of text.
    pub fn message(&self) -> (r: String)
        ensures
            r@ == spec_error_text(*self),
    {
        match self {
            Error::Pty(m) => {
                let mut r = "PTY error: ".to_owned();
                append_str(&mut r, m.as_str());
                proof {
                    assert(r@ =~= spec_error_text(*self));
                }
                r
            },
            Error::NotFound(m) => {
                let mut r = "Terminal not found: ".to_owned();
                append_str(&mut r, m.as_str());
                proof {
                    assert(r@ =~= spec_error_text(*self));
                }
                r
            },
            Error::Io(m) => {
                let mut r = "IO error: ".to_owned();
                append_str(&mut r, m.as_str());
                proof {
                    assert(r@ =~= spec_error_text(*self));
                }
                r
            },
            Error::Other(m) => m.clone(),
        }
    }
}

} // verus!
