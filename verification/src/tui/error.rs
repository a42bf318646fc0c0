//! The error type of the terminal UI.

use vstd::prelude::*;
use crate::error::LogicShellError;
use crate::text::{append, owned};

verus! {

/// Errors of the terminal UI: terminal I/O and core failures.
#[derive(Debug)]
pub enum TuiError {
    /// A terminal I/O failure, carried as its message.
    Io(String),
    /// A failure of the core library.
    Core(LogicShellError),
}

/// Convenience result alias for the terminal UI.
pub type Result<T> = std::result::Result<T, TuiError>;

impl TuiError {
    /// The rendered message.
    pub open spec fn message(&self) -> Seq<char> {
        match self {
            TuiError::Io(m) => "I/O error: "@ + m@,
            TuiError::Core(e) => "core error: "@ + e.prefix_of() + e.detail(),
        }
    }

    /// Renders the error as a human-readable message.
    pub fn to_string(&self) -> (s: String)
        ensures
            s@ == self.message(),
    {
        match self {
            TuiError::Io(m) => {
                let mut s = owned("I/O error: ");
                append(&mut s, m.as_str());
                s
            },
            TuiError::Core(e) => {
                let mut s = owned("core error: ");
                let inner = e.to_string();
                append(&mut s, inner.as_str());
                s
            },
        }
    }
}

impl From<std::io::Error> for TuiError {
    /// A terminal I/O failure as [`TuiError::Io`] carrying the
    /// `std::io::Error`'s display text (which is not stated).
    #[verifier::external_body]
    fn from(e: std::io::Error) -> (r: Self)
        ensures
            r is Io,
    {
        TuiError::Io(e.to_string())
    }
}

impl From<LogicShellError> for TuiError {
    fn from(e: LogicShellError) -> (r: Self)
        ensures
            r == TuiError::Core(e),
    {
        TuiError::Core(e)
    }
}

impl vstd::std_specs::convert::FromSpecImpl<LogicShellError> for TuiError {
    open spec fn obeys_from_spec() -> bool {
        true
    }

    open spec fn from_spec(v: LogicShellError) -> TuiError {
        TuiError::Core(v)
    }
}

} // verus!
