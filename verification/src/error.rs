//! The error type of the core library.

use vstd::prelude::*;
use crate::text::{append, owned};

verus! {

/// All errors that can originate from the core library: configuration,
/// dispatch, safety policy, audit, hooks and OS I/O.
#[derive(Debug)]
pub enum LogicShellError {
    /// The configuration was malformed, missing required keys, or held unknown keys.
    Config(String),
    /// A child process could not be spawned or its exit could not be observed.
    Dispatch(String),
    /// The safety policy engine rejected a command.
    Safety(String),
    /// The audit sink could not record an entry.
    Audit(String),
    /// A pre-exec hook failed or timed out.
    Hook(String),
    /// An underlying OS I/O failure, carried as its message.
    Io(String),
}

/// Convenience result alias for the core library.
pub type Result<T> = std::result::Result<T, LogicShellError>;

impl LogicShellError {
    /// The human-readable prefix of each variant.
    pub open spec fn prefix_of(&self) -> Seq<char> {
        match self {
            LogicShellError::Config(_) => "configuration error: "@,
            LogicShellError::Dispatch(_) => "dispatch error: "@,
            LogicShellError::Safety(_) => "safety policy error: "@,
            LogicShellError::Audit(_) => "audit error: "@,
            LogicShellError::Hook(_) => "hook error: "@,
            LogicShellError::Io(_) => "I/O error: "@,
        }
    }

    /// The detail message carried by the variant.
    pub open spec fn detail(&self) -> Seq<char> {
        match self {
            LogicShellError::Config(m) => m@,
            LogicShellError::Dispatch(m) => m@,
            LogicShellError::Safety(m) => m@,
            LogicShellError::Audit(m) => m@,
            LogicShellError::Hook(m) => m@,
            LogicShellError::Io(m) => m@,
        }
    }

    /// The rendered message: the variant's prefix followed by its detail.
    pub fn to_string(&self) -> (s: String)
        ensures
            s@ == self.prefix_of() + self.detail(),
    {
        let (prefix, detail) = match self {
            LogicShellError::Config(m) => ("configuration error: ", m),
            LogicShellError::Dispatch(m) => ("dispatch error: ", m),
            LogicShellError::Safety(m) => ("safety policy error: ", m),
            LogicShellError::Audit(m) => ("audit error: ", m),
            LogicShellError::Hook(m) => ("hook error: ", m),
            LogicShellError::Io(m) => ("I/O error: ", m),
        };
        let mut s = owned(prefix);
        append(&mut s, detail.as_str());
        s
    }
}

#[verifier::external_type_specification]
#[verifier::external_body]
pub struct ExIoError(std::io::Error);

impl From<std::io::Error> for LogicShellError {
    /// An OS I/O failure as an [`LogicShellError::Io`] carrying the
    /// `std::io::Error`'s display text (which is not stated).
    #[verifier::external_body]
    fn from(e: std::io::Error) -> (r: Self)
        ensures
            r is Io,
    {
        LogicShellError::Io(e.to_string())
    }
}

} // verus!
