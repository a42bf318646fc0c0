//! The error type of the LLM subsystem.

use vstd::prelude::*;
use crate::text::{append, decimal, owned, push_decimal};

verus! {

/// Errors that can originate from the LLM subsystem.
#[derive(Debug, PartialEq)]
pub enum LlmError {
    /// LLM is disabled in configuration (`llm.enabled = false`).
    Disabled,
    /// `llm.enabled = true` but `llm.model` is absent.
    ModelNotSpecified,
    /// The composed prompt exceeds the configured `max_context_chars` limit.
    ContextTooLarge { size: usize, max: usize },
    /// The LLM response could not be parsed into a usable form.
    Parse(String),
    /// HTTP or transport error from the client.
    Http(String),
    /// Catch-all for unforeseen errors.
    Other(String),
}

impl LlmError {
    /// The rendered message of the error.
    pub open spec fn message(&self) -> Seq<char> {
        match self {
            LlmError::Disabled => "LLM is disabled by configuration"@,
            LlmError::ModelNotSpecified => "llm.model is required when llm.enabled = true"@,
            LlmError::ContextTooLarge { size, max } => "prompt length "@ + decimal(*size as nat)
                + " chars exceeds max_context_chars limit "@ + decimal(*max as nat),
            LlmError::Parse(m) => "LLM response parse error: "@ + m@,
            LlmError::Http(m) => "LLM HTTP error: "@ + m@,
            LlmError::Other(m) => "LLM error: "@ + m@,
        }
    }

    /// Renders the error as a human-readable message.
    pub fn to_string(&self) -> (s: String)
        ensures
            s@ == self.message(),
    {
        match self {
            LlmError::Disabled => owned("LLM is disabled by configuration"),
            LlmError::ModelNotSpecified => owned("llm.model is required when llm.enabled = true"),
            LlmError::ContextTooLarge { size, max } => {
                let mut s = owned("prompt length ");
                push_decimal(&mut s, *size as u64);
                append(&mut s, " chars exceeds max_context_chars limit ");
                push_decimal(&mut s, *max as u64);
                s
            },
            LlmError::Parse(m) => {
                let mut s = owned("LLM response parse error: ");
                append(&mut s, m.as_str());
                s
            },
            LlmError::Http(m) => {
                let mut s = owned("LLM HTTP error: ");
                append(&mut s, m.as_str());
                s
            },
            LlmError::Other(m) => {
                let mut s = owned("LLM error: ");
                append(&mut s, m.as_str());
                s
            },
        }
    }
}

} // verus!
