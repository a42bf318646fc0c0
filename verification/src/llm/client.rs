//! Request and response values exchanged with an LLM backend.

use vstd::prelude::*;

verus! {

/// A completion request: the model and the full prompt.
#[derive(Debug, Clone, PartialEq)]
pub struct LlmRequest {
    pub model: String,
    pub prompt: String,
}

/// A completion response: the generated text and the model that produced it.
#[derive(Debug, Clone, PartialEq)]
pub struct LlmResponse {
    pub text: String,
    pub model: String,
}

} // verus!
