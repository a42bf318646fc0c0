//! LLM bridge: system context, prompt composition, response parsing,
//! proposed commands with the AI safety floor, and health classification.

pub mod error;
pub mod parser;
pub mod context;
pub mod client;
pub mod prompt;
pub mod proposed;
pub mod bridge;
pub mod ollama;
