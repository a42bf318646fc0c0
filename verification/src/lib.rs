//! LogicShell: a policy-driven command dispatch library with verified
//! safety evaluation, configuration decoding, LLM response parsing and
//! terminal-UI state machines.

pub mod text;
pub mod error;
pub mod audit;
pub mod dispatcher;
pub mod hooks;
pub mod shell;
pub mod config;
pub mod safety;
pub mod llm;
pub mod tui;

pub use error::{LogicShellError, Result};
pub use shell::LogicShell;
