//! State machines of the interactive terminal UI: the input line, the
//! output panel, command history and the application itself.

pub mod input;
pub mod output;
pub mod history;
pub mod keys;
pub mod app;
pub mod event;
pub mod error;
pub mod status;
