//! Events of the terminal UI's event loop.

use vstd::prelude::*;
use super::keys::KeyEvent;

verus! {

/// An event of the event loop.
#[derive(Debug, Clone, Copy, PartialEq, Eq, Structural)]
pub enum Event {
    /// A key press.
    Key(KeyEvent),
    /// A periodic tick, sent when no terminal event arrived in time.
    Tick,
    /// The terminal was resized to these columns and rows.
    Resize(u16, u16),
}

} // verus!
