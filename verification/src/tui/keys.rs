//! Keyboard events as the application state machine reads them.

use vstd::prelude::*;

verus! {

/// A key of the keyboard.
#[derive(Debug, Clone, Copy, PartialEq, Eq, Structural)]
pub enum KeyCode {
    Backspace,
    Enter,
    Left,
    Right,
    Up,
    Down,
    Home,
    End,
    PageUp,
    PageDown,
    Tab,
    BackTab,
    Delete,
    Insert,
    F(u8),
    Char(char),
    Null,
    Esc,
    /// Any other key (media keys, modifiers pressed alone, …).
    Other,
}

/// The modifier held with a key. Only Control changes what a key does.
#[allow(non_camel_case_types)]
#[derive(Debug, Clone, Copy, PartialEq, Eq, Structural)]
pub enum KeyModifiers {
    NONE,
    SHIFT,
    ALT,
    CONTROL,
}

impl KeyModifiers {
    /// Whether `other` is held (each value holds itself; every value holds `NONE`).
    pub fn contains(&self, other: KeyModifiers) -> (b: bool)
        ensures
            b == (other == KeyModifiers::NONE || *self == other),
    {
        match other {
            KeyModifiers::NONE => true,
            _ => *self == other,
        }
    }
}

/// A key press with its modifier.
#[derive(Debug, Clone, Copy, PartialEq, Eq, Structural)]
pub struct KeyEvent {
    pub code: KeyCode,
    pub modifiers: KeyModifiers,
}

impl KeyEvent {
    /// A key press.
    pub fn new(code: KeyCode, modifiers: KeyModifiers) -> (k: KeyEvent)
        ensures
            k.code == code,
            k.modifiers == modifiers,
    {
        KeyEvent { code, modifiers }
    }

    /// Control is held.
    pub open spec fn ctrl(&self) -> bool {
        self.modifiers == KeyModifiers::CONTROL
    }
}

} // verus!
