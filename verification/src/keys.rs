//! The keys that the viewer reacts to.
use vstd::prelude::*;

verus! {

/// A key pressed in the terminal.
#[derive(Debug, PartialEq, Eq, Structural, Clone, Copy)]
pub enum Key {
    Char(char),
    Backspace,
    Delete,
    Left,
    Right,
    Up,
    Down,
    Home,
    End,
    PageUp,
    PageDown,
    Enter,
    Esc,
    Tab,
    /// Any key the viewer does not use.
    Other,
}

} // verus!
