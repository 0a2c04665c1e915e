//! The keys of the terminal.

use vstd::prelude::*;

verus! {

/// A key that was pressed.
#[derive(Clone, Copy, Debug, PartialEq, Eq, Structural)]
pub enum Key {
    Char(char),
    Enter,
    Esc,
    Left,
    Right,
    Up,
    Down,
    Backspace,
    Delete,
    Home,
    End,
    Other,
}

/// The shift key, held while another key is pressed.
pub const SHIFT: u8 = 1;

/// The control key, held while another key is pressed.
pub const CONTROL: u8 = 2;

/// The alt key, held while another key is pressed.
pub const ALT: u8 = 4;

/// The meta key, held while another key is pressed.
pub const META: u8 = 32;

} // verus!
