//! Keys of the device keypad and the languages the applets speak.
use vstd::prelude::*;

verus! {

/// A key of the keypad.
#[derive(Clone, Copy, Debug, PartialEq, Eq, Structural)]
pub enum KeyCode {
    Up,
    Down,
    Left,
    Right,
    Center,
    Function,
    Menu,
    Home,
    Unknown,
}

/// Whether a key went down or up.
#[derive(Clone, Copy, Debug, PartialEq, Eq, Structural)]
pub enum KeyState {
    Pressed,
    Released,
}

/// The languages of the speech output.
#[derive(Clone, Copy, Debug, PartialEq, Eq, Structural)]
pub enum Language {
    Ko,
    En,
    Ja,
}

} // verus!
