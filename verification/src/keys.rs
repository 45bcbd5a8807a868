//! Keys of the keyboard.
use vstd::prelude::*;

verus! {

#[derive(Debug, Clone, Copy, PartialEq, Eq, Structural)]
pub enum Key {
    Up,
    Down,
    Left,
    Right,
    Tab,
    BackTab,
    Enter,
    Esc,
    Backspace,
    Delete,
    Home,
    End,
    PageUp,
    PageDown,
    Char(char),
    Other,
}

/// A key and the modifiers that were held with it.
#[derive(Debug, Clone, Copy, PartialEq, Eq, Structural)]
pub struct KeyPress {
    pub code: Key,
    pub control: bool,
    pub shift: bool,
    pub alt: bool,
}

impl KeyPress {
    pub open spec fn with(code: Key, control: bool, shift: bool) -> KeyPress {
        KeyPress { code, control, shift, alt: false }
    }

    pub fn plain(code: Key) -> (r: Self)
        ensures
            r == KeyPress::with(code, false, false),
    {
        KeyPress { code, control: false, shift: false, alt: false }
    }

    pub fn control(code: Key) -> (r: Self)
        ensures
            r == KeyPress::with(code, true, false),
    {
        KeyPress { code, control: true, shift: false, alt: false }
    }

    pub fn shift(code: Key) -> (r: Self)
        ensures
            r == KeyPress::with(code, false, true),
    {
        KeyPress { code, control: false, shift: true, alt: false }
    }
}

} // verus!
