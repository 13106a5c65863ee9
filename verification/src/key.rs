//! The library's own model of a key event: a physical key code plus
//! modifier flags. The front end converts its terminal events into this
//! type before handing them to the dispatcher.

use vstd::prelude::*;

verus! {

/// A physical key.
#[derive(Debug, Clone, Copy, PartialEq, Eq, Hash, Structural)]
pub enum KeyCode {
    /// A character key.
    Char(char),
    Enter,
    Backspace,
    Tab,
    Esc,
    Left,
    Right,
    Up,
    Down,
    /// A function key.
    F(u8),
    /// A key outside this model's named set; it matches no binding, but the
    /// dispatcher still sees it (clearing the status line and disarming
    /// pending chords like any other key).
    Other,
}

/// Modifier flags held together with a key.
#[derive(Debug, Clone, Copy, PartialEq, Eq, Hash, Structural)]
pub struct KeyModifiers {
    pub ctrl: bool,
    pub alt: bool,
    pub shift: bool,
    pub sup: bool,
}

impl KeyModifiers {
    /// No modifier held.
    pub open spec fn empty_spec() -> KeyModifiers {
        KeyModifiers { ctrl: false, alt: false, shift: false, sup: false }
    }

    /// No modifier held.
    pub fn empty() -> (r: KeyModifiers)
        ensures
            r == KeyModifiers::empty_spec(),
    {
        KeyModifiers { ctrl: false, alt: false, shift: false, sup: false }
    }

    /// Whether any of control, alt or super is held (shift is not counted).
    pub open spec fn has_non_shift_spec(&self) -> bool {
        self.ctrl || self.alt || self.sup
    }

    /// Whether any of control, alt or super is held (shift is not counted).
    pub fn has_non_shift(&self) -> (r: bool)
        ensures
            r == self.has_non_shift_spec(),
    {
        self.ctrl || self.alt || self.sup
    }
}

impl Default for KeyModifiers {
    /// By default, no modifier is held.
    fn default() -> (r: Self)
        ensures
            r == KeyModifiers::empty_spec(),
    {
        KeyModifiers { ctrl: false, alt: false, shift: false, sup: false }
    }
}

/// A key event: a key code with the modifiers held at the time.
#[derive(Debug, Clone, Copy, PartialEq, Eq, Hash, Structural)]
pub struct KeyEvent {
    pub code: KeyCode,
    pub modifiers: KeyModifiers,
}

impl KeyEvent {
    /// A key event with no modifiers.
    pub fn plain(code: KeyCode) -> (r: KeyEvent)
        ensures
            r == (KeyEvent { code, modifiers: KeyModifiers::empty_spec() }),
    {
        KeyEvent { code, modifiers: KeyModifiers::empty() }
    }
}

} // verus!
