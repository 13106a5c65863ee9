//! The editing modes of the editor.

use vstd::prelude::*;

verus! {

/// The editing modes. Exactly one is active at a time; the active mode decides
/// which column-clamp rule applies (Insert allows the caret one past the last
/// character; every other mode clamps to the last character) and where typed
/// characters are routed.
#[derive(Debug, Clone, Copy, PartialEq, Eq, Structural)]
pub enum Mode {
    /// Navigation and single- or two-key commands.
    Normal,
    /// Typing text into the buffer.
    Insert,
    /// Entering a `:` command line.
    Command,
    /// Entering a `/` search pattern.
    Search,
}

impl Mode {
    /// Display name of the mode.
    pub fn as_str(&self) -> (r: &'static str)
        ensures
            self is Normal ==> r@ == "NORMAL"@,
            self is Insert ==> r@ == "INSERT"@,
            self is Command ==> r@ == "COMMAND"@,
            self is Search ==> r@ == "SEARCH"@,
    {
        match self {
            Mode::Normal => "NORMAL",
            Mode::Insert => "INSERT",
            Mode::Command => "COMMAND",
            Mode::Search => "SEARCH",
        }
    }
}

impl Default for Mode {
    /// The editor starts in Normal mode.
    fn default() -> (r: Self)
        ensures
            r is Normal,
    {
        Mode::Normal
    }
}

} // verus!
