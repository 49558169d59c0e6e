//! The key events that drive the prompts.
use vstd::prelude::*;

verus! {

/// One key event read from the terminal.
#[derive(Clone, Copy, Debug, PartialEq, Eq, Structural)]
pub enum Key {
    Character(char),
    Backspace,
    Enter,
    Escape,
    ArrowUp,
    ArrowDown,
    Other,
}

} // verus!
