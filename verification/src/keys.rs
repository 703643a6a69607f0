//! What a key press means to the run.

use vstd::prelude::*;

verus! {

/// What the run does after a key press.
#[derive(Clone, Copy, Debug, Eq, PartialEq, Structural)]
pub enum KeyHandleResult {
    Continue,
    Exit,
}

impl Default for KeyHandleResult {
    fn default() -> (result: KeyHandleResult)
        ensures
            result == KeyHandleResult::Continue,
    {
        KeyHandleResult::Continue
    }
}

impl KeyHandleResult {
    /// The key press ends the run.
    pub fn is_exit(&self) -> (exit: bool)
        ensures
            exit == (*self == KeyHandleResult::Exit),
    {
        *self == KeyHandleResult::Exit
    }
}

/// The key of a key press, as far as the run tells keys apart.
#[derive(Clone, Copy, Debug, Eq, PartialEq, Structural)]
pub enum Key {
    Char(char),
    Enter,
    Esc,
    Other,
}

/// Whether the key went down, is held, or came up.
#[derive(Clone, Copy, Debug, Eq, PartialEq, Structural)]
pub enum KeyKind {
    Press,
    Repeat,
    Release,
}

/// One event of the keyboard.
#[derive(Clone, Copy, Debug, Eq, PartialEq, Structural)]
pub struct KeyPress {
    pub code: Key,
    pub kind: KeyKind,
}

/// The event asks for the end of the run: `q`, Enter or Esc went down or
/// is held. A key that comes up asks for nothing.
pub open spec fn quits(event: KeyPress) -> bool {
    &&& event.kind != KeyKind::Release
    &&& (event.code == Key::Char('q') || event.code == Key::Enter || event.code == Key::Esc)
}

/// Decides what a key press means.
pub fn handle_key(event: KeyPress) -> (result: KeyHandleResult)
    ensures
        result == if quits(event) {
            KeyHandleResult::Exit
        } else {
            KeyHandleResult::Continue
        },
{
    if event.kind == KeyKind::Release {
        return KeyHandleResult::Continue;
    }
    match event.code {
        Key::Char(c) => {
            if c == 'q' {
                KeyHandleResult::Exit
            } else {
                KeyHandleResult::Continue
            }
        },
        Key::Enter => KeyHandleResult::Exit,
        Key::Esc => KeyHandleResult::Exit,
        Key::Other => KeyHandleResult::Continue,
    }
}

} // verus!
