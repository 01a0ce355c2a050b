//! What the drawing loop waits for, and the keys that end it.

use vstd::prelude::*;

verus! {

/// Either an input arrived or it is time to draw again.
pub enum Event<I> {
    Input(I),
    Tick,
}

/// A key press, as far as the program tells keys apart.
#[derive(Debug, Clone, Copy, PartialEq, Eq, Structural)]
pub enum Key {
    /// A character key.
    Char(char),
    /// A character key pressed together with Control.
    Ctrl(char),
    /// The escape key.
    Esc,
    /// Any other key.
    Other,
}

/// Whether `key` is one of the keys that end the program: `q`, escape
/// and Control-C.
pub open spec fn exit_key(key: Key) -> bool {
    key == Key::Char('q') || key == Key::Esc || key == Key::Ctrl('c')
}

/// Whether `key` ends the program.
pub fn is_exit_key(key: Key) -> (exit: bool)
    ensures
        exit == exit_key(key),
{
    match key {
        Key::Char(c) => c == 'q',
        Key::Ctrl(c) => c == 'c',
        Key::Esc => true,
        Key::Other => false,
    }
}

} // verus!
