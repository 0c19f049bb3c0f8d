//! Key presses, as far as the day view tells them apart.

use vstd::prelude::*;

verus! {

#[derive(Debug, Clone, Copy)]
pub enum KeyCode {
    Up,
    Down,
    Left,
    Right,
    Tab,
    BackTab,
    Enter,
    Esc,
    Backspace,
    End,
    PageUp,
    PageDown,
    Char(char),
    /// Any key that the day view does not act on.
    Other,
}

#[derive(Debug, Clone, Copy)]
pub enum KeyEventKind {
    Press,
    Repeat,
    Release,
}

#[derive(Debug, Clone, Copy)]
pub struct KeyEvent {
    pub code: KeyCode,
    pub kind: KeyEventKind,
}

impl KeyEvent {
    /// A press of the key `code`.
    pub fn press(code: KeyCode) -> (key: Self)
        ensures
            key == (KeyEvent { code, kind: KeyEventKind::Press }),
    {
        KeyEvent { code, kind: KeyEventKind::Press }
    }
}

impl KeyCode {
    /// The keys that move the selection.
    pub open spec fn is_movement(self) -> bool {
        self is Left || self is Right || self is BackTab || self is Tab || self is Down
            || self is Up
    }

    /// The keys at which a field editor writes its text into the row:
    /// Enter, and every key that moves the selection.
    pub open spec fn commits(self) -> bool {
        self is Enter || self.is_movement()
    }
}

} // verus!
