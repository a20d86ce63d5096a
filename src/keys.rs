//! Key events as the editor reads them.

use vstd::prelude::*;

verus! {

/// Which key was pressed.
#[derive(Clone, Copy, Debug, PartialEq, Eq, Structural)]
pub enum KeyCode {
    Char(char),
    Enter,
    Backspace,
    Tab,
    Esc,
    Up,
    Down,
    Left,
    Right,
    Home,
    End,
    PageUp,
    PageDown,
    Other,
}

/// The modifier keys held with it.
#[derive(Clone, Copy, Debug, PartialEq, Eq, Structural)]
pub struct Modifiers {
    pub control: bool,
    pub shift: bool,
    pub alt: bool,
}

/// Whether the key went down or came up.
#[derive(Clone, Copy, Debug, PartialEq, Eq, Structural)]
pub enum KeyKind {
    Press,
    Release,
}

#[derive(Clone, Copy, Debug, PartialEq, Eq, Structural)]
pub struct KeyEvent {
    pub code: KeyCode,
    pub modifiers: Modifiers,
    pub kind: KeyKind,
}

/// A control character: U+0000 to U+001F and U+007F to U+009F.
pub open spec fn is_control_char(c: char) -> bool {
    (c as u32) < 0x20 || (0x7f <= (c as u32) && (c as u32) <= 0x9f)
}

pub fn is_control(c: char) -> (r: bool)
    ensures
        r == is_control_char(c),
{
    let u = c as u32;
    u < 0x20 || (0x7f <= u && u <= 0x9f)
}

/// Control held, and neither shift nor alt.
pub open spec fn control_only(m: Modifiers) -> bool {
    m.control && !m.shift && !m.alt
}

/// No modifier, or shift alone.
pub open spec fn plain_or_shift(m: Modifiers) -> bool {
    !m.control && !m.alt
}

/// Control and the character `ch`.
pub open spec fn is_ctrl(key: KeyEvent, ch: char) -> bool {
    key.code == KeyCode::Char(ch) && control_only(key.modifiers)
}

/// The character that the key types, if it types one.
pub open spec fn typed_char(key: KeyEvent) -> Option<char> {
    match key.code {
        KeyCode::Char(c) => if plain_or_shift(key.modifiers) && !is_control_char(c) {
            Some(c)
        } else {
            None
        },
        _ => None,
    }
}

impl KeyEvent {
    pub fn ctrl(&self, ch: char) -> (r: bool)
        ensures
            r == is_ctrl(*self, ch),
    {
        self.code == KeyCode::Char(ch) && self.modifiers.control && !self.modifiers.shift
            && !self.modifiers.alt
    }

    pub fn typed(&self) -> (r: Option<char>)
        ensures
            r == typed_char(*self),
    {
        match self.code {
            KeyCode::Char(c) => if !self.modifiers.control && !self.modifiers.alt && !is_control(c) {
                Some(c)
            } else {
                None
            },
            _ => None,
        }
    }
}

} // verus!
