//! Key events as the components read them: a key code plus the
//! modifier set. The terminal layer converts its own events into these.
use vstd::prelude::*;

verus! {

/// The key that was pressed.
#[derive(Debug, Clone, Copy, PartialEq, Eq, Structural)]
pub enum KeyCode {
    Char(char),
    Backspace,
    Delete,
    Enter,
    Esc,
    Tab,
    BackTab,
    Left,
    Right,
    Up,
    Down,
    Home,
    End,
    PageUp,
    PageDown,
    /// Any key the components never bind (function keys, media keys…).
    Other,
}

/// Held modifiers. `other` covers super/hyper/meta.
#[derive(Debug, Clone, Copy, PartialEq, Eq, Structural)]
pub struct Modifiers {
    pub shift: bool,
    pub control: bool,
    pub alt: bool,
    pub other: bool,
}

impl Modifiers {
    /// No modifier held.
    pub open spec fn is_none(self) -> bool {
        !self.shift && !self.control && !self.alt && !self.other
    }

    /// Exactly Shift.
    pub open spec fn is_shift_only(self) -> bool {
        self.shift && !self.control && !self.alt && !self.other
    }

    /// Exactly Control.
    pub open spec fn is_control_only(self) -> bool {
        !self.shift && self.control && !self.alt && !self.other
    }

    /// The empty set.
    pub fn none() -> (m: Modifiers)
        ensures
            m.is_none(),
    {
        Modifiers { shift: false, control: false, alt: false, other: false }
    }

    /// Control alone.
    pub fn control() -> (m: Modifiers)
        ensures
            m.is_control_only(),
    {
        Modifiers { shift: false, control: true, alt: false, other: false }
    }
}

/// One key press.
#[derive(Debug, Clone, Copy, PartialEq, Eq, Structural)]
pub struct Key {
    pub code: KeyCode,
    pub modifiers: Modifiers,
}

impl Key {
    /// A press with no modifiers.
    pub fn plain(code: KeyCode) -> (k: Key)
        ensures
            k.code == code,
            k.modifiers.is_none(),
    {
        Key { code, modifiers: Modifiers::none() }
    }

    /// `Ctrl+c`.
    pub fn ctrl(c: char) -> (k: Key)
        ensures
            k.code == KeyCode::Char(c),
            k.modifiers.is_control_only(),
    {
        Key { code: KeyCode::Char(c), modifiers: Modifiers::control() }
    }
}

} // verus!
