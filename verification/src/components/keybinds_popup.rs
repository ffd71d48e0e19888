//! Keybinds popup (`?`): the modes in a sidebar, the active mode's
//! bindings beside them. Tab/h/l switch modes (wrapping), j/k scroll,
//! Esc/q/? close.
use crate::action::Action;
use crate::keys::{Key, KeyCode};
use crate::mode::Mode;
use vstd::prelude::*;

verus! {

/// How many modes the sidebar lists.
pub const MODE_COUNT: usize = 6;

/// The sidebar's modes, in order.
pub open spec fn spec_mode_at(i: int) -> Mode {
    if i == 0 {
        Mode::Browse
    } else if i == 1 {
        Mode::Search
    } else if i == 2 {
        Mode::Insert
    } else if i == 3 {
        Mode::Normal
    } else if i == 4 {
        Mode::Leader
    } else {
        Mode::Visual
    }
}

/// The sidebar's `i`-th mode.
pub fn mode_at(i: usize) -> (m: Mode)
    requires
        i < MODE_COUNT,
    ensures
        m == spec_mode_at(i as int),
{
    if i == 0 {
        Mode::Browse
    } else if i == 1 {
        Mode::Search
    } else if i == 2 {
        Mode::Insert
    } else if i == 3 {
        Mode::Normal
    } else if i == 4 {
        Mode::Leader
    } else {
        Mode::Visual
    }
}

pub struct KeybindsPopup {
    /// Index of the mode shown.
    pub mode: usize,
    /// Rows scrolled off the top.
    pub scroll: u16,
}

impl KeybindsPopup {
    /// The popup on the first mode, unscrolled.
    pub fn new() -> (r: Self)
        ensures
            r.mode == 0,
            r.scroll == 0,
    {
        KeybindsPopup { mode: 0, scroll: 0 }
    }

    /// The mode shown.
    pub fn current(&self) -> (m: Mode)
        requires
            self.mode < MODE_COUNT,
        ensures
            m == spec_mode_at(self.mode as int),
    {
        mode_at(self.mode)
    }

    /// Tab/l/→ next mode, BackTab/h/← previous (both wrap, scroll back
    /// to the top); j/↓ and k/↑ scroll (saturating); Esc/q/? close.
    pub fn handle_key(&mut self, key: Key) -> (r: Action)
        requires
            old(self).mode < MODE_COUNT,
        ensures
            final(self).mode < MODE_COUNT,
            ({
                let c = key.code;
                let m = old(self).mode as int;
                let s = old(self).scroll as int;
                if c == KeyCode::Tab || c == KeyCode::Char('l') || c == KeyCode::Right {
                    final(self).mode == (m + 1) % (MODE_COUNT as int) && final(self).scroll == 0
                        && r == Action::Noop
                } else if c == KeyCode::BackTab || c == KeyCode::Char('h') || c == KeyCode::Left {
                    final(self).mode == (m + MODE_COUNT - 1) % (MODE_COUNT as int)
                        && final(self).scroll == 0 && r == Action::Noop
                } else if c == KeyCode::Char('j') || c == KeyCode::Down {
                    final(self).mode == m && final(self).scroll == (if s < u16::MAX {
                        s + 1
                    } else {
                        s
                    }) && r == Action::Noop
                } else if c == KeyCode::Char('k') || c == KeyCode::Up {
                    final(self).mode == m && final(self).scroll == (if s > 0 {
                        s - 1
                    } else {
                        0
                    }) && r == Action::Noop
                } else if c == KeyCode::Esc || c == KeyCode::Char('q') || c == KeyCode::Char('?') {
                    *final(self) == *old(self) && r == Action::ClosePopup
                } else {
                    *final(self) == *old(self) && r == Action::Noop
                }
            }),
    {
        match key.code {
            KeyCode::Tab | KeyCode::Char('l') | KeyCode::Right => {
                self.mode = (self.mode + 1) % MODE_COUNT;
                self.scroll = 0;
                Action::Noop
            },
            KeyCode::BackTab | KeyCode::Char('h') | KeyCode::Left => {
                self.mode = (self.mode + MODE_COUNT - 1) % MODE_COUNT;
                self.scroll = 0;
                Action::Noop
            },
            KeyCode::Char('j') | KeyCode::Down => {
                self.scroll = self.scroll.saturating_add(1);
                Action::Noop
            },
            KeyCode::Char('k') | KeyCode::Up => {
                self.scroll = self.scroll.saturating_sub(1);
                Action::Noop
            },
            KeyCode::Esc | KeyCode::Char('q') | KeyCode::Char('?') => Action::ClosePopup,
            _ => Action::Noop,
        }
    }
}

impl Default for KeybindsPopup {
    fn default() -> (r: Self)
        ensures
            r.mode == 0,
            r.scroll == 0,
    {
        Self::new()
    }
}

} // verus!
