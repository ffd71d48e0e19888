//! The application's input modes: which key table is live, and the
//! chip the modeline and keybinds popup draw for it.
use vstd::prelude::*;

verus! {

#[derive(Debug, Clone, Copy, PartialEq, Eq, Structural)]
pub enum Mode {
    Browse,
    Search,
    Find,
    Insert,
    Normal,
    Leader,
    Visual,
    History,
    Preview,
}

/// The chip text of a mode: its name in capitals.
pub open spec fn spec_chip(m: Mode) -> Seq<char> {
    match m {
        Mode::Browse => "BROWSE"@,
        Mode::Search => "SEARCH"@,
        Mode::Find => "FIND"@,
        Mode::Insert => "INSERT"@,
        Mode::Normal => "NORMAL"@,
        Mode::Leader => "LEADER"@,
        Mode::Visual => "VISUAL"@,
        Mode::History => "HISTORY"@,
        Mode::Preview => "PREVIEW"@,
    }
}

impl Mode {
    /// The chip text.
    pub fn chip(self) -> (r: &'static str)
        ensures
            r@ == spec_chip(self),
    {
        match self {
            Mode::Browse => "BROWSE",
            Mode::Search => "SEARCH",
            Mode::Find => "FIND",
            Mode::Insert => "INSERT",
            Mode::Normal => "NORMAL",
            Mode::Leader => "LEADER",
            Mode::Visual => "VISUAL",
            Mode::History => "HISTORY",
            Mode::Preview => "PREVIEW",
        }
    }
}

} // verus!
