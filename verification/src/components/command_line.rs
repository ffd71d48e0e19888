//! Command line (`:`): a transient input strip with a filtered option
//! list; arrows move the pick, Enter runs the selected command, Esc
//! cancels. Options derive from the command registry.
use super::vim_input::{accepts, step, Outcome, VimInput, VimState};
use crate::action::Action;
use crate::commands::{self, spec_commands, spec_filter, Command};
use crate::keys::{Key, KeyCode};
use crate::text::lowercase;
use vstd::prelude::*;

verus! {

pub struct CommandLine {
    pub input: VimInput,
    /// Index into the filtered option list.
    selected: usize,
}

/// The options shown for typed text `typed`.
pub open spec fn options_for(typed: Seq<char>) -> Seq<Command> {
    spec_filter(spec_commands(), lowercase(typed))
}

impl CommandLine {
    pub closed spec fn spec_selected(&self) -> nat {
        self.selected as nat
    }

    /// The input field's invariant holds.
    pub closed spec fn wf(&self) -> bool {
        self.input.wf()
    }

    /// The typed text's state.
    pub closed spec fn typed(&self) -> VimState {
        self.input@
    }

    pub fn new() -> (r: Self)
        ensures
            r.wf(),
            r.typed().chars.len() == 0,
            !r.typed().modal,
            r.typed().submode == crate::components::vim_input::SubMode::Insert,
            !r.typed().replace_on_edit,
            !r.typed().pending_delete,
            r.spec_selected() == 0,
    {
        CommandLine { input: VimInput::transient(), selected: 0 }
    }

    /// The highlighted option's index.
    pub fn selected(&self) -> (r: usize)
        ensures
            r == self.spec_selected(),
    {
        self.selected
    }

    /// The options for the current text.
    fn options(&self) -> (r: Vec<Command>)
        ensures
            r@ == options_for(self.typed().chars),
    {
        let typed = self.input.value();
        commands::filter(typed.as_str())
    }

    /// Whether `handle_key` can take `key` now: the typed text accepts
    /// every key but the list moves.
    pub fn takes_key(&self, key: Key) -> (b: bool)
        requires
            self.wf(),
        ensures
            b == (key.code != KeyCode::Down && key.code != KeyCode::Up ==> accepts(self.typed(), key)),
    {
        if key.code != KeyCode::Down && key.code != KeyCode::Up {
            self.input.accepts_key(key)
        } else {
            true
        }
    }

    pub fn handle_key(&mut self, key: Key) -> (r: Action)
        requires
            old(self).wf(),
            key.code != KeyCode::Down && key.code != KeyCode::Up ==> accepts(old(self).typed(), key),
        ensures
            final(self).wf(),
            key.code == KeyCode::Down ==> {
                let len = options_for(old(self).typed().chars).len();
                &&& final(self).typed() == old(self).typed()
                &&& r == Action::Noop
                &&& final(self).spec_selected() == (if len == 0 {
                    old(self).spec_selected() as int
                } else if old(self).spec_selected() + 1 <= len - 1 {
                    old(self).spec_selected() + 1 as int
                } else {
                    len - 1
                })
            },
            key.code == KeyCode::Up ==> {
                &&& final(self).typed() == old(self).typed()
                &&& r == Action::Noop
                &&& final(self).spec_selected() == (if old(self).spec_selected() > 0 {
                    old(self).spec_selected() - 1 as int
                } else {
                    0
                })
            },
            key.code != KeyCode::Down && key.code != KeyCode::Up ==> {
                let (next, outcome) = step(old(self).typed(), key);
                let opts = options_for(next.chars);
                let sel = old(self).spec_selected();
                &&& final(self).typed() == next
                &&& outcome == Outcome::Submitted ==> final(self).spec_selected() == sel && if sel
                    < opts.len() {
                    r matches Action::RunCommand(name) && name@ == opts[sel as int].name@
                } else {
                    r == Action::ClosePopup
                }
                &&& outcome == Outcome::Cancelled ==> r == Action::ClosePopup
                    && final(self).spec_selected() == sel
                &&& outcome == Outcome::Changed ==> r == Action::Noop && final(self).spec_selected()
                    == 0
                &&& outcome == Outcome::Noop ==> r == Action::Noop && final(self).spec_selected()
                    == sel
            },
    {
        match key.code {
            KeyCode::Down => {
                let len = self.options().len();
                if len > 0 {
                    self.selected = if self.selected < len - 1 { self.selected + 1 } else { len - 1 };
                }
                return Action::Noop;
            },
            KeyCode::Up => {
                self.selected = if self.selected > 0 { self.selected - 1 } else { 0 };
                return Action::Noop;
            },
            _ => {},
        }
        match self.input.handle_key(key) {
            Outcome::Submitted => {
                let options = self.options();
                if self.selected < options.len() {
                    let name = options[self.selected].name;
                    Action::RunCommand(name.to_owned())
                } else {
                    Action::ClosePopup
                }
            },
            Outcome::Cancelled => Action::ClosePopup,
            Outcome::Changed => {
                self.selected = 0;
                Action::Noop
            },
            Outcome::Noop => Action::Noop,
        }
    }
}

impl Default for CommandLine {
    fn default() -> (r: Self)
        ensures
            r.wf(),
            r.typed().chars.len() == 0,
            r.spec_selected() == 0,
    {
        Self::new()
    }
}

} // verus!
