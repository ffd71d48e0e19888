//! Search popup: a modal input on top, results below. Enter submits
//! the query and focuses results; Tab toggles focus back (landing in
//! INSERT); Esc: INSERT→NORMAL, NORMAL or results → close. With results
//! focused, `/` runs a local incremental filter over them.
use super::pane::{visible_entries, clamped, Entry, EntryKind, Pane};
use super::vim_input::{accepts, step, Outcome, SubMode, VimInput};
use crate::action::Action;
use crate::app::provider_status;
use crate::keys::{Key, KeyCode};
use crate::mode::Mode;
use crate::provider::SearchItem;
use crate::text::{chars_of, find_char, first_index_of, slice_chars, string_of};
use vstd::prelude::*;

verus! {

#[derive(Debug, Clone, Copy, PartialEq, Eq, Structural)]
pub enum Focus {
    Input,
    Results,
}

/// The text cursor's shape: a bar in INSERT, a block in NORMAL.
#[derive(Debug, Clone, Copy, PartialEq, Eq, Structural)]
pub enum CursorStyle {
    SteadyBar,
    SteadyBlock,
}

pub struct SearchPopup {
    /// Active provider identity for the title.
    pub forge: String,
    pub input: VimInput,
    pub results: Pane,
    pub focus: Focus,
    /// `/` local filter over the results list.
    pub filter: VimInput,
    pub filtering: bool,
    /// Filter value before the current `/` session.
    pub pre_filter: String,
    /// A search request is in flight.
    pub pending: bool,
    /// Last search error, shown until the next submit.
    pub error: Option<String>,
    /// A query was submitted at least once.
    pub submitted_once: bool,
}

/// `owner/name` at the first `/`; without one, the whole name and an
/// empty rest.
pub open spec fn spec_split_repo(full: Seq<char>) -> (Seq<char>, Seq<char>) {
    match first_index_of(full, '/') {
        Some(i) => (full.take(i), full.skip(i + 1)),
        None => (full, seq![]),
    }
}

/// Split a full repo name at its first `/`.
pub fn split_repo(full: &str) -> (r: (String, String))
    ensures
        (r.0@, r.1@) == spec_split_repo(full@),
{
    let cs = chars_of(full);
    match find_char(cs.as_slice(), '/') {
        Some(i) => {
            assert(i < cs.len());
            let a = slice_chars(cs.as_slice(), 0, i);
            let b = slice_chars(cs.as_slice(), i + 1, cs.len());
            assert(a@ =~= full@.take(i as int));
            assert(b@ =~= full@.skip(i + 1));
            (string_of(a.as_slice()), string_of(b.as_slice()))
        },
        None => (string_of(cs.as_slice()), String::new()),
    }
}

/// The entry a search result lists as.
pub open spec fn item_entry_name(item: SearchItem) -> Seq<char> {
    match item {
        SearchItem::Repo(full) => full@,
        SearchItem::Org(login) => login@,
    }
}

/// `b` is popup `a` after `update(action)`.
pub open spec fn popup_after(a: SearchPopup, b: SearchPopup, action: Action) -> bool {
    &&& b.input == a.input
    &&& b.filter == a.filter
    &&& b.filtering == a.filtering
    &&& b.forge == a.forge
    &&& (match action {
                Action::SearchSubmitted(_) => {
                    &&& b.submitted_once
                    &&& b.pending
                    &&& b.error is None
                    &&& b.focus == Focus::Results
                    &&& b.results == a.results
                },
                Action::SearchResults { items } => {
                    &&& !b.pending
                    &&& b.results.entries@.len() == items@.len()
                    &&& (forall|i: int| 0 <= i < items@.len() ==> {
                        &&& (#[trigger] b.results.entries@[i]).name@ == crate::sanitize::spec_sanitize_inline(item_entry_name(items@[i]))
                        &&& b.results.entries@[i].kind == (if items@[i] is Org { EntryKind::Org } else { EntryKind::Repo })
                    })
                    &&& b.results.filter@.len() == 0
                    &&& b.results.selected == 0
                    &&& b.results.title@ == "results"@
                    &&& b.error == a.error
                    &&& b.focus == a.focus
                    &&& b.submitted_once == a.submitted_once
                },
                Action::SearchFailed { error } => {
                    &&& !b.pending
                    &&& (b.error matches Some(e) && exists|s: String| #[trigger] provider_status_of(error, s) && e == s)
                    &&& b.results.entries@.len() == 0
                    &&& b.results.filter@.len() == 0
                    &&& b.results.selected == 0
                    &&& b.focus == a.focus
                    &&& b.submitted_once == a.submitted_once
                },
                _ => {
                    &&& b.results == a.results
                    &&& b.pending == a.pending
                    &&& b.error == a.error
                    &&& b.focus == a.focus
                    &&& b.submitted_once == a.submitted_once
                },
            })
}

impl SearchPopup {
    /// Both inputs are well formed.
    pub open spec fn wf(&self) -> bool {
        self.input.wf() && self.filter.wf()
    }

    pub fn new() -> (r: Self)
        ensures
            r.wf(),
            r.focus == Focus::Input,
            r.input@.chars.len() == 0,
            r.input@.submode == SubMode::Insert,
            !r.filtering,
            !r.pending,
            !r.submitted_once,
            r.error is None,
            r.results.entries@.len() == 0,
    {
        SearchPopup::with_prefill(None)
    }

    /// `prefill` seeds the query (resume flow); typing replaces it.
    pub fn with_prefill(prefill: Option<&str>) -> (r: Self)
        ensures
            r.wf(),
            r.focus == Focus::Input,
            r.input@.chars == (match prefill {
                Some(p) => p@,
                None => Seq::<char>::empty(),
            }),
            r.input@.replace_on_edit == prefill is Some,
            r.input@.submode == SubMode::Insert,
            r.input@.modal,
            !r.filter@.modal,
            r.filter@.chars.len() == 0,
            !r.filtering,
            !r.pending,
            !r.submitted_once,
            r.error is None,
            r.results.entries@.len() == 0,
            r.results.filter@.len() == 0,
            r.results.selected == 0,
    {
        let results = Pane::new(String::from_str("results"), Vec::new());
        let mut input = VimInput::new();
        if let Some(p) = prefill {
            input.prefill(p);
        }
        SearchPopup {
            forge: String::new(),
            input,
            results,
            focus: Focus::Input,
            filter: VimInput::transient(),
            filtering: false,
            pre_filter: String::new(),
            pending: false,
            error: None,
            submitted_once: false,
        }
    }

    /// Backend outcomes routed back into the popup.
    pub fn update(&mut self, action: &Action)
        ensures
            popup_after(*old(self), *final(self), *action),
    {
        match action {
            Action::SearchSubmitted(_) => {
                self.submitted_once = true;
                self.pending = true;
                self.error = None;
                self.focus = Focus::Results;
            },
            Action::SearchResults { items } => {
                self.pending = false;
                let mut entries: Vec<Entry> = Vec::new();
                let mut i: usize = 0;
                while i < items.len()
                    invariant
                        i <= items@.len(),
                        entries@.len() == i,
                        forall|j: int| 0 <= j < i ==> {
                            &&& (#[trigger] entries@[j]).name@ == crate::sanitize::spec_sanitize_inline(item_entry_name(items@[j]))
                            &&& entries@[j].kind == (if items@[j] is Org { EntryKind::Org } else { EntryKind::Repo })
                        },
                    decreases items.len() - i,
                {
                    let e = match &items[i] {
                        SearchItem::Repo(full) => Entry::new(full.as_str(), EntryKind::Repo),
                        SearchItem::Org(login) => Entry::new(login.as_str(), EntryKind::Org),
                    };
                    entries.push(e);
                    i += 1;
                }
                self.results = Pane::new(String::from_str("results"), entries);
                proof {
                    reveal_strlit("results");
                }
            },
            Action::SearchFailed { error } => {
                self.pending = false;
                let s = provider_status(error);
                proof {
                    assert(provider_status_of(*error, s));
                }
                self.error = Some(s);
                self.results = Pane::new(String::from_str("results"), Vec::new());
            },
            _ => {},
        }
    }

    /// Modeline chip while the popup is open.
    pub fn effective_mode(&self) -> (r: Mode)
        ensures
            r == (if self.filtering {
                Mode::Search
            } else if self.focus == Focus::Results {
                Mode::Browse
            } else if self.input@.submode == SubMode::Insert {
                Mode::Insert
            } else {
                Mode::Normal
            }),
    {
        if self.filtering {
            return Mode::Search;
        }
        match self.focus {
            Focus::Input => match self.input.submode() {
                SubMode::Insert => Mode::Insert,
                SubMode::Normal => Mode::Normal,
            },
            Focus::Results => Mode::Browse,
        }
    }

    /// Whether `handle_key` can take `key` now: the filter or the query
    /// being typed accepts it.
    pub fn takes_key(&self, key: Key) -> (b: bool)
        requires
            self.wf(),
        ensures
            b == ((self.filtering ==> accepts(self.filter@, key)) && (!self.filtering && key.code != KeyCode::Tab
                && self.focus == Focus::Input ==> accepts(self.input@, key))),
    {
        if self.filtering {
            self.filter.accepts_key(key)
        } else if key.code != KeyCode::Tab && self.focus == Focus::Input {
            self.input.accepts_key(key)
        } else {
            true
        }
    }

    /// One key. An open `/` session takes every key; otherwise Tab
    /// toggles focus, and the focused half handles the rest.
    pub fn handle_key(&mut self, key: Key) -> (r: Action)
        requires
            old(self).wf(),
            old(self).filtering ==> accepts(old(self).filter@, key),
            !old(self).filtering && key.code != KeyCode::Tab && old(self).focus == Focus::Input ==> accepts(
                old(self).input@,
                key,
            ),
        ensures
            final(self).wf(),
            final(self).forge == old(self).forge,
            final(self).pending == old(self).pending,
            final(self).error == old(self).error,
            final(self).submitted_once == old(self).submitted_once,
            old(self).filtering ==> filter_session(*old(self), *final(self), key, r),
            !old(self).filtering && key.code == KeyCode::Tab ==> {
                &&& r == Action::Noop
                &&& final(self).focus == (if old(self).focus == Focus::Input {
                    Focus::Results
                } else {
                    Focus::Input
                })
                &&& final(self).input@ == (if old(self).focus == Focus::Results {
                    vim_with_submode(old(self).input@, SubMode::Insert)
                } else {
                    old(self).input@
                })
                &&& final(self).results == old(self).results
                &&& final(self).filtering == old(self).filtering
            },
            !old(self).filtering && key.code != KeyCode::Tab && old(self).focus == Focus::Input ==> input_key(
                *old(self),
                *final(self),
                key,
                r,
            ),
            !old(self).filtering && key.code != KeyCode::Tab && old(self).focus == Focus::Results ==> results_key(
                *old(self),
                *final(self),
                key,
                r,
            ),
    {
        if self.filtering {
            let out = self.filter.handle_key(key);
            match out {
                Outcome::Changed => {
                    self.results.set_filter(self.filter.value());
                },
                Outcome::Submitted => {
                    self.filtering = false;
                },
                Outcome::Cancelled => {
                    self.results.set_filter(self.pre_filter.clone());
                    self.filtering = false;
                },
                Outcome::Noop => {},
            }
            return Action::Noop;
        }
        if key.code == KeyCode::Tab {
            self.toggle_focus();
            return Action::Noop;
        }
        match self.focus {
            Focus::Input => match self.input.handle_key(key) {
                Outcome::Submitted => {
                    self.filter.clear();
                    Action::SearchSubmitted(self.input.value())
                },
                Outcome::Cancelled => Action::ClosePopup,
                _ => Action::Noop,
            },
            Focus::Results => match key.code {
                KeyCode::Char('j') | KeyCode::Down => {
                    self.results.update(&Action::MoveDown);
                    Action::Noop
                },
                KeyCode::Char('k') | KeyCode::Up => {
                    self.results.update(&Action::MoveUp);
                    Action::Noop
                },
                KeyCode::Char('/') => {
                    self.pre_filter = self.results.filter.clone();
                    self.filter.set(self.pre_filter.as_str());
                    self.filtering = true;
                    Action::Noop
                },
                KeyCode::Char('y') => Action::SearchYank,
                KeyCode::Enter => {
                    if let Some(entry) = self.results.selected_entry() {
                        return match entry.kind {
                            EntryKind::Org => Action::OrgSelected(entry.name.clone()),
                            _ => {
                                let (owner, name) = split_repo(entry.name.as_str());
                                Action::RepoSelected { owner, name }
                            },
                        };
                    }
                    Action::Noop
                },
                KeyCode::Esc => {
                    if !self.results.filter.as_str().is_empty() {
                        self.results.set_filter(String::new());
                        Action::Noop
                    } else {
                        Action::ClosePopup
                    }
                },
                _ => Action::Noop,
            },
        }
    }

    /// Tab: results focus goes back to the input, which lands in
    /// INSERT.
    pub fn toggle_focus(&mut self)
        ensures
            final(self).focus == (if old(self).focus == Focus::Input {
                Focus::Results
            } else {
                Focus::Input
            }),
            final(self).input@ == (if old(self).focus == Focus::Results {
                vim_with_submode(old(self).input@, SubMode::Insert)
            } else {
                old(self).input@
            }),
            old(self).input.wf() ==> final(self).input.wf(),
            final(self).filter == old(self).filter,
            final(self).results == old(self).results,
            final(self).filtering == old(self).filtering,
            final(self).pre_filter == old(self).pre_filter,
            final(self).forge == old(self).forge,
            final(self).pending == old(self).pending,
            final(self).error == old(self).error,
            final(self).submitted_once == old(self).submitted_once,
    {
        self.focus = match self.focus {
            Focus::Input => Focus::Results,
            Focus::Results => {
                self.input.set_submode(SubMode::Insert);
                Focus::Input
            },
        };
    }

    /// The selected entry (for the yank action).
    pub fn selected_entry(&self) -> (r: Option<&Entry>)
        ensures
            match r {
                Some(e) => self.results.selected < visible_entries(self.results.entries@, self.results.filter@).len()
                    && *e == visible_entries(self.results.entries@, self.results.filter@)[self.results.selected as int],
                None => self.results.selected >= visible_entries(self.results.entries@, self.results.filter@).len(),
            },
    {
        self.results.selected_entry()
    }

    /// Cursor shape for the popup's text input: bar in INSERT, block in
    /// NORMAL, hidden when results are focused.
    pub fn cursor_style(&self) -> (r: Option<CursorStyle>)
        ensures
            r == (if self.focus != Focus::Input {
                None
            } else if self.input@.submode == SubMode::Insert {
                Some(CursorStyle::SteadyBar)
            } else {
                Some(CursorStyle::SteadyBlock)
            }),
    {
        if self.focus != Focus::Input {
            return None;
        }
        Some(
            match self.input.submode() {
                SubMode::Insert => CursorStyle::SteadyBar,
                SubMode::Normal => CursorStyle::SteadyBlock,
            },
        )
    }
}

/// A key inside the `/` session: the filter input steps; each edit
/// refilters the results live; Enter keeps the filter and ends the
/// session; Esc restores the filter the session began with.
pub open spec fn filter_session(a: SearchPopup, b: SearchPopup, key: Key, r: Action) -> bool {
    let (fs, out) = step(a.filter@, key);
    &&& b.filter@ == fs
    &&& r == Action::Noop
    &&& b.input == a.input
    &&& b.focus == a.focus
    &&& b.pre_filter == a.pre_filter
    &&& b.results.entries == a.results.entries
    &&& out == Outcome::Changed ==> b.filtering && b.results.filter@ == fs.chars && b.results.selected == clamped(
        a.results.selected as int,
        visible_entries(a.results.entries@, fs.chars).len() as int,
    )
    &&& out == Outcome::Cancelled ==> !b.filtering && b.results.filter@ == a.pre_filter@ && b.results.selected
        == clamped(a.results.selected as int, visible_entries(a.results.entries@, a.pre_filter@).len() as int)
    &&& out == Outcome::Submitted ==> !b.filtering && b.results == a.results
    &&& out == Outcome::Noop ==> b.filtering && b.results == a.results
}

/// A key for the focused input: it steps; a submission asks for the
/// search (and resets the results filter input), a cancel closes.
pub open spec fn input_key(a: SearchPopup, b: SearchPopup, key: Key, r: Action) -> bool {
    let (is, out) = step(a.input@, key);
    &&& b.input@ == is
    &&& b.focus == a.focus
    &&& b.results == a.results
    &&& b.filtering == a.filtering
    &&& b.pre_filter == a.pre_filter
    &&& if out == Outcome::Submitted {
        &&& r matches Action::SearchSubmitted(q) && q@ == is.chars
        &&& b.filter@ == (crate::components::vim_input::VimState {
            chars: Seq::<char>::empty(),
            cursor: 0,
            replace_on_edit: false,
            ..a.filter@
        })
    } else {
        &&& r == (if out == Outcome::Cancelled {
            Action::ClosePopup
        } else {
            Action::Noop
        })
        &&& b.filter == a.filter
    }
}

/// A key for the focused results: j/k walk, `/` opens a filter
/// session seeded with the current filter, `y` yanks, Enter picks the
/// selected row (an org, or a repo split at its first `/`), Esc clears
/// a filter first and closes after.
pub open spec fn results_key(a: SearchPopup, b: SearchPopup, key: Key, r: Action) -> bool {
    let vis = visible_entries(a.results.entries@, a.results.filter@);
    let len = vis.len() as int;
    let sel = a.results.selected as int;
    &&& b.input == a.input
    &&& b.focus == a.focus
    &&& b.results.entries == a.results.entries
    &&& if key.code == KeyCode::Char('j') || key.code == KeyCode::Down {
        &&& r == Action::Noop
        &&& b.results.filter == a.results.filter
        &&& b.results.selected == (if len == 0 {
            sel
        } else if sel + 1 > len - 1 {
            len - 1
        } else {
            sel + 1
        })
        &&& b.filter == a.filter && b.filtering == a.filtering && b.pre_filter == a.pre_filter
    } else if key.code == KeyCode::Char('k') || key.code == KeyCode::Up {
        &&& r == Action::Noop
        &&& b.results.filter == a.results.filter
        &&& b.results.selected == (if len == 0 {
            sel
        } else if sel - 1 < 0 {
            0
        } else if sel - 1 > len - 1 {
            len - 1
        } else {
            sel - 1
        })
        &&& b.filter == a.filter && b.filtering == a.filtering && b.pre_filter == a.pre_filter
    } else if key.code == KeyCode::Char('/') {
        &&& r == Action::Noop
        &&& b.results == a.results
        &&& b.pre_filter@ == a.results.filter@
        &&& b.filter@ == (crate::components::vim_input::VimState {
            chars: a.results.filter@,
            cursor: a.results.filter@.len(),
            replace_on_edit: false,
            ..a.filter@
        })
        &&& b.filtering
    } else if key.code == KeyCode::Esc && a.results.filter@.len() > 0 {
        &&& r == Action::Noop
        &&& b.results.filter@.len() == 0
        &&& b.results.selected == clamped(sel, visible_entries(a.results.entries@, seq![]).len() as int)
        &&& b.filter == a.filter && b.filtering == a.filtering && b.pre_filter == a.pre_filter
    } else {
        &&& b.results == a.results
        &&& b.filter == a.filter && b.filtering == a.filtering && b.pre_filter == a.pre_filter
        &&& r == (if key.code == KeyCode::Char('y') {
            Action::SearchYank
        } else if key.code == KeyCode::Esc {
            Action::ClosePopup
        } else if key.code == KeyCode::Enter && sel < len {
            if vis[sel].kind == EntryKind::Org {
                Action::OrgSelected(vis[sel].name)
            } else {
                r
            }
        } else {
            Action::Noop
        })
        &&& (key.code == KeyCode::Enter && sel < len && vis[sel].kind != EntryKind::Org) ==> (r matches Action::RepoSelected { owner, name } && (owner@, name@) == spec_split_repo(vis[sel].name@))
    }
}

/// An input state in another submode.
pub open spec fn vim_with_submode(s: crate::components::vim_input::VimState, m: SubMode) -> crate::components::vim_input::VimState {
    crate::components::vim_input::VimState { submode: m, ..s }
}

/// `s` is what `provider_status` renders for `error`.
pub open spec fn provider_status_of(error: crate::provider::ProviderError, s: String) -> bool {
    &&& error.kind == crate::provider::ErrorKind::Auth ==> s@ == "auth failed: "@ + error.message@
        + " — refresh provider credentials"@
    &&& error.kind == crate::provider::ErrorKind::RateLimited && error.retry_after is Some ==> s@
        == crate::app::throttled_retry_text(error.retry_after->Some_0)
    &&& error.kind == crate::provider::ErrorKind::RateLimited && error.retry_after is None ==> s@
        == "provider throttled: "@ + error.message@
    &&& error.kind != crate::provider::ErrorKind::Auth && error.kind != crate::provider::ErrorKind::RateLimited
        ==> s@ == error.message@
}

} // verus!
