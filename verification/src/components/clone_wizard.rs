//! Clone wizard (`:clone`): three screens — repo checkboxes, a local
//! destination mini-browser, a summary. Esc anywhere closes the whole
//! wizard (no partial state). Reading directories and resolving paths
//! is the application's part: the wizard asks for a move (`take_move`)
//! and is handed the new directory and its listing (`enter_dest`).
use super::browser::tree::{by_name, name_less, name_lt, name_pos_of};
use super::list_view::{matching_indices, text_survives};
use super::vim_input::{accepts, step, Outcome, SubMode, VimInput, VimState};
use crate::action::Action;
use crate::keys::{Key, KeyCode};
use crate::text::{chars_of, clone_strings, lower_chars, lowercase, starts_with, str_is, views};
use vstd::prelude::*;

verus! {

#[derive(Debug, Clone, Copy, PartialEq, Eq, Structural)]
pub enum Screen {
    Repos,
    Destination,
    Summary,
}

/// The list or the button row owns the keyboard.
#[derive(Debug, Clone, Copy, PartialEq, Eq, Structural)]
pub enum Focus {
    List,
    Buttons,
}

/// A destination move the application resolves against the filesystem.
#[derive(Debug, Clone, PartialEq, Eq)]
pub enum DestMove {
    /// To the parent directory.
    Up,
    /// Into the named subdirectory.
    Into(String),
}

pub enum MoveView {
    Up,
    Into(Seq<char>),
}

/// The abstract wizard.
pub struct WizardView {
    pub screen: Screen,
    pub repos: Seq<(Seq<char>, bool)>,
    pub cursor: nat,
    pub focus: Focus,
    pub button: nat,
    pub dest: Seq<char>,
    pub dest_entries: Seq<Seq<char>>,
    pub dest_cursor: nat,
    pub scroll: nat,
    pub filter: VimState,
    pub filtering: bool,
    pub pre_filter: Seq<char>,
    pub filter_value: Seq<char>,
    pub pending: Option<MoveView>,
}

pub struct CloneWizard {
    screen: Screen,
    /// Resolved repos with their checkbox.
    repos: Vec<(String, bool)>,
    cursor: usize,
    focus: Focus,
    /// Button row cursor: 0 = back, 1 = next/clone.
    button: usize,
    /// The destination directory (screen 2).
    dest: String,
    dest_entries: Vec<String>,
    dest_cursor: usize,
    /// Line scroll offset of the current screen's content area.
    scroll: usize,
    /// Transient `/` filter.
    filter: VimInput,
    filtering: bool,
    pre_filter: String,
    filter_value: String,
    pending: Option<DestMove>,
}

pub open spec fn repos_view(v: Seq<(String, bool)>) -> Seq<(Seq<char>, bool)> {
    v.map_values(|r: (String, bool)| (r.0@, r.1))
}

pub open spec fn move_view(m: Option<DestMove>) -> Option<MoveView> {
    match m {
        None => None,
        Some(DestMove::Up) => Some(MoveView::Up),
        Some(DestMove::Into(s)) => Some(MoveView::Into(s@)),
    }
}

impl View for CloneWizard {
    type V = WizardView;

    closed spec fn view(&self) -> WizardView {
        WizardView {
            screen: self.screen,
            repos: repos_view(self.repos@),
            cursor: self.cursor as nat,
            focus: self.focus,
            button: self.button as nat,
            dest: self.dest@,
            dest_entries: views(self.dest_entries@),
            dest_cursor: self.dest_cursor as nat,
            scroll: self.scroll as nat,
            filter: self.filter@,
            filtering: self.filtering,
            pre_filter: self.pre_filter@,
            filter_value: self.filter_value@,
            pending: move_view(self.pending),
        }
    }
}

/// A directory listing as the wizard shows it: `..` first, then the
/// non-hidden names in name order.
pub open spec fn listing(dirs: Seq<Seq<char>>) -> Seq<Seq<char>> {
    seq![".."@] + by_name(
        dirs.filter(|d: Seq<char>| !(d.len() > 0 && d[0] == '.')).map_values(|d: Seq<char>| (d, ())),
    ).map_values(|p: (Seq<char>, ())| p.0)
}

/// Repo indices surviving the committed filter.
pub open spec fn spec_visible_repos(v: WizardView) -> Seq<usize> {
    matching_indices(v.repos.map_values(|r: (Seq<char>, bool)| r.0), lowercase(v.filter_value))
}

/// Destination indices surviving the committed filter.
pub open spec fn spec_visible_dest(v: WizardView) -> Seq<usize> {
    matching_indices(v.dest_entries, lowercase(v.filter_value))
}

/// The checked repos, in order.
pub open spec fn spec_checked(v: WizardView) -> Seq<Seq<char>> {
    v.repos.filter(|r: (Seq<char>, bool)| r.1).map_values(|r: (Seq<char>, bool)| r.0)
}

/// A new committed filter value: every cursor and the scroll reset.
pub open spec fn with_filter(v: WizardView, value: Seq<char>) -> WizardView {
    WizardView { filter_value: value, cursor: 0, dest_cursor: 0, scroll: 0, ..v }
}

/// The screen after `next` (forward) or `back`: repos → destination →
/// summary and back; the ends stay. The list takes the keyboard, `next`
/// is the default button, the scroll resets.
pub open spec fn spec_go(v: WizardView, forward: bool) -> WizardView {
    let screen = match (v.screen, forward) {
        (Screen::Repos, true) => Screen::Destination,
        (Screen::Destination, true) => Screen::Summary,
        (Screen::Destination, false) => Screen::Repos,
        (Screen::Summary, false) => Screen::Destination,
        (s, _) => s,
    };
    WizardView { screen, focus: Focus::List, button: 1, scroll: 0, ..v }
}

/// `a` moved down one row in a list of `len` rows, clamped.
pub open spec fn down(a: nat, len: nat) -> nat {
    if len == 0 {
        a
    } else if a + 1 < len - 1 {
        a + 1
    } else {
        (len - 1) as nat
    }
}

/// `a` moved up one row, floored at zero.
pub open spec fn up(a: nat) -> nat {
    if a > 0 {
        (a - 1) as nat
    } else {
        0
    }
}

/// The key handler's effect when no filter session runs (the `/`
/// start, Esc, buttons and list keys); `r_ok` says what the returned
/// action must be.
pub open spec fn wizard_key(v: WizardView, k: Key, next: WizardView, r: Action) -> bool {
    let c = k.code;
    if c == KeyCode::Char('/') && v.focus == Focus::List && v.screen != Screen::Summary {
        next == WizardView { pre_filter: v.filter_value, filter: VimState {
            chars: v.filter_value,
            cursor: v.filter_value.len(),
            replace_on_edit: false,
            ..v.filter
        }, filtering: true, ..v } && r == Action::Noop
    } else if c == KeyCode::Esc && v.filter_value.len() > 0 {
        next == with_filter(v, seq![]) && r == Action::Noop
    } else if c == KeyCode::Esc {
        next == v && r == Action::ClosePopup
    } else if v.focus == Focus::Buttons {
        if c == KeyCode::Char('h') || c == KeyCode::Left {
            next == WizardView { button: 0, ..v } && r == Action::Noop
        } else if c == KeyCode::Char('l') || c == KeyCode::Right {
            next == WizardView { button: 1, ..v } && r == Action::Noop
        } else if c == KeyCode::Tab || c == KeyCode::BackTab {
            next == WizardView { focus: Focus::List, ..v } && r == Action::Noop
        } else if c == KeyCode::Enter && v.screen == Screen::Summary && v.button == 1 {
            next == v && (r matches Action::RunClone { repos, dest } && views(repos@) == spec_checked(v)
                && dest@ == v.dest)
        } else if c == KeyCode::Enter {
            next == spec_go(v, v.button == 1) && r == Action::Noop
        } else {
            next == v && r == Action::Noop
        }
    } else {
        &&& r == Action::Noop
        &&& if c == KeyCode::Char('j') || c == KeyCode::Down {
            next == match v.screen {
                Screen::Summary => WizardView { scroll: v.scroll + 1, ..v },
                Screen::Repos => WizardView { cursor: down(v.cursor, spec_visible_repos(v).len()), ..v },
                Screen::Destination => WizardView {
                    dest_cursor: down(v.dest_cursor, spec_visible_dest(v).len()),
                    ..v
                },
            }
        } else if c == KeyCode::Char('k') || c == KeyCode::Up {
            next == match v.screen {
                Screen::Summary => WizardView { scroll: up(v.scroll), ..v },
                Screen::Repos => WizardView { cursor: up(v.cursor), ..v },
                Screen::Destination => WizardView { dest_cursor: up(v.dest_cursor), ..v },
            }
        } else if c == KeyCode::Tab || c == KeyCode::BackTab {
            next == WizardView { focus: Focus::Buttons, ..v }
        } else if c == KeyCode::Char(' ') && v.screen == Screen::Repos {
            let vis = spec_visible_repos(v);
            if v.cursor < vis.len() {
                let i = vis[v.cursor as int] as int;
                next == WizardView { repos: v.repos.update(i, (v.repos[i].0, !v.repos[i].1)), ..v }
            } else {
                next == v
            }
        } else if (c == KeyCode::Char('l') || c == KeyCode::Enter || c == KeyCode::Right) && v.screen
            == Screen::Destination {
            let vis = spec_visible_dest(v);
            if v.dest_cursor < vis.len() {
                let e = v.dest_entries[vis[v.dest_cursor as int] as int];
                next == WizardView {
                    pending: Some(
                        if e == ".."@ {
                            MoveView::Up
                        } else {
                            MoveView::Into(e)
                        },
                    ),
                    ..v
                }
            } else {
                next == v
            }
        } else if (c == KeyCode::Char('h') || c == KeyCode::Left) && v.screen == Screen::Destination {
            next == WizardView { pending: Some(MoveView::Up), ..v }
        } else if c == KeyCode::Enter {
            next == spec_go(v, true)
        } else {
            next == v
        }
    }
}

fn dot_dot() -> (r: String)
    ensures
        r@ == ".."@,
{
    "..".to_owned()
}

/// Sort names into name order (ties keep their order).
fn sort_names(items: Vec<String>) -> (r: Vec<String>)
    ensures
        views(r@) == by_name(views(items@).map_values(|d: Seq<char>| (d, ()))).map_values(
            |p: (Seq<char>, ())| p.0,
        ),
{
    let ghost s = views(items@).map_values(|d: Seq<char>| (d, ()));
    let mut out: Vec<String> = Vec::new();
    let mut rest = items;
    let mut taken: usize = 0;
    let total = rest.len();
    while rest.len() > 0
        invariant
            taken + rest@.len() == total,
            total == s.len(),
            views(rest@).map_values(|d: Seq<char>| (d, ())) == s.skip(taken as int),
            views(out@).map_values(|d: Seq<char>| (d, ())) == by_name(s.take(taken as int)),
        decreases rest.len(),
    {
        let ghost old_rest = rest@;
        let e = rest.remove(0);
        assert((e@, ()) == s[taken as int]) by {
            assert(views(old_rest).map_values(|d: Seq<char>| (d, ()))[0] == s.skip(taken as int)[0]);
        }
        assert(s.take(taken + 1).drop_last() =~= s.take(taken as int));
        assert(s.take(taken + 1).last() == s[taken as int]);
        let ghost t = by_name(s.take(taken as int));
        let name = chars_of(e.as_str());
        let mut p: usize = 0;
        assert(t.skip(0) =~= t);
        while p < out.len() && !name_less(name.as_slice(), chars_of(out[p].as_str()).as_slice())
            invariant
                p <= out@.len(),
                t == views(out@).map_values(|d: Seq<char>| (d, ())),
                name@ == e@,
                name_pos_of(t, e@) == p + name_pos_of(t.skip(p as int), e@),
            decreases out.len() - p,
        {
            assert(t.skip(p as int).skip(1) =~= t.skip(p + 1));
            assert(t.skip(p as int)[0] == t[p as int]);
            p += 1;
        }
        proof {
            if p < out@.len() {
                assert(t.skip(p as int)[0] == t[p as int]);
            }
        }
        out.insert(p, e);
        assert(views(out@).map_values(|d: Seq<char>| (d, ())) =~= t.take(p as int) + seq![(e@, ())] + t.skip(
            p as int,
        ));
        taken += 1;
        assert(rest@ =~= old_rest.skip(1));
        assert(views(old_rest).map_values(|d: Seq<char>| (d, ())).skip(1) =~= s.skip(taken as int));
        assert(views(rest@).map_values(|d: Seq<char>| (d, ())) =~= views(old_rest).map_values(
            |d: Seq<char>| (d, ()),
        ).skip(1));
    }
    assert(s.take(total as int) =~= s);
    proof {
        let b = by_name(s);
        assert(views(out@) =~= views(out@).map_values(|d: Seq<char>| (d, ())).map_values(
            |p: (Seq<char>, ())| p.0,
        ));
    }
    out
}

/// The shown listing of a directory's subdirectory names.
pub fn listing_of(dirs: Vec<String>) -> (r: Vec<String>)
    ensures
        views(r@) == listing(views(dirs@)),
{
    let ghost dv = views(dirs@);
    let ghost keep = |d: Seq<char>| !(d.len() > 0 && d[0] == '.');
    let mut shown: Vec<String> = Vec::new();
    let mut i: usize = 0;
    while i < dirs.len()
        invariant
            i <= dirs@.len(),
            dv == views(dirs@),
            keep == (|d: Seq<char>| !(d.len() > 0 && d[0] == '.')),
            views(shown@) == dv.take(i as int).filter(keep),
        decreases dirs.len() - i,
    {
        let name = &dirs[i];
        let cs = chars_of(name.as_str());
        proof {
            reveal(Seq::filter);
            assert(dv.take(i + 1).drop_last() =~= dv.take(i as int));
            assert(dv.take(i + 1).last() == name@);
        }
        if !(cs.len() > 0 && cs[0] == '.') {
            let ghost before = shown@;
            shown.push(name.clone());
            assert(views(shown@) =~= views(before).push(name@));
        }
        i += 1;
    }
    assert(dv.take(dv.len() as int) =~= dv);
    let sorted = sort_names(shown);
    let mut out: Vec<String> = Vec::new();
    out.push(dot_dot());
    let ghost head = views(out@);
    let ghost sv = views(sorted@);
    let mut j: usize = 0;
    while j < sorted.len()
        invariant
            j <= sorted@.len(),
            sv == views(sorted@),
            head == seq![".."@],
            views(out@) == head + sv.take(j as int),
        decreases sorted.len() - j,
    {
        let ghost before = out@;
        out.push(sorted[j].clone());
        assert(views(out@) =~= views(before).push(sv[j as int]));
        assert(sv.take(j + 1) =~= sv.take(j as int).push(sv[j as int]));
        j += 1;
        assert(views(out@) =~= head + sv.take(j as int));
    }
    assert(sv.take(sv.len() as int) =~= sv);
    out
}

impl CloneWizard {
    /// The wizard's invariant: the filter field is well formed and both
    /// cursors sit on a visible row (or at the top).
    pub closed spec fn wf(&self) -> bool {
        &&& self.filter.wf()
        &&& (self.cursor == 0 || self.cursor < spec_visible_repos(self@).len())
        &&& (self.dest_cursor == 0 || self.dest_cursor < spec_visible_dest(self@).len())
        &&& self.repos@.len() <= usize::MAX
    }

    /// A wizard over `repos` (all checked), on the repo screen; `start`
    /// is the initial destination and `dirs` its subdirectory names.
    pub fn new(repos: Vec<String>, start: String, dirs: Vec<String>) -> (r: Self)
        ensures
            r.wf(),
            r@.screen == Screen::Repos,
            r@.repos == views(repos@).map_values(|n: Seq<char>| (n, true)),
            r@.cursor == 0,
            r@.focus == Focus::List,
            r@.button == 1,
            r@.dest == start@,
            r@.dest_entries == listing(views(dirs@)),
            r@.dest_cursor == 0,
            r@.scroll == 0,
            !r@.filtering,
            r@.filter_value.len() == 0,
            r@.pre_filter.len() == 0,
            r@.filter == (VimState {
                chars: seq![],
                cursor: 0,
                submode: SubMode::Insert,
                modal: false,
                replace_on_edit: false,
                pending_delete: false,
            }),
            r@.pending is None,
    {
        let mut checked: Vec<(String, bool)> = Vec::new();
        let ghost rv = views(repos@);
        let mut i: usize = 0;
        while i < repos.len()
            invariant
                i <= repos@.len(),
                rv == views(repos@),
                repos_view(checked@) == rv.take(i as int).map_values(|n: Seq<char>| (n, true)),
            decreases repos.len() - i,
        {
            let ghost before = checked@;
            checked.push((repos[i].clone(), true));
            assert(repos_view(checked@) =~= repos_view(before).push((rv[i as int], true)));
            assert(rv.take(i + 1) =~= rv.take(i as int).push(rv[i as int]));
            i += 1;
            assert(repos_view(checked@) =~= rv.take(i as int).map_values(|n: Seq<char>| (n, true)));
        }
        assert(rv.take(rv.len() as int) =~= rv);
        let filter = VimInput::transient();
        assert(filter@.chars =~= Seq::<char>::empty());
        CloneWizard {
            screen: Screen::Repos,
            repos: checked,
            cursor: 0,
            focus: Focus::List,
            button: 1,
            dest: start,
            dest_entries: listing_of(dirs),
            dest_cursor: 0,
            scroll: 0,
            filter,
            filtering: false,
            pre_filter: String::new(),
            filter_value: String::new(),
            pending: None,
        }
    }

    /// The current screen.
    pub fn screen(&self) -> (r: Screen)
        ensures
            r == self@.screen,
    {
        self.screen
    }

    /// The destination directory.
    pub fn dest(&self) -> (r: &str)
        ensures
            r@ == self@.dest,
    {
        self.dest.as_str()
    }

    /// The repos checked for cloning, in order.
    pub fn checked(&self) -> (r: Vec<String>)
        ensures
            views(r@) == spec_checked(self@),
    {
        let ghost rv = repos_view(self.repos@);
        let ghost on = |r: (Seq<char>, bool)| r.1;
        let mut out: Vec<String> = Vec::new();
        let mut i: usize = 0;
        while i < self.repos.len()
            invariant
                i <= self.repos@.len(),
                rv == repos_view(self.repos@),
                on == (|r: (Seq<char>, bool)| r.1),
                views(out@) == rv.take(i as int).filter(on).map_values(|r: (Seq<char>, bool)| r.0),
            decreases self.repos.len() - i,
        {
            proof {
                reveal(Seq::filter);
                assert(rv.take(i + 1).drop_last() =~= rv.take(i as int));
            }
            if self.repos[i].1 {
                let ghost before = out@;
                out.push(self.repos[i].0.clone());
                assert(views(out@) =~= views(before).push(self.repos@[i as int].0@));
                assert(rv.take(i + 1).filter(on) =~= rv.take(i as int).filter(on).push(rv[i as int]));
            }
            i += 1;
            assert(views(out@) =~= rv.take(i as int).filter(on).map_values(|r: (Seq<char>, bool)| r.0));
        }
        assert(rv.take(rv.len() as int) =~= rv);
        out
    }

    /// Repo indices surviving the committed filter.
    pub fn visible_repos(&self) -> (r: Vec<usize>)
        ensures
            r@ == spec_visible_repos(self@),
    {
        let needle = lower_chars(self.filter_value.as_str());
        let ghost names = repos_view(self.repos@).map_values(|r: (Seq<char>, bool)| r.0);
        let mut out: Vec<usize> = Vec::new();
        let mut i: usize = 0;
        while i < self.repos.len()
            invariant
                i <= self.repos@.len(),
                needle@ == lowercase(self.filter_value@),
                names == repos_view(self.repos@).map_values(|r: (Seq<char>, bool)| r.0),
                out@ == matching_indices(names.take(i as int), needle@),
            decreases self.repos.len() - i,
        {
            assert(names.take(i + 1).drop_last() =~= names.take(i as int));
            assert(names.take(i + 1).last() == self.repos@[i as int].0@);
            if text_survives(self.repos[i].0.as_str(), needle.as_slice()) {
                out.push(i);
            }
            i += 1;
        }
        assert(names.take(names.len() as int) =~= names);
        out
    }

    /// Destination indices surviving the committed filter.
    pub fn visible_dest(&self) -> (r: Vec<usize>)
        ensures
            r@ == spec_visible_dest(self@),
    {
        let needle = lower_chars(self.filter_value.as_str());
        let ghost names = views(self.dest_entries@);
        let mut out: Vec<usize> = Vec::new();
        let mut i: usize = 0;
        while i < self.dest_entries.len()
            invariant
                i <= self.dest_entries@.len(),
                needle@ == lowercase(self.filter_value@),
                names == views(self.dest_entries@),
                out@ == matching_indices(names.take(i as int), needle@),
            decreases self.dest_entries.len() - i,
        {
            assert(names.take(i + 1).drop_last() =~= names.take(i as int));
            if text_survives(self.dest_entries[i].as_str(), needle.as_slice()) {
                out.push(i);
            }
            i += 1;
        }
        assert(names.take(names.len() as int) =~= names);
        out
    }

    /// Button labels: arrows mark the direction of travel, the
    /// committing action names its key.
    pub fn buttons(&self) -> (r: (&'static str, &'static str))
        ensures
            r.0@ == "← Back"@,
            self@.screen == Screen::Summary ==> r.1@ == "⏎ Clone"@,
            self@.screen != Screen::Summary ==> r.1@ == "Next →"@,
    {
        match self.screen {
            Screen::Repos | Screen::Destination => ("← Back", "Next →"),
            Screen::Summary => ("← Back", "⏎ Clone"),
        }
    }

    /// The destination move the last key asked for, if any (taken).
    pub fn take_move(&mut self) -> (r: Option<DestMove>)
        ensures
            move_view(r) == old(self)@.pending,
            final(self)@ == (WizardView { pending: None, ..old(self)@ }),
            final(self).wf() == old(self).wf(),
    {
        let r = self.pending.take();
        r
    }

    /// The application resolved a move: `dest` is the new directory and
    /// `dirs` its subdirectory names; the cursor goes back to the top.
    pub fn enter_dest(&mut self, dest: String, dirs: Vec<String>)
        requires
            old(self).wf(),
        ensures
            final(self).wf(),
            final(self)@ == (WizardView {
                dest: dest@,
                dest_entries: listing(views(dirs@)),
                dest_cursor: 0,
                ..old(self)@
            }),
    {
        self.dest = dest;
        self.dest_entries = listing_of(dirs);
        self.dest_cursor = 0;
    }

    /// A new committed filter.
    pub fn set_filter(&mut self, value: String)
        requires
            old(self).wf(),
        ensures
            final(self).wf(),
            final(self)@ == with_filter(old(self)@, value@),
    {
        self.filter_value = value;
        self.cursor = 0;
        self.dest_cursor = 0;
        self.scroll = 0;
    }

    /// Walk the screens (see `spec_go`).
    pub fn go(&mut self, forward: bool)
        requires
            old(self).wf(),
        ensures
            final(self).wf(),
            final(self)@ == spec_go(old(self)@, forward),
    {
        self.screen = match (self.screen, forward) {
            (Screen::Repos, true) => Screen::Destination,
            (Screen::Destination, true) => Screen::Summary,
            (Screen::Destination, false) => Screen::Repos,
            (Screen::Summary, false) => Screen::Destination,
            (s, _) => s,
        };
        self.focus = Focus::List;
        self.button = 1;
        self.scroll = 0;
    }

    /// Whether `handle_key` can take `key` now: a filter being typed
    /// accepts it, and a summary scroll has room.
    pub fn takes_key(&self, key: Key) -> (b: bool)
        requires
            self.wf(),
        ensures
            b == ((self@.filtering ==> accepts(self@.filter, key)) && (!self@.filtering && self@.screen
                == Screen::Summary && self@.focus == Focus::List && (key.code == KeyCode::Char('j') || key.code
                == KeyCode::Down) ==> self@.scroll < usize::MAX)),
    {
        if self.filtering {
            self.filter.accepts_key(key)
        } else if self.screen == Screen::Summary && self.focus == Focus::List && (key.code == KeyCode::Char('j')
            || key.code == KeyCode::Down) {
            self.scroll < usize::MAX
        } else {
            true
        }
    }

    /// Keys: a running `/` session takes every key (typing filters
    /// live, Enter keeps the filter, Esc restores the previous one);
    /// otherwise see `wizard_key`.
    pub fn handle_key(&mut self, key: Key) -> (r: Action)
        requires
            old(self).wf(),
            old(self)@.filtering ==> accepts(old(self)@.filter, key),
            !old(self)@.filtering && old(self)@.screen == Screen::Summary && old(self)@.focus == Focus::List
                && (key.code == KeyCode::Char('j') || key.code == KeyCode::Down) ==> old(self)@.scroll
                < usize::MAX,
        ensures
            final(self).wf(),
            old(self)@.filtering ==> ({
                let (f, out) = step(old(self)@.filter, key);
                let base = WizardView { filter: f, ..old(self)@ };
                &&& r == Action::Noop
                &&& out == Outcome::Changed ==> final(self)@ == with_filter(base, f.chars)
                &&& out == Outcome::Submitted ==> final(self)@ == WizardView { filtering: false, ..base }
                &&& out == Outcome::Cancelled ==> final(self)@ == WizardView {
                    filtering: false,
                    ..with_filter(base, old(self)@.pre_filter)
                }
                &&& out == Outcome::Noop ==> final(self)@ == base
            }),
            !old(self)@.filtering ==> wizard_key(old(self)@, key, final(self)@, r),
    {
        if self.filtering {
            let out = self.filter.handle_key(key);
            match out {
                Outcome::Changed => {
                    let v = self.filter.value();
                    self.set_filter(v);
                },
                Outcome::Submitted => {
                    self.filtering = false;
                },
                Outcome::Cancelled => {
                    let p = self.pre_filter.clone();
                    self.set_filter(p);
                    self.filtering = false;
                },
                Outcome::Noop => {},
            }
            return Action::Noop;
        }
        if key.code == KeyCode::Char('/') && self.focus == Focus::List && self.screen != Screen::Summary {
            self.pre_filter = self.filter_value.clone();
            self.filter.set(self.pre_filter.as_str());
            self.filtering = true;
            return Action::Noop;
        }
        if key.code == KeyCode::Esc && !self.filter_value.as_str().is_empty() {
            self.set_filter(String::new());
            return Action::Noop;
        }
        if key.code == KeyCode::Esc {
            return Action::ClosePopup;
        }
        match self.focus {
            Focus::Buttons => match key.code {
                KeyCode::Char('h') | KeyCode::Left => {
                    self.button = 0;
                    Action::Noop
                },
                KeyCode::Char('l') | KeyCode::Right => {
                    self.button = 1;
                    Action::Noop
                },
                KeyCode::Tab | KeyCode::BackTab => {
                    self.focus = Focus::List;
                    Action::Noop
                },
                KeyCode::Enter => {
                    if self.screen == Screen::Summary && self.button == 1 {
                        let repos = self.checked();
                        Action::RunClone { repos, dest: self.dest.clone() }
                    } else {
                        self.go(self.button == 1);
                        Action::Noop
                    }
                },
                _ => Action::Noop,
            },
            Focus::List => self.list_key(key),
        }
    }

    fn list_key(&mut self, key: Key) -> (r: Action)
        requires
            old(self).wf(),
            !old(self)@.filtering,
            old(self)@.focus == Focus::List,
            key.code != KeyCode::Esc,
            !(key.code == KeyCode::Char('/') && old(self)@.screen != Screen::Summary),
            old(self)@.screen == Screen::Summary && (key.code == KeyCode::Char('j') || key.code
                == KeyCode::Down) ==> old(self)@.scroll < usize::MAX,
        ensures
            final(self).wf(),
            wizard_key(old(self)@, key, final(self)@, r),
    {
        let c = key.code;
        if c == KeyCode::Char(' ') && self.screen == Screen::Repos {
            let vis = self.visible_repos();
            if self.cursor < vis.len() {
                let orig = vis[self.cursor];
                proof {
                    crate::components::refs_popup::lemma_matching_indices_bounded(
                        repos_view(self.repos@).map_values(|r: (Seq<char>, bool)| r.0),
                        lowercase(self.filter_value@),
                    );
                }
                let ghost before = self.repos@;
                let (name, on) = self.repos.remove(orig);
                self.repos.insert(orig, (name, !on));
                assert(repos_view(self.repos@) =~= repos_view(before).update(
                    orig as int,
                    (repos_view(before)[orig as int].0, !repos_view(before)[orig as int].1),
                ));
                assert(repos_view(self.repos@).map_values(|r: (Seq<char>, bool)| r.0)
                    =~= repos_view(before).map_values(|r: (Seq<char>, bool)| r.0));
            }
            return Action::Noop;
        }
        if (c == KeyCode::Char('l') || c == KeyCode::Enter || c == KeyCode::Right) && self.screen
            == Screen::Destination {
                let vis = self.visible_dest();
                if self.dest_cursor < vis.len() {
                    let orig = vis[self.dest_cursor];
                    proof {
                        assert(views(self.dest_entries@).len() == self.dest_entries.len());
                        crate::components::refs_popup::lemma_matching_indices_bounded(
                            views(self.dest_entries@),
                            lowercase(self.filter_value@),
                        );
                    }
                    let entry = &self.dest_entries[orig];
                    self.pending = Some(
                        if str_is(entry.as_str(), "..") {
                            DestMove::Up
                        } else {
                            DestMove::Into(entry.clone())
                        },
                    );
                }
                return Action::Noop;
        }
        if (c == KeyCode::Char('h') || c == KeyCode::Left) && self.screen == Screen::Destination {
            self.pending = Some(DestMove::Up);
            return Action::Noop;
        }
        match key.code {
            KeyCode::Char('j') | KeyCode::Down => {
                match self.screen {
                    Screen::Summary => {
                        self.scroll = self.scroll + 1;
                    },
                    Screen::Repos => {
                        let len = self.visible_repos().len();
                        if len > 0 {
                            self.cursor = if self.cursor + 1 < len - 1 { self.cursor + 1 } else { len - 1 };
                        }
                    },
                    Screen::Destination => {
                        let len = self.visible_dest().len();
                        if len > 0 {
                            self.dest_cursor = if self.dest_cursor + 1 < len - 1 {
                                self.dest_cursor + 1
                            } else {
                                len - 1
                            };
                        }
                    },
                }
                Action::Noop
            },
            KeyCode::Char('k') | KeyCode::Up => {
                match self.screen {
                    Screen::Summary => {
                        self.scroll = if self.scroll > 0 { self.scroll - 1 } else { 0 };
                    },
                    Screen::Repos => {
                        self.cursor = if self.cursor > 0 { self.cursor - 1 } else { 0 };
                    },
                    Screen::Destination => {
                        self.dest_cursor = if self.dest_cursor > 0 { self.dest_cursor - 1 } else { 0 };
                    },
                }
                Action::Noop
            },
            KeyCode::Tab | KeyCode::BackTab => {
                self.focus = Focus::Buttons;
                Action::Noop
            },
            KeyCode::Enter => {
                self.go(true);
                Action::Noop
            },
            _ => Action::Noop,
        }
    }
}

} // verus!
