//! One miller column: a titled, filterable entry list with a selection.
//! Directories render with a trailing `/`; names are cut to the column
//! by display width, never by bytes.
use crate::action::Action;
use crate::components::list_view::{survives, text_survives};
use crate::sanitize::{sanitize_inline, spec_sanitize_inline};
use crate::text::{char_cells, char_width, chars_of, lower_chars, lowercase, push_char, str_width, text_cells};
use vstd::prelude::*;

verus! {

#[derive(Debug, Clone, Copy, PartialEq, Eq, Structural)]
pub enum EntryKind {
    Dir,
    File,
    /// Pseudo-entries: orgs, repos — rendered like dirs.
    Repo,
    Org,
}

#[derive(Debug, Clone)]
pub struct Entry {
    pub name: String,
    pub kind: EntryKind,
}

impl Entry {
    /// An entry whose name is made safe for one display line.
    pub fn new(name: &str, kind: EntryKind) -> (r: Self)
        ensures
            r.name@ == spec_sanitize_inline(name@),
            r.kind == kind,
    {
        Entry { name: sanitize_inline(name), kind }
    }
}

/// The entries a filter leaves visible (case-insensitive substring;
/// an empty filter shows everything).
pub open spec fn visible_entries(entries: Seq<Entry>, filter: Seq<char>) -> Seq<Entry> {
    entries.filter(|e: Entry| survives(e.name@, lowercase(filter)))
}

/// The row a move by `delta` lands on: clamped into the `len`
/// visible rows; an empty list stays put.
pub open spec fn moved_row(selected: int, len: int, delta: int) -> int {
    if len == 0 {
        selected
    } else if selected + delta < 0 {
        0
    } else if selected + delta > len - 1 {
        len - 1
    } else {
        selected + delta
    }
}

/// The selection after clamping into `len` visible rows.
pub open spec fn clamped(selected: int, len: int) -> int {
    if len == 0 {
        0
    } else if selected >= len {
        len - 1
    } else {
        selected
    }
}

#[derive(Debug, Clone)]
pub struct Pane {
    pub title: String,
    pub entries: Vec<Entry>,
    pub filter: String,
    /// Index into the visible entries.
    pub selected: usize,
    pub focused: bool,
    /// Marked names under this pane (VISUAL marks), when checkboxes
    /// show; None hides them.
    pub checkboxes: Option<Vec<String>>,
    /// Only marked rows show a box (VISUAL is off).
    pub marks_only: bool,
}

impl Pane {
    /// A pane over `entries`, unfiltered, selecting the first row.
    pub fn new(title: String, entries: Vec<Entry>) -> (r: Self)
        ensures
            r.title == title,
            r.entries == entries,
            r.filter@.len() == 0,
            r.selected == 0,
            !r.focused,
            r.checkboxes is None,
            !r.marks_only,
    {
        Pane { title, entries, filter: String::new(), selected: 0, focused: false, checkboxes: None, marks_only: false }
    }

    /// Entries surviving the current filter, in order.
    pub fn visible(&self) -> (r: Vec<&Entry>)
        ensures
            r@.map_values(|e: &Entry| *e) == visible_entries(self.entries@, self.filter@),
    {
        let needle = lower_chars(self.filter.as_str());
        let ghost pred = |e: Entry| survives(e.name@, lowercase(self.filter@));
        let mut r: Vec<&Entry> = Vec::new();
        let mut i: usize = 0;
        while i < self.entries.len()
            invariant
                i <= self.entries@.len(),
                needle@ == lowercase(self.filter@),
                pred == (|e: Entry| survives(e.name@, lowercase(self.filter@))),
                r@.map_values(|e: &Entry| *e) == self.entries@.take(i as int).filter(pred),
            decreases self.entries.len() - i,
        {
            let e = &self.entries[i];
            let ghost before = r@;
            proof {
                reveal(Seq::filter);
                assert(self.entries@.take(i + 1).drop_last() =~= self.entries@.take(i as int));
            }
            if text_survives(e.name.as_str(), needle.as_slice()) {
                r.push(e);
                assert(r@.map_values(|e: &Entry| *e) =~= before.map_values(|e: &Entry| *e).push(*e));
            }
            i += 1;
        }
        assert(self.entries@.take(self.entries@.len() as int) =~= self.entries@);
        r
    }

    /// The selected visible entry, if any.
    pub fn selected_entry(&self) -> (r: Option<&Entry>)
        ensures
            match r {
                Some(e) => self.selected < visible_entries(self.entries@, self.filter@).len()
                    && *e == visible_entries(self.entries@, self.filter@)[self.selected as int],
                None => self.selected >= visible_entries(self.entries@, self.filter@).len(),
            },
    {
        let v = self.visible();
        if self.selected < v.len() {
            let e = v[self.selected];
            assert(v@.map_values(|e: &Entry| *e)[self.selected as int] == *e);
            Some(e)
        } else {
            None
        }
    }

    fn clamp(&mut self)
        ensures
            final(self).selected == clamped(
                old(self).selected as int,
                visible_entries(old(self).entries@, old(self).filter@).len() as int,
            ),
            *final(self) == (Pane { selected: final(self).selected, ..*old(self) }),
    {
        let len = self.visible().len();
        if len == 0 {
            self.selected = 0;
        } else if self.selected >= len {
            self.selected = len - 1;
        }
    }

    /// Move the selection by `delta` rows, clamped to the visible rows;
    /// an empty list stays put.
    pub fn move_by(&mut self, delta: i32)
        ensures
            final(self).selected == moved_row(
                old(self).selected as int,
                visible_entries(old(self).entries@, old(self).filter@).len() as int,
                delta as int,
            ),
            *final(self) == (Pane { selected: final(self).selected, ..*old(self) }),
    {
        let len = self.visible().len();
        if len == 0 {
            return;
        }
        let want: i128 = self.selected as i128 + delta as i128;
        let next: usize = if want < 0 {
            0
        } else if want > (len - 1) as i128 {
            len - 1
        } else {
            want as usize
        };
        self.selected = next;
    }

    /// Select row `idx`, clamped to the visible rows.
    pub fn select(&mut self, idx: usize)
        ensures
            final(self).selected == clamped(idx as int, visible_entries(old(self).entries@, old(self).filter@).len() as int),
            *final(self) == (Pane { selected: final(self).selected, ..*old(self) }),
    {
        self.selected = idx;
        self.clamp();
    }

    /// Replace the filter; the selection is clamped to what it leaves.
    pub fn set_filter(&mut self, filter: String)
        ensures
            final(self).selected == clamped(old(self).selected as int, visible_entries(old(self).entries@, filter@).len() as int),
            *final(self) == (Pane { filter, selected: final(self).selected, ..*old(self) }),
    {
        self.filter = filter;
        self.clamp();
    }

    /// `MoveDown`/`MoveUp` move the selection one row; other actions
    /// leave the pane alone.
    pub fn update(&mut self, action: &Action)
        ensures
            *action == Action::MoveDown ==> final(self).selected == moved_row(
                old(self).selected as int,
                visible_entries(old(self).entries@, old(self).filter@).len() as int,
                1,
            ),
            *action == Action::MoveUp ==> final(self).selected == moved_row(
                old(self).selected as int,
                visible_entries(old(self).entries@, old(self).filter@).len() as int,
                -1,
            ),
            *final(self) == (Pane { selected: final(self).selected, ..*old(self) }),
            !(*action == Action::MoveDown || *action == Action::MoveUp) ==> *final(self) == *old(self),
    {
        match action {
            Action::MoveDown => self.move_by(1),
            Action::MoveUp => self.move_by(-1),
            _ => {},
        }
    }
}

/// A char's width as `fit` counts it (no width counts as zero).
pub open spec fn cells_or_zero(c: char) -> int {
    match char_cells(c) {
        Some(w) => w as int,
        None => 0,
    }
}

/// The longest prefix whose width, plus one cell for the ellipsis, fits
/// `width` (starting from `used` cells).
pub open spec fn fit_prefix(cs: Seq<char>, width: int, used: int) -> Seq<char>
    decreases cs.len(),
{
    if cs.len() == 0 {
        seq![]
    } else if used + cells_or_zero(cs[0]) + 1 > width {
        seq![]
    } else {
        seq![cs[0]] + fit_prefix(cs.skip(1), width, used + cells_or_zero(cs[0]))
    }
}

/// A label cut to `width` display cells: unchanged when it fits, else
/// the prefix that leaves a cell for `…`, then `…`.
pub open spec fn spec_fit(s: Seq<char>, width: int) -> Seq<char> {
    if text_cells(s) <= width {
        s
    } else {
        fit_prefix(s, width, 0).push('…')
    }
}

/// Truncate to display width (wide chars take two cells).
pub fn fit(s: &str, width: usize) -> (r: String)
    ensures
        r@ == spec_fit(s@, width as int),
{
    if str_width(s) <= width {
        return s.to_owned();
    }
    let cs = chars_of(s);
    let mut out = String::new();
    let mut used: usize = 0;
    let mut i: usize = 0;
    assert(cs@.skip(0) =~= s@);
    assert(out@ + fit_prefix(s@, width as int, 0) =~= fit_prefix(s@, width as int, 0));
    while i < cs.len()
        invariant
            i <= cs@.len(),
            cs@ == s@,
            used <= width,
            out@ + fit_prefix(cs@.skip(i as int), width as int, used as int) == fit_prefix(
                s@,
                width as int,
                0,
            ),
        ensures
            out@ == fit_prefix(s@, width as int, 0),
        decreases cs.len() - i,
    {
        let c = cs[i];
        let cw: usize = match char_width(c) {
            Some(w) => w,
            None => 0,
        };
        assert(cs@.skip(i as int)[0] == c);
        if cw + 1 > width - used {
            assert(fit_prefix(cs@.skip(i as int), width as int, used as int) =~= Seq::<char>::empty());
            assert(out@ + Seq::<char>::empty() =~= out@);
            break;
        }
        assert(cs@.skip(i as int).skip(1) =~= cs@.skip(i + 1));
        let ghost before = out@;
        let ghost rest = fit_prefix(cs@.skip(i + 1), width as int, used + cw);
        push_char(&mut out, c);
        assert(out@ + rest =~= before + (seq![c] + rest));
        used = used + cw;
        i += 1;
        if i == cs.len() {
            assert(cs@.skip(i as int) =~= Seq::<char>::empty());
            assert(out@ + Seq::<char>::empty() =~= out@);
        }
    }
    push_char(&mut out, '…');
    out
}

} // verus!
