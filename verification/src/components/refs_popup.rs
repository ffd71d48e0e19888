//! Revision switcher: branches and tags as a radio list. Moving the
//! cursor live-previews the switch in the modeline crumb, Enter
//! commits, Esc reverts; `/` filters (every list filters).
use super::list_view::{matching_indices, survives, text_survives};
use super::vim_input::{accepts, step, Outcome, VimInput, VimState};
use crate::action::Action;
use crate::keys::{Key, KeyCode};
use crate::provider::{RefInfo, RepoRefs};
use crate::text::{chars_of, eq_chars, lower_chars, lowercase};
use vstd::prelude::*;

verus! {

/// One row: a branch or tag from the provider.
#[derive(Debug, Clone)]
pub struct Row {
    pub name: String,
    pub sha: String,
    pub is_tag: bool,
    pub is_default: bool,
}

/// A row as (name, sha, tag, default branch).
pub open spec fn row_view(r: Row) -> (Seq<char>, Seq<char>, bool, bool) {
    (r.name@, r.sha@, r.is_tag, r.is_default)
}

pub open spec fn rows_view(v: Seq<Row>) -> Seq<(Seq<char>, Seq<char>, bool, bool)> {
    v.map_values(|r: Row| row_view(r))
}

/// The rows of a provider answer: branches, then tags (a tag is never
/// the default).
pub open spec fn spec_rows_of(branches: Seq<RefInfo>, tags: Seq<RefInfo>) -> Seq<
    (Seq<char>, Seq<char>, bool, bool),
> {
    branches.map_values(|r: RefInfo| (r.name@, r.sha@, false, r.is_default)) + tags.map_values(
        |r: RefInfo| (r.name@, r.sha@, true, false),
    )
}

/// The first row named `name`, else row 0.
pub open spec fn row_named(rows: Seq<(Seq<char>, Seq<char>, bool, bool)>, name: Seq<char>) -> int {
    if exists|i: int| 0 <= i < rows.len() && rows[i].0 == name {
        choose|i: int|
            0 <= i < rows.len() && rows[i].0 == name && forall|k: int|
                0 <= k < i ==> rows[k].0 != name
    } else {
        0
    }
}

/// Row indices surviving the filter `value`, in order.
pub open spec fn visible_rows(rows: Seq<(Seq<char>, Seq<char>, bool, bool)>, value: Seq<char>) -> Seq<
    usize,
> {
    matching_indices(rows.map_values(|r: (Seq<char>, Seq<char>, bool, bool)| r.0), lowercase(value))
}

/// The abstract popup.
pub struct RefsView {
    pub cursor: nat,
    pub baseline: Seq<char>,
    /// `None` while the provider hasn't answered.
    pub rows: Option<Seq<(Seq<char>, Seq<char>, bool, bool)>>,
    pub filter: VimState,
    pub filtering: bool,
    pub filter_value: Seq<char>,
    pub pre_filter: Seq<char>,
}

/// The row under the cursor (the last visible one when the cursor ran
/// past the list); `None` while loading or when nothing is visible.
pub open spec fn selected_row(v: RefsView) -> Option<(Seq<char>, Seq<char>, bool, bool)> {
    match v.rows {
        None => None,
        Some(rows) => {
            let vis = visible_rows(rows, v.filter_value);
            if vis.len() == 0 {
                None
            } else {
                let k = if v.cursor < vis.len() {
                    v.cursor as int
                } else {
                    vis.len() - 1
                };
                Some(rows[vis[k] as int])
            }
        },
    }
}

/// The number of visible rows.
pub open spec fn visible_count(v: RefsView) -> nat {
    match v.rows {
        None => 0,
        Some(rows) => visible_rows(rows, v.filter_value).len(),
    }
}

/// `RefsPreview` of the row, or `Noop` without one.
pub open spec fn previews(r: Action, row: Option<(Seq<char>, Seq<char>, bool, bool)>) -> bool {
    match row {
        Some(x) => r matches Action::RefsPreview(n) && n@ == x.0,
        None => r == Action::Noop,
    }
}

/// `RefsCommit` of the row, or `Noop` without one.
pub open spec fn commits(r: Action, row: Option<(Seq<char>, Seq<char>, bool, bool)>) -> bool {
    match row {
        Some(x) => r matches Action::RefsCommit(n) && n@ == x.0,
        None => r == Action::Noop,
    }
}

pub struct RefsPopup {
    cursor: usize,
    /// The revision committed when the popup opened: Esc reverts to it.
    baseline: String,
    /// `None` until the provider answers.
    rows: Option<Vec<Row>>,
    filter: VimInput,
    filtering: bool,
    filter_value: String,
    /// The committed filter before the live session: Esc restores it.
    pre_filter: String,
}

pub open spec fn opt_rows_view(o: Option<Vec<Row>>) -> Option<Seq<(Seq<char>, Seq<char>, bool, bool)>> {
    match o {
        Some(v) => Some(rows_view(v@)),
        None => None,
    }
}

impl View for RefsPopup {
    type V = RefsView;

    closed spec fn view(&self) -> RefsView {
        RefsView {
            cursor: self.cursor as nat,
            baseline: self.baseline@,
            rows: opt_rows_view(self.rows),
            filter: self.filter@,
            filtering: self.filtering,
            filter_value: self.filter_value@,
            pre_filter: self.pre_filter@,
        }
    }
}

fn row_from(r: &RefInfo, is_tag: bool) -> (out: Row)
    ensures
        row_view(out) == (r.name@, r.sha@, is_tag, !is_tag && r.is_default),
{
    Row { name: r.name.clone(), sha: r.sha.clone(), is_tag, is_default: !is_tag && r.is_default }
}

fn rows_of(refs: &RepoRefs) -> (rows: Vec<Row>)
    ensures
        rows_view(rows@) == spec_rows_of(refs.branches@, refs.tags@),
{
    let ghost bs = refs.branches@.map_values(|r: RefInfo| (r.name@, r.sha@, false, r.is_default));
    let ghost ts = refs.tags@.map_values(|r: RefInfo| (r.name@, r.sha@, true, false));
    let mut rows: Vec<Row> = Vec::new();
    let mut i: usize = 0;
    while i < refs.branches.len()
        invariant
            i <= refs.branches@.len(),
            bs == refs.branches@.map_values(|r: RefInfo| (r.name@, r.sha@, false, r.is_default)),
            rows_view(rows@) == bs.take(i as int),
        decreases refs.branches.len() - i,
    {
        let ghost before = rows@;
        let row = row_from(&refs.branches[i], false);
        assert(row_view(row) == bs[i as int]);
        rows.push(row);
        assert(rows_view(rows@) =~= rows_view(before).push(row_view(row)));
        assert(bs.take(i + 1) =~= bs.take(i as int).push(bs[i as int]));
        i += 1;
    }
    assert(bs.take(bs.len() as int) =~= bs);
    let mut j: usize = 0;
    while j < refs.tags.len()
        invariant
            j <= refs.tags@.len(),
            bs == refs.branches@.map_values(|r: RefInfo| (r.name@, r.sha@, false, r.is_default)),
            ts == refs.tags@.map_values(|r: RefInfo| (r.name@, r.sha@, true, false)),
            rows_view(rows@) == bs + ts.take(j as int),
        decreases refs.tags.len() - j,
    {
        let ghost before = rows@;
        let row = row_from(&refs.tags[j], true);
        assert(row_view(row) == ts[j as int]);
        rows.push(row);
        assert(rows_view(rows@) =~= rows_view(before).push(row_view(row)));
        assert(bs + ts.take(j + 1) =~= (bs + ts.take(j as int)).push(ts[j as int]));
        j += 1;
    }
    assert(ts.take(ts.len() as int) =~= ts);
    rows
}

/// The first row named `name`, else 0.
fn position_of(rows: &Vec<Row>, name: &str) -> (r: usize)
    ensures
        r == row_named(rows_view(rows@), name@),
{
    let ghost want = rows_view(rows@);
    let base = chars_of(name);
    let mut k: usize = 0;
    let mut hit = false;
    while k < rows.len() && !hit
        invariant
            k <= rows@.len(),
            want == rows_view(rows@),
            base@ == name@,
            hit ==> k < rows@.len() && want[k as int].0 == name@,
            forall|m: int| 0 <= m < k ==> want[m].0 != name@,
        decreases 2 * (rows.len() - k) + if hit { 0int } else { 1int },
    {
        let cand = chars_of(rows[k].name.as_str());
        assert(want[k as int].0 == cand@);
        if eq_chars(cand.as_slice(), base.as_slice()) {
            hit = true;
        } else {
            k += 1;
        }
    }
    if hit {
        proof {
            let c = row_named(want, name@);
            assert(0 <= c < want.len() && want[c].0 == name@);
            if c < k {
                assert(want[c].0 != name@);
            }
            if c > k {
                assert(want[k as int].0 != name@);
            }
        }
        k
    } else {
        0
    }
}

impl RefsPopup {
    /// The popup's invariant: its filter field is well formed.
    pub closed spec fn wf(&self) -> bool {
        self.filter.wf()
    }

    /// A loading popup for the current revision `current`.
    pub fn new(current: &str) -> (r: Self)
        ensures
            r.wf(),
            r@.cursor == 0,
            r@.baseline == current@,
            r@.rows is None,
            !r@.filtering,
            r@.filter_value.len() == 0,
            r@.pre_filter.len() == 0,
            r@.filter.chars.len() == 0,
            !r@.filter.modal,
    {
        RefsPopup {
            cursor: 0,
            baseline: current.to_owned(),
            rows: None,
            filter: VimInput::transient(),
            filtering: false,
            filter_value: String::new(),
            pre_filter: String::new(),
        }
    }

    /// The provider's refs landed: the loading row becomes the list,
    /// the cursor on the current revision when it is in it.
    pub fn set_refs(&mut self, refs: RepoRefs)
        ensures
            final(self).wf() == old(self).wf(),
            final(self)@ == (RefsView {
                cursor: row_named(spec_rows_of(refs.branches@, refs.tags@), old(self)@.baseline) as nat,
                rows: Some(spec_rows_of(refs.branches@, refs.tags@)),
                ..old(self)@
            }),
    {
        let rows = rows_of(&refs);
        let cursor = position_of(&rows, self.baseline.as_str());
        self.cursor = cursor;
        self.rows = Some(rows);
    }

    /// The revision committed when the popup opened.
    pub fn baseline(&self) -> (r: &str)
        ensures
            r@ == self@.baseline,
    {
        self.baseline.as_str()
    }

    /// The cursor's position among the visible rows.
    pub fn cursor(&self) -> (r: usize)
        ensures
            r == self@.cursor,
    {
        self.cursor
    }

    /// Row indices surviving the committed filter, branches then tags.
    pub fn visible(&self) -> (r: Vec<usize>)
        ensures
            r@ == match self@.rows {
                None => Seq::<usize>::empty(),
                Some(rows) => visible_rows(rows, self@.filter_value),
            },
    {
        let rows = match &self.rows {
            Some(r) => r,
            None => return Vec::new(),
        };
        let needle = lower_chars(self.filter_value.as_str());
        let ghost names = rows_view(rows@).map_values(|r: (Seq<char>, Seq<char>, bool, bool)| r.0);
        let mut out: Vec<usize> = Vec::new();
        let mut i: usize = 0;
        while i < rows.len()
            invariant
                i <= rows@.len(),
                needle@ == lowercase(self.filter_value@),
                names == rows_view(rows@).map_values(|r: (Seq<char>, Seq<char>, bool, bool)| r.0),
                out@ == matching_indices(names.take(i as int), needle@),
            decreases rows.len() - i,
        {
            assert(names.take(i + 1).drop_last() =~= names.take(i as int));
            assert(names.take(i + 1).last() == rows@[i as int].name@);
            if text_survives(rows[i].name.as_str(), needle.as_slice()) {
                out.push(i);
            }
            i += 1;
        }
        assert(names.take(names.len() as int) =~= names);
        out
    }

    /// The row under the cursor.
    pub fn selected(&self) -> (r: Option<&Row>)
        ensures
            match r {
                Some(row) => selected_row(self@) == Some(row_view(*row)),
                None => selected_row(self@) is None,
            },
    {
        let vis = self.visible();
        let rows = match &self.rows {
            Some(r) => r,
            None => return None,
        };
        if vis.len() == 0 {
            return None;
        }
        let k = if self.cursor < vis.len() { self.cursor } else { vis.len() - 1 };
        proof {
            assert(rows_view(rows@).map_values(|r: (Seq<char>, Seq<char>, bool, bool)| r.0).len()
                == rows.len());
            lemma_matching_indices_bounded(
                rows_view(rows@).map_values(|r: (Seq<char>, Seq<char>, bool, bool)| r.0),
                lowercase(self.filter_value@),
            );
        }
        let idx = vis[k];
        assert(rows_view(rows@)[idx as int] == row_view(rows@[idx as int]));
        Some(&rows[idx])
    }

    fn preview_selected(&self) -> (r: Action)
        ensures
            previews(r, selected_row(self@)),
    {
        match self.selected() {
            Some(row) => Action::RefsPreview(row.name.clone()),
            None => Action::Noop,
        }
    }

    /// Step the cursor one row forward or back, wrapping around.
    fn step(&mut self, forward: bool) -> (r: Action)
        ensures
            final(self).wf() == old(self).wf(),
            visible_count(old(self)@) == 0 ==> final(self)@ == old(self)@ && r == Action::Noop,
            visible_count(old(self)@) > 0 ==> {
                &&& final(self)@ == (RefsView {
                    cursor: ((old(self)@.cursor + if forward {
                        1int
                    } else {
                        -1int
                    }) % (visible_count(old(self)@) as int)) as nat,
                    ..old(self)@
                })
                &&& previews(r, selected_row(final(self)@))
            },
    {
        let len = self.visible().len();
        if len == 0 {
            return Action::Noop;
        }
        let c = self.cursor % len;
        let next = if forward {
            if c + 1 == len { 0 } else { c + 1 }
        } else {
            if c == 0 { len - 1 } else { c - 1 }
        };
        proof {
            let cur = self.cursor as int;
            let n = len as int;
            let d: int = if forward { 1 } else { -1 };
            vstd::arithmetic::div_mod::lemma_fundamental_div_mod(cur, n);
            vstd::arithmetic::div_mod::lemma_mod_multiples_vanish(cur / n, c + d, n);
            assert(cur + d == n * (cur / n) + (c + d));
            if forward {
                if c + 1 == n {
                    vstd::arithmetic::div_mod::lemma_mod_self_0(n);
                } else {
                    vstd::arithmetic::div_mod::lemma_small_mod((c + 1) as nat, n as nat);
                }
            } else {
                if c == 0 {
                    vstd::arithmetic::div_mod::lemma_mod_add_multiples_vanish(-1, n);
                    vstd::arithmetic::div_mod::lemma_small_mod((n - 1) as nat, n as nat);
                } else {
                    vstd::arithmetic::div_mod::lemma_small_mod((c - 1) as nat, n as nat);
                }
            }
        }
        self.cursor = next;
        self.preview_selected()
    }

    /// Whether `handle_key` can take `key` now: a filter being typed
    /// accepts it.
    pub fn takes_key(&self, key: Key) -> (b: bool)
        requires
            self.wf(),
        ensures
            b == (self@.filtering ==> accepts(self@.filter, key)),
    {
        if self.filtering {
            self.filter.accepts_key(key)
        } else {
            true
        }
    }

    /// React to one key: while filtering, the filter field takes it
    /// (typing narrows the list and previews the first row, Enter keeps
    /// the filter, Esc restores the previous one); otherwise Esc
    /// closes, `/` starts filtering, j/k and the arrows step the
    /// preview (wrapping), Enter commits the row under the cursor.
    pub fn handle_key(&mut self, key: Key) -> (r: Action)
        requires
            old(self).wf(),
            old(self)@.filtering ==> accepts(old(self)@.filter, key),
        ensures
            final(self).wf(),
            old(self)@.filtering ==> ({
                let (f, out) = step(old(self)@.filter, key);
                let base = RefsView { filter: f, ..old(self)@ };
                match out {
                    Outcome::Changed => {
                        let next = RefsView { filter_value: f.chars, cursor: 0, ..base };
                        final(self)@ == next && previews(r, selected_row(next))
                    },
                    Outcome::Submitted => {
                        let next = RefsView { filtering: false, cursor: 0, ..base };
                        final(self)@ == next && previews(r, selected_row(next))
                    },
                    Outcome::Cancelled => final(self)@ == (RefsView {
                        filtering: false,
                        filter_value: old(self)@.pre_filter,
                        ..base
                    }) && r == Action::Noop,
                    Outcome::Noop => final(self)@ == base && r == Action::Noop,
                }
            }),
            !old(self)@.filtering ==> ({
                let v = old(self)@;
                if key.code == KeyCode::Esc {
                    final(self)@ == v && r == Action::ClosePopup
                } else if key.code == KeyCode::Char('/') {
                    final(self)@ == (RefsView { pre_filter: v.filter_value, filtering: true, ..v })
                        && r == Action::Noop
                } else if key.code == KeyCode::Char('j') || key.code == KeyCode::Down
                    || key.code == KeyCode::Char('k') || key.code == KeyCode::Up {
                    let d: int = if key.code == KeyCode::Char('j') || key.code == KeyCode::Down {
                        1
                    } else {
                        -1
                    };
                    if visible_count(v) == 0 {
                        final(self)@ == v && r == Action::Noop
                    } else {
                        let next = RefsView {
                            cursor: ((v.cursor + d) % (visible_count(v) as int)) as nat,
                            ..v
                        };
                        final(self)@ == next && previews(r, selected_row(next))
                    }
                } else if key.code == KeyCode::Enter {
                    final(self)@ == v && commits(r, selected_row(v))
                } else {
                    final(self)@ == v && r == Action::Noop
                }
            }),
    {
        if self.filtering {
            let out = self.filter.handle_key(key);
            return match out {
                Outcome::Changed => {
                    self.filter_value = self.filter.value();
                    self.cursor = 0;
                    self.preview_selected()
                },
                Outcome::Submitted => {
                    self.filtering = false;
                    self.cursor = 0;
                    self.preview_selected()
                },
                Outcome::Cancelled => {
                    self.filtering = false;
                    self.filter_value = self.pre_filter.clone();
                    Action::Noop
                },
                Outcome::Noop => Action::Noop,
            };
        }
        match key.code {
            KeyCode::Esc => Action::ClosePopup,
            KeyCode::Char('/') => {
                self.pre_filter = self.filter_value.clone();
                self.filtering = true;
                Action::Noop
            },
            KeyCode::Char('j') | KeyCode::Down => self.step(true),
            KeyCode::Char('k') | KeyCode::Up => self.step(false),
            KeyCode::Enter => match self.selected() {
                Some(row) => Action::RefsCommit(row.name.clone()),
                None => Action::Noop,
            },
            _ => Action::Noop,
        }
    }
}

pub proof fn lemma_matching_indices_bounded(texts: Seq<Seq<char>>, needle: Seq<char>)
    requires
        texts.len() <= usize::MAX,
    ensures
        forall|k: int|
            0 <= k < matching_indices(texts, needle).len() ==> #[trigger] matching_indices(
                texts,
                needle,
            )[k] < texts.len(),
    decreases texts.len(),
{
    if texts.len() > 0 {
        let prev = matching_indices(texts.drop_last(), needle);
        lemma_matching_indices_bounded(texts.drop_last(), needle);
        let all = matching_indices(texts, needle);
        assert forall|k: int| 0 <= k < all.len() implies #[trigger] all[k] < texts.len() by {
            if k < prev.len() {
                assert(all[k] == prev[k]);
            }
        }
    }
}

} // verus!
