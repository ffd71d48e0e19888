//! Revision lenses: the file-history lens's state machine, and the
//! blame margin marks computed from a file's blame runs.
use crate::components::list_view::{matching_indices, survives};
use crate::components::vim_input::{accepts, step, Outcome, VimInput, VimState};
use crate::components::browser::{spec_selected_file, Browser};
use crate::components::preview::{BlameMark, Preview};
use crate::keys::Key;
use crate::provider::{BlameRange, LogEntry};
use crate::text::{chars_of, contains, has_sub, lower_chars, lowercase, starts, starts_with, str_is};
use vstd::prelude::*;

verus! {

/// A commit as (sha, subject, author, date).
pub open spec fn entry_view(e: LogEntry) -> (Seq<char>, Seq<char>, Seq<char>, Seq<char>) {
    (e.sha@, e.subject@, e.author@, e.date@)
}

pub open spec fn entries_view(v: Seq<LogEntry>) -> Seq<(Seq<char>, Seq<char>, Seq<char>, Seq<char>)> {
    v.map_values(|e: LogEntry| entry_view(e))
}

/// A commit survives the filter `needle` (lowercased): no needle, or
/// it is in the lowercased subject, the sha, or the lowercased author.
pub open spec fn commit_matches(e: (Seq<char>, Seq<char>, Seq<char>, Seq<char>), needle: Seq<char>) -> bool {
    needle.len() == 0 || has_sub(lowercase(e.1), needle) || has_sub(e.0, needle) || has_sub(
        lowercase(e.2),
        needle,
    )
}

/// Indices of the commits surviving the filter, ascending.
pub open spec fn matching_commits(es: Seq<(Seq<char>, Seq<char>, Seq<char>, Seq<char>)>, needle: Seq<char>) -> Seq<usize>
    decreases es.len(),
{
    if es.len() == 0 {
        seq![]
    } else {
        let r = matching_commits(es.drop_last(), needle);
        if commit_matches(es.last(), needle) {
            r.push((es.len() - 1) as usize)
        } else {
            r
        }
    }
}

proof fn lemma_matching_commits(es: Seq<(Seq<char>, Seq<char>, Seq<char>, Seq<char>)>, needle: Seq<char>)
    requires
        es.len() <= usize::MAX,
    ensures
        forall|i: int| 0 <= i < es.len() ==> (matching_commits(es, needle).contains(i as usize) <==> commit_matches(
            #[trigger] es[i],
            needle,
        )),
        forall|k: int|
            0 <= k < matching_commits(es, needle).len() ==> #[trigger] matching_commits(es, needle)[k] < es.len(),
        forall|a: int, b: int|
            0 <= a < b < matching_commits(es, needle).len() ==> #[trigger] matching_commits(es, needle)[a]
                < #[trigger] matching_commits(es, needle)[b],
    decreases es.len(),
{
    if es.len() > 0 {
        let d = es.drop_last();
        lemma_matching_commits(d, needle);
        let r = matching_commits(d, needle);
        let m = matching_commits(es, needle);
        let last = (es.len() - 1) as usize;
        assert forall|i: int| 0 <= i < es.len() implies (m.contains(i as usize) <==> commit_matches(
            #[trigger] es[i],
            needle,
        )) by {
            if i < es.len() - 1 {
                assert(es[i] == d[i]);
                if m.contains(i as usize) {
                    let k = choose|k: int| 0 <= k < m.len() && m[k] == i as usize;
                    if k < r.len() {
                        assert(m[k] == r[k]);
                    } else {
                        assert(m[k] == last);
                    }
                }
                if r.contains(i as usize) {
                    let k = choose|k: int| 0 <= k < r.len() && r[k] == i as usize;
                    assert(m[k] == r[k]);
                }
            } else {
                if commit_matches(es.last(), needle) {
                    assert(m[m.len() - 1] == last);
                } else {
                    if m.contains(i as usize) {
                        let k = choose|k: int| 0 <= k < m.len() && m[k] == i as usize;
                        assert(m[k] == r[k]);
                    }
                }
            }
        }
        assert forall|a: int, b: int| 0 <= a < b < m.len() implies #[trigger] m[a] < #[trigger] m[b] by {
            if b < r.len() {
                assert(m[a] == r[a] && m[b] == r[b]);
            } else {
                assert(m[a] == r[a]);
            }
        }
        assert forall|k: int| 0 <= k < m.len() implies #[trigger] m[k] < es.len() by {
            if k < r.len() {
                assert(m[k] == r[k]);
            }
        }
    }
}

/// The history filter finds the commits it should, in log order: every
/// commit whose lowercased author, lowercased subject or sha holds the
/// lowercased filter value is visible, and every visible commit is one
/// of the lens's commits that does (any commit, with no value).
pub proof fn lemma_history_filter_finds(h: HistoryView)
    requires
        h.entries.len() <= usize::MAX,
    ensures
        forall|i: int|
            0 <= i < h.entries.len() && has_sub(lowercase((#[trigger] h.entries[i]).2), lowercase(h.filter_value))
                ==> visible_commits(h).contains(i as usize),
        forall|i: int|
            0 <= i < h.entries.len() && has_sub(lowercase((#[trigger] h.entries[i]).1), lowercase(h.filter_value))
                ==> visible_commits(h).contains(i as usize),
        forall|i: int|
            0 <= i < h.entries.len() && has_sub((#[trigger] h.entries[i]).0, lowercase(h.filter_value))
                ==> visible_commits(h).contains(i as usize),
        forall|k: int|
            0 <= k < visible_commits(h).len() ==> {
                let e = h.entries[#[trigger] visible_commits(h)[k] as int];
                &&& visible_commits(h)[k] < h.entries.len()
                &&& lowercase(h.filter_value).len() == 0 || has_sub(lowercase(e.1), lowercase(h.filter_value))
                    || has_sub(e.0, lowercase(h.filter_value)) || has_sub(lowercase(e.2), lowercase(h.filter_value))
            },
        forall|a: int, b: int|
            0 <= a < b < visible_commits(h).len() ==> #[trigger] visible_commits(h)[a]
                < #[trigger] visible_commits(h)[b],
{
    let n = lowercase(h.filter_value);
    let v = visible_commits(h);
    lemma_matching_commits(h.entries, n);
    assert forall|k: int| 0 <= k < v.len() implies {
        let e = h.entries[#[trigger] v[k] as int];
        &&& v[k] < h.entries.len()
        &&& n.len() == 0 || has_sub(lowercase(e.1), n) || has_sub(e.0, n) || has_sub(lowercase(e.2), n)
    } by {
        let i = v[k] as int;
        assert(v.contains(i as usize));
        assert(commit_matches(h.entries[i], n));
    }
}

/// The abstract lens.
pub struct HistoryView {
    pub path: Seq<char>,
    pub cursor: nat,
    pub scroll: nat,
    pub entries: Seq<(Seq<char>, Seq<char>, Seq<char>, Seq<char>)>,
    pub truncated: bool,
    pub loading: bool,
    pub pending_sha: Option<Seq<char>>,
    pub filter: VimState,
    pub filtering: bool,
    pub filter_value: Seq<char>,
    pub pre_filter: Seq<char>,
}

/// The visible commits of a lens.
pub open spec fn visible_commits(h: HistoryView) -> Seq<usize> {
    matching_commits(h.entries, lowercase(h.filter_value))
}

/// The commit under the cursor (the last visible one when the cursor
/// ran past the list).
pub open spec fn selected_commit(h: HistoryView) -> Option<(Seq<char>, Seq<char>, Seq<char>, Seq<char>)> {
    let vis = visible_commits(h);
    if vis.len() == 0 {
        None
    } else {
        let k = if h.cursor < vis.len() {
            h.cursor as int
        } else {
            vis.len() - 1
        };
        Some(h.entries[vis[k] as int])
    }
}

/// The first commit whose sha is `sha` or starts with it.
pub open spec fn first_with_sha(es: Seq<(Seq<char>, Seq<char>, Seq<char>, Seq<char>)>, sha: Seq<char>) -> Option<int> {
    if exists|i: int| 0 <= i < es.len() && starts(es[i].0, sha) {
        Some(choose|i: int| 0 <= i < es.len() && starts(es[i].0, sha) && forall|k: int| 0 <= k < i ==> !starts(es[k].0, sha))
    } else {
        None
    }
}

/// Where `i` sits among the visible rows (0 when it doesn't).
pub open spec fn row_of(vis: Seq<usize>, i: int) -> int {
    if exists|k: int| 0 <= k < vis.len() && vis[k] == i {
        choose|k: int| 0 <= k < vis.len() && vis[k] == i && forall|m: int| 0 <= m < k ==> vis[m] != i
    } else {
        0
    }
}

/// The blame lens's data for one file: its ranges, or a fetch in flight.
pub struct BlameState {
    pub path: String,
    pub ranges: Vec<BlameRange>,
    pub loading: bool,
}

/// The file-history lens over the preview pane. Data arrives from the
/// provider via `loaded`; until then the lens shows a loading row.
pub struct History {
    /// The file the lens is open on.
    path: String,
    /// Cursor over the visible (filtered) rows.
    cursor: usize,
    scroll: u16,
    entries: Vec<LogEntry>,
    truncated: bool,
    loading: bool,
    /// Opened from blame: put the cursor on this commit when it lands.
    pending_sha: Option<String>,
    /// Transient `/` session over the commits.
    filter: VimInput,
    filtering: bool,
    filter_value: String,
    pre_filter: String,
}

impl View for History {
    type V = HistoryView;

    closed spec fn view(&self) -> HistoryView {
        HistoryView {
            path: self.path@,
            cursor: self.cursor as nat,
            scroll: self.scroll as nat,
            entries: entries_view(self.entries@),
            truncated: self.truncated,
            loading: self.loading,
            pending_sha: match self.pending_sha {
                Some(s) => Some(s@),
                None => None,
            },
            filter: self.filter@,
            filtering: self.filtering,
            filter_value: self.filter_value@,
            pre_filter: self.pre_filter@,
        }
    }
}

proof fn lemma_matching_commits_bounded(es: Seq<(Seq<char>, Seq<char>, Seq<char>, Seq<char>)>, needle: Seq<char>)
    requires
        es.len() <= usize::MAX,
    ensures
        forall|k: int|
            0 <= k < matching_commits(es, needle).len() ==> #[trigger] matching_commits(es, needle)[k]
                < es.len(),
    decreases es.len(),
{
    if es.len() > 0 {
        let prev = matching_commits(es.drop_last(), needle);
        lemma_matching_commits_bounded(es.drop_last(), needle);
        let all = matching_commits(es, needle);
        assert forall|k: int| 0 <= k < all.len() implies #[trigger] all[k] < es.len() by {
            if k < prev.len() {
                assert(all[k] == prev[k]);
            }
        }
    }
}

impl History {
    pub closed spec fn wf(&self) -> bool {
        self.filter.wf()
    }

    /// The lens on `path`, loading; `pending_sha` positions the cursor
    /// once the commits land.
    pub fn at(path: &str, pending_sha: Option<String>) -> (r: Self)
        ensures
            r.wf(),
            r@.path == path@,
            r@.cursor == 0,
            r@.scroll == 0,
            r@.entries.len() == 0,
            !r@.truncated,
            r@.loading,
            r@.pending_sha == match pending_sha {
                Some(s) => Some(s@),
                None => None,
            },
            !r@.filtering,
            r@.filter_value.len() == 0,
            r@.pre_filter.len() == 0,
            r@.filter.chars.len() == 0,
            !r@.filter.modal,
    {
        History {
            path: path.to_owned(),
            cursor: 0,
            scroll: 0,
            entries: Vec::new(),
            truncated: false,
            loading: true,
            pending_sha,
            filter: VimInput::transient(),
            filtering: false,
            filter_value: String::new(),
            pre_filter: String::new(),
        }
    }

    /// The file the lens serves.
    pub fn path(&self) -> (r: &str)
        ensures
            r@ == self@.path,
    {
        self.path.as_str()
    }

    /// Entry indices surviving the committed filter.
    pub fn visible(&self) -> (r: Vec<usize>)
        ensures
            r@ == visible_commits(self@),
    {
        let needle = lower_chars(self.filter_value.as_str());
        let ghost es = entries_view(self.entries@);
        let mut out: Vec<usize> = Vec::new();
        let mut i: usize = 0;
        while i < self.entries.len()
            invariant
                i <= self.entries@.len(),
                needle@ == lowercase(self.filter_value@),
                es == entries_view(self.entries@),
                out@ == matching_commits(es.take(i as int), needle@),
            decreases self.entries.len() - i,
        {
            assert(es.take(i + 1).drop_last() =~= es.take(i as int));
            let e = &self.entries[i];
            assert(es.take(i + 1).last() == entry_view(*e));
            let keep = needle.len() == 0 || contains(lower_chars(e.subject.as_str()).as_slice(), needle.as_slice())
                || contains(chars_of(e.sha.as_str()).as_slice(), needle.as_slice()) || contains(
                lower_chars(e.author.as_str()).as_slice(),
                needle.as_slice(),
            );
            if keep {
                out.push(i);
            }
            i += 1;
        }
        assert(es.take(es.len() as int) =~= es);
        out
    }

    /// The commit under the cursor.
    pub fn selected(&self) -> (r: Option<&LogEntry>)
        ensures
            match r {
                Some(e) => selected_commit(self@) == Some(entry_view(*e)),
                None => selected_commit(self@) is None,
            },
    {
        let vis = self.visible();
        if vis.len() == 0 {
            return None;
        }
        let k = if self.cursor < vis.len() { self.cursor } else { vis.len() - 1 };
        proof {
            assert(entries_view(self.entries@).len() == self.entries.len());
            lemma_matching_commits_bounded(entries_view(self.entries@), lowercase(self.filter_value@));
        }
        let i = vis[k];
        Some(&self.entries[i])
    }

    /// The commits landed: the loading row becomes the list; a pending
    /// sha (opened from blame) puts the cursor on the first commit it
    /// names (its row among the visible ones, else the top).
    pub fn loaded(&mut self, entries: Vec<LogEntry>, truncated: bool)
        requires
            old(self).wf(),
        ensures
            final(self).wf(),
            ({
                let es = entries_view(entries@);
                let base = HistoryView {
                    loading: false,
                    truncated,
                    entries: es,
                    pending_sha: None,
                    ..old(self)@
                };
                final(self)@ == match old(self)@.pending_sha {
                    Some(sha) => match first_with_sha(es, sha) {
                        Some(i) => HistoryView { cursor: row_of(visible_commits(base), i) as nat, ..base },
                        None => base,
                    },
                    None => base,
                }
            }),
    {
        self.loading = false;
        self.truncated = truncated;
        self.entries = entries;
        let pending = self.pending_sha.take();
        let ghost es = entries_view(self.entries@);
        if let Some(sha) = pending {
            let want = chars_of(sha.as_str());
            let mut i: usize = 0;
            let mut hit = false;
            while i < self.entries.len() && !hit
                invariant
                    i <= self.entries@.len(),
                    es == entries_view(self.entries@),
                    want@ == sha@,
                    hit ==> i < es.len() && starts(es[i as int].0, sha@),
                    forall|m: int| 0 <= m < i ==> !starts(es[m].0, sha@),
                decreases 2 * (self.entries.len() - i) + if hit { 0int } else { 1int },
            {
                let cand = chars_of(self.entries[i].sha.as_str());
                assert(es[i as int].0 == cand@);
                if starts_with(cand.as_slice(), want.as_slice()) {
                    hit = true;
                } else {
                    i += 1;
                }
            }
            if hit {
                proof {
                    let c = first_with_sha(es, sha@)->Some_0;
                    assert(0 <= c < es.len() && starts(es[c].0, sha@));
                    if c < i {
                        assert(!starts(es[c].0, sha@));
                    }
                    if c > i {
                        assert(starts(es[i as int].0, sha@));
                    }
                }
                let vis = self.visible();
                let mut k: usize = 0;
                let mut found = false;
                while k < vis.len() && !found
                    invariant
                        k <= vis@.len(),
                        found ==> k < vis@.len() && vis@[k as int] == i,
                        forall|m: int| 0 <= m < k ==> vis@[m] != i,
                    decreases 2 * (vis.len() - k) + if found { 0int } else { 1int },
                {
                    if vis[k] == i {
                        found = true;
                    } else {
                        k += 1;
                    }
                }
                proof {
                    if found {
                        let c = row_of(vis@, i as int);
                        assert(0 <= c < vis@.len() && vis@[c] == i);
                        if c < k {
                            assert(vis@[c] != i);
                        }
                        if c > k {
                            assert(vis@[k as int] == i);
                        }
                    }
                }
                self.cursor = if found { k } else { 0 };
            }
        }
    }

    /// Begin a `/` session, remembering the committed filter.
    pub fn begin_filter(&mut self)
        ensures
            final(self).wf() == old(self).wf(),
            final(self)@ == (HistoryView { pre_filter: old(self)@.filter_value, filtering: true, ..old(self)@ }),
    {
        self.pre_filter = self.filter_value.clone();
        self.filtering = true;
    }

    /// Whether a `/` session runs.
    pub fn filtering(&self) -> (r: bool)
        ensures
            r == self@.filtering,
    {
        self.filtering
    }

    /// A key for the filter session: the list narrows as you type,
    /// Enter keeps the filter, Esc restores the one before the session.
    pub fn filter_key(&mut self, key: Key)
        requires
            old(self).wf(),
            accepts(old(self)@.filter, key),
        ensures
            final(self).wf(),
            ({
                let (f, out) = step(old(self)@.filter, key);
                let base = HistoryView { filter: f, ..old(self)@ };
                final(self)@ == match out {
                    Outcome::Changed => HistoryView { filter_value: f.chars, cursor: 0, scroll: 0, ..base },
                    Outcome::Submitted => HistoryView {
                        filtering: false,
                        filter_value: f.chars,
                        cursor: 0,
                        scroll: 0,
                        ..base
                    },
                    Outcome::Cancelled => HistoryView {
                        filtering: false,
                        filter_value: old(self)@.pre_filter,
                        ..base
                    },
                    Outcome::Noop => base,
                }
            }),
    {
        match self.filter.handle_key(key) {
            Outcome::Changed => {
                self.filter_value = self.filter.value();
                self.cursor = 0;
                self.scroll = 0;
            },
            Outcome::Submitted => {
                self.filtering = false;
                self.filter_value = self.filter.value();
                self.cursor = 0;
                self.scroll = 0;
            },
            Outcome::Cancelled => {
                self.filtering = false;
                self.filter_value = self.pre_filter.clone();
            },
            Outcome::Noop => {},
        }
    }

    /// Esc in the lens: a committed filter clears first (the cursor back
    /// to the top) and the lens stays; with no filter it is time to
    /// close (`true`).
    pub fn esc(&mut self) -> (close: bool)
        ensures
            final(self).wf() == old(self).wf(),
            old(self)@.filter_value.len() > 0 ==> !close && final(self)@ == (HistoryView {
                filter_value: seq![],
                cursor: 0,
                ..old(self)@
            }),
            old(self)@.filter_value.len() == 0 ==> close && final(self)@ == old(self)@,
    {
        if !self.filter_value.as_str().is_empty() {
            self.filter_value = String::new();
            self.cursor = 0;
            return false;
        }
        true
    }

    /// Step the cursor one visible row forward or back, wrapping.
    pub fn move_by(&mut self, forward: bool)
        ensures
            final(self).wf() == old(self).wf(),
            visible_commits(old(self)@).len() == 0 ==> final(self)@ == old(self)@,
            visible_commits(old(self)@).len() > 0 ==> final(self)@ == (HistoryView {
                cursor: ((old(self)@.cursor + if forward {
                    1int
                } else {
                    -1int
                }) % (visible_commits(old(self)@).len() as int)) as nat,
                ..old(self)@
            }),
    {
        let len = self.visible().len();
        if len == 0 {
            return;
        }
        let c = self.cursor % len;
        let next = if forward {
            if c + 1 == len { 0 } else { c + 1 }
        } else {
            if c == 0 { len - 1 } else { c - 1 }
        };
        proof {
            let cur = self.cursor as int;
            let n = len as int;
            let d: int = if forward { 1 } else { -1 };
            vstd::arithmetic::div_mod::lemma_fundamental_div_mod(cur, n);
            vstd::arithmetic::div_mod::lemma_mod_multiples_vanish(cur / n, c + d, n);
            assert(cur + d == n * (cur / n) + (c + d));
            if forward {
                if c + 1 == n {
                    vstd::arithmetic::div_mod::lemma_mod_self_0(n);
                } else {
                    vstd::arithmetic::div_mod::lemma_small_mod((c + 1) as nat, n as nat);
                }
            } else {
                if c == 0 {
                    vstd::arithmetic::div_mod::lemma_mod_add_multiples_vanish(-1, n);
                    vstd::arithmetic::div_mod::lemma_small_mod((n - 1) as nat, n as nat);
                } else {
                    vstd::arithmetic::div_mod::lemma_small_mod((c - 1) as nat, n as nat);
                }
            }
        }
        self.cursor = next;
    }

    /// The picked commit: the lens's path and the commit's full sha.
    pub fn pick(&self) -> (r: Option<(String, String)>)
        ensures
            match r {
                Some((p, s)) => p@ == self@.path && (selected_commit(self@) matches Some(e) && s@ == e.0),
                None => selected_commit(self@) is None,
            },
    {
        match self.selected() {
            Some(e) => Some((self.path.clone(), e.sha.clone())),
            None => None,
        }
    }
}

/// `a` is `b` with the blame marks of `b`'s loaded ranges on the
/// preview, when there are ranges and lines to mark.
pub open spec fn blame_applied(b: Browser, a: Browser) -> bool {
    match b.blame {
        Some(bs) => if b.preview.line_count > 0 {
            &&& a == (Browser { preview: Preview { blame: a.preview.blame, ..b.preview }, ..b })
            &&& a.preview.blame matches Some(ms) && marks_view(ms@) == spec_marks(bs.ranges@, b.preview.line_count as nat)
        } else {
            a == b
        },
        None => a == b,
    }
}

/// The lens's committed filter cleared, the cursor back at the top.
pub open spec fn filter_cleared(before: Option<History>, after: Option<History>) -> bool {
    match (before, after) {
        (Some(h), Some(g)) => g@ == (HistoryView { filter_value: seq![], cursor: 0, ..h@ }),
        _ => false,
    }
}

/// `b` is `a` with the history lens opened on the previewed file (`r`),
/// or unchanged when no file is previewed.
pub open spec fn history_opened(a: Browser, b: Browser, at_sha: Option<Seq<char>>, r: bool) -> bool {
    match spec_selected_file(a) {
        Some((p, _)) => {
            &&& r
            &&& b == (Browser { history: b.history, ..a })
            &&& b.history matches Some(h) && h@.path == p && h@.cursor == 0 && h@.scroll == 0 && h@.entries.len()
                == 0 && h@.loading && !h@.filtering && h@.filter_value.len() == 0 && h@.pending_sha == at_sha
        },
        None => !r && b == a,
    }
}

/// The sha the blame margin names for the cursor line (line 1 when
/// there is no cursor); None outside blame or while it loads.
pub open spec fn spec_blame_line_sha(b: Browser) -> Option<Seq<char>> {
    let ready = b.preview.blame is Some && (b.blame matches Some(bs) && !bs.loading);
    let line = if b.preview.line_count > 0 {
        b.preview.cursor + 1
    } else {
        1
    };
    if ready {
        spec_line_sha(b.blame->Some_0.ranges@, line)
    } else {
        None
    }
}

/// `b` is `a` with the lens's `/` session begun.
pub open spec fn history_filter_begun(a: Browser, b: Browser) -> bool {
    &&& b == (Browser { history: b.history, ..a })
    &&& a.history is None ==> b.history is None
    &&& a.history matches Some(h) ==> b.history matches Some(g) && g@ == (HistoryView {
        pre_filter: h@.filter_value,
        filtering: true,
        ..h@
    })
}

/// `b` is `a` after Esc in the lens: a committed filter cleared, or
/// the lens closed (`closed`).
pub open spec fn history_escaped(a: Browser, b: Browser, closed: bool) -> bool {
    &&& (a.history matches Some(h) && h@.filter_value.len() > 0) ==> !closed && b == (Browser {
        history: b.history,
        ..a
    }) && filter_cleared(a.history, b.history)
    &&& !(a.history matches Some(h) && h@.filter_value.len() > 0) ==> closed && b == (Browser { history: None, ..a })
}

/// `b` is `a` with the lens's cursor stepped one visible row, wrapping.
pub open spec fn history_moved(a: Browser, b: Browser, forward: bool) -> bool {
    &&& b == (Browser { history: b.history, ..a })
    &&& a.history is None ==> b.history is None
    &&& a.history matches Some(h) ==> b.history matches Some(g) && (if visible_commits(h@).len() == 0 {
        g@ == h@
    } else {
        g@ == (HistoryView {
            cursor: ((h@.cursor + if forward {
                1int
            } else {
                -1int
            }) % (visible_commits(h@).len() as int)) as nat,
            ..h@
        })
    })
}

/// A copy of a commit.
fn copy_commit(e: &LogEntry) -> (r: LogEntry)
    ensures
        r == *e,
{
    LogEntry { sha: e.sha.clone(), subject: e.subject.clone(), author: e.author.clone(), date: e.date.clone() }
}

impl Browser {
    /// Blame off: drop the lens and its marks.
    pub fn clear_blame(&mut self)
        ensures
            *final(self) == (Browser { blame: None, preview: Preview { blame: None, ..old(self).preview }, ..*old(self) }),
    {
        self.blame = None;
        self.preview.set_blame(None);
    }

    /// Put the loaded ranges' marks on the preview.
    fn blame_apply(&mut self)
        ensures
            blame_applied(*old(self), *final(self)),
    {
        let lines = self.preview.text_line_count();
        match &self.blame {
            Some(b) => {
                if lines == 0 {
                    return;
                }
                let marks = blame_marks(&b.ranges, lines);
                self.preview.set_blame(Some(marks));
            },
            None => {},
        }
    }

    /// Blame on: ranges already loaded apply at once; without lines
    /// there is nothing to blame (`false`).
    pub fn blame_toggle_on(&mut self) -> (r: bool)
        ensures
            r == (old(self).preview.line_count > 0),
            (r && (old(self).blame matches Some(b) && !b.loading)) ==> blame_applied(*old(self), *final(self)),
            !(r && (old(self).blame matches Some(b) && !b.loading)) ==> *final(self) == *old(self),
    {
        if self.preview.text_line_count() == 0 {
            return false;
        }
        let apply = match &self.blame {
            Some(b) => !b.loading,
            None => false,
        };
        if apply {
            self.blame_apply();
        }
        true
    }

    /// The path a blame fetch must cover, when one is needed: text is
    /// shown and no ranges are loaded or loading.
    pub fn blame_needed_for(&self) -> (r: Option<String>)
        requires
            self.wf(),
        ensures
            (self.preview.line_count > 0 && self.blame is None) ==> match spec_selected_file(*self) {
                Some((p, _)) => r matches Some(x) && x@ == p,
                None => r is None,
            },
            !(self.preview.line_count > 0 && self.blame is None) ==> r is None,
    {
        if self.preview.text_line_count() == 0 {
            return None;
        }
        match &self.blame {
            Some(_) => None,
            None => match self.selected_file() {
                Some((p, _)) => Some(p),
                None => None,
            },
        }
    }

    /// A blame fetch for `path` is in flight.
    pub fn blame_mark_loading(&mut self, path: String)
        ensures
            *final(self) == (Browser { blame: final(self).blame, ..*old(self) }),
            final(self).blame matches Some(b) && b.path == path && b.ranges@.len() == 0 && b.loading,
    {
        self.blame = Some(BlameState { path, ranges: Vec::new(), loading: true });
    }

    /// The ranges of `path` landed; their marks apply when the lens was
    /// waiting for this path.
    pub fn blame_store(&mut self, path: String, ranges: Vec<BlameRange>)
        ensures
            ({
                let active = old(self).blame matches Some(b) && b.loading && b.path@ == path@;
                let stored = Browser { blame: final(self).blame, ..*old(self) };
                &&& final(self).blame matches Some(b) && b.path == path && b.ranges == ranges && !b.loading
                &&& if active {
                    blame_applied(stored, *final(self))
                } else {
                    *final(self) == stored
                }
            }),
    {
        let active = match &self.blame {
            Some(b) => b.loading && str_is(b.path.as_str(), path.as_str()),
            None => false,
        };
        self.blame = Some(BlameState { path, ranges, loading: false });
        if active {
            self.blame_apply();
        }
    }

    /// The sha the blame margin names for the cursor line (line 1 when
    /// there is no cursor); None outside blame or while it loads.
    pub fn blame_line_sha(&self) -> (r: Option<String>)
        ensures
            match spec_blame_line_sha(*self) {
                Some(s) => r matches Some(x) && x@ == s,
                None => r is None,
            },
    {
        if !self.preview.blaming() {
            return None;
        }
        let b = match &self.blame {
            Some(b) => b,
            None => return None,
        };
        if b.loading {
            return None;
        }
        let line = match self.preview_line() {
            Some(l) => l,
            None => 1,
        };
        line_sha(&b.ranges, line as usize)
    }

    /// Open the history lens on the previewed file, if there is one;
    /// `at_sha` puts the cursor on that commit when the list lands.
    pub fn open_history(&mut self, at_sha: Option<String>) -> (r: bool)
        requires
            old(self).wf(),
        ensures
            final(self).wf(),
            history_opened(
                *old(self),
                *final(self),
                match at_sha {
                    Some(s) => Some(s@),
                    None => None,
                },
                r,
            ),
    {
        match self.selected_file() {
            Some((path, _)) => {
                self.history = Some(History::at(path.as_str(), at_sha));
                true
            },
            None => false,
        }
    }

    /// Commits for the open lens landed.
    pub fn history_loaded(&mut self, entries: Vec<LogEntry>, truncated: bool)
        requires
            old(self).wf(),
        ensures
            final(self).wf(),
            *final(self) == (Browser { history: final(self).history, ..*old(self) }),
            old(self).history is None ==> final(self).history is None,
            old(self).history matches Some(h) ==> final(self).history matches Some(g) && g@ == ({
                let es = entries_view(entries@);
                let base = HistoryView {
                    loading: false,
                    truncated,
                    entries: es,
                    pending_sha: None,
                    ..h@
                };
                match h@.pending_sha {
                    Some(sha) => match first_with_sha(es, sha) {
                        Some(i) => HistoryView { cursor: row_of(visible_commits(base), i) as nat, ..base },
                        None => base,
                    },
                    None => base,
                }
            }),
    {
        match &mut self.history {
            Some(h) => h.loaded(entries, truncated),
            None => {},
        }
    }

    /// The path the open lens serves.
    pub fn history_path(&self) -> (r: Option<&str>)
        ensures
            match self.history {
                Some(h) => r matches Some(p) && p@ == h@.path,
                None => r is None,
            },
    {
        match &self.history {
            Some(h) => Some(h.path()),
            None => None,
        }
    }

    /// The history lens is open.
    pub fn history_active(&self) -> (r: bool)
        ensures
            r == self.history is Some,
    {
        self.history.is_some()
    }

    /// The lens's `/` session is running.
    pub fn history_filtering(&self) -> (r: bool)
        ensures
            r == (self.history matches Some(h) && h@.filtering),
    {
        match &self.history {
            Some(h) => h.filtering(),
            None => false,
        }
    }

    /// Begin the lens's `/` session.
    pub fn history_begin_filter(&mut self)
        requires
            old(self).wf(),
        ensures
            final(self).wf(),
            history_filter_begun(*old(self), *final(self)),
    {
        match &mut self.history {
            Some(h) => h.begin_filter(),
            None => {},
        }
    }

    /// Whether `history_filter_key` can take `key` now: the lens's
    /// filter accepts it.
    pub fn history_takes_key(&self, key: Key) -> (b: bool)
        requires
            self.wf(),
        ensures
            b == (self.history matches Some(h) ==> accepts(h@.filter, key)),
    {
        match &self.history {
            Some(h) => h.filter.accepts_key(key),
            None => true,
        }
    }

    /// A key for the lens's `/` session.
    pub fn history_filter_key(&mut self, key: Key)
        requires
            old(self).wf(),
            old(self).history matches Some(h) ==> accepts(h@.filter, key),
        ensures
            final(self).wf(),
            *final(self) == (Browser { history: final(self).history, ..*old(self) }),
            old(self).history is None ==> final(self).history is None,
            old(self).history matches Some(h) ==> final(self).history matches Some(g) && g@ == ({
                let (f, out) = step(h@.filter, key);
                let base = HistoryView { filter: f, ..h@ };
                match out {
                    Outcome::Changed => HistoryView { filter_value: f.chars, cursor: 0, scroll: 0, ..base },
                    Outcome::Submitted => HistoryView {
                        filtering: false,
                        filter_value: f.chars,
                        cursor: 0,
                        scroll: 0,
                        ..base
                    },
                    Outcome::Cancelled => HistoryView { filtering: false, filter_value: h@.pre_filter, ..base },
                    Outcome::Noop => base,
                }
            }),
    {
        match &mut self.history {
            Some(h) => h.filter_key(key),
            None => {},
        }
    }

    /// Esc in the lens: a committed filter clears first; with none the
    /// lens closes (`true`).
    pub fn history_esc(&mut self) -> (closed: bool)
        requires
            old(self).wf(),
        ensures
            final(self).wf(),
            history_escaped(*old(self), *final(self), closed),
    {
        let close = match &mut self.history {
            Some(h) => h.esc(),
            None => true,
        };
        if close {
            self.close_history();
        }
        close
    }

    /// Step the lens's cursor one row forward or back, wrapping.
    pub fn history_move(&mut self, forward: bool)
        requires
            old(self).wf(),
        ensures
            final(self).wf(),
            history_moved(*old(self), *final(self), forward),
    {
        match &mut self.history {
            Some(h) => h.move_by(forward),
            None => {},
        }
    }

    /// A file is shown at a commit.
    pub fn at_commit_view(&self) -> (r: bool)
        ensures
            r == self.at_commit is Some,
    {
        self.at_commit.is_some()
    }

    /// The commit under the lens's cursor.
    pub fn history_pick_entry(&self) -> (r: Option<LogEntry>)
        ensures
            match self.history {
                Some(h) => match selected_commit(h@) {
                    Some(c) => r matches Some(e) && entry_view(e) == c,
                    None => r is None,
                },
                None => r is None,
            },
    {
        match &self.history {
            Some(h) => match h.selected() {
                Some(e) => Some(copy_commit(e)),
                None => None,
            },
            None => None,
        }
    }

    /// The picked commit: the lens's path and the commit's full sha.
    pub fn history_pick(&self) -> (r: Option<(String, String)>)
        ensures
            match self.history {
                Some(h) => match selected_commit(h@) {
                    Some(c) => r matches Some((p, s)) && p@ == h@.path && s@ == c.0,
                    None => r is None,
                },
                None => r is None,
            },
    {
        match &self.history {
            Some(h) => h.pick(),
            None => None,
        }
    }
}

/// The margin of a blamed file of `lines` lines: each run marks its
/// first line (1-based, clamped at line 1) with the run's first seven
/// sha chars and author, a later run overwriting an earlier one on the
/// same line; every other line has no mark.
pub open spec fn spec_marks(ranges: Seq<BlameRange>, lines: nat) -> Seq<Option<(Seq<char>, Seq<char>)>>
    decreases ranges.len(),
{
    if ranges.len() == 0 {
        Seq::new(lines, |i: int| None)
    } else {
        let prev = spec_marks(ranges.drop_last(), lines);
        let r = ranges.last();
        let start = if r.start_line >= 1 {
            r.start_line - 1
        } else {
            0
        };
        if start < lines {
            prev.update(start, Some((crate::components::global_search::rank::first_n(r.sha@, 7), r.author@)))
        } else {
            prev
        }
    }
}

pub open spec fn marks_view(v: Seq<Option<BlameMark>>) -> Seq<Option<(Seq<char>, Seq<char>)>> {
    v.map_values(|m: Option<BlameMark>| match m {
        Some(b) => Some((b.sha@, b.author@)),
        None => None,
    })
}

/// The margin marks for a blamed file.
pub fn blame_marks(ranges: &Vec<BlameRange>, lines: usize) -> (r: Vec<Option<BlameMark>>)
    ensures
        marks_view(r@) == spec_marks(ranges@, lines as nat),
{
    let mut marks: Vec<Option<BlameMark>> = Vec::new();
    let mut k: usize = 0;
    while k < lines
        invariant
            k <= lines,
            marks_view(marks@) == Seq::new(k as nat, |i: int| None::<(Seq<char>, Seq<char>)>),
        decreases lines - k,
    {
        let ghost before = marks@;
        marks.push(None);
        assert(marks_view(marks@) =~= marks_view(before).push(None));
        k += 1;
        assert(marks_view(marks@) =~= Seq::new(k as nat, |i: int| None::<(Seq<char>, Seq<char>)>));
    }
    let mut j: usize = 0;
    while j < ranges.len()
        invariant
            j <= ranges@.len(),
            marks_view(marks@) == spec_marks(ranges@.take(j as int), lines as nat),
            marks@.len() == lines,
        decreases ranges.len() - j,
    {
        assert(ranges@.take(j + 1).drop_last() =~= ranges@.take(j as int));
        let r = &ranges[j];
        let start: usize = if r.start_line >= 1 { (r.start_line - 1) as usize } else { 0 };
        if start < lines {
            let cs = chars_of(r.sha.as_str());
            let n = if cs.len() < 7 { cs.len() } else { 7 };
            let short = crate::text::string_of(crate::text::slice_chars(cs.as_slice(), 0, n).as_slice());
            assert(short@ =~= crate::components::global_search::rank::first_n(r.sha@, 7));
            let ghost before = marks@;
            marks.set(start, Some(BlameMark { sha: short, author: r.author.clone() }));
            assert(marks_view(marks@) =~= marks_view(before).update(
                start as int,
                Some((crate::components::global_search::rank::first_n(r.sha@, 7), r.author@)),
            ));
        }
        j += 1;
    }
    assert(ranges@.take(ranges@.len() as int) =~= ranges@);
    marks
}

/// The run holds `line`.
pub open spec fn covers(r: BlameRange, line: int) -> bool {
    r.start_line <= line <= r.end_line
}

/// The commit that last touched `line` (1-based): the first run whose
/// lines hold it.
pub open spec fn spec_line_sha(ranges: Seq<BlameRange>, line: int) -> Option<Seq<char>> {
    if exists|i: int| 0 <= i < ranges.len() && #[trigger] covers(ranges[i], line) {
        let i = choose|i: int|
            0 <= i < ranges.len() && #[trigger] covers(ranges[i], line) && forall|k: int|
                0 <= k < i ==> !covers(ranges[k], line);
        Some(ranges[i].sha@)
    } else {
        None
    }
}

/// The sha the margin names for `line`.
pub fn line_sha(ranges: &Vec<BlameRange>, line: usize) -> (r: Option<String>)
    ensures
        match r {
            Some(s) => spec_line_sha(ranges@, line as int) == Some(s@),
            None => spec_line_sha(ranges@, line as int) is None,
        },
{
    let mut i: usize = 0;
    while i < ranges.len()
        invariant
            i <= ranges@.len(),
            forall|k: int| 0 <= k < i ==> !covers(#[trigger] ranges@[k], line as int),
        decreases ranges.len() - i,
    {
        let r = &ranges[i];
        if r.start_line as usize <= line && line <= r.end_line as usize {
            proof {
                assert(covers(ranges@[i as int], line as int));
                let c = choose|c: int|
                    0 <= c < ranges@.len() && #[trigger] covers(ranges@[c], line as int) && forall|k: int|
                        0 <= k < c ==> !covers(ranges@[k], line as int);
                if c < i {
                    assert(!covers(ranges@[c], line as int));
                }
                if c > i {
                    assert(covers(ranges@[i as int], line as int));
                }
            }
            return Some(r.sha.clone());
        }
        i += 1;
    }
    None
}

} // verus!
