//! The search view's result state: hits streaming in batches (a batch's
//! hit for a file already listed merges into that file's block; past
//! the render cap hits are only counted), the final result and what the
//! results title reports, failures, and lazily landed hit context.
use crate::action::Action;
use crate::app::provider_status;
use crate::components::global_search::model::{merged_into, rows_view, SearchHit, SearchKind};
use crate::text::{str_is, views};
use vstd::prelude::*;

verus! {

/// Where a URL yank of the search context points: a file of a repo on a
/// branch, anchored at a line (or a range of lines).
pub struct YankTarget {
    pub repo: String,
    pub path: String,
    pub branch: String,
    pub line: Option<u32>,
    pub end: Option<u32>,
}

/// The search view's results.
pub struct SearchView {
    /// What the view searches: files or content.
    pub kind: SearchKind,
    /// Hits kept, one block per file.
    pub hits: Vec<SearchHit>,
    /// Most hits kept from a streamed search.
    pub cap: usize,
    /// Selected hit.
    pub selected: usize,
    pub scroll: u16,
    pub pending: bool,
    pub error: Option<String>,
    pub submitted_once: bool,
    /// The result set is incomplete.
    pub clipped: bool,
    /// Streamed hits past the cap, counted.
    pub dropped: usize,
    /// When the provider's index was built.
    pub index_as_of: Option<String>,
    /// Hits the client-side grammar filter subtracted.
    pub client_filtered: usize,
    /// Query tokens no backend could express.
    pub unfiltered: Vec<String>,
}

/// Where the first hit of the file (`repo`, `path`) is.
pub open spec fn block_of(hits: Seq<SearchHit>, repo: Seq<char>, path: Seq<char>) -> Option<int>
    decreases hits.len(),
{
    if hits.len() == 0 {
        None
    } else if hits[0].repo@ == repo && hits[0].path@ == path {
        Some(0)
    } else {
        match block_of(hits.skip(1), repo, path) {
            Some(i) => Some(i + 1),
            None => None,
        }
    }
}

/// One streamed hit arriving: counted when the cap is reached, merged
/// into its file's block when there is one, appended otherwise.
pub open spec fn one_added(
    h: Seq<SearchHit>,
    d: int,
    x: SearchHit,
    cap: int,
    h2: Seq<SearchHit>,
    d2: int,
) -> bool {
    if h.len() >= cap {
        h2 == h && d2 == d + 1
    } else {
        &&& d2 == d
        &&& match block_of(h, x.repo@, x.path@) {
            Some(i) => h2.len() == h.len() && merged_into(h[i], x, h2[i]) && forall|j: int|
                0 <= j < h.len() && j != i ==> #[trigger] h2[j] == h[j],
            None => h2 == h.push(x),
        }
    }
}

/// The states a streamed batch passes through, hit by hit: `hs[i]` and
/// `ds[i]` before the `i`-th hit arrives.
pub open spec fn passes_through(
    hs: Seq<Seq<SearchHit>>,
    ds: Seq<int>,
    batch: Seq<SearchHit>,
    cap: int,
) -> bool {
    &&& hs.len() == batch.len() + 1
    &&& ds.len() == batch.len() + 1
    &&& forall|i: int|
        0 <= i < batch.len() ==> one_added(#[trigger] hs[i], ds[i], batch[i], cap, hs[i + 1], ds[i + 1])
}

/// A streamed batch arriving, hit by hit.
pub open spec fn appended(
    h: Seq<SearchHit>,
    d: int,
    batch: Seq<SearchHit>,
    cap: int,
    h2: Seq<SearchHit>,
    d2: int,
) -> bool {
    exists|hs: Seq<Seq<SearchHit>>, ds: Seq<int>|
        #[trigger] passes_through(hs, ds, batch, cap) && hs[0] == h && ds[0] == d && hs.last() == h2 && ds.last()
            == d2
}

/// The selection clamped into `len` rows.
pub open spec fn clamped_to(selected: int, len: int) -> int {
    if len == 0 {
        0
    } else if selected >= len {
        len - 1
    } else {
        selected
    }
}

/// A hit as its context landing leaves it: located, not stale.
pub open spec fn context_landed(h: SearchHit, line: u32, preview: Seq<(u32, Seq<char>)>, match_count: u32, g: SearchHit) -> bool {
    &&& g == (SearchHit { line, preview: g.preview, match_count, stale: false, ..h })
    &&& rows_view(g.preview@) == preview
}

/// The first hit of the file `repo`/`path` at blob `sha`.
pub open spec fn hit_of(hits: Seq<SearchHit>, repo: Seq<char>, path: Seq<char>, sha: Seq<char>) -> Option<int>
    decreases hits.len(),
{
    if hits.len() == 0 {
        None
    } else if hits[0].repo@ == repo && hits[0].path@ == path && hits[0].sha@ == sha {
        Some(0)
    } else {
        match hit_of(hits.skip(1), repo, path, sha) {
            Some(i) => Some(i + 1),
            None => None,
        }
    }
}

/// `b` is the view `a` after `update(action)`.
pub open spec fn view_after(a: SearchView, b: SearchView, action: Action) -> bool {
    match action {
        Action::GlobalSearchSubmitted { .. } => {
            &&& b.submitted_once && b.pending && b.error is None
            &&& b.hits@.len() == 0 && b.dropped == 0 && !b.clipped && b.index_as_of is None
            &&& b.client_filtered == 0 && b.unfiltered@.len() == 0
            &&& b.selected == 0 && b.scroll == 0 && b.cap == a.cap && b.kind == a.kind
        },
        Action::GlobalSearchDelta { hits } => {
            &&& b == (SearchView { hits: b.hits, dropped: b.dropped, selected: b.selected, ..a })
            &&& appended(a.hits@, a.dropped as int, hits@, a.cap as int, b.hits@, b.dropped as int)
            &&& b.selected == clamped_to(a.selected as int, b.hits@.len() as int)
        },
        Action::GlobalSearchResults { hits, clipped, index, client_filtered, unfiltered } => {
            &&& !b.pending
            &&& b.clipped == (clipped || a.dropped > 0)
            &&& b.index_as_of == index
            &&& b.client_filtered == client_filtered
            &&& views(b.unfiltered@) == views(unfiltered@)
            &&& if hits@.len() > 0 {
                &&& b.hits@ == hits@ && b.dropped == 0 && b.scroll == 0
                &&& b.selected == clamped_to(0, hits@.len() as int)
            } else {
                &&& b.hits == a.hits && b.dropped == a.dropped && b.scroll == a.scroll
                &&& b.selected == clamped_to(a.selected as int, a.hits@.len() as int)
            }
            &&& b.error == a.error && b.submitted_once == a.submitted_once && b.cap == a.cap && b.kind == a.kind
        },
        Action::GlobalSearchFailed { error } => {
            &&& b == (SearchView { pending: false, error: b.error, hits: b.hits, ..a })
            &&& b.hits@.len() == 0
            &&& b.error matches Some(e) && crate::components::search_popup::provider_status_of(error, e)
        },
        Action::HitContextLoaded { repo, path, sha, line, preview, match_count } => {
            &&& b == (SearchView { hits: b.hits, ..a })
            &&& match hit_of(a.hits@, repo@, path@, sha@) {
                Some(i) => if preview@.len() > 0 {
                    &&& b.hits@.len() == a.hits@.len()
                    &&& context_landed(a.hits@[i], line, rows_view(preview@), match_count, b.hits@[i])
                    &&& forall|j: int| 0 <= j < a.hits@.len() && j != i ==> #[trigger] b.hits@[j] == a.hits@[j]
                } else {
                    b.hits@ == a.hits@
                },
                None => b.hits@ == a.hits@,
            }
        },
        Action::HitContextMissing { sha } => {
            &&& b == (SearchView { hits: b.hits, ..a })
            &&& b.hits@.len() == a.hits@.len()
            &&& forall|j: int|
                0 <= j < a.hits@.len() ==> #[trigger] b.hits@[j] == (if a.hits@[j].sha@ == sha@ {
                    SearchHit { stale: false, unlocatable: true, ..a.hits@[j] }
                } else {
                    a.hits@[j]
                })
        },
        _ => b == a,
    }
}

/// Where the block of the file (`repo`, `path`) is.
fn find_block(hits: &Vec<SearchHit>, repo: &str, path: &str) -> (r: Option<usize>)
    ensures
        match r {
            Some(i) => block_of(hits@, repo@, path@) == Some(i as int) && i < hits@.len(),
            None => block_of(hits@, repo@, path@) is None,
        },
{
    let mut i: usize = 0;
    assert(hits@.skip(0) =~= hits@);
    while i < hits.len()
        invariant
            i <= hits@.len(),
            match block_of(hits@.skip(i as int), repo@, path@) {
                Some(j) => block_of(hits@, repo@, path@) == Some(j + i),
                None => block_of(hits@, repo@, path@) is None,
            },
        decreases hits.len() - i,
    {
        assert(hits@.skip(i as int)[0] == hits@[i as int]);
        if str_is(hits[i].repo.as_str(), repo) && str_is(hits[i].path.as_str(), path) {
            return Some(i);
        }
        assert(hits@.skip(i as int).skip(1) =~= hits@.skip(i + 1));
        i += 1;
    }
    None
}

/// Where the hit of the file `repo`/`path` at `sha` is.
fn find_hit(hits: &Vec<SearchHit>, repo: &str, path: &str, sha: &str) -> (r: Option<usize>)
    ensures
        match r {
            Some(i) => hit_of(hits@, repo@, path@, sha@) == Some(i as int) && i < hits@.len(),
            None => hit_of(hits@, repo@, path@, sha@) is None,
        },
{
    let mut i: usize = 0;
    assert(hits@.skip(0) =~= hits@);
    while i < hits.len()
        invariant
            i <= hits@.len(),
            match hit_of(hits@.skip(i as int), repo@, path@, sha@) {
                Some(j) => hit_of(hits@, repo@, path@, sha@) == Some(j + i),
                None => hit_of(hits@, repo@, path@, sha@) is None,
            },
        decreases hits.len() - i,
    {
        assert(hits@.skip(i as int)[0] == hits@[i as int]);
        if str_is(hits[i].repo.as_str(), repo) && str_is(hits[i].path.as_str(), path) && str_is(
            hits[i].sha.as_str(),
            sha,
        ) {
            return Some(i);
        }
        assert(hits@.skip(i as int).skip(1) =~= hits@.skip(i + 1));
        i += 1;
    }
    None
}

impl SearchView {
    /// The yank target of the selected hit: its file on its branch,
    /// anchored at its line; none without hits.
    pub fn yank_target(&self) -> (r: Option<YankTarget>)
        ensures
            self.selected < self.hits@.len() ==> (r matches Some(t) && ({
                let h = self.hits@[self.selected as int];
                t.repo@ == h.repo@ && t.path@ == h.path@ && t.branch@ == h.branch@ && t.line == Some(h.line)
                    && t.end is None
            })),
            self.selected >= self.hits@.len() ==> r is None,
    {
        if self.selected >= self.hits.len() {
            return None;
        }
        let h = &self.hits[self.selected];
        Some(YankTarget {
            repo: h.repo.clone(),
            path: h.path.clone(),
            branch: h.branch.clone(),
            line: Some(h.line),
            end: None,
        })
    }

    /// An empty view of `kind` keeping at most `cap` streamed hits.
    pub fn new(kind: SearchKind, cap: usize) -> (r: Self)
        ensures
            r.kind == kind && r.hits@.len() == 0 && r.cap == cap && r.selected == 0 && r.scroll == 0 && !r.pending && r.error is None
                && !r.submitted_once && !r.clipped && r.dropped == 0 && r.index_as_of is None && r.client_filtered
                == 0 && r.unfiltered@.len() == 0,
    {
        SearchView {
            kind,
            hits: Vec::new(),
            cap,
            selected: 0,
            scroll: 0,
            pending: false,
            error: None,
            submitted_once: false,
            clipped: false,
            dropped: 0,
            index_as_of: None,
            client_filtered: 0,
            unfiltered: Vec::new(),
        }
    }

    fn clamp_selection(&mut self)
        ensures
            *final(self) == (SearchView { selected: final(self).selected, ..*old(self) }),
            final(self).selected == clamped_to(old(self).selected as int, old(self).hits@.len() as int),
    {
        let len = self.hits.len();
        if len == 0 {
            self.selected = 0;
        } else if self.selected >= len {
            self.selected = len - 1;
        }
    }

    /// One streamed hit.
    fn add_one(&mut self, hit: SearchHit)
        requires
            old(self).dropped < usize::MAX,
        ensures
            *final(self) == (SearchView { hits: final(self).hits, dropped: final(self).dropped, ..*old(self) }),
            one_added(
                old(self).hits@,
                old(self).dropped as int,
                hit,
                old(self).cap as int,
                final(self).hits@,
                final(self).dropped as int,
            ),
    {
        if self.hits.len() >= self.cap {
            self.dropped = self.dropped + 1;
            return;
        }
        match find_block(&self.hits, hit.repo.as_str(), hit.path.as_str()) {
            Some(i) => {
                let ghost before = self.hits@;
                self.hits[i].merge(hit);
                assert forall|j: int| 0 <= j < before.len() && j != i implies #[trigger] self.hits@[j] == before[j] by {}
            },
            None => {
                self.hits.push(hit);
            },
        }
    }

    /// A streamed batch: each hit merges into its file's block or is
    /// appended; past the cap hits are counted. The selection is
    /// clamped to what is kept.
    #[verifier::spinoff_prover]
    pub fn append_hits(&mut self, hits: Vec<SearchHit>)
        requires
            old(self).dropped + hits@.len() <= usize::MAX,
        ensures
            *final(self) == (SearchView {
                hits: final(self).hits,
                dropped: final(self).dropped,
                selected: final(self).selected,
                ..*old(self)
            }),
            appended(
                old(self).hits@,
                old(self).dropped as int,
                hits@,
                old(self).cap as int,
                final(self).hits@,
                final(self).dropped as int,
            ),
            final(self).selected == clamped_to(old(self).selected as int, final(self).hits@.len() as int),
    {
        let mut k: usize = 0;
        let mut batch = hits;
        let ghost all = batch@;
        let ghost mut hs: Seq<Seq<SearchHit>> = seq![self.hits@];
        let ghost mut ds: Seq<int> = seq![self.dropped as int];
        while batch.len() > 0
            invariant
                k + batch@.len() == all.len(),
                batch@ == all.skip(k as int),
                self.dropped <= old(self).dropped + k,
                old(self).dropped + all.len() <= usize::MAX,
                *self == (SearchView { hits: self.hits, dropped: self.dropped, ..*old(self) }),
                passes_through(hs, ds, all.take(k as int), old(self).cap as int),
                hs[0] == old(self).hits@,
                ds[0] == old(self).dropped as int,
                hs.last() == self.hits@,
                ds.last() == self.dropped as int,
            decreases batch.len(),
        {
            let x = batch.remove(0);
            assert(x == all[k as int]);
            let ghost h1 = self.hits@;
            let ghost d1 = self.dropped as int;
            self.add_one(x);
            proof {
                let hs2 = hs.push(self.hits@);
                let ds2 = ds.push(self.dropped as int);
                assert forall|i: int| 0 <= i < k + 1 implies one_added(
                    #[trigger] hs2[i],
                    ds2[i],
                    all.take(k + 1)[i],
                    old(self).cap as int,
                    hs2[i + 1],
                    ds2[i + 1],
                ) by {
                    if i < k {
                        assert(hs2[i] == hs[i] && hs2[i + 1] == hs[i + 1] && ds2[i] == ds[i] && ds2[i + 1] == ds[i + 1]);
                        assert(all.take(k + 1)[i] == all.take(k as int)[i]);
                        assert(one_added(hs[i], ds[i], all.take(k as int)[i], old(self).cap as int, hs[i + 1], ds[i + 1]));
                    } else {
                        assert(hs2[i] == h1 && ds2[i] == d1);
                        assert(all.take(k + 1)[i] == x);
                    }
                }
                hs = hs2;
                ds = ds2;
            }
            k += 1;
            assert(batch@ =~= all.skip(k as int));
        }
        assert(all.take(all.len() as int) =~= all);
        self.clamp_selection();
    }

    /// The outcome of a search, or a hit's context, landing in the view.
    pub fn update(&mut self, action: Action)
        requires
            action matches Action::GlobalSearchDelta { hits } ==> old(self).dropped + hits@.len() <= usize::MAX,
        ensures
            view_after(*old(self), *final(self), action),
    {
        match action {
            Action::GlobalSearchSubmitted { .. } => {
                self.submitted_once = true;
                self.pending = true;
                self.error = None;
                self.hits = Vec::new();
                self.dropped = 0;
                self.clipped = false;
                self.index_as_of = None;
                self.client_filtered = 0;
                self.unfiltered = Vec::new();
                self.selected = 0;
                self.scroll = 0;
            },
            Action::GlobalSearchDelta { hits } => {
                self.append_hits(hits);
            },
            Action::GlobalSearchResults { hits, clipped, index, client_filtered, unfiltered } => {
                self.pending = false;
                self.clipped = clipped || self.dropped > 0;
                self.index_as_of = index;
                self.client_filtered = client_filtered;
                self.unfiltered = unfiltered;
                if hits.len() > 0 {
                    self.hits = hits;
                    self.dropped = 0;
                    self.selected = 0;
                    self.scroll = 0;
                }
                self.clamp_selection();
            },
            Action::GlobalSearchFailed { error } => {
                self.pending = false;
                let e = provider_status(&error);
                assert(crate::components::search_popup::provider_status_of(error, e));
                self.error = Some(e);
                self.hits = Vec::new();
            },
            Action::HitContextLoaded { repo, path, sha, line, preview, match_count } => {
                match find_hit(&self.hits, repo.as_str(), path.as_str(), sha.as_str()) {
                    Some(i) => {
                        if preview.len() > 0 {
                            let ghost before = self.hits@;
                            self.hits[i].line = line;
                            self.hits[i].preview = preview;
                            self.hits[i].match_count = match_count;
                            self.hits[i].stale = false;
                            assert forall|j: int| 0 <= j < before.len() && j != i implies #[trigger] self.hits@[j] == before[j] by {}
                        }
                    },
                    None => {},
                }
            },
            Action::HitContextMissing { sha } => {
                let ghost before = self.hits@;
                let mut j: usize = 0;
                while j < self.hits.len()
                    invariant
                        j <= self.hits@.len(),
                        self.hits@.len() == before.len(),
                        *self == (SearchView { hits: self.hits, ..*old(self) }),
                        before == old(self).hits@,
                        forall|m: int|
                            0 <= m < j ==> #[trigger] self.hits@[m] == (if before[m].sha@ == sha@ {
                                SearchHit { stale: false, unlocatable: true, ..before[m] }
                            } else {
                                before[m]
                            }),
                        forall|m: int| j <= m < before.len() ==> #[trigger] self.hits@[m] == before[m],
                    decreases self.hits.len() - j,
                {
                    if str_is(self.hits[j].sha.as_str(), sha.as_str()) {
                        self.hits[j].stale = false;
                        self.hits[j].unlocatable = true;
                    }
                    j += 1;
                }
            },
            _ => {},
        }
    }
}

} // verus!
