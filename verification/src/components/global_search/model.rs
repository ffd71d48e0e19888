//! Search data model: kinds, scopes, and the raw hit shape shared by
//! the view, the backend, and the mock producer.
use crate::text::{join_char, join_with_char, views};
use vstd::utf8::encode_utf8;
use vstd::prelude::*;

verus! {

#[derive(Debug, Clone, Copy, PartialEq, Eq, Structural)]
pub enum SearchKind {
    FileFind,
    Grep,
}

impl SearchKind {
    /// The results box title.
    pub fn title(self) -> (r: &'static str)
        ensures
            self == SearchKind::FileFind ==> r@ == " find file "@,
            self == SearchKind::Grep ==> r@ == " grep "@,
    {
        match self {
            SearchKind::FileFind => " find file ",
            SearchKind::Grep => " grep ",
        }
    }

    /// Cache-edit slug for materialized mock files.
    pub fn slug(self) -> (r: &'static str)
        ensures
            self == SearchKind::FileFind ==> r@ == "find"@,
            self == SearchKind::Grep ==> r@ == "grep"@,
    {
        match self {
            SearchKind::FileFind => "find",
            SearchKind::Grep => "grep",
        }
    }
}

#[derive(Debug, Clone, Copy, PartialEq, Eq, Structural)]
pub enum Scope {
    /// The repo currently open in the browser.
    Repo,
    /// The org selected in the browser's top level.
    Org,
    /// Everything the provider indexes.
    Global,
}

/// The persisted name of a scope.
pub open spec fn stored_name(s: Scope) -> Seq<char> {
    match s {
        Scope::Repo => "repo"@,
        Scope::Org => "org"@,
        Scope::Global => "global"@,
    }
}

impl Scope {
    /// Persisted form in state.json.
    pub fn stored(self) -> (r: &'static str)
        ensures
            r@ == stored_name(self),
    {
        match self {
            Scope::Repo => "repo",
            Scope::Org => "org",
            Scope::Global => "global",
        }
    }

    /// The scope a persisted name stands for.
    pub fn from_stored(s: &str) -> (r: Option<Scope>)
        ensures
            r == spec_from_stored(s@),
    {
        if crate::text::str_is(s, "repo") {
            Some(Scope::Repo)
        } else if crate::text::str_is(s, "org") {
            Some(Scope::Org)
        } else if crate::text::str_is(s, "global") {
            Some(Scope::Global)
        } else {
            None
        }
    }
}

/// The scope a persisted name stands for, if any.
pub open spec fn spec_from_stored(s: Seq<char>) -> Option<Scope> {
    if s == "repo"@ {
        Some(Scope::Repo)
    } else if s == "org"@ {
        Some(Scope::Org)
    } else if s == "global"@ {
        Some(Scope::Global)
    } else {
        None
    }
}

/// Reading a stored scope name back gives the same scope.
pub proof fn lemma_stored_round_trip(s: Scope)
    ensures
        spec_from_stored(stored_name(s)) == Some(s),
{
    reveal_strlit("repo");
    reveal_strlit("org");
    reveal_strlit("global");
    assert("org"@ != "repo"@) by {
        assert("org"@[0] != "repo"@[0]);
    }
    assert("global"@ != "repo"@) by {
        assert("global"@[0] != "repo"@[0]);
    }
    assert("global"@ != "org"@) by {
        assert("global"@[0] != "org"@[0]);
    }
}

/// Raw backend result — converted to a styled hit on the UI thread.
#[derive(Debug, Clone, PartialEq, Eq)]
pub struct RawHit {
    pub repo: String,
    pub path: String,
    pub sha: String,
    pub branch: String,
    pub line: u32,
    pub preview: Vec<(u32, String)>,
    pub match_count: u32,
    /// The provider knows its index is stale for this hit.
    pub stale: bool,
}

/// Preview rows as (line number, text).
pub open spec fn rows_view(v: Seq<(u32, String)>) -> Seq<(u32, Seq<char>)> {
    v.map_values(|e: (u32, String)| (e.0, e.1@))
}

/// The abstract hit.
pub struct HitView {
    pub repo: Seq<char>,
    pub path: Seq<char>,
    pub sha: Seq<char>,
    pub branch: Seq<char>,
    pub line: u32,
    pub preview: Seq<(u32, Seq<char>)>,
    pub match_count: u32,
    pub stale: bool,
}

impl View for RawHit {
    type V = HitView;

    open spec fn view(&self) -> HitView {
        HitView {
            repo: self.repo@,
            path: self.path@,
            sha: self.sha@,
            branch: self.branch@,
            line: self.line,
            preview: rows_view(self.preview@),
            match_count: self.match_count,
            stale: self.stale,
        }
    }
}

/// The views of a list of hits.
pub open spec fn hits_view(v: Seq<RawHit>) -> Seq<HitView> {
    v.map_values(|h: RawHit| h@)
}

/// The preview texts of a hit.
pub open spec fn preview_texts(p: Seq<(u32, String)>) -> Seq<Seq<char>> {
    p.map_values(|e: (u32, String)| e.1@)
}

/// The radio walk from index `idx`: step by `delta` (wrapping, as
/// `rem_euclid` does) at most `left` times, stopping on the first
/// enabled row; `from` when none is.
pub open spec fn scan_enabled(items: Seq<(Scope, bool)>, idx: int, delta: int, left: nat, from: int) -> int
    decreases left,
{
    if left == 0 {
        from
    } else {
        let j = (idx + delta) % (items.len() as int);
        if items[j].1 {
            j
        } else {
            scan_enabled(items, j, delta, (left - 1) as nat, from)
        }
    }
}

/// The next enabled radio row from `from` in direction `delta`,
/// wrapping; `from` itself when no row is enabled.
pub open spec fn spec_next_enabled(items: Seq<(Scope, bool)>, from: usize, delta: i32) -> int {
    scan_enabled(items, (from as i32) as int, delta as int, items.len(), from as int)
}

/// Next enabled radio index, wrapping; skips disabled rows.
pub fn next_enabled(items: &[(Scope, bool)], from: usize, delta: i32) -> (r: usize)
    requires
        items@.len() <= i32::MAX,
        i32::MIN <= (from as i32) + delta <= i32::MAX,
        items@.len() > 0 ==> items@.len() - 1 + delta <= i32::MAX,
    ensures
        r == spec_next_enabled(items@, from, delta),
{
    let len = items.len() as i32;
    let mut idx = from as i32;
    let mut k: i32 = 0;
    while k < len
        invariant
            0 <= k <= len,
            len == items@.len(),
            k > 0 ==> 0 <= idx < len,
            k == 0 ==> idx == (from as i32),
            i32::MIN <= (from as i32) + delta <= i32::MAX,
            items@.len() > 0 ==> items@.len() - 1 + delta <= i32::MAX,
            scan_enabled(items@, idx as int, delta as int, (len - k) as nat, from as int) == spec_next_enabled(
                items@,
                from,
                delta,
            ),
        decreases len - k,
    {
        let s = idx + delta;
        idx = match s.checked_rem_euclid(len) {
            Some(v) => v,
            None => return from,
        };
        if items[idx as usize].1 {
            return idx as usize;
        }
        k += 1;
    }
    from
}

/// One result block: the full path and its preview rows (line number,
/// text). Matches in one file fold into a single block; `match_count`
/// is the badge next to the path (0 = path match or unknown). `body` is
/// the file content to open when no blob sha is known. The preview is
/// held as plain text; the renderer styles it.
#[derive(Debug, Clone, PartialEq, Eq)]
pub struct SearchHit {
    pub repo: String,
    pub path: String,
    pub sha: String,
    pub branch: String,
    pub line: u32,
    pub preview: Vec<(u32, String)>,
    pub match_count: u32,
    pub body: String,
    /// The provider flagged the placement stale.
    pub stale: bool,
    /// The blob was fetched but the match text is not in it.
    pub unlocatable: bool,
}

/// The first row numbered `no` in `rows`, if any.
pub open spec fn first_numbered(rows: Seq<(u32, Seq<char>)>, no: u32) -> Option<(u32, Seq<char>)>
    decreases rows.len(),
{
    if rows.len() == 0 {
        None
    } else if rows[0].0 == no {
        Some(rows[0])
    } else {
        first_numbered(rows.skip(1), no)
    }
}

/// Rows in strictly increasing line order.
pub open spec fn strictly_numbered(rows: Seq<(u32, Seq<char>)>) -> bool {
    forall|i: int, j: int| 0 <= i < j < rows.len() ==> rows[i].0 < rows[j].0
}

/// `rows` sorted by line number with one row per number: for each
/// number, the first row of `all` carrying it (what a stable sort by
/// number followed by a dedup by number keeps).
pub open spec fn union_by_number(rows: Seq<(u32, Seq<char>)>, all: Seq<(u32, Seq<char>)>) -> bool {
    &&& strictly_numbered(rows)
    &&& forall|i: int| 0 <= i < rows.len() ==> first_numbered(all, #[trigger] rows[i].0) == Some(rows[i])
    &&& forall|j: int| 0 <= j < all.len() ==> has_number(rows, #[trigger] all[j].0)
}

/// Some row carries line number `n`.
pub open spec fn has_number(rows: Seq<(u32, Seq<char>)>, n: u32) -> bool {
    exists|i: int| 0 <= i < rows.len() && #[trigger] rows[i].0 == n
}

/// `b` is hit `a` with the same file's `later` hit merged in.
pub open spec fn merged_into(a: SearchHit, later: SearchHit, b: SearchHit) -> bool {
    &&& b.repo == a.repo
    &&& b.path == a.path
    &&& b.sha == later.sha
    &&& b.branch == later.branch
    &&& b.line == (if later.line > 0 && (a.line == 0 || later.line < a.line) {
                later.line
            } else {
                a.line
            })
    &&& b.match_count == (if a.match_count + later.match_count > u32::MAX {
                u32::MAX as int
            } else {
                a.match_count + later.match_count
            })
    &&& union_by_number(rows_view(b.preview@), rows_view(a.preview@) + rows_view(later.preview@))
    &&& b.stale == (a.stale && later.stale)
    &&& b.unlocatable == (a.unlocatable && later.unlocatable)
    &&& b.body == (if encode_utf8(later.body@).len() > encode_utf8(a.body@).len() {
                later.body
            } else {
                a.body
            })
}

impl SearchHit {
    /// An unlocated hit without a sha (the mock producer's shape).
    pub fn plain(repo: &str, path: &str, line: u32, preview: Vec<(u32, String)>, match_count: u32, body: String) -> (r: Self)
        ensures
            r.repo@ == repo@,
            r.path@ == path@,
            r.sha@.len() == 0,
            r.branch@ == "main"@,
            r.line == line,
            r.preview == preview,
            r.match_count == match_count,
            r.body == body,
            !r.stale,
            !r.unlocatable,
    {
        SearchHit {
            repo: repo.to_owned(),
            path: path.to_owned(),
            sha: String::new(),
            branch: "main".to_owned(),
            line,
            preview,
            match_count,
            body,
            stale: false,
            unlocatable: false,
        }
    }

    /// A backend hit as a result block (no body).
    pub fn from_raw(raw: RawHit) -> (r: Self)
        ensures
            r.repo == raw.repo,
            r.path == raw.path,
            r.sha == raw.sha,
            r.branch == raw.branch,
            r.line == raw.line,
            r.preview == raw.preview,
            r.match_count == raw.match_count,
            r.body@.len() == 0,
            r.stale == raw.stale,
            !r.unlocatable,
    {
        SearchHit {
            repo: raw.repo,
            path: raw.path,
            sha: raw.sha,
            branch: raw.branch,
            line: raw.line,
            preview: raw.preview,
            match_count: raw.match_count,
            body: String::new(),
            stale: raw.stale,
            unlocatable: false,
        }
    }

    /// The preview text, one line per row.
    pub fn preview_text(&self) -> (r: String)
        ensures
            r@ == join_char(preview_texts(self.preview@), '\n'),
    {
        let mut texts: Vec<String> = Vec::new();
        let mut i: usize = 0;
        while i < self.preview.len()
            invariant
                i <= self.preview@.len(),
                views(texts@) == preview_texts(self.preview@).take(i as int),
            decreases self.preview.len() - i,
        {
            let ghost before = views(texts@);
            texts.push(self.preview[i].1.clone());
            assert(views(texts@) =~= before.push(self.preview@[i as int].1@));
            i += 1;
            assert(views(texts@) =~= preview_texts(self.preview@).take(i as int));
        }
        assert(preview_texts(self.preview@).take(self.preview@.len() as int) =~= preview_texts(self.preview@));
        join_with_char(&texts, '\n')
    }

    /// Fold a later hit for the same file into this one: the previews
    /// unite (sorted, one row per line number, the earlier row winning),
    /// the badges add up (saturating), the later sha and branch win, the
    /// smaller known line wins, staleness and unlocatability survive
    /// only where both agree, and the longer body (in bytes) is kept.
    pub fn merge(&mut self, later: SearchHit)
        ensures
            merged_into(*old(self), later, *final(self)),
    {
        self.sha = later.sha;
        self.branch = later.branch;
        if later.line > 0 && (self.line == 0 || later.line < self.line) {
            self.line = later.line;
        }
        self.match_count = self.match_count.saturating_add(later.match_count);
        self.preview = union_rows(&self.preview, &later.preview);
        self.stale = self.stale && later.stale;
        self.unlocatable = self.unlocatable && later.unlocatable;
        if later.body.as_str().as_bytes().len() > self.body.as_str().as_bytes().len() {
            self.body = later.body;
        }
    }
}

/// Adding a row at the end: an earlier row with the number still wins.
proof fn lemma_first_numbered_push(s: Seq<(u32, Seq<char>)>, x: (u32, Seq<char>), n: u32)
    ensures
        first_numbered(s.push(x), n) == (match first_numbered(s, n) {
            Some(r) => Some(r),
            None => if x.0 == n {
                Some(x)
            } else {
                None
            },
        }),
    decreases s.len(),
{
    let t = s.push(x);
    if s.len() > 0 {
        assert(t[0] == s[0]);
        assert(t.skip(1) =~= s.skip(1).push(x));
        lemma_first_numbered_push(s.skip(1), x, n);
        if s[0].0 != n {
            assert(first_numbered(t, n) == first_numbered(t.skip(1), n));
            assert(first_numbered(s, n) == first_numbered(s.skip(1), n));
        }
    } else {
        assert(t[0] == x);
        assert(t.skip(1) =~= Seq::<(u32, Seq<char>)>::empty());
        assert(first_numbered(t.skip(1), n) is None);
    }
}

/// No row carries the number exactly when nothing is found for it.
proof fn lemma_first_numbered_none(s: Seq<(u32, Seq<char>)>, n: u32)
    ensures
        first_numbered(s, n) is None <==> forall|j: int| 0 <= j < s.len() ==> s[j].0 != n,
        first_numbered(s, n) matches Some(r) ==> r.0 == n,
    decreases s.len(),
{
    if s.len() > 0 {
        lemma_first_numbered_none(s.skip(1), n);
        assert forall|j: int| 0 <= j < s.len() - 1 implies s.skip(1)[j] == s[j + 1] by {}
        if first_numbered(s.skip(1), n) is None && s[0].0 != n {
            assert forall|j: int| 0 <= j < s.len() implies s[j].0 != n by {
                if j > 0 {
                    assert(s.skip(1)[j - 1] == s[j]);
                }
            }
        }
    }
}

/// The sorted, deduplicated union of two row lists.
fn union_rows(a: &Vec<(u32, String)>, b: &Vec<(u32, String)>) -> (r: Vec<(u32, String)>)
    ensures
        union_by_number(rows_view(r@), rows_view(a@) + rows_view(b@)),
{
    let mut all: Vec<(u32, String)> = Vec::new();
    let mut i: usize = 0;
    while i < a.len()
        invariant
            i <= a@.len(),
            rows_view(all@) == rows_view(a@).take(i as int),
        decreases a.len() - i,
    {
        let ghost before = rows_view(all@);
        all.push((a[i].0, a[i].1.clone()));
        assert(rows_view(all@) =~= before.push(rows_view(a@)[i as int]));
        i += 1;
        assert(rows_view(all@) =~= rows_view(a@).take(i as int));
    }
    let mut k: usize = 0;
    while k < b.len()
        invariant
            k <= b@.len(),
            rows_view(all@) == rows_view(a@) + rows_view(b@).take(k as int),
        decreases b.len() - k,
    {
        let ghost before = rows_view(all@);
        all.push((b[k].0, b[k].1.clone()));
        assert(rows_view(all@) =~= before.push(rows_view(b@)[k as int]));
        k += 1;
        assert(rows_view(all@) =~= rows_view(a@) + rows_view(b@).take(k as int));
    }
    assert(rows_view(b@).take(b@.len() as int) =~= rows_view(b@));
    assert(rows_view(a@).take(a@.len() as int) =~= rows_view(a@));
    let ghost av = rows_view(all@);
    let mut out: Vec<(u32, String)> = Vec::new();
    let mut j: usize = 0;
    while j < all.len()
        invariant
            j <= all@.len(),
            av == rows_view(all@),
            union_by_number(rows_view(out@), av.take(j as int)),
        decreases all.len() - j,
    {
        let no = all[j].0;
        let ghost pre = av.take(j as int);
        let ghost ov = rows_view(out@);
        assert(av.take(j + 1) =~= pre.push(av[j as int]));
        // Where the row would go, and whether its number is taken.
        let mut p: usize = 0;
        while p < out.len() && out[p].0 < no
            invariant
                p <= out@.len(),
                ov == rows_view(out@),
                forall|q: int| 0 <= q < p ==> ov[q].0 < no,
            decreases out.len() - p,
        {
            p += 1;
        }
        let taken = p < out.len() && out[p].0 == no;
        proof {
            lemma_first_numbered_none(pre, no);
            if !taken {
                assert forall|q: int| 0 <= q < ov.len() implies ov[q].0 != no by {
                    if q >= p {
                        if p < ov.len() {
                            assert(ov[p as int].0 > no);
                            if q > p {
                                assert(ov[p as int].0 < ov[q].0);
                            }
                        }
                    }
                }
                assert forall|q: int| 0 <= q < pre.len() implies pre[q].0 != no by {
                    if pre[q].0 == no {
                        assert(has_number(ov, pre[q].0));
                        let w = choose|i: int| 0 <= i < ov.len() && #[trigger] ov[i].0 == pre[q].0;
                        assert(ov[w].0 == no);
                    }
                }
            }
        }
        if !taken {
            let row = (no, all[j].1.clone());
            out.insert(p, row);
        }
        proof {
            let nv = rows_view(out@);
            let x = av[j as int];
            assert forall|i: int| 0 <= i < nv.len() implies first_numbered(pre.push(x), #[trigger] nv[i].0) == Some(nv[i]) by {
                lemma_first_numbered_push(pre, x, nv[i].0);
                if taken {
                    assert(nv == ov);
                    assert(first_numbered(pre, nv[i].0) == Some(nv[i]));
                } else {
                    if i < p {
                        assert(nv[i] == ov[i]);
                        assert(first_numbered(pre, nv[i].0) == Some(nv[i]));
                    } else if i == p {
                        assert(nv[i] == x);
                        assert(first_numbered(pre, no) is None);
                    } else {
                        assert(nv[i] == ov[i - 1]);
                        assert(first_numbered(pre, nv[i].0) == Some(nv[i]));
                    }
                }
            }
            assert forall|i: int, k2: int| 0 <= i < k2 < nv.len() implies nv[i].0 < nv[k2].0 by {
                if !taken {
                    if k2 < p {
                        assert(nv[i] == ov[i] && nv[k2] == ov[k2]);
                    } else if k2 == p {
                        assert(nv[i] == ov[i]);
                    } else if i < p {
                        assert(nv[i] == ov[i] && nv[k2] == ov[k2 - 1]);
                        if p < ov.len() {
                            assert(ov[p as int].0 >= no);
                        }
                        if k2 - 1 > p {
                            assert(ov[p as int].0 < ov[k2 - 1].0);
                        }
                        assert(ov[k2 - 1].0 > no);
                    } else if i == p {
                        assert(nv[k2] == ov[k2 - 1]);
                        assert(ov[p as int].0 >= no);
                        if k2 - 1 > p {
                            assert(ov[p as int].0 < ov[k2 - 1].0);
                        }
                        assert(ov[p as int].0 != no);
                    } else {
                        assert(nv[i] == ov[i - 1] && nv[k2] == ov[k2 - 1]);
                    }
                }
            }
            assert forall|q: int| 0 <= q < pre.push(x).len() implies has_number(nv, #[trigger] pre.push(x)[q].0) by {
                if q < pre.len() {
                    assert(has_number(ov, pre[q].0));
                    let w = choose|i: int| 0 <= i < ov.len() && #[trigger] ov[i].0 == pre[q].0;
                    if taken {
                        assert(nv[w].0 == pre.push(x)[q].0);
                    } else if w < p {
                        assert(nv[w].0 == pre.push(x)[q].0);
                    } else {
                        assert(nv[w + 1].0 == pre.push(x)[q].0);
                    }
                } else {
                    if taken {
                        assert(nv[p as int].0 == no);
                    } else {
                        assert(nv[p as int].0 == no);
                    }
                }
            }
        }
        j += 1;
    }
    assert(av.take(av.len() as int) =~= av);
    out
}

} // verus!