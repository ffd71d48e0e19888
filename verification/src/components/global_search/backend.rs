//! Search backend rules: the wire query, the "go to file" ranking over
//! a repo tree, and locating grep matches inside a blob. The provider
//! calls that feed these run on worker threads in the application.
use super::grammar::{self, lang_matches, spec_lang_matches, Grammar, GrammarView};
use super::model::{hits_view, rows_view, HitView, RawHit, SearchKind};
use super::rank::{first_n, insert_pos, insert_ranked, lemma_insert_pos, lemma_ranked_push_first_n, ranked};
use super::grammar::spec_parse;
use crate::provider::{CodeMatch, Provider, ProviderResult, SearchCodeResult, TreeNode};
use crate::text::ends;
use crate::text::{
    after_last, after_last_char, chars_of, contains, has_sub, lower_chars, lowercase, push_str,
    starts, starts_with, string_of, views,
};
use vstd::prelude::*;
use vstd::utf8::encode_utf8;

verus! {

/// How many hits get a blob-located preview.
pub const PREVIEW_CAP: usize = 8;

/// Safety ceiling for locally-scored sets (repo tree file find).
pub const BACKEND_CAP: usize = 500;

/// Search outcome metadata: the clipped flag plus index freshness and
/// the grammar chips.
#[derive(Debug, Clone)]
pub struct SearchOutcome {
    pub clipped: bool,
    pub index_as_of: Option<String>,
    /// Hits the client-side grammar filter removed.
    pub client_filtered: usize,
    /// Grammar tokens nothing could express anywhere.
    pub unfiltered: Vec<String>,
}

impl Default for SearchOutcome {
    fn default() -> (r: Self)
        ensures
            !r.clipped,
            r.index_as_of is None,
            r.client_filtered == 0,
            r.unfiltered@.len() == 0,
    {
        SearchOutcome { clipped: false, index_as_of: None, client_filtered: 0, unfiltered: Vec::new() }
    }
}

/// The UTF-8 length of a text.
pub open spec fn byte_len(s: Seq<char>) -> int {
    (encode_utf8(s).len() as usize) as int
}

fn str_byte_len(s: &str) -> (n: usize)
    ensures
        n == byte_len(s@),
{
    s.len()
}

// ---------------------------------------------------------------------
// Wire query
// ---------------------------------------------------------------------

/// The code-search query: file find matches paths (`path:`), grep
/// matches content; a non-global scope label and the extension (dots
/// trimmed) append as qualifiers.
pub open spec fn spec_code_query(kind: SearchKind, query: Seq<char>, scope: Seq<char>, extension: Seq<char>) -> Seq<char> {
    let q0 = match kind {
        SearchKind::Grep => query,
        SearchKind::FileFind => "path:"@ + query,
    };
    let q1 = if scope != "global"@ {
        q0 + " "@ + scope
    } else {
        q0
    };
    let ext = grammar::trim_dots(extension);
    if ext.len() > 0 {
        q1 + " extension:"@ + ext
    } else {
        q1
    }
}

/// Build the code-search query. The qualifier strings emitted here are
/// what external providers receive verbatim.
pub fn code_query(kind: SearchKind, query: &str, scope_label: &str, extension: &str) -> (r: String)
    ensures
        r@ == spec_code_query(kind, query@, scope_label@, extension@),
{
    let mut q = match kind {
        SearchKind::Grep => query.to_owned(),
        SearchKind::FileFind => {
            let mut s = "path:".to_owned();
            push_str(&mut s, query);
            s
        },
    };
    if !crate::text::str_is(scope_label, "global") {
        push_str(&mut q, " ");
        push_str(&mut q, scope_label);
    }
    let ext = trim_dots_str(extension);
    if ext.len() > 0 {
        push_str(&mut q, " extension:");
        let e = string_of(ext.as_slice());
        push_str(&mut q, e.as_str());
    }
    q
}

pub(crate) fn trim_dots_str(s: &str) -> (r: Vec<char>)
    ensures
        r@ == grammar::trim_dots(s@),
{
    let cs = chars_of(s);
    let mut i: usize = 0;
    assert(cs@.skip(0) =~= cs@);
    while i < cs.len() && cs[i] == '.'
        invariant
            i <= cs@.len(),
            grammar::trim_dots(cs@.skip(i as int)) == grammar::trim_dots(cs@),
        decreases cs.len() - i,
    {
        assert(cs@.skip(i as int).skip(1) =~= cs@.skip(i + 1));
        i += 1;
    }
    let r = crate::text::slice_chars(cs.as_slice(), i, cs.len());
    assert(r@ =~= cs@.skip(i as int));
    r
}

// ---------------------------------------------------------------------
// "Go to file" ranking
// ---------------------------------------------------------------------

/// Word-boundary chars for the subsequence bonus.
pub open spec fn is_sep(c: char) -> bool {
    c == '/' || c == '.' || c == '_' || c == '-'
}

/// The first position at or after `from` holding `c`.
pub open spec fn next_pos(hay: Seq<char>, c: char, from: int) -> Option<int>
    decreases hay.len() - from,
{
    if from < 0 || from >= hay.len() {
        None
    } else if hay[from] == c {
        Some(from)
    } else {
        next_pos(hay, c, from + 1)
    }
}

/// In-order subsequence match of `needle` over `hay`, greedily taking
/// each char's first occurrence after the previous one: (score, next
/// search start, current consecutive run). One point per char, plus
/// the run length, plus 3 at a word boundary. `None` when some char
/// never occurs after the previous one.
pub open spec fn subseq(hay: Seq<char>, needle: Seq<char>) -> Option<(int, int, int)>
    decreases needle.len(),
{
    if needle.len() == 0 {
        Some((0, 0, 0))
    } else {
        match subseq(hay, needle.drop_last()) {
            None => None,
            Some(st) => match next_pos(hay, needle.last(), st.1) {
                None => None,
                Some(pos) => {
                    let run = if needle.len() > 1 && pos == st.1 { st.2 + 1 } else { 1 };
                    let b = pos == 0 || is_sep(hay[pos - 1]);
                    Some((st.0 + 1 + run + if b { 3int } else { 0int }, pos + 1, run))
                },
            },
        }
    }
}

pub open spec fn spec_subsequence_score(hay: Seq<char>, needle: Seq<char>) -> Option<int> {
    match subseq(hay, needle) {
        Some(st) => Some(st.0),
        None => None,
    }
}

/// Every intermediate subsequence score fits an `i32`.
pub open spec fn subseq_fits(hay: Seq<char>, needle: Seq<char>) -> bool {
    forall|m: int|
        0 <= m <= needle.len() ==> (#[trigger] subseq(hay, needle.take(m)) matches Some(st) ==> st.0
            <= i32::MAX)
}

proof fn lemma_next_pos(hay: Seq<char>, c: char, from: int)
    requires
        0 <= from,
    ensures
        next_pos(hay, c, from) matches Some(p) ==> from <= p < hay.len() && hay[p] == c,
    decreases hay.len() - from,
{
    if from < hay.len() && hay[from] != c {
        lemma_next_pos(hay, c, from + 1);
    }
}

proof fn lemma_subseq_bounds(hay: Seq<char>, needle: Seq<char>)
    ensures
        subseq(hay, needle) matches Some(st) ==> 0 <= st.0 && 0 <= st.1 <= hay.len() && 0 <= st.2
            <= st.0,
    decreases needle.len(),
{
    if needle.len() > 0 {
        lemma_subseq_bounds(hay, needle.drop_last());
        if let Some(st) = subseq(hay, needle.drop_last()) {
            lemma_next_pos(hay, needle.last(), st.1);
        }
    }
}

fn find_from(hay: &Vec<char>, c: char, from: usize) -> (r: Option<usize>)
    requires
        from <= hay@.len(),
    ensures
        match r {
            Some(p) => next_pos(hay@, c, from as int) == Some(p as int),
            None => next_pos(hay@, c, from as int) is None,
        },
{
    let mut i = from;
    while i < hay.len()
        invariant
            from <= i <= hay@.len(),
            next_pos(hay@, c, i as int) == next_pos(hay@, c, from as int),
        decreases hay.len() - i,
    {
        if hay[i] == c {
            return Some(i);
        }
        i += 1;
    }
    None
}

/// In-order subsequence score over the whole path: one point per
/// matched char, consecutive runs compound, chars at word boundaries
/// (after `/ . _ -`) get a bonus. `None` if some char never occurs
/// after the previous one.
pub fn subsequence_score(path: &str, needle: &str) -> (r: Option<i32>)
    requires
        subseq_fits(path@, needle@),
    ensures
        match r {
            Some(s) => spec_subsequence_score(path@, needle@) == Some(s as int),
            None => spec_subsequence_score(path@, needle@) is None,
        },
{
    let hay = chars_of(path);
    let nd = chars_of(needle);
    let mut score: i32 = 0;
    let mut hi: usize = 0;
    let mut run: i32 = 0;
    let mut k: usize = 0;
    assert(nd@.take(0) =~= Seq::<char>::empty());
    while k < nd.len()
        invariant
            k <= nd@.len(),
            nd@ == needle@,
            hay@ == path@,
            subseq_fits(path@, needle@),
            subseq(hay@, nd@.take(k as int)) == Some((score as int, hi as int, run as int)),
            hi <= hay@.len(),
        decreases nd.len() - k,
    {
        let c = nd[k];
        proof {
            assert(nd@.take(k + 1).drop_last() =~= nd@.take(k as int));
            assert(nd@.take(k + 1).last() == c);
        }
        let pos = match find_from(&hay, c, hi) {
            Some(p) => p,
            None => {
                proof {
                    lemma_none_extends(hay@, nd@, k as int + 1);
                }
                return None;
            },
        };
        proof {
            lemma_next_pos(hay@, c, hi as int);
            lemma_subseq_bounds(hay@, nd@.take(k + 1));
            assert(subseq(hay@, nd@.take(k + 1)) matches Some(st) && st.0 <= i32::MAX);
        }
        run = if k > 0 && pos == hi { run + 1 } else { 1 };
        let boundary = pos == 0 || {
            let p = hay[pos - 1];
            p == '/' || p == '.' || p == '_' || p == '-'
        };
        score = score + 1 + run + if boundary { 3 } else { 0 };
        hi = pos + 1;
        k += 1;
    }
    assert(nd@.take(nd@.len() as int) =~= nd@);
    Some(score)
}

proof fn lemma_none_extends(hay: Seq<char>, needle: Seq<char>, m: int)
    requires
        0 <= m <= needle.len(),
        subseq(hay, needle.take(m)) is None,
    ensures
        subseq(hay, needle) is None,
    decreases needle.len() - m,
{
    if m < needle.len() {
        assert(needle.take(m + 1).drop_last() =~= needle.take(m));
        lemma_none_extends(hay, needle, m + 1);
    } else {
        assert(needle.take(m) =~= needle);
    }
}

/// One needle's score against a path whose last segment is `file`:
/// starting the file name beats inside the file name beats anywhere in
/// the path beats a scattered subsequence. `nbytes` is the needle's
/// UTF-8 length.
pub open spec fn needle_score(path: Seq<char>, file: Seq<char>, needle: Seq<char>) -> Option<int> {
    let n = byte_len(needle);
    if starts(file, needle) {
        Some(120 + n)
    } else if has_sub(file, needle) {
        Some(100 + n)
    } else if has_sub(path, needle) {
        Some(50 + n)
    } else {
        spec_subsequence_score(path, needle)
    }
}

/// The summed score of the first `k` needles (empty needles skip);
/// `None` as soon as one doesn't match.
pub open spec fn partial_total(path: Seq<char>, needles: Seq<Seq<char>>, k: int) -> Option<int>
    decreases k,
{
    if k <= 0 {
        Some(0)
    } else {
        match partial_total(path, needles, k - 1) {
            None => None,
            Some(t) => if needles[k - 1].len() == 0 {
                Some(t)
            } else {
                match needle_score(path, after_last(path, '/'), needles[k - 1]) {
                    None => None,
                    Some(s) => Some(t + s),
                }
            },
        }
    }
}

/// The "go to file" score of a lowercased path: `None` when some needle
/// doesn't match, `0` when no needle has text, otherwise the needle
/// total minus an eighth of the path's byte length (longer paths carry
/// more noise).
pub open spec fn spec_file_find_score(path: Seq<char>, needles: Seq<Seq<char>>) -> Option<int> {
    match partial_total(path, needles, needles.len() as int) {
        None => None,
        Some(t) => if forall|k: int| 0 <= k < needles.len() ==> needles[k].len() == 0 {
            Some(0)
        } else {
            Some(t - byte_len(path) / 8)
        },
    }
}

/// The needle falls through to the scattered-subsequence match.
pub open spec fn reaches_subseq(path: Seq<char>, needle: Seq<char>) -> bool {
    let file = after_last(path, '/');
    !starts(file, needle) && !has_sub(file, needle) && !has_sub(path, needle)
}

/// The machine limit of the `i32` score: the path's length, every
/// partial total, and every intermediate subsequence score of a needle
/// that gets that far fit an `i32`.
pub open spec fn score_fits(path: Seq<char>, needles: Seq<Seq<char>>) -> bool {
    &&& byte_len(path) <= i32::MAX
    &&& forall|k: int|
        0 <= k <= needles.len() ==> (#[trigger] partial_total(path, needles, k) matches Some(t) ==> t
            <= i32::MAX)
    &&& forall|k: int|
        0 <= k < needles.len() && partial_total(path, needles, k) is Some && needles[k].len() > 0
            && reaches_subseq(path, needles[k]) ==> subseq_fits(path, #[trigger] needles[k])
}

proof fn lemma_subseq_nonneg(hay: Seq<char>, needle: Seq<char>)
    ensures
        spec_subsequence_score(hay, needle) matches Some(s) ==> s >= 0,
{
    lemma_subseq_bounds(hay, needle);
}

proof fn lemma_partial_total_nonneg(path: Seq<char>, needles: Seq<Seq<char>>, k: int)
    ensures
        partial_total(path, needles, k) matches Some(t) ==> t >= 0,
    decreases k,
{
    if k > 0 {
        lemma_partial_total_nonneg(path, needles, k - 1);
        if needles[k - 1].len() > 0 {
            lemma_subseq_nonneg(path, needles[k - 1]);
        }
    }
}

/// GitHub-"go to file"-style match over a lowercased path: every
/// non-empty needle must occur (substring or in-order subsequence);
/// the score ranks file-name matches over path matches over scattered
/// ones. `None` = no match; no needle text matches everything at 0.
pub fn file_find_score(path: &str, needles: &[String]) -> (r: Option<i32>)
    requires
        score_fits(path@, views(needles@)),
    ensures
        match r {
            Some(s) => spec_file_find_score(path@, views(needles@)) == Some(s as int),
            None => spec_file_find_score(path@, views(needles@)) is None,
        },
{
    let p = chars_of(path);
    let file = after_last_char(p.as_slice(), '/');
    let ghost nv = views(needles@);
    let mut total: i32 = 0;
    let mut any = false;
    let mut k: usize = 0;
    while k < needles.len()
        invariant
            k <= needles@.len(),
            nv == views(needles@),
            p@ == path@,
            file@ == after_last(path@, '/'),
            score_fits(path@, nv),
            partial_total(path@, nv, k as int) == Some(total as int),
            any == exists|j: int| 0 <= j < k && nv[j].len() > 0,
        decreases needles.len() - k,
    {
        let needle = needles[k].as_str();
        let nd = chars_of(needle);
        assert(nv[k as int] == needle@);
        if nd.len() == 0 {
            k += 1;
            continue;
        }
        any = true;
        let score: i32;
        proof {
            lemma_partial_total_nonneg(path@, nv, k as int + 1);
            lemma_partial_total_nonneg(path@, nv, k as int);
            assert(partial_total(path@, nv, k as int + 1) matches Some(t) ==> t <= i32::MAX);
        }
        assert(partial_total(path@, nv, k as int + 1) == match needle_score(path@, file@, nd@) {
            None => None,
            Some(s) => Some(total + s),
        });
        if starts_with(file.as_slice(), nd.as_slice()) {
            let n = str_byte_len(needle);
            assert(needle_score(path@, file@, nd@) == Some(120 + n));
            assert(total + 120 + n <= i32::MAX);
            assert(n <= i32::MAX - 120);
            score = 120 + n as i32;
        } else if contains(file.as_slice(), nd.as_slice()) {
            let n = str_byte_len(needle);
            assert(needle_score(path@, file@, nd@) == Some(100 + n));
            assert(total + 100 + n <= i32::MAX);
            assert(n <= i32::MAX - 100);
            score = 100 + n as i32;
        } else if contains(p.as_slice(), nd.as_slice()) {
            let n = str_byte_len(needle);
            assert(needle_score(path@, file@, nd@) == Some(50 + n));
            assert(total + 50 + n <= i32::MAX);
            assert(n <= i32::MAX - 50);
            score = 50 + n as i32;
        } else {
            assert(reaches_subseq(path@, nd@));
            match subsequence_score(path, needle) {
                Some(s) => score = s,
                None => {
                    proof {
                        lemma_none_stays(path@, nv, k as int + 1);
                    }
                    return None;
                },
            }
        }
        total = total + score;
        k += 1;
    }
    if !any {
        assert(forall|j: int| 0 <= j < nv.len() ==> nv[j].len() == 0);
        return Some(0);
    }
    let plen = str_byte_len(path);
    proof {
        lemma_partial_total_nonneg(path@, nv, nv.len() as int);
    }
    Some(total - (plen as i32) / 8)
}

proof fn lemma_none_stays(path: Seq<char>, needles: Seq<Seq<char>>, k: int)
    requires
        0 <= k <= needles.len(),
        partial_total(path, needles, k) is None,
    ensures
        partial_total(path, needles, needles.len() as int) is None,
    decreases needles.len() - k,
{
    if k < needles.len() {
        lemma_none_stays(path, needles, k + 1);
    }
}

// ---------------------------------------------------------------------
// Locating grep matches in a blob
// ---------------------------------------------------------------------

/// A line without its trailing carriage return.
pub open spec fn strip_cr(l: Seq<char>) -> Seq<char> {
    if l.len() > 0 && l.last() == '\r' {
        l.drop_last()
    } else {
        l
    }
}

/// `str::lines`: split at `\n`, no empty line after a final newline,
/// each line without a trailing `\r`.
#[verifier::opaque]
pub open spec fn spec_lines(t: Seq<char>) -> Seq<Seq<char>>
    decreases t.len(),
{
    if t.len() == 0 {
        seq![]
    } else {
        match crate::text::first_index_of(t, '\n') {
            None => seq![strip_cr(t)],
            Some(k) => if 0 <= k < t.len() {
                seq![strip_cr(t.take(k))] + spec_lines(t.skip(k + 1))
            } else {
                seq![]
            },
        }
    }
}

/// A line holds one of the needles (case-insensitively).
pub open spec fn line_hit(line: Seq<char>, needles: Seq<Seq<char>>) -> bool {
    exists|k: int| 0 <= k < needles.len() && has_sub(lowercase(line), #[trigger] needles[k])
}

/// Indices of the first `n` lines that hold a needle, ascending.
pub open spec fn matched_lines(lines: Seq<Seq<char>>, needles: Seq<Seq<char>>, n: int) -> Seq<int>
    decreases n,
{
    if n <= 0 {
        seq![]
    } else {
        let r = matched_lines(lines, needles, n - 1);
        if line_hit(lines[n - 1], needles) {
            r.push(n - 1)
        } else {
            r
        }
    }
}

/// Fold matched lines into regions: each match with one context line
/// on either side, merged when regions touch.
pub open spec fn fold_regions(ms: Seq<int>, nlines: int) -> Seq<(int, int)>
    decreases ms.len(),
{
    if ms.len() == 0 {
        seq![]
    } else {
        let r = fold_regions(ms.drop_last(), nlines);
        let m = ms.last();
        let start = if m >= 1 { m - 1 } else { 0 };
        let end = if m + 2 <= nlines { m + 2 } else { nlines };
        if r.len() > 0 && start <= r.last().1 {
            r.update(r.len() - 1, (r.last().0, if end >= r.last().1 { end } else { r.last().1 }))
        } else {
            r.push((start, end))
        }
    }
}

/// A region's preview rows: at most five lines, numbered from 1.
pub open spec fn region_rows(lines: Seq<Seq<char>>, reg: (int, int)) -> Seq<(u32, Seq<char>)> {
    let capped = if reg.1 <= reg.0 + 5 { reg.1 } else { reg.0 + 5 };
    Seq::new(
        (if capped > reg.0 { capped - reg.0 } else { 0 }) as nat,
        |i: int| (((reg.0 + i + 1) as u32), lines[reg.0 + i]),
    )
}

/// The preview: the first two regions' rows.
pub open spec fn preview_rows(lines: Seq<Seq<char>>, regs: Seq<(int, int)>) -> Seq<(u32, Seq<char>)> {
    if regs.len() == 0 {
        seq![]
    } else if regs.len() == 1 {
        region_rows(lines, regs[0])
    } else {
        region_rows(lines, regs[0]) + region_rows(lines, regs[1])
    }
}

/// The lowercased, non-empty needles.
pub open spec fn live_needles(needles: Seq<Seq<char>>) -> Seq<Seq<char>> {
    needles.map_values(|n: Seq<char>| lowercase(n)).filter(|n: Seq<char>| n.len() > 0)
}

/// Locating over text lines: `None` without needle text or without a
/// matching line; otherwise (first match line, ≤2 regions × ≤5 lines,
/// matched-line count), numbers 1-based.
pub open spec fn spec_locate_lines(lines: Seq<Seq<char>>, needles: Seq<Seq<char>>) -> Option<(u32, Seq<(u32, Seq<char>)>, u32)> {
    let live = live_needles(needles);
    let ms = matched_lines(lines, live, lines.len() as int);
    if live.len() == 0 || ms.len() == 0 {
        None
    } else {
        Some((((ms[0] + 1) as u32), preview_rows(lines, fold_regions(ms, lines.len() as int)), ms.len() as u32))
    }
}

/// Locating in a blob: binary blobs never locate; text is sanitized and
/// split into lines first.
pub open spec fn spec_locate_in_blob(bytes: Seq<u8>, needles: Seq<Seq<char>>) -> Option<(u32, Seq<(u32, Seq<char>)>, u32)> {
    if crate::sanitize::spec_is_binary(bytes) {
        None
    } else {
        spec_locate_lines(spec_lines(crate::sanitize::spec_sanitize(bytes)), needles)
    }
}

/// (first match line, preview lines, matched-line count).
pub type LocatedPreview = (u32, Vec<(u32, String)>, u32);

pub open spec fn located_view(r: Option<LocatedPreview>) -> Option<(u32, Seq<(u32, Seq<char>)>, u32)> {
    match r {
        None => None,
        Some(t) => Some((t.0, rows_view(t.1@), t.2)),
    }
}

/// Split text into lines (`str::lines`).
pub fn split_lines(text: &[char]) -> (r: Vec<Vec<char>>)
    ensures
        r@.map_values(|l: Vec<char>| l@) == spec_lines(text@),
{
    let mut out: Vec<Vec<char>> = Vec::new();
    let mut cur: Vec<char> = Vec::new();
    let mut start: usize = 0;
    let mut i: usize = 0;
    let n = text.len();
    assert(text@.skip(0) =~= text@);
    while i < n
        invariant
            start <= i <= n,
            n == text@.len(),
            cur@ == text@.subrange(start as int, i as int),
            forall|k: int| start <= k < i ==> text@[k] != '\n',
            out@.map_values(|l: Vec<char>| l@) + spec_lines(text@.skip(start as int)) == spec_lines(text@),
        decreases n - i,
    {
        if text[i] == '\n' {
            proof {
                lemma_lines_step(text@, start as int, i as int);
                assert(text@.subrange(start as int, i as int) == cur@);
            }
            let line = strip_cr_exec(&cur);
            let ghost before = out@;
            out.push(line);
            assert(out@.map_values(|l: Vec<char>| l@) =~= before.map_values(|l: Vec<char>| l@).push(strip_cr(cur@)));
            cur = Vec::new();
            i += 1;
            start = i;
            assert(cur@ =~= text@.subrange(start as int, i as int));
        } else {
            cur.push(text[i]);
            i += 1;
            assert(cur@ =~= text@.subrange(start as int, i as int));
        }
    }
    let ghost rest = text@.skip(start as int);
    assert(rest =~= cur@);
    if cur.len() > 0 {
        proof {
            reveal(spec_lines);
            crate::text::lemma_first_index_of(rest, '\n');
        }
        let line = strip_cr_exec(&cur);
        let ghost before = out@;
        out.push(line);
        assert(out@.map_values(|l: Vec<char>| l@) =~= before.map_values(|l: Vec<char>| l@).push(strip_cr(cur@)));
        assert(spec_lines(rest) =~= seq![strip_cr(cur@)]);
    } else {
        reveal(spec_lines);
        assert(spec_lines(rest) =~= Seq::<Seq<char>>::empty());
    }
    assert(out@.map_values(|l: Vec<char>| l@) =~= out@.map_values(|l: Vec<char>| l@) + Seq::<Seq<char>>::empty());
    out
}

proof fn lemma_lines_step(t: Seq<char>, start: int, i: int)
    requires
        0 <= start <= i < t.len(),
        t[i] == '\n',
        forall|k: int| start <= k < i ==> t[k] != '\n',
    ensures
        spec_lines(t.skip(start)) == seq![strip_cr(t.subrange(start, i))] + spec_lines(t.skip(i + 1)),
{
    reveal(spec_lines);
    let rest = t.skip(start);
    crate::text::lemma_first_index_of(rest, '\n');
    let k = i - start;
    assert(rest[k] == '\n');
    let f = crate::text::first_index_of(rest, '\n');
    assert(f == Some(k)) by {
        if f is None {
            assert(rest[k] != '\n');
        } else {
            let g = f->0;
            if g < k {
                assert(rest[g] == t[start + g]);
            } else if g > k {
                assert(rest[k] != '\n');
            }
        }
    }
    assert(rest.take(k) =~= t.subrange(start, i));
    assert(rest.skip(k + 1) =~= t.skip(i + 1));
}

fn strip_cr_exec(l: &Vec<char>) -> (r: Vec<char>)
    ensures
        r@ == strip_cr(l@),
{
    if l.len() > 0 && l[l.len() - 1] == '\r' {
        let r = crate::text::slice_chars(l.as_slice(), 0, l.len() - 1);
        assert(r@ =~= l@.drop_last());
        r
    } else {
        l.clone()
    }
}

pub open spec fn lines_view(v: Seq<Vec<char>>) -> Seq<Seq<char>> {
    v.map_values(|l: Vec<char>| l@)
}

fn live_needles_exec(needles: &[String]) -> (r: Vec<Vec<char>>)
    ensures
        lines_view(r@) == live_needles(views(needles@)),
{
    let mut r: Vec<Vec<char>> = Vec::new();
    let mut i: usize = 0;
    let ghost pred = |n: Seq<char>| n.len() > 0;
    while i < needles.len()
        invariant
            i <= needles@.len(),
            lines_view(r@) == views(needles@).take(i as int).map_values(|n: Seq<char>| lowercase(n)).filter(pred),
            pred == (|n: Seq<char>| n.len() > 0),
        decreases needles.len() - i,
    {
        let l = lower_chars(needles[i].as_str());
        proof {
            reveal(Seq::filter);
            assert(views(needles@).take(i + 1).map_values(|n: Seq<char>| lowercase(n)).drop_last()
                =~= views(needles@).take(i as int).map_values(|n: Seq<char>| lowercase(n)));
            assert(views(needles@).take(i + 1).map_values(|n: Seq<char>| lowercase(n)).last() == l@);
        }
        if l.len() > 0 {
            let ghost before = r@;
            r.push(l);
            assert(lines_view(r@) =~= lines_view(before).push(l@));
        }
        i += 1;
    }
    assert(views(needles@).take(needles@.len() as int) =~= views(needles@));
    r
}

fn line_hits(line: &Vec<char>, live: &Vec<Vec<char>>) -> (b: bool)
    ensures
        b == line_hit(line@, lines_view(live@)),
{
    let lower = lower_chars(string_of(line.as_slice()).as_str());
    let mut k: usize = 0;
    while k < live.len()
        invariant
            k <= live@.len(),
            lower@ == lowercase(line@),
            forall|j: int| 0 <= j < k ==> !has_sub(lowercase(line@), #[trigger] lines_view(live@)[j]),
        decreases live.len() - k,
    {
        if contains(lower.as_slice(), live[k].as_slice()) {
            assert(has_sub(lowercase(line@), lines_view(live@)[k as int]));
            return true;
        }
        k += 1;
    }
    false
}

fn push_region_rows(out: &mut Vec<(u32, String)>, lines: &Vec<Vec<char>>, start: usize, end: usize)
    requires
        start <= end <= lines@.len(),
    ensures
        rows_view(final(out)@) == rows_view(old(out)@) + region_rows(lines_view(lines@), (start as int, end as int)),
{
    let capped = if end - start <= 5 { end } else { start + 5 };
    let mut i = start;
    let ghost base = rows_view(out@);
    while i < capped
        invariant
            start <= i <= capped <= end <= lines@.len(),
            capped as int == (if end <= start + 5 { end as int } else { start + 5 }),
            rows_view(out@) == base + region_rows(lines_view(lines@), (start as int, end as int)).take(
                (i - start) as int,
            ),
        decreases capped - i,
    {
        let ghost before = out@;
        let ghost rr = region_rows(lines_view(lines@), (start as int, end as int));
        assert(rr.len() == capped - start);
        assert(rr[(i - start) as int] == (((i + 1) as u32), lines@[i as int]@));
        let row = ((i + 1) as u32, string_of(lines[i].as_slice()));
        out.push(row);
        assert(rows_view(out@) =~= rows_view(before).push(((i + 1) as u32, lines@[i as int]@)));
        assert(rr.take((i + 1 - start) as int) =~= rr.take((i - start) as int).push(rr[(i - start) as int]));
        i += 1;
        assert(rows_view(out@) =~= base + region_rows(lines_view(lines@), (start as int, end as int)).take(
            (i - start) as int,
        ));
    }
    assert(region_rows(lines_view(lines@), (start as int, end as int)).take((capped - start) as int)
        =~= region_rows(lines_view(lines@), (start as int, end as int)));
}

/// Fold lines into ≤2 regions of ≤5 lines around the needles' matches.
#[verifier::spinoff_prover]
pub fn locate_in_lines(lines: &Vec<Vec<char>>, needles: &[String]) -> (r: Option<LocatedPreview>)
    ensures
        located_view(r) == spec_locate_lines(lines_view(lines@), views(needles@)),
{
    let ghost lv = lines_view(lines@);
    let live = live_needles_exec(needles);
    if live.len() == 0 {
        return None;
    }
    let n = lines.len();
    let mut matched: Vec<usize> = Vec::new();
    let mut i: usize = 0;
    while i < n
        invariant
            i <= n,
            n == lines@.len(),
            lv == lines_view(lines@),
            matched@.map_values(|m: usize| m as int) == matched_lines(lv, lines_view(live@), i as int),
            forall|k: int| 0 <= k < matched@.len() ==> #[trigger] matched@[k] < i,
        decreases n - i,
    {
        let ghost before = matched@;
        if line_hits(&lines[i], &live) {
            matched.push(i);
            assert(matched@.map_values(|m: usize| m as int) =~= before.map_values(|m: usize| m as int).push(
                i as int,
            ));
        }
        i += 1;
    }
    let ghost ms = matched@.map_values(|m: usize| m as int);
    if matched.len() == 0 {
        return None;
    }
    let mut regions: Vec<(usize, usize)> = Vec::new();
    let mut j: usize = 0;
    while j < matched.len()
        invariant
            j <= matched@.len(),
            ms == matched@.map_values(|m: usize| m as int),
            forall|k: int| 0 <= k < matched@.len() ==> #[trigger] matched@[k] < n,
            n == lines@.len(),
            regions@.map_values(|p: (usize, usize)| (p.0 as int, p.1 as int)) == fold_regions(ms.take(j as int), n as int),
            forall|k: int| 0 <= k < regions@.len() ==> #[trigger] regions@[k].0 <= regions@[k].1 <= n,
        decreases matched.len() - j,
    {
        let m = matched[j];
        assert(matched@[j as int] < n);
        let start = if m >= 1 { m - 1 } else { 0 };
        let end = if n - m >= 2 { m + 2 } else { n };
        let ghost before = regions@;
        proof {
            assert(ms.take(j + 1).drop_last() =~= ms.take(j as int));
            assert(ms.take(j + 1).last() == m as int);
        }
        let rl = regions.len();
        if rl > 0 && start <= regions[rl - 1].1 {
            let (s0, e0) = regions[rl - 1];
            let e1 = if end >= e0 { end } else { e0 };
            assert(before[rl - 1] == (s0, e0));
            assert(s0 <= e0 <= n);
            assert(end <= n);
            regions.set(rl - 1, (s0, e1));
            assert forall|k: int| 0 <= k < regions@.len() implies #[trigger] regions@[k].0 <= regions@[k].1 <= n by {
                if k < rl - 1 {
                    assert(regions@[k] == before[k]);
                } else {
                    assert(regions@[k] == (s0, e1));
                }
            }
        } else {
            regions.push((start, end));
            assert forall|k: int| 0 <= k < regions@.len() implies #[trigger] regions@[k].0 <= regions@[k].1 <= n by {
                if k < rl {
                    assert(regions@[k] == before[k]);
                }
            }
        }
        assert(regions@.map_values(|p: (usize, usize)| (p.0 as int, p.1 as int)) =~= fold_regions(
            ms.take(j + 1),
            n as int,
        ));
        j += 1;
    }
    assert(ms.take(matched@.len() as int) =~= ms);
    let ghost regs = fold_regions(ms, n as int);
    let mut preview: Vec<(u32, String)> = Vec::new();
    if regions.len() > 0 {
        push_region_rows(&mut preview, lines, regions[0].0, regions[0].1);
        assert(regs[0] == (regions@[0].0 as int, regions@[0].1 as int));
    }
    if regions.len() > 1 {
        push_region_rows(&mut preview, lines, regions[1].0, regions[1].1);
        assert(regs[1] == (regions@[1].0 as int, regions@[1].1 as int));
    }
    assert(rows_view(preview@) =~= preview_rows(lv, regs));
    let first = matched[0];
    assert(ms[0] == first as int);
    Some(((first + 1) as u32, preview, matched.len() as u32))
}

/// Scan blob bytes for the needles and fold into ≤2 regions of ≤5
/// lines: (first match line, preview lines, matched-line count).
pub fn locate_in_blob(bytes: &[u8], needles: &[String]) -> (r: Option<LocatedPreview>)
    ensures
        located_view(r) == spec_locate_in_blob(bytes@, views(needles@)),
{
    if crate::sanitize::is_binary(bytes) {
        return None;
    }
    let text = crate::sanitize::sanitize(bytes);
    let cs = chars_of(text.as_str());
    let lines = split_lines(cs.as_slice());
    locate_in_lines(&lines, needles)
}

// ---------------------------------------------------------------------
// Checking the machine limit
// ---------------------------------------------------------------------

/// Does every intermediate subsequence score fit an `i32`?
pub fn subseq_fits_check(path: &str, needle: &str) -> (b: bool)
    ensures
        b == subseq_fits(path@, needle@),
{
    let hay = chars_of(path);
    let nd = chars_of(needle);
    let mut score: u128 = 0;
    let mut hi: usize = 0;
    let mut run: u128 = 0;
    let mut k: usize = 0;
    assert(nd@.take(0) =~= Seq::<char>::empty());
    while k < nd.len()
        invariant
            k <= nd@.len(),
            nd@ == needle@,
            hay@ == path@,
            subseq(hay@, nd@.take(k as int)) == Some((score as int, hi as int, run as int)),
            score <= i32::MAX,
            hi <= hay@.len(),
            forall|m: int| 0 <= m <= k ==> (#[trigger] subseq(hay@, nd@.take(m)) matches Some(st) ==> st.0 <= i32::MAX),
        decreases nd.len() - k,
    {
        let c = nd[k];
        proof {
            assert(nd@.take(k + 1).drop_last() =~= nd@.take(k as int));
            assert(nd@.take(k + 1).last() == c);
            lemma_subseq_bounds(hay@, nd@.take(k as int));
        }
        let pos = match find_from(&hay, c, hi) {
            Some(p) => p,
            None => {
                proof {
                    assert forall|m: int| 0 <= m <= nd@.len() implies (#[trigger] subseq(hay@, nd@.take(m)) matches Some(st) ==> st.0 <= i32::MAX) by {
                        if m > k {
                            lemma_none_prefix(hay@, nd@, k as int + 1, m);
                        }
                    }
                }
                return true;
            },
        };
        proof {
            lemma_next_pos(hay@, c, hi as int);
        }
        run = if k > 0 && pos == hi { run + 1 } else { 1 };
        let boundary = pos == 0 || {
            let p = hay[pos - 1];
            p == '/' || p == '.' || p == '_' || p == '-'
        };
        score = score + 1 + run + if boundary { 3 } else { 0 };
        hi = pos + 1;
        k += 1;
        if score > i32::MAX as u128 {
            return false;
        }
    }
    assert(nd@.take(nd@.len() as int) =~= nd@);
    true
}

proof fn lemma_none_prefix(hay: Seq<char>, needle: Seq<char>, a: int, m: int)
    requires
        0 <= a <= m <= needle.len(),
        subseq(hay, needle.take(a)) is None,
    ensures
        subseq(hay, needle.take(m)) is None,
    decreases m - a,
{
    if a < m {
        assert(needle.take(a + 1).drop_last() =~= needle.take(a));
        lemma_none_prefix(hay, needle, a + 1, m);
    }
}

/// Does `file_find_score` stay within its `i32` for this path and
/// these needles?
#[verifier::spinoff_prover]
pub fn score_fits_check(path: &str, needles: &[String]) -> (b: bool)
    ensures
        b == score_fits(path@, views(needles@)),
{
    let plen = str_byte_len(path);
    if plen > i32::MAX as usize {
        return false;
    }
    let p = chars_of(path);
    let file = after_last_char(p.as_slice(), '/');
    let ghost nv = views(needles@);
    let mut total: u128 = 0;
    let mut k: usize = 0;
    while k < needles.len()
        invariant
            k <= needles@.len(),
            nv == views(needles@),
            p@ == path@,
            file@ == after_last(path@, '/'),
            byte_len(path@) <= i32::MAX,
            partial_total(path@, nv, k as int) == Some(total as int),
            total <= i32::MAX,
            forall|j: int| 0 <= j <= k ==> (#[trigger] partial_total(path@, nv, j) matches Some(t) ==> t <= i32::MAX),
            forall|j: int|
                0 <= j < k && partial_total(path@, nv, j) is Some && nv[j].len() > 0
                    && reaches_subseq(path@, nv[j]) ==> subseq_fits(path@, #[trigger] nv[j]),
        decreases needles.len() - k,
    {
        let needle = needles[k].as_str();
        let nd = chars_of(needle);
        assert(nv[k as int] == needle@);
        if nd.len() == 0 {
            k += 1;
            continue;
        }
        let score: u128;
        if starts_with(file.as_slice(), nd.as_slice()) {
            score = 120 + str_byte_len(needle) as u128;
        } else if contains(file.as_slice(), nd.as_slice()) {
            score = 100 + str_byte_len(needle) as u128;
        } else if contains(p.as_slice(), nd.as_slice()) {
            score = 50 + str_byte_len(needle) as u128;
        } else {
            assert(reaches_subseq(path@, nd@));
            if !subseq_fits_check(path, needle) {
                return false;
            }
            match subsequence_score(path, needle) {
                Some(s) => {
                    proof {
                        lemma_subseq_nonneg(path@, nd@);
                    }
                    score = s as u128;
                },
                None => {
                    proof {
                        assert forall|j: int| 0 <= j <= nv.len() implies (#[trigger] partial_total(path@, nv, j) matches Some(t) ==> t <= i32::MAX) by {
                            if j > k {
                                lemma_total_none_from(path@, nv, k as int + 1, j);
                            }
                        }
                        assert forall|j: int|
                            0 <= j < nv.len() && partial_total(path@, nv, j) is Some && nv[j].len() > 0
                                && reaches_subseq(path@, nv[j]) implies subseq_fits(path@, #[trigger] nv[j]) by {
                            if j > k {
                                lemma_total_none_from(path@, nv, k as int + 1, j);
                            }
                        }
                    }
                    return true;
                },
            }
        }
        total = total + score;
        k += 1;
        if total > i32::MAX as u128 {
            return false;
        }
    }
    true
}

proof fn lemma_total_none_from(path: Seq<char>, needles: Seq<Seq<char>>, a: int, j: int)
    requires
        0 <= a <= j,
        partial_total(path, needles, a) is None,
    ensures
        partial_total(path, needles, j) is None,
    decreases j - a,
{
    if a < j {
        lemma_total_none_from(path, needles, a + 1, j);
    }
}


// ---------------------------------------------------------------------
// File find over a repo tree
// ---------------------------------------------------------------------

/// The extension box as the tree search applies it: leading dots
/// dropped, lowercased.
pub open spec fn ext_filter(extension: Seq<char>) -> Seq<char> {
    lowercase(grammar::trim_dots(extension))
}

/// The needles of a tree file find: the query's terms, lowercased.
pub open spec fn tree_needles(g: GrammarView) -> Seq<Seq<char>> {
    g.terms.map_values(|t: Seq<char>| lowercase(t))
}

/// `.` followed by an extension.
pub open spec fn dotted(ext: Seq<char>) -> Seq<char> {
    seq!['.'] + ext
}

/// A lowercased path passes the query's filters: the extension box, an
/// inline `extension:`, `language:` (when it resolves), `-language:`
/// (when it resolves), and no negated term anywhere in the path.
pub open spec fn tree_path_kept(g: GrammarView, ext: Seq<char>, path: Seq<char>) -> bool {
    &&& (ext.len() > 0 ==> ends(path, dotted(ext)))
    &&& (g.extension matches Some(e) ==> ends(path, dotted(lowercase(e))))
    &&& spec_lang_matches(g.language, path) != Some(false)
    &&& spec_lang_matches(g.negated_language, path) != Some(true)
    &&& forall|k: int| 0 <= k < g.negated.len() ==> !has_sub(path, #[trigger] g.negated[k])
}

/// A tree entry that gets scored: a file whose lowercased path passes
/// the filters.
pub open spec fn tree_candidate(g: GrammarView, ext: Seq<char>, node: TreeNode) -> bool {
    !node.is_dir && tree_path_kept(g, ext, lowercase(node.path@))
}

/// The hit a tree file becomes (anchored at line 1, no preview yet).
pub open spec fn tree_hit(repo: Seq<char>, branch: Seq<char>, node: TreeNode) -> HitView {
    HitView {
        repo,
        path: node.path@,
        sha: node.sha@,
        branch,
        line: 1,
        preview: seq![],
        match_count: 0,
        stale: false,
    }
}

/// The matching tree files with their scores, in tree order.
pub open spec fn tree_scored(
    nodes: Seq<TreeNode>,
    g: GrammarView,
    ext: Seq<char>,
    repo: Seq<char>,
    branch: Seq<char>,
) -> Seq<(int, HitView)>
    decreases nodes.len(),
{
    if nodes.len() == 0 {
        seq![]
    } else {
        let prev = tree_scored(nodes.drop_last(), g, ext, repo, branch);
        let node = nodes.last();
        if tree_candidate(g, ext, node) {
            match spec_file_find_score(lowercase(node.path@), tree_needles(g)) {
                Some(s) => prev.push((s, tree_hit(repo, branch, node))),
                None => prev,
            }
        } else {
            prev
        }
    }
}

/// Every candidate's score stays within the `i32` it is computed in.
pub open spec fn tree_scores_fit(nodes: Seq<TreeNode>, g: GrammarView, ext: Seq<char>) -> bool {
    forall|i: int|
        0 <= i < nodes.len() && tree_candidate(g, ext, #[trigger] nodes[i]) ==> score_fits(
            lowercase(nodes[i].path@),
            tree_needles(g),
        )
}

/// Best first (ties in tree order), at most `BACKEND_CAP`.
pub open spec fn tree_ranked_hits(scored: Seq<(int, HitView)>) -> Seq<HitView> {
    first_n(ranked(scored), BACKEND_CAP as int).map_values(|e: (int, HitView)| e.1)
}

/// Scored hits as the ranking sees them.
pub open spec fn scored_view(v: Seq<(i32, RawHit)>) -> Seq<(int, HitView)> {
    v.map_values(|e: (i32, RawHit)| (e.0 as int, e.1@))
}

pub(crate) fn lowered(v: &Vec<String>) -> (r: Vec<String>)
    ensures
        views(r@) == views(v@).map_values(|t: Seq<char>| lowercase(t)),
{
    let mut r: Vec<String> = Vec::new();
    let mut i: usize = 0;
    while i < v.len()
        invariant
            i <= v@.len(),
            views(r@) == views(v@).take(i as int).map_values(|t: Seq<char>| lowercase(t)),
        decreases v.len() - i,
    {
        let ghost before = r@;
        let l = crate::text::to_lowercase(v[i].as_str());
        r.push(l);
        assert(views(r@) =~= views(before).push(l@));
        assert(views(v@).take(i + 1) =~= views(v@).take(i as int).push(v@[i as int]@));
        i += 1;
        assert(views(r@) =~= views(v@).take(i as int).map_values(|t: Seq<char>| lowercase(t)));
    }
    assert(views(v@).take(v@.len() as int) =~= views(v@));
    r
}

pub(crate) fn dotted_chars(ext: &[char]) -> (r: Vec<char>)
    ensures
        r@ == dotted(ext@),
{
    let dot = vec!['.'];
    let r = crate::text::concat_chars(dot.as_slice(), ext);
    assert(dot@ =~= seq!['.']);
    r
}

/// Does a lowercased path pass the query's filters?
fn tree_path_passes(g: &Grammar, ext: &[char], path: &str) -> (b: bool)
    ensures
        b == tree_path_kept(g@, ext@, path@),
{
    let p = chars_of(path);
    if ext.len() > 0 && !crate::text::ends_with(p.as_slice(), dotted_chars(ext).as_slice()) {
        return false;
    }
    if let Some(e) = &g.extension {
        let le = lower_chars(e.as_str());
        if !crate::text::ends_with(p.as_slice(), dotted_chars(le.as_slice()).as_slice()) {
            return false;
        }
    }
    if let Some(false) = lang_matches(&g.language, path) {
        return false;
    }
    if let Some(true) = lang_matches(&g.negated_language, path) {
        return false;
    }
    let ghost neg = views(g.negated@);
    let mut k: usize = 0;
    while k < g.negated.len()
        invariant
            k <= g.negated@.len(),
            neg == views(g.negated@),
            neg == g@.negated,
            p@ == path@,
            forall|j: int| 0 <= j < k ==> !has_sub(path@, #[trigger] neg[j]),
        decreases g.negated.len() - k,
    {
        let n = chars_of(g.negated[k].as_str());
        assert(neg[k as int] == n@);
        if contains(p.as_slice(), n.as_slice()) {
            assert(has_sub(path@, g@.negated[k as int]));
            return false;
        }
        k += 1;
    }
    true
}

/// Insert a scored hit at its best-first place, keeping at most `cap`.
fn insert_capped(top: &mut Vec<(i32, RawHit)>, score: i32, hit: RawHit, cap: usize)
    requires
        old(top)@.len() <= cap,
    ensures
        scored_view(final(top)@) == first_n(
            insert_ranked(scored_view(old(top)@), (score as int, hit@)),
            cap as int,
        ),
        final(top)@.len() <= cap,
{
    let ghost sv = scored_view(top@);
    let mut p: usize = 0;
    assert(sv.skip(0) =~= sv);
    while p < top.len() && top[p].0 >= score
        invariant
            p <= top@.len(),
            sv == scored_view(top@),
            insert_pos(sv, score as int) == p + insert_pos(sv.skip(p as int), score as int),
        decreases top.len() - p,
    {
        assert(sv.skip(p as int).skip(1) =~= sv.skip(p + 1));
        assert(sv.skip(p as int)[0] == sv[p as int]);
        p += 1;
    }
    proof {
        if p < top@.len() {
            assert(sv.skip(p as int)[0] == sv[p as int]);
        }
        lemma_insert_pos(sv, score as int);
    }
    let ghost x = (score as int, hit@);
    top.insert(p, (score, hit));
    assert(scored_view(top@) =~= insert_ranked(sv, x));
    if top.len() > cap {
        let _ = top.pop();
        assert(scored_view(top@) =~= insert_ranked(sv, x).take(cap as int));
    }
}

/// "Go to file" over a fetched repo tree: every file whose lowercased
/// path passes the query's filters and matches its needles is scored,
/// the hits come best first (ties in tree order), at most
/// `BACKEND_CAP` of them, and the flag says whether more matched.
/// `None` when some candidate's score would leave its `i32`.
pub fn rank_tree_entries(
    entries: &Vec<TreeNode>,
    branch: &str,
    query: &str,
    repo_full: &str,
    extension: &str,
) -> (r: Option<(Vec<RawHit>, bool)>)
    ensures
        r is None <==> !tree_scores_fit(entries@, spec_parse(query@), ext_filter(extension@)),
        r matches Some((hits, clipped)) ==> {
            let s = tree_scored(
                entries@,
                spec_parse(query@),
                ext_filter(extension@),
                repo_full@,
                branch@,
            );
            &&& hits_view(hits@) == tree_ranked_hits(s)
            &&& clipped == (s.len() > BACKEND_CAP)
        },
{
    let g = grammar::parse(query);
    let needles = lowered(&g.terms);
    let ext = lower_chars(string_of(trim_dots_str(extension).as_slice()).as_str());
    let ghost gv = g@;
    let ghost ev = ext@;
    assert(views(needles@) == tree_needles(gv));
    let mut top: Vec<(i32, RawHit)> = Vec::new();
    let mut count: usize = 0;
    let mut i: usize = 0;
    while i < entries.len()
        invariant
            i <= entries@.len(),
            gv == g@,
            gv == spec_parse(query@),
            ev == ext@,
            ev == ext_filter(extension@),
            views(needles@) == tree_needles(gv),
            tree_scores_fit(entries@.take(i as int), gv, ev),
            scored_view(top@) == first_n(
                ranked(tree_scored(entries@.take(i as int), gv, ev, repo_full@, branch@)),
                BACKEND_CAP as int,
            ),
            count == tree_scored(entries@.take(i as int), gv, ev, repo_full@, branch@).len(),
            count <= i,
            top@.len() <= BACKEND_CAP,
        decreases entries.len() - i,
    {
        let ghost pre = entries@.take(i as int);
        let ghost next = entries@.take(i + 1);
        assert(next.drop_last() =~= pre);
        assert(next.last() == entries@[i as int]);
        let node = &entries[i];
        let mut scored: Option<i32> = None;
        if !node.is_dir {
            let pl = crate::text::to_lowercase(node.path.as_str());
            if tree_path_passes(&g, ext.as_slice(), pl.as_str()) {
                if !score_fits_check(pl.as_str(), needles.as_slice()) {
                    proof {
                        assert(!tree_scores_fit(entries@, gv, ev)) by {
                            assert(tree_candidate(gv, ev, entries@[i as int]));
                        }
                    }
                    return None;
                }
                scored = file_find_score(pl.as_str(), needles.as_slice());
            }
        }
        proof {
            assert forall|j: int|
                0 <= j < next.len() && tree_candidate(gv, ev, #[trigger] next[j]) implies score_fits(
                lowercase(next[j].path@),
                tree_needles(gv),
            ) by {
                if j < i {
                    assert(next[j] == pre[j]);
                }
            }
        }
        match scored {
            Some(sc) => {
                let hit = RawHit {
                    repo: repo_full.to_owned(),
                    path: node.path.clone(),
                    sha: node.sha.clone(),
                    branch: branch.to_owned(),
                    line: 1,
                    preview: Vec::new(),
                    match_count: 0,
                    stale: false,
                };
                assert(rows_view(hit.preview@) =~= Seq::<(u32, Seq<char>)>::empty());
                assert(hit@ == tree_hit(repo_full@, branch@, *node));
                proof {
                    lemma_ranked_push_first_n(
                        tree_scored(pre, gv, ev, repo_full@, branch@),
                        (sc as int, hit@),
                        BACKEND_CAP as int,
                    );
                }
                insert_capped(&mut top, sc, hit, BACKEND_CAP);
                count += 1;
            },
            None => {},
        }
        i += 1;
    }
    assert(entries@.take(entries@.len() as int) =~= entries@);
    let mut hits: Vec<RawHit> = Vec::new();
    let ghost tv = scored_view(top@);
    while top.len() > 0
        invariant
            hits@.len() + top@.len() == tv.len(),
            scored_view(top@) == tv.skip(hits@.len() as int),
            hits_view(hits@) == tv.take(hits@.len() as int).map_values(|e: (int, HitView)| e.1),
        decreases top.len(),
    {
        let ghost k = hits@.len() as int;
        let ghost old_top = top@;
        assert(tv.skip(k)[0] == tv[k]);
        assert(scored_view(old_top)[0] == (old_top[0].0 as int, old_top[0].1@));
        let (_, h) = top.remove(0);
        assert(h == old_top[0].1);
        assert(h@ == tv[k].1);
        let ghost before = hits@;
        hits.push(h);
        assert(hits_view(hits@) =~= hits_view(before).push(h@));
        assert(tv.take(k + 1) =~= tv.take(k).push(tv[k]));
        assert(hits_view(hits@) =~= tv.take(k + 1).map_values(|e: (int, HitView)| e.1));
        assert(top@ =~= old_top.skip(1));
        assert(scored_view(old_top).skip(1) =~= tv.skip(k + 1));
        assert(scored_view(top@) =~= scored_view(old_top).skip(1));
    }
    assert(tv.take(tv.len() as int) =~= tv);
    Some((hits, count > BACKEND_CAP))
}


// ---------------------------------------------------------------------
// Previews read from the provider
// ---------------------------------------------------------------------

/// The first `n` lines, numbered from 1.
pub open spec fn numbered_head(lines: Seq<Seq<char>>, n: int) -> Seq<(u32, Seq<char>)> {
    first_n(lines, n).map(|i: int, l: Seq<char>| ((i + 1) as u32, l))
}

/// A file-find preview: the blob's first three lines; none for a
/// binary blob.
pub open spec fn spec_blob_head(bytes: Seq<u8>) -> Option<Seq<(u32, Seq<char>)>> {
    if crate::sanitize::spec_is_binary(bytes) {
        None
    } else {
        Some(numbered_head(spec_lines(crate::sanitize::spec_sanitize(bytes)), 3))
    }
}

/// The first three lines of a blob as preview rows (`None` when the
/// blob is binary).
pub fn blob_head(bytes: &[u8]) -> (r: Option<Vec<(u32, String)>>)
    ensures
        match r {
            Some(v) => spec_blob_head(bytes@) == Some(rows_view(v@)),
            None => spec_blob_head(bytes@) is None,
        },
{
    if crate::sanitize::is_binary(bytes) {
        return None;
    }
    let text = crate::sanitize::sanitize(bytes);
    let cs = chars_of(text.as_str());
    let lines = split_lines(cs.as_slice());
    let ghost lv = lines_view(lines@);
    assert(lv == spec_lines(crate::sanitize::spec_sanitize(bytes@)));
    let mut out: Vec<(u32, String)> = Vec::new();
    let mut i: usize = 0;
    while i < lines.len() && i < 3
        invariant
            i <= lines@.len(),
            i <= 3,
            lv == lines_view(lines@),
            rows_view(out@) == lv.take(i as int).map(|j: int, l: Seq<char>| ((j + 1) as u32, l)),
        decreases 3 - i,
    {
        let ghost before = out@;
        let row = string_of(lines[i].as_slice());
        out.push(((i + 1) as u32, row));
        assert(rows_view(out@) =~= rows_view(before).push(((i + 1) as u32, lv[i as int])));
        i += 1;
        assert(rows_view(out@) =~= lv.take(i as int).map(|j: int, l: Seq<char>| ((j + 1) as u32, l)));
    }
    if lines.len() <= 3 {
        assert(lv.take(i as int) =~= lv);
    }
    Some(out)
}

/// `hit` with `preview` in place of its rows.
fn with_preview(hit: &RawHit, preview: Vec<(u32, String)>) -> (r: RawHit)
    ensures
        r@ == (HitView { preview: rows_view(preview@), ..hit@ }),
{
    RawHit {
        repo: hit.repo.clone(),
        path: hit.path.clone(),
        sha: hit.sha.clone(),
        branch: hit.branch.clone(),
        line: hit.line,
        preview,
        match_count: hit.match_count,
        stale: hit.stale,
    }
}

/// `new` is `old` with, at most, a blob head as its preview.
pub open spec fn head_applied(old: HitView, new: HitView) -> bool {
    &&& new == (HitView { preview: new.preview, ..old })
    &&& (new.preview == old.preview || exists|b: Seq<u8>| spec_blob_head(b) == Some(new.preview))
}

/// `new` is `old` with blob heads tried on the first `PREVIEW_CAP`
/// hits and every other hit unchanged.
pub open spec fn heads_added(old: Seq<HitView>, new: Seq<HitView>) -> bool {
    &&& new.len() == old.len()
    &&& forall|i: int| 0 <= i < old.len() && i < PREVIEW_CAP ==> head_applied(old[i], #[trigger] new[i])
    &&& forall|i: int| PREVIEW_CAP <= i < old.len() ==> #[trigger] new[i] == old[i]
}

/// File-find previews: each of the first `PREVIEW_CAP` hits whose blob
/// the provider serves, and which is text, shows the blob's first three
/// lines.
pub fn add_blob_heads<P: Provider + ?Sized>(provider: &P, hits: &mut Vec<RawHit>)
    ensures
        heads_added(hits_view(old(hits)@), hits_view(final(hits)@)),
{
    let ghost orig = hits_view(hits@);
    let mut i: usize = 0;
    while i < hits.len() && i < PREVIEW_CAP
        invariant
            i <= hits@.len(),
            i <= PREVIEW_CAP,
            orig.len() == hits@.len(),
            forall|k: int| 0 <= k < i ==> head_applied(orig[k], #[trigger] hits_view(hits@)[k]),
            forall|k: int| i <= k < orig.len() ==> #[trigger] hits_view(hits@)[k] == orig[k],
        decreases hits.len() - i,
    {
        let fetched = provider.fetch_blob(hits[i].repo.as_str(), hits[i].sha.as_str());
        if let Ok(bytes) = fetched {
            if let Some(rows) = blob_head(bytes.as_slice()) {
                let ghost before = hits_view(hits@);
                assert(spec_blob_head(bytes@) == Some(rows_view(rows@)));
                assert(before[i as int] == orig[i as int]);
                let h = with_preview(&hits[i], rows);
                let ghost hv = h@;
                assert(spec_blob_head(bytes@) == Some(hv.preview));
                hits.set(i, h);
                assert(hits_view(hits@)[i as int] == hv);
                assert(head_applied(orig[i as int], hits_view(hits@)[i as int]));
                assert forall|k: int| 0 <= k < hits@.len() && k != i implies #[trigger] hits_view(hits@)[k] == before[k] by {}
            }
        }
        i += 1;
    }
}

/// Grep preview from the provider: fetch the blob and locate the
/// needles in it. `Some` only with a located preview of a blob the
/// provider served.
pub fn locate_matches<P: Provider + ?Sized>(
    provider: &P,
    repo: &str,
    sha: &str,
    needles: &[String],
) -> (r: Option<LocatedPreview>)
    ensures
        r is Some ==> exists|b: Seq<u8>| located_view(r) == spec_locate_in_blob(b, views(needles@)),
{
    match provider.fetch_blob(repo, sha) {
        Ok(bytes) => {
            let r = locate_in_blob(bytes.as_slice(), needles);
            assert(located_view(r) == spec_locate_in_blob(bytes@, views(needles@)));
            r
        },
        Err(_) => None,
    }
}

/// The scope label's repo, for a `repo:` scope.
pub open spec fn scope_repo(scope: Seq<char>) -> Option<Seq<char>> {
    if starts(scope, "repo:"@) {
        Some(scope.skip(5))
    } else {
        None
    }
}

fn repo_of_scope(scope_label: &str) -> (r: Option<String>)
    ensures
        opt_string_view(r) == scope_repo(scope_label@),
{
    let s = chars_of(scope_label);
    let p = chars_of("repo:");
    proof {
        reveal_strlit("repo:");
    }
    if starts_with(s.as_slice(), p.as_slice()) {
        let rest = crate::text::slice_chars(s.as_slice(), 5, s.len());
        assert(rest@ =~= scope_label@.skip(5));
        Some(string_of(rest.as_slice()))
    } else {
        None
    }
}

pub open spec fn opt_string_view(o: Option<String>) -> Option<Seq<char>> {
    match o {
        Some(s) => Some(s@),
        None => None,
    }
}

/// A tree file find's answer for the tree `nodes` read from `branch`:
/// the ranked hits (blob heads aside) and the clipped flag.
pub open spec fn tree_find_answers(
    nodes: Seq<TreeNode>,
    branch: Seq<char>,
    g: GrammarView,
    ext: Seq<char>,
    repo: Seq<char>,
    hits: Seq<HitView>,
    clipped: bool,
) -> bool {
    let s = tree_scored(nodes, g, ext, repo, branch);
    &&& heads_added(tree_ranked_hits(s), hits)
    &&& clipped == (s.len() > BACKEND_CAP)
}

/// File find over the repo's tree: the provider's tree of `repo_full`
/// ranked by `rank_tree_entries`, blob heads on the first hits. The
/// provider's error passes through; a query too long to rank fails as
/// `Other`.
pub fn tree_file_find<P: Provider + ?Sized>(
    provider: &P,
    query: &str,
    repo_full: &str,
    extension: &str,
) -> (r: ProviderResult<(Vec<RawHit>, SearchOutcome)>)
    ensures
        r matches Ok((hits, out)) ==> (exists|nodes: Seq<TreeNode>, branch: Seq<char>|
            #[trigger] tree_find_answers(
                nodes,
                branch,
                spec_parse(query@),
                ext_filter(extension@),
                repo_full@,
                hits_view(hits@),
                out.clipped,
            )),
        r matches Ok((hits, out)) ==> out.index_as_of is None && out.client_filtered == 0,
        r matches Ok((hits, out)) ==> views(out.unfiltered@) == grammar::spec_unexpressible(
            spec_parse(query@),
        ),
{
    let tree = match provider.fetch_tree(repo_full, None) {
        Ok(t) => t,
        Err(e) => return Err(e),
    };
    match rank_tree_entries(&tree.entries, tree.branch.as_str(), query, repo_full, extension) {
        None => Err(crate::provider::ProviderError::other("query too long to rank")),
        Some((hits, clipped)) => {
            let mut hits = hits;
            let ghost ranked_hits = hits_view(hits@);
            add_blob_heads(provider, &mut hits);
            let g = grammar::parse(query);
            let unfiltered = grammar::unexpressible(&g);
            let out = SearchOutcome { clipped, index_as_of: None, client_filtered: 0, unfiltered };
            assert(g@ == spec_parse(query@));
            assert(views(out.unfiltered@) == grammar::spec_unexpressible(spec_parse(query@)));
            assert(heads_added(ranked_hits, hits_view(hits@)));
            let r = (hits, out);
            assert(tree_find_answers(
                tree.entries@,
                tree.branch@,
                spec_parse(query@),
                ext_filter(extension@),
                repo_full@,
                hits_view(r.0@),
                r.1.clipped,
            ));
            assert(exists|nodes: Seq<TreeNode>, branch: Seq<char>|
                #[trigger] tree_find_answers(
                    nodes,
                    branch,
                    spec_parse(query@),
                    ext_filter(extension@),
                    repo_full@,
                    hits_view(r.0@),
                    r.1.clipped,
                ));
            Ok(r)
        },
    }
}


// ---------------------------------------------------------------------
// Code search and the view's entry point
// ---------------------------------------------------------------------

/// The hit a code-search match starts as: the provider's line (else
/// line 1), no preview, one match per highlighted fragment (counted in
/// a `u32`), stale when the provider's index is behind.
pub open spec fn spec_hit_from_match(m: CodeMatch) -> HitView {
    HitView {
        repo: m.repo@,
        path: m.path@,
        sha: m.sha@,
        branch: m.branch@,
        line: match m.line {
            Some(l) => l,
            None => 1,
        },
        preview: seq![],
        match_count: m.matches@.len() as u32,
        stale: !m.located,
    }
}

/// The hit a code-search match starts as.
pub fn hit_from_match(m: &CodeMatch) -> (r: RawHit)
    ensures
        r@ == spec_hit_from_match(*m),
{
    let line = match m.line {
        Some(l) => l,
        None => 1,
    };
    let r = RawHit {
        repo: m.repo.clone(),
        path: m.path.clone(),
        sha: m.sha.clone(),
        branch: m.branch.clone(),
        line,
        preview: Vec::new(),
        match_count: m.matches.len() as u32,
        stale: !m.located,
    };
    assert(rows_view(r.preview@) =~= Seq::<(u32, Seq<char>)>::empty());
    r
}

/// A hit refined by locating its matches: the first matched line, the
/// preview, the matched-line count; located client-side, so current.
pub open spec fn located_hit(h: HitView, loc: (u32, Seq<(u32, Seq<char>)>, u32)) -> HitView {
    HitView { line: loc.0, preview: loc.1, match_count: loc.2, stale: false, ..h }
}

/// `hit` refined by a located preview.
pub fn with_location(hit: RawHit, loc: LocatedPreview) -> (r: RawHit)
    ensures
        r@ == located_hit(hit@, (loc.0, rows_view(loc.1@), loc.2)),
{
    let (line, preview, count) = loc;
    RawHit { line, preview, match_count: count, stale: false, ..hit }
}

/// A provider match became hit `h`: as it came (`hit_from_match`), for
/// grep possibly located in its blob, for file find possibly with a
/// blob head as its preview.
pub open spec fn hit_came_from(kind: SearchKind, m: CodeMatch, h: HitView) -> bool {
    match kind {
        SearchKind::Grep => h == spec_hit_from_match(m) || exists|loc: (u32, Seq<(u32, Seq<char>)>, u32)|
            h == #[trigger] located_hit(spec_hit_from_match(m), loc),
        SearchKind::FileFind => head_applied(spec_hit_from_match(m), h),
    }
}

/// What code search answers for the provider's answer `ans` (its
/// matches having become `batch`, one hit per match in order): the
/// hits the grammar keeps — or, for a repo-scoped grep that kept
/// nothing, possibly the tarball grep's — and an outcome that is
/// clipped and dated as the provider said, counts the hits the grammar
/// dropped, and names the tokens nothing could express.
pub open spec fn code_answered(
    kind: SearchKind,
    g: GrammarView,
    scope: Seq<char>,
    ans: SearchCodeResult,
    batch: Seq<RawHit>,
    hits: Seq<RawHit>,
    out: SearchOutcome,
) -> bool {
    let kept = batch.filter(grammar::keep_pred(g));
    &&& batch.len() == ans.hits@.len()
    &&& forall|i: int| 0 <= i < batch.len() ==> hit_came_from(kind, ans.hits@[i], #[trigger] batch[i]@)
    &&& out.clipped == ans.truncated
    &&& out.index_as_of == ans.index_as_of
    &&& out.client_filtered == batch.len() - kept.len()
    &&& views(out.unfiltered@) == grammar::spec_unexpressible(g)
    &&& (hits == kept || (kind == SearchKind::Grep && kept.len() == 0 && tarball_fallback(g, scope, hits)))
}

/// `hits` are what grepping the scope repo's tarball answers.
pub open spec fn tarball_fallback(g: GrammarView, scope: Seq<char>, hits: Seq<RawHit>) -> bool {
    match scope_repo(scope) {
        Some(repo) => exists|archive: Seq<u8>, branch: Seq<char>|
            #[trigger] super::tarball::tarball_answers(archive, branch, g, repo, hits_view(hits)),
        None => false,
    }
}

/// The hits and outcome of a code search whose matches became `batch`:
/// the hits the grammar keeps, in order; clipped and dated as the
/// provider's answer says; the count the grammar dropped; the tokens
/// nothing could express.
pub fn code_outcome(g: &Grammar, batch: Vec<RawHit>, truncated: bool, index_as_of: Option<String>) -> (r: (
    Vec<RawHit>,
    SearchOutcome,
))
    ensures
        r.0@ == batch@.filter(grammar::keep_pred(g@)),
        r.1.clipped == truncated,
        r.1.index_as_of == index_as_of,
        r.1.client_filtered == batch@.len() - r.0@.len(),
        views(r.1.unfiltered@) == grammar::spec_unexpressible(g@),
{
    let unfiltered = grammar::unexpressible(g);
    let (kept, dropped) = grammar::filter_hits(g, batch);
    (kept, SearchOutcome { clipped: truncated, index_as_of, client_filtered: dropped, unfiltered })
}

/// Code search through the provider, for grep (content) and for file
/// find outside a repo scope: the wire query from `code_query`; each
/// match becomes a hit (`hit_from_match`), grep hits with highlighted
/// fragments located in their blobs while the preview budget lasts,
/// file-find hits get blob heads; `code_outcome` then keeps what the
/// grammar allows and reports the provider's clip flag and index date.
/// A repo-scoped grep that kept nothing falls back to grepping the
/// tarball. The provider's error passes through.
pub fn code_search<P: Provider + ?Sized>(
    provider: &P,
    kind: SearchKind,
    query: &str,
    scope_label: &str,
    extension: &str,
) -> (r: ProviderResult<(Vec<RawHit>, SearchOutcome)>)
    ensures
        r matches Ok((hits, out)) ==> exists|ans: SearchCodeResult, batch: Seq<RawHit>|
            #[trigger] code_answered(kind, spec_parse(query@), scope_label@, ans, batch, hits@, out),
{
    let q = code_query(kind, query, scope_label, extension);
    let g = grammar::parse(query);
    let result = match provider.search_code(q.as_str()) {
        Ok(r) => r,
        Err(e) => return Err(e),
    };
    let mut batch: Vec<RawHit> = Vec::new();
    let mut budget: usize = PREVIEW_CAP;
    let mut i: usize = 0;
    while i < result.hits.len()
        invariant
            i <= result.hits@.len(),
            batch@.len() == i,
            forall|j: int| 0 <= j < i ==> #[trigger] batch@[j]@ == spec_hit_from_match(result.hits@[j]) || (kind
                == SearchKind::Grep && exists|loc: (u32, Seq<(u32, Seq<char>)>, u32)|
                batch@[j]@ == #[trigger] located_hit(spec_hit_from_match(result.hits@[j]), loc)),
        decreases result.hits.len() - i,
    {
        let item = &result.hits[i];
        let mut hit = hit_from_match(item);
        if kind == SearchKind::Grep && item.matches.len() > 0 && budget > 0 {
            match locate_matches(provider, hit.repo.as_str(), hit.sha.as_str(), item.matches.as_slice()) {
                Some(loc) => {
                    hit = with_location(hit, loc);
                    budget -= 1;
                },
                None => {},
            }
        }
        batch.push(hit);
        i += 1;
    }
    let ghost before = batch@;
    if kind == SearchKind::FileFind {
        add_blob_heads(provider, &mut batch);
    }
    proof {
        assert forall|j: int| 0 <= j < batch@.len() implies hit_came_from(kind, result.hits@[j], #[trigger] batch@[j]@) by {
            if kind == SearchKind::FileFind {
                assert(before[j]@ == spec_hit_from_match(result.hits@[j]));
                assert(hits_view(before)[j] == before[j]@);
                assert(hits_view(batch@)[j] == batch@[j]@);
                if j < PREVIEW_CAP {
                    assert(head_applied(hits_view(before)[j], hits_view(batch@)[j]));
                }
            }
        }
    }
    let ghost full = batch@;
    let (kept, out) = code_outcome(&g, batch, result.truncated, result.index_as_of);
    let mut hits = kept;
    if kind == SearchKind::Grep && hits.len() == 0 {
        if let Some(repo) = repo_of_scope(scope_label) {
            if let Some(found) = super::tarball::tarball_grep(provider, repo.as_str(), &g) {
                let ghost fv = found@;
                hits = found;
                proof {
                    let (a, b) = choose|a: Seq<u8>, b: Seq<char>|
                        #[trigger] super::tarball::tarball_answers(a, b, g@, repo@, hits_view(fv));
                    assert(hits@ == fv);
                    assert(scope_repo(scope_label@) == Some(repo@));
                    assert(super::tarball::tarball_answers(a, b, g@, scope_repo(scope_label@)->Some_0, hits_view(hits@)));
                }
                assert(tarball_fallback(g@, scope_label@, hits@));
            }
        }
    }
    assert(code_answered(kind, g@, scope_label@, result, full, hits@, out));
    let res = (hits, out);
    assert(code_answered(kind, spec_parse(query@), scope_label@, result, full, res.0@, res.1));
    Ok(res)
}

/// The view's search: a repo-scoped file find runs over the repo's
/// tree (`tree_file_find`, with the repo after `repo:`), everything
/// else goes through code search (`code_search`).
pub fn run_view_search<P: Provider + ?Sized>(
    provider: &P,
    kind: SearchKind,
    query: &str,
    scope_label: &str,
    extension: &str,
) -> (r: ProviderResult<(Vec<RawHit>, SearchOutcome)>)
    ensures
        r matches Ok((hits, out)) ==> views(out.unfiltered@) == grammar::spec_unexpressible(
            spec_parse(query@),
        ),
        kind == SearchKind::FileFind && scope_repo(scope_label@) is Some ==> (r matches Ok((hits, out))
            ==> exists|nodes: Seq<TreeNode>, branch: Seq<char>|
            #[trigger] tree_find_answers(
                nodes,
                branch,
                spec_parse(query@),
                ext_filter(extension@),
                scope_label@.skip(5),
                hits_view(hits@),
                out.clipped,
            )),
        !(kind == SearchKind::FileFind && scope_repo(scope_label@) is Some) ==> (r matches Ok((hits, out))
            ==> exists|ans: SearchCodeResult, batch: Seq<RawHit>|
            #[trigger] code_answered(kind, spec_parse(query@), scope_label@, ans, batch, hits@, out)),
{
    if kind == SearchKind::FileFind {
        if let Some(repo) = repo_of_scope(scope_label) {
            assert(scope_repo(scope_label@) == Some(repo@));
            assert(repo@ == scope_label@.skip(5));
            let r = tree_file_find(provider, query, repo.as_str(), extension);
            return r;
        }
    }
    code_search(provider, kind, query, scope_label, extension)
}

} // verus!
