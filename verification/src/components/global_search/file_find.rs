//! What "go to file" finds: a path matches a query exactly when each
//! needle with text occurs in it in order, not necessarily contiguously;
//! the matches come best first, ties in tree order, and only the first
//! `BACKEND_CAP` of them.
use super::backend::{
    head_applied,
    needle_score,
    next_pos,
    partial_total,
    spec_file_find_score,
    subseq,
    tree_find_answers,
    tree_hit,
    tree_needles,
    tree_path_kept,
    tree_scored,
    BACKEND_CAP,
};
use super::grammar::GrammarView;
use super::model::HitView;
use super::rank::{best_first, first_n, insert_pos, insert_ranked, lemma_insert_pos, lemma_ranked_is_stable_best_first, ranked, score_is, with_score};
use crate::provider::TreeNode;
use crate::text::{after_last, ends, has_sub, lowercase, starts};
use vstd::prelude::*;

verus! {

/// `idx` places each char of `needle` in `hay`, at strictly increasing
/// positions.
pub open spec fn placed_at(hay: Seq<char>, needle: Seq<char>, idx: Seq<int>) -> bool {
    &&& idx.len() == needle.len()
    &&& forall|i: int| 0 <= i < idx.len() ==> 0 <= #[trigger] idx[i] < hay.len() && hay[idx[i]] == needle[i]
    &&& forall|i: int, j: int| 0 <= i < j < idx.len() ==> #[trigger] idx[i] < #[trigger] idx[j]
}

/// `needle` occurs in `hay` in order, not necessarily contiguously.
pub open spec fn is_subsequence(hay: Seq<char>, needle: Seq<char>) -> bool {
    exists|idx: Seq<int>| #[trigger] placed_at(hay, needle, idx)
}

proof fn lemma_next_pos_found(hay: Seq<char>, c: char, from: int)
    requires
        0 <= from,
    ensures
        next_pos(hay, c, from) matches Some(p) ==> from <= p < hay.len() && hay[p] == c,
    decreases hay.len() - from,
{
    if from < hay.len() && hay[from] != c {
        lemma_next_pos_found(hay, c, from + 1);
    }
}

/// The first occurrence from `from` on is no later than any occurrence.
proof fn lemma_next_pos_first(hay: Seq<char>, c: char, from: int, p: int)
    requires
        0 <= from <= p < hay.len(),
        hay[p] == c,
    ensures
        next_pos(hay, c, from) matches Some(q) && q <= p,
    decreases p - from,
{
    if hay[from] != c {
        lemma_next_pos_first(hay, c, from + 1, p);
    }
}

/// The greedy match places the needle: every position it takes lies
/// before its next search start.
proof fn lemma_greedy_places(hay: Seq<char>, needle: Seq<char>) -> (idx: Seq<int>)
    requires
        subseq(hay, needle) is Some,
    ensures
        placed_at(hay, needle, idx),
        forall|i: int| 0 <= i < idx.len() ==> #[trigger] idx[i] < subseq(hay, needle)->Some_0.1,
        0 <= subseq(hay, needle)->Some_0.1,
    decreases needle.len(),
{
    if needle.len() == 0 {
        seq![]
    } else {
        let front = needle.drop_last();
        let idx0 = lemma_greedy_places(hay, front);
        let st0 = subseq(hay, front)->Some_0;
        lemma_next_pos_found(hay, needle.last(), st0.1);
        let pos = next_pos(hay, needle.last(), st0.1)->Some_0;
        let idx = idx0.push(pos);
        assert forall|i: int| 0 <= i < idx.len() implies 0 <= #[trigger] idx[i] < hay.len() && hay[idx[i]]
            == needle[i] by {
            if i < idx0.len() {
                assert(idx[i] == idx0[i]);
                assert(front[i] == needle[i]);
            }
        }
        assert forall|i: int, j: int| 0 <= i < j < idx.len() implies #[trigger] idx[i] < #[trigger] idx[j] by {
            if j < idx0.len() {
                assert(idx[i] == idx0[i] && idx[j] == idx0[j]);
            } else {
                assert(idx[i] == idx0[i]);
            }
        }
        assert forall|i: int| 0 <= i < idx.len() implies #[trigger] idx[i] < subseq(hay, needle)->Some_0.1 by {
            if i < idx0.len() {
                assert(idx[i] == idx0[i]);
            }
        }
        idx
    }
}

/// Wherever the needle can be placed, the greedy match succeeds, and
/// its next search start is no later than one past the last placement.
proof fn lemma_greedy_finds(hay: Seq<char>, needle: Seq<char>, idx: Seq<int>)
    requires
        placed_at(hay, needle, idx),
    ensures
        subseq(hay, needle) is Some,
        needle.len() > 0 ==> subseq(hay, needle)->Some_0.1 <= idx.last() + 1,
        needle.len() == 0 ==> subseq(hay, needle)->Some_0.1 == 0,
    decreases needle.len(),
{
    if needle.len() > 0 {
        let front = needle.drop_last();
        let idx0 = idx.drop_last();
        assert(placed_at(hay, front, idx0)) by {
            assert forall|i: int| 0 <= i < idx0.len() implies 0 <= #[trigger] idx0[i] < hay.len() && hay[idx0[i]]
                == front[i] by {
                assert(idx0[i] == idx[i]);
            }
            assert forall|i: int, j: int| 0 <= i < j < idx0.len() implies #[trigger] idx0[i] < #[trigger] idx0[j] by {
                assert(idx0[i] == idx[i] && idx0[j] == idx[j]);
            }
        }
        lemma_greedy_finds(hay, front, idx0);
        lemma_greedy_places(hay, front);
        let st0 = subseq(hay, front)->Some_0;
        let last = idx.len() - 1;
        if front.len() > 0 {
            assert(idx0.last() == idx[last - 1]);
            assert(idx[last - 1] < idx[last]);
        }
        assert(0 <= idx[last] < hay.len() && hay[idx[last]] == needle[last]);
        lemma_next_pos_first(hay, needle.last(), st0.1, idx[last]);
    }
}

/// The greedy match succeeds exactly on subsequences.
pub proof fn lemma_subseq_iff(hay: Seq<char>, needle: Seq<char>)
    ensures
        subseq(hay, needle) is Some <==> is_subsequence(hay, needle),
{
    if subseq(hay, needle) is Some {
        let idx = lemma_greedy_places(hay, needle);
        assert(placed_at(hay, needle, idx));
    }
    if is_subsequence(hay, needle) {
        let idx = choose|idx: Seq<int>| #[trigger] placed_at(hay, needle, idx);
        lemma_greedy_finds(hay, needle, idx);
    }
}

/// A contiguous occurrence is an in-order one.
proof fn lemma_sub_is_subsequence(hay: Seq<char>, needle: Seq<char>, at: int)
    requires
        0 <= at,
        at + needle.len() <= hay.len(),
        hay.subrange(at, at + needle.len()) == needle,
    ensures
        is_subsequence(hay, needle),
{
    let idx = Seq::new(needle.len(), |t: int| at + t);
    assert forall|i: int| 0 <= i < idx.len() implies 0 <= #[trigger] idx[i] < hay.len() && hay[idx[i]]
        == needle[i] by {
        assert(hay.subrange(at, at + needle.len())[i] == hay[at + i]);
    }
    assert(placed_at(hay, needle, idx));
}

/// Some `c` is the last one in `p`.
proof fn lemma_last_exists(p: Seq<char>, c: char, i: int)
    requires
        0 <= i < p.len(),
        p[i] == c,
    ensures
        exists|k: int| 0 <= k < p.len() && p[k] == c && forall|j: int| k < j < p.len() ==> p[j] != c,
    decreases p.len() - i,
{
    if exists|j: int| i < j < p.len() && p[j] == c {
        let j = choose|j: int| i < j < p.len() && p[j] == c;
        lemma_last_exists(p, c, j);
    } else {
        assert(forall|j: int| i < j < p.len() ==> p[j] != c);
    }
}

/// The text after the last `c` is a tail of `p`.
proof fn lemma_after_last_tail(p: Seq<char>, c: char) -> (k: int)
    ensures
        0 <= k <= p.len(),
        after_last(p, c) == p.skip(k),
{
    if exists|i: int| 0 <= i < p.len() && p[i] == c {
        let i = choose|i: int| 0 <= i < p.len() && p[i] == c;
        lemma_last_exists(p, c, i);
        let k = choose|k: int| 0 <= k < p.len() && p[k] == c && forall|j: int| k < j < p.len() ==> p[j] != c;
        k + 1
    } else {
        assert(p.skip(0) =~= p);
        0
    }
}

/// An occurrence in a tail of `p` is one in `p`.
proof fn lemma_tail_sub(p: Seq<char>, k: int, needle: Seq<char>)
    requires
        0 <= k <= p.len(),
        has_sub(p.skip(k), needle),
    ensures
        is_subsequence(p, needle),
{
    let f = p.skip(k);
    let i = choose|i: int| 0 <= i && i + needle.len() <= f.len() && #[trigger] f.subrange(i, i + needle.len()) == needle;
    assert(p.subrange(k + i, k + i + needle.len()) =~= f.subrange(i, i + needle.len()));
    lemma_sub_is_subsequence(p, needle, k + i);
}

/// One needle scores exactly when it is a subsequence of the path.
pub proof fn lemma_needle_scores_iff(path: Seq<char>, needle: Seq<char>)
    ensures
        needle_score(path, after_last(path, '/'), needle) is Some <==> is_subsequence(path, needle),
{
    let file = after_last(path, '/');
    let k = lemma_after_last_tail(path, '/');
    lemma_subseq_iff(path, needle);
    if starts(file, needle) {
        assert(file.subrange(0int, 0int + needle.len()) == needle);
        assert(has_sub(file, needle));
        lemma_tail_sub(path, k, needle);
    } else if has_sub(file, needle) {
        lemma_tail_sub(path, k, needle);
    } else if has_sub(path, needle) {
        assert(path.skip(0) =~= path);
        lemma_tail_sub(path, 0, needle);
    }
}

/// The first `k` needles total exactly when each with text is a
/// subsequence of the path.
proof fn lemma_partial_total_iff(path: Seq<char>, needles: Seq<Seq<char>>, k: int)
    requires
        0 <= k <= needles.len(),
    ensures
        partial_total(path, needles, k) is Some <==> forall|j: int|
            0 <= j < k && needles[j].len() > 0 ==> is_subsequence(path, #[trigger] needles[j]),
    decreases k,
{
    if k > 0 {
        lemma_partial_total_iff(path, needles, k - 1);
        lemma_needle_scores_iff(path, needles[k - 1]);
    }
}

/// With no needle text the first `k` needles total 0.
proof fn lemma_empty_total(path: Seq<char>, needles: Seq<Seq<char>>, k: int)
    requires
        0 <= k <= needles.len(),
        forall|j: int| 0 <= j < needles.len() ==> needles[j].len() == 0,
    ensures
        partial_total(path, needles, k) == Some(0int),
    decreases k,
{
    if k > 0 {
        lemma_empty_total(path, needles, k - 1);
    }
}

/// "Go to file" finds a path exactly when every needle with text occurs
/// in it in order, not necessarily contiguously (a substring counts);
/// when no needle has text (or there are none) the path scores 0.
pub proof fn lemma_file_find_iff_subsequences(path: Seq<char>, needles: Seq<Seq<char>>)
    ensures
        spec_file_find_score(path, needles) is Some <==> forall|j: int|
            0 <= j < needles.len() && needles[j].len() > 0 ==> is_subsequence(path, #[trigger] needles[j]),
        (forall|j: int| 0 <= j < needles.len() ==> needles[j].len() == 0) ==> spec_file_find_score(path, needles)
            == Some(0int),
{
    lemma_partial_total_iff(path, needles, needles.len() as int);
    if forall|j: int| 0 <= j < needles.len() ==> needles[j].len() == 0 {
        lemma_empty_total(path, needles, needles.len() as int);
    }
}

/// Ranking keeps whatever holds of every item.
proof fn lemma_ranked_keeps<T>(s: Seq<(int, T)>, p: spec_fn((int, T)) -> bool)
    requires
        forall|k: int| 0 <= k < s.len() ==> p(#[trigger] s[k]),
    ensures
        forall|k: int| 0 <= k < ranked(s).len() ==> p(#[trigger] ranked(s)[k]),
    decreases s.len(),
{
    if s.len() > 0 {
        let t = s.drop_last();
        assert forall|k: int| 0 <= k < t.len() implies p(#[trigger] t[k]) by {
            assert(t[k] == s[k]);
        }
        lemma_ranked_keeps(t, p);
        let rt = ranked(t);
        let x = s.last();
        lemma_insert_pos(rt, x.0);
        let q = insert_pos(rt, x.0);
        let r = insert_ranked(rt, x);
        assert(r == ranked(s));
        assert forall|k: int| 0 <= k < r.len() implies p(#[trigger] r[k]) by {
            if k < q {
                assert(r[k] == rt[k]);
            } else if k == q {
                assert(r[k] == x);
            } else {
                assert(r[k] == rt[k - 1]);
            }
        }
    }
}

/// Every scored tree hit is anchored at line 1 of `repo` on `branch`.
proof fn lemma_tree_scored_anchor(
    nodes: Seq<TreeNode>,
    g: GrammarView,
    ext: Seq<char>,
    repo: Seq<char>,
    branch: Seq<char>,
)
    ensures
        forall|k: int|
            0 <= k < tree_scored(nodes, g, ext, repo, branch).len() ==> anchored(
                repo,
                branch,
            )(#[trigger] tree_scored(nodes, g, ext, repo, branch)[k]),
    decreases nodes.len(),
{
    if nodes.len() > 0 {
        lemma_tree_scored_anchor(nodes.drop_last(), g, ext, repo, branch);
        let prev = tree_scored(nodes.drop_last(), g, ext, repo, branch);
        let cur = tree_scored(nodes, g, ext, repo, branch);
        assert forall|k: int| 0 <= k < cur.len() implies anchored(repo, branch)(#[trigger] cur[k]) by {
            if k < prev.len() {
                assert(cur[k] == prev[k]);
                assert(anchored(repo, branch)(prev[k]));
            }
        }
    }
}

/// The scored entry comes from a file of `nodes` whose lowercased path
/// passes the query's filters.
pub open spec fn from_kept_file(
    nodes: Seq<TreeNode>,
    g: GrammarView,
    ext: Seq<char>,
) -> spec_fn((int, HitView)) -> bool {
    |e: (int, HitView)|
        tree_path_kept(g, ext, lowercase(e.1.path)) && exists|n: int|
            0 <= n < nodes.len() && !nodes[n].is_dir && #[trigger] nodes[n].path@ == e.1.path
}

proof fn lemma_tree_scored_from_files(
    nodes: Seq<TreeNode>,
    g: GrammarView,
    ext: Seq<char>,
    repo: Seq<char>,
    branch: Seq<char>,
)
    ensures
        forall|k: int|
            0 <= k < tree_scored(nodes, g, ext, repo, branch).len() ==> from_kept_file(nodes, g, ext)(
                #[trigger] tree_scored(nodes, g, ext, repo, branch)[k],
            ),
    decreases nodes.len(),
{
    if nodes.len() > 0 {
        let d = nodes.drop_last();
        lemma_tree_scored_from_files(d, g, ext, repo, branch);
        let prev = tree_scored(d, g, ext, repo, branch);
        let cur = tree_scored(nodes, g, ext, repo, branch);
        assert forall|k: int| 0 <= k < cur.len() implies from_kept_file(nodes, g, ext)(#[trigger] cur[k]) by {
            if k < prev.len() {
                assert(cur[k] == prev[k]);
                assert(from_kept_file(d, g, ext)(prev[k]));
                let n = choose|n: int| 0 <= n < d.len() && !d[n].is_dir && #[trigger] d[n].path@ == prev[k].1.path;
                assert(nodes[n] == d[n]);
            } else {
                assert(nodes[nodes.len() - 1] == nodes.last());
            }
        }
    }
}

/// Go to file honours the query: every hit is a file of the tree whose
/// lowercased path holds none of the query's negated terms, ends with
/// the extension box's `.ext` (when one is given) and the inline
/// `extension:`'s, and whose extension (the lowercased text after the
/// last `.`) is one of the query language's extensions when that
/// language is in the table, and none of the negated language's when
/// that one is.
pub proof fn lemma_tree_find_honours_the_query(
    nodes: Seq<TreeNode>,
    branch: Seq<char>,
    g: GrammarView,
    ext: Seq<char>,
    repo: Seq<char>,
    hits: Seq<HitView>,
    clipped: bool,
)
    requires
        tree_find_answers(nodes, branch, g, ext, repo, hits, clipped),
    ensures
        forall|i: int|
            0 <= i < hits.len() ==> {
                let p = lowercase(#[trigger] hits[i].path);
                let e = lowercase(after_last(p, '.'));
                &&& exists|n: int| 0 <= n < nodes.len() && !nodes[n].is_dir && #[trigger] nodes[n].path@ == hits[i].path
                &&& forall|k: int| 0 <= k < g.negated.len() ==> !has_sub(p, #[trigger] g.negated[k])
                &&& ext.len() > 0 ==> ends(p, seq!['.'] + ext)
                &&& (g.extension matches Some(x) ==> ends(p, seq!['.'] + lowercase(x)))
                &&& (g.language matches Some(l) ==> (super::grammar::spec_lang_exts(l) matches Some(exts)
                    ==> exts.contains(e)))
                &&& (g.negated_language matches Some(l) ==> (super::grammar::spec_lang_exts(l) matches Some(exts)
                    ==> !exts.contains(e)))
            },
{
    lemma_tree_find_ranked(nodes, branch, g, ext, repo, hits, clipped);
    let s = tree_scored(nodes, g, ext, repo, branch);
    let rk = ranked(s);
    let r = first_n(rk, BACKEND_CAP as int);
    lemma_tree_scored_from_files(nodes, g, ext, repo, branch);
    lemma_ranked_keeps(s, from_kept_file(nodes, g, ext));
    assert forall|i: int| 0 <= i < hits.len() implies from_kept_file(nodes, g, ext)(r[i]) && hits[i].path == r[i].1.path by {
        assert(r[i] == rk[i]);
        assert(hits[i] == (HitView { preview: hits[i].preview, ..r[i].1 }));
    }
}

proof fn lemma_ranked_len<T>(s: Seq<(int, T)>)
    ensures
        ranked(s).len() == s.len(),
    decreases s.len(),
{
    if s.len() > 0 {
        lemma_ranked_len(s.drop_last());
        lemma_insert_pos(ranked(s.drop_last()), s.last().0);
    }
}

proof fn lemma_tree_scored_has(
    nodes: Seq<TreeNode>,
    g: GrammarView,
    ext: Seq<char>,
    repo: Seq<char>,
    branch: Seq<char>,
    n: int,
)
    requires
        0 <= n < nodes.len(),
        super::backend::tree_candidate(g, ext, nodes[n]),
        spec_file_find_score(lowercase(nodes[n].path@), tree_needles(g)) is Some,
    ensures
        exists|k: int|
            0 <= k < tree_scored(nodes, g, ext, repo, branch).len() && (#[trigger] tree_scored(
                nodes,
                g,
                ext,
                repo,
                branch,
            )[k]).1 == tree_hit(repo, branch, nodes[n]),
    decreases nodes.len(),
{
    let d = nodes.drop_last();
    let prev = tree_scored(d, g, ext, repo, branch);
    let cur = tree_scored(nodes, g, ext, repo, branch);
    if n < nodes.len() - 1 {
        assert(d[n] == nodes[n]);
        lemma_tree_scored_has(d, g, ext, repo, branch, n);
        let k = choose|k: int| 0 <= k < prev.len() && (#[trigger] prev[k]).1 == tree_hit(repo, branch, d[n]);
        assert(cur[k] == prev[k]);
    } else {
        assert(nodes.last() == nodes[n]);
        assert(cur[prev.len() as int].1 == tree_hit(repo, branch, nodes[n]));
    }
}

/// Go to file misses nothing it was not told to cut: when the answer is
/// not clipped, every file of the tree whose lowercased path holds no
/// negated term, ends with the extension box's and the inline
/// `extension:`'s `.ext`, has an extension (the lowercased text after
/// the last `.`) among the query language's extensions (when that
/// language is in the table) and among none of the negated language's
/// (when that one is), and holds every lowercased term with text in
/// order, is among the hits.
pub proof fn lemma_tree_find_misses_nothing(
    nodes: Seq<TreeNode>,
    branch: Seq<char>,
    g: GrammarView,
    ext: Seq<char>,
    repo: Seq<char>,
    hits: Seq<HitView>,
    clipped: bool,
)
    requires
        tree_find_answers(nodes, branch, g, ext, repo, hits, clipped),
        !clipped,
    ensures
        forall|n: int|
            0 <= n < nodes.len() && !nodes[n].is_dir && ({
                let p = lowercase(#[trigger] nodes[n].path@);
                let e = lowercase(after_last(p, '.'));
                &&& forall|k: int| 0 <= k < g.negated.len() ==> !has_sub(p, #[trigger] g.negated[k])
                &&& ext.len() > 0 ==> ends(p, seq!['.'] + ext)
                &&& (g.extension matches Some(x) ==> ends(p, seq!['.'] + lowercase(x)))
                &&& (g.language matches Some(l) ==> (super::grammar::spec_lang_exts(l) matches Some(exts)
                    ==> exts.contains(e)))
                &&& (g.negated_language matches Some(l) ==> (super::grammar::spec_lang_exts(l) matches Some(exts)
                    ==> !exts.contains(e)))
                &&& forall|j: int|
                    0 <= j < g.terms.len() && lowercase(g.terms[j]).len() > 0 ==> is_subsequence(
                        p,
                        lowercase(#[trigger] g.terms[j]),
                    )
            }) ==> exists|i: int| 0 <= i < hits.len() && (#[trigger] hits[i]).path == nodes[n].path@,
{
    lemma_tree_find_ranked(nodes, branch, g, ext, repo, hits, clipped);
    let s = tree_scored(nodes, g, ext, repo, branch);
    let rk = ranked(s);
    let r = first_n(rk, BACKEND_CAP as int);
    lemma_ranked_len(s);
    assert(r == rk);
    assert forall|n: int|
        0 <= n < nodes.len() && !nodes[n].is_dir && ({
            let p = lowercase(#[trigger] nodes[n].path@);
            let e = lowercase(after_last(p, '.'));
            &&& forall|k: int| 0 <= k < g.negated.len() ==> !has_sub(p, #[trigger] g.negated[k])
            &&& ext.len() > 0 ==> ends(p, seq!['.'] + ext)
            &&& (g.extension matches Some(x) ==> ends(p, seq!['.'] + lowercase(x)))
            &&& (g.language matches Some(l) ==> (super::grammar::spec_lang_exts(l) matches Some(exts)
                ==> exts.contains(e)))
            &&& (g.negated_language matches Some(l) ==> (super::grammar::spec_lang_exts(l) matches Some(exts)
                ==> !exts.contains(e)))
            &&& forall|j: int|
                0 <= j < g.terms.len() && lowercase(g.terms[j]).len() > 0 ==> is_subsequence(
                    p,
                    lowercase(#[trigger] g.terms[j]),
                )
        }) implies exists|i: int| 0 <= i < hits.len() && (#[trigger] hits[i]).path == nodes[n].path@ by {
        let p = lowercase(nodes[n].path@);
        let needles = tree_needles(g);
        lemma_file_find_iff_subsequences(p, needles);
        assert forall|j: int| 0 <= j < needles.len() && needles[j].len() > 0 implies is_subsequence(
            p,
            #[trigger] needles[j],
        ) by {
            assert(needles[j] == lowercase(g.terms[j]));
        }
        assert(tree_path_kept(g, ext, p));
        lemma_tree_scored_has(nodes, g, ext, repo, branch, n);
        let k = choose|k: int| 0 <= k < s.len() && (#[trigger] s[k]).1 == tree_hit(repo, branch, nodes[n]);
        let x = s[k];
        broadcast use vstd::seq_lib::group_filter_ensures;
        assert(score_is::<HitView>(x.0)(s[k]));
        assert(with_score(s, x.0).contains(x));
        lemma_ranked_is_stable_best_first(s, x.0);
        assert(with_score(rk, x.0).contains(x));
        rk.lemma_filter_contains_rev(score_is(x.0), x);
        let m = choose|m: int| 0 <= m < rk.len() && rk[m] == x;
        assert(hits[m] == (HitView { preview: hits[m].preview, ..r[m].1 }));
    }
}

/// The hit is anchored at line 1 of `repo` on `branch`.
pub open spec fn anchored(repo: Seq<char>, branch: Seq<char>) -> spec_fn((int, HitView)) -> bool {
    |e: (int, HitView)| e.1.repo == repo && e.1.branch == branch && e.1.line == 1
}

/// What "go to file" answers over a fetched tree: of the scored tree
/// files (in tree order), the first `BACKEND_CAP` best first, equal
/// scores in tree order, each anchored at line 1 of the repo on the
/// tree's branch and changed by nothing but its preview; the clip flag
/// says whether more matched.
pub proof fn lemma_tree_find_ranked(
    nodes: Seq<TreeNode>,
    branch: Seq<char>,
    g: GrammarView,
    ext: Seq<char>,
    repo: Seq<char>,
    hits: Seq<HitView>,
    clipped: bool,
)
    requires
        tree_find_answers(nodes, branch, g, ext, repo, hits, clipped),
    ensures
        ({
            let s = tree_scored(nodes, g, ext, repo, branch);
            let r = first_n(ranked(s), BACKEND_CAP as int);
            &&& clipped == (s.len() > BACKEND_CAP)
            &&& hits.len() == (if s.len() > BACKEND_CAP {
                BACKEND_CAP as int
            } else {
                s.len() as int
            })
            &&& hits.len() == r.len()
            &&& best_first(r)
            &&& forall|v: int| #[trigger] with_score(ranked(s), v) == with_score(s, v)
            &&& forall|i: int|
                0 <= i < hits.len() ==> #[trigger] hits[i] == (HitView { preview: hits[i].preview, ..r[i].1 })
                    && hits[i].repo == repo && hits[i].branch == branch && hits[i].line == 1
        }),
{
    let s = tree_scored(nodes, g, ext, repo, branch);
    let rk = ranked(s);
    let r = first_n(rk, BACKEND_CAP as int);
    lemma_ranked_is_stable_best_first(s, 0);
    assert forall|v: int| #[trigger] with_score(ranked(s), v) == with_score(s, v) by {
        lemma_ranked_is_stable_best_first(s, v);
    }
    assert(best_first(r)) by {
        assert forall|i: int, j: int| 0 <= i < j < r.len() implies r[i].0 >= r[j].0 by {
            assert(r[i] == rk[i] && r[j] == rk[j]);
        }
    }
    lemma_tree_scored_anchor(nodes, g, ext, repo, branch);
    lemma_ranked_keeps(s, anchored(repo, branch));
    let heads = r.map_values(|e: (int, HitView)| e.1);
    assert forall|i: int| 0 <= i < hits.len() implies #[trigger] hits[i] == (HitView {
        preview: hits[i].preview,
        ..r[i].1
    }) && hits[i].repo == repo && hits[i].branch == branch && hits[i].line == 1 by {
        assert(r[i] == rk[i]);
        assert(anchored(repo, branch)(rk[i]));
        assert(heads[i] == r[i].1);
        if i < super::backend::PREVIEW_CAP {
            assert(head_applied(heads[i], hits[i]));
        }
    }
}

} // verus!
