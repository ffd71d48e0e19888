//! Best-first ordering of scored results: higher scores first, equal
//! scores in the order they arrived, and only the first few kept.
use vstd::prelude::*;

verus! {

/// Where an item scoring `score` goes in a best-first list: before the
/// first strictly lower score (after every equal one).
pub open spec fn insert_pos<T>(s: Seq<(int, T)>, score: int) -> int
    decreases s.len(),
{
    if s.len() == 0 {
        0
    } else if s[0].0 < score {
        0
    } else {
        1 + insert_pos(s.skip(1), score)
    }
}

/// `s` with `x` inserted at its best-first place.
pub open spec fn insert_ranked<T>(s: Seq<(int, T)>, x: (int, T)) -> Seq<(int, T)> {
    let p = insert_pos(s, x.0);
    s.take(p) + seq![x] + s.skip(p)
}

/// The items best-first; equal scores keep their arrival order.
pub open spec fn ranked<T>(s: Seq<(int, T)>) -> Seq<(int, T)>
    decreases s.len(),
{
    if s.len() == 0 {
        s
    } else {
        insert_ranked(ranked(s.drop_last()), s.last())
    }
}

/// At most the first `k` items.
pub open spec fn first_n<T>(s: Seq<T>, k: int) -> Seq<T> {
    if s.len() <= k {
        s
    } else {
        s.take(k)
    }
}

/// Scores never increase along the list.
pub open spec fn best_first<T>(s: Seq<(int, T)>) -> bool {
    forall|i: int, j: int| 0 <= i < j < s.len() ==> s[i].0 >= s[j].0
}

/// The items scoring exactly `v`, in order.
pub open spec fn with_score<T>(s: Seq<(int, T)>, v: int) -> Seq<(int, T)> {
    s.filter(score_is(v))
}

/// The item scores exactly `v`.
pub open spec fn score_is<T>(v: int) -> spec_fn((int, T)) -> bool {
    |e: (int, T)| e.0 == v
}

pub proof fn lemma_insert_pos<T>(s: Seq<(int, T)>, score: int)
    ensures
        0 <= insert_pos(s, score) <= s.len(),
        forall|i: int| 0 <= i < insert_pos(s, score) ==> s[i].0 >= score,
        insert_pos(s, score) < s.len() ==> s[insert_pos(s, score)].0 < score,
    decreases s.len(),
{
    if s.len() > 0 && s[0].0 >= score {
        lemma_insert_pos(s.skip(1), score);
        assert forall|i: int| 0 <= i < insert_pos(s, score) implies s[i].0 >= score by {
            if i > 0 {
                assert(s[i] == s.skip(1)[i - 1]);
            }
        }
    }
}

/// In a best-first list the insertion place splits the list into the
/// items scoring at least `score` and those scoring less.
proof fn lemma_insert_pos_sorted<T>(s: Seq<(int, T)>, score: int)
    requires
        best_first(s),
    ensures
        forall|i: int| insert_pos(s, score) <= i < s.len() ==> s[i].0 < score,
{
    lemma_insert_pos(s, score);
    let p = insert_pos(s, score);
    assert forall|i: int| p <= i < s.len() implies s[i].0 < score by {
        assert(s[p].0 >= s[i].0);
    }
}

proof fn lemma_insert_ranked_best_first<T>(s: Seq<(int, T)>, x: (int, T))
    requires
        best_first(s),
    ensures
        best_first(insert_ranked(s, x)),
        insert_ranked(s, x).len() == s.len() + 1,
{
    lemma_insert_pos(s, x.0);
    lemma_insert_pos_sorted(s, x.0);
    let p = insert_pos(s, x.0);
    let r = insert_ranked(s, x);
    assert(r.len() == s.len() + 1);
    assert forall|i: int, j: int| 0 <= i < j < r.len() implies r[i].0 >= r[j].0 by {
        let si = if i < p { s[i] } else if i == p { x } else { s[i - 1] };
        let sj = if j < p { s[j] } else if j == p { x } else { s[j - 1] };
        assert(r[i] == si);
        assert(r[j] == sj);
        if i < p && j > p {
            assert(s[i].0 >= s[j - 1].0);
        }
    }
}

proof fn lemma_filter_insert<T>(s: Seq<(int, T)>, x: (int, T), v: int)
    requires
        best_first(s),
    ensures
        with_score(insert_ranked(s, x), v) == if x.0 == v {
            with_score(s, v).push(x)
        } else {
            with_score(s, v)
        },
{
    lemma_insert_pos(s, x.0);
    lemma_insert_pos_sorted(s, x.0);
    let p = insert_pos(s, x.0);
    let f = score_is::<T>(v);
    let a = s.take(p);
    let b = s.skip(p);
    assert(s =~= a + b);
    assert((a + seq![x]) + b =~= insert_ranked(s, x));
    Seq::filter_distributes_over_add(a + seq![x], b, f);
    Seq::filter_distributes_over_add(a, seq![x], f);
    Seq::filter_distributes_over_add(a, b, f);
    reveal(Seq::filter);
    assert(seq![x].drop_last() =~= Seq::<(int, T)>::empty());
    assert(Seq::<(int, T)>::empty().filter(f) =~= Seq::<(int, T)>::empty());
    if x.0 == v {
        assert forall|i: int| 0 <= i < b.len() implies !f(b[i]) by {
            assert(b[i] == s[p + i]);
        }
        lemma_filter_none(b, f);
        assert(seq![x].filter(f) =~= seq![x]);
        assert(with_score(insert_ranked(s, x), v) =~= a.filter(f) + seq![x]);
        assert(with_score(s, v) =~= a.filter(f));
    } else {
        assert(seq![x].filter(f) =~= Seq::<(int, T)>::empty());
        assert(with_score(insert_ranked(s, x), v) =~= a.filter(f) + b.filter(f));
    }
}

proof fn lemma_filter_none<A>(s: Seq<A>, f: spec_fn(A) -> bool)
    requires
        forall|i: int| 0 <= i < s.len() ==> !f(s[i]),
    ensures
        s.filter(f) =~= Seq::<A>::empty(),
    decreases s.len(),
{
    reveal(Seq::filter);
    if s.len() > 0 {
        lemma_filter_none(s.drop_last(), f);
    }
}

/// Ranking puts the best scores first, keeps every item, and never
/// reorders items of equal score: the items scoring `v` come out in the
/// order they went in.
pub proof fn lemma_ranked_is_stable_best_first<T>(s: Seq<(int, T)>, v: int)
    ensures
        best_first(ranked(s)),
        ranked(s).len() == s.len(),
        with_score(ranked(s), v) == with_score(s, v),
    decreases s.len(),
{
    if s.len() > 0 {
        let t = s.drop_last();
        lemma_ranked_is_stable_best_first(t, v);
        lemma_insert_ranked_best_first(ranked(t), s.last());
        lemma_filter_insert(ranked(t), s.last(), v);
        assert(s =~= t.push(s.last()));
        reveal(Seq::filter);
        assert(with_score(s, v) == if s.last().0 == v {
            with_score(t, v).push(s.last())
        } else {
            with_score(t, v)
        });
    } else {
        assert(with_score(s, v) =~= with_score(ranked(s), v));
    }
}

proof fn lemma_insert_pos_take<T>(s: Seq<(int, T)>, score: int, k: int)
    requires
        0 <= k <= s.len(),
    ensures
        insert_pos(s.take(k), score) == if insert_pos(s, score) <= k {
            insert_pos(s, score)
        } else {
            k
        },
    decreases k,
{
    if k > 0 {
        assert(s.take(k)[0] == s[0]);
        if s[0].0 >= score {
            assert(s.take(k).skip(1) =~= s.skip(1).take(k - 1));
            lemma_insert_pos_take(s.skip(1), score, k - 1);
        }
    } else {
        lemma_insert_pos(s, score);
    }
}

/// Keeping only the first `k` items before inserting gives the same
/// first `k` items as inserting into the whole list.
pub proof fn lemma_insert_first_n<T>(s: Seq<(int, T)>, x: (int, T), k: int)
    requires
        k >= 0,
    ensures
        first_n(insert_ranked(s, x), k) == first_n(insert_ranked(first_n(s, k), x), k),
{
    if s.len() > k {
        lemma_insert_pos(s, x.0);
        lemma_insert_pos_take(s, x.0, k);
        let p = insert_pos(s, x.0);
        let t = s.take(k);
        lemma_insert_pos(t, x.0);
        let a = insert_ranked(s, x);
        let b = insert_ranked(t, x);
        assert(a.len() == s.len() + 1);
        assert(b.len() == k + 1);
        assert(first_n(a, k) =~= first_n(b, k)) by {
            assert forall|i: int| 0 <= i < k implies a[i] == b[i] by {
                if p <= k {
                    if i < p {
                        assert(a[i] == s[i]);
                        assert(b[i] == t[i]);
                    } else if i > p {
                        assert(a[i] == s[i - 1]);
                        assert(b[i] == t[i - 1]);
                    }
                } else {
                    assert(a[i] == s[i]);
                    assert(b[i] == t[i]);
                }
            }
        }
    }
}

/// The first `k` of everything ranked, built one arrival at a time.
pub proof fn lemma_ranked_push_first_n<T>(s: Seq<(int, T)>, x: (int, T), k: int)
    requires
        k >= 0,
    ensures
        first_n(ranked(s.push(x)), k) == first_n(insert_ranked(first_n(ranked(s), k), x), k),
{
    assert(s.push(x).drop_last() =~= s);
    lemma_insert_first_n(ranked(s), x, k);
}

} // verus!
