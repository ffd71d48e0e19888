//! What locating a grep match inside a blob gives: the first matching
//! line, how many lines match, and a short preview around them.
use super::backend::{
    fold_regions, line_hit, live_needles, matched_lines, preview_rows, region_rows, spec_lines, spec_locate_in_blob,
};
use crate::sanitize::{spec_is_binary, spec_sanitize};
use vstd::prelude::*;

verus! {

/// The rows split at `s` into a first run of one to five consecutive
/// numbers and a second of at most five.
pub open spec fn two_runs(pv: Seq<(u32, Seq<char>)>, s: int) -> bool {
    &&& 1 <= s <= 5
    &&& s <= pv.len() <= s + 5
    &&& forall|k: int| 0 <= k < pv.len() - 1 && k != s - 1 ==> (#[trigger] pv[k]).0 + 1 == pv[k + 1].0
}

/// The first `n` lines' matches: ascending, below `n`, and exactly the
/// lines that hold a needle.
proof fn lemma_matched_lines(lines: Seq<Seq<char>>, needles: Seq<Seq<char>>, n: int)
    requires
        0 <= n <= lines.len(),
    ensures
        forall|a: int| 0 <= a < matched_lines(lines, needles, n).len() ==> 0 <= #[trigger] matched_lines(
            lines,
            needles,
            n,
        )[a] < n,
        forall|a: int, b: int|
            0 <= a < b < matched_lines(lines, needles, n).len() ==> #[trigger] matched_lines(lines, needles, n)[a]
                < #[trigger] matched_lines(lines, needles, n)[b],
        forall|i: int| 0 <= i < n ==> (line_hit(#[trigger] lines[i], needles) <==> matched_lines(lines, needles, n).contains(i)),
        matched_lines(lines, needles, n).len() <= n,
    decreases n,
{
    if n > 0 {
        lemma_matched_lines(lines, needles, n - 1);
        let r = matched_lines(lines, needles, n - 1);
        let m = matched_lines(lines, needles, n);
        if line_hit(lines[n - 1], needles) {
            assert(m == r.push(n - 1));
            assert forall|i: int| 0 <= i < n implies (line_hit(#[trigger] lines[i], needles) <==> m.contains(i)) by {
                if i < n - 1 {
                    if r.contains(i) {
                        let a = choose|a: int| 0 <= a < r.len() && r[a] == i;
                        assert(m[a] == i);
                    }
                    if m.contains(i) {
                        let a = choose|a: int| 0 <= a < m.len() && m[a] == i;
                        assert(a < r.len());
                        assert(r[a] == i);
                    }
                } else {
                    assert(m[m.len() - 1] == n - 1);
                }
            }
        } else {
            assert forall|i: int| 0 <= i < n implies (line_hit(#[trigger] lines[i], needles) <==> m.contains(i)) by {
                if i == n - 1 && m.contains(i) {
                    let a = choose|a: int| 0 <= a < m.len() && m[a] == i;
                    assert(false);
                }
            }
        }
    }
}

/// The regions of ascending matches below `nlines`: each non-empty and
/// inside the text, in order with gaps between them, the first one
/// opening one line before the first match and covering it.
proof fn lemma_regions(ms: Seq<int>, nlines: int)
    requires
        forall|a: int| 0 <= a < ms.len() ==> 0 <= #[trigger] ms[a] < nlines,
        forall|a: int, b: int| 0 <= a < b < ms.len() ==> #[trigger] ms[a] < #[trigger] ms[b],
    ensures
        ({
            let r = fold_regions(ms, nlines);
            &&& ms.len() > 0 ==> r.len() > 0
            &&& forall|i: int| 0 <= i < r.len() ==> 0 <= (#[trigger] r[i]).0 < r[i].1 <= nlines
            &&& forall|i: int| 0 <= i < r.len() - 1 ==> (#[trigger] r[i]).1 < r[i + 1].0
            &&& ms.len() > 0 ==> r[0].0 == (if ms[0] >= 1 {
                ms[0] - 1
            } else {
                0
            }) && ms[0] + 1 <= r[0].1
            &&& ms.len() > 0 ==> r.last().1 <= ms.last() + 2
        }),
    decreases ms.len(),
{
    if ms.len() > 0 {
        let front = ms.drop_last();
        assert forall|a: int, b: int| 0 <= a < b < front.len() implies #[trigger] front[a] < #[trigger] front[b] by {
            assert(front[a] == ms[a] && front[b] == ms[b]);
        }
        lemma_regions(front, nlines);
        let r = fold_regions(front, nlines);
        let m = ms.last();
        if front.len() > 0 {
            assert(front.last() == ms[ms.len() - 2]);
            assert(ms[ms.len() - 2] < m);
            assert(front[0] == ms[0]);
        }
        let out = fold_regions(ms, nlines);
        let start = if m >= 1 { m - 1 } else { 0 };
        let end = if m + 2 <= nlines { m + 2 } else { nlines };
        if r.len() > 0 && start <= r.last().1 {
            let last = (r.last().0, if end >= r.last().1 { end } else { r.last().1 });
            assert(out == r.update(r.len() - 1, last));
            assert forall|i: int| 0 <= i < out.len() implies 0 <= (#[trigger] out[i]).0 < out[i].1 <= nlines by {
                if i < r.len() - 1 {
                    assert(out[i] == r[i]);
                }
            }
            assert forall|i: int| 0 <= i < out.len() - 1 implies (#[trigger] out[i]).1 < out[i + 1].0 by {
                assert(out[i] == r[i]);
                if i + 1 < r.len() - 1 {
                    assert(out[i + 1] == r[i + 1]);
                }
            }
        } else {
            assert(out == r.push((start, end)));
            assert forall|i: int| 0 <= i < out.len() implies 0 <= (#[trigger] out[i]).0 < out[i].1 <= nlines by {
                if i < r.len() {
                    assert(out[i] == r[i]);
                }
            }
            assert forall|i: int| 0 <= i < out.len() - 1 implies (#[trigger] out[i]).1 < out[i + 1].0 by {
                assert(out[i] == r[i]);
                if i + 1 < r.len() {
                    assert(out[i + 1] == r[i + 1]);
                }
            }
        }
    }
}

/// The preview's rows of a region: consecutive numbers from one past
/// its start, at most five, each the text's line of that number.
proof fn lemma_region_rows(lines: Seq<Seq<char>>, reg: (int, int))
    requires
        0 <= reg.0 < reg.1 <= lines.len(),
        lines.len() < u32::MAX,
    ensures
        ({
            let rows = region_rows(lines, reg);
            &&& 1 <= rows.len() <= 5
            &&& forall|k: int| 0 <= k < rows.len() ==> (#[trigger] rows[k]).0 == reg.0 + k + 1 && rows[k].0 <= reg.1
                && rows[k].1 == lines[rows[k].0 - 1]
        }),
{
}

/// The text lines of a blob.
pub open spec fn blob_lines(bytes: Seq<u8>) -> Seq<Seq<char>> {
    spec_lines(spec_sanitize(bytes))
}

/// The indices of a blob's lines that hold one of the needles.
pub open spec fn blob_matches(bytes: Seq<u8>, needles: Seq<Seq<char>>) -> Seq<int> {
    matched_lines(blob_lines(bytes), live_needles(needles), blob_lines(bytes).len() as int)
}

/// `line` is the first matching line, `count` counts the matching lines `ms`,
/// and `pv` previews that line among at most two runs of at most five
/// consecutive numbered lines, ascending, each the text's line of that
/// number.
pub open spec fn located_well(
    lines: Seq<Seq<char>>,
    live: Seq<Seq<char>>,
    ms: Seq<int>,
    line: u32,
    pv: Seq<(u32, Seq<char>)>,
    count: u32,
) -> bool {
    &&& 1 <= line <= lines.len()
    &&& line_hit(lines[line - 1], live)
    &&& forall|i: int| 0 <= i < line - 1 ==> !line_hit(#[trigger] lines[i], live)
    &&& count == ms.len()
    &&& forall|k: int| 0 <= k < pv.len() ==> 1 <= (#[trigger] pv[k]).0 <= lines.len() && pv[k].1 == lines[pv[k].0 - 1]
    &&& forall|a: int, b: int| 0 <= a < b < pv.len() ==> (#[trigger] pv[a]).0 < (#[trigger] pv[b]).0
    &&& exists|s: int| #[trigger] two_runs(pv, s)
    &&& exists|k: int| 0 <= k < pv.len() && (#[trigger] pv[k]).0 == line
}

/// Locating a grep match in a blob: a binary blob, a query without
/// needle text, or text without a matching line locates nothing;
/// otherwise the result names the first line (1-based) that holds a
/// needle case-insensitively, counts every such line, and previews the
/// named line among at most two runs of at most five consecutive
/// numbered lines, ascending, each the text's line of that number.
/// (Line numbers are `u32`: the text has fewer lines than that.)
pub proof fn lemma_locate_in_blob(bytes: Seq<u8>, needles: Seq<Seq<char>>)
    requires
        blob_lines(bytes).len() < u32::MAX,
    ensures
        forall|i: int|
            0 <= i < blob_lines(bytes).len() ==> (line_hit(#[trigger] blob_lines(bytes)[i], live_needles(needles))
                <==> blob_matches(bytes, needles).contains(i)),
        forall|a: int, b: int|
            0 <= a < b < blob_matches(bytes, needles).len() ==> #[trigger] blob_matches(bytes, needles)[a]
                < #[trigger] blob_matches(bytes, needles)[b],
        spec_locate_in_blob(bytes, needles) is None <==> (spec_is_binary(bytes) || live_needles(needles).len() == 0
            || forall|i: int|
            0 <= i < blob_lines(bytes).len() ==> !line_hit(#[trigger] blob_lines(bytes)[i], live_needles(needles))),
        spec_locate_in_blob(bytes, needles) matches Some(t) ==> located_well(
            blob_lines(bytes),
            live_needles(needles),
            blob_matches(bytes, needles),
            t.0,
            t.1,
            t.2,
        ),
{
    let lines = spec_lines(spec_sanitize(bytes));
    let live = live_needles(needles);
    let n = lines.len() as int;
    lemma_matched_lines(lines, live, n);
    let ms = matched_lines(lines, live, n);
    if ms.len() > 0 {
        assert(ms.contains(ms[0]));
        assert(line_hit(lines[ms[0]], live));
    } else {
        assert forall|i: int| 0 <= i < lines.len() implies !line_hit(#[trigger] lines[i], live) by {
            if line_hit(lines[i], live) {
                assert(ms.contains(i));
            }
        }
    }
    if !spec_is_binary(bytes) && live.len() > 0 && ms.len() > 0 {
        let line = (ms[0] + 1) as u32;
        assert(line == ms[0] + 1);
        assert forall|i: int| 0 <= i < line - 1 implies !line_hit(#[trigger] lines[i], live) by {
            if line_hit(lines[i], live) {
                assert(ms.contains(i));
                let a = choose|a: int| 0 <= a < ms.len() && ms[a] == i;
                if a > 0 {
                    assert(ms[0] < ms[a]);
                }
            }
        }
        lemma_regions(ms, n);
        let regs = fold_regions(ms, n);
        lemma_region_rows(lines, regs[0]);
        let r0 = region_rows(lines, regs[0]);
        let pv = preview_rows(lines, regs);
        let i0 = ms[0] - regs[0].0;
        assert(0 <= i0 <= 1);
        assert(r0.len() > i0) by {
            assert(regs[0].1 >= ms[0] + 1);
        }
        if regs.len() == 1 {
            assert(pv == r0);
            assert(pv[i0].0 == line);
            assert(forall|k: int| 0 <= k < pv.len() - 1 && k != r0.len() - 1 ==> (#[trigger] pv[k]).0 + 1 == pv[k + 1].0);
        } else {
            assert(regs[0].1 < regs[1].0);
            lemma_region_rows(lines, regs[1]);
            let r1 = region_rows(lines, regs[1]);
            assert(pv == r0 + r1);
            assert(pv[i0] == r0[i0]);
            assert(pv[i0].0 == line);
            assert forall|k: int| 0 <= k < pv.len() implies 1 <= (#[trigger] pv[k]).0 <= lines.len() && pv[k].1
                == lines[pv[k].0 - 1] by {
                if k < r0.len() {
                    assert(pv[k] == r0[k]);
                } else {
                    assert(pv[k] == r1[k - r0.len()]);
                }
            }
            assert forall|a: int, b: int| 0 <= a < b < pv.len() implies (#[trigger] pv[a]).0 < (#[trigger] pv[b]).0 by {
                if b < r0.len() {
                    assert(pv[a] == r0[a] && pv[b] == r0[b]);
                } else if a >= r0.len() {
                    assert(pv[a] == r1[a - r0.len()] && pv[b] == r1[b - r0.len()]);
                } else {
                    assert(pv[a] == r0[a] && pv[b] == r1[b - r0.len()]);
                }
            }
            assert forall|k: int| 0 <= k < pv.len() - 1 && k != r0.len() - 1 implies (#[trigger] pv[k]).0 + 1
                == pv[k + 1].0 by {
                if k < r0.len() - 1 {
                    assert(pv[k] == r0[k] && pv[k + 1] == r0[k + 1]);
                } else {
                    assert(pv[k] == r1[k - r0.len()] && pv[k + 1] == r1[k + 1 - r0.len()]);
                }
            }
        }
        assert(two_runs(pv, r0.len() as int));
        assert(pv[i0].0 == line);
        assert(spec_locate_in_blob(bytes, needles) == Some((line, pv, ms.len() as u32)));
        assert(located_well(lines, live, ms, line, pv, ms.len() as u32));
    } else {
        assert(spec_locate_in_blob(bytes, needles) is None);
    }
}

} // verus!
