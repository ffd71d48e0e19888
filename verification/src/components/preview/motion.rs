//! vim vertical motions and the line-cursor engine of the preview:
//! counts, j/k, gg/G, page moves, `{`/`}` paragraphs, `%` bracket
//! matching, zt/zz/zb. Targets are lines; horizontal motions are out
//! of scope.
use super::{spec_plain_lines, expand_tabs, Preview, PreviewContent};
use crate::keys::{Key, KeyCode};
use crate::text::{chars_of, parse_u64, push_char, spec_parse_u64, split_lines, trim_chars, trim_ws, views};
use vstd::prelude::*;

verus! {

/// A bracket char.
pub open spec fn is_bracket(c: char) -> bool {
    c == '(' || c == ')' || c == '[' || c == ']' || c == '{' || c == '}'
}

pub open spec fn is_opener(c: char) -> bool {
    c == '(' || c == '[' || c == '{'
}

/// The bracket pairing with `c`.
pub open spec fn spec_pair(c: char) -> char {
    if c == '(' {
        ')'
    } else if c == '[' {
        ']'
    } else if c == '{' {
        '}'
    } else if c == ')' {
        '('
    } else if c == ']' {
        '['
    } else {
        '{'
    }
}

/// Matching bracket pairs.
pub fn pairs(c: char) -> (r: char)
    requires
        is_bracket(c),
    ensures
        r == spec_pair(c),
{
    match c {
        '(' => ')',
        '[' => ']',
        '{' => '}',
        ')' => '(',
        ']' => '[',
        _ => '{',
    }
}

/// The bracket at `k` is the line's anchor candidate: an opener whose
/// pair does not follow it on the line, or a closer whose pair does
/// not precede it.
pub open spec fn unpaired_here(text: Seq<char>, k: int) -> bool {
    &&& is_bracket(text[k])
    &&& if is_opener(text[k]) {
        !text.skip(k + 1).contains(spec_pair(text[k]))
    } else {
        !text.take(k).contains(spec_pair(text[k]))
    }
}

/// The first anchor candidate of a line.
pub open spec fn anchor(text: Seq<char>) -> Option<int> {
    if exists|k: int| 0 <= k < text.len() && #[trigger] unpaired_here(text, k) {
        Some(choose|k: int| 0 <= k < text.len() && #[trigger] unpaired_here(text, k) && forall|m: int| 0 <= m < k ==> !unpaired_here(text, m))
    } else {
        None
    }
}

/// Scanning forward from line `li` (its remaining chars `rest`) with
/// `depth` open brackets: the line where the depth falls to zero.
pub open spec fn scan_fwd(lines: Seq<Seq<char>>, li: int, rest: Seq<char>, open: char, close: char, depth: int) -> Option<int>
    decreases lines.len() - li, rest.len(),
{
    if li < 0 || li >= lines.len() {
        None
    } else if rest.len() == 0 {
        if li + 1 < lines.len() {
            scan_fwd(lines, li + 1, lines[li + 1], open, close, depth)
        } else {
            None
        }
    } else if rest[0] == open {
        scan_fwd(lines, li, rest.skip(1), open, close, depth + 1)
    } else if rest[0] == close {
        if depth - 1 == 0 {
            Some(li)
        } else {
            scan_fwd(lines, li, rest.skip(1), open, close, depth - 1)
        }
    } else {
        scan_fwd(lines, li, rest.skip(1), open, close, depth)
    }
}

/// Scanning backward from line `li` (its remaining chars `rest`, read
/// from the end) with `depth` unmatched closers.
pub open spec fn scan_back(lines: Seq<Seq<char>>, li: int, rest: Seq<char>, open: char, close: char, depth: int) -> Option<int>
    decreases li, rest.len(),
{
    if li < 0 || li >= lines.len() {
        None
    } else if rest.len() == 0 {
        if li > 0 {
            scan_back(lines, li - 1, lines[li - 1], open, close, depth)
        } else {
            None
        }
    } else if rest.last() == close {
        scan_back(lines, li, rest.drop_last(), open, close, depth + 1)
    } else if rest.last() == open {
        if depth - 1 == 0 {
            Some(li)
        } else {
            scan_back(lines, li, rest.drop_last(), open, close, depth - 1)
        }
    } else {
        scan_back(lines, li, rest.drop_last(), open, close, depth)
    }
}

/// `%`: the line holding the match of the cursor line's anchor bracket
/// (nesting counted across lines); `None` without an anchor or a match.
pub open spec fn spec_bracket_match(lines: Seq<Seq<char>>, line: int) -> Option<int> {
    if line < 0 || line >= lines.len() {
        None
    } else {
        let text = lines[line];
        match anchor(text) {
            None => None,
            Some(k) => {
                let b = text[k];
                if is_opener(b) {
                    scan_fwd(lines, line, text.skip(k + 1), b, spec_pair(b), 1)
                } else {
                    scan_back(lines, line, text.take(k), spec_pair(b), b, 1)
                }
            },
        }
    }
}

pub open spec fn lines_of(v: Seq<Vec<char>>) -> Seq<Seq<char>> {
    v.map_values(|l: Vec<char>| l@)
}

fn has_char(s: &[char], from: usize, to: usize, c: char) -> (r: bool)
    requires
        from <= to <= s@.len(),
    ensures
        r == s@.subrange(from as int, to as int).contains(c),
{
    let mut i = from;
    while i < to
        invariant
            from <= i <= to,
            to <= s@.len(),
            forall|k: int| from <= k < i ==> s@[k] != c,
        decreases to - i,
    {
        if s[i] == c {
            assert(s@.subrange(from as int, to as int)[i - from] == c);
            return true;
        }
        i += 1;
    }
    assert forall|k: int| 0 <= k < s@.subrange(from as int, to as int).len() implies s@.subrange(
        from as int,
        to as int,
    )[k] != c by {
        assert(s@.subrange(from as int, to as int)[k] == s@[from + k]);
    }
    false
}

fn anchor_of(text: &Vec<char>) -> (r: Option<usize>)
    ensures
        match r {
            Some(k) => anchor(text@) == Some(k as int) && k < text@.len() && unpaired_here(text@, k as int),
            None => anchor(text@) is None,
        },
{
    let mut k: usize = 0;
    while k < text.len()
        invariant
            k <= text@.len(),
            forall|m: int| 0 <= m < k ==> !unpaired_here(text@, m),
        decreases text.len() - k,
    {
        let c = text[k];
        if c == '(' || c == ')' || c == '[' || c == ']' || c == '{' || c == '}' {
            let p = pairs(c);
            let found = if c == '(' || c == '[' || c == '{' {
                assert(text@.skip(k + 1) =~= text@.subrange(k + 1, text@.len() as int));
                !has_char(text.as_slice(), k + 1, text.len(), p)
            } else {
                assert(text@.take(k as int) =~= text@.subrange(0, k as int));
                !has_char(text.as_slice(), 0, k, p)
            };
            if found {
                proof {
                    assert(unpaired_here(text@, k as int));
                    let w = choose|w: int| 0 <= w < text@.len() && #[trigger] unpaired_here(text@, w) && forall|m: int| 0 <= m < w ==> !unpaired_here(text@, m);
                    if w < k {
                        assert(!unpaired_here(text@, w));
                    }
                    if w > k {
                        assert(!unpaired_here(text@, k as int));
                    }
                }
                return Some(k);
            }
        }
        k += 1;
    }
    None
}

/// Forward from just after column `k` of `line`: the line where the
/// depth of `open`/`close` falls to zero.
#[verifier::rlimit(30)]
fn match_forward(lines: &Vec<Vec<char>>, line: usize, k: usize, open: char, close: char) -> (r: Option<usize>)
    requires
        line < lines@.len(),
        k < lines@[line as int]@.len(),
        open != close,
    ensures
        match r {
            Some(t) => scan_fwd(lines_of(lines@), line as int, lines@[line as int]@.skip(k + 1), open, close, 1) == Some(t as int),
            None => scan_fwd(lines_of(lines@), line as int, lines@[line as int]@.skip(k + 1), open, close, 1) is None,
        },
{
    let ghost ls = lines_of(lines@);
    let ghost start = lines@[line as int]@.skip(k + 1);
    assert(ls.len() == lines@.len());
    let n0 = lines[line].len();
    assert(k < n0);
    let mut depth: u128 = 1;
    let mut li = line;
    let mut ci = k + 1;
    while li < lines.len()
        invariant
            ls == lines_of(lines@),
            start == lines@[line as int]@.skip(k + 1),
            line <= li <= lines@.len(),
            li < lines@.len() ==> ci <= lines@[li as int]@.len(),
            ci <= usize::MAX,
            1 <= depth,
            depth <= (li - line) * usize::MAX + ci + 1,
            li < lines@.len() ==> scan_fwd(ls, line as int, start, open, close, 1)
                == scan_fwd(ls, li as int, lines@[li as int]@.skip(ci as int), open, close, depth as int),
            li >= lines@.len() ==> scan_fwd(ls, line as int, start, open, close, 1) is None,
            open != close,
        decreases lines.len() - li, usize::MAX - ci,
    {
        let cur = &lines[li];
        assert(ls[li as int] == cur@);
        let n = cur.len();
        if ci < n {
            let c = cur[ci];
            let ghost rest = cur@.skip(ci as int);
            assert(rest[0] == c);
            assert(rest.skip(1) =~= cur@.skip(ci + 1));
            let ghost steps: int = li - line;
            assert(depth + 1 < u128::MAX) by (nonlinear_arith)
                requires
                    depth <= steps * usize::MAX + ci + 1,
                    0 <= steps <= usize::MAX,
                    ci <= usize::MAX,
            ;
            if c == open {
                depth = depth + 1;
            } else if c == close {
                if depth == 1 {
                    assert(scan_fwd(ls, li as int, rest, open, close, depth as int) == Some(li as int));
                    return Some(li);
                }
                depth = depth - 1;
            }
            ci += 1;
        } else {
            assert(cur@.skip(ci as int) =~= Seq::<char>::empty());
            if li + 1 < lines.len() {
                assert(ls[li + 1] == lines@[li + 1]@);
                assert(lines@[li + 1]@.skip(0) =~= lines@[li + 1]@);
            }
            let ghost steps: int = li - line;
            assert(depth <= (steps + 1) * usize::MAX + 1) by (nonlinear_arith)
                requires
                    depth <= steps * usize::MAX + ci + 1,
                    ci <= usize::MAX,
            ;
            li += 1;
            ci = 0;
        }
    }
    None
}

/// Backward from just before column `k` of `line`: the line where the
/// depth of unmatched `close`s falls to zero at an `open`.
#[verifier::rlimit(30)]
fn match_backward(lines: &Vec<Vec<char>>, line: usize, k: usize, open: char, close: char) -> (r: Option<usize>)
    requires
        line < lines@.len(),
        k <= lines@[line as int]@.len(),
        open != close,
    ensures
        match r {
            Some(t) => scan_back(lines_of(lines@), line as int, lines@[line as int]@.take(k as int), open, close, 1) == Some(t as int),
            None => scan_back(lines_of(lines@), line as int, lines@[line as int]@.take(k as int), open, close, 1) is None,
        },
{
    let ghost ls = lines_of(lines@);
    let ghost start = lines@[line as int]@.take(k as int);
    assert(ls.len() == lines@.len());
    let mut depth: u128 = 1;
    let mut li = line;
    let mut end = k;
    loop
        invariant
            ls == lines_of(lines@),
            start == lines@[line as int]@.take(k as int),
            li <= line < lines@.len(),
            end <= lines@[li as int]@.len(),
            end <= usize::MAX,
            1 <= depth,
            depth <= (line - li) * usize::MAX + (usize::MAX - end) + 1,
            scan_back(ls, line as int, start, open, close, 1)
                == scan_back(ls, li as int, lines@[li as int]@.take(end as int), open, close, depth as int),
            open != close,
        decreases li, end,
    {
        let cur = &lines[li];
        assert(ls[li as int] == cur@);
        if end > 0 {
            let c = cur[end - 1];
            let ghost rest = cur@.take(end as int);
            assert(rest.last() == c);
            assert(rest.drop_last() =~= cur@.take(end - 1));
            let ghost steps: int = line - li;
            assert(depth + 1 < u128::MAX) by (nonlinear_arith)
                requires
                    depth <= steps * usize::MAX + (usize::MAX - end) + 1,
                    0 <= steps <= usize::MAX,
                    end <= usize::MAX,
            ;
            if c == close {
                depth = depth + 1;
            } else if c == open {
                if depth == 1 {
                    assert(scan_back(ls, li as int, rest, open, close, depth as int) == Some(li as int));
                    return Some(li);
                }
                depth = depth - 1;
            }
            end -= 1;
        } else {
            assert(cur@.take(0) =~= Seq::<char>::empty());
            if li == 0 {
                assert(scan_back(ls, li as int, cur@.take(end as int), open, close, depth as int) is None);
                return None;
            }
            let ghost steps: int = line - li;
            li -= 1;
            end = lines[li].len();
            assert(ls[li as int] == lines@[li as int]@);
            assert(lines@[li as int]@.take(end as int) =~= lines@[li as int]@);
            assert(depth <= (steps + 1) * usize::MAX + (usize::MAX - end) + 1) by (nonlinear_arith)
                requires
                    depth <= steps * usize::MAX + usize::MAX + 1,
                    end <= usize::MAX,
            ;
        }
    }
}

/// `%` from `line`: the target line, if any.
#[verifier::spinoff_prover]
pub fn bracket_match(lines: &Vec<Vec<char>>, line: usize) -> (r: Option<usize>)
    ensures
        match r {
            Some(t) => spec_bracket_match(lines_of(lines@), line as int) == Some(t as int),
            None => spec_bracket_match(lines_of(lines@), line as int) is None,
        },
{
    let ghost ls = lines_of(lines@);
    if line >= lines.len() {
        return None;
    }
    let text = &lines[line];
    assert(ls[line as int] == text@);
    let k = match anchor_of(text) {
        Some(k) => k,
        None => return None,
    };
    assert(k < text.len());
    assert(anchor(text@) == Some(k as int));
    let b = text[k];
    if b == '(' || b == '[' || b == '{' {
        assert(spec_bracket_match(ls, line as int) == scan_fwd(ls, line as int, text@.skip(k + 1), b, spec_pair(b), 1));
        match_forward(lines, line, k, b, pairs(b))
    } else {
        assert(spec_bracket_match(ls, line as int) == scan_back(ls, line as int, text@.take(k as int), spec_pair(b), b, 1));
        match_backward(lines, line, k, pairs(b), b)
    }
}

/// A blank line: nothing but whitespace.
pub open spec fn blank(l: Seq<char>) -> bool {
    trim_ws(l).len() == 0
}

/// Back over blank lines from `i` (stopping at the top).
pub open spec fn back_blank(lines: Seq<Seq<char>>, i: int) -> int
    decreases i,
{
    if i > 0 && blank(lines[i]) {
        back_blank(lines, i - 1)
    } else {
        i
    }
}

/// Back to the first line of the paragraph holding `i`.
pub open spec fn back_text(lines: Seq<Seq<char>>, i: int) -> int
    decreases i,
{
    if i > 0 && !blank(lines[i - 1]) {
        back_text(lines, i - 1)
    } else {
        i
    }
}

/// `{`: off any blank, to the paragraph's first line, then the blank
/// above it (line 0 at the top).
pub open spec fn spec_paragraph_back(lines: Seq<Seq<char>>, cursor: int) -> int {
    let i = back_text(lines, back_blank(lines, cursor));
    if i > 0 {
        i - 1
    } else {
        0
    }
}

/// Forward over blank lines after `i`.
pub open spec fn fwd_blank(lines: Seq<Seq<char>>, i: int, max: int) -> int
    decreases max - i,
{
    if i + 1 < max && blank(lines[i + 1]) {
        fwd_blank(lines, i + 1, max)
    } else {
        i
    }
}

/// Forward to the last line of the paragraph after `i`.
pub open spec fn fwd_text(lines: Seq<Seq<char>>, i: int, max: int) -> int
    decreases max - i,
{
    if i + 1 < max && !blank(lines[i + 1]) {
        fwd_text(lines, i + 1, max)
    } else {
        i
    }
}

/// `}`: over blanks, to the paragraph's last line, then the blank
/// below it (when there is one).
pub open spec fn spec_paragraph_fwd(lines: Seq<Seq<char>>, cursor: int, max: int) -> int {
    let i = fwd_text(lines, fwd_blank(lines, cursor, max), max);
    if i + 1 < max {
        i + 1
    } else {
        i
    }
}

fn is_blank(l: &Vec<char>) -> (b: bool)
    ensures
        b == blank(l@),
{
    trim_chars(l.as_slice()).len() == 0
}

/// `{` from line `cursor`.
pub fn paragraph_back(lines: &Vec<Vec<char>>, cursor: usize) -> (r: usize)
    requires
        cursor < lines@.len(),
    ensures
        r == spec_paragraph_back(lines_of(lines@), cursor as int),
{
    let ghost ls = lines_of(lines@);
    let mut i = cursor;
    while i > 0 && is_blank(&lines[i])
        invariant
            i <= cursor < lines@.len(),
            ls == lines_of(lines@),
            back_blank(ls, i as int) == back_blank(ls, cursor as int),
        decreases i,
    {
        assert(ls[i as int] == lines@[i as int]@);
        i -= 1;
    }
    if i > 0 {
        assert(ls[i as int] == lines@[i as int]@);
    }
    let ghost j0 = i;
    assert(back_blank(ls, i as int) == i);
    while i > 0 && !is_blank(&lines[i - 1])
        invariant
            i <= j0,
            j0 < lines@.len(),
            ls == lines_of(lines@),
            back_text(ls, i as int) == back_text(ls, j0 as int),
        decreases i,
    {
        assert(ls[i - 1] == lines@[i - 1]@);
        i -= 1;
    }
    if i > 0 {
        assert(ls[i - 1] == lines@[i - 1]@);
    }
    if i > 0 {
        i - 1
    } else {
        0
    }
}

/// `}` from line `cursor` over `max` lines.
pub fn paragraph_fwd(lines: &Vec<Vec<char>>, cursor: usize, max: usize) -> (r: usize)
    requires
        max <= lines@.len(),
    ensures
        r == spec_paragraph_fwd(lines_of(lines@), cursor as int, max as int),
{
    let ghost ls = lines_of(lines@);
    let mut i = cursor;
    while (max > 0 && i < max - 1) && is_blank(&lines[i + 1])
        invariant
            cursor <= i,
            i > cursor ==> i < max,
            max <= lines@.len(),
            ls == lines_of(lines@),
            fwd_blank(ls, i as int, max as int) == fwd_blank(ls, cursor as int, max as int),
        decreases max - i,
    {
        assert(ls[i + 1] == lines@[i + 1]@);
        i += 1;
    }
    if (max > 0 && i < max - 1) {
        assert(ls[i + 1] == lines@[i + 1]@);
    }
    let ghost j0 = i;
    while (max > 0 && i < max - 1) && !is_blank(&lines[i + 1])
        invariant
            j0 <= i,
            i > j0 ==> i < max,
            max <= lines@.len(),
            ls == lines_of(lines@),
            fwd_text(ls, i as int, max as int) == fwd_text(ls, j0 as int, max as int),
        decreases max - i,
    {
        assert(ls[i + 1] == lines@[i + 1]@);
        i += 1;
    }
    if (max > 0 && i < max - 1) {
        assert(ls[i + 1] == lines@[i + 1]@);
    }
    if (max > 0 && i < max - 1) {
        i + 1
    } else {
        i
    }
}

proof fn lemma_scan_fwd_in_range(lines: Seq<Seq<char>>, li: int, rest: Seq<char>, open: char, close: char, depth: int)
    ensures
        scan_fwd(lines, li, rest, open, close, depth) matches Some(t) ==> 0 <= t < lines.len(),
    decreases lines.len() - li, rest.len(),
{
    if li < 0 || li >= lines.len() {
    } else if rest.len() == 0 {
        if li + 1 < lines.len() {
            lemma_scan_fwd_in_range(lines, li + 1, lines[li + 1], open, close, depth);
        }
    } else if rest[0] == open {
        lemma_scan_fwd_in_range(lines, li, rest.skip(1), open, close, depth + 1);
    } else if rest[0] == close {
        if depth - 1 != 0 {
            lemma_scan_fwd_in_range(lines, li, rest.skip(1), open, close, depth - 1);
        }
    } else {
        lemma_scan_fwd_in_range(lines, li, rest.skip(1), open, close, depth);
    }
}

proof fn lemma_scan_back_in_range(lines: Seq<Seq<char>>, li: int, rest: Seq<char>, open: char, close: char, depth: int)
    ensures
        scan_back(lines, li, rest, open, close, depth) matches Some(t) ==> 0 <= t < lines.len(),
    decreases li, rest.len(),
{
    if li < 0 || li >= lines.len() {
    } else if rest.len() == 0 {
        if li > 0 {
            lemma_scan_back_in_range(lines, li - 1, lines[li - 1], open, close, depth);
        }
    } else if rest.last() == close {
        lemma_scan_back_in_range(lines, li, rest.drop_last(), open, close, depth + 1);
    } else if rest.last() == open {
        if depth - 1 != 0 {
            lemma_scan_back_in_range(lines, li, rest.drop_last(), open, close, depth - 1);
        }
    } else {
        lemma_scan_back_in_range(lines, li, rest.drop_last(), open, close, depth);
    }
}

/// `%` lands on a line the text has.
proof fn lemma_scan_fwd_ge(lines: Seq<Seq<char>>, li: int, rest: Seq<char>, open: char, close: char, depth: int)
    ensures
        scan_fwd(lines, li, rest, open, close, depth) matches Some(t) ==> t >= li,
    decreases lines.len() - li, rest.len(),
{
    if li < 0 || li >= lines.len() {
    } else if rest.len() == 0 {
        if li + 1 < lines.len() {
            lemma_scan_fwd_ge(lines, li + 1, lines[li + 1], open, close, depth);
        }
    } else if rest[0] == open {
        lemma_scan_fwd_ge(lines, li, rest.skip(1), open, close, depth + 1);
    } else if rest[0] == close {
        if depth - 1 != 0 {
            lemma_scan_fwd_ge(lines, li, rest.skip(1), open, close, depth - 1);
        }
    } else {
        lemma_scan_fwd_ge(lines, li, rest.skip(1), open, close, depth);
    }
}

proof fn lemma_scan_fwd_past(lines: Seq<Seq<char>>, li: int, rest: Seq<char>, open: char, close: char, depth: int)
    requires
        !rest.contains(close),
    ensures
        scan_fwd(lines, li, rest, open, close, depth) matches Some(t) ==> t > li,
    decreases rest.len(),
{
    if li < 0 || li >= lines.len() {
    } else if rest.len() == 0 {
        if li + 1 < lines.len() {
            lemma_scan_fwd_ge(lines, li + 1, lines[li + 1], open, close, depth);
        }
    } else {
        assert(rest[0] != close) by {
            if rest[0] == close {
                assert(rest.contains(close));
            }
        }
        assert(!rest.skip(1).contains(close)) by {
            if rest.skip(1).contains(close) {
                let j = choose|j: int| 0 <= j < rest.skip(1).len() && rest.skip(1)[j] == close;
                assert(rest[j + 1] == close);
            }
        }
        if rest[0] == open {
            lemma_scan_fwd_past(lines, li, rest.skip(1), open, close, depth + 1);
        } else {
            lemma_scan_fwd_past(lines, li, rest.skip(1), open, close, depth);
        }
    }
}

proof fn lemma_scan_back_le(lines: Seq<Seq<char>>, li: int, rest: Seq<char>, open: char, close: char, depth: int)
    ensures
        scan_back(lines, li, rest, open, close, depth) matches Some(t) ==> t <= li,
    decreases li, rest.len(),
{
    if li < 0 || li >= lines.len() {
    } else if rest.len() == 0 {
        if li > 0 {
            lemma_scan_back_le(lines, li - 1, lines[li - 1], open, close, depth);
        }
    } else if rest.last() == close {
        lemma_scan_back_le(lines, li, rest.drop_last(), open, close, depth + 1);
    } else if rest.last() == open {
        if depth - 1 != 0 {
            lemma_scan_back_le(lines, li, rest.drop_last(), open, close, depth - 1);
        }
    } else {
        lemma_scan_back_le(lines, li, rest.drop_last(), open, close, depth);
    }
}

proof fn lemma_scan_back_before(lines: Seq<Seq<char>>, li: int, rest: Seq<char>, open: char, close: char, depth: int)
    requires
        !rest.contains(open),
    ensures
        scan_back(lines, li, rest, open, close, depth) matches Some(t) ==> t < li,
    decreases rest.len(),
{
    if li < 0 || li >= lines.len() {
    } else if rest.len() == 0 {
        if li > 0 {
            lemma_scan_back_le(lines, li - 1, lines[li - 1], open, close, depth);
        }
    } else {
        assert(rest.last() != open) by {
            if rest.last() == open {
                assert(rest[rest.len() - 1] == open);
            }
        }
        assert(!rest.drop_last().contains(open)) by {
            if rest.drop_last().contains(open) {
                let j = choose|j: int| 0 <= j < rest.drop_last().len() && rest.drop_last()[j] == open;
                assert(rest[j] == open);
            }
        }
        if rest.last() == close {
            lemma_scan_back_before(lines, li, rest.drop_last(), open, close, depth + 1);
        } else {
            lemma_scan_back_before(lines, li, rest.drop_last(), open, close, depth);
        }
    }
}

proof fn lemma_first_unpaired(text: Seq<char>, k: int)
    requires
        0 <= k < text.len(),
        unpaired_here(text, k),
    ensures
        exists|j: int| 0 <= j < text.len() && #[trigger] unpaired_here(text, j) && forall|m: int| 0 <= m < j ==> !unpaired_here(text, m),
    decreases k,
{
    if exists|m: int| 0 <= m < k && #[trigger] unpaired_here(text, m) {
        let m = choose|m: int| 0 <= m < k && #[trigger] unpaired_here(text, m);
        lemma_first_unpaired(text, m);
    } else {
        assert(forall|m: int| 0 <= m < k ==> !unpaired_here(text, m));
    }
}

/// `%` goes where the anchor bracket points: past the cursor line for
/// an opener, before it for a closer — the anchor's pair is never on
/// its own line. Off the text, or on a line with no unpaired bracket,
/// there is no match.
pub proof fn lemma_bracket_match_direction(lines: Seq<Seq<char>>, line: int)
    ensures
        !(0 <= line < lines.len()) ==> spec_bracket_match(lines, line) is None,
        0 <= line < lines.len() && anchor(lines[line]) is None ==> spec_bracket_match(lines, line) is None,
        0 <= line < lines.len() ==> (anchor(lines[line]) matches Some(k) ==> (spec_bracket_match(lines, line) matches Some(t)
            ==> (is_opener(lines[line][k]) ==> t > line) && (!is_opener(lines[line][k]) ==> t < line))),
{
    if 0 <= line < lines.len() {
        let text = lines[line];
        if let Some(k) = anchor(text) {
            let w = choose|k: int| 0 <= k < text.len() && #[trigger] unpaired_here(text, k);
            lemma_first_unpaired(text, w);
            assert(0 <= k < text.len() && unpaired_here(text, k));
            let b = text[k];
            if is_opener(b) {
                lemma_scan_fwd_past(lines, line, text.skip(k + 1), b, spec_pair(b), 1);
            } else {
                lemma_scan_back_before(lines, line, text.take(k), spec_pair(b), b, 1);
            }
        }
    }
}

pub proof fn lemma_bracket_match_in_range(lines: Seq<Seq<char>>, line: int)
    ensures
        spec_bracket_match(lines, line) matches Some(t) ==> 0 <= t < lines.len(),
{
    if 0 <= line < lines.len() {
        let text = lines[line];
        if let Some(k) = anchor(text) {
            let b = text[k];
            if is_opener(b) {
                lemma_scan_fwd_in_range(lines, line, text.skip(k + 1), b, spec_pair(b), 1);
            } else {
                lemma_scan_back_in_range(lines, line, text.take(k), spec_pair(b), b, 1);
            }
        }
    }
}

proof fn lemma_back_blank_le(lines: Seq<Seq<char>>, i: int)
    requires
        0 <= i,
    ensures
        0 <= back_blank(lines, i) <= i,
    decreases i,
{
    if i > 0 && blank(lines[i]) {
        lemma_back_blank_le(lines, i - 1);
    }
}

proof fn lemma_back_text_le(lines: Seq<Seq<char>>, i: int)
    requires
        0 <= i,
    ensures
        0 <= back_text(lines, i) <= i,
    decreases i,
{
    if i > 0 && !blank(lines[i - 1]) {
        lemma_back_text_le(lines, i - 1);
    }
}

/// `{` never moves the cursor down.
pub proof fn lemma_paragraph_back_le(lines: Seq<Seq<char>>, cursor: int)
    requires
        0 <= cursor,
    ensures
        0 <= spec_paragraph_back(lines, cursor) <= cursor,
{
    lemma_back_blank_le(lines, cursor);
    lemma_back_text_le(lines, back_blank(lines, cursor));
}

proof fn lemma_fwd_blank_stays(lines: Seq<Seq<char>>, i: int, max: int)
    ensures
        i <= fwd_blank(lines, i, max),
        i < max ==> fwd_blank(lines, i, max) < max,
        i + 1 >= max ==> fwd_blank(lines, i, max) == i,
    decreases max - i,
{
    if i + 1 < max && blank(lines[i + 1]) {
        lemma_fwd_blank_stays(lines, i + 1, max);
    }
}

proof fn lemma_fwd_text_stays(lines: Seq<Seq<char>>, i: int, max: int)
    ensures
        i <= fwd_text(lines, i, max),
        i < max ==> fwd_text(lines, i, max) < max,
        i + 1 >= max ==> fwd_text(lines, i, max) == i,
    decreases max - i,
{
    if i + 1 < max && !blank(lines[i + 1]) {
        lemma_fwd_text_stays(lines, i + 1, max);
    }
}

/// `}` stays inside the first `max` lines, and leaves a cursor past
/// them where it is.
pub proof fn lemma_paragraph_fwd_stays(lines: Seq<Seq<char>>, cursor: int, max: int)
    ensures
        cursor < max ==> cursor <= spec_paragraph_fwd(lines, cursor, max) < max,
        cursor >= max ==> spec_paragraph_fwd(lines, cursor, max) == cursor,
{
    lemma_fwd_blank_stays(lines, cursor, max);
    lemma_fwd_text_stays(lines, fwd_blank(lines, cursor, max), max);
}

/// The count typed so far as `str::parse::<usize>` reads it.
pub open spec fn count_value(count: Seq<char>) -> Option<int> {
    match spec_parse_u64(count) {
        Some(v) => if v <= usize::MAX {
            Some(v as int)
        } else {
            None
        },
        None => None,
    }
}

/// The count, or `d` without one.
pub open spec fn count_or(count: Seq<char>, d: int) -> int {
    match count_value(count) {
        Some(v) => v,
        None => d,
    }
}

/// `u16::saturating_add_signed`.
pub open spec fn sat_add(c: u16, d: i16) -> u16 {
    let v = c + d;
    if v < 0 {
        0
    } else if v > u16::MAX {
        u16::MAX
    } else {
        v as u16
    }
}

/// `u16::saturating_sub`.
pub open spec fn floor_sub(a: int, b: int) -> int {
    if a > b {
        a - b
    } else {
        0
    }
}

/// The cursor after moving by `delta` (taken as an `i16`), kept on
/// the last line.
pub open spec fn moved(cursor: u16, delta: int, line_count: u16) -> u16 {
    let c = sat_add(cursor, delta as i16);
    if c < line_count - 1 {
        c
    } else {
        (line_count - 1) as u16
    }
}

/// The cursor on 1-based line `n`, clamped to the content.
pub open spec fn goto(n: int, line_count: u16) -> u16 {
    let a = if n < 1 {
        1
    } else {
        n
    };
    let b = if a < line_count {
        a
    } else {
        line_count as int
    };
    (b - 1) as u16
}

/// Rows a page move covers: half or all of the viewport, at least one.
pub open spec fn page(viewport: u16, full: bool) -> int {
    let v = if full {
        viewport as int
    } else {
        (viewport / 2) as int
    };
    if v < 1 {
        1
    } else {
        v
    }
}

/// The motion engine's part of the preview.
pub struct MotionState {
    pub cursor: u16,
    pub scroll: u16,
    pub count: Seq<char>,
    pub pending: Option<char>,
}

pub open spec fn is_down(key: Key) -> bool {
    !key.modifiers.control && (key.code == KeyCode::Char('j') || key.code == KeyCode::Down)
}

pub open spec fn is_up(key: Key) -> bool {
    !key.modifiers.control && (key.code == KeyCode::Char('k') || key.code == KeyCode::Up)
}

pub open spec fn is_ctrl(key: Key, c: char) -> bool {
    key.modifiers.control && key.code == KeyCode::Char(c)
}

pub open spec fn is_bare(key: Key, c: char) -> bool {
    !key.modifiers.control && key.code == KeyCode::Char(c)
}

/// A count digit: unmodified by Control, no head pending.
pub open spec fn is_count_digit(key: Key, pending: Option<char>) -> bool {
    !key.modifiers.control && pending is None && (key.code matches KeyCode::Char(c) && '0' <= c <= '9')
}

/// The new cursor of a cursor move, the count consumed; the head
/// cleared when `clear_head`.
pub open spec fn cursor_to(s: MotionState, cursor: u16, clear_head: bool) -> MotionState {
    MotionState { cursor, scroll: s.scroll, count: seq![], pending: if clear_head { None } else { s.pending } }
}

/// One key of the motion set over `lines` (the content as shown):
/// the new state and whether the key was consumed. Cursorless content
/// consumes nothing; a key outside the set clears the count and head.
pub open spec fn motion_step(s: MotionState, line_count: u16, viewport: u16, key: Key, lines: Seq<Seq<char>>) -> (
    MotionState,
    bool,
) {
    let n1 = count_or(s.count, 1);
    if line_count == 0 {
        (s, false)
    } else if is_count_digit(key, s.pending) {
        let c = key.code->Char_0;
        if s.count.len() == 0 && c == '0' {
            (s, false)
        } else {
            (MotionState { count: s.count.push(c), ..s }, true)
        }
    } else if is_down(key) {
        (cursor_to(s, moved(s.cursor, (n1 as i32) as int, line_count), true), true)
    } else if is_up(key) {
        (cursor_to(s, moved(s.cursor, -((n1 as i32) as int), line_count), true), true)
    } else if is_bare(key, 'g') {
        if s.pending == Some('g') {
            (cursor_to(s, goto(n1, line_count), true), true)
        } else {
            (MotionState { pending: Some('g'), ..s }, true)
        }
    } else if is_bare(key, 'G') {
        (cursor_to(s, goto(count_or(s.count, line_count as int), line_count), true), true)
    } else if is_ctrl(key, 'd') {
        (cursor_to(s, moved(s.cursor, ((page(viewport, false) * n1) as i32) as int, line_count), false), true)
    } else if is_ctrl(key, 'u') {
        (cursor_to(s, moved(s.cursor, -(((page(viewport, false) * n1) as i32) as int), line_count), false), true)
    } else if is_ctrl(key, 'f') {
        (cursor_to(s, moved(s.cursor, ((page(viewport, true) * n1) as i32) as int, line_count), false), true)
    } else if is_ctrl(key, 'b') {
        (cursor_to(s, moved(s.cursor, -(((page(viewport, true) * n1) as i32) as int), line_count), false), true)
    } else if is_bare(key, '{') {
        (cursor_to(s, spec_paragraph_back(lines, s.cursor as int) as u16, true), true)
    } else if is_bare(key, '}') {
        (cursor_to(s, spec_paragraph_fwd(lines, s.cursor as int, line_count as int) as u16, true), true)
    } else if is_bare(key, '%') {
        let target = match spec_bracket_match(lines, s.cursor as int) {
            Some(t) => t as u16,
            None => s.cursor,
        };
        (cursor_to(s, target, true), true)
    } else if is_bare(key, 'z') {
        if s.pending == Some('z') {
            let centered = floor_sub(s.cursor as int, (viewport / 2) as int);
            let bottom = floor_sub(line_count as int, viewport as int);
            (MotionState { scroll: (if centered < bottom { centered } else { bottom }) as u16, pending: None, ..s }, true)
        } else {
            (MotionState { pending: Some('z'), ..s }, true)
        }
    } else if is_bare(key, 't') && s.pending == Some('z') {
        (MotionState { scroll: s.cursor, pending: None, ..s }, true)
    } else if is_bare(key, 'b') && s.pending == Some('z') {
        (MotionState { scroll: floor_sub(sat_add(s.cursor, 1) as int, viewport as int) as u16, pending: None, ..s }, true)
    } else {
        (MotionState { count: seq![], pending: None, ..s }, false)
    }
}

/// The moves whose arithmetic stays in range: a page move's row count
/// fits a `usize`, and a backward move's distance can be negated as an
/// `i32`.
pub open spec fn motion_fits(s: MotionState, line_count: u16, viewport: u16, key: Key) -> bool {
    let n1 = count_or(s.count, 1);
    let half = page(viewport, false) * n1;
    let full = page(viewport, true) * n1;
    line_count == 0 || is_count_digit(key, s.pending) || (if is_up(key) {
        (n1 as i32) != i32::MIN
    } else if is_ctrl(key, 'd') {
        half <= usize::MAX
    } else if is_ctrl(key, 'u') {
        half <= usize::MAX && (half as i32) != i32::MIN
    } else if is_ctrl(key, 'f') {
        full <= usize::MAX
    } else if is_ctrl(key, 'b') {
        full <= usize::MAX && (full as i32) != i32::MIN
    } else {
        true
    })
}

fn add_signed_sat(c: u16, d: i16) -> (r: u16)
    ensures
        r == sat_add(c, d),
{
    let v: i32 = c as i32 + d as i32;
    if v < 0 {
        0
    } else if v > 65535 {
        65535
    } else {
        v as u16
    }
}

fn expand_tabs_of(l: &str) -> (r: Vec<char>)
    ensures
        r@ == expand_tabs(l@),
{
    let cs = chars_of(l);
    let mut r: Vec<char> = Vec::new();
    let mut i: usize = 0;
    while i < cs.len()
        invariant
            i <= cs@.len(),
            r@ == expand_tabs(cs@.take(i as int)),
        decreases cs.len() - i,
    {
        assert(cs@.take(i + 1).drop_last() =~= cs@.take(i as int));
        if cs[i] == '\t' {
            r.push(' ');
            r.push(' ');
            r.push(' ');
            r.push(' ');
        } else {
            r.push(cs[i]);
        }
        i += 1;
        assert(r@ =~= expand_tabs(cs@.take(i as int)));
    }
    assert(cs@.take(cs@.len() as int) =~= cs@);
    r
}

impl Preview {
    /// The motion engine's fields.
    pub open spec fn motion_state(self) -> MotionState {
        MotionState { cursor: self.cursor, scroll: self.scroll, count: self.motion_count@, pending: self.motion_pending }
    }

    /// Everything but the motion engine's fields agrees.
    pub open spec fn same_but_motion(self, other: Preview) -> bool {
        &&& self.content == other.content
        &&& self.title == other.title
        &&& self.focused == other.focused
        &&& self.line_count == other.line_count
        &&& self.numbered == other.numbered
        &&& self.lang == other.lang
        &&& self.band_path == other.band_path
        &&& self.band_context == other.band_context
        &&& self.visual_anchor == other.visual_anchor
        &&& self.blame == other.blame
        &&& self.viewport == other.viewport
    }

    /// Move the line cursor (J/K) by `delta`, taken as an `i16`. No-op
    /// for cursorless content.
    pub fn move_cursor(&mut self, delta: i32)
        ensures
            *final(self) == (Preview {
                cursor: if old(self).line_count == 0 {
                    old(self).cursor
                } else {
                    moved(old(self).cursor, delta as int, old(self).line_count)
                },
                ..*old(self)
            }),
    {
        if self.line_count == 0 {
            return;
        }
        let c = add_signed_sat(self.cursor, delta as i16);
        let last = self.line_count - 1;
        self.cursor = if c < last { c } else { last };
    }

    /// Drop the cursor onto a 1-based line, clamped to the content.
    /// No-op for cursorless content or `line = 0`.
    pub fn set_cursor_line(&mut self, line: u32)
        ensures
            *final(self) == (Preview {
                cursor: if old(self).line_count == 0 || line == 0 {
                    old(self).cursor
                } else if line - 1 < old(self).line_count - 1 {
                    (line - 1) as u16
                } else {
                    (old(self).line_count - 1) as u16
                },
                ..*old(self)
            }),
    {
        if self.line_count == 0 || line == 0 {
            return;
        }
        let last = (self.line_count - 1) as u32;
        let target = if line - 1 < last { line - 1 } else { last };
        self.cursor = target as u16;
    }

    /// The pending count, cleared. None without digits (or past a
    /// `usize`).
    fn take_count(&mut self) -> (r: Option<usize>)
        ensures
            match r {
                Some(v) => count_value(old(self).motion_count@) == Some(v as int),
                None => count_value(old(self).motion_count@) is None,
            },
            final(self).motion_count@ == Seq::<char>::empty(),
            final(self).same_but_motion(*old(self)),
            final(self).cursor == old(self).cursor,
            final(self).scroll == old(self).scroll,
            final(self).motion_pending == old(self).motion_pending,
    {
        let cs = chars_of(self.motion_count.as_str());
        let n = match parse_u64(cs.as_slice()) {
            Some(v) => if v <= usize::MAX as u64 {
                Some(v as usize)
            } else {
                None
            },
            None => None,
        };
        self.motion_count = String::new();
        n
    }

    fn goto_line(&mut self, line_1based: usize)
        requires
            old(self).line_count > 0,
        ensures
            final(self).cursor == goto(line_1based as int, old(self).line_count),
            final(self).same_but_motion(*old(self)),
            final(self).scroll == old(self).scroll,
            final(self).motion_count == old(self).motion_count,
            final(self).motion_pending == old(self).motion_pending,
    {
        let max = self.line_count as usize;
        let a = if line_1based < 1 { 1 } else { line_1based };
        let b = if a < max { a } else { max };
        self.cursor = (b - 1) as u16;
    }

    /// The lines as shown (tabs as four spaces), which the motions read.
    pub(crate) fn plain_lines(&self) -> (r: Vec<Vec<char>>)
        ensures
            lines_of(r@) == spec_plain_lines(self.content),
    {
        let mut r: Vec<Vec<char>> = Vec::new();
        match &self.content {
            PreviewContent::Text(text) => {
                let ls = split_lines(text.as_str());
                let ghost want = views(ls@).map_values(|l: Seq<char>| expand_tabs(l));
                let mut i: usize = 0;
                while i < ls.len()
                    invariant
                        i <= ls@.len(),
                        want == views(ls@).map_values(|l: Seq<char>| expand_tabs(l)),
                        lines_of(r@) == want.take(i as int),
                    decreases ls.len() - i,
                {
                    let ghost before = lines_of(r@);
                    r.push(expand_tabs_of(ls[i].as_str()));
                    assert(lines_of(r@) =~= before.push(expand_tabs(ls@[i as int]@)));
                    i += 1;
                    assert(lines_of(r@) =~= want.take(i as int));
                }
                assert(want.take(ls@.len() as int) =~= want);
            },
            PreviewContent::Highlighted(ls) => {
                let mut i: usize = 0;
                while i < ls.len()
                    invariant
                        i <= ls@.len(),
                        lines_of(r@) == views(ls@).take(i as int),
                    decreases ls.len() - i,
                {
                    let ghost before = lines_of(r@);
                    r.push(chars_of(ls[i].as_str()));
                    assert(lines_of(r@) =~= before.push(ls@[i as int]@));
                    i += 1;
                    assert(lines_of(r@) =~= views(ls@).take(i as int));
                }
                assert(views(ls@).take(ls@.len() as int) =~= views(ls@));
            },
            _ => {
                assert(lines_of(r@) =~= Seq::<Seq<char>>::empty());
            },
        }
        r
    }

    /// Cursor move by a count-scaled distance: `d` rows `count` times
    /// (one without a count), forward or back; the count consumed.
    fn count_move(&mut self, rows: usize, back: bool, clear_head: bool)
        requires
            old(self).line_count > 0,
            rows * count_or(old(self).motion_count@, 1) <= usize::MAX,
            back ==> ((rows * count_or(old(self).motion_count@, 1)) as i32) != i32::MIN,
        ensures
            final(self).motion_state() == cursor_to(
                old(self).motion_state(),
                moved(
                    old(self).cursor,
                    if back {
                        -(((rows * count_or(old(self).motion_count@, 1)) as i32) as int)
                    } else {
                        ((rows * count_or(old(self).motion_count@, 1)) as i32) as int
                    },
                    old(self).line_count,
                ),
                clear_head,
            ),
            final(self).same_but_motion(*old(self)),
    {
        let n = match self.take_count() {
            Some(v) => v,
            None => 1,
        };
        let d = (rows * n) as i32;
        if clear_head {
            self.motion_pending = None;
        }
        if back {
            self.move_cursor(-d);
        } else {
            self.move_cursor(d);
        }
    }

    /// Whether the line cursor and count are within the content's lines
    /// (`lines_cover`).
    pub fn lines_cover_check(&self) -> (b: bool)
        ensures
            b == self.lines_cover(),
    {
        if self.line_count == 0 {
            return true;
        }
        let lines = self.plain_lines();
        (self.line_count as usize) <= lines.len() && (self.cursor as usize) < lines.len()
    }

    /// Whether `motion_key` can take `key` now: its arithmetic on the
    /// count and the page stays in range.
    pub fn motion_fits_check(&self, key: Key) -> (b: bool)
        ensures
            b == motion_fits(self.motion_state(), self.line_count, self.viewport, key),
    {
        if self.line_count == 0 {
            return true;
        }
        let ctrl = key.modifiers.control;
        let c = match key.code {
            KeyCode::Char(c) => Some(c),
            _ => None,
        };
        let digit = match c {
            Some(d) => '0' <= d && d <= '9',
            None => false,
        };
        if !ctrl && self.motion_pending.is_none() && digit {
            return true;
        }
        let cs = chars_of(self.motion_count.as_str());
        let n1: u64 = match parse_u64(cs.as_slice()) {
            Some(v) => if v <= usize::MAX as u64 {
                v
            } else {
                1
            },
            None => 1,
        };
        assert(n1 == count_or(self.motion_count@, 1));
        let half_rows: u128 = if self.viewport / 2 < 1 { 1 } else { (self.viewport / 2) as u128 };
        let full_rows: u128 = if self.viewport < 1 { 1 } else { self.viewport as u128 };
        assert(half_rows * n1 <= 0xffff * 0xffff_ffff_ffff_ffffu128) by (nonlinear_arith)
            requires half_rows <= 0xffff, n1 <= 0xffff_ffff_ffff_ffffu64;
        assert(full_rows * n1 <= 0xffff * 0xffff_ffff_ffff_ffffu128) by (nonlinear_arith)
            requires full_rows <= 0xffff, n1 <= 0xffff_ffff_ffff_ffffu64;
        let half = half_rows * (n1 as u128);
        let full = full_rows * (n1 as u128);
        if !ctrl && (c == Some('k') || key.code == KeyCode::Up) {
            (n1 as i32) != i32::MIN
        } else if ctrl && c == Some('d') {
            half <= usize::MAX as u128
        } else if ctrl && c == Some('u') {
            half <= usize::MAX as u128 && (half as i32) != i32::MIN
        } else if ctrl && c == Some('f') {
            full <= usize::MAX as u128
        } else if ctrl && c == Some('b') {
            full <= usize::MAX as u128 && (full as i32) != i32::MIN
        } else {
            true
        }
    }

    /// One key of the motion set. Consumed keys return true; anything
    /// else falls through to the caller (and resets a count and a
    /// pending head).
    #[verifier::rlimit(40)]
    pub fn motion_key(&mut self, key: Key) -> (r: bool)
        requires
            old(self).lines_cover(),
            motion_fits(old(self).motion_state(), old(self).line_count, old(self).viewport, key),
        ensures
            (final(self).motion_state(), r) == motion_step(
                old(self).motion_state(),
                old(self).line_count,
                old(self).viewport,
                key,
                spec_plain_lines(old(self).content),
            ),
            final(self).same_but_motion(*old(self)),
            final(self).lines_cover(),
    {
        proof {
            lemma_bracket_match_in_range(spec_plain_lines(self.content), self.cursor as int);
            lemma_paragraph_back_le(spec_plain_lines(self.content), self.cursor as int);
            lemma_paragraph_fwd_stays(spec_plain_lines(self.content), self.cursor as int, self.line_count as int);
        }
        if self.line_count == 0 {
            return false;
        }
        let ctrl = key.modifiers.control;
        let c = match key.code {
            KeyCode::Char(c) => Some(c),
            _ => None,
        };
        let down = !ctrl && (c == Some('j') || key.code == KeyCode::Down);
        let up = !ctrl && (c == Some('k') || key.code == KeyCode::Up);
        let bare = |x: char| -> (b: bool)
            ensures
                b == (!ctrl && c == Some(x)),
            { !ctrl && c == Some(x) };
        let held = |x: char| -> (b: bool)
            ensures
                b == (ctrl && c == Some(x)),
            { ctrl && c == Some(x) };
        let half = if self.viewport / 2 < 1 { 1 } else { (self.viewport / 2) as usize };
        let full = if self.viewport < 1 { 1 } else { self.viewport as usize };
        if !ctrl && self.motion_pending.is_none() && c.is_some() && '0' <= c.unwrap() && c.unwrap() <= '9' {
            let d = c.unwrap();
            if self.motion_count.as_str().is_empty() && d == '0' {
                return false;
            }
            let ghost before = self.motion_count@;
            push_char(&mut self.motion_count, d);
            assert(self.motion_count@ == before.push(d));
            true
        } else if down || up {
            self.count_move(1, up, true);
            true
        } else if bare('g') {
            if self.motion_pending == Some('g') {
                let n = match self.take_count() {
                    Some(v) => v,
                    None => 1,
                };
                self.motion_pending = None;
                self.goto_line(n);
            } else {
                self.motion_pending = Some('g');
            }
            true
        } else if bare('G') {
            let n = match self.take_count() {
                Some(v) => v,
                None => self.line_count as usize,
            };
            self.motion_pending = None;
            self.goto_line(n);
            true
        } else if held('d') || held('u') {
            self.count_move(half, held('u'), false);
            true
        } else if held('f') || held('b') {
            self.count_move(full, held('b'), false);
            true
        } else if bare('{') {
            self.motion_pending = None;
            self.take_count();
            let lines = self.plain_lines();
            let i = paragraph_back(&lines, self.cursor as usize);
            self.cursor = i as u16;
            true
        } else if bare('}') {
            self.motion_pending = None;
            self.take_count();
            let lines = self.plain_lines();
            let i = paragraph_fwd(&lines, self.cursor as usize, self.line_count as usize);
            self.cursor = i as u16;
            true
        } else if bare('%') {
            self.motion_pending = None;
            self.take_count();
            let lines = self.plain_lines();
            if let Some(target) = bracket_match(&lines, self.cursor as usize) {
                self.cursor = target as u16;
            }
            true
        } else if bare('z') {
            if self.motion_pending == Some('z') {
                self.motion_pending = None;
                let centered = if self.cursor > self.viewport / 2 { self.cursor - self.viewport / 2 } else { 0 };
                let bottom = if self.line_count > self.viewport { self.line_count - self.viewport } else { 0 };
                self.scroll = if centered < bottom { centered } else { bottom };
            } else {
                self.motion_pending = Some('z');
            }
            true
        } else if bare('t') && self.motion_pending == Some('z') {
            self.motion_pending = None;
            self.scroll = self.cursor;
            true
        } else if bare('b') && self.motion_pending == Some('z') {
            self.motion_pending = None;
            let below = add_signed_sat(self.cursor, 1);
            self.scroll = if below > self.viewport { below - self.viewport } else { 0 };
            true
        } else {
            self.motion_count = String::new();
            self.motion_pending = None;
            false
        }
    }
}

} // verus!