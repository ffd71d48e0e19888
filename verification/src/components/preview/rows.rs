//! What the preview column shows, row by row: the lines of its
//! content from the scroll offset down, each with its line number,
//! cursor and selection marks and, under blame, its margin mark.
use crate::components::pane::EntryKind;
use crate::components::preview::motion::lines_of;
use crate::components::preview::{spec_plain_lines, spec_visual_range, BlameMark, Preview, PreviewContent};
use crate::text::{chars_of, decimal, decimal_chars, string_of};
use vstd::prelude::*;

verus! {

/// One row of the column, ready to draw.
pub struct ViewRow {
    /// The 1-based line number, on numbered content.
    pub number: Option<usize>,
    pub text: String,
    /// The cursor line.
    pub cursor: bool,
    /// Inside the VISUAL selection.
    pub selected: bool,
    /// Under blame: the line's mark (a run's first line) or none (a
    /// continuation).
    pub blame: Option<Option<BlameMark>>,
}

/// A row as plain values.
pub struct RowView {
    pub number: Option<usize>,
    pub text: Seq<char>,
    pub cursor: bool,
    pub selected: bool,
    pub blame: Option<Option<(Seq<char>, Seq<char>)>>,
}

pub open spec fn mark_view(m: Option<BlameMark>) -> Option<(Seq<char>, Seq<char>)> {
    match m {
        Some(b) => Some((b.sha@, b.author@)),
        None => None,
    }
}

pub open spec fn row_view(r: ViewRow) -> RowView {
    RowView {
        number: r.number,
        text: r.text@,
        cursor: r.cursor,
        selected: r.selected,
        blame: match r.blame {
            Some(m) => Some(mark_view(m)),
            None => None,
        },
    }
}

/// The lines the column shows for a content: the placeholder when
/// nothing is selected, the text's lines, a directory's children
/// (directories with a trailing `/`), a binary's size.
pub open spec fn shown_lines(c: PreviewContent) -> Seq<Seq<char>> {
    match c {
        PreviewContent::Empty => seq!["nothing selected"@],
        PreviewContent::DirSummary(cs) => cs@.map_values(
            |e: crate::components::pane::Entry| if e.kind == EntryKind::File {
                e.name@
            } else {
                e.name@.push('/')
            },
        ),
        PreviewContent::Binary { size } => seq!["binary file · "@ + decimal(size as nat) + " bytes"@],
        _ => spec_plain_lines(c),
    }
}

/// Row `i` of the column.
pub open spec fn spec_row(p: Preview, i: int) -> RowView {
    RowView {
        number: if p.numbered {
            Some((i + 1) as usize)
        } else {
            None
        },
        text: shown_lines(p.content)[i],
        cursor: p.line_count > 0 && i == p.cursor,
        selected: match spec_visual_range(p.visual_anchor, p.cursor) {
            Some((lo, hi)) => lo - 1 <= i <= hi - 1,
            None => false,
        },
        blame: if p.numbered {
            match p.blame {
                Some(ms) => Some(
                    if i < ms@.len() {
                        mark_view(ms@[i])
                    } else {
                        None
                    },
                ),
                None => None,
            }
        } else {
            None
        },
    }
}

/// The rows a viewport of `height` rows shows: from the scroll offset,
/// as many lines as fit.
pub open spec fn spec_rows(p: Preview, height: nat) -> Seq<RowView> {
    let len = shown_lines(p.content).len() as int;
    let from = p.scroll as int;
    let n = if from >= len {
        0
    } else if len - from < height {
        len - from
    } else {
        height as int
    };
    Seq::new(n as nat, |k: int| spec_row(p, from + k))
}

fn copy_mark(m: &Option<BlameMark>) -> (r: Option<BlameMark>)
    ensures
        mark_view(r) == mark_view(*m),
{
    match m {
        Some(b) => Some(BlameMark { sha: b.sha.clone(), author: b.author.clone() }),
        None => None,
    }
}

impl Preview {
    /// The lines the column shows.
    fn shown(&self) -> (r: Vec<Vec<char>>)
        ensures
            lines_of(r@) == shown_lines(self.content),
    {
        match &self.content {
            PreviewContent::Empty => {
                let mut r: Vec<Vec<char>> = Vec::new();
                r.push(chars_of("nothing selected"));
                proof {
                    reveal_strlit("nothing selected");
                }
                assert(lines_of(r@) =~= seq!["nothing selected"@]);
                r
            },
            PreviewContent::DirSummary(cs) => {
                let mut r: Vec<Vec<char>> = Vec::new();
                let mut i: usize = 0;
                while i < cs.len()
                    invariant
                        i <= cs@.len(),
                        self.content == PreviewContent::DirSummary(*cs),
                        lines_of(r@) == shown_lines(self.content).take(i as int),
                    decreases cs.len() - i,
                {
                    let mut l = chars_of(cs[i].name.as_str());
                    if cs[i].kind != EntryKind::File {
                        l.push('/');
                    }
                    let ghost before = lines_of(r@);
                    r.push(l);
                    assert(lines_of(r@) =~= before.push(shown_lines(self.content)[i as int]));
                    i += 1;
                    assert(lines_of(r@) =~= shown_lines(self.content).take(i as int));
                }
                assert(shown_lines(self.content).take(cs@.len() as int) =~= shown_lines(self.content));
                r
            },
            PreviewContent::Binary { size } => {
                let mut l = chars_of("binary file · ");
                let d = decimal_chars(*size as u64);
                let mut j: usize = 0;
                let ghost head = l@;
                while j < d.len()
                    invariant
                        j <= d@.len(),
                        l@ == head + d@.take(j as int),
                    decreases d.len() - j,
                {
                    l.push(d[j]);
                    j += 1;
                    assert(l@ =~= head + d@.take(j as int));
                }
                assert(d@.take(d@.len() as int) =~= d@);
                let tail = chars_of(" bytes");
                let mut k: usize = 0;
                let ghost mid = l@;
                while k < tail.len()
                    invariant
                        k <= tail@.len(),
                        l@ == mid + tail@.take(k as int),
                    decreases tail.len() - k,
                {
                    l.push(tail[k]);
                    k += 1;
                    assert(l@ =~= mid + tail@.take(k as int));
                }
                assert(tail@.take(tail@.len() as int) =~= tail@);
                proof {
                    reveal_strlit("binary file · ");
                    reveal_strlit(" bytes");
                }
                let mut r: Vec<Vec<char>> = Vec::new();
                r.push(l);
                assert(lines_of(r@) =~= shown_lines(self.content));
                r
            },
            _ => self.plain_lines(),
        }
    }

    /// The rows a viewport of `height` rows shows.
    pub fn view_rows(&self, height: usize) -> (rows: Vec<ViewRow>)
        ensures
            rows@.map_values(|r: ViewRow| row_view(r)) == spec_rows(*self, height as nat),
    {
        let lines = self.shown();
        let ghost want = spec_rows(*self, height as nat);
        let len = lines.len();
        let from = self.scroll as usize;
        let n: usize = if from >= len {
            0
        } else if len - from < height {
            len - from
        } else {
            height
        };
        let visual = self.visual_range();
        let mut rows: Vec<ViewRow> = Vec::new();
        let mut k: usize = 0;
        while k < n
            invariant
                k <= n,
                n == want.len(),
                from == self.scroll,
                n > 0 ==> from + n <= len,
                len == lines@.len(),
                lines_of(lines@) == shown_lines(self.content),
                want == spec_rows(*self, height as nat),
                visual == spec_visual_range(self.visual_anchor, self.cursor),
                rows@.map_values(|r: ViewRow| row_view(r)) == want.take(k as int),
            decreases n - k,
        {
            let i = from + k;
            let number = if self.numbered {
                Some(i + 1)
            } else {
                None
            };
            let cursor = self.line_count > 0 && i == self.cursor as usize;
            let selected = match visual {
                Some((lo, hi)) => lo as usize - 1 <= i && i <= hi as usize - 1,
                None => false,
            };
            let blame = if self.numbered {
                match &self.blame {
                    Some(ms) => Some(
                        if i < ms.len() {
                            copy_mark(&ms[i])
                        } else {
                            None
                        },
                    ),
                    None => None,
                }
            } else {
                None
            };
            assert(lines_of(lines@)[i as int] == lines@[i as int]@);
            let row = ViewRow { number, text: string_of(lines[i].as_slice()), cursor, selected, blame };
            let ghost before = rows@.map_values(|r: ViewRow| row_view(r));
            rows.push(row);
            assert(row_view(row) == want[k as int]);
            assert(rows@.map_values(|r: ViewRow| row_view(r)) =~= before.push(want[k as int]));
            k += 1;
            assert(rows@.map_values(|r: ViewRow| row_view(r)) =~= want.take(k as int));
        }
        assert(want.take(n as int) =~= want);
        rows
    }
}

} // verus!
