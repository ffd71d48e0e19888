//! The preview column's model: sanitized text for files, a child
//! listing for dirs, a placeholder for binaries; a line cursor with a
//! visual-lines selection, the header band and the blame margin.
pub mod motion;
pub mod rows;

use crate::components::pane::Entry;
use crate::sanitize::{is_binary, sanitize, sanitize_inline, spec_is_binary, spec_sanitize, spec_sanitize_inline};
use crate::text::{
    decimal, decimal_chars, join_char, join_with_char, push_char, push_str, split_lines, string_of, text_lines,
    views,
};
use vstd::prelude::*;
use vstd::string::StringSliceAdditionalSpecFns;
use vstd::utf8::is_char_boundary;
use vstd::utf8::encode_utf8;

verus! {

/// What the column shows. Highlighted content is held here as its
/// plain text, one string per rendered line; the styled spans live
/// with the renderer.
#[derive(Debug, Clone)]
pub enum PreviewContent {
    Empty,
    Text(String),
    Highlighted(Vec<String>),
    DirSummary(Vec<Entry>),
    Binary { size: usize },
}

impl Default for PreviewContent {
    fn default() -> (r: Self)
        ensures
            r is Empty,
    {
        PreviewContent::Empty
    }
}

/// The at-commit header context (sha, subject, author, date).
#[derive(Debug, Clone)]
pub struct BandContext {
    pub sha: String,
    pub subject: String,
    pub author: String,
    pub date: String,
}

/// A blame run's first-line mark: the margin shows sha and author
/// where a commit's run starts; continuation lines carry `None`.
#[derive(Debug, Clone)]
pub struct BlameMark {
    pub sha: String,
    pub author: String,
}

/// The preview column.
pub struct Preview {
    pub content: PreviewContent,
    pub title: String,
    /// Drawn as the keyboard owner.
    pub focused: bool,
    /// Vertical scroll offset (lines); follows the line cursor.
    pub scroll: u16,
    /// Line cursor (0-based); only text content is cursored.
    pub cursor: u16,
    /// Logical lines of the text content, as a `u16`; 0 = cursorless.
    pub line_count: u16,
    /// Real file content gets the line-number gutter.
    pub numbered: bool,
    /// Language label for the footer.
    pub lang: Option<String>,
    pub band_path: Option<String>,
    pub band_context: Option<BandContext>,
    /// Visual-lines selection: the anchor line; the range is
    /// anchor..=cursor.
    pub visual_anchor: Option<u16>,
    /// Blame lens: one mark per logical line.
    pub blame: Option<Vec<Option<BlameMark>>>,
    /// The motion count typed so far.
    pub motion_count: String,
    /// A pending multi-key head (`g`, `z`).
    pub motion_pending: Option<char>,
    /// Last rendered inner height; page motions measure against it.
    pub viewport: u16,
}

/// The text a content shows, when it is text.
pub open spec fn spec_content_text(c: PreviewContent) -> Option<Seq<char>> {
    match c {
        PreviewContent::Text(t) => Some(t@),
        PreviewContent::Highlighted(ls) => Some(join_char(views(ls@), '\n')),
        _ => None,
    }
}

/// A line with each tab shown as four spaces.
pub open spec fn expand_tabs(l: Seq<char>) -> Seq<char>
    decreases l.len(),
{
    if l.len() == 0 {
        seq![]
    } else {
        expand_tabs(l.drop_last()) + if l.last() == '\t' {
            seq![' ', ' ', ' ', ' ']
        } else {
            seq![l.last()]
        }
    }
}

/// The lines as shown, which the motions read.
pub open spec fn spec_plain_lines(c: PreviewContent) -> Seq<Seq<char>> {
    match c {
        PreviewContent::Text(t) => text_lines(t@).map_values(|l: Seq<char>| expand_tabs(l)),
        PreviewContent::Highlighted(ls) => views(ls@),
        _ => seq![],
    }
}

/// The lines of `n` lines' text counted as the column counts them.
pub open spec fn count16(n: nat) -> u16 {
    (n as int) as u16
}

/// The selected 1-based line range of an anchor and a cursor.
pub open spec fn spec_visual_range(anchor: Option<u16>, cursor: u16) -> Option<(u32, u32)> {
    match anchor {
        None => None,
        Some(a) => {
            let lo = if a < cursor { a } else { cursor };
            let hi = if a < cursor { cursor } else { a };
            Some(((lo + 1) as u32, (hi + 1) as u32))
        },
    }
}

/// The copied text of lines `lo..=hi` (1-based) of `ls`: each line
/// followed by a newline, with how many lines it holds.
pub open spec fn spec_copy(ls: Seq<Seq<char>>, lo: int, hi: int) -> Option<(Seq<char>, int)> {
    let a = lo - 1;
    let b = if hi < ls.len() {
        hi
    } else {
        ls.len() as int
    };
    if 0 <= a < b {
        Some((join_char(ls.subrange(a, b), '\n').push('\n'), b - a))
    } else {
        None
    }
}

/// The `1/41` readout, with the `VISUAL lo-hi · ` prefix while a
/// selection is on.
pub open spec fn spec_readout(cursor: u16, line_count: u16, anchor: Option<u16>) -> Option<Seq<char>> {
    if line_count == 0 {
        None
    } else {
        let pos = decimal((cursor + 1) as nat) + seq!['/'] + decimal(line_count as nat);
        match spec_visual_range(anchor, cursor) {
            Some((lo, hi)) => Some(
                seq!['V', 'I', 'S', 'U', 'A', 'L', ' '] + decimal(lo as nat) + seq!['-'] + decimal(hi as nat)
                    + seq![' ', '·', ' '] + pos,
            ),
            None => Some(pos),
        }
    }
}

impl Default for Preview {
    fn default() -> (r: Self)
        ensures
            r.fresh(),
            !r.focused,
    {
        Preview::new()
    }
}

/// What `Y` copies from a preview: the visual range, else the cursor
/// line, as (text, lines copied); none without text.
pub open spec fn spec_copy_target(p: Preview) -> Option<(Seq<char>, int)> {
    match spec_content_text(p.content) {
        None => None,
        Some(ct) => match spec_visual_range(p.visual_anchor, p.cursor) {
            Some((lo, hi)) => spec_copy(text_lines(ct), lo as int, hi as int),
            None => if p.line_count > 0 {
                spec_copy(text_lines(ct), p.cursor + 1, p.cursor + 1)
            } else {
                None
            },
        },
    }
}

impl Preview {
    /// A preview with nothing in it: cursorless, no band, no lens.
    pub open spec fn fresh(self) -> bool {
        &&& self.content is Empty
        &&& self.title@ == seq!['p', 'r', 'e', 'v', 'i', 'e', 'w']
        &&& self.scroll == 0
        &&& self.cursor == 0
        &&& self.line_count == 0
        &&& !self.numbered
        &&& self.lang is None
        &&& self.band_path is None
        &&& self.band_context is None
        &&& self.visual_anchor is None
        &&& self.blame is None
        &&& self.motion_count@.len() == 0
        &&& self.motion_pending is None
        &&& self.viewport == 0
    }

    /// The line cursor sits on a line the content holds, and the
    /// counted lines are lines the content has: what the motions index.
    pub open spec fn lines_cover(self) -> bool {
        self.line_count == 0 || (self.line_count <= spec_plain_lines(self.content).len() && self.cursor
            < spec_plain_lines(self.content).len())
    }

    /// The content and counts `set_bytes` leaves for `bytes`.
    pub open spec fn loaded_bytes(self, bytes: Seq<u8>) -> bool {
        if spec_is_binary(bytes) {
            &&& self.content == (PreviewContent::Binary { size: bytes.len() as usize })
            &&& self.line_count == 0
            &&& !self.numbered
        } else {
            &&& self.content matches PreviewContent::Text(t)
            &&& t@ == spec_sanitize(bytes)
            &&& self.line_count == count16(text_lines(spec_sanitize(bytes)).len())
            &&& self.numbered
        }
    }

    /// The text `set_file_meta` shows for a size and a sha's bytes,
    /// with its line count.
    pub open spec fn shows_meta(self, size: Option<u64>, sha: Seq<u8>) -> bool {
        &&& self.content matches PreviewContent::Text(t)
        &&& (exists|short: Seq<char>| #[trigger] encode_utf8(short) == sha.take(short_len(sha)) && t@ == spec_meta_text(size, short))
        &&& self.line_count == count16(text_lines(t@).len())
    }

    /// The state a new content leaves: cursor and scroll at the top,
    /// band, selection cleared.
    pub open spec fn was_reset(self) -> bool {
        &&& self.scroll == 0
        &&& self.cursor == 0
        &&& self.band_path is None
        &&& self.band_context is None
        &&& self.visual_anchor is None
    }

    pub fn new() -> (r: Self)
        ensures
            r.fresh(),
            !r.focused,
            r.lines_cover(),
    {
        let title = String::from_str("preview");
        proof {
            reveal_strlit("preview");
            assert(title@ =~= seq!['p', 'r', 'e', 'v', 'i', 'e', 'w']);
        }
        Preview {
            content: PreviewContent::Empty,
            title,
            focused: false,
            scroll: 0,
            cursor: 0,
            line_count: 0,
            numbered: false,
            lang: None,
            band_path: None,
            band_context: None,
            visual_anchor: None,
            blame: None,
            motion_count: String::new(),
            motion_pending: None,
            viewport: 0,
        }
    }

    /// A focused preview: drawn as the keyboard owner.
    pub fn focused() -> (r: Self)
        ensures
            r.fresh(),
            r.focused,
            r.lines_cover(),
    {
        let mut p = Preview::new();
        p.focused = true;
        p
    }

    /// Line total for blame-mark computation.
    pub fn text_line_count(&self) -> (r: usize)
        ensures
            r == self.line_count,
    {
        self.line_count as usize
    }

    /// The blame lens: per-line marks, or None to leave it.
    pub fn set_blame(&mut self, marks: Option<Vec<Option<BlameMark>>>)
        ensures
            *final(self) == (Preview { blame: marks, ..*old(self) }),
    {
        self.blame = marks;
    }

    /// The header band: the full path left; at-commit context right
    /// when set (None restores).
    pub fn set_band(&mut self, path: Option<String>, context: Option<BandContext>)
        ensures
            *final(self) == (Preview { band_path: path, band_context: context, ..*old(self) }),
    {
        self.band_path = path;
        self.band_context = context;
    }

    /// Blame lens active?
    pub fn blaming(&self) -> (r: bool)
        ensures
            r == self.blame is Some,
    {
        self.blame.is_some()
    }

    /// vim's V: toggles the anchor at the cursor. No-op on cursorless
    /// content.
    pub fn toggle_visual(&mut self)
        ensures
            *final(self) == (Preview {
                visual_anchor: if old(self).line_count == 0 {
                    old(self).visual_anchor
                } else if old(self).visual_anchor is Some {
                    None
                } else {
                    Some(old(self).cursor)
                },
                ..*old(self)
            }),
    {
        if self.line_count == 0 {
            return;
        }
        self.visual_anchor = match self.visual_anchor {
            Some(_) => None,
            None => Some(self.cursor),
        };
    }

    /// Esc inside the pane: a selection clears first. True when one
    /// was cleared.
    pub fn clear_visual(&mut self) -> (r: bool)
        ensures
            r == old(self).visual_anchor is Some,
            *final(self) == (Preview { visual_anchor: None, ..*old(self) }),
    {
        let was = self.visual_anchor.is_some();
        self.visual_anchor = None;
        was
    }

    /// The selected 1-based line range (start, end) while visual is on.
    pub fn visual_range(&self) -> (r: Option<(u32, u32)>)
        ensures
            r == spec_visual_range(self.visual_anchor, self.cursor),
    {
        match self.visual_anchor {
            None => None,
            Some(a) => {
                let (lo, hi) = if a < self.cursor { (a, self.cursor) } else { (self.cursor, a) };
                Some((lo as u32 + 1, hi as u32 + 1))
            },
        }
    }

    /// The pane's text content as shown.
    pub fn content_text(&self) -> (r: Option<String>)
        ensures
            match r {
                Some(t) => spec_content_text(self.content) == Some(t@),
                None => spec_content_text(self.content) is None,
            },
    {
        match &self.content {
            PreviewContent::Text(text) => Some(text.clone()),
            PreviewContent::Highlighted(lines) => Some(join_with_char(lines, '\n')),
            _ => None,
        }
    }

    /// Current cursor line, 1-based.
    pub fn line(&self) -> (r: Option<u32>)
        ensures
            r == (if self.line_count > 0 {
                Some((self.cursor + 1) as u32)
            } else {
                None
            }),
    {
        if self.line_count > 0 {
            Some(self.cursor as u32 + 1)
        } else {
            None
        }
    }

    /// What `Y` copies: the visual range, else the cursor line; each
    /// line ends with a newline. Returns (text, lines copied).
    pub fn copy_target(&self) -> (r: Option<(String, usize)>)
        ensures
            match r {
                Some((t, n)) => spec_copy_target(*self) == Some((t@, n as int)),
                None => spec_copy_target(*self) is None,
            },
    {
        let text = match self.content_text() {
            Some(t) => t,
            None => return None,
        };
        let lines = split_lines(text.as_str());
        let (lo, hi): (usize, usize) = match self.visual_range() {
            Some((a, b)) => (a as usize, b as usize),
            None => {
                let l = match self.line() {
                    Some(l) => l,
                    None => return None,
                };
                (l as usize, l as usize)
            },
        };
        let ghost ls = text_lines(text@);
        let end = if hi < lines.len() { hi } else { lines.len() };
        let a = lo - 1;
        if a >= end {
            return None;
        }
        let mut slice: Vec<String> = Vec::new();
        let mut i: usize = a;
        while i < end
            invariant
                views(lines@) == ls,
                a <= i <= end,
                end <= lines@.len(),
                views(slice@) == ls.subrange(a as int, i as int),
            decreases end - i,
        {
            let ghost before = views(slice@);
            slice.push(lines[i].clone());
            assert(views(slice@) =~= before.push(ls[i as int]));
            i += 1;
            assert(views(slice@) =~= ls.subrange(a as int, i as int));
        }
        let mut out = join_with_char(&slice, '\n');
        push_char(&mut out, '\n');
        let n = slice.len();
        Some((out, n))
    }

    fn reset(&mut self)
        ensures
            final(self).was_reset(),
            *final(self) == (Preview {
                scroll: 0,
                cursor: 0,
                band_path: None,
                band_context: None,
                visual_anchor: None,
                ..*old(self)
            }),
    {
        self.band_path = None;
        self.band_context = None;
        self.visual_anchor = None;
        self.scroll = 0;
        self.cursor = 0;
    }

    /// Load raw bytes (as fetched from a blob); binary becomes a
    /// placeholder, anything else sanitized text.
    pub fn set_bytes(&mut self, name: &str, bytes: &[u8])
        ensures
            final(self).title@ == spec_sanitize_inline(name@),
            final(self).lang is None,
            final(self).was_reset(),
            final(self).lines_cover(),
            final(self).loaded_bytes(bytes@),
            final(self).focused == old(self).focused,
            final(self).viewport == old(self).viewport,
            final(self).blame == old(self).blame,
            final(self).motion_count == old(self).motion_count,
            final(self).motion_pending == old(self).motion_pending,
    {
        self.title = sanitize_inline(name);
        self.lang = None;
        if is_binary(bytes) {
            self.content = PreviewContent::Binary { size: bytes.len() };
            self.line_count = 0;
            self.numbered = false;
        } else {
            let text = sanitize(bytes);
            let n = split_lines(text.as_str()).len();
            self.line_count = n as u16;
            self.content = PreviewContent::Text(text);
            self.numbered = true;
        }
        self.reset();
    }

    /// Text that is already clean (a file's content at a commit): shown
    /// numbered, with no language label.
    pub fn set_text(&mut self, name: &str, text: String)
        ensures
            final(self).title@ == spec_sanitize_inline(name@),
            final(self).content == (PreviewContent::Text(text)),
            final(self).line_count == count16(text_lines(text@).len()),
            final(self).numbered,
            final(self).lang is None,
            final(self).was_reset(),
            final(self).lines_cover(),
            final(self).focused == old(self).focused,
            final(self).viewport == old(self).viewport,
            final(self).blame == old(self).blame,
            final(self).motion_count == old(self).motion_count,
            final(self).motion_pending == old(self).motion_pending,
    {
        self.title = sanitize_inline(name);
        let n = split_lines(text.as_str()).len();
        self.line_count = n as u16;
        self.content = PreviewContent::Text(text);
        self.numbered = true;
        self.lang = None;
        self.reset();
    }

    /// A directory's listing: cursorless.
    pub fn set_dir(&mut self, name: &str, children: Vec<Entry>)
        ensures
            final(self).title@ == spec_sanitize_inline(name@).push('/'),
            final(self).content == (PreviewContent::DirSummary(children)),
            final(self).line_count == 0,
            !final(self).numbered,
            final(self).lang is None,
            final(self).was_reset(),
            final(self).lines_cover(),
            final(self).focused == old(self).focused,
            final(self).viewport == old(self).viewport,
            final(self).blame == old(self).blame,
            final(self).motion_count == old(self).motion_count,
            final(self).motion_pending == old(self).motion_pending,
    {
        let mut t = sanitize_inline(name);
        push_char(&mut t, '/');
        self.title = t;
        self.content = PreviewContent::DirSummary(children);
        self.line_count = 0;
        self.numbered = false;
        self.lang = None;
        self.reset();
    }

    /// File meta until blob content lands: size and short blob sha,
    /// then a loading line.
    pub fn set_file_meta(&mut self, name: &str, size: Option<u64>, sha: &str)
        requires
            is_char_boundary(sha.spec_bytes(), short_len(sha.spec_bytes())),
        ensures
            final(self).title@ == spec_sanitize_inline(name@),
            final(self).shows_meta(size, sha.spec_bytes()),
            !final(self).numbered,
            final(self).lang is None,
            final(self).was_reset(),
            final(self).lines_cover(),
            final(self).focused == old(self).focused,
            final(self).viewport == old(self).viewport,
            final(self).blame == old(self).blame,
            final(self).motion_count == old(self).motion_count,
            final(self).motion_pending == old(self).motion_pending,
    {
        self.title = sanitize_inline(name);
        let mut text = match size {
            Some(s) => string_of(decimal_chars(s).as_slice()),
            None => String::from_str("?"),
        };
        let b = sha.as_bytes();
        let m = if b.len() < 7 { b.len() } else { 7 };
        let (short, _) = sha.split_at(m);
        push_str(&mut text, " bytes · blob ");
        push_str(&mut text, short);
        push_str(&mut text, "\n\nloading…");
        proof {
            reveal_strlit("?");
            reveal_strlit(" bytes · blob ");
            reveal_strlit("\n\nloading…");
            assert(encode_utf8(short@) == sha.spec_bytes().take(m as int));
            assert(text@ =~= spec_meta_text(size, short@));
        }
        let n = split_lines(text.as_str()).len();
        self.line_count = n as u16;
        self.content = PreviewContent::Text(text);
        self.numbered = false;
        self.lang = None;
        self.reset();
    }

    /// Highlighted content, given as its plain lines.
    pub fn set_highlighted(&mut self, name: &str, lang: &str, lines: Vec<String>)
        ensures
            final(self).title@ == spec_sanitize_inline(name@),
            final(self).content == (PreviewContent::Highlighted(lines)),
            final(self).line_count == count16(lines@.len()),
            final(self).numbered,
            final(self).lang matches Some(l) && l@ == lang@,
            final(self).was_reset(),
            final(self).lines_cover(),
            final(self).focused == old(self).focused,
            final(self).viewport == old(self).viewport,
            final(self).blame == old(self).blame,
            final(self).motion_count == old(self).motion_count,
            final(self).motion_pending == old(self).motion_pending,
    {
        self.title = sanitize_inline(name);
        self.line_count = lines.len() as u16;
        self.content = PreviewContent::Highlighted(lines);
        self.numbered = true;
        self.lang = Some(lang.to_string());
        self.reset();
    }

    /// The border readout for text content: `3/41`, or
    /// `VISUAL 2-4 · 3/41` while a selection is on.
    pub fn readout(&self) -> (r: Option<String>)
        ensures
            match r {
                Some(s) => spec_readout(self.cursor, self.line_count, self.visual_anchor) == Some(s@),
                None => spec_readout(self.cursor, self.line_count, self.visual_anchor) is None,
            },
    {
        if self.line_count == 0 {
            return None;
        }
        let mut pos = string_of(decimal_chars(self.cursor as u64 + 1).as_slice());
        push_char(&mut pos, '/');
        push_str(&mut pos, string_of(decimal_chars(self.line_count as u64).as_slice()).as_str());
        match self.visual_range() {
            Some((lo, hi)) => {
                let mut s = String::from_str("VISUAL ");
                push_str(&mut s, string_of(decimal_chars(lo as u64).as_slice()).as_str());
                push_char(&mut s, '-');
                push_str(&mut s, string_of(decimal_chars(hi as u64).as_slice()).as_str());
                push_str(&mut s, " · ");
                push_str(&mut s, pos.as_str());
                proof {
                    reveal_strlit("VISUAL ");
                    reveal_strlit(" · ");
                }
                Some(s)
            },
            None => Some(pos),
        }
    }

    /// Keep the cursor inside a viewport of `viewport` rows.
    pub fn clamp_scroll(&mut self, viewport: u16)
        requires
            clamp_fits(old(self).cursor, old(self).scroll, viewport, old(self).line_count),
        ensures
            *final(self) == (Preview {
                scroll: if old(self).line_count == 0 || viewport == 0 {
                    old(self).scroll
                } else if old(self).cursor < old(self).scroll {
                    old(self).cursor
                } else if old(self).cursor >= old(self).scroll + viewport {
                    (old(self).cursor + 1 - viewport) as u16
                } else {
                    old(self).scroll
                },
                ..*old(self)
            }),
    {
        if self.line_count == 0 || viewport == 0 {
            return;
        }
        if self.cursor < self.scroll {
            self.scroll = self.cursor;
        } else if self.cursor >= self.scroll + viewport {
            self.scroll = self.cursor + 1 - viewport;
        }
    }
}

/// The `u16` sums `clamp_scroll` computes stay in range: the scroll
/// end of the viewport, and the line after the cursor when it lies
/// past that end.
pub open spec fn clamp_fits(cursor: u16, scroll: u16, viewport: u16, line_count: u16) -> bool {
    line_count == 0 || viewport == 0 || cursor < scroll || (scroll + viewport <= u16::MAX && (cursor >= scroll
        + viewport ==> cursor + 1 <= u16::MAX))
}

/// The byte length of a sha's short form: at most seven bytes.
pub open spec fn short_len(b: Seq<u8>) -> int {
    if b.len() < 7 {
        b.len() as int
    } else {
        7
    }
}

/// The file-meta text: size (or `?`), the short blob sha, and a
/// loading line.
pub open spec fn spec_meta_text(size: Option<u64>, short: Seq<char>) -> Seq<char> {
    let s = match size {
        Some(n) => decimal(n as nat),
        None => seq!['?'],
    };
    s + seq![' ', 'b', 'y', 't', 'e', 's', ' ', '·', ' ', 'b', 'l', 'o', 'b', ' '] + short + seq![
        '\n',
        '\n',
        'l',
        'o',
        'a',
        'd',
        'i',
        'n',
        'g',
        '…',
    ]
}

} // verus!
