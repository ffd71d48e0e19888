//! Bottom modeline, powerline style: mode chip → forge chip → status →
//! context, joined by segment arrows, the key hints at the right.
//! Everything is fitted to the line width: hints drop whole from the
//! tail (an ellipsis marks the cut), the status is capped, the context
//! truncates last. The layout is computed here as text segments with
//! roles; the view gives each role its colors.
use super::pane::{cells_or_zero, fit, spec_fit};
use crate::mode::{spec_chip, Mode};
use crate::text::{char_cells, char_width, chars_of, push_char, push_str, str_width, string_of, text_cells};
use vstd::prelude::*;

verus! {

/// What a segment of the modeline shows.
#[derive(Debug, Clone, Copy, PartialEq, Eq, Structural)]
pub enum SegmentRole {
    Chip,
    /// The arrow from the mode chip into the forge chip.
    Arrow,
    Forge,
    /// The arrow out of the forge chip.
    ForgeArrow,
    Status,
    Context,
    Pad,
    HintKey,
    HintDesc,
    /// The ellipsis marking dropped hints.
    HintMore,
}

/// One stretch of modeline text.
#[derive(Debug, Clone)]
pub struct Segment {
    pub text: String,
    pub role: SegmentRole,
}

pub open spec fn seg_view(s: Segment) -> (Seq<char>, SegmentRole) {
    (s.text@, s.role)
}

pub open spec fn segs_view(v: Seq<Segment>) -> Seq<(Seq<char>, SegmentRole)> {
    v.map_values(|s: Segment| seg_view(s))
}

/// The glyph a builtin icon name stands for.
pub open spec fn named_glyph(name: Seq<char>) -> Option<Seq<char>> {
    if name == "github"@ {
        Some("\u{f408}"@)
    } else if name == "gitlab"@ {
        Some("\u{f296}"@)
    } else if name == "bitbucket"@ {
        Some("\u{f171}"@)
    } else if name == "folder"@ || name == "fs"@ {
        Some("\u{f07c}"@)
    } else {
        None
    }
}

/// The forge icon: a builtin name's glyph (only with a Nerd Font), or a
/// single literal char in any mode; nothing otherwise.
pub open spec fn spec_resolve_icon(spec: Option<Seq<char>>, nerd_font: bool) -> Seq<char> {
    match spec {
        None => seq![],
        Some(s) => if nerd_font && named_glyph(s) is Some {
            named_glyph(s).unwrap()
        } else if s.len() == 1 {
            s
        } else {
            seq![]
        },
    }
}

fn str_eq(a: &str, b: &str) -> (r: bool)
    ensures
        r == (a@ == b@),
{
    crate::text::str_is(a, b)
}

/// The forge icon for a declared icon spec.
pub fn resolve_icon(spec: Option<&str>, nerd_font: bool) -> (r: String)
    ensures
        r@ == spec_resolve_icon(
            match spec {
                Some(s) => Some(s@),
                None => None,
            },
            nerd_font,
        ),
{
    let s = match spec {
        Some(s) => s,
        None => return String::new(),
    };
    let named: Option<&str> = if str_eq(s, "github") {
        Some("\u{f408}")
    } else if str_eq(s, "gitlab") {
        Some("\u{f296}")
    } else if str_eq(s, "bitbucket") {
        Some("\u{f171}")
    } else if str_eq(s, "folder") || str_eq(s, "fs") {
        Some("\u{f07c}")
    } else {
        None
    };
    assert(match named {
        Some(g) => named_glyph(s@) == Some(g@),
        None => named_glyph(s@) is None,
    });
    if nerd_font {
        if let Some(g) = named {
            return g.to_owned();
        }
    }
    let cs = chars_of(s);
    if cs.len() == 1 {
        s.to_owned()
    } else {
        String::new()
    }
}

/// The longest prefix whose width stays within `room` (from `used`).
pub open spec fn fit_head(cs: Seq<char>, room: int, used: int) -> Seq<char>
    decreases cs.len(),
{
    if cs.len() == 0 {
        seq![]
    } else if used + cells_or_zero(cs[0]) > room {
        seq![]
    } else {
        seq![cs[0]] + fit_head(cs.skip(1), room, used + cells_or_zero(cs[0]))
    }
}

/// Middle truncation: the head within a third of the width, `…`, and
/// the tail in what is left; unchanged when it fits.
pub open spec fn spec_fit_middle(s: Seq<char>, width: int) -> Seq<char> {
    if text_cells(s) <= width {
        s
    } else {
        let head_room = width / 3;
        let tail_room = if width > head_room + 1 {
            width - (head_room + 1)
        } else {
            0
        };
        fit_head(s, head_room, 0) + seq!['…'] + fit_head(s.reverse(), tail_room, 0).reverse()
    }
}

/// The prefix of `cs` within `room` cells.
fn head_within(cs: &Vec<char>, room: usize) -> (r: Vec<char>)
    ensures
        r@ == fit_head(cs@, room as int, 0),
{
    let mut out: Vec<char> = Vec::new();
    let mut used: usize = 0;
    let mut i: usize = 0;
    assert(cs@.skip(0) =~= cs@);
    assert(out@ + fit_head(cs@, room as int, 0) =~= fit_head(cs@, room as int, 0));
    while i < cs.len()
        invariant
            i <= cs@.len(),
            used <= room,
            out@ + fit_head(cs@.skip(i as int), room as int, used as int) == fit_head(cs@, room as int, 0),
        ensures
            out@ == fit_head(cs@, room as int, 0),
        decreases cs.len() - i,
    {
        let c = cs[i];
        let cw: usize = match char_width(c) {
            Some(w) => w,
            None => 0,
        };
        assert(cs@.skip(i as int)[0] == c);
        if cw > room - used {
            assert(fit_head(cs@.skip(i as int), room as int, used as int) =~= Seq::<char>::empty());
            assert(out@ + Seq::<char>::empty() =~= out@);
            break;
        }
        assert(cs@.skip(i as int).skip(1) =~= cs@.skip(i + 1));
        let ghost before = out@;
        let ghost rest = fit_head(cs@.skip(i + 1), room as int, used + cw);
        out.push(c);
        assert(out@ + rest =~= before + (seq![c] + rest));
        used = used + cw;
        i += 1;
        if i == cs.len() {
            assert(cs@.skip(i as int) =~= Seq::<char>::empty());
            assert(out@ + Seq::<char>::empty() =~= out@);
        }
    }
    out
}

fn reversed(v: &Vec<char>) -> (r: Vec<char>)
    ensures
        r@ == v@.reverse(),
{
    let mut r: Vec<char> = Vec::new();
    let mut i: usize = v.len();
    while i > 0
        invariant
            i <= v@.len(),
            r@ == v@.skip(i as int).reverse(),
        decreases i,
    {
        i -= 1;
        let ghost before = r@;
        r.push(v[i]);
        assert(r@ =~= v@.skip(i as int).reverse()) by {
            assert(v@.skip(i as int) =~= seq![v@[i as int]] + v@.skip(i + 1));
        }
    }
    assert(v@.skip(0) =~= v@);
    r
}

/// Middle-truncate to `width` display cells.
pub fn fit_middle(s: &str, width: usize) -> (r: String)
    ensures
        r@ == spec_fit_middle(s@, width as int),
{
    if str_width(s) <= width {
        return s.to_owned();
    }
    let head_room = width / 3;
    let tail_room = if width > head_room + 1 { width - (head_room + 1) } else { 0 };
    let cs = chars_of(s);
    let head = head_within(&cs, head_room);
    let rev = reversed(&cs);
    let tail_rev = head_within(&rev, tail_room);
    let tail = reversed(&tail_rev);
    let mut out = string_of(head.as_slice());
    push_char(&mut out, '…');
    let t = string_of(tail.as_slice());
    push_str(&mut out, t.as_str());
    out
}

/// The total display width of segments.
pub open spec fn cells_sum(segs: Seq<(Seq<char>, SegmentRole)>) -> int
    decreases segs.len(),
{
    if segs.len() == 0 {
        0
    } else {
        cells_sum(segs.drop_last()) + text_cells(segs.last().0)
    }
}

/// `a - b`, floored at zero.
pub open spec fn sat_sub(a: int, b: int) -> int {
    if a > b {
        a - b
    } else {
        0
    }
}

/// The arrow between segments: the powerline glyph with a Nerd Font,
/// else a caret.
pub open spec fn arrow(nerd_font: bool) -> Seq<char> {
    if nerd_font {
        "\u{e0b0}"@
    } else {
        "\u{276f}"@
    }
}

/// The forge chip's text: icon (when there is one) and the forge name
/// cut to 12 cells, padded by a space each side.
pub open spec fn forge_text(forge: Seq<char>, icon: Seq<char>) -> Seq<char> {
    let label = spec_fit(forge, 12);
    if icon.len() == 0 {
        " "@ + label + " "@
    } else {
        " "@ + icon + " "@ + label + " "@
    }
}

/// The left part: mode chip, arrow, forge chip, arrow, then the status
/// capped at half the line (at least 20 cells).
pub open spec fn left_segments(
    chip: Seq<char>,
    forge: Seq<char>,
    icon: Seq<char>,
    status: Option<Seq<char>>,
    width: int,
    nerd_font: bool,
) -> Seq<(Seq<char>, SegmentRole)> {
    let base = seq![
        (" "@ + chip + " "@, SegmentRole::Chip),
        (arrow(nerd_font), SegmentRole::Arrow),
        (forge_text(forge, icon), SegmentRole::Forge),
        (arrow(nerd_font), SegmentRole::ForgeArrow),
    ];
    match status {
        None => base,
        Some(st) => base.push(
            (
                " "@ + spec_fit_middle(st, if width / 2 > 20 {
                    width / 2
                } else {
                    20
                }) + " "@,
                SegmentRole::Status,
            ),
        ),
    }
}

/// The hints that fit `room` cells, from `used` on: each takes its key
/// and description plus four cells; the first that doesn't fit ends
/// the run, marked by ` …` when two cells remain. Returns the segments
/// and the cells used.
pub open spec fn hint_segments(hints: Seq<(Seq<char>, Seq<char>)>, room: int, used: int) -> (Seq<
    (Seq<char>, SegmentRole),
>, int)
    decreases hints.len(),
{
    if hints.len() == 0 {
        (seq![], used)
    } else {
        let needed = text_cells(hints[0].0) + text_cells(hints[0].1) + 4;
        if used + needed <= room {
            let rest = hint_segments(hints.skip(1), room, used + needed);
            (
                seq![
                    (" "@ + hints[0].0, SegmentRole::HintKey),
                    (" "@ + hints[0].1 + " ·"@, SegmentRole::HintDesc),
                ] + rest.0,
                rest.1,
            )
        } else if room - used >= 2 {
            (seq![(" …"@, SegmentRole::HintMore)], used + 2)
        } else {
            (seq![], used)
        }
    }
}

/// The whole line for width `width`: the left part, the context in
/// what the hints leave (whole, cut, or dropped under four cells), the
/// padding, then the hints. The context reserves its width plus two
/// (capped at a quarter of the line, at least 20) before the hints are
/// fitted.
pub open spec fn spec_layout(
    chip: Seq<char>,
    forge: Seq<char>,
    icon: Seq<char>,
    status: Option<Seq<char>>,
    context: Seq<char>,
    hints: Seq<(Seq<char>, Seq<char>)>,
    width: int,
    nerd_font: bool,
) -> Seq<(Seq<char>, SegmentRole)> {
    let left = left_segments(chip, forge, icon, status, width, nerd_font);
    let left_w = cells_sum(left);
    let ctx_w = text_cells(context);
    let cap = if width / 4 > 20 {
        width / 4
    } else {
        20
    };
    let reserved = if ctx_w + 2 < cap {
        ctx_w + 2
    } else {
        cap
    };
    let (hint_segs, hints_w) = hint_segments(hints, sat_sub(width, left_w + reserved), 0);
    let ctx_room = sat_sub(width, left_w + hints_w);
    let ctx = if ctx_room >= ctx_w + 2 {
        seq![(" "@ + context + " "@, SegmentRole::Context)]
    } else if ctx_room >= 4 {
        seq![(" "@ + spec_fit(context, ctx_room - 2) + " "@, SegmentRole::Context)]
    } else {
        seq![]
    };
    let shown = left + ctx;
    let pad = sat_sub(width, cells_sum(shown) + hints_w);
    shown + seq![(Seq::new(pad as nat, |i: int| ' '), SegmentRole::Pad)] + hint_segs
}

pub struct Modeline {
    /// Active provider identity ("github", "gitlab", config-supplied).
    pub forge: String,
    /// Provider-declared icon spec (builtin name or literal glyph).
    pub icon: Option<String>,
    pub context: String,
    /// Transient one-line status ("searching…", errors) shown after
    /// the caret.
    pub status: Option<String>,
}

pub open spec fn opt_str_view(o: Option<String>) -> Option<Seq<char>> {
    match o {
        Some(s) => Some(s@),
        None => None,
    }
}

pub open spec fn hints_view(h: Seq<(&str, &str)>) -> Seq<(Seq<char>, Seq<char>)> {
    h.map_values(|p: (&str, &str)| (p.0@, p.1@))
}

fn seg(text: String, role: SegmentRole) -> (r: Segment)
    ensures
        seg_view(r) == (text@, role),
{
    Segment { text, role }
}

fn spaced(a: &str) -> (r: String)
    ensures
        r@ == " "@ + a@ + " "@,
{
    let mut r = " ".to_owned();
    push_str(&mut r, a);
    push_str(&mut r, " ");
    r
}

/// The display width of segments, in a wide integer.
fn width_of(segs: &Vec<Segment>) -> (r: u128)
    requires
        segs@.len() <= 64,
    ensures
        r == cells_sum(segs_view(segs@)),
        r <= 64 * (usize::MAX as int),
{
    let mut total: u128 = 0;
    let mut i: usize = 0;
    while i < segs.len()
        invariant
            i <= segs@.len(),
            segs@.len() <= 64,
            total == cells_sum(segs_view(segs@).take(i as int)),
            total <= i * (usize::MAX as int),
        decreases segs.len() - i,
    {
        assert(segs_view(segs@).take(i + 1).drop_last() =~= segs_view(segs@).take(i as int));
        let w = str_width(segs[i].text.as_str());
        assert(total + w <= (i + 1) * (usize::MAX as int)) by (nonlinear_arith)
            requires
                total <= i * (usize::MAX as int),
                w <= usize::MAX,
        ;
        total = total + w as u128;
        i += 1;
    }
    assert(segs_view(segs@).take(segs@.len() as int) =~= segs_view(segs@));
    total
}

fn spaces(n: usize) -> (r: String)
    ensures
        r@ == Seq::new(n as nat, |i: int| ' '),
{
    let mut r = String::new();
    let mut i: usize = 0;
    while i < n
        invariant
            i <= n,
            r@ == Seq::new(i as nat, |k: int| ' '),
        decreases n - i,
    {
        push_char(&mut r, ' ');
        i += 1;
        assert(r@ =~= Seq::new(i as nat, |k: int| ' '));
    }
    r
}

impl Modeline {
    pub fn new() -> (r: Modeline)
        ensures
            r.forge@.len() == 0,
            r.icon is None,
            r.context@.len() == 0,
            r.status is None,
    {
        Modeline { forge: String::new(), icon: None, context: String::new(), status: None }
    }

    /// The line's segments for `mode` at `width` cells, with the mode's
    /// key hints `hints` (key, description).
    pub fn layout(&self, mode: Mode, width: usize, nerd_font: bool, hints: &[(&str, &str)]) -> (r: Vec<
        Segment,
    >)
        ensures
            segs_view(r@) == spec_layout(
                spec_chip(mode),
                self.forge@,
                spec_resolve_icon(opt_str_view(self.icon), nerd_font),
                opt_str_view(self.status),
                self.context@,
                hints_view(hints@),
                width as int,
                nerd_font,
            ),
    {
        let ghost icon_spec = spec_resolve_icon(opt_str_view(self.icon), nerd_font);
        let left = self.left_part(mode, width, nerd_font);
        let left_w = width_of(&left);
        let ctx_w = str_width(self.context.as_str()) as u128;
        let quarter = if width / 4 > 20 { (width / 4) as u128 } else { 20u128 };
        let reserved = if ctx_w + 2 < quarter { ctx_w + 2 } else { quarter };
        let w = width as u128;
        let hint_room: u128 = if w > left_w + reserved { w - (left_w + reserved) } else { 0 };
        let (hint_segs, hints_w) = fit_hints(hints, hint_room);
        let ctx_room: u128 = if w > left_w + hints_w { w - (left_w + hints_w) } else { 0 };
        let mut shown = left;
        let ctx = context_part(self.context.as_str(), ctx_w, ctx_room);
        append(&mut shown, ctx);
        let shown_w = width_of(&shown);
        let pad: u128 = if w > shown_w + hints_w { w - (shown_w + hints_w) } else { 0 };
        shown.push(seg(spaces(pad as usize), SegmentRole::Pad));
        append(&mut shown, hint_segs);
        shown
    }

    /// Chip, arrow, forge chip, arrow, and the capped status.
    fn left_part(&self, mode: Mode, width: usize, nerd_font: bool) -> (r: Vec<Segment>)
        ensures
            segs_view(r@) == left_segments(
                spec_chip(mode),
                self.forge@,
                spec_resolve_icon(opt_str_view(self.icon), nerd_font),
                opt_str_view(self.status),
                width as int,
                nerd_font,
            ),
            r@.len() <= 5,
    {
        let arrow_text: &str = if nerd_font { "\u{e0b0}" } else { "\u{276f}" };
        let icon = match &self.icon {
            Some(s) => resolve_icon(Some(s.as_str()), nerd_font),
            None => resolve_icon(None, nerd_font),
        };
        let label = fit(self.forge.as_str(), 12);
        let forge_chip = if icon.as_str().is_empty() {
            spaced(label.as_str())
        } else {
            let mut t = " ".to_owned();
            push_str(&mut t, icon.as_str());
            push_str(&mut t, " ");
            push_str(&mut t, label.as_str());
            push_str(&mut t, " ");
            t
        };
        let mut left: Vec<Segment> = Vec::new();
        left.push(seg(spaced(mode.chip()), SegmentRole::Chip));
        left.push(seg(arrow_text.to_owned(), SegmentRole::Arrow));
        left.push(seg(forge_chip, SegmentRole::Forge));
        left.push(seg(arrow_text.to_owned(), SegmentRole::ForgeArrow));
        if let Some(st) = &self.status {
            let cap = if width / 2 > 20 { width / 2 } else { 20 };
            let cut = fit_middle(st.as_str(), cap);
            left.push(seg(spaced(cut.as_str()), SegmentRole::Status));
        }
        assert(segs_view(left@) =~= left_segments(
            spec_chip(mode),
            self.forge@,
            spec_resolve_icon(opt_str_view(self.icon), nerd_font),
            opt_str_view(self.status),
            width as int,
            nerd_font,
        ));
        left
    }
}

/// The context segment for `ctx_room` free cells: whole, cut, or none.
fn context_part(context: &str, ctx_w: u128, ctx_room: u128) -> (r: Vec<Segment>)
    requires
        ctx_w == text_cells(context@),
    ensures
        segs_view(r@) == if ctx_room >= ctx_w + 2 {
            seq![(" "@ + context@ + " "@, SegmentRole::Context)]
        } else if ctx_room >= 4 {
            seq![(" "@ + spec_fit(context@, ctx_room - 2) + " "@, SegmentRole::Context)]
        } else {
            Seq::<(Seq<char>, SegmentRole)>::empty()
        },
        r@.len() <= 1,
{
    let mut out: Vec<Segment> = Vec::new();
    if ctx_room >= ctx_w + 2 {
        out.push(seg(spaced(context), SegmentRole::Context));
    } else if ctx_room >= 4 {
        let cut = fit(context, (ctx_room - 2) as usize);
        out.push(seg(spaced(cut.as_str()), SegmentRole::Context));
    }
    assert(segs_view(out@) =~= if ctx_room >= ctx_w + 2 {
        seq![(" "@ + context@ + " "@, SegmentRole::Context)]
    } else if ctx_room >= 4 {
        seq![(" "@ + spec_fit(context@, ctx_room - 2) + " "@, SegmentRole::Context)]
    } else {
        Seq::<(Seq<char>, SegmentRole)>::empty()
    });
    out
}

/// Move every segment of `b` onto the end of `a`.
fn append(a: &mut Vec<Segment>, b: Vec<Segment>)
    ensures
        segs_view(final(a)@) == segs_view(old(a)@) + segs_view(b@),
        final(a)@.len() == old(a)@.len() + b@.len(),
{
    let ghost hs = b@;
    let ghost base = segs_view(a@);
    let mut rest = b;
    let mut j: usize = 0;
    let nh = rest.len();
    while rest.len() > 0
        invariant
            nh == hs.len(),
            j + rest@.len() == hs.len(),
            rest@ == hs.skip(j as int),
            segs_view(a@) == base + segs_view(hs.take(j as int)),
            a@.len() == old(a)@.len() + j,
        decreases rest.len(),
    {
        let ghost old_rest = rest@;
        let s = rest.remove(0);
        assert(s == hs[j as int]) by {
            assert(old_rest[0] == hs.skip(j as int)[0]);
        }
        let ghost old_a = a@;
        a.push(s);
        assert(segs_view(a@) =~= segs_view(old_a).push(seg_view(s)));
        j += 1;
        assert(rest@ =~= hs.skip(j as int));
        assert(segs_view(hs.take(j as int)) =~= segs_view(hs.take(j - 1)).push(seg_view(s)));
        assert(segs_view(a@) =~= base + segs_view(hs.take(j as int)));
    }
    assert(hs.take(hs.len() as int) =~= hs);
}

/// The hints that fit `room` cells (see `hint_segments`).
fn fit_hints(hints: &[(&str, &str)], hint_room: u128) -> (r: (Vec<Segment>, u128))
    requires
        hint_room <= 64 * (usize::MAX as int),
    ensures
        segs_view(r.0@) == hint_segments(hints_view(hints@), hint_room as int, 0).0,
        r.1 == hint_segments(hints_view(hints@), hint_room as int, 0).1,
        r.1 <= hint_room,
{
        let mut hint_segs: Vec<Segment> = Vec::new();
        let mut hints_w: u128 = 0;
        let mut i: usize = 0;
        let ghost hv = hints_view(hints@);
        let ghost whole = hint_segments(hv, hint_room as int, 0);
        assert(hv.skip(0) =~= hv);
        assert(segs_view(hint_segs@) + whole.0 =~= whole.0);
        if hints.len() == 0 {
            assert(segs_view(hint_segs@) =~= whole.0);
        }
        while i < hints.len()
            invariant_except_break
                segs_view(hint_segs@) + hint_segments(hv.skip(i as int), hint_room as int, hints_w as int).0
                    == whole.0,
                hint_segments(hv.skip(i as int), hint_room as int, hints_w as int).1 == whole.1,
            invariant
                i <= hints@.len(),
                hv == hints_view(hints@),
                hints_w <= hint_room,
                hint_room <= 64 * (usize::MAX as int),
                whole == hint_segments(hv, hint_room as int, 0),
                i == hints@.len() ==> segs_view(hint_segs@) == whole.0 && hints_w == whole.1,
            ensures
                segs_view(hint_segs@) == whole.0,
                hints_w == whole.1,
            decreases hints.len() - i,
        {
            let (k, d) = hints[i];
            let ghost rest = hv.skip(i as int);
            assert(rest[0] == (k@, d@));
            assert(rest.skip(1) =~= hv.skip(i + 1));
            let needed = str_width(k) as u128 + str_width(d) as u128 + 4;
            if hints_w + needed <= hint_room {
                let ghost before = segs_view(hint_segs@);
                hint_segs.push(seg(spaced_left(k), SegmentRole::HintKey));
                let mut desc = " ".to_owned();
                push_str(&mut desc, d);
                push_str(&mut desc, " ·");
                hint_segs.push(seg(desc, SegmentRole::HintDesc));
                assert(segs_view(hint_segs@) =~= before + seq![
                    (" "@ + k@, SegmentRole::HintKey),
                    (" "@ + d@ + " ·"@, SegmentRole::HintDesc),
                ]);
                hints_w = hints_w + needed;
                i += 1;
                if i == hints.len() {
                    assert(hv.skip(i as int) =~= Seq::<(Seq<char>, Seq<char>)>::empty());
                    assert(segs_view(hint_segs@) + Seq::<(Seq<char>, SegmentRole)>::empty() =~= segs_view(
                        hint_segs@,
                    ));
                }
            } else {
                assert(text_cells(rest[0].0) + text_cells(rest[0].1) + 4 == needed);
                if hint_room - hints_w >= 2 {
                    let ghost before = segs_view(hint_segs@);
                    hint_segs.push(seg(" …".to_owned(), SegmentRole::HintMore));
                    assert(segs_view(hint_segs@) =~= before + seq![(" …"@, SegmentRole::HintMore)]);
                    hints_w = hints_w + 2;
                } else {
                    assert(segs_view(hint_segs@) + Seq::<(Seq<char>, SegmentRole)>::empty() =~= segs_view(
                        hint_segs@,
                    ));
                }
                break;
            }
        }
        if hints.len() == 0 {
            assert(segs_view(hint_segs@) + Seq::<(Seq<char>, SegmentRole)>::empty() =~= segs_view(
                hint_segs@,
            ));
        }
        (hint_segs, hints_w)
}

fn spaced_left(a: &str) -> (r: String)
    ensures
        r@ == " "@ + a@,
{
    let mut r = " ".to_owned();
    push_str(&mut r, a);
    r
}

impl Default for Modeline {
    fn default() -> (r: Self)
        ensures
            r.forge@.len() == 0,
            r.icon is None,
            r.context@.len() == 0,
            r.status is None,
    {
        Self::new()
    }
}

} // verus!
