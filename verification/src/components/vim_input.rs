//! Modal text field shared by every input in the app.
//! Focus lands in INSERT; Esc → NORMAL with h/l, 0/$, x, w/e/b, d-motions;
//! i/a/I/A → INSERT. Enter (from INSERT) submits.
use crate::keys::{Key, KeyCode};
use crate::text::{chars_of, concat_chars, is_alphanumeric_char, is_whitespace_char, slice_chars, string_of};
use vstd::prelude::*;

verus! {

#[derive(Debug, Clone, Copy, PartialEq, Eq, Structural)]
pub enum SubMode {
    Insert,
    Normal,
}

#[derive(Debug, Clone, Copy, PartialEq, Eq, Structural)]
pub enum Outcome {
    Noop,
    Changed,
    Submitted,
    /// Esc pressed while already in NORMAL (or in a transient input) —
    /// the owner decides what dismissal means.
    Cancelled,
}

#[derive(Debug, Clone)]
pub struct VimInput {
    chars: Vec<char>,
    /// Cursor as a char index; in Insert it sits between chars
    /// (0..=len), in Normal it sits on a char.
    cursor: usize,
    pub submode: SubMode,
    /// Modal inputs get Esc→NORMAL; transient ones cancel on Esc.
    modal: bool,
    /// Prefilled value: the first edit replaces it.
    replace_on_edit: bool,
    /// `d` pressed in NORMAL, waiting for its motion.
    pending_delete: bool,
}

/// The abstract state of an input field.
pub struct VimState {
    pub chars: Seq<char>,
    pub cursor: nat,
    pub submode: SubMode,
    pub modal: bool,
    pub replace_on_edit: bool,
    pub pending_delete: bool,
}

impl View for VimInput {
    type V = VimState;

    closed spec fn view(&self) -> VimState {
        VimState {
            chars: self.chars@,
            cursor: self.cursor as nat,
            submode: self.submode,
            modal: self.modal,
            replace_on_edit: self.replace_on_edit,
            pending_delete: self.pending_delete,
        }
    }
}

/// Word-motion classes: word chars (alphanumerics and `_`), whitespace,
/// and the punctuation runs between them (vim's `word`).
#[derive(Debug, Clone, Copy, PartialEq, Eq, Structural)]
pub enum CharClass {
    Word,
    Space,
    Punct,
}

pub open spec fn class_of(c: char) -> CharClass {
    if is_alphanumeric_char(c) || c == '_' {
        CharClass::Word
    } else if is_whitespace_char(c) {
        CharClass::Space
    } else {
        CharClass::Punct
    }
}

/// From `j`, the first index past the run of class `cls` (or `j` itself).
pub open spec fn run_end(s: Seq<char>, j: int, cls: CharClass) -> int
    decreases s.len() - j,
{
    if 0 <= j < s.len() && class_of(s[j]) == cls {
        run_end(s, j + 1, cls)
    } else {
        j
    }
}

/// From `j`, the first index of the run of class `cls` that holds `j`.
pub open spec fn run_start(s: Seq<char>, j: int, cls: CharClass) -> int
    decreases j,
{
    if 0 < j <= s.len() && class_of(s[j - 1]) == cls {
        run_start(s, j - 1, cls)
    } else {
        j
    }
}

/// `w`: skip the run under `i` (unless blank), then the blanks after
/// it — the start of the next run, or the end of the text.
pub open spec fn spec_word_start_fwd(s: Seq<char>, i: int) -> int {
    if i >= s.len() {
        s.len() as int
    } else {
        let j = if class_of(s[i]) != CharClass::Space {
            run_end(s, i, class_of(s[i]))
        } else {
            i
        };
        run_end(s, j, CharClass::Space)
    }
}

/// `e` starts at the cursor, clamped onto the text.
pub open spec fn end_anchor(s: Seq<char>, i: int) -> int {
    if i < s.len() - 1 { i } else { s.len() - 1 }
}

/// The anchor already sits on the last char of a non-blank run.
pub open spec fn at_run_end(s: Seq<char>, j: int) -> bool {
    class_of(s[j]) != CharClass::Space && (j + 1 == s.len() || class_of(s[j + 1]) != class_of(
        s[j],
    ))
}

/// `e` has a run to land on: the text is empty, or the anchor ends a
/// run, or a non-blank char follows the blanks at the anchor.
pub open spec fn word_end_defined(s: Seq<char>, i: int) -> bool {
    s.len() == 0 || at_run_end(s, end_anchor(s, i)) || run_end(s, end_anchor(s, i), CharClass::Space)
        < s.len()
}

/// `e`: the last char of the run at/after `i`; from a run's end, the
/// end of the next run (the last char when none follows).
pub open spec fn spec_word_end_fwd(s: Seq<char>, i: int) -> int {
    if s.len() == 0 {
        0
    } else {
        let j0 = end_anchor(s, i);
        if at_run_end(s, j0) {
            let j1 = run_end(s, j0 + 1, CharClass::Space);
            if j1 >= s.len() {
                s.len() - 1
            } else {
                run_end(s, j1, class_of(s[j1])) - 1
            }
        } else {
            let j1 = run_end(s, j0, CharClass::Space);
            run_end(s, j1, class_of(s[j1])) - 1
        }
    }
}

/// `b` / Ctrl+W: the start of the run before `i`; from blanks, only
/// the blank run is covered.
pub open spec fn spec_word_start_back(s: Seq<char>, i: int) -> int {
    if i <= 0 {
        0
    } else {
        run_start(s, i - 1, class_of(s[i - 1]))
    }
}

/// `s` without the chars in `a..b`.
pub open spec fn cut(s: Seq<char>, a: int, b: int) -> Seq<char> {
    s.take(a) + s.skip(b)
}

pub open spec fn with_cursor(st: VimState, cursor: nat) -> VimState {
    VimState { cursor, ..st }
}

pub open spec fn with_text(st: VimState, chars: Seq<char>, cursor: nat) -> VimState {
    VimState { chars, cursor, ..st }
}

/// Keys that count as an edit (they consume a prefilled value).
pub open spec fn is_edit_key(k: Key) -> bool {
    match k.code {
        KeyCode::Char(_) => k.modifiers.is_none() || k.modifiers.is_shift_only()
            || k.modifiers.is_control_only() && (k.code == KeyCode::Char('w') || k.code
            == KeyCode::Char('u')),
        KeyCode::Backspace => true,
        KeyCode::Delete => true,
        _ => false,
    }
}

/// One key in INSERT.
pub open spec fn insert_step(s0: VimState, k: Key) -> (VimState, Outcome) {
    let s = if s0.replace_on_edit && is_edit_key(k) {
        VimState { chars: seq![], cursor: 0, replace_on_edit: false, ..s0 }
    } else {
        s0
    };
    let len = s.chars.len();
    let ctrl = k.modifiers.is_control_only();
    if k.code == KeyCode::Char('w') && ctrl {
        let from = spec_word_start_back(s.chars, s.cursor as int);
        (with_text(s, cut(s.chars, from, s.cursor as int), from as nat), Outcome::Changed)
    } else if k.code == KeyCode::Char('u') && ctrl {
        (with_text(s, s.chars.skip(s.cursor as int), 0), Outcome::Changed)
    } else {
        match k.code {
            KeyCode::Char(c) => if k.modifiers.is_none() || k.modifiers.is_shift_only() {
                (with_text(s, s.chars.insert(s.cursor as int, c), s.cursor + 1), Outcome::Changed)
            } else {
                (s, Outcome::Noop)
            },
            KeyCode::Backspace => if s.cursor > 0 {
                (
                    with_text(s, s.chars.remove(s.cursor - 1), (s.cursor - 1) as nat),
                    Outcome::Changed,
                )
            } else {
                (s, Outcome::Changed)
            },
            KeyCode::Delete => if s.cursor < len {
                (with_text(s, s.chars.remove(s.cursor as int), s.cursor), Outcome::Changed)
            } else {
                (s, Outcome::Changed)
            },
            KeyCode::Left => (
                with_cursor(s, if s.cursor > 0 { (s.cursor - 1) as nat } else { 0 }),
                Outcome::Noop,
            ),
            KeyCode::Right => (
                with_cursor(s, if s.cursor + 1 <= len { s.cursor + 1 } else { len }),
                Outcome::Noop,
            ),
            KeyCode::Home => (with_cursor(s, 0), Outcome::Noop),
            KeyCode::End => (with_cursor(s, len), Outcome::Noop),
            KeyCode::Enter => (s, Outcome::Submitted),
            KeyCode::Esc => if !s.modal {
                (s, Outcome::Cancelled)
            } else {
                (
                    VimState {
                        submode: SubMode::Normal,
                        cursor: if s.cursor > 0 && s.cursor == len {
                            (s.cursor - 1) as nat
                        } else {
                            s.cursor
                        },
                        ..s
                    },
                    Outcome::Noop,
                )
            },
            _ => (s, Outcome::Noop),
        }
    }
}

/// A NORMAL cursor after a destructive edit sits on a char.
pub open spec fn clamped(st: VimState) -> VimState {
    if st.chars.len() == 0 {
        with_cursor(st, 0)
    } else if st.cursor >= st.chars.len() {
        with_cursor(st, (st.chars.len() - 1) as nat)
    } else {
        st
    }
}

/// One key in NORMAL.
pub open spec fn normal_step(s0: VimState, k: Key) -> (VimState, Outcome) {
    let pending = s0.pending_delete;
    let s = VimState { pending_delete: false, ..s0 };
    let len = s.chars.len();
    let cur = s.cursor as int;
    if pending && k.code == KeyCode::Char('d') {
        (with_text(s, seq![], 0), Outcome::Changed)
    } else if pending && !(k.code == KeyCode::Char('w') || k.code == KeyCode::Char('e') || k.code
        == KeyCode::Char('b')) {
        (s, Outcome::Noop)
    } else {
        match k.code {
            KeyCode::Char('h') | KeyCode::Left => (
                with_cursor(s, if s.cursor > 0 { (s.cursor - 1) as nat } else { 0 }),
                Outcome::Noop,
            ),
            KeyCode::Char('l') | KeyCode::Right => (
                if len > 0 {
                    with_cursor(s, if s.cursor + 1 <= len - 1 { s.cursor + 1 } else { (len - 1) as nat })
                } else {
                    s
                },
                Outcome::Noop,
            ),
            KeyCode::Char('0') | KeyCode::Home => (with_cursor(s, 0), Outcome::Noop),
            KeyCode::Char('$') | KeyCode::End => (
                if len > 0 { with_cursor(s, (len - 1) as nat) } else { s },
                Outcome::Noop,
            ),
            KeyCode::Char('d') => (VimState { pending_delete: true, ..s }, Outcome::Noop),
            KeyCode::Char('w') => {
                let to = spec_word_start_fwd(s.chars, cur);
                if pending {
                    (clamped(with_text(s, cut(s.chars, cur, to), s.cursor)), Outcome::Changed)
                } else {
                    (
                        if len > 0 {
                            with_cursor(s, if to <= len - 1 { to as nat } else { (len - 1) as nat })
                        } else {
                            s
                        },
                        Outcome::Noop,
                    )
                }
            },
            KeyCode::Char('e') => {
                let to = spec_word_end_fwd(s.chars, cur);
                if pending {
                    let last = if to <= len - 1 { to } else { len - 1 };
                    (clamped(with_text(s, cut(s.chars, cur, last + 1), s.cursor)), Outcome::Changed)
                } else {
                    (with_cursor(s, to as nat), Outcome::Noop)
                }
            },
            KeyCode::Char('b') => {
                let from = spec_word_start_back(s.chars, cur);
                if pending {
                    (with_text(s, cut(s.chars, from, cur), from as nat), Outcome::Changed)
                } else {
                    (with_cursor(s, from as nat), Outcome::Noop)
                }
            },
            KeyCode::Char('I') => (
                VimState { cursor: 0, submode: SubMode::Insert, ..s },
                Outcome::Noop,
            ),
            KeyCode::Char('D') => (clamped(with_text(s, s.chars.take(cur), s.cursor)), Outcome::Changed),
            KeyCode::Char('x') => (
                if s.cursor < len {
                    let rest = s.chars.remove(cur);
                    with_text(
                        s,
                        rest,
                        if s.cursor >= rest.len() && s.cursor > 0 {
                            (s.cursor - 1) as nat
                        } else {
                            s.cursor
                        },
                    )
                } else {
                    s
                },
                Outcome::Changed,
            ),
            KeyCode::Char('i') => (VimState { submode: SubMode::Insert, ..s }, Outcome::Noop),
            KeyCode::Char('a') => (
                VimState {
                    cursor: if s.cursor + 1 <= len { s.cursor + 1 } else { len },
                    submode: SubMode::Insert,
                    ..s
                },
                Outcome::Noop,
            ),
            KeyCode::Char('A') => (
                VimState { cursor: len, submode: SubMode::Insert, ..s },
                Outcome::Noop,
            ),
            KeyCode::Esc => (s, Outcome::Cancelled),
            _ => (s, Outcome::Noop),
        }
    }
}

/// The input's reaction to one key: the next state and the outcome.
pub open spec fn step(s: VimState, k: Key) -> (VimState, Outcome) {
    match s.submode {
        SubMode::Insert => insert_step(s, k),
        SubMode::Normal => normal_step(s, k),
    }
}

/// The states an input can be in: the cursor never leaves the text.
pub open spec fn state_wf(s: VimState) -> bool {
    s.cursor <= s.chars.len()
}

/// The keys an input handles without failing: `e` (and `de`) need a
/// run to land on, `de` needs text, and the text must stay below the
/// machine's length limit.
pub open spec fn accepts(s: VimState, k: Key) -> bool {
    &&& s.chars.len() < usize::MAX
    &&& (s.submode == SubMode::Normal && k.code == KeyCode::Char('e')) ==> {
        &&& word_end_defined(s.chars, s.cursor as int)
        &&& s.pending_delete ==> s.chars.len() > 0
    }
}

impl VimInput {
    /// The field's invariant.
    pub closed spec fn wf(&self) -> bool {
        self.cursor <= self.chars.len()
    }

    /// An empty modal input in INSERT.
    pub fn new() -> (r: Self)
        ensures
            r.wf(),
            r@.chars.len() == 0,
            r@.cursor == 0,
            r@.submode == SubMode::Insert,
            r@.modal,
            !r@.replace_on_edit,
            !r@.pending_delete,
    {
        VimInput {
            chars: Vec::new(),
            cursor: 0,
            submode: SubMode::Insert,
            modal: true,
            replace_on_edit: false,
            pending_delete: false,
        }
    }

    /// Single-stroke input: Esc cancels instead of entering NORMAL.
    pub fn transient() -> (r: Self)
        ensures
            r.wf(),
            r@.chars.len() == 0,
            r@.cursor == 0,
            r@.submode == SubMode::Insert,
            !r@.modal,
            !r@.replace_on_edit,
            !r@.pending_delete,
    {
        VimInput {
            chars: Vec::new(),
            cursor: 0,
            submode: SubMode::Insert,
            modal: false,
            replace_on_edit: false,
            pending_delete: false,
        }
    }

    /// The current text.
    pub fn value(&self) -> (s: String)
        ensures
            s@ == self@.chars,
    {
        string_of(self.chars.as_slice())
    }

    /// Replace the text; the cursor goes to its end.
    pub fn set(&mut self, value: &str)
        ensures
            final(self).wf(),
            final(self)@ == (VimState {
                chars: value@,
                cursor: value@.len(),
                replace_on_edit: false,
                ..old(self)@
            }),
    {
        self.chars = chars_of(value);
        self.cursor = self.chars.len();
        self.replace_on_edit = false;
    }

    /// Seed with a replaceable value: typing clears it first; Enter
    /// submits it unchanged.
    pub fn prefill(&mut self, value: &str)
        ensures
            final(self).wf(),
            final(self)@ == (VimState {
                chars: value@,
                cursor: value@.len(),
                replace_on_edit: true,
                ..old(self)@
            }),
    {
        self.set(value);
        self.replace_on_edit = true;
    }

    /// Empty the text.
    pub fn clear(&mut self)
        ensures
            final(self).wf(),
            final(self)@ == (VimState {
                chars: Seq::<char>::empty(),
                cursor: 0,
                replace_on_edit: false,
                ..old(self)@
            }),
    {
        self.chars = Vec::new();
        self.cursor = 0;
        self.replace_on_edit = false;
    }

    /// The current submode.
    pub fn submode(&self) -> (m: SubMode)
        ensures
            m == self@.submode,
    {
        self.submode
    }

    /// Switch submode, text and cursor untouched.
    pub fn set_submode(&mut self, m: SubMode)
        ensures
            old(self).wf() ==> final(self).wf(),
            final(self)@ == (VimState { submode: m, ..old(self)@ }),
    {
        self.submode = m;
    }

    /// Cursor position in chars.
    pub fn cursor(&self) -> (c: usize)
        ensures
            c == self@.cursor,
    {
        self.cursor
    }

    /// React to one key.
    pub fn handle_key(&mut self, key: Key) -> (out: Outcome)
        requires
            old(self).wf(),
            accepts(old(self)@, key),
        ensures
            final(self).wf(),
            (final(self)@, out) == step(old(self)@, key),
    {
        match self.submode {
            SubMode::Insert => self.insert_key(key),
            SubMode::Normal => self.normal_key(key),
        }
    }

    /// Whether the cursor is within the text (the field's invariant).
    pub fn in_shape(&self) -> (b: bool)
        ensures
            b == self.wf(),
    {
        self.cursor <= self.chars.len()
    }

    /// Whether `handle_key` accepts `key` in the current state.
    pub fn accepts_key(&self, key: Key) -> (b: bool)
        requires
            self.wf(),
        ensures
            b == accepts(self@, key),
    {
        if self.chars.len() == usize::MAX {
            return false;
        }
        if self.submode == SubMode::Normal && key.code == KeyCode::Char('e') {
            if !word_end_defined_exec(&self.chars, self.cursor) {
                return false;
            }
            if self.pending_delete && self.chars.len() == 0 {
                return false;
            }
        }
        true
    }

    fn insert_key(&mut self, key: Key) -> (out: Outcome)
        requires
            old(self).wf(),
            old(self)@.submode == SubMode::Insert,
            old(self)@.chars.len() < usize::MAX,
        ensures
            final(self).wf(),
            (final(self)@, out) == insert_step(old(self)@, key),
    {
        let is_edit = match key.code {
            KeyCode::Char(c) => {
                let m = key.modifiers;
                let none = !m.shift && !m.control && !m.alt && !m.other;
                let shift = m.shift && !m.control && !m.alt && !m.other;
                let ctrl = !m.shift && m.control && !m.alt && !m.other;
                none || shift || ctrl && (c == 'w' || c == 'u')
            },
            KeyCode::Backspace => true,
            KeyCode::Delete => true,
            _ => false,
        };
        if self.replace_on_edit && is_edit {
            self.chars.clear();
            self.cursor = 0;
            self.replace_on_edit = false;
        }
        let m = key.modifiers;
        let ctrl = !m.shift && m.control && !m.alt && !m.other;
        let plain = !m.shift && !m.control && !m.alt && !m.other;
        let shift = m.shift && !m.control && !m.alt && !m.other;
        if key.code == KeyCode::Char('w') && ctrl {
            let from = word_start_back(&self.chars, self.cursor);
            self.chars = without_range(&self.chars, from, self.cursor);
            self.cursor = from;
            return Outcome::Changed;
        }
        if key.code == KeyCode::Char('u') && ctrl {
            self.chars = without_range(&self.chars, 0, self.cursor);
            self.cursor = 0;
            proof {
                assert(old(self)@.chars.take(0) + self@.chars == self@.chars);
            }
            return Outcome::Changed;
        }
        match key.code {
            KeyCode::Char(c) => {
                if plain || shift {
                    self.chars.insert(self.cursor, c);
                    self.cursor += 1;
                    Outcome::Changed
                } else {
                    Outcome::Noop
                }
            },
            KeyCode::Backspace => {
                if self.cursor > 0 {
                    self.cursor -= 1;
                    self.chars.remove(self.cursor);
                }
                Outcome::Changed
            },
            KeyCode::Delete => {
                if self.cursor < self.chars.len() {
                    self.chars.remove(self.cursor);
                }
                Outcome::Changed
            },
            KeyCode::Left => {
                self.cursor = if self.cursor > 0 { self.cursor - 1 } else { 0 };
                Outcome::Noop
            },
            KeyCode::Right => {
                self.cursor = if self.cursor + 1 <= self.chars.len() {
                    self.cursor + 1
                } else {
                    self.chars.len()
                };
                Outcome::Noop
            },
            KeyCode::Home => {
                self.cursor = 0;
                Outcome::Noop
            },
            KeyCode::End => {
                self.cursor = self.chars.len();
                Outcome::Noop
            },
            KeyCode::Enter => Outcome::Submitted,
            KeyCode::Esc => {
                if !self.modal {
                    return Outcome::Cancelled;
                }
                self.submode = SubMode::Normal;
                if self.cursor > 0 && self.cursor == self.chars.len() {
                    self.cursor -= 1;
                }
                Outcome::Noop
            },
            _ => Outcome::Noop,
        }
    }

    fn normal_key(&mut self, key: Key) -> (out: Outcome)
        requires
            old(self).wf(),
            old(self)@.submode == SubMode::Normal,
            accepts(old(self)@, key),
        ensures
            final(self).wf(),
            (final(self)@, out) == normal_step(old(self)@, key),
    {
        let len = self.chars.len();
        let pending = self.pending_delete;
        self.pending_delete = false;
        if pending && key.code == KeyCode::Char('d') {
            self.chars.clear();
            self.cursor = 0;
            return Outcome::Changed;
        }
        if pending && !(key.code == KeyCode::Char('w') || key.code == KeyCode::Char('e')
            || key.code == KeyCode::Char('b')) {
            return Outcome::Noop;
        }
        match key.code {
            KeyCode::Char('h') | KeyCode::Left => {
                self.cursor = if self.cursor > 0 { self.cursor - 1 } else { 0 };
                Outcome::Noop
            },
            KeyCode::Char('l') | KeyCode::Right => {
                if len > 0 {
                    self.cursor = if self.cursor + 1 <= len - 1 { self.cursor + 1 } else { len - 1 };
                }
                Outcome::Noop
            },
            KeyCode::Char('0') | KeyCode::Home => {
                self.cursor = 0;
                Outcome::Noop
            },
            KeyCode::Char('$') | KeyCode::End => {
                if len > 0 {
                    self.cursor = len - 1;
                }
                Outcome::Noop
            },
            KeyCode::Char('d') => {
                self.pending_delete = true;
                Outcome::Noop
            },
            KeyCode::Char('w') => {
                let to = word_start_fwd(&self.chars, self.cursor);
                if pending {
                    self.chars = without_range(&self.chars, self.cursor, to);
                    self.clamp_cursor();
                    Outcome::Changed
                } else {
                    if len > 0 {
                        self.cursor = if to <= len - 1 { to } else { len - 1 };
                    }
                    Outcome::Noop
                }
            },
            KeyCode::Char('e') => {
                let to = word_end_fwd(&self.chars, self.cursor);
                if pending {
                    let last = if to <= len - 1 { to } else { len - 1 };
                    self.chars = without_range(&self.chars, self.cursor, last + 1);
                    self.clamp_cursor();
                    Outcome::Changed
                } else {
                    self.cursor = to;
                    Outcome::Noop
                }
            },
            KeyCode::Char('b') => {
                let from = word_start_back(&self.chars, self.cursor);
                if pending {
                    self.chars = without_range(&self.chars, from, self.cursor);
                    self.cursor = from;
                    Outcome::Changed
                } else {
                    self.cursor = from;
                    Outcome::Noop
                }
            },
            KeyCode::Char('I') => {
                self.cursor = 0;
                self.submode = SubMode::Insert;
                Outcome::Noop
            },
            KeyCode::Char('D') => {
                self.chars.truncate(self.cursor);
                if self.cursor > 0 {
                    self.cursor -= 1;
                }
                Outcome::Changed
            },
            KeyCode::Char('x') => {
                if self.cursor < len {
                    self.chars.remove(self.cursor);
                    if self.cursor >= self.chars.len() && self.cursor > 0 {
                        self.cursor -= 1;
                    }
                }
                Outcome::Changed
            },
            KeyCode::Char('i') => {
                self.submode = SubMode::Insert;
                Outcome::Noop
            },
            KeyCode::Char('a') => {
                self.cursor = if self.cursor + 1 <= len { self.cursor + 1 } else { len };
                self.submode = SubMode::Insert;
                Outcome::Noop
            },
            KeyCode::Char('A') => {
                self.cursor = len;
                self.submode = SubMode::Insert;
                Outcome::Noop
            },
            KeyCode::Esc => Outcome::Cancelled,
            _ => Outcome::Noop,
        }
    }

    /// After a destructive edit: NORMAL cursors sit on a char.
    fn clamp_cursor(&mut self)
        ensures
            final(self)@ == clamped(old(self)@),
    {
        let len = self.chars.len();
        if len == 0 {
            self.cursor = 0;
        } else if self.cursor >= len {
            self.cursor = len - 1;
        }
    }
}

/// The class of one char.
pub fn class(c: char) -> (r: CharClass)
    ensures
        r == class_of(c),
{
    if crate::text::is_alphanumeric(c) || c == '_' {
        CharClass::Word
    } else if crate::text::is_whitespace(c) {
        CharClass::Space
    } else {
        CharClass::Punct
    }
}

/// `v` without the chars in `a..b`.
fn without_range(v: &Vec<char>, a: usize, b: usize) -> (r: Vec<char>)
    requires
        a <= b <= v@.len(),
    ensures
        r@ == cut(v@, a as int, b as int),
{
    let head = slice_chars(v.as_slice(), 0, a);
    let rest = slice_chars(v.as_slice(), b, v.len());
    let r = concat_chars(head.as_slice(), rest.as_slice());
    assert(head@ =~= v@.take(a as int));
    assert(rest@ =~= v@.skip(b as int));
    r
}

/// Walk forward from `j` over chars of class `cls`.
fn skip_run(chars: &Vec<char>, j: usize, cls: CharClass) -> (r: usize)
    requires
        j <= chars@.len(),
    ensures
        r == run_end(chars@, j as int, cls),
        j <= r <= chars@.len(),
{
    let n = chars.len();
    let mut k = j;
    while k < n && class(chars[k]) == cls
        invariant
            j <= k <= n,
            n == chars@.len(),
            run_end(chars@, k as int, cls) == run_end(chars@, j as int, cls),
        decreases n - k,
    {
        k += 1;
    }
    k
}

proof fn lemma_run_end_bounds(s: Seq<char>, j: int, cls: CharClass)
    requires
        0 <= j <= s.len(),
    ensures
        j <= run_end(s, j, cls) <= s.len(),
        forall|k: int| j <= k < run_end(s, j, cls) ==> class_of(#[trigger] s[k]) == cls,
    decreases s.len() - j,
{
    if j < s.len() && class_of(s[j]) == cls {
        lemma_run_end_bounds(s, j + 1, cls);
    }
}

proof fn lemma_run_start_bounds(s: Seq<char>, j: int, cls: CharClass)
    requires
        0 <= j <= s.len(),
    ensures
        0 <= run_start(s, j, cls) <= j,
    decreases j,
{
    if 0 < j && class_of(s[j - 1]) == cls {
        lemma_run_start_bounds(s, j - 1, cls);
    }
}

/// `w`: start of the run after index `i`.
pub fn word_start_fwd(chars: &Vec<char>, i: usize) -> (r: usize)
    ensures
        r == spec_word_start_fwd(chars@, i as int),
        i < chars@.len() ==> i <= r,
        r <= chars@.len(),
{
    let n = chars.len();
    if i >= n {
        return n;
    }
    let mut j = i;
    let c = class(chars[j]);
    if c != CharClass::Space {
        j = skip_run(chars, j, c);
    }
    skip_run(chars, j, CharClass::Space)
}

/// Does `e` have a run to land on from `i`?
pub fn word_end_defined_exec(chars: &Vec<char>, i: usize) -> (b: bool)
    ensures
        b == word_end_defined(chars@, i as int),
{
    let n = chars.len();
    if n == 0 {
        return true;
    }
    let j = if i < n - 1 { i } else { n - 1 };
    let cj = class(chars[j]);
    if cj != CharClass::Space && (j + 1 == n || class(chars[j + 1]) != cj) {
        return true;
    }
    skip_run(chars, j, CharClass::Space) < n
}

/// `e`: end (last char index) of the run at/after `i`.
pub fn word_end_fwd(chars: &Vec<char>, i: usize) -> (r: usize)
    requires
        word_end_defined(chars@, i as int),
    ensures
        r == spec_word_end_fwd(chars@, i as int),
        chars@.len() > 0 ==> r < chars@.len(),
        chars@.len() == 0 ==> r == 0,
        chars@.len() > 0 ==> end_anchor(chars@, i as int) <= r,
{
    let n = chars.len();
    if n == 0 {
        return 0;
    }
    let j0 = if i < n - 1 { i } else { n - 1 };
    let c0 = class(chars[j0]);
    let j1;
    if c0 != CharClass::Space && (j0 + 1 == n || class(chars[j0 + 1]) != c0) {
        j1 = skip_run(chars, j0 + 1, CharClass::Space);
        if j1 >= n {
            return n - 1;
        }
    } else {
        j1 = skip_run(chars, j0, CharClass::Space);
    }
    let c = class(chars[j1]);
    let k = skip_run(chars, j1, c);
    proof {
        assert(run_end(chars@, j1 as int, c) == run_end(chars@, j1 + 1, c));
        lemma_run_end_bounds(chars@, j1 + 1, c);
    }
    k - 1
}

/// `b` / Ctrl+W: start of the run before index `i`.
pub fn word_start_back(chars: &Vec<char>, i: usize) -> (r: usize)
    requires
        i <= chars@.len(),
    ensures
        r == spec_word_start_back(chars@, i as int),
        r <= i,
        i > 0 ==> r < i,
{
    if i == 0 {
        return 0;
    }
    let mut j = i - 1;
    let c = class(chars[j]);
    while j > 0 && class(chars[j - 1]) == c
        invariant
            j < i <= chars@.len(),
            run_start(chars@, j as int, c) == run_start(chars@, (i - 1) as int, c),
        decreases j,
    {
        j -= 1;
    }
    j
}

/// Entering INSERT from NORMAL puts the next typed char where vim puts
/// it: `A` at the end of the text, `I` at its start, `i` before the
/// char under the cursor and `a` after it; the text itself is left as
/// it was until that char lands.
pub proof fn lemma_insert_entries_place_the_next_char(s: VimState, enter: Key, c: char, typed: Key)
    requires
        s.submode == SubMode::Normal,
        !s.pending_delete,
        !s.replace_on_edit,
        cursor_placed(s),
        typed.code == KeyCode::Char(c),
        typed.modifiers.is_none(),
    ensures
        ({
            let t = step(s, enter).0;
            let u = step(t, typed).0;
            &&& enter.code == KeyCode::Char('A') ==> {
                &&& t.submode == SubMode::Insert && t.chars == s.chars && t.cursor == s.chars.len()
                &&& u.chars == s.chars.push(c) && u.cursor == s.chars.len() + 1
            }
            &&& enter.code == KeyCode::Char('I') ==> {
                &&& t.submode == SubMode::Insert && t.chars == s.chars && t.cursor == 0
                &&& u.chars == seq![c] + s.chars && u.cursor == 1
            }
            &&& enter.code == KeyCode::Char('i') ==> {
                &&& t.submode == SubMode::Insert && t.chars == s.chars && t.cursor == s.cursor
                &&& u.chars == s.chars.take(s.cursor as int) + seq![c] + s.chars.skip(s.cursor as int)
            }
            &&& enter.code == KeyCode::Char('a') && s.chars.len() > 0 ==> {
                &&& t.submode == SubMode::Insert && t.chars == s.chars && t.cursor == s.cursor + 1
                &&& u.chars == s.chars.take(s.cursor + 1int) + seq![c] + s.chars.skip(s.cursor + 1int)
            }
        }),
{
    let t = step(s, enter).0;
    let u = step(t, typed).0;
    if enter.code == KeyCode::Char('A') {
        assert(u.chars =~= s.chars.push(c));
    }
    if enter.code == KeyCode::Char('I') {
        assert(u.chars =~= seq![c] + s.chars);
    }
    if enter.code == KeyCode::Char('i') {
        assert(u.chars =~= s.chars.take(s.cursor as int) + seq![c] + s.chars.skip(s.cursor as int));
    }
    if enter.code == KeyCode::Char('a') && s.chars.len() > 0 {
        assert(u.chars =~= s.chars.take(s.cursor + 1int) + seq![c] + s.chars.skip(s.cursor + 1int));
    }
}

/// NORMAL edits and moves do what their keys name: `x` removes the char
/// under the cursor, `D` cuts from the cursor to the end, `dd` empties
/// the text, `0` goes to the first char and `$` to the last, `h` one
/// char left (not past the first), `l` one right (not past the last);
/// all of them stay in NORMAL.
pub proof fn lemma_normal_keys_edit_and_move(s: VimState, k: Key)
    requires
        s.submode == SubMode::Normal,
        !s.pending_delete,
        cursor_placed(s),
    ensures
        ({
            let t = step(s, k).0;
            let len = s.chars.len();
            &&& k.code == KeyCode::Char('x') && s.cursor < len ==> t.chars == s.chars.take(s.cursor as int)
                + s.chars.skip(s.cursor + 1int)
            &&& k.code == KeyCode::Char('D') ==> t.chars == s.chars.take(s.cursor as int)
            &&& k.code == KeyCode::Char('0') ==> t.chars == s.chars && t.cursor == 0
            &&& k.code == KeyCode::Char('$') && len > 0 ==> t.chars == s.chars && t.cursor == len - 1
            &&& k.code == KeyCode::Char('h') ==> t.chars == s.chars && t.cursor == if s.cursor > 0 {
                s.cursor - 1int
            } else {
                0int
            }
            &&& k.code == KeyCode::Char('l') && len > 0 ==> t.chars == s.chars && t.cursor == if s.cursor + 1 < len {
                s.cursor + 1int
            } else {
                len - 1int
            }
            &&& (k.code == KeyCode::Char('x') || k.code == KeyCode::Char('D') || k.code == KeyCode::Char('0')
                || k.code == KeyCode::Char('$') || k.code == KeyCode::Char('h') || k.code == KeyCode::Char('l'))
                ==> t.submode == SubMode::Normal
            &&& k.code == KeyCode::Char('d') ==> step(t, k).0.chars.len() == 0 && step(t, k).0.submode
                == SubMode::Normal
        }),
{
    let t = step(s, k).0;
    if k.code == KeyCode::Char('x') && s.cursor < s.chars.len() {
        assert(t.chars =~= s.chars.take(s.cursor as int) + s.chars.skip(s.cursor + 1int));
    }
}

/// INSERT moves leave the text alone: Home goes to the start, End past
/// the last char, Left one back (not before the start), Right one on
/// (not past the end); Esc on a modal input goes to NORMAL onto the
/// last char when the cursor was past it, and cancels a transient one.
pub proof fn lemma_insert_keys_move(s: VimState, k: Key)
    requires
        s.submode == SubMode::Insert,
        s.cursor <= s.chars.len(),
    ensures
        ({
            let (t, out) = step(s, k);
            let len = s.chars.len();
            &&& k.code == KeyCode::Home ==> t.chars == s.chars && t.cursor == 0
            &&& k.code == KeyCode::End ==> t.chars == s.chars && t.cursor == len
            &&& k.code == KeyCode::Left ==> t.chars == s.chars && t.cursor == if s.cursor > 0 {
                s.cursor - 1int
            } else {
                0int
            }
            &&& k.code == KeyCode::Right ==> t.chars == s.chars && t.cursor == if s.cursor < len {
                s.cursor + 1int
            } else {
                len as int
            }
            &&& k.code == KeyCode::Esc && s.modal ==> t.chars == s.chars && t.submode == SubMode::Normal && t.cursor
                == if s.cursor > 0 && s.cursor == len {
                s.cursor - 1int
            } else {
                s.cursor as int
            }
            &&& k.code == KeyCode::Esc && !s.modal ==> out == Outcome::Cancelled
            &&& k.code == KeyCode::Enter ==> out == Outcome::Submitted && t.chars == s.chars
        }),
{
}

/// In INSERT a typed char lands at the cursor and Backspace right after
/// it takes it back: the text and the cursor are as they were.
pub proof fn lemma_backspace_undoes_a_typed_char(s: VimState, c: char, typed: Key, back: Key)
    requires
        s.submode == SubMode::Insert,
        !s.replace_on_edit,
        s.cursor <= s.chars.len(),
        typed.code == KeyCode::Char(c),
        typed.modifiers.is_none(),
        back.code == KeyCode::Backspace,
    ensures
        step(s, typed).0.chars == s.chars.take(s.cursor as int) + seq![c] + s.chars.skip(s.cursor as int),
        step(s, typed).0.cursor == s.cursor + 1,
        step(step(s, typed).0, back).0.chars == s.chars,
        step(step(s, typed).0, back).0.cursor == s.cursor,
{
    let t = step(s, typed).0;
    assert(t.chars =~= s.chars.take(s.cursor as int) + seq![c] + s.chars.skip(s.cursor as int));
    assert(step(t, back).0.chars =~= s.chars);
}

/// Where the cursor may sit: in INSERT between chars (up to the end);
/// in NORMAL on a char (at 0 on an empty text).
pub open spec fn cursor_placed(s: VimState) -> bool {
    &&& s.submode == SubMode::Insert ==> s.cursor <= s.chars.len()
    &&& s.submode == SubMode::Normal ==> (s.chars.len() == 0 && s.cursor == 0) || s.cursor < s.chars.len()
}

/// `e` from a text with chars lands on one of them.
proof fn lemma_word_end_on_char(s: Seq<char>, i: int)
    requires
        0 <= i,
        s.len() > 0,
        word_end_defined(s, i),
    ensures
        0 <= spec_word_end_fwd(s, i) < s.len(),
{
    let j0 = end_anchor(s, i);
    if at_run_end(s, j0) {
        lemma_run_end_bounds(s, j0 + 1, CharClass::Space);
        let j1 = run_end(s, j0 + 1, CharClass::Space);
        if j1 < s.len() {
            lemma_run_end_bounds(s, j1, class_of(s[j1]));
            assert(run_end(s, j1, class_of(s[j1])) == run_end(s, j1 + 1, class_of(s[j1])));
            lemma_run_end_bounds(s, j1 + 1, class_of(s[j1]));
        }
    } else {
        lemma_run_end_bounds(s, j0, CharClass::Space);
        let j1 = run_end(s, j0, CharClass::Space);
        lemma_run_end_bounds(s, j1, class_of(s[j1]));
        assert(run_end(s, j1, class_of(s[j1])) == run_end(s, j1 + 1, class_of(s[j1])));
        lemma_run_end_bounds(s, j1 + 1, class_of(s[j1]));
    }
}

/// `b` goes back no further than the start and stays at or before the
/// cursor.
proof fn lemma_word_start_back_bounds(s: Seq<char>, i: int)
    requires
        0 <= i <= s.len(),
    ensures
        0 <= spec_word_start_back(s, i) <= i,
        i > 0 ==> spec_word_start_back(s, i) < i,
{
    if i > 0 {
        lemma_run_start_bounds(s, i - 1, class_of(s[i - 1]));
    }
}

/// Every key keeps the cursor where it may sit: between chars in
/// INSERT, on a char in NORMAL (at 0 on an empty text). So an input
/// made by `new` or `transient`, with a value set while in INSERT,
/// keeps it after any sequence of keys it accepts.
pub proof fn lemma_keys_keep_cursor_placed(s: VimState, k: Key)
    requires
        cursor_placed(s),
        accepts(s, k),
    ensures
        cursor_placed(step(s, k).0),
{
    let len = s.chars.len();
    let cur = s.cursor as int;
    match s.submode {
        SubMode::Insert => {
            let t = if s.replace_on_edit && is_edit_key(k) {
                VimState { chars: seq![], cursor: 0, replace_on_edit: false, ..s }
            } else {
                s
            };
            lemma_word_start_back_bounds(t.chars, t.cursor as int);
        },
        SubMode::Normal => {
            lemma_word_start_back_bounds(s.chars, cur);
            let from = spec_word_start_back(s.chars, cur);
            assert(cut(s.chars, from, cur).len() == from + (len - cur));
            if len > 0 && k.code == KeyCode::Char('e') {
                lemma_word_end_on_char(s.chars, cur);
            }
            if cur < len {
                assert(s.chars.remove(cur).len() == len - 1);
                let c = class_of(s.chars[cur]);
                lemma_run_end_bounds(s.chars, cur, c);
                let j = if c != CharClass::Space {
                    run_end(s.chars, cur, c)
                } else {
                    cur
                };
                lemma_run_end_bounds(s.chars, j, CharClass::Space);
            }
        },
    }
}

} // verus!
