//! Settings popup (`:settings`): section sidebar on the left, the
//! section's rows on the right.
pub mod sections;

use self::sections::{
    build, row_view, rows_view, section_view, sections_view, spec_build, Row, RowView, Section,
    SectionView,
};
use super::vim_input::{accepts, step, Outcome, SubMode, VimInput, VimState};
use crate::action::Action;
use crate::components::search_popup::CursorStyle;
use crate::config::Config;
use crate::keys::{Key, KeyCode};
use crate::mode::Mode;
use crate::text::{
    ascii_lower_chars, ascii_lower_seq, chars_of, eq_chars, parse_u64, spec_parse_u64,
    split_whitespace_words, split_ws, str_is, trim_chars, trim_ws, views,
};
use vstd::prelude::*;

verus! {

/// The editable part of a config, as plain values.
pub open spec fn editable(c: Config) -> (
    Option<Seq<char>>,
    Seq<Seq<char>>,
    bool,
    Seq<char>,
    Option<Seq<char>>,
    u64,
    Seq<char>,
    Seq<Seq<char>>,
) {
    (
        match c.editor.program {
            Some(p) => Some(p@),
            None => None,
        },
        views(c.editor.args@),
        c.editor.read_only,
        c.theme.name@,
        match c.theme.path {
            Some(p) => Some(p@),
            None => None,
        },
        c.cache.max_mb,
        c.provider.kind@,
        views(c.provider.command@),
    )
}

/// `new` is `old` with the field `section`.`key` set from the text
/// `value`: empty program/path mean none, args and command split on
/// whitespace, read_only is whether the trimmed text is `true` in any
/// ASCII case, an empty theme name falls back to the embedded mocha,
/// max_mb parses the trimmed text (512 when it doesn't parse). Any
/// other key leaves the config alone.
pub open spec fn committed(old: Config, new: Config, section: Seq<char>, key: Seq<char>, value: Seq<char>) -> bool {
    if section == "editor"@ && key == "program"@ {
        &&& new == (Config { editor: crate::config::EditorConfig { program: new.editor.program, ..old.editor }, ..old })
        &&& (value.len() == 0 ==> new.editor.program is None)
        &&& (value.len() > 0 ==> (new.editor.program matches Some(p) && p@ == value))
    } else if section == "editor"@ && key == "args"@ {
        &&& new == (Config { editor: crate::config::EditorConfig { args: new.editor.args, ..old.editor }, ..old })
        &&& views(new.editor.args@) == split_ws(value)
    } else if section == "editor"@ && key == "read_only"@ {
        new == (Config {
            editor: crate::config::EditorConfig {
                read_only: ascii_lower_seq(trim_ws(value)) == "true"@,
                ..old.editor
            },
            ..old
        })
    } else if section == "theme"@ && key == "name"@ {
        &&& new == (Config { theme: crate::config::ThemeConfig { name: new.theme.name, ..old.theme }, ..old })
        &&& new.theme.name@ == if value.len() == 0 {
            "catppuccin-mocha"@
        } else {
            value
        }
    } else if section == "theme"@ && key == "path"@ {
        &&& new == (Config { theme: crate::config::ThemeConfig { path: new.theme.path, ..old.theme }, ..old })
        &&& (value.len() == 0 ==> new.theme.path is None)
        &&& (value.len() > 0 ==> (new.theme.path matches Some(p) && p@ == value))
    } else if section == "cache"@ && key == "max_mb"@ {
        new == (Config {
            cache: crate::config::CacheConfig {
                max_mb: match spec_parse_u64(trim_ws(value)) {
                    Some(n) => n,
                    None => 512,
                },
            },
            ..old
        })
    } else if section == "provider"@ && key == "kind"@ {
        &&& new == (Config { provider: crate::config::ProviderConfig { kind: new.provider.kind, ..old.provider }, ..old })
        &&& new.provider.kind@ == value
    } else if section == "provider"@ && key == "command"@ {
        &&& new == (Config {
            provider: crate::config::ProviderConfig { command: new.provider.command, ..old.provider },
            ..old
        })
        &&& views(new.provider.command@) == split_ws(value)
    } else {
        new == old
    }
}

/// The abstract popup.
pub struct SettingsView {
    pub sections: Seq<SectionView>,
    pub section: nat,
    pub row: nat,
    pub scroll: nat,
    pub editing: Option<VimState>,
    pub config: Config,
    pub dirty: bool,
    /// The palette to preview after a theme commit.
    pub preview: Option<Seq<char>>,
}

/// A commit of `value` into `section`.`key`: the config changes as
/// `committed` says; a change makes the popup dirty, and a changed
/// theme name becomes the previewed palette. Nothing else moves.
pub open spec fn commit_step(old: SettingsView, new: SettingsView, section: Seq<char>, key: Seq<char>, value: Seq<char>) -> bool {
    let changed = editable(new.config) != editable(old.config);
    &&& committed(old.config, new.config, section, key, value)
    &&& new.dirty == (old.dirty || changed)
    &&& new.preview == if changed && section == "theme"@ && key == "name"@ {
        Some(new.config.theme.name@)
    } else {
        old.preview
    }
    &&& new.sections == old.sections
    &&& new.section == old.section
    &&& new.row == old.row
    &&& new.scroll == old.scroll
    &&& new.editing == old.editing
}

/// The text field an activated text row opens: transient, holding the
/// row's value, cursor at its end.
pub open spec fn editor_for(value: Seq<char>) -> VimState {
    VimState {
        chars: value,
        cursor: value.len(),
        submode: SubMode::Insert,
        modal: false,
        replace_on_edit: false,
        pending_delete: false,
    }
}

/// ␣/enter on the cursor row: a bool toggles (and commits `true` or
/// `false`), a radio option commits itself for its group, a text row
/// starts editing in place; no row, nothing.
pub open spec fn activate_step(old: SettingsView, new: SettingsView) -> bool {
    let sec = old.sections[old.section as int];
    if old.row < sec.rows.len() {
        match sec.rows[old.row as int] {
            RowView::Bool { key, label, value, desc } => {
                let toggled = RowView::Bool { key, label, value: !value, desc };
                &&& commit_step(
                    old,
                    SettingsView { sections: old.sections, ..new },
                    sec.name,
                    key,
                    if value {
                        "false"@
                    } else {
                        "true"@
                    },
                )
                &&& new.sections == old.sections.update(
                    old.section as int,
                    SectionView { rows: sec.rows.update(old.row as int, toggled), ..sec },
                )
            },
            RowView::Radio { group, option, .. } => commit_step(old, new, sec.name, group, option),
            RowView::Text { value, .. } => new == SettingsView { editing: Some(editor_for(value)), ..old },
        }
    } else {
        new == old
    }
}

/// Commit the edited `value` into the cursor's text row and the config.
pub open spec fn commit_field_step(old: SettingsView, new: SettingsView, value: Seq<char>) -> bool {
    let sec = old.sections[old.section as int];
    if old.row < sec.rows.len() && sec.rows[old.row as int] is Text {
        let row = sec.rows[old.row as int];
        let edited = RowView::Text {
            key: row->Text_key,
            label: row->Text_label,
            value,
            placeholder: row->Text_placeholder,
            desc: row->Text_desc,
        };
        &&& commit_step(old, SettingsView { sections: old.sections, ..new }, sec.name, row->Text_key, value)
        &&& new.sections == old.sections.update(
            old.section as int,
            SectionView { rows: sec.rows.update(old.row as int, edited), ..sec },
        )
    } else {
        new == old
    }
}

pub struct SettingsPopup {
    sections: Vec<Section>,
    section: usize,
    /// Cursor row within the active section.
    row: usize,
    /// Line offset of the rows pane.
    scroll: usize,
    /// Some while a field is being edited.
    editing: Option<VimInput>,
    /// Working copy; commits land here, `ApplySettings` persists it.
    config: Config,
    dirty: bool,
    /// The palette to preview after a theme commit (the view loads it).
    preview: Option<String>,
}

impl View for SettingsPopup {
    type V = SettingsView;

    closed spec fn view(&self) -> SettingsView {
        SettingsView {
            sections: sections_view(self.sections@),
            section: self.section as nat,
            row: self.row as nat,
            scroll: self.scroll as nat,
            editing: match self.editing {
                Some(v) => Some(v@),
                None => None,
            },
            config: self.config,
            dirty: self.dirty,
            preview: match self.preview {
                Some(p) => Some(p@),
                None => None,
            },
        }
    }
}

pub(crate) fn opt_str_eq(a: &Option<String>, b: &Option<String>) -> (r: bool)
    ensures
        r == (match *a {
            Some(s) => Some(s@),
            None => None,
        } == match *b {
            Some(s) => Some(s@),
            None => None,
        }),
{
    match (a, b) {
        (Some(x), Some(y)) => str_is(x.as_str(), y.as_str()),
        (None, None) => true,
        _ => false,
    }
}

pub(crate) fn strings_eq(a: &Vec<String>, b: &Vec<String>) -> (r: bool)
    ensures
        r == (views(a@) == views(b@)),
{
    if a.len() != b.len() {
        assert(views(a@).len() != views(b@).len());
        return false;
    }
    let mut i: usize = 0;
    while i < a.len()
        invariant
            i <= a@.len(),
            a@.len() == b@.len(),
            forall|k: int| 0 <= k < i ==> views(a@)[k] == views(b@)[k],
        decreases a.len() - i,
    {
        if !str_is(a[i].as_str(), b[i].as_str()) {
            assert(views(a@)[i as int] != views(b@)[i as int]);
            return false;
        }
        i += 1;
    }
    assert(views(a@) =~= views(b@));
    true
}

fn opt_text(value: &str) -> (r: Option<String>)
    ensures
        value@.len() == 0 ==> r is None,
        value@.len() > 0 ==> (r matches Some(p) && p@ == value@),
{
    if value.is_empty() {
        None
    } else {
        Some(value.to_owned())
    }
}

impl SettingsPopup {
    /// The popup's invariant: four sections, the cursor in one of them,
    /// a well-formed field while editing.
    pub closed spec fn wf(&self) -> bool {
        &&& self.sections@.len() == 4
        &&& self.section < 4
        &&& (self.row == 0 || self.row < self.sections@[self.section as int].rows@.len())
        &&& (self.editing matches Some(v) ==> v.wf())
    }

    /// The palette to preview after a theme commit, if any.
    pub fn preview_theme(&self) -> (r: Option<String>)
        ensures
            match r {
                Some(p) => self@.preview == Some(p@),
                None => self@.preview is None,
            },
    {
        match &self.preview {
            Some(p) => Some(p.clone()),
            None => None,
        }
    }

    /// A popup over a working copy of `config`; `themes` are the
    /// palettes found on disk.
    pub fn new(config: &Config, themes: Vec<String>) -> (r: Self)
        ensures
            r.wf(),
            r@.sections == spec_build(*config, views(themes@)),
            r@.section == 0,
            r@.row == 0,
            r@.scroll == 0,
            r@.editing is None,
            crate::config::same_config(r@.config, *config),
            !r@.dirty,
            r@.preview is None,
            r.cursor_style_spec() is None,
    {
        let sections = build(config, themes);
        assert(sections_view(sections@).len() == 4);
        SettingsPopup {
            sections,
            section: 0,
            row: 0,
            scroll: 0,
            editing: None,
            config: config.copy(),
            dirty: false,
            preview: None,
        }
    }

    /// The current value of a radio group's key in the working config
    /// (the group's own name for groups this section doesn't own).
    pub fn group_current<'a>(&'a self, group: &'a str) -> (r: &'a str)
        requires
            self.wf(),
        ensures
            r@ == if self@.sections[self@.section as int].name == "theme"@ && group@ == "name"@ {
                self@.config.theme.name@
            } else if self@.sections[self@.section as int].name == "provider"@ && group@ == "kind"@ {
                self@.config.provider.kind@
            } else {
                group@
            },
    {
        let name = self.sections[self.section].name;
        assert(section_view(self.sections@[self.section as int]).name == name@);
        if str_is(name, "theme") && str_is(group, "name") {
            self.config.theme.name.as_str()
        } else if str_is(name, "provider") && str_is(group, "kind") {
            self.config.provider.kind.as_str()
        } else {
            group
        }
    }

    /// Commit one field into the working config.
    fn commit(&mut self, section: &str, key: &str, value: &str)
        ensures
            commit_step(old(self)@, final(self)@, section@, key@, value@),
            final(self).wf() == old(self).wf(),
    {
        let ghost old_cfg = self.config;
        let mut changed = false;
        let mut theme_name = false;
        if str_is(section, "editor") && str_is(key, "program") {
            let next = opt_text(value);
            changed = !opt_str_eq(&next, &self.config.editor.program);
            self.config.editor.program = next;
        } else if str_is(section, "editor") && str_is(key, "args") {
            let next = split_whitespace_words(value);
            changed = !strings_eq(&next, &self.config.editor.args);
            self.config.editor.args = next;
        } else if str_is(section, "editor") && str_is(key, "read_only") {
            let t = ascii_lower_chars(trim_chars(chars_of(value).as_slice()).as_slice());
            let lit = chars_of("true");
            let next = eq_chars(t.as_slice(), lit.as_slice());
            changed = next != self.config.editor.read_only;
            self.config.editor.read_only = next;
        } else if str_is(section, "theme") && str_is(key, "name") {
            let next = if value.is_empty() { "catppuccin-mocha".to_owned() } else { value.to_owned() };
            changed = !str_is(next.as_str(), self.config.theme.name.as_str());
            self.config.theme.name = next;
            theme_name = true;
        } else if str_is(section, "theme") && str_is(key, "path") {
            let next = opt_text(value);
            changed = !opt_str_eq(&next, &self.config.theme.path);
            self.config.theme.path = next;
        } else if str_is(section, "cache") && str_is(key, "max_mb") {
            let next = match parse_u64(trim_chars(chars_of(value).as_slice()).as_slice()) {
                Some(n) => n,
                None => 512,
            };
            changed = next != self.config.cache.max_mb;
            self.config.cache.max_mb = next;
        } else if str_is(section, "provider") && str_is(key, "kind") {
            let next = value.to_owned();
            changed = !str_is(next.as_str(), self.config.provider.kind.as_str());
            self.config.provider.kind = next;
        } else if str_is(section, "provider") && str_is(key, "command") {
            let next = split_whitespace_words(value);
            changed = !strings_eq(&next, &self.config.provider.command);
            self.config.provider.command = next;
        }
        assert(changed == (editable(self.config) != editable(old_cfg)));
        assert(committed(old_cfg, self.config, section@, key@, value@));
        proof {
            reveal_strlit("editor");
            reveal_strlit("theme");
            reveal_strlit("cache");
            reveal_strlit("provider");
            assert("editor"@ != "theme"@) by {
                assert("editor"@[0] != "theme"@[0]);
            }
        }
        assert(theme_name == (section@ == "theme"@ && key@ == "name"@));
        if changed {
            self.dirty = true;
            if theme_name {
                self.preview = Some(self.config.theme.name.clone());
            }
        }
    }
}


/// What activating a row asks for.
enum Activation {
    Toggle(&'static str, &'static str, bool),
    Choose(&'static str, &'static str, String),
    Edit(String),
    Nothing,
}

impl SettingsPopup {
    /// Replace the cursor row of the active section.
    fn set_row(&mut self, row: Row)
        requires
            old(self).wf(),
            old(self).row < old(self)@.sections[old(self)@.section as int].rows.len(),
        ensures
            final(self).wf(),
            final(self)@ == (SettingsView {
                sections: old(self)@.sections.update(
                    old(self)@.section as int,
                    SectionView {
                        rows: old(self)@.sections[old(self)@.section as int].rows.update(
                            old(self)@.row as int,
                            row_view(row),
                        ),
                        ..old(self)@.sections[old(self)@.section as int]
                    },
                ),
                ..old(self)@
            }),
    {
        let ghost sv = sections_view(self.sections@);
        let ghost k = self.section as int;
        let mut sec = self.sections.remove(self.section);
        assert(section_view(sec) == sv[k]);
        let ghost before_rows = sec.rows@;
        sec.rows.set(self.row, row);
        assert(rows_view(sec.rows@) =~= rows_view(before_rows).update(self.row as int, row_view(row)));
        self.sections.insert(self.section, sec);
        assert(sections_view(self.sections@) =~= sv.update(
            k,
            SectionView { rows: sv[k].rows.update(self.row as int, row_view(row)), ..sv[k] },
        ));
    }

    /// ␣/enter on the cursor row (see `activate_step`).
    pub fn activate(&mut self)
        requires
            old(self).wf(),
        ensures
            final(self).wf(),
            activate_step(old(self)@, final(self)@),
    {
        let ghost old_view = self@;
        let name = self.sections[self.section].name;
        let rows_len = self.sections[self.section].rows.len();
        assert(section_view(self.sections@[self.section as int]).name == name@);
        if self.row >= rows_len {
            return;
        }
        let act = match &self.sections[self.section].rows[self.row] {
            Row::Bool { key, label, value, desc } => Activation::Toggle(key, label, *value),
            Row::Radio { group, option, .. } => Activation::Choose(name, group, option.clone()),
            Row::Text { value, .. } => Activation::Edit(value.clone()),
        };
        match act {
            Activation::Toggle(key, label, value) => {
                let desc = self.sections[self.section].rows[self.row].desc();
                let text = if value { "false" } else { "true" };
                self.commit(name, key, text);
                self.set_row(Row::Bool { key, label, value: !value, desc });
            },
            Activation::Choose(section, group, option) => {
                self.commit(section, group, option.as_str());
            },
            Activation::Edit(value) => {
                let mut input = VimInput::transient();
                input.set(value.as_str());
                self.editing = Some(input);
            },
            Activation::Nothing => {},
        }
    }

    /// Commit the in-place edit into its row and the working config.
    pub fn commit_field(&mut self, value: String)
        requires
            old(self).wf(),
        ensures
            final(self).wf(),
            commit_field_step(old(self)@, final(self)@, value@),
    {
        let name = self.sections[self.section].name;
        let rows_len = self.sections[self.section].rows.len();
        assert(section_view(self.sections@[self.section as int]).name == name@);
        if self.row >= rows_len {
            return;
        }
        let found = match &self.sections[self.section].rows[self.row] {
            Row::Text { key, label, placeholder, desc, .. } => Some((*key, *label, *placeholder, *desc)),
            _ => None,
        };
        if let Some((key, label, placeholder, desc)) = found {
            self.commit(name, key, value.as_str());
            self.set_row(Row::Text { key, label, value, placeholder, desc });
        }
    }

    /// The text cursor's shape: a bar while a field is being edited,
    /// none otherwise.
    pub open spec fn cursor_style_spec(self) -> Option<CursorStyle> {
        if self@.editing is Some {
            Some(CursorStyle::SteadyBar)
        } else {
            None
        }
    }

    /// The text cursor's shape: a bar while a field is being edited,
    /// none otherwise.
    pub fn cursor_style(&self) -> (r: Option<CursorStyle>)
        ensures
            r == self.cursor_style_spec(),
    {
        if self.editing.is_some() {
            Some(CursorStyle::SteadyBar)
        } else {
            None
        }
    }

    /// The modeline chip: INSERT while editing a field, BROWSE otherwise.
    pub fn effective_mode(&self) -> (m: Mode)
        ensures
            m == if self@.editing is Some {
                Mode::Insert
            } else {
                Mode::Browse
            },
    {
        if self.editing.is_some() {
            Mode::Insert
        } else {
            Mode::Browse
        }
    }

    /// The active section's index.
    pub fn section_index(&self) -> (r: usize)
        ensures
            r == self@.section,
    {
        self.section
    }

    /// The cursor row.
    pub fn row_index(&self) -> (r: usize)
        ensures
            r == self@.row,
    {
        self.row
    }

    /// Whether the working copy has unsaved edits.
    pub fn is_dirty(&self) -> (r: bool)
        ensures
            r == self@.dirty,
    {
        self.dirty
    }

    /// The sections, in sidebar order.
    pub fn sections(&self) -> (r: &Vec<Section>)
        ensures
            sections_view(r@) == self@.sections,
    {
        &self.sections
    }

    /// A field is being edited in place.
    pub fn is_editing(&self) -> (r: bool)
        ensures
            r == self@.editing is Some,
    {
        self.editing.is_some()
    }

    /// The working copy.
    pub fn config(&self) -> (r: &Config)
        ensures
            *r == self@.config,
    {
        &self.config
    }

    /// Whether `handle_key` can take `key` now: a field being edited
    /// accepts it.
    pub fn takes_key(&self, key: Key) -> (b: bool)
        requires
            self.wf(),
        ensures
            b == (self@.editing matches Some(v) ==> accepts(v, key)),
    {
        match &self.editing {
            Some(v) => v.accepts_key(key),
            None => true,
        }
    }

    /// Keys: an in-place edit captures every key until Enter commits
    /// or Esc cancels it. Otherwise Tab/l/→ and BackTab/h/← switch
    /// sections (wrapping, cursor back to the top), j/↓ k/↑ move within
    /// the rows, g/Home and G/End jump to the ends, ␣/Enter activates
    /// the row, and Esc closes — asking to persist a dirty copy.
    pub fn handle_key(&mut self, key: Key) -> (r: Action)
        requires
            old(self).wf(),
            old(self)@.editing matches Some(v) ==> accepts(v, key),
        ensures
            final(self).wf(),
            old(self)@.editing matches Some(v) ==> ({
                let (f, out) = step(v, key);
                let typing = SettingsView { editing: Some(f), ..old(self)@ };
                &&& r == Action::Noop
                &&& out == Outcome::Submitted ==> final(self)@.editing is None && commit_field_step(
                    typing,
                    SettingsView { editing: Some(f), ..final(self)@ },
                    f.chars,
                )
                &&& out == Outcome::Cancelled ==> final(self)@ == SettingsView { editing: None, ..old(self)@ }
                &&& (out == Outcome::Changed || out == Outcome::Noop) ==> final(self)@ == typing
            }),
            old(self)@.editing is None ==> ({
                let v = old(self)@;
                let c = key.code;
                let rows = v.sections[v.section as int].rows.len();
                if c == KeyCode::Tab || c == KeyCode::Char('l') || c == KeyCode::Right {
                    final(self)@ == SettingsView { section: (v.section + 1) % 4, row: 0, scroll: 0, ..v }
                        && r == Action::Noop
                } else if c == KeyCode::BackTab || c == KeyCode::Char('h') || c == KeyCode::Left {
                    final(self)@ == SettingsView { section: (v.section + 3) % 4, row: 0, scroll: 0, ..v }
                        && r == Action::Noop
                } else if c == KeyCode::Char('j') || c == KeyCode::Down {
                    final(self)@ == SettingsView {
                        row: if rows == 0 {
                            v.row
                        } else if v.row + 1 < rows - 1 {
                            (v.row + 1) as nat
                        } else {
                            (rows - 1) as nat
                        },
                        ..v
                    } && r == Action::Noop
                } else if c == KeyCode::Char('k') || c == KeyCode::Up {
                    final(self)@ == SettingsView {
                        row: if v.row > 0 {
                            (v.row - 1) as nat
                        } else {
                            0
                        },
                        ..v
                    } && r == Action::Noop
                } else if c == KeyCode::Char('g') || c == KeyCode::Home {
                    final(self)@ == SettingsView { row: 0, ..v } && r == Action::Noop
                } else if c == KeyCode::Char('G') || c == KeyCode::End {
                    final(self)@ == SettingsView {
                        row: if rows > 0 {
                            (rows - 1) as nat
                        } else {
                            0
                        },
                        ..v
                    } && r == Action::Noop
                } else if c == KeyCode::Char(' ') || c == KeyCode::Enter {
                    activate_step(v, final(self)@) && r == Action::Noop
                } else if c == KeyCode::Esc {
                    &&& final(self)@ == v
                    &&& v.dirty ==> (r matches Action::ApplySettings(cfg) && crate::config::same_config(cfg, v.config))
                    &&& !v.dirty ==> r == Action::ClosePopup
                } else {
                    final(self)@ == v && r == Action::Noop
                }
            }),
    {
        if self.editing.is_some() {
            let mut input = match self.editing.take() {
                Some(i) => i,
                None => {
                    return Action::Noop;
                },
            };
            let outcome = input.handle_key(key);
            let value = input.value();
            match outcome {
                Outcome::Submitted => {
                    self.editing = Some(input);
                    self.commit_field(value);
                    self.editing = None;
                },
                Outcome::Cancelled => {
                    self.editing = None;
                },
                _ => {
                    self.editing = Some(input);
                },
            }
            return Action::Noop;
        }
        let rows = self.sections[self.section].rows.len();
        match key.code {
            KeyCode::Tab | KeyCode::Char('l') | KeyCode::Right => {
                self.section = (self.section + 1) % self.sections.len();
                self.row = 0;
                self.scroll = 0;
                Action::Noop
            },
            KeyCode::BackTab | KeyCode::Char('h') | KeyCode::Left => {
                self.section = (self.section + self.sections.len() - 1) % self.sections.len();
                self.row = 0;
                self.scroll = 0;
                Action::Noop
            },
            KeyCode::Char('j') | KeyCode::Down => {
                if rows > 0 {
                    self.row = if self.row + 1 < rows - 1 { self.row + 1 } else { rows - 1 };
                }
                Action::Noop
            },
            KeyCode::Char('k') | KeyCode::Up => {
                self.row = if self.row > 0 { self.row - 1 } else { 0 };
                Action::Noop
            },
            KeyCode::Char('g') | KeyCode::Home => {
                self.row = 0;
                Action::Noop
            },
            KeyCode::Char('G') | KeyCode::End => {
                self.row = if rows > 0 { rows - 1 } else { 0 };
                Action::Noop
            },
            KeyCode::Char(' ') | KeyCode::Enter => {
                self.activate();
                Action::Noop
            },
            KeyCode::Esc => {
                if self.dirty {
                    Action::ApplySettings(self.config.copy())
                } else {
                    Action::ClosePopup
                }
            },
            _ => Action::Noop,
        }
    }
}
} // verus!
