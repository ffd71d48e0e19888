//! The settings row model: what a row is (text / bool / radio) and the
//! section layout built from the working config. Rows carry their own
//! descriptions.
use crate::config::Config;
use crate::text::{decimal, decimal_chars, join_space, join_with_spaces, str_is, string_of, views};
use vstd::prelude::*;

verus! {

pub const THEME_DESC: &'static str = "palette: ~/.config/rootle/themes/<name>.toml — missing file falls back to embedded mocha";
pub const PATH_DESC: &'static str = "explicit palette file; wins over name when set";
pub const PROGRAM_HINT: &'static str = "auto — $VISUAL · $EDITOR · hx…";
pub const PROGRAM_DESC: &'static str = "editor binary; empty → $VISUAL → $EDITOR → first of hx, nvim, vim, vi";
pub const ARGS_DESC: &'static str = "extra arguments inserted before the file path";
pub const READ_ONLY_DESC: &'static str = "vim family opens with -R; others edit the cache copy — rootle never writes back";
pub const MAX_MB_DESC: &'static str = "blob cache cap in MiB — least-recently-used blobs are evicted past it";
pub const GITHUB_DESC: &'static str = "built-in GitHub REST backend — applies after restart";
pub const STDIO_DESC: &'static str = "external child process speaking NDJSON-RPC — applies after restart";
pub const COMMAND_DESC: &'static str = "argv for stdio providers; element 0 is the executable — ignored by github";

/// One settings row.
#[derive(Debug, Clone)]
pub enum Row {
    /// Free text; enter edits in place. `placeholder` renders dim while
    /// the value is empty — it says what the empty value resolves to.
    Text {
        key: &'static str,
        label: &'static str,
        value: String,
        placeholder: &'static str,
        desc: &'static str,
    },
    /// true/false; activating toggles the dot.
    Bool { key: &'static str, label: &'static str, value: bool, desc: &'static str },
    /// One option of a radio group: activating commits `option` for the
    /// group's key. The dot marks the group's current value.
    Radio { group: &'static str, option: String, desc: &'static str },
}

/// A row as plain values.
pub enum RowView {
    Text { key: Seq<char>, label: Seq<char>, value: Seq<char>, placeholder: Seq<char>, desc: Seq<char> },
    Bool { key: Seq<char>, label: Seq<char>, value: bool, desc: Seq<char> },
    Radio { group: Seq<char>, option: Seq<char>, desc: Seq<char> },
}

pub open spec fn row_view(r: Row) -> RowView {
    match r {
        Row::Text { key, label, value, placeholder, desc } => RowView::Text {
            key: key@,
            label: label@,
            value: value@,
            placeholder: placeholder@,
            desc: desc@,
        },
        Row::Bool { key, label, value, desc } => RowView::Bool {
            key: key@,
            label: label@,
            value,
            desc: desc@,
        },
        Row::Radio { group, option, desc } => RowView::Radio { group: group@, option: option@, desc: desc@ },
    }
}

pub open spec fn rows_view(v: Seq<Row>) -> Seq<RowView> {
    v.map_values(|r: Row| row_view(r))
}

pub open spec fn row_desc(r: RowView) -> Seq<char> {
    match r {
        RowView::Text { desc, .. } => desc,
        RowView::Bool { desc, .. } => desc,
        RowView::Radio { desc, .. } => desc,
    }
}

impl Row {
    /// Footer description of the row under the cursor.
    pub fn desc(&self) -> (r: &'static str)
        ensures
            r@ == row_desc(row_view(*self)),
    {
        match self {
            Row::Text { desc, .. } => desc,
            Row::Bool { desc, .. } => desc,
            Row::Radio { desc, .. } => desc,
        }
    }
}

/// One settings section: sidebar entry plus its rows.
pub struct Section {
    pub name: &'static str,
    pub blurb: &'static str,
    pub rows: Vec<Row>,
}

pub struct SectionView {
    pub name: Seq<char>,
    pub blurb: Seq<char>,
    pub rows: Seq<RowView>,
}

pub open spec fn section_view(s: Section) -> SectionView {
    SectionView { name: s.name@, blurb: s.blurb@, rows: rows_view(s.rows@) }
}

pub open spec fn sections_view(v: Seq<Section>) -> Seq<SectionView> {
    v.map_values(|s: Section| section_view(s))
}

/// The palette names offered: the embedded mocha first, then each
/// discovered name once, in discovery order.
pub open spec fn theme_names(themes: Seq<Seq<char>>) -> Seq<Seq<char>>
    decreases themes.len(),
{
    if themes.len() == 0 {
        seq!["catppuccin-mocha"@]
    } else {
        let names = theme_names(themes.drop_last());
        if names.contains(themes.last()) {
            names
        } else {
            names.push(themes.last())
        }
    }
}

pub open spec fn opt_text(o: Option<String>) -> Seq<char> {
    match o {
        Some(s) => s@,
        None => seq![],
    }
}

/// The theme section's rows: a radio per palette, then the path field.
pub open spec fn theme_rows(names: Seq<Seq<char>>, path: Option<String>) -> Seq<RowView> {
    names.map_values(|o: Seq<char>| RowView::Radio { group: "name"@, option: o, desc: THEME_DESC@ }).push(
        RowView::Text {
            key: "path"@,
            label: "path"@,
            value: opt_text(path),
            placeholder: "by name"@,
            desc: PATH_DESC@,
        },
    )
}

/// The section list for the working config and the palettes found on
/// disk: editor, theme, cache, provider.
pub open spec fn spec_build(c: Config, themes: Seq<Seq<char>>) -> Seq<SectionView> {
    seq![
        SectionView {
            name: "editor"@,
            blurb: "files"@,
            rows: seq![
                RowView::Text {
                    key: "program"@,
                    label: "program"@,
                    value: opt_text(c.editor.program),
                    placeholder: PROGRAM_HINT@,
                    desc: PROGRAM_DESC@,
                },
                RowView::Text {
                    key: "args"@,
                    label: "args"@,
                    value: join_space(views(c.editor.args@)),
                    placeholder: "none"@,
                    desc: ARGS_DESC@,
                },
                RowView::Bool {
                    key: "read_only"@,
                    label: "read_only"@,
                    value: c.editor.read_only,
                    desc: READ_ONLY_DESC@,
                },
            ],
        },
        SectionView { name: "theme"@, blurb: "colors"@, rows: theme_rows(theme_names(themes), c.theme.path) },
        SectionView {
            name: "cache"@,
            blurb: "storage"@,
            rows: seq![
                RowView::Text {
                    key: "max_mb"@,
                    label: "max_mb"@,
                    value: decimal(c.cache.max_mb as nat),
                    placeholder: "512"@,
                    desc: MAX_MB_DESC@,
                },
            ],
        },
        SectionView {
            name: "provider"@,
            blurb: "backend"@,
            rows: seq![
                RowView::Radio { group: "kind"@, option: "github"@, desc: GITHUB_DESC@ },
                RowView::Radio { group: "kind"@, option: "stdio"@, desc: STDIO_DESC@ },
                RowView::Text {
                    key: "command"@,
                    label: "command"@,
                    value: join_space(views(c.provider.command@)),
                    placeholder: "required for stdio"@,
                    desc: COMMAND_DESC@,
                },
            ],
        },
    ]
}

fn opt_string(o: &Option<String>) -> (r: String)
    ensures
        r@ == opt_text(*o),
{
    match o {
        Some(s) => s.clone(),
        None => String::new(),
    }
}

fn contains_str(names: &Vec<String>, t: &str) -> (r: bool)
    ensures
        r == views(names@).contains(t@),
{
    let mut i: usize = 0;
    while i < names.len()
        invariant
            i <= names@.len(),
            forall|k: int| 0 <= k < i ==> views(names@)[k] != t@,
        decreases names.len() - i,
    {
        if str_is(names[i].as_str(), t) {
            assert(views(names@)[i as int] == t@);
            return true;
        }
        i += 1;
    }
    false
}

/// The section list built from the working config; `themes` are the
/// palette names found on disk.
pub fn build(config: &Config, themes: Vec<String>) -> (r: Vec<Section>)
    ensures
        sections_view(r@) == spec_build(*config, views(themes@)),
{
    let mut names: Vec<String> = Vec::new();
    names.push("catppuccin-mocha".to_owned());
    let ghost tv = views(themes@);
    assert(views(names@) =~= theme_names(tv.take(0)));
    let mut i: usize = 0;
    while i < themes.len()
        invariant
            i <= themes@.len(),
            tv == views(themes@),
            views(names@) == theme_names(tv.take(i as int)),
        decreases themes.len() - i,
    {
        assert(tv.take(i + 1).drop_last() =~= tv.take(i as int));
        assert(tv.take(i + 1).last() == themes@[i as int]@);
        let t = themes[i].as_str();
        if !contains_str(&names, t) {
            let ghost before = names@;
            names.push(t.to_owned());
            assert(views(names@) =~= views(before).push(t@));
        }
        i += 1;
    }
    assert(tv.take(tv.len() as int) =~= tv);
    let mut theme_rows_v: Vec<Row> = Vec::new();
    let ghost nv = views(names@);
    let mut j: usize = 0;
    while j < names.len()
        invariant
            j <= names@.len(),
            nv == views(names@),
            rows_view(theme_rows_v@) == nv.take(j as int).map_values(
                |o: Seq<char>| RowView::Radio { group: "name"@, option: o, desc: THEME_DESC@ },
            ),
        decreases names.len() - j,
    {
        let ghost before = theme_rows_v@;
        theme_rows_v.push(Row::Radio { group: "name", option: names[j].clone(), desc: THEME_DESC });
        assert(rows_view(theme_rows_v@) =~= rows_view(before).push(
            RowView::Radio { group: "name"@, option: nv[j as int], desc: THEME_DESC@ },
        ));
        assert(nv.take(j + 1) =~= nv.take(j as int).push(nv[j as int]));
        j += 1;
    }
    assert(nv.take(nv.len() as int) =~= nv);
    theme_rows_v.push(
        Row::Text {
            key: "path",
            label: "path",
            value: opt_string(&config.theme.path),
            placeholder: "by name",
            desc: PATH_DESC,
        },
    );
    let mut editor_rows: Vec<Row> = Vec::new();
    editor_rows.push(
        Row::Text {
            key: "program",
            label: "program",
            value: opt_string(&config.editor.program),
            placeholder: PROGRAM_HINT,
            desc: PROGRAM_DESC,
        },
    );
    editor_rows.push(
        Row::Text {
            key: "args",
            label: "args",
            value: join_with_spaces(&config.editor.args),
            placeholder: "none",
            desc: ARGS_DESC,
        },
    );
    editor_rows.push(
        Row::Bool { key: "read_only", label: "read_only", value: config.editor.read_only, desc: READ_ONLY_DESC },
    );
    let mut cache_rows: Vec<Row> = Vec::new();
    cache_rows.push(
        Row::Text {
            key: "max_mb",
            label: "max_mb",
            value: string_of(decimal_chars(config.cache.max_mb).as_slice()),
            placeholder: "512",
            desc: MAX_MB_DESC,
        },
    );
    let mut provider_rows: Vec<Row> = Vec::new();
    provider_rows.push(Row::Radio { group: "kind", option: "github".to_owned(), desc: GITHUB_DESC });
    provider_rows.push(Row::Radio { group: "kind", option: "stdio".to_owned(), desc: STDIO_DESC });
    provider_rows.push(
        Row::Text {
            key: "command",
            label: "command",
            value: join_with_spaces(&config.provider.command),
            placeholder: "required for stdio",
            desc: COMMAND_DESC,
        },
    );
    let mut out: Vec<Section> = Vec::new();
    out.push(Section { name: "editor", blurb: "files", rows: editor_rows });
    out.push(Section { name: "theme", blurb: "colors", rows: theme_rows_v });
    out.push(Section { name: "cache", blurb: "storage", rows: cache_rows });
    out.push(Section { name: "provider", blurb: "backend", rows: provider_rows });
    assert(sections_view(out@)[0].rows =~= spec_build(*config, tv)[0].rows);
    assert(sections_view(out@)[1].rows =~= spec_build(*config, tv)[1].rows);
    assert(sections_view(out@)[2].rows =~= spec_build(*config, tv)[2].rows);
    assert(sections_view(out@)[3].rows =~= spec_build(*config, tv)[3].rows);
    assert(sections_view(out@) =~= spec_build(*config, tv));
    out
}

} // verus!
