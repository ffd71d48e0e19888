//! The offline producer: canned files per search kind, filtered and
//! ranked the way the real backend does (file find by the go-to-file
//! score, grep by substring over paths and lines), with extension
//! narrowing and a stand-in body for the editor.
use super::backend::{dotted, dotted_chars, ext_filter, file_find_score, score_fits, score_fits_check, spec_file_find_score, trim_dots_str};
use super::model::{rows_view, SearchHit, SearchKind};
use super::rank::{insert_pos, insert_ranked, lemma_insert_pos, ranked};
use crate::text::{
    ascii_lower_seq, chars_of, contains, ends, ends_with, has_sub, lowercase, matches_at, push_char, push_str,
    split_whitespace_words, split_ws, string_of, to_lowercase, views,
};
use vstd::prelude::*;
use vstd::utf8::is_ascii_chars;

verus! {

/// One canned file.
pub struct MockFile {
    pub path: &'static str,
    pub line: u32,
    pub rows: Vec<(u32, &'static str)>,
}

pub open spec fn rows_of(rows: Seq<(u32, &'static str)>) -> Seq<(u32, Seq<char>)> {
    rows.map_values(|r: (u32, &'static str)| (r.0, r.1@))
}

pub open spec fn file_view(f: MockFile) -> (Seq<char>, u32, Seq<(u32, Seq<char>)>) {
    (f.path@, f.line, rows_of(f.rows@))
}

pub open spec fn files_view(v: Seq<MockFile>) -> Seq<(Seq<char>, u32, Seq<(u32, Seq<char>)>)> {
    v.map_values(|f: MockFile| file_view(f))
}

/// The canned files of each search kind: (path, first-match line,
/// preview rows).
pub open spec fn mock_table(kind: SearchKind) -> Seq<(Seq<char>, u32, Seq<(u32, Seq<char>)>)> {
    match kind {
        SearchKind::Grep => seq![
        ("src/widgets/list.rs"@, 42u32, seq![(40u32, "pub fn render(mut self, area: Rect, buf: &mut Buffer) {"@), (41u32, "    let items = self.items.into_iter()"@), (42u32, "        .filter(|item| item.matches(query))"@), (43u32, "        .collect::<Vec<_>>();"@), (44u32, "    self.render_items(items, area, buf);"@), (88u32, "fn rerank(hits: &mut [Hit], query: &str) {"@), (89u32, "    hits.sort_by_key(|hit| hit.score(query));"@)]),
        ("src/terminal.rs"@, 137u32, seq![(135u32, "    /// Flush the diff to the terminal."@), (136u32, "    pub fn flush(&mut self) -> io::Result<()> {"@), (137u32, "        let query = self.frame_query.take();"@), (138u32, "        self.backend.draw(query.iter())?;"@), (139u32, "        Ok(())"@)]),
        ("src/components/global_search.rs"@, 12u32, seq![(10u32, "//! Global search view: fields on top,"@), (11u32, "//! Zed-style result blocks below."@), (12u32, "pub fn query(&self) -> &str {"@), (13u32, "    self.query.value()"@), (14u32, "}"@)]),
        ("docs/keymap.md"@, 3u32, seq![(1u32, "# Keymap"@), (2u32, ""@), (3u32, "Every query starts from the leader key."@), (4u32, "Tab cycles the field row."@)]),
    ],
        SearchKind::FileFind => seq![
        ("src/query/parser.rs"@, 1u32, seq![(1u32, "use crate::query::ast::Expr;"@), (2u32, ""@), (3u32, "pub fn parse(input: &str) -> Result<Expr, Error> {"@), (4u32, "    Parser::new(input).expr()"@)]),
        ("src/query/ast.rs"@, 1u32, seq![(1u32, "pub enum Expr {"@), (2u32, "    Term(String),"@), (3u32, "    And(Box<Expr>, Box<Expr>),"@), (4u32, "    Or(Box<Expr>, Box<Expr>),"@)]),
        ("tests/query_roundtrip.rs"@, 1u32, seq![(1u32, "#[test]"@), (2u32, "fn query_roundtrip() {"@), (3u32, "    let q = \"repo:ratatui ext:rs\";"@), (4u32, "    assert_eq!(parse(q).to_string(), q);"@)]),
    ],
    }
}

fn mock_files(kind: SearchKind) -> (v: Vec<MockFile>)
    ensures
        files_view(v@) == mock_table(kind),
{
    let v = match kind {
        SearchKind::Grep => vec![
            MockFile { path: "src/widgets/list.rs", line: 42, rows: vec![(40, "pub fn render(mut self, area: Rect, buf: &mut Buffer) {"), (41, "    let items = self.items.into_iter()"), (42, "        .filter(|item| item.matches(query))"), (43, "        .collect::<Vec<_>>();"), (44, "    self.render_items(items, area, buf);"), (88, "fn rerank(hits: &mut [Hit], query: &str) {"), (89, "    hits.sort_by_key(|hit| hit.score(query));")] },
            MockFile { path: "src/terminal.rs", line: 137, rows: vec![(135, "    /// Flush the diff to the terminal."), (136, "    pub fn flush(&mut self) -> io::Result<()> {"), (137, "        let query = self.frame_query.take();"), (138, "        self.backend.draw(query.iter())?;"), (139, "        Ok(())")] },
            MockFile { path: "src/components/global_search.rs", line: 12, rows: vec![(10, "//! Global search view: fields on top,"), (11, "//! Zed-style result blocks below."), (12, "pub fn query(&self) -> &str {"), (13, "    self.query.value()"), (14, "}")] },
            MockFile { path: "docs/keymap.md", line: 3, rows: vec![(1, "# Keymap"), (2, ""), (3, "Every query starts from the leader key."), (4, "Tab cycles the field row.")] },
        ],
        SearchKind::FileFind => vec![
            MockFile { path: "src/query/parser.rs", line: 1, rows: vec![(1, "use crate::query::ast::Expr;"), (2, ""), (3, "pub fn parse(input: &str) -> Result<Expr, Error> {"), (4, "    Parser::new(input).expr()")] },
            MockFile { path: "src/query/ast.rs", line: 1, rows: vec![(1, "pub enum Expr {"), (2, "    Term(String),"), (3, "    And(Box<Expr>, Box<Expr>),"), (4, "    Or(Box<Expr>, Box<Expr>),")] },
            MockFile { path: "tests/query_roundtrip.rs", line: 1, rows: vec![(1, "#[test]"), (2, "fn query_roundtrip() {"), (3, "    let q = \"repo:ratatui ext:rs\";"), (4, "    assert_eq!(parse(q).to_string(), q);")] },
        ],
    };
    proof {
        let t = mock_table(kind);
        assert forall|i: int| 0 <= i < v@.len() implies rows_of(#[trigger] v@[i].rows@) =~= t[i].2 by {}
        assert(files_view(v@).len() == t.len());
        assert forall|i: int| 0 <= i < t.len() implies #[trigger] files_view(v@)[i] == t[i] by {
            assert(rows_of(v@[i].rows@) =~= t[i].2);
        }
    }
    assert(files_view(v@) =~= mock_table(kind));
    v
}

/// Every preview text of the table is ASCII and at most 64 chars.
proof fn lemma_mock_rows_small(kind: SearchKind)
    ensures
        forall|f: int, r: int|
            0 <= f < mock_table(kind).len() && 0 <= r < mock_table(kind)[f].2.len() ==> {
                &&& (#[trigger] mock_table(kind)[f].2[r]).1.len() <= 64
                &&& is_ascii_chars(mock_table(kind)[f].2[r].1)
            },
{
    reveal_strlit("");
    reveal_strlit("        .collect::<Vec<_>>();");
    reveal_strlit("        .filter(|item| item.matches(query))");
    reveal_strlit("        Ok(())");
    reveal_strlit("        let query = self.frame_query.take();");
    reveal_strlit("        self.backend.draw(query.iter())?;");
    reveal_strlit("    /// Flush the diff to the terminal.");
    reveal_strlit("    And(Box<Expr>, Box<Expr>),");
    reveal_strlit("    Or(Box<Expr>, Box<Expr>),");
    reveal_strlit("    Parser::new(input).expr()");
    reveal_strlit("    Term(String),");
    reveal_strlit("    assert_eq!(parse(q).to_string(), q);");
    reveal_strlit("    hits.sort_by_key(|hit| hit.score(query));");
    reveal_strlit("    let items = self.items.into_iter()");
    reveal_strlit("    let q = \"repo:ratatui ext:rs\";");
    reveal_strlit("    pub fn flush(&mut self) -> io::Result<()> {");
    reveal_strlit("    self.query.value()");
    reveal_strlit("    self.render_items(items, area, buf);");
    reveal_strlit("# Keymap");
    reveal_strlit("#[test]");
    reveal_strlit("//! Global search view: fields on top,");
    reveal_strlit("//! Zed-style result blocks below.");
    reveal_strlit("Every query starts from the leader key.");
    reveal_strlit("Tab cycles the field row.");
    reveal_strlit("docs/keymap.md");
    reveal_strlit("fn query_roundtrip() {");
    reveal_strlit("fn rerank(hits: &mut [Hit], query: &str) {");
    reveal_strlit("pub enum Expr {");
    reveal_strlit("pub fn parse(input: &str) -> Result<Expr, Error> {");
    reveal_strlit("pub fn query(&self) -> &str {");
    reveal_strlit("pub fn render(mut self, area: Rect, buf: &mut Buffer) {");
    reveal_strlit("src/components/global_search.rs");
    reveal_strlit("src/query/ast.rs");
    reveal_strlit("src/query/parser.rs");
    reveal_strlit("src/terminal.rs");
    reveal_strlit("src/widgets/list.rs");
    reveal_strlit("tests/query_roundtrip.rs");
    reveal_strlit("use crate::query::ast::Expr;");
    reveal_strlit("}");
    if kind == SearchKind::Grep {
        let t = mock_table(kind);
        assert forall|f: int, r: int| 0 <= f < t.len() && 0 <= r < t[f].2.len() implies {
            &&& (#[trigger] t[f].2[r]).1.len() <= 64
            &&& is_ascii_chars(t[f].2[r].1)
        } by {
            if f == 0 {
                if r == 0 { assert(t[0].2[0].1 == "pub fn render(mut self, area: Rect, buf: &mut Buffer) {"@); }
                if r == 1 { assert(t[0].2[1].1 == "    let items = self.items.into_iter()"@); }
                if r == 2 { assert(t[0].2[2].1 == "        .filter(|item| item.matches(query))"@); }
                if r == 3 { assert(t[0].2[3].1 == "        .collect::<Vec<_>>();"@); }
                if r == 4 { assert(t[0].2[4].1 == "    self.render_items(items, area, buf);"@); }
                if r == 5 { assert(t[0].2[5].1 == "fn rerank(hits: &mut [Hit], query: &str) {"@); }
                if r == 6 { assert(t[0].2[6].1 == "    hits.sort_by_key(|hit| hit.score(query));"@); }
                assert(r == 0 || r == 1 || r == 2 || r == 3 || r == 4 || r == 5 || r == 6);
            }
            if f == 1 {
                if r == 0 { assert(t[1].2[0].1 == "    /// Flush the diff to the terminal."@); }
                if r == 1 { assert(t[1].2[1].1 == "    pub fn flush(&mut self) -> io::Result<()> {"@); }
                if r == 2 { assert(t[1].2[2].1 == "        let query = self.frame_query.take();"@); }
                if r == 3 { assert(t[1].2[3].1 == "        self.backend.draw(query.iter())?;"@); }
                if r == 4 { assert(t[1].2[4].1 == "        Ok(())"@); }
                assert(r == 0 || r == 1 || r == 2 || r == 3 || r == 4);
            }
            if f == 2 {
                if r == 0 { assert(t[2].2[0].1 == "//! Global search view: fields on top,"@); }
                if r == 1 { assert(t[2].2[1].1 == "//! Zed-style result blocks below."@); }
                if r == 2 { assert(t[2].2[2].1 == "pub fn query(&self) -> &str {"@); }
                if r == 3 { assert(t[2].2[3].1 == "    self.query.value()"@); }
                if r == 4 { assert(t[2].2[4].1 == "}"@); }
                assert(r == 0 || r == 1 || r == 2 || r == 3 || r == 4);
            }
            if f == 3 {
                if r == 0 { assert(t[3].2[0].1 == "# Keymap"@); }
                if r == 1 { assert(t[3].2[1].1 == ""@); }
                if r == 2 { assert(t[3].2[2].1 == "Every query starts from the leader key."@); }
                if r == 3 { assert(t[3].2[3].1 == "Tab cycles the field row."@); }
                assert(r == 0 || r == 1 || r == 2 || r == 3);
            }
            assert(f == 0 || f == 1 || f == 2 || f == 3);
        }
    }
    if kind == SearchKind::FileFind {
        let t = mock_table(kind);
        assert forall|f: int, r: int| 0 <= f < t.len() && 0 <= r < t[f].2.len() implies {
            &&& (#[trigger] t[f].2[r]).1.len() <= 64
            &&& is_ascii_chars(t[f].2[r].1)
        } by {
            if f == 0 {
                if r == 0 { assert(t[0].2[0].1 == "use crate::query::ast::Expr;"@); }
                if r == 1 { assert(t[0].2[1].1 == ""@); }
                if r == 2 { assert(t[0].2[2].1 == "pub fn parse(input: &str) -> Result<Expr, Error> {"@); }
                if r == 3 { assert(t[0].2[3].1 == "    Parser::new(input).expr()"@); }
                assert(r == 0 || r == 1 || r == 2 || r == 3);
            }
            if f == 1 {
                if r == 0 { assert(t[1].2[0].1 == "pub enum Expr {"@); }
                if r == 1 { assert(t[1].2[1].1 == "    Term(String),"@); }
                if r == 2 { assert(t[1].2[2].1 == "    And(Box<Expr>, Box<Expr>),"@); }
                if r == 3 { assert(t[1].2[3].1 == "    Or(Box<Expr>, Box<Expr>),"@); }
                assert(r == 0 || r == 1 || r == 2 || r == 3);
            }
            if f == 2 {
                if r == 0 { assert(t[2].2[0].1 == "#[test]"@); }
                if r == 1 { assert(t[2].2[1].1 == "fn query_roundtrip() {"@); }
                if r == 2 { assert(t[2].2[2].1 == "    let q = \"repo:ratatui ext:rs\";"@); }
                if r == 3 { assert(t[2].2[3].1 == "    assert_eq!(parse(q).to_string(), q);"@); }
                assert(r == 0 || r == 1 || r == 2 || r == 3);
            }
            assert(f == 0 || f == 1 || f == 2);
        }
    }
}

/// No canned file has more than eight preview rows.
proof fn lemma_mock_row_counts(kind: SearchKind)
    ensures
        forall|f: int| 0 <= f < mock_table(kind).len() ==> (#[trigger] mock_table(kind)[f]).2.len() <= 8,
        mock_table(kind).len() <= 4,
{
    let t = mock_table(kind);
    assert forall|f: int| 0 <= f < t.len() implies (#[trigger] t[f]).2.len() <= 8 by {
        if kind == SearchKind::Grep {
            assert(f == 0 || f == 1 || f == 2 || f == 3);
        } else {
            assert(f == 0 || f == 1 || f == 2);
        }
    }
}

/// Non-overlapping occurrences of `needle` in `hay`, left to right
/// (what `str::matches(..).count()` counts).
pub open spec fn occurrences(hay: Seq<char>, needle: Seq<char>) -> nat
    decreases hay.len(),
{
    if needle.len() == 0 || hay.len() < needle.len() {
        0
    } else if hay.take(needle.len() as int) == needle {
        1 + occurrences(hay.skip(needle.len() as int), needle)
    } else {
        occurrences(hay.skip(1), needle)
    }
}

proof fn lemma_occurrences_le(hay: Seq<char>, needle: Seq<char>)
    ensures
        occurrences(hay, needle) <= hay.len(),
    decreases hay.len(),
{
    if needle.len() == 0 || hay.len() < needle.len() {
    } else if hay.take(needle.len() as int) == needle {
        lemma_occurrences_le(hay.skip(needle.len() as int), needle);
    } else {
        lemma_occurrences_le(hay.skip(1), needle);
    }
}

/// Occurrences of the needle over the lowercased preview lines.
pub open spec fn rows_occurrences(rows: Seq<(u32, Seq<char>)>, needle: Seq<char>) -> nat
    decreases rows.len(),
{
    if rows.len() == 0 {
        0
    } else {
        rows_occurrences(rows.drop_last(), needle) + occurrences(lowercase(rows.last().1), needle)
    }
}

/// The badge: grep counts the needle's occurrences in the preview;
/// file find (and an empty needle) shows none.
pub open spec fn mock_badge(kind: SearchKind, needle: Seq<char>, rows: Seq<(u32, Seq<char>)>) -> nat {
    if kind == SearchKind::Grep && needle.len() > 0 {
        rows_occurrences(rows, needle)
    } else {
        0
    }
}

/// What `format!("{:?}", s)` renders a string as.
pub uninterp spec fn debug_quoted(s: Seq<char>) -> Seq<char>;

/// `format!("{:?}", s)` on a string: its `Debug` rendering, named
/// `debug_quoted`.
#[verifier::external_body]
fn debug_str(s: &str) -> (r: String)
    ensures
        r@ == debug_quoted(s@),
{
    format!("{s:?}")
}

/// The preview lines, each followed by a newline.
pub open spec fn body_rows(rows: Seq<(u32, Seq<char>)>) -> Seq<char>
    decreases rows.len(),
{
    if rows.len() == 0 {
        seq![]
    } else {
        body_rows(rows.drop_last()) + rows.last().1 + seq!['\n']
    }
}

/// The stand-in file: a header naming the path and the query, the
/// preview lines, and a closing note.
pub open spec fn spec_mock_body(path: Seq<char>, rows: Seq<(u32, Seq<char>)>, query: Seq<char>) -> Seq<char> {
    "// mock content for "@ + path + " (stage 1, query: "@ + debug_quoted(query) + ")\n"@ + body_rows(rows)
        + "// …stage 2 replaces this with the fetched blob.\n"@
}

/// Full-file stand-in: the preview lines plus filler around them.
pub fn mock_body(path: &str, preview: &[(u32, &'static str)], query: &str) -> (r: String)
    ensures
        r@ == spec_mock_body(path@, rows_of(preview@), query@),
{
    let mut body = String::from_str("// mock content for ");
    push_str(&mut body, path);
    push_str(&mut body, " (stage 1, query: ");
    push_str(&mut body, debug_str(query).as_str());
    push_str(&mut body, ")\n");
    let ghost head = body@;
    let mut i: usize = 0;
    while i < preview.len()
        invariant
            i <= preview@.len(),
            body@ == head + body_rows(rows_of(preview@).take(i as int)),
        decreases preview.len() - i,
    {
        assert(rows_of(preview@).take(i + 1).drop_last() =~= rows_of(preview@).take(i as int));
        push_str(&mut body, preview[i].1);
        push_char(&mut body, '\n');
        i += 1;
    }
    assert(rows_of(preview@).take(preview@.len() as int) =~= rows_of(preview@));
    push_str(&mut body, "// …stage 2 replaces this with the fetched blob.\n");
    proof {
        reveal_strlit("// mock content for ");
        reveal_strlit(" (stage 1, query: ");
        reveal_strlit(")\n");
        reveal_strlit("// …stage 2 replaces this with the fetched blob.\n");
    }
    assert(body@ =~= spec_mock_body(path@, rows_of(preview@), query@));
    body
}

/// The file matches the query: everything matches an empty needle;
/// file find scores the lowercased path, grep looks for the needle in
/// the lowercased path or a lowercased preview line.
pub open spec fn query_hit(kind: SearchKind, needle: Seq<char>, needles: Seq<Seq<char>>, f: (Seq<char>, u32, Seq<(u32, Seq<char>)>)) -> bool {
    needle.len() == 0 || if kind == SearchKind::FileFind {
        spec_file_find_score(lowercase(f.0), needles) is Some
    } else {
        has_sub(lowercase(f.0), needle) || exists|j: int| 0 <= j < f.2.len() && has_sub(lowercase(#[trigger] f.2[j].1), needle)
    }
}

/// The lowercased path ends in `.ext` (any path, without one).
pub open spec fn ext_hit(ext: Seq<char>, f: (Seq<char>, u32, Seq<(u32, Seq<char>)>)) -> bool {
    ext.len() == 0 || ends(lowercase(f.0), dotted(ext))
}

pub open spec fn mock_pred(kind: SearchKind, query: Seq<char>, extension: Seq<char>) -> spec_fn((Seq<char>, u32, Seq<(u32, Seq<char>)>)) -> bool {
    |f: (Seq<char>, u32, Seq<(u32, Seq<char>)>)| query_hit(kind, lowercase(query), split_ws(lowercase(query)), f) && ext_hit(ext_filter(extension), f)
}

/// A file's go-to-file score for the query.
pub open spec fn mock_score(query: Seq<char>, f: (Seq<char>, u32, Seq<(u32, Seq<char>)>)) -> int {
    match spec_file_find_score(lowercase(f.0), split_ws(lowercase(query))) {
        Some(s) => s,
        None => 0,
    }
}

/// The files that match, best first for file find (ties in table
/// order), in table order for grep.
pub open spec fn mock_ordered(kind: SearchKind, query: Seq<char>, extension: Seq<char>) -> Seq<(Seq<char>, u32, Seq<(u32, Seq<char>)>)> {
    let kept = mock_table(kind).filter(mock_pred(kind, query, extension));
    if kind == SearchKind::FileFind {
        ranked(kept.map_values(|f: (Seq<char>, u32, Seq<(u32, Seq<char>)>)| (mock_score(query, f), f))).map_values(
            |e: (int, (Seq<char>, u32, Seq<(u32, Seq<char>)>))| e.1,
        )
    } else {
        kept
    }
}

/// A result block as the producer fills it.
pub struct MockHitView {
    pub repo: Seq<char>,
    pub path: Seq<char>,
    pub sha: Seq<char>,
    pub branch: Seq<char>,
    pub line: u32,
    pub preview: Seq<(u32, Seq<char>)>,
    pub match_count: int,
    pub body: Seq<char>,
    pub stale: bool,
    pub unlocatable: bool,
}

pub open spec fn hit_view(h: SearchHit) -> MockHitView {
    MockHitView {
        repo: h.repo@,
        path: h.path@,
        sha: h.sha@,
        branch: h.branch@,
        line: h.line,
        preview: rows_view(h.preview@),
        match_count: h.match_count as int,
        body: h.body@,
        stale: h.stale,
        unlocatable: h.unlocatable,
    }
}

pub open spec fn mock_hit(kind: SearchKind, query: Seq<char>, f: (Seq<char>, u32, Seq<(u32, Seq<char>)>)) -> MockHitView {
    MockHitView {
        repo: "ratatui/ratatui"@,
        path: f.0,
        sha: seq![],
        branch: "main"@,
        line: f.1,
        preview: f.2,
        match_count: mock_badge(kind, lowercase(query), f.2) as int,
        body: spec_mock_body(f.0, f.2, query),
        stale: false,
        unlocatable: false,
    }
}

/// The producer's hits for a query and an extension box.
pub open spec fn spec_mock_hits(kind: SearchKind, query: Seq<char>, extension: Seq<char>) -> Seq<MockHitView> {
    mock_ordered(kind, query, extension).map_values(|f: (Seq<char>, u32, Seq<(u32, Seq<char>)>)| mock_hit(kind, query, f))
}

/// File find scores every canned path; each score must stay within
/// its `i32`.
pub open spec fn mock_scores_fit(kind: SearchKind, query: Seq<char>) -> bool {
    kind == SearchKind::Grep || forall|i: int|
        0 <= i < mock_table(kind).len() ==> score_fits(lowercase(#[trigger] mock_table(kind)[i].0), split_ws(lowercase(query)))
}

fn count_occurrences(hay: &[char], needle: &[char]) -> (r: usize)
    requires
        needle@.len() > 0,
    ensures
        r == occurrences(hay@, needle@),
{
    let n = needle.len();
    let mut i: usize = 0;
    let mut c: usize = 0;
    assert(hay@.skip(0) =~= hay@);
    while i <= hay.len() && hay.len() - i >= n
        invariant
            i <= hay@.len(),
            n == needle@.len(),
            n > 0,
            c <= i,
            c + occurrences(hay@.skip(i as int), needle@) == occurrences(hay@, needle@),
        decreases hay.len() - i,
    {
        let ghost rest = hay@.skip(i as int);
        assert(rest.take(n as int) =~= hay@.subrange(i as int, i + n));
        if matches_at(hay, needle, i) {
            assert(rest.skip(n as int) =~= hay@.skip(i + n));
            c += 1;
            i += n;
        } else {
            assert(rest.skip(1) =~= hay@.skip(i + 1));
            i += 1;
        }
    }
    c
}

/// The preview rows as owned strings.
fn owned_rows(rows: &Vec<(u32, &'static str)>) -> (r: Vec<(u32, String)>)
    ensures
        rows_view(r@) == rows_of(rows@),
{
    let mut r: Vec<(u32, String)> = Vec::new();
    let mut i: usize = 0;
    while i < rows.len()
        invariant
            i <= rows@.len(),
            rows_view(r@) == rows_of(rows@).take(i as int),
        decreases rows.len() - i,
    {
        let ghost before = rows_view(r@);
        r.push((rows[i].0, String::from_str(rows[i].1)));
        assert(rows_view(r@) =~= before.push(rows_of(rows@)[i as int]));
        i += 1;
        assert(rows_view(r@) =~= rows_of(rows@).take(i as int));
    }
    assert(rows_of(rows@).take(rows@.len() as int) =~= rows_of(rows@));
    r
}

/// The grep badge of one canned file.
fn badge_of(kind: SearchKind, f: &MockFile, needle: &[char], Ghost(fi): Ghost<int>) -> (r: u32)
    requires
        0 <= fi < mock_table(kind).len(),
        file_view(*f) == mock_table(kind)[fi],
    ensures
        r == mock_badge(kind, needle@, rows_of(f.rows@)),
{
    if !(kind == SearchKind::Grep && needle.len() > 0) {
        return 0;
    }
    proof {
        lemma_mock_rows_small(kind);
        lemma_mock_row_counts(kind);
    }
    let ghost rows = rows_of(f.rows@);
    let mut total: u32 = 0;
    let mut j: usize = 0;
    while j < f.rows.len()
        invariant
            j <= f.rows@.len(),
            f.rows@.len() <= 8,
            rows == rows_of(f.rows@),
            rows == mock_table(kind)[fi].2,
            0 <= fi < mock_table(kind).len(),
            needle@.len() > 0,
            total == rows_occurrences(rows.take(j as int), needle@),
            total <= j * 64,
            forall|r: int| 0 <= r < rows.len() ==> (#[trigger] rows[r]).1.len() <= 64 && is_ascii_chars(rows[r].1),
        decreases f.rows.len() - j,
    {
        assert(rows.take(j + 1).drop_last() =~= rows.take(j as int));
        assert(rows[j as int].1 == f.rows@[j as int].1@);
        let low = to_lowercase(f.rows[j].1);
        let cs = chars_of(low.as_str());
        let k = count_occurrences(cs.as_slice(), needle);
        proof {
            lemma_occurrences_le(cs@, needle@);
            assert(cs@.len() == rows[j as int].1.len());
        }
        total = total + k as u32;
        j += 1;
    }
    assert(rows.take(f.rows@.len() as int) =~= rows);
    total
}

/// Insert a scored table index at its best-first place: after every
/// entry with a score at least as high.
fn insert_ordered(
    order: &mut Vec<(i32, usize)>,
    score: i32,
    idx: usize,
    Ghost(t): Ghost<Seq<(Seq<char>, u32, Seq<(u32, Seq<char>)>)>>,
)
    ensures
        final(order)@.map_values(|e: (i32, usize)| (e.0 as int, t[e.1 as int])) == insert_ranked(
            old(order)@.map_values(|e: (i32, usize)| (e.0 as int, t[e.1 as int])),
            (score as int, t[idx as int]),
        ),
        forall|k: int| 0 <= k < final(order)@.len() ==> #[trigger] final(order)@[k].1 == idx
            || exists|m: int| 0 <= m < old(order)@.len() && old(order)@[m].1 == final(order)@[k].1,
{
    let ghost sv = order@.map_values(|e: (i32, usize)| (e.0 as int, t[e.1 as int]));
    let ghost before = order@;
    let mut p: usize = 0;
    assert(sv.skip(0) =~= sv);
    while p < order.len() && order[p].0 >= score
        invariant
            p <= order@.len(),
            order@ == before,
            sv == order@.map_values(|e: (i32, usize)| (e.0 as int, t[e.1 as int])),
            insert_pos(sv, score as int) == p + insert_pos(sv.skip(p as int), score as int),
        decreases order.len() - p,
    {
        assert(sv.skip(p as int).skip(1) =~= sv.skip(p + 1));
        assert(sv.skip(p as int)[0] == sv[p as int]);
        p += 1;
    }
    proof {
        if p < order@.len() {
            assert(sv.skip(p as int)[0] == sv[p as int]);
        }
        lemma_insert_pos(sv, score as int);
    }
    order.insert(p, (score, idx));
    assert(order@.map_values(|e: (i32, usize)| (e.0 as int, t[e.1 as int])) =~= insert_ranked(
        sv,
        (score as int, t[idx as int]),
    ));
    assert forall|k: int| 0 <= k < order@.len() implies #[trigger] order@[k].1 == idx
        || exists|m: int| 0 <= m < before.len() && before[m].1 == order@[k].1 by {
        if k < p {
            assert(before[k].1 == order@[k].1);
        } else if k > p {
            assert(before[k - 1].1 == order@[k].1);
        }
    }
}

/// The kept files best first by their go-to-file score, ties in table
/// order.
fn rank_kept(
    files: &Vec<MockFile>,
    lowered: &Vec<String>,
    needles: &Vec<String>,
    kept: &Vec<usize>,
    Ghost(kind): Ghost<SearchKind>,
    Ghost(query): Ghost<Seq<char>>,
) -> (r: Vec<usize>)
    requires
        kind == SearchKind::FileFind,
        files_view(files@) == mock_table(kind),
        lowered@.len() == files@.len(),
        forall|k: int| 0 <= k < files@.len() ==> (#[trigger] lowered@[k])@ == lowercase(mock_table(kind)[k].0),
        views(needles@) == split_ws(lowercase(query)),
        mock_scores_fit(kind, query),
        forall|k: int| 0 <= k < kept@.len() ==> #[trigger] kept@[k] < files@.len(),
    ensures
        forall|k: int| 0 <= k < r@.len() ==> #[trigger] r@[k] < files@.len(),
        r@.map_values(|k: usize| mock_table(kind)[k as int]) == ranked(
            kept@.map_values(|k: usize| mock_table(kind)[k as int]).map_values(
                |f: (Seq<char>, u32, Seq<(u32, Seq<char>)>)| (mock_score(query, f), f),
            ),
        ).map_values(|e: (int, (Seq<char>, u32, Seq<(u32, Seq<char>)>))| e.1),
{
    let ghost t = mock_table(kind);
    let ghost ks = kept@.map_values(|k: usize| t[k as int]).map_values(
        |f: (Seq<char>, u32, Seq<(u32, Seq<char>)>)| (mock_score(query, f), f),
    );
    let mut order: Vec<(i32, usize)> = Vec::new();
    let mut q: usize = 0;
    while q < kept.len()
        invariant
            q <= kept@.len(),
            t == mock_table(kind),
            kind == SearchKind::FileFind,
            files_view(files@) == t,
            lowered@.len() == files@.len(),
            forall|k: int| 0 <= k < files@.len() ==> (#[trigger] lowered@[k])@ == lowercase(t[k].0),
            views(needles@) == split_ws(lowercase(query)),
            mock_scores_fit(kind, query),
            forall|k: int| 0 <= k < kept@.len() ==> #[trigger] kept@[k] < files@.len(),
            ks == kept@.map_values(|k: usize| t[k as int]).map_values(
                |f: (Seq<char>, u32, Seq<(u32, Seq<char>)>)| (mock_score(query, f), f),
            ),
            forall|k: int| 0 <= k < order@.len() ==> #[trigger] order@[k].1 < files@.len(),
            order@.map_values(|e: (i32, usize)| (e.0 as int, t[e.1 as int])) == ranked(ks.take(q as int)),
        decreases kept.len() - q,
    {
        let idx = kept[q];
        assert(score_fits(lowercase(t[idx as int].0), split_ws(lowercase(query))));
        let score: i32 = match file_find_score(lowered[idx].as_str(), needles.as_slice()) {
            Some(v) => v,
            None => 0,
        };
        let ghost sv = order@.map_values(|e: (i32, usize)| (e.0 as int, t[e.1 as int]));
        let ghost x = ks[q as int];
        assert(x == (score as int, t[idx as int]));
        insert_ordered(&mut order, score, idx, Ghost(t));
        assert(ks.take(q + 1).drop_last() =~= ks.take(q as int));
        q += 1;
    }
    assert(ks.take(kept@.len() as int) =~= ks);
    let mut r: Vec<usize> = Vec::new();
    let mut j: usize = 0;
    while j < order.len()
        invariant
            j <= order@.len(),
            forall|k: int| 0 <= k < order@.len() ==> #[trigger] order@[k].1 < files@.len(),
            forall|k: int| 0 <= k < r@.len() ==> #[trigger] r@[k] < files@.len(),
            r@.map_values(|k: usize| t[k as int]) == order@.map_values(|e: (i32, usize)| (e.0 as int, t[e.1 as int])).take(j as int).map_values(
                |e: (int, (Seq<char>, u32, Seq<(u32, Seq<char>)>))| e.1,
            ),
        decreases order.len() - j,
    {
        let ghost before = r@;
        r.push(order[j].1);
        assert(r@.map_values(|k: usize| t[k as int]) =~= before.map_values(|k: usize| t[k as int]).push(t[order@[j as int].1 as int]));
        j += 1;
        assert(order@.map_values(|e: (i32, usize)| (e.0 as int, t[e.1 as int])).take(j as int).map_values(
            |e: (int, (Seq<char>, u32, Seq<(u32, Seq<char>)>))| e.1,
        ) =~= order@.map_values(|e: (i32, usize)| (e.0 as int, t[e.1 as int])).take(j - 1).map_values(
            |e: (int, (Seq<char>, u32, Seq<(u32, Seq<char>)>))| e.1,
        ).push(t[order@[j - 1].1 as int]));
    }
    assert(order@.map_values(|e: (i32, usize)| (e.0 as int, t[e.1 as int])).take(order@.len() as int) =~= order@.map_values(|e: (i32, usize)| (e.0 as int, t[e.1 as int])));
    r
}

/// Canned hits honoring the inputs the way the real backend does: file
/// find matches the query against paths (best match first), grep
/// against paths and preview lines, and the extension box narrows by
/// suffix. `None` when a file-find score would leave its `i32`.
#[verifier::rlimit(60)]
pub fn hits(kind: SearchKind, query: &str, extension: &str) -> (r: Option<Vec<SearchHit>>)
    ensures
        r is None <==> !mock_scores_fit(kind, query@),
        r matches Some(v) ==> v@.map_values(|h: SearchHit| hit_view(h)) == spec_mock_hits(kind, query@, extension@),
{
    let files = mock_files(kind);
    let ghost t = mock_table(kind);
    let lq = to_lowercase(query);
    let needle = chars_of(lq.as_str());
    let needles = split_whitespace_words(lq.as_str());
    let ext = crate::text::lower_chars(string_of(trim_dots_str(extension).as_slice()).as_str());
    let ghost nv = views(needles@);
    assert(nv == split_ws(lowercase(query@)));
    assert(ext@ == ext_filter(extension@));
    let mut lowered: Vec<String> = Vec::new();
    let mut i: usize = 0;
    while i < files.len()
        invariant
            i <= files@.len(),
            files_view(files@) == t,
            lowered@.len() == i,
            forall|k: int| 0 <= k < i ==> (#[trigger] lowered@[k])@ == lowercase(t[k].0),
        decreases files.len() - i,
    {
        assert(files@[i as int].path@ == t[i as int].0);
        lowered.push(to_lowercase(files[i].path));
        i += 1;
    }
    if kind == SearchKind::FileFind {
        let mut i: usize = 0;
        while i < files.len()
            invariant
                i <= files@.len(),
                files_view(files@) == t,
                t == mock_table(kind),
                lowered@.len() == files@.len(),
                forall|k: int| 0 <= k < files@.len() ==> (#[trigger] lowered@[k])@ == lowercase(t[k].0),
                nv == views(needles@),
                nv == split_ws(lowercase(query@)),
                forall|k: int| 0 <= k < i ==> score_fits(lowercase(#[trigger] t[k].0), nv),
                kind == SearchKind::FileFind,
            decreases files.len() - i,
        {
            if !score_fits_check(lowered[i].as_str(), needles.as_slice()) {
                assert(!score_fits(lowercase(t[i as int].0), nv));
                return None;
            }
            i += 1;
        }
        assert(mock_scores_fit(kind, query@));
    }
    let ghost pred = mock_pred(kind, query@, extension@);
    let mut kept: Vec<usize> = Vec::new();
    let mut i: usize = 0;
    while i < files.len()
        invariant
            i <= files@.len(),
            files_view(files@) == t,
            t == mock_table(kind),
            lowered@.len() == files@.len(),
            forall|k: int| 0 <= k < files@.len() ==> (#[trigger] lowered@[k])@ == lowercase(t[k].0),
            nv == views(needles@),
            nv == split_ws(lowercase(query@)),
            needle@ == lowercase(query@),
            ext@ == ext_filter(extension@),
            kind == SearchKind::FileFind ==> mock_scores_fit(kind, query@),
            pred == mock_pred(kind, query@, extension@),
            forall|k: int| 0 <= k < kept@.len() ==> #[trigger] kept@[k] < files@.len(),
            kept@.map_values(|k: usize| t[k as int]) == t.take(i as int).filter(pred),
        decreases files.len() - i,
    {
        let f = &files[i];
        assert(file_view(*f) == t[i as int]);
        let pl = chars_of(lowered[i].as_str());
        let mq = if needle.len() == 0 {
            true
        } else if kind == SearchKind::FileFind {
            file_find_score(lowered[i].as_str(), needles.as_slice()).is_some()
        } else if contains(pl.as_slice(), needle.as_slice()) {
            true
        } else {
            let mut hit = false;
            let mut j: usize = 0;
            while j < f.rows.len()
                invariant
                    j <= f.rows@.len(),
                    !hit ==> forall|m: int| 0 <= m < j ==> !has_sub(lowercase(#[trigger] rows_of(f.rows@)[m].1), needle@),
                    hit ==> exists|m: int| 0 <= m < f.rows@.len() && has_sub(lowercase(#[trigger] rows_of(f.rows@)[m].1), needle@),
                decreases f.rows.len() - j,
            {
                if !hit {
                    let low = crate::text::lower_chars(f.rows[j].1);
                    if contains(low.as_slice(), needle.as_slice()) {
                        assert(has_sub(lowercase(rows_of(f.rows@)[j as int].1), needle@));
                        hit = true;
                    }
                }
                j += 1;
            }
            hit
        };
        let me = ext.len() == 0 || ends_with(pl.as_slice(), dotted_chars(ext.as_slice()).as_slice());
        assert(mq == query_hit(kind, lowercase(query@), nv, t[i as int]));
        assert(me == ext_hit(ext_filter(extension@), t[i as int]));
        let ghost before = kept@;
        proof {
            reveal(Seq::filter);
            assert(t.take(i + 1).drop_last() =~= t.take(i as int));
        }
        if mq && me {
            kept.push(i);
            assert(kept@.map_values(|k: usize| t[k as int]) =~= before.map_values(|k: usize| t[k as int]).push(t[i as int]));
        }
        i += 1;
    }
    assert(t.take(files@.len() as int) =~= t);
    let ghost kv = t.filter(pred);
    assert(kept@.map_values(|k: usize| t[k as int]) == kv);
    let order: Vec<usize> = if kind == SearchKind::FileFind {
        rank_kept(&files, &lowered, &needles, &kept, Ghost(kind), Ghost(query@))
    } else {
        kept
    };
    assert(order@.map_values(|k: usize| t[k as int]) == mock_ordered(kind, query@, extension@));
    let mut out: Vec<SearchHit> = Vec::new();
    let mut q: usize = 0;
    while q < order.len()
        invariant
            q <= order@.len(),
            files_view(files@) == t,
            t == mock_table(kind),
            forall|k: int| 0 <= k < order@.len() ==> #[trigger] order@[k] < files@.len(),
            order@.map_values(|k: usize| t[k as int]) == mock_ordered(kind, query@, extension@),
            needle@ == lowercase(query@),
            out@.map_values(|h: SearchHit| hit_view(h)) == mock_ordered(kind, query@, extension@).take(q as int).map_values(
                |f: (Seq<char>, u32, Seq<(u32, Seq<char>)>)| mock_hit(kind, query@, f),
            ),
        decreases order.len() - q,
    {
        let idx = order[q];
        let f = &files[idx];
        assert(file_view(*f) == t[idx as int]);
        let preview = owned_rows(&f.rows);
        let count = badge_of(kind, f, needle.as_slice(), Ghost(idx as int));
        let body = mock_body(f.path, f.rows.as_slice(), query);
        let h = SearchHit::plain("ratatui/ratatui", f.path, f.line, preview, count, body);
        proof {
            reveal_strlit("ratatui/ratatui");
            reveal_strlit("main");
        }
        assert(h.sha@ =~= Seq::<char>::empty());
        let ghost before = out@.map_values(|h: SearchHit| hit_view(h));
        out.push(h);
        assert(hit_view(h) == mock_hit(kind, query@, t[idx as int]));
        assert(out@.map_values(|h: SearchHit| hit_view(h)) =~= before.push(hit_view(h)));
        q += 1;
        assert(mock_ordered(kind, query@, extension@).take(q as int) =~= mock_ordered(kind, query@, extension@).take(q - 1).push(t[idx as int]));
    }
    assert(mock_ordered(kind, query@, extension@).take(order@.len() as int) =~= mock_ordered(kind, query@, extension@));
    Some(out)
}

} // verus!