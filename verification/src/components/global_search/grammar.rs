//! The search query grammar: quoted literals, prefix negation, and the
//! `language:`/`extension:` qualifiers.
//!
//! The raw query still goes out on the wire verbatim; this structure is
//! what the library itself needs: the local tree file find and the
//! client-side subtraction filter, plus the honesty chips when a token
//! can't be applied anywhere.
use super::model::{preview_texts, RawHit};
use crate::text::{
    ascii_lower_chars, ascii_lower_seq, chars_of, clone_strings, contains, eq_chars, has_sub,
    is_whitespace, is_whitespace_char, lower_chars, lowercase, slice_chars, starts, starts_with,
    string_of, views,
};
use vstd::prelude::*;

verus! {

/// A parsed query.
#[derive(Debug, Clone, PartialEq, Eq)]
pub struct Grammar {
    /// Positive terms; a quoted literal is ONE term (quotes stripped).
    pub terms: Vec<String>,
    /// Negated terms (`-foo`, `-"a b"`, `NOT foo`), lowercased.
    pub negated: Vec<String>,
    /// `language:rust` — extension filter via the static table.
    pub language: Option<String>,
    /// `-language:rust` / `NOT language:rust`.
    pub negated_language: Option<String>,
    /// Inline `extension:rs`.
    pub extension: Option<String>,
    /// Qualifiers nothing can express (`symbol:`, `-repo:`…).
    pub unknown: Vec<String>,
}

/// The abstract grammar.
pub struct GrammarView {
    pub terms: Seq<Seq<char>>,
    pub negated: Seq<Seq<char>>,
    pub language: Option<Seq<char>>,
    pub negated_language: Option<Seq<char>>,
    pub extension: Option<Seq<char>>,
    pub unknown: Seq<Seq<char>>,
}

pub open spec fn opt_view(o: Option<String>) -> Option<Seq<char>> {
    match o {
        Some(s) => Some(s@),
        None => None,
    }
}

impl View for Grammar {
    type V = GrammarView;

    open spec fn view(&self) -> GrammarView {
        GrammarView {
            terms: views(self.terms@),
            negated: views(self.negated@),
            language: opt_view(self.language),
            negated_language: opt_view(self.negated_language),
            extension: opt_view(self.extension),
            unknown: views(self.unknown@),
        }
    }
}

pub open spec fn empty_grammar() -> GrammarView {
    GrammarView {
        terms: seq![],
        negated: seq![],
        language: None,
        negated_language: None,
        extension: None,
        unknown: seq![],
    }
}

impl Default for Grammar {
    fn default() -> (r: Self)
        ensures
            r@ == empty_grammar(),
    {
        let r = Grammar {
            terms: Vec::new(),
            negated: Vec::new(),
            language: None,
            negated_language: None,
            extension: None,
            unknown: Vec::new(),
        };
        assert(r@.terms =~= seq![]);
        assert(r@.negated =~= seq![]);
        assert(r@.unknown =~= seq![]);
        r
    }
}

// ---------------------------------------------------------------------
// Tokenizer
// ---------------------------------------------------------------------

/// Tokenizer state after a prefix of the query.
pub struct TokState {
    pub out: Seq<Seq<char>>,
    pub cur: Seq<char>,
    pub quoted: bool,
    pub started: bool,
}

/// One char: a quote toggles quoting (and starts a token), unquoted
/// whitespace ends the current token, anything else extends it.
pub open spec fn tok_step(st: TokState, c: char) -> TokState {
    if c == '"' {
        TokState { quoted: !st.quoted, started: true, ..st }
    } else if is_whitespace_char(c) && !st.quoted {
        if st.started {
            TokState { out: st.out.push(st.cur), cur: seq![], started: false, ..st }
        } else {
            st
        }
    } else {
        TokState { cur: st.cur.push(c), started: true, ..st }
    }
}

pub open spec fn tok_fold(s: Seq<char>) -> TokState
    decreases s.len(),
{
    if s.len() == 0 {
        TokState { out: seq![], cur: seq![], quoted: false, started: false }
    } else {
        tok_step(tok_fold(s.drop_last()), s.last())
    }
}

/// Whitespace split honoring double quotes; an unterminated quote runs
/// to the end of input (the phrase is still one term).
pub open spec fn spec_tokenize(s: Seq<char>) -> Seq<Seq<char>> {
    let st = tok_fold(s);
    if st.started {
        st.out.push(st.cur)
    } else {
        st.out
    }
}

/// Whitespace split honoring double quotes.
pub fn tokenize(q: &str) -> (r: Vec<String>)
    ensures
        views(r@) == spec_tokenize(q@),
{
    let cs = chars_of(q);
    let mut out: Vec<String> = Vec::new();
    let mut cur: Vec<char> = Vec::new();
    let mut quoted = false;
    let mut started = false;
    let mut i: usize = 0;
    while i < cs.len()
        invariant
            i <= cs@.len(),
            cs@ == q@,
            views(out@) == tok_fold(cs@.take(i as int)).out,
            cur@ == tok_fold(cs@.take(i as int)).cur,
            quoted == tok_fold(cs@.take(i as int)).quoted,
            started == tok_fold(cs@.take(i as int)).started,
        decreases cs.len() - i,
    {
        let c = cs[i];
        proof {
            assert(cs@.take(i + 1).drop_last() =~= cs@.take(i as int));
        }
        if c == '"' {
            quoted = !quoted;
            started = true;
        } else if is_whitespace(c) && !quoted {
            if started {
                let ghost before = out@;
                out.push(string_of(cur.as_slice()));
                assert(views(out@) =~= views(before).push(cur@));
                cur = Vec::new();
                started = false;
            }
        } else {
            cur.push(c);
            started = true;
        }
        i += 1;
    }
    assert(cs@.take(cs@.len() as int) =~= cs@);
    if started {
        let ghost before = out@;
        out.push(string_of(cur.as_slice()));
        assert(views(out@) =~= views(before).push(cur@));
    }
    out
}

// ---------------------------------------------------------------------
// Parser
// ---------------------------------------------------------------------

/// `s` without its leading dots.
pub open spec fn trim_dots(s: Seq<char>) -> Seq<char>
    decreases s.len(),
{
    if s.len() > 0 && s[0] == '.' {
        trim_dots(s.skip(1))
    } else {
        s
    }
}

/// A wire-level scope qualifier, kept out of the content needles.
pub open spec fn is_scope_qualifier(tok: Seq<char>) -> bool {
    starts(tok, "repo:"@) || starts(tok, "org:"@) || starts(tok, "path:"@)
}

/// How one (possibly negated) token lands in the grammar.
pub open spec fn apply_token(g: GrammarView, neg: bool, tok: Seq<char>) -> GrammarView {
    if tok.len() == 0 {
        g
    } else if starts(tok, "language:"@) {
        let lang = tok.skip(9);
        if neg {
            GrammarView { negated_language: Some(lang), ..g }
        } else {
            GrammarView { language: Some(lang), ..g }
        }
    } else if starts(tok, "extension:"@) {
        if neg {
            GrammarView { unknown: g.unknown.push("-"@ + tok), ..g }
        } else {
            GrammarView { extension: Some(trim_dots(tok.skip(10))), ..g }
        }
    } else if is_scope_qualifier(tok) {
        if neg {
            GrammarView { unknown: g.unknown.push("-"@ + tok), ..g }
        } else {
            g
        }
    } else if tok.contains(':') {
        GrammarView {
            unknown: g.unknown.push(
                if neg {
                    "-"@ + tok
                } else {
                    tok
                },
            ),
            ..g
        }
    } else if neg {
        GrammarView { negated: g.negated.push(lowercase(tok)), ..g }
    } else {
        GrammarView { terms: g.terms.push(tok), ..g }
    }
}

/// Fold the tokens into the grammar: `NOT x` and `-x` negate `x`; a
/// trailing `NOT` is dropped.
pub open spec fn parse_tokens(toks: Seq<Seq<char>>, g: GrammarView) -> GrammarView
    decreases toks.len(),
{
    if toks.len() == 0 {
        g
    } else if toks[0] == "NOT"@ {
        if toks.len() == 1 {
            g
        } else {
            parse_tokens(toks.skip(2), apply_token(g, true, toks[1]))
        }
    } else if starts(toks[0], "-"@) {
        parse_tokens(toks.skip(1), apply_token(g, true, toks[0].skip(1)))
    } else {
        parse_tokens(toks.skip(1), apply_token(g, false, toks[0]))
    }
}

/// The grammar of a query.
pub open spec fn spec_parse(q: Seq<char>) -> GrammarView {
    parse_tokens(spec_tokenize(q), empty_grammar())
}

fn lit(s: &str) -> (r: Vec<char>)
    ensures
        r@ == s@,
{
    chars_of(s)
}

fn contains_char(s: &[char], c: char) -> (b: bool)
    ensures
        b == s@.contains(c),
{
    match crate::text::find_char(s, c) {
        Some(i) => {
            assert(s@[i as int] == c);
            true
        },
        None => false,
    }
}

fn trim_leading_dots(s: &[char]) -> (r: Vec<char>)
    ensures
        r@ == trim_dots(s@),
{
    let mut i: usize = 0;
    assert(s@.skip(0) =~= s@);
    while i < s.len() && s[i] == '.'
        invariant
            i <= s@.len(),
            trim_dots(s@.skip(i as int)) == trim_dots(s@),
        decreases s.len() - i,
    {
        assert(s@.skip(i as int).skip(1) =~= s@.skip(i + 1));
        i += 1;
    }
    let r = slice_chars(s, i, s.len());
    assert(r@ =~= s@.skip(i as int));
    r
}

fn dash_prefixed(tok: &[char]) -> (r: String)
    ensures
        r@ == "-"@ + tok@,
{
    let mut s = "-".to_owned();
    let t = string_of(tok);
    crate::text::push_str(&mut s, t.as_str());
    s
}

fn apply(g: &mut Grammar, neg: bool, tok: &Vec<char>)
    ensures
        final(g)@ == apply_token(old(g)@, neg, tok@),
{
    if tok.len() == 0 {
        return;
    }
    if starts_with(tok.as_slice(), lit("language:").as_slice()) {
        proof {
            reveal_strlit("language:");
        }
        let lang = string_of(slice_chars(tok.as_slice(), 9, tok.len()).as_slice());
        assert(lang@ =~= tok@.skip(9));
        if neg {
            g.negated_language = Some(lang);
        } else {
            g.language = Some(lang);
        }
    } else if starts_with(tok.as_slice(), lit("extension:").as_slice()) {
        proof {
            reveal_strlit("extension:");
        }
        if neg {
            let ghost before = g.unknown@;
            g.unknown.push(dash_prefixed(tok.as_slice()));
            assert(views(g.unknown@) =~= views(before).push("-"@ + tok@));
        } else {
            let rest = slice_chars(tok.as_slice(), 10, tok.len());
            assert(rest@ =~= tok@.skip(10));
            g.extension = Some(string_of(trim_leading_dots(rest.as_slice()).as_slice()));
        }
    } else if starts_with(tok.as_slice(), lit("repo:").as_slice()) || starts_with(
        tok.as_slice(),
        lit("org:").as_slice(),
    ) || starts_with(tok.as_slice(), lit("path:").as_slice()) {
        if neg {
            let ghost before = g.unknown@;
            g.unknown.push(dash_prefixed(tok.as_slice()));
            assert(views(g.unknown@) =~= views(before).push("-"@ + tok@));
        }
    } else if contains_char(tok.as_slice(), ':') {
        let ghost before = g.unknown@;
        let entry = if neg {
            dash_prefixed(tok.as_slice())
        } else {
            string_of(tok.as_slice())
        };
        g.unknown.push(entry);
        assert(views(g.unknown@) =~= views(before).push(
            if neg {
                "-"@ + tok@
            } else {
                tok@
            },
        ));
    } else if neg {
        let ghost before = g.negated@;
        let t = string_of(tok.as_slice());
        g.negated.push(crate::text::to_lowercase(t.as_str()));
        assert(views(g.negated@) =~= views(before).push(lowercase(tok@)));
    } else {
        let ghost before = g.terms@;
        g.terms.push(string_of(tok.as_slice()));
        assert(views(g.terms@) =~= views(before).push(tok@));
    }
}

/// Parse a query into its grammar.
pub fn parse(query: &str) -> (g: Grammar)
    ensures
        g@ == spec_parse(query@),
{
    let mut g = Grammar::default();
    let raw = tokenize(query);
    let mut toks: Vec<Vec<char>> = Vec::new();
    let mut k: usize = 0;
    while k < raw.len()
        invariant
            k <= raw@.len(),
            toks@.len() == k,
            forall|j: int| 0 <= j < k ==> #[trigger] toks@[j]@ == raw@[j]@,
        decreases raw.len() - k,
    {
        toks.push(chars_of(raw[k].as_str()));
        k += 1;
    }
    let ghost all: Seq<Seq<char>> = views(raw@);
    assert forall|j: int| 0 <= j < toks@.len() implies #[trigger] toks@[j]@ == all[j] by {}
    let not_kw = lit("NOT");
    let dash = lit("-");
    let mut i: usize = 0;
    let mut done = false;
    assert(all.skip(0) =~= all);
    while i < toks.len() && !done
        invariant
            i <= toks@.len(),
            toks@.len() == all.len(),
            forall|j: int| 0 <= j < toks@.len() ==> #[trigger] toks@[j]@ == all[j],
            all == spec_tokenize(query@),
            not_kw@ == "NOT"@,
            dash@ == "-"@,
            !done ==> parse_tokens(all.skip(i as int), g@) == spec_parse(query@),
            done ==> g@ == spec_parse(query@),
        decreases toks.len() - i + (if done { 0int } else { 1int }),
    {
        let tok = &toks[i];
        let ghost rest = all.skip(i as int);
        assert(rest[0] == tok@);
        if eq_chars(tok.as_slice(), not_kw.as_slice()) {
            if i + 1 >= toks.len() {
                assert(rest.len() == 1);
                done = true;
                continue;
            }
            let next = &toks[i + 1];
            assert(rest[1] == next@);
            apply(&mut g, true, next);
            assert(rest.skip(2) =~= all.skip(i + 2));
            i += 2;
        } else if starts_with(tok.as_slice(), dash.as_slice()) {
            proof {
                reveal_strlit("-");
            }
            let stripped = slice_chars(tok.as_slice(), 1, tok.len());
            assert(stripped@ =~= tok@.skip(1));
            apply(&mut g, true, &stripped);
            assert(rest.skip(1) =~= all.skip(i + 1));
            i += 1;
        } else {
            apply(&mut g, false, tok);
            assert(rest.skip(1) =~= all.skip(i + 1));
            i += 1;
        }
    }
    if !done {
        assert(all.skip(i as int) =~= Seq::<Seq<char>>::empty());
    }
    g
}

// ---------------------------------------------------------------------
// Language table
// ---------------------------------------------------------------------

/// One language: canonical name, aliases, extensions.
pub struct LangRow {
    pub name: &'static str,
    pub aliases: &'static [&'static str],
    pub exts: &'static [&'static str],
}

/// The one extension↔language mapping: `language:` resolves names to
/// extensions, the facet chips resolve extensions to names. Two lookups
/// over a single table.
pub open spec fn lang_table() -> Seq<(Seq<char>, Seq<Seq<char>>, Seq<Seq<char>>)> {
    seq![
        ("rust"@, seq![], seq!["rs"@]),
        ("python"@, seq![], seq!["py"@, "pyi"@]),
        ("javascript"@, seq![], seq!["js"@, "jsx"@, "mjs"@]),
        ("typescript"@, seq![], seq!["ts"@, "tsx"@, "mts"@]),
        ("go"@, seq![], seq!["go"@]),
        ("c"@, seq![], seq!["c"@, "h"@]),
        ("c++"@, seq!["cpp"@], seq!["cpp"@, "cc"@, "cxx"@, "hpp"@]),
        ("csharp"@, seq!["c#"@], seq!["cs"@]),
        ("java"@, seq![], seq!["java"@]),
        ("kotlin"@, seq![], seq!["kt"@, "kts"@]),
        ("ruby"@, seq![], seq!["rb"@]),
        ("php"@, seq![], seq!["php"@]),
        ("swift"@, seq![], seq!["swift"@]),
        ("shell"@, seq!["bash"@], seq!["sh"@, "bash"@]),
        ("toml"@, seq![], seq!["toml"@]),
        ("yaml"@, seq![], seq!["yaml"@, "yml"@]),
        ("json"@, seq![], seq!["json"@]),
        ("markdown"@, seq![], seq!["md"@]),
        ("html"@, seq![], seq!["html"@]),
        ("css"@, seq![], seq!["css"@]),
    ]
}

pub open spec fn strs_view(s: Seq<&'static str>) -> Seq<Seq<char>> {
    s.map_values(|x: &'static str| x@)
}

pub open spec fn row_view(r: LangRow) -> (Seq<char>, Seq<Seq<char>>, Seq<Seq<char>>) {
    (r.name@, strs_view(r.aliases@), strs_view(r.exts@))
}

/// The table rows.
pub fn lang_rows() -> (v: Vec<LangRow>)
    ensures
        v@.map_values(|r: LangRow| row_view(r)) == lang_table(),
{
    let v = vec![
        LangRow { name: "rust", aliases: &[], exts: &["rs"] },
        LangRow { name: "python", aliases: &[], exts: &["py", "pyi"] },
        LangRow { name: "javascript", aliases: &[], exts: &["js", "jsx", "mjs"] },
        LangRow { name: "typescript", aliases: &[], exts: &["ts", "tsx", "mts"] },
        LangRow { name: "go", aliases: &[], exts: &["go"] },
        LangRow { name: "c", aliases: &[], exts: &["c", "h"] },
        LangRow { name: "c++", aliases: &["cpp"], exts: &["cpp", "cc", "cxx", "hpp"] },
        LangRow { name: "csharp", aliases: &["c#"], exts: &["cs"] },
        LangRow { name: "java", aliases: &[], exts: &["java"] },
        LangRow { name: "kotlin", aliases: &[], exts: &["kt", "kts"] },
        LangRow { name: "ruby", aliases: &[], exts: &["rb"] },
        LangRow { name: "php", aliases: &[], exts: &["php"] },
        LangRow { name: "swift", aliases: &[], exts: &["swift"] },
        LangRow { name: "shell", aliases: &["bash"], exts: &["sh", "bash"] },
        LangRow { name: "toml", aliases: &[], exts: &["toml"] },
        LangRow { name: "yaml", aliases: &[], exts: &["yaml", "yml"] },
        LangRow { name: "json", aliases: &[], exts: &["json"] },
        LangRow { name: "markdown", aliases: &[], exts: &["md"] },
        LangRow { name: "html", aliases: &[], exts: &["html"] },
        LangRow { name: "css", aliases: &[], exts: &["css"] },
    ];
    assert(v@.map_values(|r: LangRow| row_view(r)) =~~= lang_table());
    v
}

/// The first row (from `i` on) whose name or an alias is `l`: its extensions.
pub open spec fn find_lang(
    t: Seq<(Seq<char>, Seq<Seq<char>>, Seq<Seq<char>>)>,
    l: Seq<char>,
    i: int,
) -> Option<Seq<Seq<char>>>
    decreases t.len() - i,
{
    if i < 0 || i >= t.len() {
        None
    } else if t[i].0 == l || t[i].1.contains(l) {
        Some(t[i].2)
    } else {
        find_lang(t, l, i + 1)
    }
}

/// The first row (from `i` on) listing extension `e`: its name.
pub open spec fn find_ext(
    t: Seq<(Seq<char>, Seq<Seq<char>>, Seq<Seq<char>>)>,
    e: Seq<char>,
    i: int,
) -> Option<Seq<char>>
    decreases t.len() - i,
{
    if i < 0 || i >= t.len() {
        None
    } else if t[i].2.contains(e) {
        Some(t[i].0)
    } else {
        find_ext(t, e, i + 1)
    }
}

/// `language:` resolution: the extensions of the language named (ASCII
/// case-insensitively) by `lang`, by canonical name or alias.
pub open spec fn spec_lang_exts(lang: Seq<char>) -> Option<Seq<Seq<char>>> {
    find_lang(lang_table(), ascii_lower_seq(lang), 0)
}

/// Facet chips: the canonical name of the language listing `ext`.
pub open spec fn spec_ext_lang(ext: Seq<char>) -> Option<Seq<char>> {
    find_ext(lang_table(), ext, 0)
}

/// The extension found for `e` from row `i` on comes from a row that
/// lists it.
proof fn lemma_find_ext_row(t: Seq<(Seq<char>, Seq<Seq<char>>, Seq<Seq<char>>)>, e: Seq<char>, i: int) -> (j: int)
    requires
        find_ext(t, e, i) is Some,
    ensures
        0 <= i <= j < t.len(),
        t[j].2.contains(e),
        find_ext(t, e, i) == Some(t[j].0),
    decreases t.len() - i,
{
    if t[i].2.contains(e) {
        i
    } else {
        lemma_find_ext_row(t, e, i + 1)
    }
}

/// A row listing `e` at or after `i` makes the reverse lookup succeed.
proof fn lemma_find_ext_some(t: Seq<(Seq<char>, Seq<Seq<char>>, Seq<Seq<char>>)>, e: Seq<char>, i: int, j: int)
    requires
        0 <= i <= j < t.len(),
        t[j].2.contains(e),
    ensures
        find_ext(t, e, i) is Some,
    decreases j - i,
{
    if !t[i].2.contains(e) {
        lemma_find_ext_some(t, e, i + 1, j);
    }
}

/// A name no earlier row claims resolves to its own row.
proof fn lemma_find_lang_row(t: Seq<(Seq<char>, Seq<Seq<char>>, Seq<Seq<char>>)>, l: Seq<char>, i: int, j: int)
    requires
        0 <= i <= j < t.len(),
        t[j].0 == l,
        forall|k: int| i <= k < j ==> t[k].0 != l && !t[k].1.contains(l),
    ensures
        find_lang(t, l, i) == Some(t[j].2),
    decreases j - i,
{
    if i < j {
        lemma_find_lang_row(t, l, i + 1, j);
    }
}

/// Row `j`'s canonical name is lowercase and claimed by no earlier row.
pub open spec fn row_resolves(t: Seq<(Seq<char>, Seq<Seq<char>>, Seq<Seq<char>>)>, j: int) -> bool {
    &&& ascii_lower_seq(t[j].0) == t[j].0
    &&& forall|k: int| 0 <= k < j ==> t[k].0 != t[j].0 && !t[k].1.contains(t[j].0)
}

/// Every canonical name resolves back to its own row.
pub open spec fn names_resolve(t: Seq<(Seq<char>, Seq<Seq<char>>, Seq<Seq<char>>)>) -> bool {
    forall|j: int| 0 <= j < t.len() ==> #[trigger] row_resolves(t, j)
}

proof fn lemma_lang_row_0()
    ensures
        row_resolves(lang_table(), 0),
{
    let t = lang_table();
    reveal_strlit("rust");
    assert(ascii_lower_seq(t[0].0) =~= t[0].0);
    assert forall|k: int| 0 <= k < 0 implies t[k].0 != t[0].0 && !t[k].1.contains(t[0].0) by {
    }
}

proof fn lemma_lang_row_1()
    ensures
        row_resolves(lang_table(), 1),
{
    let t = lang_table();
    reveal_strlit("python");
    reveal_strlit("rust");
    assert(ascii_lower_seq(t[1].0) =~= t[1].0);
    assert(t[0].0 != t[1].0);
    assert(t[0].1.len() == 0);
    assert forall|k: int| 0 <= k < 1 implies t[k].0 != t[1].0 && !t[k].1.contains(t[1].0) by {
        assert(k == 0);
    }
}

proof fn lemma_lang_row_2()
    ensures
        row_resolves(lang_table(), 2),
{
    let t = lang_table();
    reveal_strlit("javascript");
    reveal_strlit("python");
    reveal_strlit("rust");
    assert(ascii_lower_seq(t[2].0) =~= t[2].0);
    assert(t[0].0 != t[2].0);
    assert(t[0].1.len() == 0);
    assert(t[1].0 != t[2].0);
    assert(t[1].1.len() == 0);
    assert forall|k: int| 0 <= k < 2 implies t[k].0 != t[2].0 && !t[k].1.contains(t[2].0) by {
        assert(k == 0 || k == 1);
    }
}

proof fn lemma_lang_row_3()
    ensures
        row_resolves(lang_table(), 3),
{
    let t = lang_table();
    reveal_strlit("javascript");
    reveal_strlit("python");
    reveal_strlit("rust");
    reveal_strlit("typescript");
    assert(ascii_lower_seq(t[3].0) =~= t[3].0);
    assert(t[0].0 != t[3].0);
    assert(t[0].1.len() == 0);
    assert(t[1].0 != t[3].0);
    assert(t[1].1.len() == 0);
    assert(t[2].0[0] != t[3].0[0]);
    assert(t[2].0 != t[3].0);
    assert(t[2].1.len() == 0);
    assert forall|k: int| 0 <= k < 3 implies t[k].0 != t[3].0 && !t[k].1.contains(t[3].0) by {
        assert(k == 0 || k == 1 || k == 2);
    }
}

proof fn lemma_lang_row_4()
    ensures
        row_resolves(lang_table(), 4),
{
    let t = lang_table();
    reveal_strlit("go");
    reveal_strlit("javascript");
    reveal_strlit("python");
    reveal_strlit("rust");
    reveal_strlit("typescript");
    assert(ascii_lower_seq(t[4].0) =~= t[4].0);
    assert(t[0].0 != t[4].0);
    assert(t[0].1.len() == 0);
    assert(t[1].0 != t[4].0);
    assert(t[1].1.len() == 0);
    assert(t[2].0 != t[4].0);
    assert(t[2].1.len() == 0);
    assert(t[3].0 != t[4].0);
    assert(t[3].1.len() == 0);
    assert forall|k: int| 0 <= k < 4 implies t[k].0 != t[4].0 && !t[k].1.contains(t[4].0) by {
        assert(k == 0 || k == 1 || k == 2 || k == 3);
    }
}

proof fn lemma_lang_row_5()
    ensures
        row_resolves(lang_table(), 5),
{
    let t = lang_table();
    reveal_strlit("c");
    reveal_strlit("go");
    reveal_strlit("javascript");
    reveal_strlit("python");
    reveal_strlit("rust");
    reveal_strlit("typescript");
    assert(ascii_lower_seq(t[5].0) =~= t[5].0);
    assert(t[0].0 != t[5].0);
    assert(t[0].1.len() == 0);
    assert(t[1].0 != t[5].0);
    assert(t[1].1.len() == 0);
    assert(t[2].0 != t[5].0);
    assert(t[2].1.len() == 0);
    assert(t[3].0 != t[5].0);
    assert(t[3].1.len() == 0);
    assert(t[4].0 != t[5].0);
    assert(t[4].1.len() == 0);
    assert forall|k: int| 0 <= k < 5 implies t[k].0 != t[5].0 && !t[k].1.contains(t[5].0) by {
        assert(k == 0 || k == 1 || k == 2 || k == 3 || k == 4);
    }
}

proof fn lemma_lang_row_6()
    ensures
        row_resolves(lang_table(), 6),
{
    let t = lang_table();
    reveal_strlit("c");
    reveal_strlit("c++");
    reveal_strlit("go");
    reveal_strlit("javascript");
    reveal_strlit("python");
    reveal_strlit("rust");
    reveal_strlit("typescript");
    assert(ascii_lower_seq(t[6].0) =~= t[6].0);
    assert(t[0].0 != t[6].0);
    assert(t[0].1.len() == 0);
    assert(t[1].0 != t[6].0);
    assert(t[1].1.len() == 0);
    assert(t[2].0 != t[6].0);
    assert(t[2].1.len() == 0);
    assert(t[3].0 != t[6].0);
    assert(t[3].1.len() == 0);
    assert(t[4].0 != t[6].0);
    assert(t[4].1.len() == 0);
    assert(t[5].0 != t[6].0);
    assert(t[5].1.len() == 0);
    assert forall|k: int| 0 <= k < 6 implies t[k].0 != t[6].0 && !t[k].1.contains(t[6].0) by {
        assert(k == 0 || k == 1 || k == 2 || k == 3 || k == 4 || k == 5);
    }
}

proof fn lemma_lang_row_7()
    ensures
        row_resolves(lang_table(), 7),
{
    let t = lang_table();
    reveal_strlit("c");
    reveal_strlit("c++");
    reveal_strlit("cpp");
    reveal_strlit("csharp");
    reveal_strlit("go");
    reveal_strlit("javascript");
    reveal_strlit("python");
    reveal_strlit("rust");
    reveal_strlit("typescript");
    assert(ascii_lower_seq(t[7].0) =~= t[7].0);
    assert(t[0].0 != t[7].0);
    assert(t[0].1.len() == 0);
    assert(t[1].0[0] != t[7].0[0]);
    assert(t[1].0 != t[7].0);
    assert(t[1].1.len() == 0);
    assert(t[2].0 != t[7].0);
    assert(t[2].1.len() == 0);
    assert(t[3].0 != t[7].0);
    assert(t[3].1.len() == 0);
    assert(t[4].0 != t[7].0);
    assert(t[4].1.len() == 0);
    assert(t[5].0 != t[7].0);
    assert(t[5].1.len() == 0);
    assert(t[6].0 != t[7].0);
    assert(!t[6].1.contains(t[7].0)) by {
        assert(t[6].1 =~= seq!["cpp"@]);
        if t[6].1.contains(t[7].0) {
            assert(t[6].1[0] == t[7].0);
        }
    }
    assert forall|k: int| 0 <= k < 7 implies t[k].0 != t[7].0 && !t[k].1.contains(t[7].0) by {
        assert(k == 0 || k == 1 || k == 2 || k == 3 || k == 4 || k == 5 || k == 6);
    }
}

proof fn lemma_lang_row_8()
    ensures
        row_resolves(lang_table(), 8),
{
    let t = lang_table();
    reveal_strlit("c");
    reveal_strlit("c#");
    reveal_strlit("c++");
    reveal_strlit("cpp");
    reveal_strlit("csharp");
    reveal_strlit("go");
    reveal_strlit("java");
    reveal_strlit("javascript");
    reveal_strlit("python");
    reveal_strlit("rust");
    reveal_strlit("typescript");
    assert(ascii_lower_seq(t[8].0) =~= t[8].0);
    assert(t[0].0[0] != t[8].0[0]);
    assert(t[0].0 != t[8].0);
    assert(t[0].1.len() == 0);
    assert(t[1].0 != t[8].0);
    assert(t[1].1.len() == 0);
    assert(t[2].0 != t[8].0);
    assert(t[2].1.len() == 0);
    assert(t[3].0 != t[8].0);
    assert(t[3].1.len() == 0);
    assert(t[4].0 != t[8].0);
    assert(t[4].1.len() == 0);
    assert(t[5].0 != t[8].0);
    assert(t[5].1.len() == 0);
    assert(t[6].0 != t[8].0);
    assert(!t[6].1.contains(t[8].0)) by {
        assert(t[6].1 =~= seq!["cpp"@]);
        if t[6].1.contains(t[8].0) {
            assert(t[6].1[0] == t[8].0);
        }
    }
    assert(t[7].0 != t[8].0);
    assert(!t[7].1.contains(t[8].0)) by {
        assert(t[7].1 =~= seq!["c#"@]);
        if t[7].1.contains(t[8].0) {
            assert(t[7].1[0] == t[8].0);
        }
    }
    assert forall|k: int| 0 <= k < 8 implies t[k].0 != t[8].0 && !t[k].1.contains(t[8].0) by {
        assert(k == 0 || k == 1 || k == 2 || k == 3 || k == 4 || k == 5 || k == 6 || k == 7);
    }
}

proof fn lemma_lang_row_9()
    ensures
        row_resolves(lang_table(), 9),
{
    let t = lang_table();
    reveal_strlit("c");
    reveal_strlit("c#");
    reveal_strlit("c++");
    reveal_strlit("cpp");
    reveal_strlit("csharp");
    reveal_strlit("go");
    reveal_strlit("java");
    reveal_strlit("javascript");
    reveal_strlit("kotlin");
    reveal_strlit("python");
    reveal_strlit("rust");
    reveal_strlit("typescript");
    assert(ascii_lower_seq(t[9].0) =~= t[9].0);
    assert(t[0].0 != t[9].0);
    assert(t[0].1.len() == 0);
    assert(t[1].0[0] != t[9].0[0]);
    assert(t[1].0 != t[9].0);
    assert(t[1].1.len() == 0);
    assert(t[2].0 != t[9].0);
    assert(t[2].1.len() == 0);
    assert(t[3].0 != t[9].0);
    assert(t[3].1.len() == 0);
    assert(t[4].0 != t[9].0);
    assert(t[4].1.len() == 0);
    assert(t[5].0 != t[9].0);
    assert(t[5].1.len() == 0);
    assert(t[6].0 != t[9].0);
    assert(!t[6].1.contains(t[9].0)) by {
        assert(t[6].1 =~= seq!["cpp"@]);
        if t[6].1.contains(t[9].0) {
            assert(t[6].1[0] == t[9].0);
        }
    }
    assert(t[7].0[0] != t[9].0[0]);
    assert(t[7].0 != t[9].0);
    assert(!t[7].1.contains(t[9].0)) by {
        assert(t[7].1 =~= seq!["c#"@]);
        if t[7].1.contains(t[9].0) {
            assert(t[7].1[0] == t[9].0);
        }
    }
    assert(t[8].0 != t[9].0);
    assert(t[8].1.len() == 0);
    assert forall|k: int| 0 <= k < 9 implies t[k].0 != t[9].0 && !t[k].1.contains(t[9].0) by {
        assert(k == 0 || k == 1 || k == 2 || k == 3 || k == 4 || k == 5 || k == 6 || k == 7 || k == 8);
    }
}

proof fn lemma_lang_row_10()
    ensures
        row_resolves(lang_table(), 10),
{
    let t = lang_table();
    reveal_strlit("c");
    reveal_strlit("c#");
    reveal_strlit("c++");
    reveal_strlit("cpp");
    reveal_strlit("csharp");
    reveal_strlit("go");
    reveal_strlit("java");
    reveal_strlit("javascript");
    reveal_strlit("kotlin");
    reveal_strlit("python");
    reveal_strlit("ruby");
    reveal_strlit("rust");
    reveal_strlit("typescript");
    assert(ascii_lower_seq(t[10].0) =~= t[10].0);
    assert(t[0].0[2] != t[10].0[2]);
    assert(t[0].0 != t[10].0);
    assert(t[0].1.len() == 0);
    assert(t[1].0 != t[10].0);
    assert(t[1].1.len() == 0);
    assert(t[2].0 != t[10].0);
    assert(t[2].1.len() == 0);
    assert(t[3].0 != t[10].0);
    assert(t[3].1.len() == 0);
    assert(t[4].0 != t[10].0);
    assert(t[4].1.len() == 0);
    assert(t[5].0 != t[10].0);
    assert(t[5].1.len() == 0);
    assert(t[6].0 != t[10].0);
    assert(!t[6].1.contains(t[10].0)) by {
        assert(t[6].1 =~= seq!["cpp"@]);
        if t[6].1.contains(t[10].0) {
            assert(t[6].1[0] == t[10].0);
        }
    }
    assert(t[7].0 != t[10].0);
    assert(!t[7].1.contains(t[10].0)) by {
        assert(t[7].1 =~= seq!["c#"@]);
        if t[7].1.contains(t[10].0) {
            assert(t[7].1[0] == t[10].0);
        }
    }
    assert(t[8].0[0] != t[10].0[0]);
    assert(t[8].0 != t[10].0);
    assert(t[8].1.len() == 0);
    assert(t[9].0 != t[10].0);
    assert(t[9].1.len() == 0);
    assert forall|k: int| 0 <= k < 10 implies t[k].0 != t[10].0 && !t[k].1.contains(t[10].0) by {
        assert(k == 0 || k == 1 || k == 2 || k == 3 || k == 4 || k == 5 || k == 6 || k == 7 || k == 8 || k == 9);
    }
}

proof fn lemma_lang_row_11()
    ensures
        row_resolves(lang_table(), 11),
{
    let t = lang_table();
    reveal_strlit("c");
    reveal_strlit("c#");
    reveal_strlit("c++");
    reveal_strlit("cpp");
    reveal_strlit("csharp");
    reveal_strlit("go");
    reveal_strlit("java");
    reveal_strlit("javascript");
    reveal_strlit("kotlin");
    reveal_strlit("php");
    reveal_strlit("python");
    reveal_strlit("ruby");
    reveal_strlit("rust");
    reveal_strlit("typescript");
    assert(ascii_lower_seq(t[11].0) =~= t[11].0);
    assert(t[0].0 != t[11].0);
    assert(t[0].1.len() == 0);
    assert(t[1].0 != t[11].0);
    assert(t[1].1.len() == 0);
    assert(t[2].0 != t[11].0);
    assert(t[2].1.len() == 0);
    assert(t[3].0 != t[11].0);
    assert(t[3].1.len() == 0);
    assert(t[4].0 != t[11].0);
    assert(t[4].1.len() == 0);
    assert(t[5].0 != t[11].0);
    assert(t[5].1.len() == 0);
    assert(t[6].0[0] != t[11].0[0]);
    assert(t[6].0 != t[11].0);
    assert(!t[6].1.contains(t[11].0)) by {
        assert(t[6].1 =~= seq!["cpp"@]);
        if t[6].1.contains(t[11].0) {
            assert(t[6].1[0][0] != t[11].0[0]);
        }
    }
    assert(t[7].0 != t[11].0);
    assert(!t[7].1.contains(t[11].0)) by {
        assert(t[7].1 =~= seq!["c#"@]);
        if t[7].1.contains(t[11].0) {
            assert(t[7].1[0] == t[11].0);
        }
    }
    assert(t[8].0 != t[11].0);
    assert(t[8].1.len() == 0);
    assert(t[9].0 != t[11].0);
    assert(t[9].1.len() == 0);
    assert(t[10].0 != t[11].0);
    assert(t[10].1.len() == 0);
    assert forall|k: int| 0 <= k < 11 implies t[k].0 != t[11].0 && !t[k].1.contains(t[11].0) by {
        assert(k == 0 || k == 1 || k == 2 || k == 3 || k == 4 || k == 5 || k == 6 || k == 7 || k == 8 || k == 9 || k == 10);
    }
}

proof fn lemma_lang_row_12()
    ensures
        row_resolves(lang_table(), 12),
{
    let t = lang_table();
    reveal_strlit("c");
    reveal_strlit("c#");
    reveal_strlit("c++");
    reveal_strlit("cpp");
    reveal_strlit("csharp");
    reveal_strlit("go");
    reveal_strlit("java");
    reveal_strlit("javascript");
    reveal_strlit("kotlin");
    reveal_strlit("php");
    reveal_strlit("python");
    reveal_strlit("ruby");
    reveal_strlit("rust");
    reveal_strlit("swift");
    reveal_strlit("typescript");
    assert(ascii_lower_seq(t[12].0) =~= t[12].0);
    assert(t[0].0 != t[12].0);
    assert(t[0].1.len() == 0);
    assert(t[1].0 != t[12].0);
    assert(t[1].1.len() == 0);
    assert(t[2].0 != t[12].0);
    assert(t[2].1.len() == 0);
    assert(t[3].0 != t[12].0);
    assert(t[3].1.len() == 0);
    assert(t[4].0 != t[12].0);
    assert(t[4].1.len() == 0);
    assert(t[5].0 != t[12].0);
    assert(t[5].1.len() == 0);
    assert(t[6].0 != t[12].0);
    assert(!t[6].1.contains(t[12].0)) by {
        assert(t[6].1 =~= seq!["cpp"@]);
        if t[6].1.contains(t[12].0) {
            assert(t[6].1[0] == t[12].0);
        }
    }
    assert(t[7].0 != t[12].0);
    assert(!t[7].1.contains(t[12].0)) by {
        assert(t[7].1 =~= seq!["c#"@]);
        if t[7].1.contains(t[12].0) {
            assert(t[7].1[0] == t[12].0);
        }
    }
    assert(t[8].0 != t[12].0);
    assert(t[8].1.len() == 0);
    assert(t[9].0 != t[12].0);
    assert(t[9].1.len() == 0);
    assert(t[10].0 != t[12].0);
    assert(t[10].1.len() == 0);
    assert(t[11].0 != t[12].0);
    assert(t[11].1.len() == 0);
    assert forall|k: int| 0 <= k < 12 implies t[k].0 != t[12].0 && !t[k].1.contains(t[12].0) by {
        assert(k == 0 || k == 1 || k == 2 || k == 3 || k == 4 || k == 5 || k == 6 || k == 7 || k == 8 || k == 9 || k == 10 || k == 11);
    }
}

proof fn lemma_lang_row_13()
    ensures
        row_resolves(lang_table(), 13),
{
    let t = lang_table();
    reveal_strlit("c");
    reveal_strlit("c#");
    reveal_strlit("c++");
    reveal_strlit("cpp");
    reveal_strlit("csharp");
    reveal_strlit("go");
    reveal_strlit("java");
    reveal_strlit("javascript");
    reveal_strlit("kotlin");
    reveal_strlit("php");
    reveal_strlit("python");
    reveal_strlit("ruby");
    reveal_strlit("rust");
    reveal_strlit("shell");
    reveal_strlit("swift");
    reveal_strlit("typescript");
    assert(ascii_lower_seq(t[13].0) =~= t[13].0);
    assert(t[0].0 != t[13].0);
    assert(t[0].1.len() == 0);
    assert(t[1].0 != t[13].0);
    assert(t[1].1.len() == 0);
    assert(t[2].0 != t[13].0);
    assert(t[2].1.len() == 0);
    assert(t[3].0 != t[13].0);
    assert(t[3].1.len() == 0);
    assert(t[4].0 != t[13].0);
    assert(t[4].1.len() == 0);
    assert(t[5].0 != t[13].0);
    assert(t[5].1.len() == 0);
    assert(t[6].0 != t[13].0);
    assert(!t[6].1.contains(t[13].0)) by {
        assert(t[6].1 =~= seq!["cpp"@]);
        if t[6].1.contains(t[13].0) {
            assert(t[6].1[0] == t[13].0);
        }
    }
    assert(t[7].0 != t[13].0);
    assert(!t[7].1.contains(t[13].0)) by {
        assert(t[7].1 =~= seq!["c#"@]);
        if t[7].1.contains(t[13].0) {
            assert(t[7].1[0] == t[13].0);
        }
    }
    assert(t[8].0 != t[13].0);
    assert(t[8].1.len() == 0);
    assert(t[9].0 != t[13].0);
    assert(t[9].1.len() == 0);
    assert(t[10].0 != t[13].0);
    assert(t[10].1.len() == 0);
    assert(t[11].0 != t[13].0);
    assert(t[11].1.len() == 0);
    assert(t[12].0[1] != t[13].0[1]);
    assert(t[12].0 != t[13].0);
    assert(t[12].1.len() == 0);
    assert forall|k: int| 0 <= k < 13 implies t[k].0 != t[13].0 && !t[k].1.contains(t[13].0) by {
        assert(k == 0 || k == 1 || k == 2 || k == 3 || k == 4 || k == 5 || k == 6 || k == 7 || k == 8 || k == 9 || k == 10 || k == 11 || k == 12);
    }
}

proof fn lemma_lang_row_14()
    ensures
        row_resolves(lang_table(), 14),
{
    let t = lang_table();
    reveal_strlit("bash");
    reveal_strlit("c");
    reveal_strlit("c#");
    reveal_strlit("c++");
    reveal_strlit("cpp");
    reveal_strlit("csharp");
    reveal_strlit("go");
    reveal_strlit("java");
    reveal_strlit("javascript");
    reveal_strlit("kotlin");
    reveal_strlit("php");
    reveal_strlit("python");
    reveal_strlit("ruby");
    reveal_strlit("rust");
    reveal_strlit("shell");
    reveal_strlit("swift");
    reveal_strlit("toml");
    reveal_strlit("typescript");
    assert(ascii_lower_seq(t[14].0) =~= t[14].0);
    assert(t[0].0[0] != t[14].0[0]);
    assert(t[0].0 != t[14].0);
    assert(t[0].1.len() == 0);
    assert(t[1].0 != t[14].0);
    assert(t[1].1.len() == 0);
    assert(t[2].0 != t[14].0);
    assert(t[2].1.len() == 0);
    assert(t[3].0 != t[14].0);
    assert(t[3].1.len() == 0);
    assert(t[4].0 != t[14].0);
    assert(t[4].1.len() == 0);
    assert(t[5].0 != t[14].0);
    assert(t[5].1.len() == 0);
    assert(t[6].0 != t[14].0);
    assert(!t[6].1.contains(t[14].0)) by {
        assert(t[6].1 =~= seq!["cpp"@]);
        if t[6].1.contains(t[14].0) {
            assert(t[6].1[0] == t[14].0);
        }
    }
    assert(t[7].0 != t[14].0);
    assert(!t[7].1.contains(t[14].0)) by {
        assert(t[7].1 =~= seq!["c#"@]);
        if t[7].1.contains(t[14].0) {
            assert(t[7].1[0] == t[14].0);
        }
    }
    assert(t[8].0[0] != t[14].0[0]);
    assert(t[8].0 != t[14].0);
    assert(t[8].1.len() == 0);
    assert(t[9].0 != t[14].0);
    assert(t[9].1.len() == 0);
    assert(t[10].0[0] != t[14].0[0]);
    assert(t[10].0 != t[14].0);
    assert(t[10].1.len() == 0);
    assert(t[11].0 != t[14].0);
    assert(t[11].1.len() == 0);
    assert(t[12].0 != t[14].0);
    assert(t[12].1.len() == 0);
    assert(t[13].0 != t[14].0);
    assert(!t[13].1.contains(t[14].0)) by {
        assert(t[13].1 =~= seq!["bash"@]);
        if t[13].1.contains(t[14].0) {
            assert(t[13].1[0][0] != t[14].0[0]);
        }
    }
    assert forall|k: int| 0 <= k < 14 implies t[k].0 != t[14].0 && !t[k].1.contains(t[14].0) by {
        assert(k == 0 || k == 1 || k == 2 || k == 3 || k == 4 || k == 5 || k == 6 || k == 7 || k == 8 || k == 9 || k == 10 || k == 11 || k == 12 || k == 13);
    }
}

proof fn lemma_lang_row_15()
    ensures
        row_resolves(lang_table(), 15),
{
    let t = lang_table();
    reveal_strlit("bash");
    reveal_strlit("c");
    reveal_strlit("c#");
    reveal_strlit("c++");
    reveal_strlit("cpp");
    reveal_strlit("csharp");
    reveal_strlit("go");
    reveal_strlit("java");
    reveal_strlit("javascript");
    reveal_strlit("kotlin");
    reveal_strlit("php");
    reveal_strlit("python");
    reveal_strlit("ruby");
    reveal_strlit("rust");
    reveal_strlit("shell");
    reveal_strlit("swift");
    reveal_strlit("toml");
    reveal_strlit("typescript");
    reveal_strlit("yaml");
    assert(ascii_lower_seq(t[15].0) =~= t[15].0);
    assert(t[0].0[0] != t[15].0[0]);
    assert(t[0].0 != t[15].0);
    assert(t[0].1.len() == 0);
    assert(t[1].0 != t[15].0);
    assert(t[1].1.len() == 0);
    assert(t[2].0 != t[15].0);
    assert(t[2].1.len() == 0);
    assert(t[3].0 != t[15].0);
    assert(t[3].1.len() == 0);
    assert(t[4].0 != t[15].0);
    assert(t[4].1.len() == 0);
    assert(t[5].0 != t[15].0);
    assert(t[5].1.len() == 0);
    assert(t[6].0 != t[15].0);
    assert(!t[6].1.contains(t[15].0)) by {
        assert(t[6].1 =~= seq!["cpp"@]);
        if t[6].1.contains(t[15].0) {
            assert(t[6].1[0] == t[15].0);
        }
    }
    assert(t[7].0 != t[15].0);
    assert(!t[7].1.contains(t[15].0)) by {
        assert(t[7].1 =~= seq!["c#"@]);
        if t[7].1.contains(t[15].0) {
            assert(t[7].1[0] == t[15].0);
        }
    }
    assert(t[8].0[0] != t[15].0[0]);
    assert(t[8].0 != t[15].0);
    assert(t[8].1.len() == 0);
    assert(t[9].0 != t[15].0);
    assert(t[9].1.len() == 0);
    assert(t[10].0[0] != t[15].0[0]);
    assert(t[10].0 != t[15].0);
    assert(t[10].1.len() == 0);
    assert(t[11].0 != t[15].0);
    assert(t[11].1.len() == 0);
    assert(t[12].0 != t[15].0);
    assert(t[12].1.len() == 0);
    assert(t[13].0 != t[15].0);
    assert(!t[13].1.contains(t[15].0)) by {
        assert(t[13].1 =~= seq!["bash"@]);
        if t[13].1.contains(t[15].0) {
            assert(t[13].1[0][0] != t[15].0[0]);
        }
    }
    assert(t[14].0[0] != t[15].0[0]);
    assert(t[14].0 != t[15].0);
    assert(t[14].1.len() == 0);
    assert forall|k: int| 0 <= k < 15 implies t[k].0 != t[15].0 && !t[k].1.contains(t[15].0) by {
        assert(k == 0 || k == 1 || k == 2 || k == 3 || k == 4 || k == 5 || k == 6 || k == 7 || k == 8 || k == 9 || k == 10 || k == 11 || k == 12 || k == 13 || k == 14);
    }
}

proof fn lemma_lang_row_16()
    ensures
        row_resolves(lang_table(), 16),
{
    let t = lang_table();
    reveal_strlit("bash");
    reveal_strlit("c");
    reveal_strlit("c#");
    reveal_strlit("c++");
    reveal_strlit("cpp");
    reveal_strlit("csharp");
    reveal_strlit("go");
    reveal_strlit("java");
    reveal_strlit("javascript");
    reveal_strlit("json");
    reveal_strlit("kotlin");
    reveal_strlit("php");
    reveal_strlit("python");
    reveal_strlit("ruby");
    reveal_strlit("rust");
    reveal_strlit("shell");
    reveal_strlit("swift");
    reveal_strlit("toml");
    reveal_strlit("typescript");
    reveal_strlit("yaml");
    assert(ascii_lower_seq(t[16].0) =~= t[16].0);
    assert(t[0].0[0] != t[16].0[0]);
    assert(t[0].0 != t[16].0);
    assert(t[0].1.len() == 0);
    assert(t[1].0 != t[16].0);
    assert(t[1].1.len() == 0);
    assert(t[2].0 != t[16].0);
    assert(t[2].1.len() == 0);
    assert(t[3].0 != t[16].0);
    assert(t[3].1.len() == 0);
    assert(t[4].0 != t[16].0);
    assert(t[4].1.len() == 0);
    assert(t[5].0 != t[16].0);
    assert(t[5].1.len() == 0);
    assert(t[6].0 != t[16].0);
    assert(!t[6].1.contains(t[16].0)) by {
        assert(t[6].1 =~= seq!["cpp"@]);
        if t[6].1.contains(t[16].0) {
            assert(t[6].1[0] == t[16].0);
        }
    }
    assert(t[7].0 != t[16].0);
    assert(!t[7].1.contains(t[16].0)) by {
        assert(t[7].1 =~= seq!["c#"@]);
        if t[7].1.contains(t[16].0) {
            assert(t[7].1[0] == t[16].0);
        }
    }
    assert(t[8].0[1] != t[16].0[1]);
    assert(t[8].0 != t[16].0);
    assert(t[8].1.len() == 0);
    assert(t[9].0 != t[16].0);
    assert(t[9].1.len() == 0);
    assert(t[10].0[0] != t[16].0[0]);
    assert(t[10].0 != t[16].0);
    assert(t[10].1.len() == 0);
    assert(t[11].0 != t[16].0);
    assert(t[11].1.len() == 0);
    assert(t[12].0 != t[16].0);
    assert(t[12].1.len() == 0);
    assert(t[13].0 != t[16].0);
    assert(!t[13].1.contains(t[16].0)) by {
        assert(t[13].1 =~= seq!["bash"@]);
        if t[13].1.contains(t[16].0) {
            assert(t[13].1[0][0] != t[16].0[0]);
        }
    }
    assert(t[14].0[0] != t[16].0[0]);
    assert(t[14].0 != t[16].0);
    assert(t[14].1.len() == 0);
    assert(t[15].0[0] != t[16].0[0]);
    assert(t[15].0 != t[16].0);
    assert(t[15].1.len() == 0);
    assert forall|k: int| 0 <= k < 16 implies t[k].0 != t[16].0 && !t[k].1.contains(t[16].0) by {
        assert(k == 0 || k == 1 || k == 2 || k == 3 || k == 4 || k == 5 || k == 6 || k == 7 || k == 8 || k == 9 || k == 10 || k == 11 || k == 12 || k == 13 || k == 14 || k == 15);
    }
}

proof fn lemma_lang_row_17()
    ensures
        row_resolves(lang_table(), 17),
{
    let t = lang_table();
    reveal_strlit("bash");
    reveal_strlit("c");
    reveal_strlit("c#");
    reveal_strlit("c++");
    reveal_strlit("cpp");
    reveal_strlit("csharp");
    reveal_strlit("go");
    reveal_strlit("java");
    reveal_strlit("javascript");
    reveal_strlit("json");
    reveal_strlit("kotlin");
    reveal_strlit("markdown");
    reveal_strlit("php");
    reveal_strlit("python");
    reveal_strlit("ruby");
    reveal_strlit("rust");
    reveal_strlit("shell");
    reveal_strlit("swift");
    reveal_strlit("toml");
    reveal_strlit("typescript");
    reveal_strlit("yaml");
    assert(ascii_lower_seq(t[17].0) =~= t[17].0);
    assert(t[0].0 != t[17].0);
    assert(t[0].1.len() == 0);
    assert(t[1].0 != t[17].0);
    assert(t[1].1.len() == 0);
    assert(t[2].0 != t[17].0);
    assert(t[2].1.len() == 0);
    assert(t[3].0 != t[17].0);
    assert(t[3].1.len() == 0);
    assert(t[4].0 != t[17].0);
    assert(t[4].1.len() == 0);
    assert(t[5].0 != t[17].0);
    assert(t[5].1.len() == 0);
    assert(t[6].0 != t[17].0);
    assert(!t[6].1.contains(t[17].0)) by {
        assert(t[6].1 =~= seq!["cpp"@]);
        if t[6].1.contains(t[17].0) {
            assert(t[6].1[0] == t[17].0);
        }
    }
    assert(t[7].0 != t[17].0);
    assert(!t[7].1.contains(t[17].0)) by {
        assert(t[7].1 =~= seq!["c#"@]);
        if t[7].1.contains(t[17].0) {
            assert(t[7].1[0] == t[17].0);
        }
    }
    assert(t[8].0 != t[17].0);
    assert(t[8].1.len() == 0);
    assert(t[9].0 != t[17].0);
    assert(t[9].1.len() == 0);
    assert(t[10].0 != t[17].0);
    assert(t[10].1.len() == 0);
    assert(t[11].0 != t[17].0);
    assert(t[11].1.len() == 0);
    assert(t[12].0 != t[17].0);
    assert(t[12].1.len() == 0);
    assert(t[13].0 != t[17].0);
    assert(!t[13].1.contains(t[17].0)) by {
        assert(t[13].1 =~= seq!["bash"@]);
        if t[13].1.contains(t[17].0) {
            assert(t[13].1[0] == t[17].0);
        }
    }
    assert(t[14].0 != t[17].0);
    assert(t[14].1.len() == 0);
    assert(t[15].0 != t[17].0);
    assert(t[15].1.len() == 0);
    assert(t[16].0 != t[17].0);
    assert(t[16].1.len() == 0);
    assert forall|k: int| 0 <= k < 17 implies t[k].0 != t[17].0 && !t[k].1.contains(t[17].0) by {
        assert(k == 0 || k == 1 || k == 2 || k == 3 || k == 4 || k == 5 || k == 6 || k == 7 || k == 8 || k == 9 || k == 10 || k == 11 || k == 12 || k == 13 || k == 14 || k == 15 || k == 16);
    }
}

proof fn lemma_lang_row_18()
    ensures
        row_resolves(lang_table(), 18),
{
    let t = lang_table();
    reveal_strlit("bash");
    reveal_strlit("c");
    reveal_strlit("c#");
    reveal_strlit("c++");
    reveal_strlit("cpp");
    reveal_strlit("csharp");
    reveal_strlit("go");
    reveal_strlit("html");
    reveal_strlit("java");
    reveal_strlit("javascript");
    reveal_strlit("json");
    reveal_strlit("kotlin");
    reveal_strlit("markdown");
    reveal_strlit("php");
    reveal_strlit("python");
    reveal_strlit("ruby");
    reveal_strlit("rust");
    reveal_strlit("shell");
    reveal_strlit("swift");
    reveal_strlit("toml");
    reveal_strlit("typescript");
    reveal_strlit("yaml");
    assert(ascii_lower_seq(t[18].0) =~= t[18].0);
    assert(t[0].0[0] != t[18].0[0]);
    assert(t[0].0 != t[18].0);
    assert(t[0].1.len() == 0);
    assert(t[1].0 != t[18].0);
    assert(t[1].1.len() == 0);
    assert(t[2].0 != t[18].0);
    assert(t[2].1.len() == 0);
    assert(t[3].0 != t[18].0);
    assert(t[3].1.len() == 0);
    assert(t[4].0 != t[18].0);
    assert(t[4].1.len() == 0);
    assert(t[5].0 != t[18].0);
    assert(t[5].1.len() == 0);
    assert(t[6].0 != t[18].0);
    assert(!t[6].1.contains(t[18].0)) by {
        assert(t[6].1 =~= seq!["cpp"@]);
        if t[6].1.contains(t[18].0) {
            assert(t[6].1[0] == t[18].0);
        }
    }
    assert(t[7].0 != t[18].0);
    assert(!t[7].1.contains(t[18].0)) by {
        assert(t[7].1 =~= seq!["c#"@]);
        if t[7].1.contains(t[18].0) {
            assert(t[7].1[0] == t[18].0);
        }
    }
    assert(t[8].0[0] != t[18].0[0]);
    assert(t[8].0 != t[18].0);
    assert(t[8].1.len() == 0);
    assert(t[9].0 != t[18].0);
    assert(t[9].1.len() == 0);
    assert(t[10].0[0] != t[18].0[0]);
    assert(t[10].0 != t[18].0);
    assert(t[10].1.len() == 0);
    assert(t[11].0 != t[18].0);
    assert(t[11].1.len() == 0);
    assert(t[12].0 != t[18].0);
    assert(t[12].1.len() == 0);
    assert(t[13].0 != t[18].0);
    assert(!t[13].1.contains(t[18].0)) by {
        assert(t[13].1 =~= seq!["bash"@]);
        if t[13].1.contains(t[18].0) {
            assert(t[13].1[0][0] != t[18].0[0]);
        }
    }
    assert(t[14].0[0] != t[18].0[0]);
    assert(t[14].0 != t[18].0);
    assert(t[14].1.len() == 0);
    assert(t[15].0[0] != t[18].0[0]);
    assert(t[15].0 != t[18].0);
    assert(t[15].1.len() == 0);
    assert(t[16].0[0] != t[18].0[0]);
    assert(t[16].0 != t[18].0);
    assert(t[16].1.len() == 0);
    assert(t[17].0 != t[18].0);
    assert(t[17].1.len() == 0);
    assert forall|k: int| 0 <= k < 18 implies t[k].0 != t[18].0 && !t[k].1.contains(t[18].0) by {
        assert(k == 0 || k == 1 || k == 2 || k == 3 || k == 4 || k == 5 || k == 6 || k == 7 || k == 8 || k == 9 || k == 10 || k == 11 || k == 12 || k == 13 || k == 14 || k == 15 || k == 16 || k == 17);
    }
}

proof fn lemma_lang_row_19()
    ensures
        row_resolves(lang_table(), 19),
{
    let t = lang_table();
    reveal_strlit("bash");
    reveal_strlit("c");
    reveal_strlit("c#");
    reveal_strlit("c++");
    reveal_strlit("cpp");
    reveal_strlit("csharp");
    reveal_strlit("css");
    reveal_strlit("go");
    reveal_strlit("html");
    reveal_strlit("java");
    reveal_strlit("javascript");
    reveal_strlit("json");
    reveal_strlit("kotlin");
    reveal_strlit("markdown");
    reveal_strlit("php");
    reveal_strlit("python");
    reveal_strlit("ruby");
    reveal_strlit("rust");
    reveal_strlit("shell");
    reveal_strlit("swift");
    reveal_strlit("toml");
    reveal_strlit("typescript");
    reveal_strlit("yaml");
    assert(ascii_lower_seq(t[19].0) =~= t[19].0);
    assert(t[0].0 != t[19].0);
    assert(t[0].1.len() == 0);
    assert(t[1].0 != t[19].0);
    assert(t[1].1.len() == 0);
    assert(t[2].0 != t[19].0);
    assert(t[2].1.len() == 0);
    assert(t[3].0 != t[19].0);
    assert(t[3].1.len() == 0);
    assert(t[4].0 != t[19].0);
    assert(t[4].1.len() == 0);
    assert(t[5].0 != t[19].0);
    assert(t[5].1.len() == 0);
    assert(t[6].0[1] != t[19].0[1]);
    assert(t[6].0 != t[19].0);
    assert(!t[6].1.contains(t[19].0)) by {
        assert(t[6].1 =~= seq!["cpp"@]);
        if t[6].1.contains(t[19].0) {
            assert(t[6].1[0][1] != t[19].0[1]);
        }
    }
    assert(t[7].0 != t[19].0);
    assert(!t[7].1.contains(t[19].0)) by {
        assert(t[7].1 =~= seq!["c#"@]);
        if t[7].1.contains(t[19].0) {
            assert(t[7].1[0] == t[19].0);
        }
    }
    assert(t[8].0 != t[19].0);
    assert(t[8].1.len() == 0);
    assert(t[9].0 != t[19].0);
    assert(t[9].1.len() == 0);
    assert(t[10].0 != t[19].0);
    assert(t[10].1.len() == 0);
    assert(t[11].0[0] != t[19].0[0]);
    assert(t[11].0 != t[19].0);
    assert(t[11].1.len() == 0);
    assert(t[12].0 != t[19].0);
    assert(t[12].1.len() == 0);
    assert(t[13].0 != t[19].0);
    assert(!t[13].1.contains(t[19].0)) by {
        assert(t[13].1 =~= seq!["bash"@]);
        if t[13].1.contains(t[19].0) {
            assert(t[13].1[0] == t[19].0);
        }
    }
    assert(t[14].0 != t[19].0);
    assert(t[14].1.len() == 0);
    assert(t[15].0 != t[19].0);
    assert(t[15].1.len() == 0);
    assert(t[16].0 != t[19].0);
    assert(t[16].1.len() == 0);
    assert(t[17].0 != t[19].0);
    assert(t[17].1.len() == 0);
    assert(t[18].0 != t[19].0);
    assert(t[18].1.len() == 0);
    assert forall|k: int| 0 <= k < 19 implies t[k].0 != t[19].0 && !t[k].1.contains(t[19].0) by {
        assert(k == 0 || k == 1 || k == 2 || k == 3 || k == 4 || k == 5 || k == 6 || k == 7 || k == 8 || k == 9 || k == 10 || k == 11 || k == 12 || k == 13 || k == 14 || k == 15 || k == 16 || k == 17 || k == 18);
    }
}

proof fn lemma_lang_table_names_resolve()
    ensures
        names_resolve(lang_table()),
{
    lemma_lang_row_0();
    lemma_lang_row_1();
    lemma_lang_row_2();
    lemma_lang_row_3();
    lemma_lang_row_4();
    lemma_lang_row_5();
    lemma_lang_row_6();
    lemma_lang_row_7();
    lemma_lang_row_8();
    lemma_lang_row_9();
    lemma_lang_row_10();
    lemma_lang_row_11();
    lemma_lang_row_12();
    lemma_lang_row_13();
    lemma_lang_row_14();
    lemma_lang_row_15();
    lemma_lang_row_16();
    lemma_lang_row_17();
    lemma_lang_row_18();
    lemma_lang_row_19();
    assert forall|j: int| 0 <= j < lang_table().len() implies #[trigger] row_resolves(lang_table(), j) by {
        assert(lang_table().len() == 20);
        if j == 0 {
        } else if j == 1 {
        } else if j == 2 {
        } else if j == 3 {
        } else if j == 4 {
        } else if j == 5 {
        } else if j == 6 {
        } else if j == 7 {
        } else if j == 8 {
        } else if j == 9 {
        } else if j == 10 {
        } else if j == 11 {
        } else if j == 12 {
        } else if j == 13 {
        } else if j == 14 {
        } else if j == 15 {
        } else if j == 16 {
        } else if j == 17 {
        } else if j == 18 {
        } else if j == 19 {
        }
    }
}

/// The extension table reads both ways: every extension the table
/// lists resolves to a language whose extensions list it again.
pub proof fn lemma_ext_lang_round_trip(i: int, k: int)
    requires
        0 <= i < lang_table().len(),
        0 <= k < lang_table()[i].2.len(),
    ensures
        spec_ext_lang(lang_table()[i].2[k]) matches Some(n) && (spec_lang_exts(n) matches Some(xs) && xs.contains(
            lang_table()[i].2[k],
        )),
{
    let t = lang_table();
    let e = t[i].2[k];
    assert(t[i].2.contains(e));
    lemma_find_ext_some(t, e, 0, i);
    let j = lemma_find_ext_row(t, e, 0);
    lemma_lang_table_names_resolve();
    assert(row_resolves(t, j));
    lemma_find_lang_row(t, t[j].0, 0, j);
}

fn strs_contain(list: &[&'static str], x: &[char]) -> (b: bool)
    ensures
        b == strs_view(list@).contains(x@),
{
    let mut i: usize = 0;
    while i < list.len()
        invariant
            i <= list@.len(),
            forall|k: int| 0 <= k < i ==> strs_view(list@)[k] != x@,
        decreases list.len() - i,
    {
        let item = chars_of(list[i]);
        if eq_chars(item.as_slice(), x) {
            assert(strs_view(list@)[i as int] == x@);
            return true;
        }
        i += 1;
    }
    assert forall|k: int| 0 <= k < strs_view(list@).len() implies strs_view(list@)[k] != x@ by {}
    false
}

/// Linguist-ish extension map for `language:` — small and static on
/// purpose. Unknown languages resolve to `None`.
pub fn lang_exts(lang: &str) -> (r: Option<&'static [&'static str]>)
    ensures
        match r {
            Some(e) => spec_lang_exts(lang@) == Some(strs_view(e@)),
            None => spec_lang_exts(lang@) is None,
        },
{
    let lower = ascii_lower_chars(chars_of(lang).as_slice());
    let rows = lang_rows();
    let ghost t = lang_table();
    let mut i: usize = 0;
    while i < rows.len()
        invariant
            i <= rows@.len(),
            rows@.map_values(|r: LangRow| row_view(r)) == t,
            t == lang_table(),
            lower@ == ascii_lower_seq(lang@),
            find_lang(t, lower@, i as int) == spec_lang_exts(lang@),
        decreases rows.len() - i,
    {
        let row = &rows[i];
        assert(row_view(*row) == t[i as int]);
        let name = chars_of(row.name);
        if eq_chars(name.as_slice(), lower.as_slice()) || strs_contain(row.aliases, lower.as_slice()) {
            return Some(row.exts);
        }
        i += 1;
    }
    None
}

/// Reverse lookup: extension → canonical language name, over the same
/// table as `lang_exts`.
pub fn ext_lang(ext: &str) -> (r: Option<&'static str>)
    ensures
        match r {
            Some(n) => spec_ext_lang(ext@) == Some(n@),
            None => spec_ext_lang(ext@) is None,
        },
{
    let e = chars_of(ext);
    let rows = lang_rows();
    let ghost t = lang_table();
    let mut i: usize = 0;
    while i < rows.len()
        invariant
            i <= rows@.len(),
            rows@.map_values(|r: LangRow| row_view(r)) == t,
            t == lang_table(),
            e@ == ext@,
            find_ext(t, e@, i as int) == spec_ext_lang(ext@),
        decreases rows.len() - i,
    {
        let row = &rows[i];
        assert(row_view(*row) == t[i as int]);
        if strs_contain(row.exts, e.as_slice()) {
            return Some(row.name);
        }
        i += 1;
    }
    None
}

/// A path's extension as the filters compare it: the text after the
/// last `.`, lowercased.
pub open spec fn spec_path_ext(path: Seq<char>) -> Seq<char> {
    lowercase(crate::text::after_last(path, '.'))
}

/// The lowercased text after the last `.` of `path`.
pub fn path_ext(path: &str) -> (r: String)
    ensures
        r@ == spec_path_ext(path@),
{
    let p = chars_of(path);
    let tail = string_of(crate::text::after_last_char(p.as_slice(), '.').as_slice());
    crate::text::to_lowercase(tail.as_str())
}

/// Whether `path` is in language `lang`: `None` without a language or
/// for a language the table doesn't know.
pub open spec fn spec_lang_matches(lang: Option<Seq<char>>, path: Seq<char>) -> Option<bool> {
    match lang {
        None => None,
        Some(l) => match spec_lang_exts(l) {
            None => None,
            Some(exts) => Some(exts.contains(spec_path_ext(path))),
        },
    }
}

/// Does `path` belong to the language filter?
pub fn lang_matches(lang: &Option<String>, path: &str) -> (r: Option<bool>)
    ensures
        r == spec_lang_matches(opt_view(*lang), path@),
{
    let l = match lang {
        Some(l) => l,
        None => return None,
    };
    let exts = match lang_exts(l.as_str()) {
        Some(e) => e,
        None => return None,
    };
    let ext = path_ext(path);
    let e = chars_of(ext.as_str());
    Some(strs_contain(exts, e.as_slice()))
}

/// The honesty chip: unknown qualifiers, then `language:` values with
/// no table entry.
pub open spec fn spec_unexpressible(g: GrammarView) -> Seq<Seq<char>> {
    let a = g.unknown;
    let b = match g.language {
        Some(l) => if spec_lang_exts(l) is None {
            a.push("language:"@ + l)
        } else {
            a
        },
        None => a,
    };
    match g.negated_language {
        Some(l) => if spec_lang_exts(l) is None {
            b.push("-language:"@ + l)
        } else {
            b
        },
        None => b,
    }
}

fn prefixed(p: &str, s: &str) -> (r: String)
    ensures
        r@ == p@ + s@,
{
    let mut r = p.to_owned();
    crate::text::push_str(&mut r, s);
    r
}

/// Tokens nothing could apply anywhere — the title's honesty chip.
pub fn unexpressible(g: &Grammar) -> (r: Vec<String>)
    ensures
        views(r@) == spec_unexpressible(g@),
{
    let mut out = clone_strings(&g.unknown);
    if let Some(lang) = &g.language {
        if lang_exts(lang.as_str()).is_none() {
            let ghost before = out@;
            out.push(prefixed("language:", lang.as_str()));
            assert(views(out@) =~= views(before).push("language:"@ + lang@));
        }
    }
    if let Some(lang) = &g.negated_language {
        if lang_exts(lang.as_str()).is_none() {
            let ghost before = out@;
            out.push(prefixed("-language:", lang.as_str()));
            assert(views(out@) =~= views(before).push("-language:"@ + lang@));
        }
    }
    out
}

/// A hit survives the client-side subtraction: no negated needle in
/// its lowercased path or preview lines, the language filter (when it
/// resolves) holds, and the negated language (when it resolves) doesn't.
pub open spec fn hit_kept(g: GrammarView, path: Seq<char>, preview: Seq<Seq<char>>) -> bool {
    &&& forall|k: int|
        0 <= k < g.negated.len() ==> !negated_hit(g.negated[k], path, preview)
    &&& spec_lang_matches(g.language, path) != Some(false)
    &&& spec_lang_matches(g.negated_language, path) != Some(true)
}

/// A negated needle occurs in the lowercased path or a lowercased
/// preview line.
pub open spec fn negated_hit(needle: Seq<char>, path: Seq<char>, preview: Seq<Seq<char>>) -> bool {
    has_sub(lowercase(path), needle) || exists|j: int|
        0 <= j < preview.len() && has_sub(lowercase(#[trigger] preview[j]), needle)
}

pub open spec fn keep_pred(g: GrammarView) -> spec_fn(RawHit) -> bool {
    |h: RawHit| hit_kept(g, h.path@, preview_texts(h.preview@))
}

fn negated_matches(needle: &[char], path_lower: &[char], preview: &Vec<(u32, String)>) -> (b: bool)
    requires
        exists|p: Seq<char>| path_lower@ == lowercase(p),
    ensures
        forall|p: Seq<char>| path_lower@ == lowercase(p) ==> b == negated_hit(needle@, p, preview_texts(preview@)),
{
    if contains(path_lower, needle) {
        return true;
    }
    let mut j: usize = 0;
    while j < preview.len()
        invariant
            j <= preview@.len(),
            forall|m: int| 0 <= m < j ==> !has_sub(lowercase(#[trigger] preview_texts(preview@)[m]), needle@),
        decreases preview.len() - j,
    {
        let line = lower_chars(preview[j].1.as_str());
        if contains(line.as_slice(), needle) {
            assert(has_sub(lowercase(preview_texts(preview@)[j as int]), needle@));
            return true;
        }
        j += 1;
    }
    false
}

/// Should the hit stay?
fn keep_hit(g: &Grammar, hit: &RawHit) -> (b: bool)
    ensures
        b == hit_kept(g@, hit.path@, preview_texts(hit.preview@)),
{
    let path = lower_chars(hit.path.as_str());
    let mut k: usize = 0;
    while k < g.negated.len()
        invariant
            k <= g.negated@.len(),
            path@ == lowercase(hit.path@),
            forall|m: int| 0 <= m < k ==> !negated_hit(#[trigger] g@.negated[m], hit.path@, preview_texts(hit.preview@)),
        decreases g.negated.len() - k,
    {
        let needle = chars_of(g.negated[k].as_str());
        if negated_matches(needle.as_slice(), path.as_slice(), &hit.preview) {
            assert(negated_hit(g@.negated[k as int], hit.path@, preview_texts(hit.preview@)));
            return false;
        }
        k += 1;
    }
    if let Some(false) = lang_matches(&g.language, hit.path.as_str()) {
        return false;
    }
    if let Some(true) = lang_matches(&g.negated_language, hit.path.as_str()) {
        return false;
    }
    true
}

/// A grammar with nothing to subtract (no negated term, no language
/// filter either way) keeps every hit, in order.
pub proof fn lemma_nothing_to_subtract_keeps_all(g: GrammarView, hits: Seq<RawHit>)
    requires
        g.negated.len() == 0,
        g.language is None,
        g.negated_language is None,
    ensures
        hits.filter(keep_pred(g)) == hits,
{
    assert forall|i: int| 0 <= i < hits.len() implies #[trigger] keep_pred(g)(hits[i]) by {}
    crate::text::lemma_filter_keeps_all(hits, keep_pred(g));
}

/// The client-side subtraction honours the query: no kept hit holds a
/// negated term in its lowercased path or in a lowercased preview line;
/// a kept hit's extension (the lowercased text after the last `.` of its
/// path) is one of the query language's extensions when that language
/// is in the table, and none of the negated language's when that one
/// is; and a hit against which none of this holds is kept. Whatever is
/// not kept is what the subtraction counts as dropped.
pub proof fn lemma_subtraction_honours_the_query(g: GrammarView, hits: Seq<RawHit>)
    ensures
        forall|i: int|
            0 <= i < hits.filter(keep_pred(g)).len() ==> {
                let h = #[trigger] hits.filter(keep_pred(g))[i];
                let ext = lowercase(crate::text::after_last(h.path@, '.'));
                &&& forall|k: int|
                    0 <= k < g.negated.len() ==> !has_sub(lowercase(h.path@), #[trigger] g.negated[k])
                &&& forall|k: int, j: int|
                    0 <= k < g.negated.len() && 0 <= j < h.preview@.len() ==> !has_sub(
                        lowercase(#[trigger] h.preview@[j].1@),
                        #[trigger] g.negated[k],
                    )
                &&& (g.language matches Some(l) ==> (spec_lang_exts(l) matches Some(exts) ==> exts.contains(ext)))
                &&& (g.negated_language matches Some(l) ==> (spec_lang_exts(l) matches Some(exts) ==> !exts.contains(
                    ext,
                )))
            },
        forall|i: int|
            0 <= i < hits.len() && (forall|k: int|
                0 <= k < g.negated.len() ==> !has_sub(lowercase(hits[i].path@), #[trigger] g.negated[k])) && (forall|
                k: int,
                j: int,
            |
                0 <= k < g.negated.len() && 0 <= j < hits[i].preview@.len() ==> !has_sub(
                    lowercase(#[trigger] hits[i].preview@[j].1@),
                    #[trigger] g.negated[k],
                )) && (g.language matches Some(l) ==> (spec_lang_exts(l) matches Some(exts) ==> exts.contains(
                lowercase(crate::text::after_last(hits[i].path@, '.')),
            ))) && (g.negated_language matches Some(l) ==> (spec_lang_exts(l) matches Some(exts) ==> !exts.contains(
                lowercase(crate::text::after_last(hits[i].path@, '.')),
            ))) ==> #[trigger] hits.filter(keep_pred(g)).contains(hits[i]),
        hits.filter(keep_pred(g)).len() <= hits.len(),
{
    broadcast use vstd::seq_lib::group_filter_ensures;

    let f = hits.filter(keep_pred(g));
    assert forall|i: int| 0 <= i < f.len() implies {
        let h = #[trigger] f[i];
        let ext = lowercase(crate::text::after_last(h.path@, '.'));
        &&& forall|k: int| 0 <= k < g.negated.len() ==> !has_sub(lowercase(h.path@), #[trigger] g.negated[k])
        &&& forall|k: int, j: int|
            0 <= k < g.negated.len() && 0 <= j < h.preview@.len() ==> !has_sub(
                lowercase(#[trigger] h.preview@[j].1@),
                #[trigger] g.negated[k],
            )
        &&& (g.language matches Some(l) ==> (spec_lang_exts(l) matches Some(exts) ==> exts.contains(ext)))
        &&& (g.negated_language matches Some(l) ==> (spec_lang_exts(l) matches Some(exts) ==> !exts.contains(ext)))
    } by {
        let h = f[i];
        assert(keep_pred(g)(h));
        assert forall|k: int, j: int|
            0 <= k < g.negated.len() && 0 <= j < h.preview@.len() implies !has_sub(
            lowercase(#[trigger] h.preview@[j].1@),
            #[trigger] g.negated[k],
        ) by {
            assert(!negated_hit(g.negated[k], h.path@, preview_texts(h.preview@)));
            assert(preview_texts(h.preview@)[j] == h.preview@[j].1@);
        }
        assert forall|k: int| 0 <= k < g.negated.len() implies !has_sub(lowercase(h.path@), #[trigger] g.negated[k]) by {
            assert(!negated_hit(g.negated[k], h.path@, preview_texts(h.preview@)));
        }
    }
    assert forall|i: int|
        0 <= i < hits.len() && (forall|k: int|
            0 <= k < g.negated.len() ==> !has_sub(lowercase(hits[i].path@), #[trigger] g.negated[k])) && (forall|
            k: int,
            j: int,
        |
            0 <= k < g.negated.len() && 0 <= j < hits[i].preview@.len() ==> !has_sub(
                lowercase(#[trigger] hits[i].preview@[j].1@),
                #[trigger] g.negated[k],
            )) && (g.language matches Some(l) ==> (spec_lang_exts(l) matches Some(exts) ==> exts.contains(
            lowercase(crate::text::after_last(hits[i].path@, '.')),
        ))) && (g.negated_language matches Some(l) ==> (spec_lang_exts(l) matches Some(exts) ==> !exts.contains(
            lowercase(crate::text::after_last(hits[i].path@, '.')),
        ))) implies #[trigger] f.contains(hits[i]) by {
        let h = hits[i];
        assert forall|k: int| 0 <= k < g.negated.len() implies !negated_hit(
            #[trigger] g.negated[k],
            h.path@,
            preview_texts(h.preview@),
        ) by {
            if exists|j: int| 0 <= j < preview_texts(h.preview@).len() && has_sub(
                lowercase(#[trigger] preview_texts(h.preview@)[j]),
                g.negated[k],
            ) {
                let j = choose|j: int| 0 <= j < preview_texts(h.preview@).len() && has_sub(
                    lowercase(#[trigger] preview_texts(h.preview@)[j]),
                    g.negated[k],
                );
                assert(preview_texts(h.preview@)[j] == h.preview@[j].1@);
                assert(false);
            }
        }
        assert(keep_pred(g)(h));
    }
}

/// Client-side subtraction: drop the hits a grammar-incapable backend
/// should have excluded. Exact on paths; best-effort on content
/// (preview lines only). Returns (kept, dropped count).
pub fn filter_hits(g: &Grammar, hits: Vec<RawHit>) -> (r: (Vec<RawHit>, usize))
    ensures
        r.0@ == hits@.filter(keep_pred(g@)),
        r.1 == hits@.len() - r.0@.len(),
{
    let mut kept: Vec<RawHit> = Vec::new();
    let mut dropped: usize = 0;
    let mut i: usize = 0;
    let n = hits.len();
    let ghost all = hits@;
    let mut rest = hits;
    // Hits are taken from the back so each can be moved, then restored
    // to input order.
    let mut rev: Vec<RawHit> = Vec::new();
    while rest.len() > 0
        invariant
            rest@ == all.take(rest@.len() as int),
            rev@.len() + rest@.len() == all.len(),
            forall|k: int| 0 <= k < rev@.len() ==> #[trigger] rev@[k] == all[all.len() - 1 - k],
        decreases rest.len(),
    {
        let h = rest.pop().unwrap();
        rev.push(h);
        assert(rest@ =~= all.take(rest@.len() as int));
    }
    while i < n
        invariant
            i <= n,
            n == all.len(),
            rev@.len() == n - i,
            forall|k: int| 0 <= k < rev@.len() ==> #[trigger] rev@[k] == all[all.len() - 1 - k],
            kept@ == all.take(i as int).filter(keep_pred(g@)),
            dropped == i - kept@.len(),
        decreases n - i,
    {
        let h = rev.pop().unwrap();
        assert(h == all[i as int]);
        proof {
            reveal(Seq::filter);
            assert(all.take(i + 1).drop_last() =~= all.take(i as int));
            all.take(i as int).lemma_filter_len(keep_pred(g@));
        }
        if keep_hit(g, &h) {
            kept.push(h);
        } else {
            dropped += 1;
        }
        i += 1;
    }
    assert(all.take(n as int) =~= all);
    (kept, dropped)
}

// ---------------------------------------------------------------------
// Query segmentation (the query field's syntax colors)
// ---------------------------------------------------------------------

/// How a piece of the query field is colored.
#[derive(Debug, Clone, Copy, PartialEq, Eq, Structural)]
pub enum SegKind {
    /// Plain text and blanks.
    Text,
    /// The negation marker (`-`, `NOT`).
    Negation,
    /// A known qualifier key, colon included.
    Keyword,
    /// A qualifier value or a quoted literal.
    Str,
}

/// One colored piece of the query.
#[derive(Debug, Clone)]
pub struct Segment {
    pub text: String,
    pub kind: SegKind,
}

pub open spec fn seg_view(s: Segment) -> (Seq<char>, SegKind) {
    (s.text@, s.kind)
}

pub open spec fn is_blank(c: char) -> bool {
    c == ' ' || c == '\t'
}

/// From `i`, the end of the blank run.
pub open spec fn blank_run_end(q: Seq<char>, i: int) -> int
    decreases q.len() - i,
{
    if 0 <= i < q.len() && is_blank(q[i]) {
        blank_run_end(q, i + 1)
    } else {
        i
    }
}

/// From `i`, the first `"` (or the end).
pub open spec fn quote_close(q: Seq<char>, i: int) -> int
    decreases q.len() - i,
{
    if 0 <= i < q.len() && q[i] != '"' {
        quote_close(q, i + 1)
    } else {
        i
    }
}

/// From `i`, the end of the token: blanks end it, except inside a
/// quoted run (an unterminated quote runs to the end).
pub open spec fn token_end(q: Seq<char>, i: int) -> int
    decreases q.len() - i,
{
    if i < 0 || i >= q.len() || is_blank(q[i]) {
        i
    } else if q[i] == '"' {
        let j = quote_close(q, i + 1);
        if j < q.len() {
            proof {
                lemma_quote_close(q, i + 1);
            }
            token_end(q, j + 1)
        } else {
            j
        }
    } else {
        token_end(q, i + 1)
    }
}

/// Keys the query field colors as qualifiers.
pub open spec fn known_key(k: Seq<char>) -> bool {
    k == "repo:"@ || k == "org:"@ || k == "path:"@ || k == "extension:"@ || k == "language:"@ || k
        == "symbol:"@
}

/// The colored pieces of one token: a negation marker, then either a
/// known qualifier (key + value) or the rest as one piece, string-
/// colored when it holds a quote.
pub open spec fn token_segments(tok: Seq<char>) -> Seq<(Seq<char>, SegKind)> {
    let neg = tok.len() > 0 && tok[0] == '-';
    let rest = if neg { tok.skip(1) } else { tok };
    let lead = if neg { seq![("-"@, SegKind::Negation)] } else { seq![] };
    if tok == "NOT"@ {
        seq![("NOT"@, SegKind::Negation)]
    } else if rest.len() == 0 {
        lead
    } else {
        let colon = crate::text::first_index_of(rest, ':');
        if colon is Some && rest[0] != '"' && known_key(rest.take(colon->0 + 1)) {
            let key = rest.take(colon->0 + 1);
            let value = rest.skip(colon->0 + 1);
            lead + seq![(key, SegKind::Keyword)] + if value.len() > 0 {
                seq![(value, SegKind::Str)]
            } else {
                seq![]
            }
        } else {
            lead + seq![(rest, if rest.contains('"') { SegKind::Str } else { SegKind::Text })]
        }
    }
}

/// The pieces of the query from `i` on: blank runs as plain text,
/// tokens by `token_segments`.
pub open spec fn segments_from(q: Seq<char>, i: int) -> Seq<(Seq<char>, SegKind)>
    decreases q.len() - i,
{
    if i < 0 || i >= q.len() {
        seq![]
    } else if is_blank(q[i]) {
        let j = blank_run_end(q, i);
        if j > i {
            proof {
                lemma_blank_run_end(q, i);
            }
            seq![(q.subrange(i, j), SegKind::Text)] + segments_from(q, j)
        } else {
            seq![]
        }
    } else {
        let j = token_end(q, i);
        if j > i {
            proof {
                lemma_token_end(q, i);
            }
            token_segments(q.subrange(i, j)) + segments_from(q, j)
        } else {
            seq![]
        }
    }
}

/// The query field's pieces.
pub open spec fn spec_query_segments(q: Seq<char>) -> Seq<(Seq<char>, SegKind)> {
    segments_from(q, 0)
}

/// The texts of the pieces, joined.
pub open spec fn joined(segs: Seq<(Seq<char>, SegKind)>) -> Seq<char>
    decreases segs.len(),
{
    if segs.len() == 0 {
        seq![]
    } else {
        joined(segs.drop_last()) + segs.last().0
    }
}

proof fn lemma_joined_add(a: Seq<(Seq<char>, SegKind)>, b: Seq<(Seq<char>, SegKind)>)
    ensures
        joined(a + b) == joined(a) + joined(b),
    decreases b.len(),
{
    if b.len() == 0 {
        assert(a + b =~= a);
        assert(joined(a) + joined(b) =~= joined(a));
    } else {
        lemma_joined_add(a, b.drop_last());
        assert((a + b).drop_last() =~= a + b.drop_last());
        assert(joined(a) + joined(b.drop_last()) + b.last().0 =~= joined(a) + (joined(b.drop_last()) + b.last().0));
    }
}

pub proof fn lemma_blank_run_end(q: Seq<char>, i: int)
    requires
        0 <= i <= q.len(),
    ensures
        i <= blank_run_end(q, i) <= q.len(),
    decreases q.len() - i,
{
    if i < q.len() && is_blank(q[i]) {
        lemma_blank_run_end(q, i + 1);
    }
}

pub proof fn lemma_quote_close(q: Seq<char>, i: int)
    requires
        0 <= i <= q.len(),
    ensures
        i <= quote_close(q, i) <= q.len(),
        quote_close(q, i) < q.len() ==> q[quote_close(q, i)] == '"',
    decreases q.len() - i,
{
    if i < q.len() && q[i] != '"' {
        lemma_quote_close(q, i + 1);
    }
}

pub proof fn lemma_token_end(q: Seq<char>, i: int)
    requires
        0 <= i <= q.len(),
    ensures
        i <= token_end(q, i) <= q.len(),
        i < q.len() && !is_blank(q[i]) ==> i < token_end(q, i),
    decreases q.len() - i,
{
    if i < q.len() && !is_blank(q[i]) {
        if q[i] == '"' {
            lemma_quote_close(q, i + 1);
            let j = quote_close(q, i + 1);
            if j < q.len() {
                lemma_token_end(q, j + 1);
            }
        } else {
            lemma_token_end(q, i + 1);
        }
    }
}

/// A token's pieces spell the token.
pub proof fn lemma_token_partition(tok: Seq<char>)
    requires
        tok.len() > 0,
    ensures
        joined(token_segments(tok)) == tok,
{
    reveal_strlit("-");
    reveal_strlit("NOT");
    let empty: Seq<(Seq<char>, SegKind)> = seq![];
    let neg = tok.len() > 0 && tok[0] == '-';
    let rest = if neg { tok.skip(1) } else { tok };
    let lead: Seq<(Seq<char>, SegKind)> = if neg { seq![("-"@, SegKind::Negation)] } else { seq![] };
    let lead_text = if neg { "-"@ } else { Seq::<char>::empty() };
    if neg {
        assert(lead.drop_last() =~= empty);
        assert(joined(lead) == joined(empty) + "-"@);
        assert(joined(lead) =~= "-"@);
        assert("-"@ + rest =~= tok);
    } else {
        assert(joined(lead) =~= Seq::<char>::empty());
        assert(Seq::<char>::empty() + rest =~= tok);
    }
    assert(joined(lead) == lead_text);
    assert(lead_text + rest == tok);
    if tok == "NOT"@ {
        let s: Seq<(Seq<char>, SegKind)> = seq![("NOT"@, SegKind::Negation)];
        assert(s.drop_last() =~= empty);
        assert(joined(s) == joined(empty) + "NOT"@);
        assert(joined(s) =~= "NOT"@);
    } else if rest.len() == 0 {
        assert(lead_text =~= tok);
    } else {
        let colon = crate::text::first_index_of(rest, ':');
        crate::text::lemma_first_index_of(rest, ':');
        if colon is Some && rest[0] != '"' && known_key(rest.take(colon->0 + 1)) {
            let key = rest.take(colon->0 + 1);
            let value = rest.skip(colon->0 + 1);
            let kv: Seq<(Seq<char>, SegKind)> = seq![(key, SegKind::Keyword)];
            let vs: Seq<(Seq<char>, SegKind)> = if value.len() > 0 { seq![(value, SegKind::Str)] } else { seq![] };
            lemma_joined_add(lead, kv);
            lemma_joined_add(lead + kv, vs);
            assert(kv.drop_last() =~= empty);
            assert(joined(kv) =~= joined(empty) + key);
            if value.len() > 0 {
                assert(vs.drop_last() =~= empty);
                assert(joined(vs) =~= joined(empty) + value);
            } else {
                assert(joined(vs) =~= Seq::<char>::empty());
                assert(value =~= Seq::<char>::empty());
            }
            assert(key + value =~= rest);
            assert(token_segments(tok) == lead + kv + vs);
            assert(joined(lead) + joined(kv) + joined(vs) =~= lead_text + (key + value));
        } else {
            let one: Seq<(Seq<char>, SegKind)> = seq![(rest, if rest.contains('"') { SegKind::Str } else { SegKind::Text })];
            lemma_joined_add(lead, one);
            assert(one.drop_last() =~= empty);
            assert(joined(one) =~= joined(empty) + rest);
            assert(token_segments(tok) == lead + one);
        }
    }
}

proof fn lemma_segments_partition(q: Seq<char>, i: int)
    requires
        0 <= i <= q.len(),
    ensures
        joined(segments_from(q, i)) == q.skip(i),
    decreases q.len() - i,
{
    if i >= q.len() {
        assert(q.skip(i) =~= Seq::<char>::empty());
    } else if is_blank(q[i]) {
        let j = blank_run_end(q, i);
        lemma_blank_run_end(q, i);
        assert(j > i) by {
            assert(blank_run_end(q, i) == blank_run_end(q, i + 1));
            lemma_blank_run_end(q, i + 1);
        }
        lemma_segments_partition(q, j);
        let head: Seq<(Seq<char>, SegKind)> = seq![(q.subrange(i, j), SegKind::Text)];
        assert(segments_from(q, i) == head + segments_from(q, j));
        assert(head.drop_last() =~= Seq::<(Seq<char>, SegKind)>::empty());
        assert(joined(head) =~= joined(Seq::<(Seq<char>, SegKind)>::empty()) + q.subrange(i, j));
        lemma_joined_add(head, segments_from(q, j));
        assert(head.drop_last() =~= Seq::<(Seq<char>, SegKind)>::empty());
        assert(q.subrange(i, j) + q.skip(j) =~= q.skip(i));
    } else {
        let j = token_end(q, i);
        lemma_token_end(q, i);
        lemma_segments_partition(q, j);
        assert(i < j);
        assert(segments_from(q, i) == token_segments(q.subrange(i, j)) + segments_from(q, j));
        lemma_token_partition(q.subrange(i, j));
        lemma_joined_add(token_segments(q.subrange(i, j)), segments_from(q, j));
        assert(q.subrange(i, j) + q.skip(j) =~= q.skip(i));
    }
}

/// The query field's pieces partition the input exactly: joined back
/// together they spell the query, so nothing ever bleeds or drops.
pub proof fn lemma_query_segments_partition(q: Seq<char>)
    ensures
        joined(spec_query_segments(q)) == q,
{
    lemma_segments_partition(q, 0);
    assert(q.skip(0) =~= q);
}

pub open spec fn segs_view(v: Seq<Segment>) -> Seq<(Seq<char>, SegKind)> {
    v.map_values(|s: Segment| seg_view(s))
}

fn push_seg(out: &mut Vec<Segment>, text: &[char], kind: SegKind)
    ensures
        segs_view(final(out)@) == segs_view(old(out)@).push((text@, kind)),
{
    out.push(Segment { text: string_of(text), kind });
    assert(segs_view(out@) =~= segs_view(old(out)@).push((text@, kind)));
}

fn is_known_key(k: &[char]) -> (b: bool)
    ensures
        b == known_key(k@),
{
    eq_chars(k, lit("repo:").as_slice()) || eq_chars(k, lit("org:").as_slice()) || eq_chars(
        k,
        lit("path:").as_slice(),
    ) || eq_chars(k, lit("extension:").as_slice()) || eq_chars(k, lit("language:").as_slice())
        || eq_chars(k, lit("symbol:").as_slice())
}

fn push_token_segments(out: &mut Vec<Segment>, tok: &[char])
    ensures
        segs_view(final(out)@) == segs_view(old(out)@) + token_segments(tok@),
{
    let ghost start = segs_view(out@);
    let neg = tok.len() > 0 && tok[0] == '-';
    let rest = if neg { slice_chars(tok, 1, tok.len()) } else { slice_chars(tok, 0, tok.len()) };
    assert(rest@ =~= if neg { tok@.skip(1) } else { tok@ });
    if eq_chars(tok, lit("NOT").as_slice()) {
        push_seg(out, lit("NOT").as_slice(), SegKind::Negation);
        assert(segs_view(out@) =~= start + token_segments(tok@));
        return;
    }
    if neg {
        push_seg(out, lit("-").as_slice(), SegKind::Negation);
    }
    let ghost lead: Seq<(Seq<char>, SegKind)> = if neg { seq![("-"@, SegKind::Negation)] } else { seq![] };
    assert(segs_view(out@) =~= start + lead);
    if rest.len() == 0 {
        return;
    }
    let colon = crate::text::find_char(rest.as_slice(), ':');
    if let Some(c) = colon {
        if rest[0] != '"' {
            let key = slice_chars(rest.as_slice(), 0, c + 1);
            assert(key@ =~= rest@.take(c + 1));
            if is_known_key(key.as_slice()) {
                let value = slice_chars(rest.as_slice(), c + 1, rest.len());
                assert(value@ =~= rest@.skip(c + 1));
                push_seg(out, key.as_slice(), SegKind::Keyword);
                if value.len() > 0 {
                    push_seg(out, value.as_slice(), SegKind::Str);
                }
                assert(segs_view(out@) =~= start + token_segments(tok@));
                return;
            }
        }
    }
    let quoted = contains_char(rest.as_slice(), '"');
    push_seg(out, rest.as_slice(), if quoted { SegKind::Str } else { SegKind::Text });
    assert(segs_view(out@) =~= start + token_segments(tok@));
}

fn blank_end(q: &Vec<char>, i: usize) -> (j: usize)
    requires
        i < q@.len(),
        is_blank(q@[i as int]),
    ensures
        j == blank_run_end(q@, i as int),
        i < j <= q@.len(),
{
    let n = q.len();
    let mut j = i;
    while j < n && (q[j] == ' ' || q[j] == '\t')
        invariant
            i <= j <= n,
            n == q@.len(),
            blank_run_end(q@, j as int) == blank_run_end(q@, i as int),
        decreases n - j,
    {
        j += 1;
    }
    proof {
        assert(blank_run_end(q@, i as int) == blank_run_end(q@, i + 1));
        lemma_blank_run_end(q@, i + 1);
    }
    j
}

fn tok_end(q: &Vec<char>, i: usize) -> (j: usize)
    requires
        i < q@.len(),
        !is_blank(q@[i as int]),
    ensures
        j == token_end(q@, i as int),
        i < j <= q@.len(),
{
    let n = q.len();
    let mut j = i;
    while j < n && !(q[j] == ' ' || q[j] == '\t')
        invariant
            i <= j <= n,
            n == q@.len(),
            token_end(q@, j as int) == token_end(q@, i as int),
        decreases n - j,
    {
        if q[j] == '"' {
            let ghost j0 = j;
            j += 1;
            while j < n && q[j] != '"'
                invariant
                    j0 < j <= n,
                    n == q@.len(),
                    quote_close(q@, j as int) == quote_close(q@, j0 + 1),
                decreases n - j,
            {
                j += 1;
            }
            if j < n {
                j += 1;
            }
        } else {
            j += 1;
        }
    }
    proof {
        lemma_token_end(q@, i as int);
    }
    j
}

/// The query field's colored pieces: blank runs and plain terms as
/// text, `-`/`NOT` as negation, known qualifier keys as keywords with
/// their values as strings, quoted literals as strings (quotes kept).
pub fn query_segments(query: &str) -> (r: Vec<Segment>)
    ensures
        segs_view(r@) == spec_query_segments(query@),
{
    let q = chars_of(query);
    let n = q.len();
    let mut out: Vec<Segment> = Vec::new();
    let mut i: usize = 0;
    while i < n
        invariant
            i <= n,
            n == q@.len(),
            q@ == query@,
            segs_view(out@) + segments_from(q@, i as int) == spec_query_segments(query@),
        decreases n - i,
    {
        let ghost before = segs_view(out@);
        if q[i] == ' ' || q[i] == '\t' {
            let j = blank_end(&q, i);
            let piece = slice_chars(q.as_slice(), i, j);
            assert(segments_from(q@, i as int) == seq![(q@.subrange(i as int, j as int), SegKind::Text)]
                + segments_from(q@, j as int));
            push_seg(&mut out, piece.as_slice(), SegKind::Text);
            assert(before + segments_from(q@, i as int) =~= segs_view(out@) + segments_from(q@, j as int));
            i = j;
        } else {
            let j = tok_end(&q, i);
            let tok = slice_chars(q.as_slice(), i, j);
            assert(segments_from(q@, i as int) == token_segments(q@.subrange(i as int, j as int))
                + segments_from(q@, j as int));
            push_token_segments(&mut out, tok.as_slice());
            assert(before + segments_from(q@, i as int) =~= segs_view(out@) + segments_from(q@, j as int));
            i = j;
        }
    }
    assert(segments_from(q@, n as int) =~= Seq::<(Seq<char>, SegKind)>::empty());
    assert(segs_view(out@) =~= segs_view(out@) + Seq::<(Seq<char>, SegKind)>::empty());
    out
}

/// Every term has text and no `:`; every negated term is the lowercase
/// of a token with text and no `:`.
pub open spec fn terms_clean(g: GrammarView) -> bool {
    &&& forall|i: int| 0 <= i < g.terms.len() ==> (#[trigger] g.terms[i]).len() > 0 && !g.terms[i].contains(':')
    &&& forall|i: int| 0 <= i < g.negated.len() ==> lowered_clean(#[trigger] g.negated[i])
}

/// `s` is the lowercase of a token with text and no `:`.
pub open spec fn lowered_clean(s: Seq<char>) -> bool {
    exists|t: Seq<char>| t.len() > 0 && !t.contains(':') && s == #[trigger] lowercase(t)
}

proof fn lemma_apply_keeps_clean(g: GrammarView, neg: bool, tok: Seq<char>)
    requires
        terms_clean(g),
    ensures
        terms_clean(apply_token(g, neg, tok)),
{
    let h = apply_token(g, neg, tok);
    let plain = tok.len() > 0 && !starts(tok, "language:"@) && !starts(tok, "extension:"@) && !is_scope_qualifier(tok)
        && !tok.contains(':');
    assert(h.terms == g.terms || (plain && !neg && h.terms == g.terms.push(tok)));
    assert(h.negated == g.negated || (plain && neg && h.negated == g.negated.push(lowercase(tok))));
    assert forall|i: int| 0 <= i < h.terms.len() implies (#[trigger] h.terms[i]).len() > 0 && !h.terms[i].contains(
        ':',
    ) by {
        if i < g.terms.len() {
            assert(h.terms[i] == g.terms[i]);
        }
    }
    assert forall|i: int| 0 <= i < h.negated.len() implies lowered_clean(#[trigger] h.negated[i]) by {
        if i < g.negated.len() {
            assert(h.negated[i] == g.negated[i]);
        } else {
            assert(h.negated[i] == lowercase(tok));
        }
    }
}

proof fn lemma_parse_tokens_clean(toks: Seq<Seq<char>>, g: GrammarView)
    requires
        terms_clean(g),
    ensures
        terms_clean(parse_tokens(toks, g)),
    decreases toks.len(),
{
    if toks.len() > 0 {
        if toks[0] == "NOT"@ {
            if toks.len() > 1 {
                lemma_apply_keeps_clean(g, true, toks[1]);
                lemma_parse_tokens_clean(toks.skip(2), apply_token(g, true, toks[1]));
            }
        } else if starts(toks[0], "-"@) {
            lemma_apply_keeps_clean(g, true, toks[0].skip(1));
            lemma_parse_tokens_clean(toks.skip(1), apply_token(g, true, toks[0].skip(1)));
        } else {
            lemma_apply_keeps_clean(g, false, toks[0]);
            lemma_parse_tokens_clean(toks.skip(1), apply_token(g, false, toks[0]));
        }
    }
}

/// What a query parses to never holds an empty term or one with a `:`
/// (qualifiers go to their fields or to `unknown`); every negated term
/// is lowercased from a token with text and no `:`.
pub proof fn lemma_parse_terms_clean(q: Seq<char>)
    ensures
        terms_clean(spec_parse(q)),
{
    lemma_parse_tokens_clean(spec_tokenize(q), empty_grammar());
}

} // verus!
