use rootle::components::global_search::backend::{
    code_outcome, code_query, file_find_score, locate_in_blob, run_view_search, tree_file_find,
};
use rootle::components::global_search::grammar::{
    ext_lang, filter_hits, lang_exts, lang_rows, parse, query_segments, tokenize, unexpressible, SegKind,
};
use rootle::components::global_search::mock::{hits, mock_body};
use rootle::components::global_search::model::{next_enabled, RawHit, Scope, SearchHit, SearchKind};
use rootle::components::global_search::tarball::git_blob_sha;
use sha1::{Digest, Sha1};
use rootle::provider::{
    CodeMatch, Provider, ProviderError, ProviderResult, SearchCodeResult, TreeNode, TreeResult,
};

fn needles(q: &str) -> Vec<String> {
    q.split_whitespace().map(str::to_string).collect()
}

#[test]
fn file_find_matches_like_github_go_to_file() {
    let s = file_find_score("djangosite/urls/default.py", &needles("urldef"));
    assert!(s.is_some(), "subsequence across dir + file must match");
    assert!(file_find_score("something/term/cargo.toml", &needles("term")).is_some());
    assert!(file_find_score("djangosite/urls/default.py", &needles("url def")).is_some());
    assert!(file_find_score("djangosite/urls/default.py", &needles("url zzz")).is_none());
    assert!(file_find_score("src/main.rs", &needles("msni")).is_none());
    assert!(file_find_score("src/main.rs", &needles("mrs")).is_some());
    assert_eq!(file_find_score("src/main.rs", &[]), Some(0));
}

#[test]
fn file_find_ranks_filename_above_path_above_scattered() {
    let starts = file_find_score("src/terminal.rs", &needles("term")).unwrap();
    let inside = file_find_score("src/myterm.rs", &needles("term")).unwrap();
    let dir = file_find_score("src/term/cargo.toml", &needles("term")).unwrap();
    let scattered = file_find_score("src/test/remote.rs", &needles("term")).unwrap();
    assert!(starts > inside, "needle starting the file name beats one inside it");
    assert!(inside > dir, "file-name match beats a directory-only match");
    assert!(dir > scattered, "contiguous path match beats scattered chars");
}

#[test]
fn locate_in_blob_folds_regions_and_counts() {
    let text = b"line one\nmatch here\nbetween\nanother match\ntail";
    let needles = vec!["match".to_string()];
    let (line, preview, count) = locate_in_blob(text, &needles).unwrap();
    assert_eq!(line, 2);
    assert_eq!(count, 2);
    let nos: Vec<u32> = preview.iter().map(|(n, _)| *n).collect();
    assert_eq!(nos, vec![1, 2, 3, 4, 5]);
    assert!(locate_in_blob(b"\x00\x01match", &needles).is_none());
}

#[test]
fn locate_in_blob_misses_are_none() {
    let needles = vec!["absent".to_string()];
    assert!(locate_in_blob(b"one\ntwo\n", &needles).is_none());
}

#[test]
fn code_query_maps_scope_and_extension() {
    assert_eq!(code_query(SearchKind::Grep, "needle", "global", ""), "needle");
    assert_eq!(code_query(SearchKind::FileFind, "main", "repo:o/r", ".rs"), "path:main repo:o/r extension:rs");
    assert_eq!(code_query(SearchKind::Grep, "q", "org:x", "rs"), "q org:x extension:rs");
}

fn hit(path: &str, preview: &[&str]) -> RawHit {
    RawHit {
        repo: "o/r".into(),
        path: path.into(),
        sha: "s".into(),
        branch: "main".into(),
        line: 1,
        preview: preview.iter().enumerate().map(|(i, l)| (i as u32 + 1, l.to_string())).collect(),
        match_count: preview.len() as u32,
        stale: false,
    }
}

#[test]
fn tokenizer_keeps_quoted_literals_whole() {
    let g = parse(r#"alpha "exact phrase" beta"#);
    assert_eq!(g.terms, ["alpha", "exact phrase", "beta"]);
    let g = parse(r#"a "b c"#);
    assert_eq!(g.terms, ["a", "b c"]);
    assert_eq!(tokenize(r#"x "y z" w"#), vec!["x", "y z", "w"]);
}

#[test]
fn negation_and_language_parse() {
    let g = parse(
        r#"render -deprecated NOT legacy -"dead code" language:rust -language:python extension:rs repo:o/r symbol:foo"#,
    );
    assert_eq!(g.terms, ["render"]);
    assert_eq!(g.negated, ["deprecated", "legacy", "dead code"]);
    assert_eq!(g.language.as_deref(), Some("rust"));
    assert_eq!(g.negated_language.as_deref(), Some("python"));
    assert_eq!(g.extension.as_deref(), Some("rs"));
    assert_eq!(g.unknown, ["symbol:foo"]);
}

#[test]
fn filter_subtracts_negated_and_applies_language() {
    let g = parse("render -legacy language:rust");
    let hits = vec![
        hit("src/render.rs", &["fn render()"]),
        hit("src/legacy.rs", &["fn render()"]),
        hit("src/mod.rs", &["legacy render call"]),
        hit("docs/render.md", &["render docs"]),
    ];
    let (kept, dropped) = filter_hits(&g, hits);
    assert_eq!(dropped, 3);
    assert_eq!(kept.len(), 1);
    assert_eq!(kept[0].path, "src/render.rs");
}

#[test]
fn unknown_language_passes_through_and_is_named() {
    let g = parse("render language:cobol");
    let hits = vec![hit("src/render.rs", &[])];
    let (kept, dropped) = filter_hits(&g, hits);
    assert_eq!((kept.len(), dropped), (1, 0));
    assert_eq!(unexpressible(&g), ["language:cobol"]);
}

#[test]
fn plain_query_filters_nothing() {
    let g = parse("render widget");
    let hits = vec![hit("a.rs", &["x"]), hit("b.md", &["y"])];
    let (kept, dropped) = filter_hits(&g, hits.clone());
    assert_eq!(dropped, 0);
    assert_eq!(kept, hits);
}

#[test]
fn ext_lang_reverses_the_same_table() {
    for row in lang_rows() {
        for ext in row.exts {
            let back = ext_lang(ext).expect("every table ext resolves");
            assert!(lang_exts(back).is_some_and(|xs| xs.contains(ext)), "{ext} → {back} must round-trip");
        }
    }
    assert_eq!(ext_lang("cpp"), Some("c++"));
    assert_eq!(ext_lang("cc"), Some("c++"));
    assert_eq!(ext_lang("bash"), Some("shell"));
    assert_eq!(ext_lang("txt"), None);
    assert_eq!(lang_exts("CPP"), Some(&["cpp", "cc", "cxx", "hpp"][..]));
}

#[test]
fn spans_partition_the_input_byte_exactly() {
    for q in ["", "plain", "a  b", "\"unterminated", "-\"neg quoted\"", "unknown:x", "path:src/main.rs render", "language:", "üñí — em"] {
        let joined: String = query_segments(q).iter().map(|s| s.text.as_str()).collect();
        assert_eq!(joined, q, "partition broke for {q:?}");
    }
    let segs = query_segments("unknown:x");
    assert!(segs.iter().all(|s| s.kind == SegKind::Text));
}

#[test]
fn qualifiers_literals_and_negation_take_syntax_colors() {
    let segs = query_segments(r#"render -legacy language:rust "exact phrase" NOT dead"#);
    let has = |t: &str, k: SegKind| segs.iter().any(|s| s.text == t && s.kind == k);
    assert!(has("language:", SegKind::Keyword));
    assert!(has("rust", SegKind::Str));
    assert!(has("\"exact phrase\"", SegKind::Str));
    assert!(has("-", SegKind::Negation));
    assert!(has("NOT", SegKind::Negation));
    assert!(has("render", SegKind::Text));
    assert!(has("legacy", SegKind::Text));
}

#[test]
fn scope_names_round_trip_through_storage() {
    for s in [Scope::Repo, Scope::Org, Scope::Global] {
        assert_eq!(Scope::from_stored(s.stored()), Some(s));
    }
    assert_eq!(Scope::from_stored("galaxy"), None);
    assert_eq!(SearchKind::Grep.title(), " grep ");
    assert_eq!(SearchKind::FileFind.slug(), "find");
}

#[test]
fn radio_walk_skips_disabled_rows_and_wraps() {
    let items = [(Scope::Repo, false), (Scope::Org, true), (Scope::Global, true)];
    assert_eq!(next_enabled(&items, 2, 1), 1);
    assert_eq!(next_enabled(&items, 1, -1), 2);
    assert_eq!(next_enabled(&items, 1, 1), 2);
    let none = [(Scope::Repo, false), (Scope::Org, false), (Scope::Global, false)];
    assert_eq!(next_enabled(&none, 1, 1), 1);
}

struct Mock {
    tarball: Vec<u8>,
    tree: Vec<TreeNode>,
    code: Vec<CodeMatch>,
}

impl Provider for Mock {
    fn fetch_tree(&self, _: &str, _: Option<&str>) -> ProviderResult<TreeResult> {
        Ok(TreeResult { entries: self.tree.clone(), truncated: false, branch: "main".into() })
    }
    fn fetch_blob(&self, _: &str, _: &str) -> ProviderResult<Vec<u8>> {
        Err(ProviderError::other("mock"))
    }
    fn search_code(&self, _: &str) -> ProviderResult<SearchCodeResult> {
        Ok(SearchCodeResult { hits: self.code.clone(), truncated: false, index_as_of: None })
    }
    fn source_tarball(&self, _: &str) -> ProviderResult<Vec<u8>> {
        Ok(self.tarball.clone())
    }
}

fn tarball(files: &[(&str, &[u8])]) -> Vec<u8> {
    let enc = flate2::write::GzEncoder::new(Vec::new(), flate2::Compression::fast());
    let mut builder = tar::Builder::new(enc);
    for (path, bytes) in files {
        let mut header = tar::Header::new_gnu();
        header.set_size(bytes.len() as u64);
        header.set_mode(0o644);
        header.set_entry_type(tar::EntryType::Regular);
        header.set_cksum();
        builder.append_data(&mut header, format!("o-r-deadbeef/{path}"), *bytes).unwrap();
    }
    builder.into_inner().unwrap().finish().unwrap()
}

#[test]
fn scoped_grep_falls_back_to_tarball_on_silent_zero() {
    let a_rs: &[u8] = b"fn target() {}\n";
    let b_rs: &[u8] = b"nothing relevant here\n";
    let c_rs: &[u8] = b"target\nand target again\n";
    let bin: &[u8] = &[0u8, 159, 146, 150, 0, 1, 2, 3];
    let provider = Mock {
        tarball: tarball(&[("src/a.rs", a_rs), ("src/b.rs", b_rs), ("src/c.rs", c_rs), ("img.bin", bin)]),
        tree: vec![],
        code: vec![],
    };
    let run = |query: &str| -> Vec<RawHit> {
        let (hits, _) = run_view_search(&provider, SearchKind::Grep, query, "repo:o/r", "").ok().unwrap();
        hits
    };

    let hits = run("target");
    let paths: Vec<&str> = hits.iter().map(|h| h.path.as_str()).collect();
    assert_eq!(paths, vec!["src/a.rs", "src/c.rs"], "binary skipped, non-matches skipped");
    assert_eq!(hits[0].line, 1);
    assert_eq!(hits[0].match_count, 1, "a.rs has one matching line");
    assert_eq!(hits[1].match_count, 2, "c.rs has two");
    assert_eq!(hits[0].branch, "main");
    let want = {
        let mut h = Sha1::new();
        h.update(format!("blob {}\0", a_rs.len()));
        h.update(a_rs);
        h.finalize().iter().map(|b| format!("{b:02x}")).collect::<String>()
    };
    assert_eq!(hits[0].sha, want);
    assert_eq!(git_blob_sha(a_rs), want);
    assert!(!hits[0].stale);
    assert!(hits[0].preview.iter().any(|(_, l)| l.contains("target")), "preview carries the matched line");

    let hits = run("target again");
    assert_eq!(hits.len(), 1);
    assert_eq!(hits[0].path, "src/c.rs");

    let hits = run("target -again");
    assert_eq!(hits.len(), 1);
    assert_eq!(hits[0].path, "src/a.rs");
}

#[test]
fn repo_file_find_ranks_tree_paths_best_first() {
    let node = |p: &str| TreeNode { path: p.into(), is_dir: false, sha: "s".into(), size: None };
    let provider = Mock {
        tarball: vec![],
        tree: vec![node("src/test/remote.rs"), node("src/terminal.rs"), node("docs/readme.md"), node("src/myterm.rs")],
        code: vec![],
    };
    let (hits, out) = run_view_search(&provider, SearchKind::FileFind, "term", "repo:o/r", "").ok().unwrap();
    let paths: Vec<&str> = hits.iter().map(|h| h.path.as_str()).collect();
    assert_eq!(paths, vec!["src/terminal.rs", "src/myterm.rs", "src/test/remote.rs"]);
    assert!(out.unfiltered.is_empty());
    assert!(hits.iter().all(|h| h.repo == "o/r" && h.branch == "main"));
}

#[test]
fn provider_hits_pass_through_with_their_placement() {
    let m = CodeMatch {
        repo: "o/r".into(),
        path: "src/lib.rs".into(),
        sha: "abc".into(),
        branch: "main".into(),
        line: Some(7),
        matches: vec!["needle".into()],
        located: true,
    };
    let provider = Mock { tarball: vec![], tree: vec![], code: vec![m] };
    let (hits, _) = run_view_search(&provider, SearchKind::Grep, "needle", "global", "").ok().unwrap();
    assert_eq!(hits.len(), 1);
    assert_eq!(hits[0].path, "src/lib.rs");
    assert_eq!(hits[0].sha, "abc");
}

#[test]
fn multi_match_files_fold_with_count_badge() {
    let hits = hits(SearchKind::Grep, "query", "").unwrap();
    let list = hits.iter().find(|h| h.path == "src/widgets/list.rs").unwrap();
    assert_eq!(list.match_count, 3);
    let nos: Vec<u32> = list.preview.iter().map(|(n, _)| *n).collect();
    assert!(nos.contains(&42));
    assert!(nos.contains(&88));
}

#[test]
fn mock_honors_query_and_extension() {
    let found = hits(SearchKind::FileFind, "parser", "").unwrap();
    assert_eq!(found.len(), 1);
    assert_eq!(found[0].path, "src/query/parser.rs");
    assert_eq!(hits(SearchKind::FileFind, "", "").unwrap().len(), 3);
    assert_eq!(hits(SearchKind::Grep, "query", "").unwrap().len(), 4);
    assert_eq!(hits(SearchKind::Grep, "flush", "").unwrap().len(), 1);
    let rs = hits(SearchKind::Grep, "query", "rs").unwrap();
    assert_eq!(rs.len(), 3);
    assert!(rs.iter().all(|h| h.path.ends_with(".rs")));
    assert_eq!(hits(SearchKind::Grep, "query", ".md").unwrap().len(), 1);
    assert!(hits(SearchKind::Grep, "zzz", "").unwrap().is_empty());
}

#[test]
fn mock_file_find_orders_best_match_first() {
    let found = hits(SearchKind::FileFind, "query", "").unwrap();
    assert_eq!(found[0].path, "tests/query_roundtrip.rs");
}

#[test]
fn mock_body_wraps_the_preview_lines() {
    let body = mock_body("a.rs", &[(1, "x"), (2, "y")], "q\"");
    assert_eq!(body, "// mock content for a.rs (stage 1, query: \"q\\\"\")\nx\ny\n// …stage 2 replaces this with the fetched blob.\n");
    let h = &hits(SearchKind::Grep, "flush", "").unwrap()[0];
    assert_eq!(h.repo, "ratatui/ratatui");
    assert_eq!(h.branch, "main");
    assert!(h.sha.is_empty());
    assert!(h.body.contains("pub fn flush"));
}

fn block(line: u32, rows: &[(u32, &str)], count: u32, body: &str) -> SearchHit {
    SearchHit::plain("o/r", "src/a.rs", line, rows.iter().map(|(n, t)| (*n, t.to_string())).collect(), count, body.into())
}

#[test]
fn merge_unions_previews_and_sums_badges() {
    let mut a = block(12, &[(11, "a11"), (12, "a12")], 2, "short");
    let mut later = block(5, &[(12, "b12"), (4, "b4"), (5, "b5")], u32::MAX, "a longer body");
    later.sha = "abc".into();
    later.stale = true;
    a.merge(later);
    let nos: Vec<u32> = a.preview.iter().map(|(n, _)| *n).collect();
    assert_eq!(nos, vec![4, 5, 11, 12]);
    assert_eq!(a.preview[3].1, "a12", "the earlier row wins a shared line");
    assert_eq!(a.line, 5);
    assert_eq!(a.match_count, u32::MAX, "badges saturate");
    assert_eq!(a.sha, "abc");
    assert!(!a.stale, "a located hit heals staleness");
    assert_eq!(a.body, "a longer body");
    assert_eq!(a.preview_text(), "b4\nb5\na11\na12");
}

#[test]
fn raw_hits_become_blocks_without_bodies() {
    let raw = RawHit {
        repo: "o/r".into(),
        path: "p".into(),
        sha: "s".into(),
        branch: "dev".into(),
        line: 3,
        preview: vec![(3, "x".into())],
        match_count: 1,
        stale: true,
    };
    let h = SearchHit::from_raw(raw);
    assert_eq!((h.branch.as_str(), h.line, h.stale, h.body.is_empty()), ("dev", 3, true, true));
}

#[test]
fn negated_scope_qualifiers_are_named_as_unexpressible() {
    let g = parse("-repo:o/r foo NOT org:acme path:src");
    assert_eq!(g.unknown, vec!["-repo:o/r".to_string(), "-org:acme".to_string()]);
    assert_eq!(g.terms, vec!["foo".to_string()]);
}

struct NoFetch;

impl Provider for NoFetch {
    fn fetch_tree(&self, _: &str, _: Option<&str>) -> ProviderResult<TreeResult> {
        panic!("no tree expected")
    }
    fn fetch_blob(&self, _: &str, _: &str) -> ProviderResult<Vec<u8>> {
        panic!("no blob may be fetched without an editor")
    }
    fn search_code(&self, _: &str) -> ProviderResult<SearchCodeResult> {
        panic!("no search expected")
    }
    fn source_tarball(&self, _: &str) -> ProviderResult<Vec<u8>> {
        panic!("no tarball expected")
    }
}

#[test]
fn no_blob_is_fetched_without_an_editor() {
    let e = rootle::editor::editor_blob(&NoFetch, None, "o/r", "abc").err().unwrap();
    assert_eq!(e, "no editor found — set [editor].program in config.toml or $EDITOR");
}

#[test]
fn go_to_file_needs_each_needle_in_order() {
    let v = |xs: &[&str]| xs.iter().map(|x| x.to_string()).collect::<Vec<String>>();
    assert!(file_find_score("src/main.rs", &v(&["sma"])).is_some(), "scattered, in order");
    assert!(file_find_score("src/main.rs", &v(&["ms"])).is_some());
    assert!(file_find_score("src/main.rs", &v(&["am"])).is_none(), "out of order");
    assert!(file_find_score("src/main.rs", &v(&["sma", "q"])).is_none(), "every needle must match");
    assert_eq!(file_find_score("src/main.rs", &v(&["", ""])), Some(0));
    assert_eq!(file_find_score("src/main.rs", &v(&[])), Some(0));
}

#[test]
fn locating_names_the_first_match_and_previews_two_runs() {
    let blob = b"a\nfoo\nb\nc\nd\ne\nf\ng\nfoo\n";
    let (line, pv, count) = locate_in_blob(blob, &["FOO".to_string()]).unwrap();
    assert_eq!(line, 2);
    assert_eq!(count, 2);
    let nums: Vec<u32> = pv.iter().map(|r| r.0).collect();
    assert_eq!(nums, vec![1, 2, 3, 8, 9]);
    assert_eq!(pv[1].1, "foo");
    assert!(locate_in_blob(blob, &["".to_string()]).is_none(), "no needle text");
    assert!(locate_in_blob(blob, &["zzz".to_string()]).is_none(), "no matching line");
    assert!(locate_in_blob(b"a\0b", &["a".to_string()]).is_none(), "binary");
}

#[test]
fn go_to_file_ranks_tree_files_best_first_on_the_trees_branch() {
    let node = |path: &str, is_dir: bool| TreeNode { path: path.into(), is_dir, sha: "0123456789ab".into(), size: None };
    let mock = Mock {
        tarball: vec![],
        tree: vec![
            node("src", true),
            node("src/lib.rs", false),
            node("documentation/main.md", false),
            node("lib/main.rs", false),
            node("src/main.rs", false),
        ],
        code: vec![],
    };
    let (hits, out) = tree_file_find(&mock, "main", "o/r", "").unwrap();
    let paths: Vec<&str> = hits.iter().map(|h| h.path.as_str()).collect();
    assert_eq!(
        paths,
        vec!["lib/main.rs", "src/main.rs", "documentation/main.md"],
        "shorter paths score higher; equal scores keep tree order"
    );
    assert!(hits.iter().all(|h| h.repo == "o/r" && h.branch == "main" && h.line == 1));
    assert!(!out.clipped);
    assert_eq!(out.client_filtered, 0);
}

#[test]
fn code_outcome_reports_the_answer_and_what_the_grammar_dropped() {
    let g = parse("render -legacy language:cobol");
    let batch = vec![hit("src/render.rs", &["fn render()"]), hit("src/legacy.rs", &["fn render()"])];
    let (kept, out) = code_outcome(&g, batch, true, Some("2024-01-01".into()));
    assert_eq!(kept.len(), 1);
    assert_eq!(kept[0].path, "src/render.rs");
    assert!(out.clipped);
    assert_eq!(out.index_as_of.as_deref(), Some("2024-01-01"));
    assert_eq!(out.client_filtered, 1);
    assert_eq!(out.unfiltered, vec!["language:cobol".to_string()]);
}

#[test]
fn code_search_drops_filtered_hits_and_counts_them() {
    let m = |path: &str| CodeMatch {
        repo: "o/r".into(),
        path: path.into(),
        sha: "abc".into(),
        branch: "main".into(),
        line: Some(1),
        matches: vec![],
        located: true,
    };
    let provider = Mock { tarball: vec![], tree: vec![], code: vec![m("src/render.rs"), m("src/legacy.rs")] };
    let (hits, out) = run_view_search(&provider, SearchKind::Grep, "render -legacy", "global", "").ok().unwrap();
    assert_eq!(hits.len(), 1);
    assert_eq!(out.client_filtered, 1);
    assert!(!out.clipped);
    assert_eq!(out.index_as_of, None);
}

#[test]
fn parsed_terms_have_text_and_no_colons() {
    let g = parse("Foo -Bar x:y \"\" NOT");
    assert_eq!(g.terms, vec!["Foo".to_string()]);
    assert_eq!(g.negated, vec!["bar".to_string()]);
    assert_eq!(g.unknown, vec!["x:y".to_string()]);
    let g = parse("foo NOT");
    assert_eq!(g.terms, vec!["foo".to_string()]);
    assert!(g.negated.is_empty() && g.unknown.is_empty());
}
