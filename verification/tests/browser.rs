use rootle::components::browser::lenses::{blame_marks, line_sha, History};
use rootle::components::browser::tree::RepoTree;
use rootle::components::list_view::{visible_indices, ListCursor};
use rootle::components::pane::{Entry, EntryKind, Pane};
use rootle::keys::{Key, KeyCode};
use rootle::provider::{BlameRange, LogEntry, TreeNode};

fn node(path: &str, is_dir: bool) -> TreeNode {
    TreeNode { path: path.into(), is_dir, sha: "sha".into(), size: Some(1) }
}

#[test]
fn children_lists_direct_only_dirs_first() {
    let tree = RepoTree::new(
        "o".into(),
        "r".into(),
        false,
        "main".into(),
        vec![
            node("src", true),
            node("src/zeta.rs", false),
            node("src/alpha.rs", false),
            node("src/nested/deep.rs", false),
            node("src/widgets", true),
            node("zdocs.md", false),
            node("lib.rs", false),
        ],
    );
    let root: Vec<String> = tree.children("").iter().map(|e| e.name.clone()).collect();
    assert_eq!(root, vec!["src", "lib.rs", "zdocs.md"]);
    let src: Vec<String> = tree.children("src").iter().map(|e| e.name.clone()).collect();
    assert_eq!(src, vec!["widgets", "alpha.rs", "zeta.rs"]);
    assert!(tree.find("src/widgets").is_some());
    assert!(tree.find("src/missing").is_none());
}

#[test]
fn cursor_clamps_and_parks() {
    let mut c = ListCursor::new();
    c.move_by(5, 3);
    assert_eq!(c.cursor, 3);
    c.move_by(5, -10);
    assert_eq!(c.cursor, 0);
    c.move_by(5, 99);
    assert_eq!(c.cursor, 4);
    c.move_by(0, 5);
    assert_eq!(c.cursor, 0);
}

#[test]
fn keep_visible_scrolls_minimally() {
    let mut c = ListCursor::new();
    c.cursor = 9;
    c.keep_visible(4, 20);
    assert_eq!(c.scroll, 6, "cursor at bottom edge: 9-(4-1)");
    c.cursor = 1;
    c.keep_visible(4, 20);
    assert_eq!(c.scroll, 0, "near top: no scroll");
    c.cursor = 19;
    c.keep_visible(4, 20);
    assert_eq!(c.scroll, 16, "clamped to max_scroll");
    c.cursor = 2;
    c.keep_visible(10, 3);
    assert_eq!(c.scroll, 0, "content fits: no scroll ever");
}

#[test]
fn filter_matches_substring_case_insensitively() {
    let items = ["src/Main.rs", "README", "lib.rs"];
    let vis = visible_indices(&items, "read", |s: &&str| s.to_string());
    assert_eq!(vis, vec![1]);
    let all = visible_indices(&items, "", |s: &&str| s.to_string());
    assert_eq!(all, vec![0, 1, 2]);
}

#[test]
fn cursor_clamp_parks_on_the_last_row() {
    let mut c = ListCursor::new();
    c.cursor = 7;
    c.clamp(3);
    assert_eq!(c.cursor, 2);
    c.clamp(0);
    assert_eq!(c.cursor, 0);
}

#[test]
fn pane_filters_and_clamps_its_selection() {
    let mut p = Pane::new(
        "repos".into(),
        vec![
            Entry::new("alpha", EntryKind::Repo),
            Entry::new("Beta", EntryKind::Repo),
            Entry::new("gamma\u{1b}", EntryKind::Dir),
        ],
    );
    assert_eq!(p.entries[2].name, "gamma");
    p.move_by(2);
    assert_eq!(p.selected_entry().unwrap().name, "gamma");
    p.set_filter("bet".into());
    assert_eq!(p.visible().len(), 1);
    assert_eq!(p.selected_entry().unwrap().name, "Beta");
    p.move_by(-5);
    assert_eq!(p.selected, 0);
}

fn commit(sha: &str, subject: &str, author: &str) -> LogEntry {
    LogEntry { sha: sha.into(), subject: subject.into(), author: author.into(), date: "2024-01-01".into() }
}

#[test]
fn history_lands_on_the_pending_commit_and_filters() {
    let mut h = History::at("src/lib.rs", Some("bbb".into()));
    assert_eq!(h.path(), "src/lib.rs");
    assert!(h.selected().is_none());
    h.loaded(
        vec![commit("aaa111", "first", "ann"), commit("bbb222", "Second fix", "bob"), commit("ccc333", "third", "cy")],
        false,
    );
    assert_eq!(h.selected().unwrap().sha, "bbb222");
    assert_eq!(h.pick(), Some(("src/lib.rs".to_string(), "bbb222".to_string())));
    h.move_by(true);
    assert_eq!(h.selected().unwrap().sha, "ccc333");
    h.begin_filter();
    assert!(h.filtering());
    for c in "fix".chars() {
        h.filter_key(Key::plain(KeyCode::Char(c)));
    }
    h.filter_key(Key::plain(KeyCode::Enter));
    assert!(!h.filtering());
    assert_eq!(h.visible(), vec![1]);
    assert_eq!(h.selected().unwrap().sha, "bbb222");
    assert!(!h.esc(), "first Esc clears the filter");
    assert_eq!(h.visible().len(), 3);
    assert!(h.esc(), "second Esc closes the lens");
}

#[test]
fn blame_marks_start_each_run_with_short_sha_and_author() {
    let ranges = vec![
        BlameRange { sha: "0123456789".into(), author: "ann".into(), start_line: 1, end_line: 2 },
        BlameRange { sha: "abc".into(), author: "bob".into(), start_line: 3, end_line: 3 },
    ];
    let marks = blame_marks(&ranges, 4);
    assert_eq!(marks.len(), 4);
    let m0 = marks[0].as_ref().unwrap();
    assert_eq!((m0.sha.as_str(), m0.author.as_str()), ("0123456", "ann"));
    assert!(marks[1].is_none());
    assert_eq!(marks[2].as_ref().unwrap().sha, "abc");
    assert!(marks[3].is_none());
    assert_eq!(line_sha(&ranges, 2), Some("0123456789".to_string()));
    assert_eq!(line_sha(&ranges, 3), Some("abc".to_string()));
    assert_eq!(line_sha(&ranges, 9), None);
}
