use rootle::action::Action;
use rootle::app::{band_apply_or_fetch, blame_status, blame_toggle, clone_candidates, history_fetch, BlameStep, LastCommit};
use rootle::components::browser::Browser;
use rootle::components::pane::EntryKind;
use rootle::components::preview::PreviewContent;
use rootle::provider::{BlameRange, LogEntry, RepoInfo, TreeNode};

fn names(b: &Browser, level: usize) -> Vec<String> {
    b.levels[level].entries.iter().map(|e| e.name.clone()).collect()
}

fn file(path: &str, sha: &str) -> TreeNode {
    TreeNode { path: path.into(), is_dir: false, sha: sha.into(), size: Some(42) }
}

fn dir(path: &str) -> TreeNode {
    TreeNode { path: path.into(), is_dir: true, sha: "d0d0d0d0".into(), size: None }
}

fn repo(name: &str) -> RepoInfo {
    RepoInfo { name: name.into() }
}

/// A browser on acme/widget with its tree loaded, focused in the root.
fn on_widget() -> Browser {
    let mut b = Browser::new(&["acme".to_string()], &[]);
    b.org_repos_loaded("acme", vec![repo("widget"), repo("gadget")]);
    b.tree_loaded(
        "acme",
        "widget",
        vec![dir("src"), file("src/main.rs", "abcdef0123456789"), file("README.md", "1234567890abcdef")],
        false,
        "main".into(),
    );
    b
}

#[test]
fn new_lists_recent_orgs_then_new_defaults() {
    let b = Browser::new(&["acme".to_string(), "zeta".to_string()], &["zeta".to_string(), "rust-lang".to_string()]);
    assert_eq!(names(&b, 0), vec!["acme", "zeta", "rust-lang"]);
    assert_eq!(b.levels.len(), 1);
    assert_eq!(b.focus, 0);
    assert!(b.levels[0].focused);
    assert_eq!(b.selected_org(), Some("acme".to_string()));
    assert_eq!(b.preview.title, "acme");
    assert!(matches!(b.preview.content, PreviewContent::Empty));
    assert_eq!(b.context(), "");
}

#[test]
fn drilling_an_org_asks_for_its_repos() {
    let mut b = Browser::new(&["acme".to_string()], &[]);
    let a = b.update(&Action::DrillIn);
    assert_eq!(a, Action::LoadOrgRepos("acme".into()));
    assert_eq!(b.focus, 0);
}

#[test]
fn repos_for_another_org_are_ignored() {
    let mut b = Browser::new(&["acme".to_string(), "other".to_string()], &[]);
    b.org_repos_loaded("other", vec![repo("x")]);
    assert_eq!(b.levels.len(), 1);
    b.org_repos_loaded("acme", vec![repo("widget"), repo("gadget")]);
    assert_eq!(b.levels.len(), 2);
    assert_eq!(b.focus, 1);
    assert_eq!(names(&b, 1), vec!["widget", "gadget"]);
    assert_eq!(b.org_repo_full_names(), vec!["acme/widget", "acme/gadget"]);
    assert_eq!(b.context(), "acme");
}

#[test]
fn a_repo_without_its_tree_asks_for_it() {
    let mut b = Browser::new(&["acme".to_string()], &[]);
    b.org_repos_loaded("acme", vec![repo("widget")]);
    let a = b.update(&Action::DrillIn);
    assert_eq!(a, Action::LoadRepoTree { owner: "acme".into(), name: "widget".into() });
    assert_eq!(b.focus, 1);
}

#[test]
fn a_loaded_tree_lands_in_the_repo_root() {
    let b = on_widget();
    assert_eq!(b.focus, 2);
    assert_eq!(names(&b, 2), vec!["src", "README.md"]);
    assert_eq!(b.branch(), Some("main"));
    assert_eq!(b.repo_coords(), Some(("acme".to_string(), "widget".to_string())));
    assert_eq!(b.context(), "acme · widget");
    assert_eq!(b.dir_path(), "");
    assert_eq!(b.preview.title, "src/");
}

#[test]
fn a_tree_for_another_repo_is_ignored() {
    let mut b = Browser::new(&["acme".to_string()], &[]);
    b.org_repos_loaded("acme", vec![repo("widget")]);
    b.tree_loaded("acme", "gadget", vec![file("a.rs", "aaaaaaaa")], false, "main".into());
    assert!(b.tree.is_none());
    assert_eq!(b.levels.len(), 2);
}

#[test]
fn drilling_a_directory_and_back_out() {
    let mut b = on_widget();
    assert_eq!(b.update(&Action::DrillIn), Action::Noop);
    assert_eq!(b.focus, 3);
    assert_eq!(b.dir_path(), "src");
    assert_eq!(names(&b, 3), vec!["main.rs"]);
    assert_eq!(b.context(), "acme · widget · src");
    assert_eq!(b.update(&Action::DrillOut), Action::Noop);
    assert_eq!(b.focus, 2);
    assert_eq!(b.levels.len(), 4, "stepping back keeps the child column");
}

#[test]
fn moving_the_selection_rebuilds_the_child_column() {
    let mut b = on_widget();
    b.update(&Action::DrillOut);
    assert_eq!(b.focus, 1);
    b.update(&Action::MoveDown);
    assert_eq!(b.levels[1].selected, 1);
    assert_eq!(b.levels.len(), 2, "gadget has no loaded tree, so nothing below it");
    b.update(&Action::MoveUp);
    assert_eq!(b.levels.len(), 3, "widget's root comes back from the loaded tree");
    assert_eq!(names(&b, 2), vec!["src", "README.md"]);
}

#[test]
fn a_file_previews_its_meta_and_requests_its_blob_once() {
    let mut b = on_widget();
    b.update(&Action::MoveDown);
    assert_eq!(b.selected_kind(), Some(EntryKind::File));
    assert_eq!(
        b.selected_file(),
        Some(("README.md".to_string(), "1234567890abcdef".to_string()))
    );
    assert_eq!(b.preview.title, "README.md");
    match &b.preview.content {
        PreviewContent::Text(t) => assert_eq!(t, "42 bytes · blob 1234567\n\nloading…"),
        _ => panic!("file meta expected"),
    }
    assert_eq!(
        b.take_blob_request(),
        Some(("1234567890abcdef".to_string(), "README.md".to_string()))
    );
    assert_eq!(b.take_blob_request(), None);
    b.update(&Action::MoveUp);
    b.update(&Action::MoveDown);
    assert_eq!(b.take_blob_request(), None, "an in-flight sha is not asked for again");
}

#[test]
fn select_org_adds_a_missing_org_on_top() {
    let mut b = Browser::new(&["acme".to_string()], &[]);
    b.select_org("newco");
    assert_eq!(names(&b, 0), vec!["newco", "acme"]);
    assert_eq!(b.selected_org(), Some("newco".to_string()));
    b.select_org("acme");
    assert_eq!(b.selected_org(), Some("acme".to_string()));
    assert_eq!(names(&b, 0).len(), 2);
}

#[test]
fn set_repo_lists_and_selects_the_repo() {
    let mut b = Browser::new(&["acme".to_string()], &[]);
    b.set_repo("other", "thing");
    assert_eq!(b.selected_org(), Some("other".to_string()));
    assert_eq!(b.levels[1].title, "other");
    assert_eq!(names(&b, 1), vec!["thing"]);
    assert_eq!(b.focus, 1);
    b.org_repos_loaded("other", vec![repo("a"), repo("thing")]);
    b.update(&Action::DrillOut);
    b.set_repo("other", "thing");
    assert_eq!(b.levels[1].selected, 1);
}

#[test]
fn marks_toggle_sort_and_delete_orgs() {
    let mut b = Browser::new(&["zeta".to_string(), "acme".to_string(), "mid".to_string()], &[]);
    b.enter_visual();
    assert_eq!(b.levels[0].checkboxes, Some(vec![]));
    b.toggle_selected();
    b.update(&Action::MoveDown);
    b.toggle_selected();
    assert_eq!(b.visual_marks(), vec!["orgs/acme", "orgs/zeta"]);
    b.toggle_selected();
    assert_eq!(b.visual_marks(), vec!["orgs/zeta"]);
    b.toggle_selected();
    b.exit_visual();
    assert!(b.levels[0].marks_only);
    let mut gone = b.delete_marked_orgs();
    gone.sort();
    assert_eq!(gone, vec!["acme", "zeta"]);
    assert_eq!(names(&b, 0), vec!["mid"]);
    assert!(b.visual_marks().is_empty());
    assert!(b.delete_marked_orgs().is_empty());
}

#[test]
fn clear_marks_drops_every_mark() {
    let mut b = Browser::new(&["acme".to_string()], &[]);
    b.toggle_selected();
    assert_eq!(b.levels[0].checkboxes, Some(vec!["acme".to_string()]));
    b.clear_marks();
    assert!(b.visual_marks().is_empty());
    assert_eq!(b.levels[0].checkboxes, None);
}

#[test]
fn filter_narrows_the_focused_column() {
    let mut b = on_widget();
    b.filter_input.set("read");
    b.apply_filter();
    assert_eq!(b.levels[2].filter, "read");
    assert_eq!(b.selected_file().map(|f| f.0), Some("README.md".to_string()));
    b.clear_filter();
    assert_eq!(b.levels[2].filter, "");
    assert_eq!(b.filter_input.value(), "");
    assert_eq!(b.selected_kind(), Some(EntryKind::Dir));
}

#[test]
fn switching_revision_drops_the_lenses() {
    let mut b = on_widget();
    b.update(&Action::MoveDown);
    assert!(b.open_history(None));
    b.set_current_ref(Some("v1.0".into()));
    assert!(!b.history_active());
    assert_eq!(b.current_ref(), Some("v1.0"));
    assert_eq!(b.context(), "acme · widget @ v1.0");
}

#[test]
fn history_opens_on_the_previewed_file_and_picks_a_commit() {
    let mut b = on_widget();
    assert!(!b.open_history(None), "a directory has no history");
    b.update(&Action::MoveDown);
    assert!(b.open_history(Some("bbb".into())));
    assert_eq!(b.history_path(), Some("README.md"));
    let c = |sha: &str, s: &str| LogEntry { sha: sha.into(), subject: s.into(), author: "ann".into(), date: "d".into() };
    b.history_loaded(vec![c("aaa111", "first"), c("bbb222", "second")], false);
    assert_eq!(b.history_pick(), Some(("README.md".to_string(), "bbb222".to_string())));
    assert_eq!(b.history_pick_entry().map(|e| e.subject), Some("second".to_string()));
    b.history_move(true);
    assert_eq!(b.history_pick().map(|p| p.1), Some("aaa111".to_string()));
    assert!(b.history_esc());
    assert!(!b.history_active());
}

#[test]
fn blame_marks_apply_when_the_ranges_land() {
    let mut b = on_widget();
    b.update(&Action::MoveDown);
    assert!(b.blame_toggle_on());
    assert_eq!(b.blame_needed_for(), Some("README.md".to_string()));
    b.blame_mark_loading("README.md".into());
    assert_eq!(b.blame_needed_for(), None);
    b.blame_store(
        "README.md".into(),
        vec![BlameRange { sha: "cafebabe99".into(), author: "ann".into(), start_line: 1, end_line: 3 }],
    );
    let marks = b.preview.blame.clone().expect("marks applied");
    assert_eq!(marks[0].as_ref().map(|m| m.sha.clone()), Some("cafebab".to_string()));
    assert_eq!(b.blame_line_sha(), Some("cafebabe99".to_string()));
    b.clear_blame();
    assert!(b.preview.blame.is_none());
    assert_eq!(b.blame_line_sha(), None);
}

#[test]
fn commit_view_remembers_the_present_day_file() {
    let mut b = on_widget();
    b.update(&Action::MoveDown);
    assert!(!b.at_commit_view());
    b.note_commit_view();
    assert!(b.at_commit_view());
    assert_eq!(b.at_commit, Some(("README.md".to_string(), "1234567890abcdef".to_string())));
}

#[test]
fn yank_anchor_is_the_cursor_line_without_a_selection() {
    let mut b = on_widget();
    b.update(&Action::MoveDown);
    assert_eq!(b.yank_anchor(), (Some(1), None));
    b.update(&Action::PreviewLineDown);
    assert_eq!(b.preview_line(), Some(2));
    b.preview.toggle_visual();
    b.update(&Action::PreviewLineDown);
    assert_eq!(b.yank_anchor(), (Some(2), Some(3)));
}


#[test]
fn clone_candidates_fold_marks_into_repos_and_orgs() {
    let mut b = on_widget();
    b.toggle_selected();
    b.update(&Action::DrillOut);
    b.toggle_selected();
    b.update(&Action::MoveDown);
    b.toggle_selected();
    b.update(&Action::DrillOut);
    b.toggle_selected();
    assert_eq!(b.visual_marks(), vec!["acme/gadget", "acme/widget", "orgs/acme", "widget/src"]);
    let (repos, orgs) = clone_candidates(&b);
    assert_eq!(repos, vec!["acme/gadget", "acme/widget"]);
    assert_eq!(orgs, vec!["acme"]);
}

#[test]
fn clone_candidates_without_marks_take_the_whole_repos_column() {
    let b = on_widget();
    let (repos, orgs) = clone_candidates(&b);
    assert_eq!(repos, vec!["acme/gadget", "acme/widget"]);
    assert!(orgs.is_empty());
}

#[test]
fn band_uses_the_remembered_commit_or_asks_for_it() {
    let mut b = on_widget();
    b.update(&Action::MoveDown);
    assert_eq!(band_apply_or_fetch(&mut b, false, &vec![]), None);
    assert_eq!(
        band_apply_or_fetch(&mut b, true, &vec![]),
        Some(("acme/widget".to_string(), "README.md".to_string(), String::new()))
    );
    let memo = vec![LastCommit {
        repo: "acme/widget".into(),
        path: "README.md".into(),
        ref_name: String::new(),
        commit: LogEntry { sha: "c0ffee".into(), subject: "docs".into(), author: "ann".into(), date: "2024".into() },
    }];
    assert_eq!(band_apply_or_fetch(&mut b, true, &memo), None);
    assert_eq!(b.preview.band_path, Some("README.md".to_string()));
    assert_eq!(b.preview.band_context.as_ref().map(|c| c.subject.clone()), Some("docs".to_string()));
}

#[test]
fn blame_toggle_asks_for_ranges_then_turns_off() {
    let mut b = on_widget();
    let step = blame_toggle(&mut b, true);
    assert!(matches!(step, BlameStep::NotText), "a directory listing is no text");
    assert_eq!(blame_status(&step), Some("blame: preview is not a text file".to_string()));
    b.update(&Action::MoveDown);
    let step = blame_toggle(&mut b, false);
    assert_eq!(blame_status(&step), Some("provider has no blame".to_string()));
    let step = blame_toggle(&mut b, true);
    match &step {
        BlameStep::Fetch { repo, path, ref_name } => {
            assert_eq!(repo, "acme/widget");
            assert_eq!(path, "README.md");
            assert_eq!(ref_name, &None);
        }
        _ => panic!("a fetch expected"),
    }
    assert_eq!(blame_status(&step), Some("blame…".to_string()));
    b.blame_store(
        "README.md".into(),
        vec![BlameRange { sha: "0123456789".into(), author: "bo".into(), start_line: 1, end_line: 1 }],
    );
    assert!(b.preview.blame.is_some(), "the waiting lens applies the ranges as they land");
    assert!(matches!(blame_toggle(&mut b, true), BlameStep::Cleared));
    assert!(b.preview.blame.is_none());
    assert!(matches!(blame_toggle(&mut b, true), BlameStep::Fetch { .. }), "off drops the ranges");
}

#[test]
fn history_fetch_names_repo_path_and_ref() {
    let mut b = on_widget();
    assert_eq!(history_fetch(&b), None);
    b.update(&Action::MoveDown);
    b.open_history(None);
    b.set_current_ref(Some("dev".into()));
    assert_eq!(history_fetch(&b), None, "switching revision closes the lens");
    b.open_history(None);
    assert_eq!(
        history_fetch(&b),
        Some(("acme/widget".to_string(), "README.md".to_string(), Some("dev".to_string())))
    );
}
