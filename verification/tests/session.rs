use rootle::action::{Action, DeclarationState};
use rootle::components::consent_popup::ConsentPopup;
use rootle::components::global_search::model::{RawHit, SearchKind};
use rootle::config::Config;
use rootle::components::browser::Browser;
use rootle::components::search_popup::SearchPopup;
use rootle::mode::Mode;
use rootle::provider::{Declaration, ErrorKind, LogEntry, ProviderError, RefInfo, RepoInfo, RepoRefs, SearchItem, TreeNode};
use rootle::components::keybinds_popup::KeybindsPopup;
use rootle::keys::{Key, KeyCode};
use rootle::session::{key_fits_check, route_event, route_key, step, AppEvent, AppState, Effect, KeyRoute};

fn state(offline: bool) -> AppState {
    let mut s = AppState::new(
        Browser::new(&["acme".to_string()], &[]),
        "github".into(),
        offline,
        true,
        true,
        true,
        Config::default(),
        vec!["catppuccin-mocha".to_string()],
        100,
    );
    s.popup = Some(SearchPopup::new());
    s
}

#[test]
fn a_submitted_search_bumps_the_generation_and_spawns() {
    let mut s = state(false);
    let (back, fx) = step(&mut s, Action::SearchSubmitted("rat".into()));
    assert!(back.is_none());
    assert_eq!(s.search_gen, 1);
    assert_eq!(s.status.as_deref(), Some("searching github…"));
    assert!(matches!(fx[0], Effect::CancelInFlight));
    assert!(matches!(fx[1], Effect::SpawnSearch { gen_id: 1 }));
    let mut off = state(true);
    let (_, fx) = step(&mut off, Action::SearchSubmitted("rat".into()));
    assert_eq!(fx.len(), 1, "offline: nothing is fetched");
}

#[test]
fn results_of_a_replaced_search_are_dropped() {
    let mut s = state(false);
    step(&mut s, Action::SearchSubmitted("a".into()));
    step(&mut s, Action::SearchSubmitted("b".into()));
    let fx = route_event(&mut s, AppEvent::SearchResults { gen_id: 1, items: vec![SearchItem::Repo("x/y".into())] });
    assert!(fx.is_empty());
    assert_eq!(s.popup.as_ref().unwrap().results.entries.len(), 0);
    assert_eq!(s.status.as_deref(), Some("searching github…"));
    route_event(&mut s, AppEvent::SearchResults { gen_id: 2, items: vec![SearchItem::Repo("x/y".into())] });
    assert_eq!(s.popup.as_ref().unwrap().results.entries.len(), 1);
    assert_eq!(s.status, None);
}

#[test]
fn selecting_an_org_records_it_and_loads_its_repos() {
    let mut s = state(false);
    let (_, fx) = step(&mut s, Action::OrgSelected("acme".into()));
    assert!(s.popup.is_none());
    assert_eq!(s.status.as_deref(), Some("loading acme…"));
    assert!(matches!(&fx[0], Effect::RecordOrg(o) if o == "acme"));
    assert!(matches!(&fx[1], Effect::SpawnOrgRepos(o) if o == "acme"));
    route_event(&mut s, AppEvent::OrgReposLoaded { org: "acme".into(), repos: vec![RepoInfo { name: "widget".into() }] });
    assert_eq!(s.status, None);
    assert_eq!(s.browser.levels.len(), 2);
    let err = ProviderError::new(ErrorKind::Other, "boom");
    route_event(&mut s, AppEvent::TreeFailed { owner: "acme".into(), name: "widget".into(), error: err });
    assert_eq!(s.status.as_deref(), Some("acme/widget: boom"));
}

#[test]
fn other_actions_are_handed_back() {
    let mut s = state(false);
    let (back, fx) = step(&mut s, Action::LeaderYank);
    assert_eq!(back, Some(Action::LeaderYank));
    assert!(fx.is_empty());
    let (back, _) = step(&mut s, Action::Noop);
    assert_eq!(back, None);
    step(&mut s, Action::Leader);
    assert_eq!(s.mode, Mode::Leader);
}

#[test]
fn a_clone_run_closes_the_wizard_and_clones_unless_offline() {
    let mut s = state(false);
    let (_, fx) = step(&mut s, Action::RunClone { repos: vec!["a/b".into(), "c/d".into()], dest: "/tmp".into() });
    assert_eq!(s.status.as_deref(), Some("cloning 2 repos…"));
    assert!(matches!(&fx[..], [Effect::SpawnClones { repos, dest }] if repos.len() == 2 && dest == "/tmp"));
    let (_, fx) = step(&mut s, Action::RunClone { repos: vec![], dest: "/tmp".into() });
    assert!(fx.is_empty());
    assert_eq!(s.status.as_deref(), Some("nothing selected to clone"));
    let mut off = state(true);
    let (_, fx) = step(&mut off, Action::RunClone { repos: vec!["a/b".into()], dest: "/tmp".into() });
    assert!(fx.is_empty());
    assert_eq!(off.status.as_deref(), Some("cloning 1 repos…"));
}

use rootle::components::global_search::model::SearchHit;
use rootle::components::global_search::view::SearchView;
use rootle::components::preview::Preview;

fn hit(repo: &str, path: &str, line: u32, rows: Vec<(u32, String)>) -> SearchHit {
    SearchHit::plain(repo, path, line, rows, 1, String::new())
}

#[test]
fn streamed_batches_merge_per_file_and_count_past_the_cap() {
    let mut v = SearchView::new(SearchKind::Grep, 2);
    v.update(Action::GlobalSearchDelta {
        hits: vec![hit("o/r", "a.rs", 3, vec![(3, "x".into())]), hit("o/r", "b.rs", 1, vec![])],
    });
    assert_eq!(v.hits.len(), 2);
    v.update(Action::GlobalSearchDelta { hits: vec![hit("o/r", "c.rs", 1, vec![])] });
    assert_eq!(v.hits.len(), 2);
    assert_eq!(v.dropped, 1);
    v.update(Action::GlobalSearchResults {
        hits: vec![],
        clipped: false,
        index: None,
        client_filtered: 0,
        unfiltered: vec![],
    });
    assert!(v.clipped, "dropped hits clip the set");
    assert!(!v.pending);
}

#[test]
fn a_batch_hit_for_a_listed_file_merges_into_its_block() {
    let mut v = SearchView::new(SearchKind::Grep, 10);
    v.update(Action::GlobalSearchDelta { hits: vec![hit("o/r", "a.rs", 7, vec![(7, "x".into())])] });
    v.update(Action::GlobalSearchDelta { hits: vec![hit("o/r", "a.rs", 2, vec![(2, "y".into())])] });
    assert_eq!(v.hits.len(), 1);
    assert_eq!(v.hits[0].line, 2);
    assert_eq!(v.hits[0].match_count, 2);
    v.update(Action::HitContextMissing { sha: v.hits[0].sha.clone() });
    assert!(v.hits[0].unlocatable);
    v.update(Action::GlobalSearchSubmitted {
        kind: rootle::components::global_search::model::SearchKind::Grep,
        query: "q".into(),
        scope: "global".into(),
        extension: String::new(),
    });
    assert!(v.hits.is_empty());
    assert!(v.pending);
}

#[test]
fn preview_rows_carry_numbers_cursor_and_selection() {
    let mut p = Preview::new();
    p.set_bytes("a.txt", b"one\ntwo\nthree\n");
    p.move_cursor(1);
    p.toggle_visual();
    p.move_cursor(1);
    let rows = p.view_rows(2);
    assert_eq!(rows.len(), 2);
    assert_eq!(rows[0].number, Some(1));
    assert_eq!(rows[0].text, "one");
    assert!(!rows[0].cursor && !rows[0].selected);
    assert!(rows[1].selected);
    let rows = p.view_rows(10);
    assert_eq!(rows.len(), 3);
    assert!(rows[2].cursor);
    let empty = Preview::new().view_rows(5);
    assert_eq!(empty.len(), 1);
    assert_eq!(empty[0].text, "nothing selected");
}

/// A state browsing acme/widget, its README previewed.
fn on_readme() -> AppState {
    let mut s = state(false);
    s.browser.org_repos_loaded("acme", vec![RepoInfo { name: "widget".into() }]);
    s.browser.tree_loaded(
        "acme",
        "widget",
        vec![
            TreeNode { path: "src".into(), is_dir: true, sha: "d0d0d0d0".into(), size: None },
            TreeNode { path: "README.md".into(), is_dir: false, sha: "1234567890abcdef".into(), size: Some(4) },
        ],
        false,
        "main".into(),
    );
    s.browser.update(&Action::MoveDown);
    s
}

#[test]
fn the_history_lens_opens_fetches_and_returns_to_its_mode() {
    let mut s = on_readme();
    s.mode = Mode::Preview;
    let (back, fx) = step(&mut s, Action::LeaderHistory);
    assert!(back.is_none());
    assert_eq!(s.mode, Mode::History);
    assert_eq!(s.history_return, Some(Mode::Preview));
    assert!(matches!(&fx[..], [Effect::SpawnLog { repo, path, ref_name: None }]
        if repo == "acme/widget" && path == "README.md"));
    let c = |sha: &str| LogEntry { sha: sha.into(), subject: "s".into(), author: "a".into(), date: "d".into() };
    route_event(&mut s, AppEvent::LogLoaded { path: "README.md".into(), entries: vec![c("aaa"), c("bbb")], truncated: false });
    step(&mut s, Action::HistoryDown);
    assert_eq!(s.browser.history_pick().map(|p| p.1), Some("bbb".to_string()));
    step(&mut s, Action::HistoryUp);
    assert_eq!(s.browser.history_pick().map(|p| p.1), Some("aaa".to_string()));
    step(&mut s, Action::HistoryClose);
    assert!(!s.browser.history_active());
    assert_eq!(s.mode, Mode::Preview);
    assert_eq!(s.history_return, None);
}

#[test]
fn the_history_lens_needs_a_log_and_a_file() {
    let mut s = on_readme();
    s.log_capable = false;
    let (_, fx) = step(&mut s, Action::LeaderHistory);
    assert!(fx.is_empty());
    assert_eq!(s.status.as_deref(), Some("provider has no commit log"));
    let mut s = state(false);
    let (_, fx) = step(&mut s, Action::LeaderHistory);
    assert!(fx.is_empty());
    assert_eq!(s.mode, Mode::Browse);
    assert_eq!(s.status.as_deref(), Some("preview a file for its history"));
}

#[test]
fn the_preview_submode_needs_an_open_repo() {
    let mut s = state(false);
    step(&mut s, Action::LeaderPreview);
    assert_eq!(s.mode, Mode::Browse);
    assert_eq!(s.status.as_deref(), Some("open a repo first"));
    let mut s = on_readme();
    step(&mut s, Action::LeaderPreview);
    assert_eq!(s.mode, Mode::Preview);
}

#[test]
fn blame_on_a_text_preview_asks_for_ranges_and_off_clears() {
    let mut s = on_readme();
    s.browser.preview.set_bytes("README.md", b"hello\n");
    let (back, fx) = step(&mut s, Action::BlameToggle);
    assert!(back.is_none());
    assert_eq!(s.status.as_deref(), Some("blame…"));
    assert!(matches!(&fx[..], [Effect::SpawnBlame { repo, path, ref_name: None }]
        if repo == "acme/widget" && path == "README.md"));
    let mut off = on_readme();
    off.blame_capable = false;
    let (_, fx) = step(&mut off, Action::BlameToggle);
    assert!(fx.is_empty());
    assert_eq!(off.status.as_deref(), Some("provider has no blame"));
}

#[test]
fn enter_outside_blame_opens_the_selection() {
    let mut s = on_readme();
    let (back, fx) = step(&mut s, Action::PreviewEnter);
    assert_eq!(back, None);
    assert!(matches!(&fx[..], [Effect::Then(Action::OpenSelected)]));
}

#[test]
fn drilling_an_org_asks_for_its_repos_next() {
    let mut s = state(false);
    let (back, fx) = step(&mut s, Action::DrillIn);
    assert_eq!(back, None);
    assert!(matches!(&fx[..], [Effect::Then(Action::LoadOrgRepos(o))] if o == "acme"));
    let (_, fx) = step(&mut s, Action::LoadOrgRepos("acme".into()));
    assert!(matches!(&fx[..], [Effect::SpawnOrgRepos(o)] if o == "acme"));
}

#[test]
fn visual_marks_toggle_and_clear() {
    let mut s = state(false);
    step(&mut s, Action::Visual);
    assert_eq!(s.mode, Mode::Visual);
    assert!(s.browser.visual);
    step(&mut s, Action::ToggleSelect);
    assert_eq!(s.browser.visual_marks(), vec!["orgs/acme".to_string()]);
    step(&mut s, Action::ExitVisual);
    assert_eq!(s.mode, Mode::Browse);
    assert_eq!(s.browser.visual_marks().len(), 1, "the marks outlive VISUAL");
    step(&mut s, Action::ClearMarks);
    assert!(s.browser.visual_marks().is_empty());
    assert_eq!(s.status.as_deref(), Some("marks cleared"));
}

#[test]
fn a_previewed_revision_drops_the_lenses() {
    let mut s = on_readme();
    step(&mut s, Action::LeaderHistory);
    step(&mut s, Action::RefsPreview("v1.0".into()));
    assert_eq!(s.browser.current_ref(), Some("v1.0"));
    assert!(!s.browser.history_active());
}

#[test]
fn the_selected_hit_is_the_yank_target() {
    let mut v = SearchView::new(SearchKind::Grep, 10);
    assert!(v.yank_target().is_none());
    v.update(Action::GlobalSearchDelta { hits: vec![hit("o/r", "a.rs", 3, vec![(3, "x".into())])] });
    let t = v.yank_target().unwrap();
    assert_eq!((t.repo.as_str(), t.path.as_str(), t.line, t.end), ("o/r", "a.rs", Some(3), None));
}

#[test]
fn a_finished_clone_run_reports_counts_and_the_first_failure() {
    let mut s = state(false);
    route_event(&mut s, AppEvent::CloneDone { ok: vec!["a/b".into()], failed: vec![] });
    assert_eq!(s.status.as_deref(), Some("cloned 1 repo"));
    let long = "x".repeat(50);
    route_event(&mut s, AppEvent::CloneDone {
        ok: vec!["a/b".into(), "c/d".into()],
        failed: vec![("e/f".into(), long), ("g/h".into(), "later".into())],
    });
    assert_eq!(s.status.as_deref(), Some(format!("cloned 2 repos, 2 failed ({} …)", "x".repeat(40)).as_str()));
    route_event(&mut s, AppEvent::CloneDone { ok: vec![], failed: vec![("e/f".into(), "denied".into())] });
    assert_eq!(s.status.as_deref(), Some("cloned 0 repos, 1 failed (denied …)"));
}

#[test]
fn quitting_remembers_the_path_and_saves() {
    let mut s = state(false);
    let (back, fx) = step(&mut s, Action::Quit);
    assert_eq!(back, None);
    assert!(s.should_quit);
    assert_eq!(s.last_path.as_deref(), Some(""));
    assert!(matches!(&fx[..], [Effect::SaveState]));
}

#[test]
fn esc_closes_the_topmost_overlay_first() {
    let mut s = state(false);
    step(&mut s, Action::KeybindsPopup);
    step(&mut s, Action::CommandLine);
    assert!(s.help.is_some() && s.command_line.is_some());
    step(&mut s, Action::ClosePopup);
    assert!(s.help.is_none(), "help sits above the command line");
    assert!(s.command_line.is_some());
    step(&mut s, Action::ClosePopup);
    assert!(s.command_line.is_none());
    assert!(s.popup.is_some());
    step(&mut s, Action::ClosePopup);
    assert!(s.popup.is_none());
    assert_eq!(s.mode, Mode::Browse);
}

#[test]
fn commands_open_settings_jump_or_say_they_are_unknown() {
    let mut s = state(false);
    step(&mut s, Action::CommandLine);
    step(&mut s, Action::RunCommand("settings".into()));
    assert!(s.command_line.is_none());
    assert!(s.settings.is_some());
    let mut s = state(false);
    step(&mut s, Action::RunCommand("frobnicate".into()));
    assert_eq!(s.status.as_deref(), Some("unknown command: frobnicate"));
    step(&mut s, Action::RunCommand("42".into()));
    assert_eq!(s.status.as_deref(), Some(":42: not in a file view"));
    s.browser.preview.set_bytes("a.txt", b"one\ntwo\nthree\n");
    step(&mut s, Action::RunCommand("2".into()));
    assert_eq!(s.browser.preview.cursor, 1);
    step(&mut s, Action::RunCommand("0".into()));
    assert_eq!(s.status.as_deref(), Some("unknown command: 0"));
}

#[test]
fn clone_command_opens_the_wizard_or_expands_orgs() {
    let mut s = state(false);
    let (_, fx) = step(&mut s, Action::RunCommand("clone".into()));
    assert!(matches!(&fx[..], [Effect::OpenCloneWizard { .. }] | [Effect::SpawnExpandClone { .. }]));
    let mut s = state(false);
    step(&mut s, Action::Visual);
    step(&mut s, Action::ToggleSelect);
    let (_, fx) = step(&mut s, Action::RunCommand("clone".into()));
    assert_eq!(s.status.as_deref(), Some("expanding 1 org(s)…"));
    assert!(matches!(&fx[..], [Effect::SpawnExpandClone { orgs, .. }] if orgs == &vec!["acme".to_string()]));
}

#[test]
fn applying_settings_reloads_the_theme_and_saves() {
    let mut s = state(false);
    let mut c = Config::default();
    c.theme.name = "gruvbox".into();
    let (_, fx) = step(&mut s, Action::ApplySettings(c));
    assert_eq!(s.config.theme.name, "gruvbox");
    assert!(matches!(&fx[..], [Effect::ReloadTheme, Effect::SaveConfig { provider_changed: false }]));
    let mut c = Config::default();
    c.theme.name = "gruvbox".into();
    c.provider.kind = "gitlab".into();
    let (_, fx) = step(&mut s, Action::ApplySettings(c));
    assert!(matches!(&fx[..], [Effect::SaveConfig { provider_changed: true }]));
    route_event(&mut s, AppEvent::ConfigSaved { provider_changed: true, error: None });
    assert_eq!(s.status.as_deref(), Some("settings saved — provider applies after restart"));
    route_event(&mut s, AppEvent::ConfigSaved { provider_changed: false, error: Some("disk full".into()) });
    assert_eq!(s.status.as_deref(), Some("settings: disk full (applied live)"));
}

fn decl() -> Declaration {
    Declaration { name: "forgejo".into(), repo: "o/forgejo-adapter".into(), tag: None, sha: None }
}

#[test]
fn a_declined_install_leaves_a_sticky_note() {
    let mut s = state(false);
    s.consent = Some(ConsentPopup::new(decl()));
    step(&mut s, Action::DeclarationDecline);
    assert!(s.consent.is_none());
    let note = "forgejo not installed — browsing github (retry: rootle provider install forgejo)";
    assert_eq!(s.degraded.as_deref(), Some(note));
    assert_eq!(s.status.as_deref(), Some(note));
}

#[test]
fn an_accepted_install_spawns_and_shows_progress() {
    let mut s = state(false);
    s.consent = Some(ConsentPopup::new(decl()));
    let (_, fx) = step(&mut s, Action::DeclarationAccept);
    assert_eq!(s.status.as_deref(), Some("installing forgejo…"));
    assert!(matches!(&fx[..], [Effect::SpawnDeclaredInstall(d)] if d.name == "forgejo"));
    step(&mut s, Action::DeclarationState(DeclarationState::Failed("no network".into())));
    assert!(s.consent.is_some());
}

fn raw(path: &str) -> RawHit {
    RawHit {
        repo: "o/r".into(),
        path: path.into(),
        sha: "abc".into(),
        branch: "main".into(),
        line: 1,
        preview: vec![],
        match_count: 1,
        stale: false,
    }
}

fn submit(s: &mut AppState) -> Vec<Effect> {
    step(s, Action::GlobalSearchSubmitted {
        kind: SearchKind::Grep,
        query: "render".into(),
        scope: "global".into(),
        extension: String::new(),
    })
    .1
}

#[test]
fn a_global_search_spawns_and_stale_answers_are_dropped() {
    let mut s = state(false);
    step(&mut s, Action::LeaderGrep);
    assert!(s.search_view.is_some());
    let fx = submit(&mut s);
    assert_eq!(s.view_gen, 1);
    assert_eq!(s.status.as_deref(), Some("searching code…"));
    assert!(matches!(&fx[..], [Effect::CancelInFlight, Effect::SpawnViewSearch { gen_id: 1, .. }]));
    submit(&mut s);
    route_event(&mut s, AppEvent::GlobalSearchDelta { gen_id: 1, hits: vec![raw("a.rs")] });
    assert_eq!(s.search_view.as_ref().unwrap().hits.len(), 0, "a stale batch is dropped");
    route_event(&mut s, AppEvent::GlobalSearchDelta { gen_id: 2, hits: vec![raw("a.rs"), raw("b.rs")] });
    assert_eq!(s.search_view.as_ref().unwrap().hits.len(), 2);
    assert_eq!(s.status.as_deref(), Some("searching github… 2 hits"));
    route_event(&mut s, AppEvent::GlobalSearchResults {
        gen_id: 2,
        hits: vec![],
        clipped: true,
        index: None,
        client_filtered: 0,
        unfiltered: vec![],
    });
    let v = s.search_view.as_ref().unwrap();
    assert!(!v.pending && v.clipped);
    assert_eq!(v.hits.len(), 2);
    assert_eq!(s.status.as_deref(), Some("searching github… 2 hits"), "only a searching-code status clears");
}

#[test]
fn an_offline_global_search_answers_from_the_mock() {
    let mut s = state(true);
    step(&mut s, Action::LeaderGrep);
    let (_, fx) = step(&mut s, Action::GlobalSearchSubmitted {
        kind: SearchKind::Grep,
        query: "query".into(),
        scope: "global".into(),
        extension: String::new(),
    });
    assert!(matches!(&fx[..], [Effect::CancelInFlight]));
    let v = s.search_view.as_ref().unwrap();
    assert!(!v.pending);
    assert!(!v.hits.is_empty());
    assert_eq!(s.status, None);
    step(&mut s, Action::CloseSearchView);
    assert!(s.search_view.is_none());
}

#[test]
fn copying_from_the_preview_reports_the_lines() {
    let mut s = state(false);
    let (_, fx) = step(&mut s, Action::PreviewCopy);
    assert!(fx.is_empty());
    assert_eq!(s.status.as_deref(), Some("nothing to copy"));
    s.browser.preview.set_bytes("a.txt", b"one\ntwo\n");
    let (_, fx) = step(&mut s, Action::PreviewCopy);
    assert_eq!(s.status.as_deref(), Some("copied 1 line"));
    assert!(matches!(&fx[..], [Effect::CopyToClipboard(t)] if t == "one\n"));
}

#[test]
fn the_search_popup_reopens_on_the_last_repo() {
    let mut s = state(false);
    s.popup = None;
    s.last_repo = Some("o/r".into());
    step(&mut s, Action::LeaderSearch);
    let p = s.popup.as_ref().unwrap();
    assert_eq!(p.input.value(), "o/r");
    assert_eq!(p.forge, "github");
}

#[test]
fn enter_on_a_file_asks_the_editor_and_on_a_dir_drills() {
    let mut s = on_readme();
    let (_, fx) = step(&mut s, Action::OpenSelected);
    assert!(matches!(&fx[..], [Effect::EditBlob { repo, path, sha }]
        if repo == "acme/widget" && path == "README.md" && sha == "1234567890abcdef"));
    step(&mut s, Action::MoveUp);
    let (_, fx) = step(&mut s, Action::OpenSelected);
    assert!(matches!(&fx[..], [Effect::Then(_)]));
}

#[test]
fn a_stand_in_hit_opens_its_body_under_the_view_kind() {
    let mut s = state(false);
    step(&mut s, Action::LeaderFileFind);
    let h = hit("o/r", "a.rs", 1, vec![]);
    let (_, fx) = step(&mut s, Action::OpenSearchHit(h));
    assert!(matches!(&fx[..], [Effect::EditMockHit { slug, path, .. }] if slug == "find" && path == "a.rs"));
    route_event(&mut s, AppEvent::MockEditorMissing);
    assert_eq!(s.status.as_deref(), Some("no editor found — set [editor].program or $EDITOR"));
    route_event(&mut s, AppEvent::EditorFailed { message: "path traversal".into() });
    assert_eq!(s.status.as_deref(), Some("editor: path traversal"));
}

#[test]
fn hit_context_waits_for_the_cursor_to_rest_and_fetches_once() {
    let mut s = state(false);
    step(&mut s, Action::LeaderGrep);
    submit(&mut s);
    let mut h = hit("o/r", "a.rs", 1, vec![]);
    h.sha = "abc".into();
    let (_, fx) = step(&mut s, Action::LoadHitContext { hit: h.clone(), query: "needle".into() });
    assert!(matches!(&fx[..], [Effect::ArmContextTimer { timer_gen: 1, .. }]));
    step(&mut s, Action::LoadHitContext { hit: h.clone(), query: "needle".into() });
    let (_, fx) = step(&mut s, Action::HitContextDebounceFired { timer_gen: 1, hit: h.clone(), query: "needle".into() });
    assert!(fx.is_empty(), "a rearmed timer voids the older one");
    let (_, fx) = step(&mut s, Action::HitContextDebounceFired { timer_gen: 2, hit: h.clone(), query: "needle".into() });
    assert!(matches!(&fx[..], [Effect::SpawnHitContext { gen_id: 1, .. }]));
    assert_eq!(s.pending_context_sha.as_deref(), Some("abc"));
    let ev = rootle::session::hit_context_event(1, h.clone(), "needle", Ok(b"x\nneedle here\n".to_vec()));
    assert!(matches!(&ev, AppEvent::HitContextLoaded { line: 2, match_count: 1, .. }));
    route_event(&mut s, ev);
    assert_eq!(s.pending_context_sha, None);
    let ev = rootle::session::hit_context_event(1, h, "zzz", Ok(b"x\n".to_vec()));
    assert!(matches!(ev, AppEvent::HitContextMissing { gen_id: 1, .. }));
}

#[test]
fn the_revision_switcher_opens_on_the_branch_and_commits() {
    let mut s = on_readme();
    let (_, fx) = step(&mut s, Action::LeaderRefs);
    assert!(matches!(&fx[..], [Effect::SpawnRefs(r)] if r == "acme/widget"));
    assert_eq!(s.refs_popup.as_ref().unwrap().baseline(), "main");
    let refs = RepoRefs {
        branches: vec![RefInfo { name: "main".into(), sha: "a".into(), is_default: true }],
        tags: vec![RefInfo { name: "v1".into(), sha: "b".into(), is_default: false }],
    };
    route_event(&mut s, AppEvent::RefsLoaded { repo: "acme/widget".into(), refs });
    assert_eq!(s.refs_popup.as_ref().unwrap().visible().len(), 2);
    step(&mut s, Action::RefsPreview("v1".into()));
    assert_eq!(s.browser.current_ref(), Some("v1"));
    step(&mut s, Action::ClosePopup);
    assert!(s.refs_popup.is_none());
    assert_eq!(s.browser.current_ref(), None, "Esc reverts to the committed revision");
    step(&mut s, Action::LeaderRefs);
    let (_, fx) = step(&mut s, Action::RefsCommit("v1".into()));
    assert_eq!(s.status.as_deref(), Some("switched to v1"));
    assert_eq!(s.refs_baseline.as_deref(), Some("v1"));
    assert!(matches!(&fx[..], [Effect::Then(Action::LoadRepoTree { owner, name })] if owner == "acme" && name == "widget"));
    let mut s = state(false);
    step(&mut s, Action::LeaderRefs);
    assert_eq!(s.status.as_deref(), Some("open a repo to switch revisions"));
}

#[test]
fn deleting_marked_orgs_reports_and_forgets_them() {
    let mut s = state(false);
    step(&mut s, Action::DeleteMarked);
    assert_eq!(s.status.as_deref(), Some("no marked orgs (mark orgs in VISUAL, ␣d)"));
    step(&mut s, Action::Visual);
    step(&mut s, Action::ToggleSelect);
    let (_, fx) = step(&mut s, Action::DeleteMarked);
    assert_eq!(s.status.as_deref(), Some("deleted 1 org(s)"));
    assert_eq!(s.mode, Mode::Browse);
    assert!(matches!(&fx[..], [Effect::ForgetOrgs(v)] if v == &vec!["acme".to_string()]));
}

#[test]
fn a_blob_is_fetched_unless_offline() {
    let mut s = state(false);
    let (_, fx) = step(&mut s, Action::LoadBlob { sha: "abc".into(), name: "a.rs".into() });
    assert!(matches!(&fx[..], [Effect::SpawnBlob { sha, .. }] if sha == "abc"));
    let mut off = state(true);
    let (_, fx) = step(&mut off, Action::LoadBlob { sha: "abc".into(), name: "a.rs".into() });
    assert!(fx.is_empty());
}

/// `on_readme` with the history lens open on two commits.
fn on_readme_history() -> AppState {
    let mut s = on_readme();
    s.mode = Mode::Preview;
    step(&mut s, Action::LeaderHistory);
    let c = |sha: &str, subject: &str| LogEntry {
        sha: sha.into(),
        subject: subject.into(),
        author: "ana".into(),
        date: "2024-05-01".into(),
    };
    route_event(&mut s, AppEvent::LogLoaded {
        path: "README.md".into(),
        entries: vec![c("aaaaaaa111", "first"), c("bbbbbbb222", "second")],
        truncated: false,
    });
    s
}

#[test]
fn opening_a_picked_commit_fetches_the_file_at_it() {
    let mut s = on_readme_history();
    step(&mut s, Action::HistoryDown);
    let (back, fx) = step(&mut s, Action::HistoryOpen);
    assert!(back.is_none());
    assert_eq!(s.status.as_deref(), Some("opening at commit"));
    assert!(matches!(&fx[..], [Effect::SpawnBlobAt { repo, path, sha, subject, author, date }]
        if repo == "acme/widget" && path == "README.md" && sha == "bbbbbbb222" && subject == "second"
            && author == "ana" && date == "2024-05-01"));
}

#[test]
fn opening_with_no_commit_picked_does_nothing() {
    let mut s = on_readme();
    s.mode = Mode::Preview;
    step(&mut s, Action::LeaderHistory);
    let (back, fx) = step(&mut s, Action::HistoryOpen);
    assert!(back.is_none());
    assert!(fx.is_empty());
    assert_eq!(s.status, None);
}

fn blob_at(bytes: &[u8]) -> AppEvent {
    AppEvent::BlobAtLoaded {
        path: "README.md".into(),
        ref_: "bbbbbbb222".into(),
        sha: "f00df00d".into(),
        bytes: bytes.to_vec(),
        subject: "second".into(),
        author: "ana".into(),
        date: "2024-05-01".into(),
    }
}

#[test]
fn a_file_at_a_commit_opens_in_the_preview_and_closes_the_lens() {
    let mut s = on_readme_history();
    s.status = Some("opening at commit".into());
    let fx = route_event(&mut s, blob_at(b"old\ntext\n"));
    assert!(fx.is_empty());
    assert_eq!(s.mode, Mode::Preview);
    assert_eq!(s.history_return, Some(Mode::Preview));
    assert_eq!(s.status, None);
    assert!(!s.browser.history_active());
    assert!(s.browser.at_commit_view());
    let p = &s.browser.preview;
    assert_eq!(p.title, "README.md @ bbbbbbb");
    assert_eq!(p.content_text().as_deref(), Some("old\ntext\n"));
    assert_eq!(p.line_count, 2);
    assert!(p.numbered);
    assert_eq!(p.band_path.as_deref(), Some("README.md"));
    let band = p.band_context.as_ref().unwrap();
    assert_eq!(band.sha, "bbbbbbb");
    assert_eq!(band.subject, "second");
    assert_eq!(band.author, "ana");
    assert_eq!(band.date, "2024-05-01");
    assert_eq!(s.browser.blobs.last().map(|b| b.sha.as_str()), Some("f00df00d"));
}

#[test]
fn a_binary_file_at_a_commit_is_only_reported() {
    let mut s = on_readme_history();
    let fx = route_event(&mut s, blob_at(&[0, 159, 146, 150]));
    assert!(fx.is_empty());
    assert_eq!(s.status.as_deref(), Some("binary file at that commit"));
    assert_eq!(s.mode, Mode::History);
    assert!(s.browser.history_active());
    assert!(!s.browser.at_commit_view());
}

#[test]
fn a_failed_fetch_at_a_commit_shows_the_provider_status() {
    let mut s = on_readme_history();
    let error = ProviderError { kind: ErrorKind::Other, message: "gone".into(), retry_after: None };
    route_event(&mut s, AppEvent::BlobAtFailed { path: "README.md".into(), error });
    assert_eq!(s.status.as_deref(), Some("gone"));
    assert!(s.browser.history_active());
}

#[test]
fn a_newer_release_is_noted_and_toasted_over_an_empty_status() {
    let mut s = state(false);
    route_event(&mut s, AppEvent::UpdateAvailable { tag: "v1.2.0".into(), toast: true });
    assert_eq!(s.update_tag.as_deref(), Some("v1.2.0"));
    assert_eq!(s.status.as_deref(), Some("rootle v1.2.0 is out — run `rootle update`"));
    let mut busy = state(false);
    busy.status = Some("loading acme…".into());
    route_event(&mut busy, AppEvent::UpdateAvailable { tag: "v1.2.0".into(), toast: true });
    assert_eq!(busy.update_tag.as_deref(), Some("v1.2.0"));
    assert_eq!(busy.status.as_deref(), Some("loading acme…"));
    let mut quiet = state(false);
    route_event(&mut quiet, AppEvent::UpdateAvailable { tag: "v1.2.0".into(), toast: false });
    assert_eq!(quiet.update_tag.as_deref(), Some("v1.2.0"));
    assert_eq!(quiet.status, None);
}

#[test]
fn an_installed_provider_is_started_and_the_prompt_dropped() {
    let mut s = state(false);
    s.consent = Some(ConsentPopup::new(decl()));
    s.degraded = Some("old note".into());
    let fx = route_event(&mut s, AppEvent::DeclarationInstalled { name: "forgejo".into() });
    assert!(s.consent.is_none());
    assert_eq!(s.degraded, None);
    assert!(matches!(&fx[..], [Effect::StartInstalled(n)] if n == "forgejo"));
    route_event(&mut s, AppEvent::ProviderStarted {
        name: "forgejo".into(),
        forge: "forgejo".into(),
        log_capable: false,
        blame_capable: true,
        refs_capable: false,
    });
    assert_eq!(s.status.as_deref(), Some("forgejo ready"));
    assert_eq!(s.forge, "forgejo");
    assert!(!s.log_capable);
    assert!(s.blame_capable);
    assert!(!s.refs_capable);
}

#[test]
fn a_provider_that_will_not_start_leaves_a_sticky_note() {
    let mut s = state(false);
    route_event(&mut s, AppEvent::ProviderUnavailable { name: "forgejo".into(), error: "exec format error".into() });
    let note = "forgejo unavailable: exec format error — browsing github";
    assert_eq!(s.degraded.as_deref(), Some(note));
    assert_eq!(s.status.as_deref(), Some(note));
}

#[test]
fn a_failed_install_shows_in_the_prompt_or_the_status() {
    let note = "forgejo unavailable: checksum mismatch — browsing github";
    let mut s = state(false);
    s.consent = Some(ConsentPopup::new(decl()));
    let fx = route_event(&mut s, AppEvent::DeclarationFailed { name: "forgejo".into(), error: "checksum mismatch".into() });
    assert!(fx.is_empty());
    assert_eq!(s.degraded.as_deref(), Some(note));
    assert_eq!(s.status, None);
    let lines = s.consent.as_ref().unwrap().lines();
    assert!(lines.iter().any(|l| l.contains("checksum mismatch")));
    let mut t = state(false);
    route_event(&mut t, AppEvent::DeclarationFailed { name: "forgejo".into(), error: "checksum mismatch".into() });
    assert_eq!(t.degraded.as_deref(), Some(note));
    assert_eq!(t.status.as_deref(), Some(note));
}

#[test]
fn the_install_prompt_takes_keys_before_any_overlay() {
    let mut s = state(false);
    s.help = Some(KeybindsPopup::new());
    s.consent = Some(ConsentPopup::new(decl()));
    let k = Key::plain(KeyCode::Char('y'));
    assert!(key_fits_check(&s, k));
    assert!(matches!(route_key(&mut s, k), KeyRoute::Act(Action::DeclarationAccept)));
    s.consent = None;
    let before = s.help.as_ref().unwrap().mode;
    assert!(matches!(route_key(&mut s, Key::plain(KeyCode::Tab)), KeyRoute::Act(Action::Noop)));
    assert_ne!(s.help.as_ref().unwrap().mode, before);
}

#[test]
fn the_search_view_owns_keys_but_the_leader_layer_goes_to_its_table() {
    let mut s = state(false);
    s.popup = None;
    s.search_view = Some(SearchView::new(SearchKind::Grep, 10));
    assert!(matches!(route_key(&mut s, Key::plain(KeyCode::Char('j'))), KeyRoute::SearchView));
    s.mode = Mode::Leader;
    assert!(matches!(route_key(&mut s, Key::plain(KeyCode::Char('g'))), KeyRoute::Table(Mode::Leader)));
}

#[test]
fn browsing_keys_go_to_the_table_and_the_filter_input_takes_typing() {
    let mut s = state(false);
    s.popup = None;
    assert!(matches!(route_key(&mut s, Key::plain(KeyCode::Char('j'))), KeyRoute::Table(Mode::Browse)));
    s.mode = Mode::Search;
    assert!(matches!(route_key(&mut s, Key::plain(KeyCode::Char('a'))), KeyRoute::Act(Action::Noop)));
    assert_eq!(s.browser.filter_input.value(), "a");
    assert!(matches!(route_key(&mut s, Key::plain(KeyCode::Enter)), KeyRoute::Act(Action::CommitFilter)));
}

#[test]
fn preview_keys_move_select_copy_and_fall_to_the_table() {
    let mut s = on_readme();
    s.popup = None;
    s.browser.preview.set_text("notes", "one\ntwo\nthree\n".to_string());
    s.mode = Mode::Preview;
    assert!(matches!(route_key(&mut s, Key::plain(KeyCode::Char('j'))), KeyRoute::Act(Action::Noop)));
    assert_eq!(s.browser.preview.cursor, 1);
    assert!(matches!(route_key(&mut s, Key::plain(KeyCode::Char('v'))), KeyRoute::Act(Action::Noop)));
    assert_eq!(s.browser.preview.visual_anchor, Some(1));
    assert!(matches!(route_key(&mut s, Key::plain(KeyCode::Char('Y'))), KeyRoute::Act(Action::PreviewCopy)));
    assert!(matches!(route_key(&mut s, Key::plain(KeyCode::Esc)), KeyRoute::Act(Action::Noop)));
    assert_eq!(s.browser.preview.visual_anchor, None);
    assert!(matches!(route_key(&mut s, Key::plain(KeyCode::Esc)), KeyRoute::Table(Mode::Preview)));
}
