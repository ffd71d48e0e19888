use rootle::action::{Action, DeclarationState};
use rootle::components::clone_wizard::{CloneWizard, DestMove, Screen};
use rootle::components::consent_popup::ConsentPopup;
use rootle::components::keybinds_popup::{KeybindsPopup, MODE_COUNT};
use rootle::components::refs_popup::RefsPopup;
use rootle::components::settings_popup::sections::Row;
use rootle::components::search_popup::CursorStyle;
use rootle::components::settings_popup::SettingsPopup;
use rootle::config::Config;
use rootle::keys::{Key, KeyCode};
use rootle::mode::Mode;
use rootle::provider::{Declaration, HealthIssue, RefInfo, RepoRefs};

fn key(code: KeyCode) -> Key {
    Key::plain(code)
}

fn decl() -> Declaration {
    Declaration { name: "gitlab".into(), repo: "rootledev/rootle-gitlab".into(), tag: None, sha: None }
}

fn screen(popup: &ConsentPopup) -> String {
    popup.lines().join("\n")
}

#[test]
fn asks_with_trust_line_and_maps_keys() {
    let mut popup = ConsentPopup::new(decl());
    let s = screen(&popup);
    assert!(s.contains("config declares gitlab"), "{s}");
    assert!(s.contains("rootledev/rootle-gitlab"), "{s}");
    assert!(s.contains("you are trusting rootledev/rootle-gitlab"), "{s}");
    assert!(s.contains("y install"), "{s}");
    assert!(s.contains("n browse github"), "{s}");
    assert_eq!(popup.handle_key(key(KeyCode::Char('y'))), Action::DeclarationAccept);
    assert_eq!(popup.handle_key(key(KeyCode::Char('n'))), Action::DeclarationDecline);
    assert_eq!(popup.handle_key(key(KeyCode::Esc)), Action::DeclarationDecline);
    assert_eq!(popup.handle_key(key(KeyCode::Char('q'))), Action::Noop);
}

#[test]
fn pins_surface_in_the_popup() {
    let popup = ConsentPopup::new(Declaration { tag: Some("v0.2.1".into()), sha: Some("deadbeef".into()), ..decl() });
    let s = screen(&popup);
    assert!(s.contains("pins"), "{s}");
    assert!(s.contains("tag v0.2.1"), "{s}");
    assert!(s.contains("sha256"), "{s}");
    assert!(s.contains("against your config's pin"), "{s}");
}

#[test]
fn installing_and_failed_states_render() {
    let mut popup = ConsentPopup::new(decl());
    popup.set_state(DeclarationState::Installing);
    assert!(screen(&popup).contains("installing — verified download running"));
    assert_eq!(popup.handle_key(key(KeyCode::Char('y'))), Action::Noop, "no second install while one runs");
    popup.set_state(DeclarationState::Failed("network: refused".into()));
    let s = screen(&popup);
    assert!(s.contains("failed: network: refused"), "{s}");
    assert!(s.contains("esc — browse github"), "{s}");
    assert_eq!(popup.handle_key(key(KeyCode::Esc)), Action::DeclarationDecline);
}

#[test]
fn health_prompt_offers_retry_only_when_it_could_help() {
    let issue = HealthIssue { name: "gitlab".into(), error: "spawn failed".into(), retryable: false };
    let mut popup = ConsentPopup::health(issue);
    let s = screen(&popup);
    assert!(s.contains("gitlab failed to start"), "{s}");
    assert!(!s.contains("r retry"), "{s}");
    assert_eq!(popup.handle_key(key(KeyCode::Char('r'))), Action::Noop);
    assert_eq!(popup.handle_key(key(KeyCode::Char('e'))), Action::DeclarationEditConfig);
    assert_eq!(popup.handle_key(key(KeyCode::Char('g'))), Action::DeclarationDecline);
    let mut retry = ConsentPopup::health(HealthIssue { name: "x".into(), error: "e".into(), retryable: true });
    assert_eq!(retry.handle_key(key(KeyCode::Char('r'))), Action::DeclarationRetry);
}

fn info(name: &str, sha: &str, is_default: bool) -> RefInfo {
    RefInfo { name: name.into(), sha: sha.into(), is_default }
}

fn loaded_popup(current: &str) -> RefsPopup {
    let mut p = RefsPopup::new(current);
    p.set_refs(RepoRefs {
        branches: vec![
            info("main", "a1b2c3d", true),
            info("release/2.7", "e4f5a6b", false),
            info("feature/miller-panes", "c7d8e9f", false),
        ],
        tags: vec![info("v0.7.1", "d4e5f6a", false)],
    });
    p
}

#[test]
fn cursor_previews_and_enter_commits() {
    let mut p = loaded_popup("main");
    assert_eq!(p.handle_key(key(KeyCode::Char('j'))), Action::RefsPreview("release/2.7".into()));
    assert_eq!(p.handle_key(key(KeyCode::Char('j'))), Action::RefsPreview("feature/miller-panes".into()));
    assert_eq!(p.handle_key(key(KeyCode::Enter)), Action::RefsCommit("feature/miller-panes".into()));
    let mut p = loaded_popup("main");
    assert_eq!(p.handle_key(key(KeyCode::Char('k'))), Action::RefsPreview("v0.7.1".into()));
}

#[test]
fn slash_filter_narrows_and_esc_cancels() {
    let mut p = loaded_popup("main");
    p.handle_key(key(KeyCode::Char('/')));
    for c in "release".chars() {
        p.handle_key(key(KeyCode::Char(c)));
    }
    let action = p.handle_key(key(KeyCode::Enter));
    assert_eq!(action, Action::RefsPreview("release/2.7".into()));
    assert_eq!(p.handle_key(key(KeyCode::Enter)), Action::RefsCommit("release/2.7".into()));
}

#[test]
fn loading_state_offers_nothing() {
    let mut p = RefsPopup::new("main");
    assert_eq!(p.handle_key(key(KeyCode::Enter)), Action::Noop);
    assert_eq!(p.handle_key(key(KeyCode::Char('j'))), Action::Noop);
    assert_eq!(p.baseline(), "main");
}

fn popup() -> SettingsPopup {
    SettingsPopup::new(&Config::default(), vec!["gruvbox-dark".into()])
}

fn section_name(p: &SettingsPopup) -> &'static str {
    p.sections()[p.section_index()].name
}

fn rows(p: &SettingsPopup) -> &[Row] {
    &p.sections()[p.section_index()].rows
}

#[test]
fn tab_switches_sections_and_jk_move_rows() {
    let mut p = popup();
    assert_eq!(section_name(&p), "editor");
    for want in ["theme", "cache", "provider", "editor"] {
        p.handle_key(key(KeyCode::Tab));
        assert_eq!(section_name(&p), want);
    }
    p.handle_key(key(KeyCode::BackTab));
    assert_eq!(section_name(&p), "provider");
    assert_eq!(p.row_index(), 0);
    p.handle_key(key(KeyCode::Char('j')));
    assert_eq!(p.row_index(), 1);
    p.handle_key(key(KeyCode::Char('G')));
    assert_eq!(p.row_index(), rows(&p).len() - 1);
    p.handle_key(key(KeyCode::Char('g')));
    assert_eq!(p.row_index(), 0);
}

#[test]
fn space_toggles_bools_and_commits() {
    let mut p = popup();
    p.handle_key(key(KeyCode::Char('j')));
    p.handle_key(key(KeyCode::Char('j')));
    p.handle_key(key(KeyCode::Char(' ')));
    assert!(matches!(rows(&p)[2], Row::Bool { value: false, .. }));
    assert!(p.is_dirty());
    assert!(!p.config().editor.read_only);
}

#[test]
fn themes_are_a_radio_list_and_selecting_commits() {
    let mut p = popup();
    p.handle_key(key(KeyCode::Tab));
    assert!(matches!(&rows(&p)[0], Row::Radio { option, .. } if option == "catppuccin-mocha"));
    assert!(matches!(&rows(&p)[1], Row::Radio { option, .. } if option == "gruvbox-dark"));
    assert!(matches!(rows(&p)[2], Row::Text { .. }));
    p.handle_key(key(KeyCode::Enter));
    assert!(!p.is_dirty());
    p.handle_key(key(KeyCode::Char('j')));
    p.handle_key(key(KeyCode::Char(' ')));
    assert_eq!(p.config().theme.name, "gruvbox-dark");
    assert!(p.is_dirty());
    assert!(p.preview_theme().is_some(), "theme commit must set the live preview");
}

#[test]
fn provider_tab_selects_kind_and_edits_command() {
    let mut p = popup();
    for _ in 0..3 {
        p.handle_key(key(KeyCode::Tab));
    }
    assert_eq!(section_name(&p), "provider");
    p.handle_key(key(KeyCode::Char('j')));
    p.handle_key(key(KeyCode::Char(' ')));
    assert_eq!(p.config().provider.kind, "stdio");
    p.handle_key(key(KeyCode::Char('j')));
    p.handle_key(key(KeyCode::Enter));
    assert!(p.is_editing());
    for c in "python3 /tmp/p.py".chars() {
        p.handle_key(key(KeyCode::Char(c)));
    }
    p.handle_key(key(KeyCode::Enter));
    assert_eq!(p.config().provider.command, vec!["python3", "/tmp/p.py"]);
    assert!(matches!(p.handle_key(key(KeyCode::Esc)), Action::ApplySettings(_)));
}

#[test]
fn enter_edits_and_esc_closes() {
    let mut p = popup();
    p.handle_key(key(KeyCode::Enter));
    assert!(p.is_editing());
    assert_eq!(p.effective_mode(), Mode::Insert);
    p.handle_key(key(KeyCode::Esc));
    assert!(!p.is_editing());
    assert_eq!(p.handle_key(key(KeyCode::Esc)), Action::ClosePopup);
}

#[test]
fn render_shows_sidebar_radios_placeholders_and_dirty_chip() {
    let mut p = popup();
    let names: Vec<&str> = p.sections().iter().map(|s| s.name).collect();
    assert_eq!(names, vec!["editor", "theme", "cache", "provider"]);
    assert!(matches!(&rows(&p)[0], Row::Text { value, placeholder, .. } if value.is_empty() && placeholder.starts_with("auto — $VISUAL")));
    assert!(matches!(rows(&p)[2], Row::Bool { value: true, .. }));
    assert!(!p.is_dirty());
    p.handle_key(key(KeyCode::Tab));
    p.handle_key(key(KeyCode::Char('j')));
    p.handle_key(key(KeyCode::Char(' ')));
    assert_eq!(p.group_current("name"), "gruvbox-dark");
    assert!(p.is_dirty());
}

#[test]
fn tab_cycles_modes_and_esc_closes() {
    let mut p = KeybindsPopup::new();
    assert_eq!(p.mode, 0);
    for _ in 0..MODE_COUNT {
        p.handle_key(key(KeyCode::Tab));
    }
    assert_eq!(p.mode, 0, "Tab must wrap");
    p.handle_key(key(KeyCode::BackTab));
    assert_eq!(p.mode, MODE_COUNT - 1);
    assert_eq!(p.handle_key(key(KeyCode::Esc)), Action::ClosePopup);
    assert_eq!(p.handle_key(key(KeyCode::Char('?'))), Action::ClosePopup);
}

#[test]
fn keybinds_start_on_browse_and_walk_to_leader() {
    let mut p = KeybindsPopup::new();
    assert_eq!(p.current(), Mode::Browse);
    for _ in 0..4 {
        p.handle_key(key(KeyCode::Tab));
    }
    assert_eq!(p.current(), Mode::Leader);
}

fn wizard() -> CloneWizard {
    CloneWizard::new(vec!["ratatui/ratatui".into(), "ratatui/comfy-table".into()], "/tmp".into(), vec![])
}

#[test]
fn screens_walk_forward_and_back() {
    let mut w = wizard();
    assert_eq!(w.screen(), Screen::Repos);
    w.handle_key(key(KeyCode::Tab));
    w.handle_key(key(KeyCode::Enter));
    assert_eq!(w.screen(), Screen::Destination);
    w.handle_key(key(KeyCode::Tab));
    w.handle_key(key(KeyCode::Enter));
    assert_eq!(w.screen(), Screen::Summary);
    w.handle_key(key(KeyCode::Tab));
    w.handle_key(key(KeyCode::Char('h')));
    w.handle_key(key(KeyCode::Enter));
    assert_eq!(w.screen(), Screen::Destination);
}

#[test]
fn space_toggles_repos_and_esc_closes_anywhere() {
    let mut w = wizard();
    w.handle_key(key(KeyCode::Char(' ')));
    assert_eq!(w.checked(), vec!["ratatui/comfy-table".to_string()]);
    w.handle_key(key(KeyCode::Tab));
    w.handle_key(key(KeyCode::Enter));
    assert_eq!(w.handle_key(key(KeyCode::Esc)), Action::ClosePopup);
}

#[test]
fn slash_filter_narrows_repos_and_destination() {
    let mut w = wizard();
    w.handle_key(key(KeyCode::Char('/')));
    for c in "comfy".chars() {
        w.handle_key(key(KeyCode::Char(c)));
    }
    assert_eq!(w.visible_repos().len(), 1);
    w.handle_key(key(KeyCode::Enter));
    assert_eq!(w.visible_repos().len(), 1);
    w.handle_key(key(KeyCode::Esc));
    assert_eq!(w.visible_repos().len(), 2);
    assert_eq!(w.handle_key(key(KeyCode::Esc)), Action::ClosePopup);
}

#[test]
fn destination_lists_parent_then_sorted_dirs_and_asks_for_moves() {
    let mut w = CloneWizard::new(
        vec!["o/r".into()],
        "/home/u".into(),
        vec!["zeta".into(), ".hidden".into(), "alpha".into()],
    );
    w.handle_key(key(KeyCode::Tab));
    w.handle_key(key(KeyCode::Enter));
    assert_eq!(w.screen(), Screen::Destination);
    assert_eq!(w.dest(), "/home/u");
    assert_eq!(w.visible_dest().len(), 3, "`..` plus the two non-dot dirs");
    w.handle_key(key(KeyCode::Char('j')));
    w.handle_key(key(KeyCode::Enter));
    assert_eq!(w.take_move(), Some(DestMove::Into("alpha".into())));
    assert_eq!(w.take_move(), None);
    w.enter_dest("/home/u/alpha".into(), vec![]);
    assert_eq!(w.dest(), "/home/u/alpha");
}

#[test]
fn the_settings_cursor_is_a_bar_only_while_editing() {
    let mut p = popup();
    assert_eq!(p.cursor_style(), None);
    assert_eq!(p.effective_mode(), Mode::Browse);
    p.handle_key(key(KeyCode::Enter));
    assert_eq!(p.cursor_style(), Some(CursorStyle::SteadyBar));
    p.handle_key(key(KeyCode::Esc));
    assert_eq!(p.cursor_style(), None);
}
