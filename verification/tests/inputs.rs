use rootle::action::Action;
use rootle::components::command_line::CommandLine;
use rootle::components::search_popup::{split_repo, CursorStyle, SearchPopup};
use rootle::components::vim_input::{Outcome, SubMode, VimInput};
use rootle::keys::{Key, KeyCode};
use rootle::mode::Mode;
use rootle::provider::{ErrorKind, ProviderError, SearchItem};

fn key(code: KeyCode) -> Key {
    Key::plain(code)
}

fn ctrl(c: char) -> Key {
    Key::ctrl(c)
}

#[test]
fn types_in_insert_then_esc_to_normal() {
    let mut input = VimInput::new();
    input.handle_key(key(KeyCode::Char('a')));
    input.handle_key(key(KeyCode::Char('b')));
    assert_eq!(input.value(), "ab");
    assert_eq!(input.submode, SubMode::Insert);
    input.handle_key(key(KeyCode::Esc));
    assert_eq!(input.submode, SubMode::Normal);
    input.handle_key(key(KeyCode::Char('z')));
    assert_eq!(input.value(), "ab");
}

#[test]
fn normal_motions_and_x() {
    let mut input = VimInput::new();
    input.set("hello");
    input.handle_key(key(KeyCode::Esc));
    input.handle_key(key(KeyCode::Char('0')));
    assert_eq!(input.cursor(), 0);
    input.handle_key(key(KeyCode::Char('x')));
    assert_eq!(input.value(), "ello");
    input.handle_key(key(KeyCode::Char('$')));
    assert_eq!(input.cursor(), 3);
    input.handle_key(key(KeyCode::Char('h')));
    assert_eq!(input.cursor(), 2);
}

#[test]
fn esc_in_normal_cancels() {
    let mut input = VimInput::new();
    input.handle_key(key(KeyCode::Esc));
    assert_eq!(input.handle_key(key(KeyCode::Esc)), Outcome::Cancelled);
}

#[test]
fn enter_submits_from_insert() {
    let mut input = VimInput::new();
    assert_eq!(input.handle_key(key(KeyCode::Enter)), Outcome::Submitted);
}

#[test]
fn transient_input_esc_cancels_without_normal_mode() {
    let mut input = VimInput::transient();
    input.handle_key(key(KeyCode::Char('x')));
    assert_eq!(input.handle_key(key(KeyCode::Esc)), Outcome::Cancelled);
    assert_eq!(input.submode, SubMode::Insert);
}

#[test]
fn backspace_at_start_is_safe() {
    let mut input = VimInput::new();
    input.handle_key(key(KeyCode::Backspace));
    assert_eq!(input.value(), "");
}

fn normal_at_end(value: &str) -> VimInput {
    let mut input = VimInput::new();
    input.set(value);
    input.handle_key(key(KeyCode::Esc));
    input
}

#[test]
fn w_e_b_walk_word_runs() {
    let mut i = normal_at_end("foo bar-baz qux");
    i.handle_key(key(KeyCode::Char('0')));
    i.handle_key(key(KeyCode::Char('w')));
    assert_eq!(i.cursor(), 4, "w → next word");
    i.handle_key(key(KeyCode::Char('w')));
    assert_eq!(i.cursor(), 7, "w → punctuation run");
    i.handle_key(key(KeyCode::Char('w')));
    assert_eq!(i.cursor(), 8, "w → baz");
    i.handle_key(key(KeyCode::Char('b')));
    assert_eq!(i.cursor(), 7, "b → punctuation");
    i.handle_key(key(KeyCode::Char('b')));
    assert_eq!(i.cursor(), 4, "b → bar");
    i.handle_key(key(KeyCode::Char('0')));
    i.handle_key(key(KeyCode::Char('e')));
    assert_eq!(i.cursor(), 2, "e → end of foo");
    i.handle_key(key(KeyCode::Char('e')));
    assert_eq!(i.cursor(), 6, "e → end of bar");
}

#[test]
fn d_word_deletes() {
    let mut i = normal_at_end("foo bar baz");
    i.handle_key(key(KeyCode::Char('0')));
    i.handle_key(key(KeyCode::Char('d')));
    i.handle_key(key(KeyCode::Char('w')));
    assert_eq!(i.value(), "bar baz", "dw deletes word + spaces");
    i.handle_key(key(KeyCode::Char('0')));
    i.handle_key(key(KeyCode::Char('d')));
    i.handle_key(key(KeyCode::Char('e')));
    assert_eq!(i.value(), " baz", "de deletes through word end");
    let mut i = normal_at_end("foo bar baz");
    i.handle_key(key(KeyCode::Char('d')));
    i.handle_key(key(KeyCode::Char('b')));
    assert_eq!(i.value(), "foo bar z", "db deletes the previous word");
    let mut i = normal_at_end("keep me");
    i.handle_key(key(KeyCode::Char('d')));
    i.handle_key(key(KeyCode::Char('q')));
    assert_eq!(i.value(), "keep me");
}

#[test]
fn dd_clears_and_shift_d_truncates() {
    let mut i = normal_at_end("gone soon");
    i.handle_key(key(KeyCode::Char('d')));
    i.handle_key(key(KeyCode::Char('d')));
    assert_eq!(i.value(), "", "dd clears the line");
    assert_eq!(i.cursor(), 0);
    let mut i = normal_at_end("keep drop");
    i.handle_key(key(KeyCode::Char('0')));
    i.handle_key(key(KeyCode::Char('w')));
    i.handle_key(key(KeyCode::Char('D')));
    assert_eq!(i.value(), "keep ", "D deletes to end of line");
    assert_eq!(i.cursor(), 4, "the NORMAL cursor stays on a char");
    let mut i = normal_at_end("ab");
    i.handle_key(key(KeyCode::Char('0')));
    i.handle_key(key(KeyCode::Char('D')));
    assert_eq!(i.value(), "");
    assert_eq!(i.cursor(), 0);
}

#[test]
fn ctrl_w_deletes_word_back_in_insert() {
    let mut i = VimInput::new();
    i.set("foo bar");
    i.handle_key(ctrl('w'));
    assert_eq!(i.value(), "foo ");
    assert_eq!(i.cursor(), 4);
    let mut i = VimInput::new();
    i.set("foo   ");
    i.handle_key(ctrl('w'));
    assert_eq!(i.value(), "foo");
    i.handle_key(ctrl('w'));
    assert_eq!(i.value(), "");
    let mut i = VimInput::new();
    i.handle_key(ctrl('w'));
    assert_eq!(i.value(), "");
}

#[test]
fn ctrl_u_clears_to_line_start() {
    let mut i = VimInput::new();
    i.set("hello world");
    i.handle_key(ctrl('u'));
    assert_eq!(i.value(), "");
    assert_eq!(i.cursor(), 0);
}

#[test]
fn shift_i_inserts_at_line_start() {
    let mut i = normal_at_end("abc");
    i.handle_key(key(KeyCode::Char('I')));
    assert_eq!(i.cursor(), 0);
    assert_eq!(i.submode, SubMode::Insert);
    i.handle_key(key(KeyCode::Char('X')));
    assert_eq!(i.value(), "Xabc");
}

#[test]
fn prefilled_value_is_replaced_by_typing() {
    let mut i = VimInput::new();
    i.prefill("ratatui/ratatui");
    assert_eq!(i.value(), "ratatui/ratatui");
    i.handle_key(key(KeyCode::Char('h')));
    assert_eq!(i.value(), "h");
    i.clear();
    assert_eq!(i.value(), "");
}

#[test]
fn typing_filters_and_enter_runs_selected() {
    let mut cl = CommandLine::new();
    for c in "set".chars() {
        assert_eq!(cl.handle_key(key(KeyCode::Char(c))), Action::Noop);
    }
    assert_eq!(cl.handle_key(key(KeyCode::Enter)), Action::RunCommand("settings".into()));
}

#[test]
fn arrows_move_the_pick_and_esc_cancels() {
    let mut cl = CommandLine::new();
    assert_eq!(cl.selected(), 0);
    cl.handle_key(key(KeyCode::Down));
    assert_eq!(cl.selected(), 1);
    cl.handle_key(key(KeyCode::Up));
    assert_eq!(cl.selected(), 0);
    assert_eq!(cl.handle_key(key(KeyCode::Esc)), Action::ClosePopup);
}

#[test]
fn clone_command_runs() {
    let mut cl = CommandLine::new();
    for c in "clone".chars() {
        cl.handle_key(key(KeyCode::Char(c)));
    }
    assert_eq!(cl.handle_key(key(KeyCode::Enter)), Action::RunCommand("clone".into()));
}

#[test]
fn cursor_shape_follows_input_submode() {
    let mut popup = SearchPopup::new();
    assert_eq!(popup.cursor_style(), Some(CursorStyle::SteadyBar));
    popup.input.submode = SubMode::Normal;
    assert_eq!(popup.cursor_style(), Some(CursorStyle::SteadyBlock));
    popup.toggle_focus();
    assert!(popup.cursor_style().is_none());
}

#[test]
fn prefill_seeds_query_and_replaces_on_typing() {
    let mut popup = SearchPopup::with_prefill(Some("ratatui/ratatui"));
    assert_eq!(popup.input.value(), "ratatui/ratatui");
    popup.input.handle_key(key(KeyCode::Char('h')));
    popup.input.handle_key(key(KeyCode::Char('i')));
    assert_eq!(popup.input.value(), "hi");
}

#[test]
fn popup_submits_lists_filters_and_picks() {
    let mut popup = SearchPopup::new();
    for c in "rat".chars() {
        assert_eq!(popup.handle_key(key(KeyCode::Char(c))), Action::Noop);
    }
    let submitted = popup.handle_key(key(KeyCode::Enter));
    assert_eq!(submitted, Action::SearchSubmitted("rat".into()));
    popup.update(&submitted);
    assert!(popup.pending);
    assert_eq!(popup.effective_mode(), Mode::Browse);
    popup.update(&Action::SearchResults {
        items: vec![
            SearchItem::Repo("ratatui/ratatui".into()),
            SearchItem::Org("ratatui".into()),
            SearchItem::Repo("other/rat-tools".into()),
        ],
    });
    assert!(!popup.pending);
    assert_eq!(popup.results.entries.len(), 3);
    assert_eq!(
        popup.handle_key(key(KeyCode::Enter)),
        Action::RepoSelected { owner: "ratatui".into(), name: "ratatui".into() }
    );
    popup.handle_key(key(KeyCode::Char('j')));
    assert_eq!(popup.handle_key(key(KeyCode::Enter)), Action::OrgSelected("ratatui".into()));
    popup.handle_key(key(KeyCode::Char('/')));
    assert_eq!(popup.effective_mode(), Mode::Search);
    for c in "tools".chars() {
        popup.handle_key(key(KeyCode::Char(c)));
    }
    assert_eq!(popup.results.visible().len(), 1);
    popup.handle_key(key(KeyCode::Enter));
    assert!(!popup.filtering);
    assert_eq!(
        popup.handle_key(key(KeyCode::Enter)),
        Action::RepoSelected { owner: "other".into(), name: "rat-tools".into() }
    );
    assert_eq!(popup.handle_key(key(KeyCode::Char('y'))), Action::SearchYank);
    assert_eq!(popup.handle_key(key(KeyCode::Esc)), Action::Noop, "first Esc clears the filter");
    assert_eq!(popup.results.visible().len(), 3);
    assert_eq!(popup.handle_key(key(KeyCode::Esc)), Action::ClosePopup);
}

#[test]
fn popup_failure_shows_the_provider_status() {
    let mut popup = SearchPopup::new();
    popup.update(&Action::SearchSubmitted("x".into()));
    popup.update(&Action::SearchFailed { error: ProviderError::new(ErrorKind::Auth, "bad") });
    assert_eq!(popup.error.as_deref(), Some("auth failed: bad — refresh provider credentials"));
    assert!(popup.results.entries.is_empty());
}

#[test]
fn split_repo_cuts_at_the_first_slash() {
    assert_eq!(split_repo("a/b/c"), ("a".to_string(), "b/c".to_string()));
    assert_eq!(split_repo("solo"), ("solo".to_string(), String::new()));
}

#[test]
fn the_normal_cursor_stays_on_a_char_through_edits() {
    let mut input = VimInput::new();
    for c in "foo bar".chars() {
        input.handle_key(key(KeyCode::Char(c)));
    }
    let keys = [
        KeyCode::Esc,
        KeyCode::Char('x'),
        KeyCode::Char('b'),
        KeyCode::Char('D'),
        KeyCode::Char('$'),
        KeyCode::Char('x'),
        KeyCode::Char('x'),
        KeyCode::Char('x'),
        KeyCode::Char('x'),
        KeyCode::Char('x'),
    ];
    for k in keys {
        input.handle_key(key(k));
        let len = input.value().chars().count();
        if input.submode == SubMode::Normal {
            assert!((len == 0 && input.cursor() == 0) || input.cursor() < len);
        } else {
            assert!(input.cursor() <= len);
        }
    }
    assert_eq!(input.value(), "");
}
