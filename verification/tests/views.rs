use rootle::components::modeline::{fit_middle, resolve_icon, Modeline};
use rootle::components::preview::motion::bracket_match;
use rootle::components::preview::{BandContext, BlameMark, Preview};
use rootle::keys::{Key, KeyCode};
use rootle::mode::Mode;

const BROWSE_HINTS: [(&str, &str); 5] =
    [("j/k", "move"), ("h/l", "columns"), ("/", "filter"), ("␣", "leader"), ("q", "quit")];

fn row(m: &Modeline, mode: Mode, w: usize, nerd: bool) -> String {
    m.layout(mode, w, nerd, &BROWSE_HINTS).iter().map(|s| s.text.as_str()).collect()
}

fn sample() -> Modeline {
    Modeline {
        forge: "github".into(),
        icon: Some("github".into()),
        context: "ratatui/ratatui · main".into(),
        status: None,
    }
}

#[test]
fn nerd_font_swaps_arrows_and_adds_the_forge_icon() {
    let line = row(&sample(), Mode::Browse, 180, true);
    assert!(line.contains('\u{e0b0}'), "powerline arrow: {line}");
    assert!(line.contains('\u{f408}'), "github icon: {line}");
    assert!(!line.contains('❯'), "fallback caret must not appear: {line}");
    assert_eq!(line.chars().count(), 180, "must not overflow: {line}");
}

#[test]
fn no_declared_icon_renders_text_only_even_with_nerd_font() {
    let m = Modeline { forge: "internal".into(), icon: None, ..sample() };
    let line = row(&m, Mode::Browse, 120, true);
    assert!(line.contains("internal"));
    assert!(!line.contains('\u{f408}'), "rootle guesses no icons: {line}");
}

#[test]
fn literal_glyph_icon_renders_in_both_modes() {
    for nerd in [false, true] {
        let m = Modeline { icon: Some("◆".into()), ..sample() };
        let line = row(&m, Mode::Browse, 120, nerd);
        assert!(line.contains('◆'), "literal glyph, nerd={nerd}: {line}");
    }
}

#[test]
fn builtin_name_needs_nerd_font() {
    let line = row(&sample(), Mode::Browse, 120, false);
    assert!(!line.contains('\u{f408}'), "PUA glyph must not render without nerd_font: {line}");
    assert_eq!(resolve_icon(Some("github"), false), "");
    assert_eq!(resolve_icon(Some("github"), true), "\u{f408}");
    assert_eq!(resolve_icon(None, true), "");
}

#[test]
fn wide_line_shows_forge_caret_context_and_all_hints() {
    let line = row(&sample(), Mode::Browse, 180, false);
    assert!(line.contains("BROWSE"));
    assert!(line.contains("github"));
    assert!(line.contains('❯'), "powerline caret: {line}");
    assert!(line.contains("ratatui/ratatui · main"));
    assert!(line.contains("q quit"), "last hint should survive: {line}");
    assert_eq!(line.chars().count(), 180);
}

#[test]
fn narrow_line_drops_tail_hints_with_ellipsis() {
    let line = row(&sample(), Mode::Browse, 60, false);
    assert!(line.contains("…"), "cut should be marked: {line}");
    assert!(line.contains("j/k move"));
    assert!(!line.contains("q quit"));
    assert_eq!(line.chars().count(), 60, "must not overflow: {line}");
}

#[test]
fn tiny_line_keeps_chips_drops_everything_else() {
    let line = row(&sample(), Mode::Browse, 14, false);
    assert!(line.contains("BROWSE"));
    assert!(!line.contains("j/k"));
}

#[test]
fn long_status_is_capped() {
    let m = Modeline {
        status: Some("provider stdio failed (spawn nosuchbinary: No such file or directory (os error 2))".into()),
        ..sample()
    };
    let line = row(&m, Mode::Browse, 90, false);
    assert!(!line.contains("No such file"), "middle must be dropped: {line}");
    assert!(line.contains("provider stdio"), "head kept: {line}");
    assert!(line.contains("os error 2"), "tail kept: {line}");
    assert!(line.contains("…"));
}

#[test]
fn fit_middle_keeps_head_and_tail() {
    assert_eq!(fit_middle("abcdefghij", 20), "abcdefghij");
    let cut = fit_middle("abcdefghij", 5);
    assert!(cut.starts_with('a') && cut.ends_with('j') && cut.contains('…'), "{cut}");
    assert_eq!(cut.chars().count(), 5);
}

fn key(code: KeyCode) -> Key {
    Key::plain(code)
}

fn motion_preview() -> Preview {
    let mut lines: Vec<String> = (1..=20).map(|i| format!("line {i}")).collect();
    lines[4] = String::new();
    lines[11] = String::new();
    lines[6] = "fn main() {".into();
    lines[14] = "}".into();
    let body = lines.join("\n");
    let mut p = Preview::new();
    p.set_bytes("a.rs", body.as_bytes());
    p.viewport = 10;
    p
}

fn motions(p: &mut Preview, keys: &str) {
    for c in keys.chars() {
        assert!(p.motion_key(key(KeyCode::Char(c))), "motion {c}");
    }
}

#[test]
fn counts_gg_g_and_pages() {
    let mut p = motion_preview();
    motions(&mut p, "3j");
    assert_eq!(p.line(), Some(4));
    motions(&mut p, "gg");
    assert_eq!(p.line(), Some(1));
    motions(&mut p, "5G");
    assert_eq!(p.line(), Some(5));
    motions(&mut p, "G");
    assert_eq!(p.line(), Some(20));
    assert!(p.motion_key(Key::ctrl('u')));
    assert_eq!(p.line(), Some(15));
    assert!(p.motion_key(Key::ctrl('d')));
    assert_eq!(p.line(), Some(20));
    assert!(p.motion_key(Key::ctrl('b')));
    assert_eq!(p.line(), Some(10));
    for c in "7".chars() {
        p.motion_key(key(KeyCode::Char(c)));
    }
    assert!(!p.motion_key(key(KeyCode::Char('x'))));
    motions(&mut p, "j");
    assert_eq!(p.line(), Some(11));
    motions(&mut p, "g");
    motions(&mut p, "j");
    assert_eq!(p.line(), Some(12));
    assert_eq!(p.motion_pending, None);
}

#[test]
fn paragraphs_brackets_and_view_positioning() {
    let mut p = motion_preview();
    motions(&mut p, "8G");
    motions(&mut p, "{");
    assert_eq!(p.line(), Some(5));
    motions(&mut p, "}");
    assert_eq!(p.line(), Some(12));
    motions(&mut p, "7G");
    motions(&mut p, "%");
    assert_eq!(p.line(), Some(15));
    motions(&mut p, "%");
    assert_eq!(p.line(), Some(7));
    motions(&mut p, "15G");
    motions(&mut p, "zz");
    assert_eq!(p.scroll, 9);
    motions(&mut p, "zt");
    assert_eq!(p.scroll, 14);
    motions(&mut p, "zb");
    assert_eq!(p.scroll, 5);
}

#[test]
fn motions_noop_on_cursorless_content() {
    let mut p = Preview::new();
    assert!(!p.motion_key(key(KeyCode::Char('j'))));
    assert!(!p.motion_key(key(KeyCode::Char('G'))));
}

#[test]
fn zero_starts_no_count_and_ctrl_f_pages_forward() {
    let mut p = motion_preview();
    assert!(!p.motion_key(key(KeyCode::Char('0'))), "0 is a column motion");
    assert!(p.motion_key(Key::ctrl('f')));
    assert_eq!(p.line(), Some(11));
    motions(&mut p, "2k");
    assert_eq!(p.line(), Some(9));
    assert!(p.motion_key(key(KeyCode::Down)));
    assert_eq!(p.line(), Some(10));
}

#[test]
fn visual_selects_and_copy_targets_it() {
    let mut p = motion_preview();
    p.move_cursor(1);
    let (text, n) = p.copy_target().unwrap();
    assert_eq!((text.as_str(), n), ("line 2\n", 1));
    assert_eq!(p.visual_range(), None);
    p.toggle_visual();
    assert_eq!(p.visual_range(), Some((2, 2)));
    p.move_cursor(2);
    assert_eq!(p.visual_range(), Some((2, 4)));
    let (text, n) = p.copy_target().unwrap();
    assert_eq!(n, 3);
    assert!(text.starts_with("line 2") && text.ends_with("line 4\n"));
    motions(&mut p, "gg");
    assert_eq!(p.visual_range(), Some((1, 2)));
    assert!(p.clear_visual());
    assert_eq!(p.visual_range(), None);
    assert!(!p.clear_visual());
}

#[test]
fn cursor_walks_and_clamps() {
    let mut p = Preview::new();
    p.set_bytes("a.rs", b"one\ntwo\nthree");
    assert_eq!(p.line(), Some(1));
    p.move_cursor(1);
    p.move_cursor(1);
    assert_eq!(p.line(), Some(3));
    p.move_cursor(1);
    assert_eq!(p.line(), Some(3));
    p.move_cursor(-10);
    assert_eq!(p.line(), Some(1));
}

#[test]
fn cursorless_content_has_no_line() {
    let mut p = Preview::new();
    p.set_dir("src", vec![]);
    assert_eq!(p.line(), None);
    assert_eq!(p.title, "src/");
    p.move_cursor(1);
    assert_eq!(p.line(), None);
    p.set_bytes("blob", b"\0\0binary\0");
    assert_eq!(p.line(), None);
    assert_eq!(p.readout(), None);
}

#[test]
fn cursor_resets_on_new_content() {
    let mut p = Preview::new();
    p.set_bytes("a.rs", b"one\ntwo\nthree");
    p.move_cursor(2);
    assert_eq!(p.line(), Some(3));
    p.set_highlighted("b.rs", "rust", vec!["x".into()]);
    assert_eq!(p.line(), Some(1));
    assert_eq!(p.readout().as_deref(), Some("1/1"));
    assert_eq!(p.lang.as_deref(), Some("rust"));
}

#[test]
fn scroll_follows_cursor_into_viewport() {
    let mut p = Preview::new();
    p.set_bytes("a.rs", (1..=50).map(|i| format!("line{i}")).collect::<Vec<_>>().join("\n").as_bytes());
    for _ in 0..49 {
        p.move_cursor(1);
    }
    p.clamp_scroll(10);
    assert_eq!(p.scroll, 40);
    p.move_cursor(-49);
    p.clamp_scroll(10);
    assert_eq!(p.scroll, 0);
}

#[test]
fn readout_names_the_visual_range() {
    let mut p = motion_preview();
    p.move_cursor(2);
    p.toggle_visual();
    p.move_cursor(1);
    assert_eq!(p.readout().as_deref(), Some("VISUAL 3-4 · 4/20"));
}

#[test]
fn file_meta_shows_size_and_short_sha() {
    let mut p = Preview::new();
    p.set_file_meta("lib.rs", Some(1234), "0123456789abcdef");
    assert_eq!(p.content_text().as_deref(), Some("1234 bytes · blob 0123456\n\nloading…"));
    assert_eq!(p.text_line_count(), 3);
    p.set_file_meta("lib.rs", None, "abc");
    assert_eq!(p.content_text().as_deref(), Some("? bytes · blob abc\n\nloading…"));
}

#[test]
fn band_and_blame_are_plain_state() {
    let mut p = Preview::focused();
    assert!(p.focused);
    assert!(!p.blaming());
    p.set_blame(Some(vec![Some(BlameMark { sha: "abc1234".into(), author: "ann".into() }), None]));
    assert!(p.blaming());
    p.set_band(
        Some("src/lib.rs".into()),
        Some(BandContext { sha: "abc".into(), subject: "s".into(), author: "a".into(), date: "d".into() }),
    );
    assert_eq!(p.band_path.as_deref(), Some("src/lib.rs"));
    p.set_bytes("x", b"y");
    assert!(p.band_path.is_none(), "new content resets the band");
}

#[test]
fn tabs_show_as_spaces_and_sanitized_text_drops_controls() {
    let mut p = Preview::new();
    p.set_bytes("a.txt", b"a\tb\x1b[31m\nc");
    assert_eq!(p.content_text().as_deref(), Some("a\tb[31m\nc"));
    assert_eq!(p.text_line_count(), 2);
}

#[test]
fn bracket_match_crosses_lines_with_nesting() {
    let lines: Vec<Vec<char>> = ["fn f() {", "  if x { y }", "}", "(a"].iter().map(|l| l.chars().collect()).collect();
    assert_eq!(bracket_match(&lines, 0), Some(2));
    assert_eq!(bracket_match(&lines, 2), Some(0));
    assert_eq!(bracket_match(&lines, 1), None, "a line whose brackets pair locally has no anchor");
    assert_eq!(bracket_match(&lines, 3), None, "unmatched opener");
    assert_eq!(bracket_match(&lines, 9), None);
}
