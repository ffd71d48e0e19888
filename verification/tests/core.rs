use rootle::app::provider_status;
use rootle::cache::{blob_path, ref_path, tree_path, RefCache};
use rootle::cli::Cli;
use rootle::clipboard::osc52_sequence;
use rootle::commands::{commands, filter};
use rootle::components::commit::{short, truncate_path};
use rootle::config::Config;
use rootle::editor::{build_args, content_address, path_rejection, prepare, PathRejection};
use rootle::provider::{ErrorKind, ProviderError};
use rootle::text::lower_chars;

#[test]
fn provider_status_renders_per_kind() {
    let auth = ProviderError::new(ErrorKind::Auth, "bad credentials");
    let rendered = provider_status(&auth);
    assert!(rendered.contains("bad credentials"));
    assert!(rendered.contains("refresh provider credentials"));

    let throttled =
        ProviderError::new(ErrorKind::RateLimited, "slow down").with_retry_after(37);
    assert_eq!(provider_status(&throttled), "provider throttled — retry in 37s");

    let plain = ProviderError::other("something broke");
    assert_eq!(provider_status(&plain), "something broke");
}

#[test]
fn throttle_without_delay_names_the_message() {
    let t = ProviderError::new(ErrorKind::RateLimited, "slow down");
    assert_eq!(provider_status(&t), "provider throttled: slow down");
    let auth = ProviderError::new(ErrorKind::Auth, "x");
    assert_eq!(provider_status(&auth), "auth failed: x — refresh provider credentials");
}

fn cli(repo: Option<&str>) -> Cli {
    Cli { repo: repo.map(str::to_string), config: None, theme: None, provider: None }
}

#[test]
fn parses_owner_repo() {
    assert_eq!(cli(Some("ratatui/ratatui")).repo_parts(), Some(("ratatui".into(), "ratatui".into())));
}

#[test]
fn rejects_malformed_repo() {
    assert_eq!(cli(Some("noslash")).repo_parts(), None);
    assert_eq!(cli(Some("/empty")).repo_parts(), None);
    assert_eq!(cli(None).repo_parts(), None);
}

#[test]
fn repo_name_keeps_later_slashes() {
    assert_eq!(cli(Some("a/b/c")).repo_parts(), Some(("a".into(), "b/c".into())));
    assert_eq!(cli(Some("owner/")).repo_parts(), None);
}

#[test]
fn filters_prefix_first() {
    assert_eq!(filter("set")[0].name, "settings");
    assert_eq!(filter("clone")[0].name, "clone");
    assert_eq!(filter("").len(), commands().len());
    assert!(filter("zzz").is_empty());
}

#[test]
fn filter_is_case_insensitive_and_finds_inner_matches() {
    let r = filter("ONE");
    assert_eq!(r.len(), 1);
    assert_eq!(r[0].name, "clone");
    let r = filter("t");
    assert_eq!(r.len(), 1);
    assert_eq!(r[0].name, "settings");
}

fn config(program: Option<&str>, read_only: bool) -> Config {
    let mut c = Config::default();
    c.editor.program = program.map(str::to_string);
    c.editor.args = vec![];
    c.editor.read_only = read_only;
    c
}

#[test]
fn vim_family_gets_read_only_flag() {
    let args = build_args("vim", &config(None, true));
    assert_eq!(args, vec!["-R"]);
    let args = build_args("/usr/bin/nvim", &config(None, true));
    assert_eq!(args, vec!["-R"]);
}

#[test]
fn helix_has_no_read_only_flag() {
    let args = build_args("hx", &config(None, true));
    assert!(args.is_empty(), "helix has no -R; got {args:?}");
}

#[test]
fn read_only_disabled_means_no_flag() {
    let args = build_args("vim", &config(None, false));
    assert!(args.is_empty());
}

#[test]
fn config_args_come_before_read_only() {
    let mut cfg = config(Some("vim"), true);
    cfg.editor.args = vec!["--clean".into()];
    let args = build_args("vim", &cfg);
    assert_eq!(args, vec!["-R", "--clean"]);
}

#[test]
fn materialize_rejects_traversal() {
    assert_eq!(path_rejection("../escape"), Some(PathRejection::Traversal));
    assert_eq!(path_rejection("/abs"), Some(PathRejection::Absolute));
    assert_eq!(path_rejection("src/lib.rs"), None);
    assert_eq!(path_rejection("a/../b"), Some(PathRejection::Traversal));
    assert_eq!(path_rejection("a/..b"), None);
}

#[test]
fn prepare_appends_the_file_or_reports_why_not() {
    let cfg = config(None, true);
    let job = prepare(&cfg, Some("nvim".into()), Ok("/tmp/x.rs".into())).ok().unwrap();
    assert_eq!(job.program, "nvim");
    assert_eq!(job.args, vec!["-R", "/tmp/x.rs"]);
    let e = prepare(&cfg, None, Ok("/tmp/x.rs".into())).err().unwrap();
    assert_eq!(e, "no editor found — set [editor].program in config.toml or $EDITOR");
    let e = prepare(&cfg, Some("vim".into()), Err("fetch failed".into())).err().unwrap();
    assert_eq!(e, "fetch failed");
}

#[test]
fn cache_paths_fan_out_blobs_by_sha_prefix() {
    assert_eq!(blob_path("abcdef"), vec!["blobs", "ab", "cdef"]);
    assert_eq!(blob_path("a"), vec!["blobs", "a", ""]);
    assert_eq!(tree_path("t1"), vec!["trees", "t1.json"]);
    assert_eq!(ref_path("o", "r", "main"), vec!["index/refs", "o", "r", "main"]);
    let entry = RefCache { tree_sha: "abc".into(), etag: None };
    assert_eq!(entry.tree_sha, "abc");
}

#[test]
fn osc52_wraps_the_base64_of_the_text() {
    assert_eq!(osc52_sequence("hi"), "\x1b]52;c;aGk=\x07");
    assert_eq!(osc52_sequence(""), "\x1b]52;c;\x07");
    assert_eq!(osc52_sequence("abc"), "\x1b]52;c;YWJj\x07");
}

#[test]
fn short_sha_and_left_truncated_paths() {
    assert_eq!(short("0123456789"), "0123456");
    assert_eq!(short("abc"), "abc");
    assert_eq!(truncate_path("src/components/commit/mod.rs", 10), "…it/mod.rs");
    assert_eq!(truncate_path("short.rs", 10), "short.rs");
    assert_eq!(truncate_path("abc", 0), "…");
}

#[test]
fn bodies_are_addressed_by_their_sha256() {
    assert_eq!(content_address(""), "e3b0c44298fc1c149afbf4c8996fb92427ae41e4649b934ca495991b7852b855");
    assert_eq!(content_address("abc"), "ba7816bf8f01cfea414140de5dae2223b00361a396177a9cb410ff61f20015ad");
}

#[test]
fn lowercasing_maps_ascii_letters_and_keeps_the_rest() {
    assert_eq!(lower_chars("ReadMe_2.MD"), "readme_2.md".chars().collect::<Vec<char>>());
    assert_eq!(lower_chars(""), Vec::<char>::new());
    assert_eq!(lower_chars("ÄÖ"), vec!['ä', 'ö']);
}

#[test]
fn osc52_pads_a_one_byte_tail() {
    assert_eq!(osc52_sequence("Man h"), "\x1b]52;c;TWFuIGg=\x07");
    assert_eq!(osc52_sequence("M"), "\x1b]52;c;TQ==\x07");
}
