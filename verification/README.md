# rootle

A terminal browser for code forges — orgs, repos, trees and files in miller
columns, with search, revision lenses (history, blame), a clone wizard and an
editor hand-off — whose logic is a Verus-verified library.

## Layout

- `src/` — the verified library, each function with a contract:
  - `session.rs` — the application's state machine: `route_key` hands a key
    press to its owner (the topmost overlay first), `step` takes an action,
    `route_event` a worker's result; the last two return the effects to run.
    It covers the search popup, browsing and loading, VISUAL marks, the
    history and blame lenses (with a file opened at a picked commit), the
    revision switcher, the global search view and its lazily fetched hit
    context, the editor hand-off, the overlays, commands, settings, the
    declared provider's prompt, install and start, the newer-release notice
    and the clone run. Answers of a superseded search are dropped.
  - `components/` — the browser's columns and preview (motions, rows, blame
    and history lenses), the search popup, the global search (query grammar,
    ranking, locating matches in blobs, the streamed result view), the clone
    wizard, the vim-style input, the modeline and the popups.
  - `provider.rs` — the forge seam (`Provider`) and its data; `app.rs`,
    `editor.rs`, `config.rs`, `cache.rs`, `cli.rs`, `clipboard.rs` — status
    lines, editor invocation, configuration, the disk cache format, argument
    rules and the clipboard escape.
  - `text.rs`, `sanitize.rs`, `paths.rs` — text primitives and the few calls
    into std and outside crates, each behind a small trusted item.
- `app/` — the unverified shell: the event loop that feeds key presses to
  the state machine and runs its effects on worker threads (`runtime.rs`), file and terminal I/O, argument
  parsing, the editor process and the clipboard.
- `tests/` — tests of the library through its public API.
