//! The miller-column browser over org → repo → dir → file. Moving
//! focus left (`h`) browses the parent column, and the child column is
//! rebuilt from the new selection; `l` drills back in or deeper. Org
//! repos and repo trees arrive from the provider; until a tree is
//! loaded, nothing below a repo is shown.
pub mod lenses;
pub mod tree;

use crate::action::Action;
use crate::components::browser::lenses::{BlameState, History};
use crate::components::browser::tree::{by_name, entries_view, name_less, name_pos_of, node_at, spec_children, RepoTree};
use crate::components::pane::{visible_entries, Entry, EntryKind, Pane};
use crate::components::preview::{count16, short_len, BandContext, Preview, PreviewContent};
use crate::components::vim_input::VimInput;
use crate::provider::{RepoInfo, TreeNode};
use crate::sanitize::spec_sanitize_inline;
use crate::text::{chars_of, clone_strings, slice_chars, split_lines, starts_with, string_of, join_char, join_with_char, push_char, push_str, starts, str_is, text_lines, views};
use vstd::prelude::*;
use vstd::utf8::{encode_utf8, is_char_boundary};

verus! {

/// A fetched blob kept for the session: its text and highlighted lines,
/// so navigation never fetches or highlights it again.
#[derive(Debug, Clone)]
pub struct CachedBlob {
    pub sha: String,
    pub name: String,
    pub lang: String,
    pub text: String,
    pub lines: Vec<String>,
}

/// The browser: a stack of columns (orgs, repos, the repo root, then
/// directories), the focused column, the loaded tree, the blob cache,
/// the preview, VISUAL marks and the revision lenses.
pub struct Browser {
    /// `levels[i]` lists the children of the selection in `levels[i - 1]`.
    pub levels: Vec<Pane>,
    /// The column that owns the keyboard.
    pub focus: usize,
    pub tree: Option<RepoTree>,
    /// Blob content by sha.
    pub blobs: Vec<CachedBlob>,
    /// Shas with a fetch in flight.
    pub pending_blobs: Vec<String>,
    /// The (sha, name) the file under the cursor needs fetched.
    pub blob_request: Option<(String, String)>,
    pub preview: Preview,
    /// The `/` filter input.
    pub filter_input: VimInput,
    /// The find-in-file input.
    pub find_input: VimInput,
    pub visual: bool,
    /// VISUAL marks as `"<pane title>/<entry name>"`, each once.
    pub marks: Vec<String>,
    /// The browsed revision (None = the default branch).
    pub current_ref: Option<String>,
    pub history: Option<History>,
    pub blame: Option<BlameState>,
    /// Viewing a file at a commit: the present-day (path, sha) to return to.
    pub at_commit: Option<(String, String)>,
}

/// The selected visible entry of a column.
pub open spec fn picked(p: Pane) -> Option<Entry> {
    let vis = visible_entries(p.entries@, p.filter@);
    if p.selected < vis.len() {
        Some(vis[p.selected as int])
    } else {
        None
    }
}

/// The column titles.
pub open spec fn titles(ps: Seq<Pane>) -> Seq<Seq<char>> {
    ps.map_values(|p: Pane| p.title@)
}

/// The focused directory's path in the repo: the titles of the columns
/// below the repo root, down to the focus, joined by `/`.
pub open spec fn spec_dir_path(levels: Seq<Pane>, focus: int) -> Seq<char> {
    if focus < 3 {
        seq![]
    } else {
        join_char(titles(levels.subrange(3, focus + 1)), '/')
    }
}

/// `name` under the directory `base` (the repo root when empty).
pub open spec fn entry_path(base: Seq<char>, name: Seq<char>) -> Seq<char> {
    if base.len() == 0 {
        name
    } else {
        base + seq!['/'] + name
    }
}

/// What an entry expands to from the loaded tree: orgs and files
/// never; the loaded repo to its root listing; a directory to its
/// listing. Nothing without a tree.
pub open spec fn kids(levels: Seq<Pane>, focus: int, tree: Option<RepoTree>, e: Entry) -> Option<
    Seq<(Seq<char>, EntryKind)>,
> {
    match tree {
        None => None,
        Some(t) => match e.kind {
            EntryKind::Org | EntryKind::File => None,
            EntryKind::Repo => if levels.len() > 1 && t.owner@ == levels[1].title@ && t.name@ == e.name@ {
                Some(spec_children(t.entries@, seq![]))
            } else {
                None
            },
            EntryKind::Dir => Some(spec_children(t.entries@, entry_path(spec_dir_path(levels, focus), e.name@))),
        },
    }
}

/// The tree node of a file entry in the focused directory.
pub open spec fn file_node(levels: Seq<Pane>, focus: int, tree: Option<RepoTree>, e: Entry) -> Option<TreeNode> {
    match tree {
        Some(t) => node_at(t.entries@, entry_path(spec_dir_path(levels, focus), e.name@)),
        None => None,
    }
}

/// The first cached blob with this sha.
pub open spec fn cached_blob(blobs: Seq<CachedBlob>, sha: Seq<char>) -> Option<CachedBlob>
    decreases blobs.len(),
{
    if blobs.len() == 0 {
        None
    } else if blobs[0].sha@ == sha {
        Some(blobs[0])
    } else {
        cached_blob(blobs.skip(1), sha)
    }
}

/// The blob sha can be cut to its short form on a char boundary.
pub open spec fn sha_cuts(sha: Seq<char>) -> bool {
    is_char_boundary(encode_utf8(sha), short_len(encode_utf8(sha)))
}

/// What every content change keeps of the preview.
pub open spec fn kept_frame(p: Preview, q: Preview) -> bool {
    &&& p.focused == q.focused
    &&& p.viewport == q.viewport
    &&& p.blame == q.blame
    &&& p.motion_count == q.motion_count
    &&& p.motion_pending == q.motion_pending
}

/// The preview shows a cached blob's highlighted lines.
pub open spec fn shows_blob(p: Preview, before: Preview, name: Seq<char>, b: CachedBlob) -> bool {
    &&& p.title@ == spec_sanitize_inline(name)
    &&& p.content matches PreviewContent::Highlighted(ls) && ls@ == b.lines@
    &&& p.line_count == count16(b.lines@.len())
    &&& p.numbered
    &&& p.lang matches Some(l) && l@ == b.lang@
    &&& p.was_reset()
    &&& kept_frame(p, before)
}

/// `after` is `before` showing a file's content at a commit: the
/// present-day file is noted in `at_commit` and its blame marks are
/// dropped; the preview shows `text` titled `name`, numbered, with the
/// file's path and the commit's context in the band; the content is
/// cached under `sha` (kept without a language label) unless that sha
/// is cached already.
pub open spec fn shows_at_commit(
    before: Browser,
    after: Browser,
    sha: Seq<char>,
    name: Seq<char>,
    text: Seq<char>,
    band: Option<BandContext>,
) -> bool {
    let p = after.preview;
    let q = before.preview;
    &&& after == (Browser { preview: p, at_commit: after.at_commit, blobs: after.blobs, ..before })
    &&& match spec_selected_file(before) {
        Some((path, file_sha)) => {
            &&& after.at_commit matches Some((x, y)) && x@ == path && y@ == file_sha
            &&& p.band_path matches Some(bp) && bp@ == path
        },
        None => after.at_commit is None && p.band_path is None,
    }
    &&& if cached_blob(before.blobs@, sha) is Some {
        after.blobs@ == before.blobs@
    } else {
        &&& after.blobs@.len() == before.blobs@.len() + 1
        &&& after.blobs@.drop_last() == before.blobs@
        &&& after.blobs@.last().sha@ == sha
        &&& after.blobs@.last().name@ == name
        &&& after.blobs@.last().lang@.len() == 0
        &&& after.blobs@.last().text@ == text
        &&& views(after.blobs@.last().lines@) == text_lines(text)
    }
    &&& p.title@ == spec_sanitize_inline(name)
    &&& p.content matches PreviewContent::Text(t) && t@ == text
    &&& p.line_count == count16(text_lines(text).len())
    &&& p.numbered
    &&& p.lang is None
    &&& p.scroll == 0 && p.cursor == 0 && p.visual_anchor is None
    &&& p.band_context == band
    &&& p.blame is None
    &&& p.focused == q.focused
    &&& p.viewport == q.viewport
    &&& p.motion_count == q.motion_count
    &&& p.motion_pending == q.motion_pending
}

/// The preview shows a file's size and short sha while its blob loads.
pub open spec fn shows_pending(p: Preview, before: Preview, name: Seq<char>, n: TreeNode) -> bool {
    &&& p.title@ == spec_sanitize_inline(name)
    &&& p.shows_meta(n.size, encode_utf8(n.sha@))
    &&& !p.numbered
    &&& p.lang is None
    &&& p.was_reset()
    &&& kept_frame(p, before)
}

/// The preview lists a directory's children (none when it has none
/// loaded).
pub open spec fn shows_listing(
    p: Preview,
    before: Preview,
    name: Seq<char>,
    listing: Option<Seq<(Seq<char>, EntryKind)>>,
) -> bool {
    &&& p.title@ == spec_sanitize_inline(name).push('/')
    &&& p.content matches PreviewContent::DirSummary(c) && entries_view(c@) == (match listing {
        Some(k) => k,
        None => seq![],
    })
    &&& p.line_count == 0
    &&& !p.numbered
    &&& p.lang is None
    &&& p.was_reset()
    &&& kept_frame(p, before)
}

/// `a` is `b` with the preview showing what the focused selection
/// calls for: a cached file's lines, else its size while a fetch is
/// requested (once per sha), a directory's or the loaded repo's
/// listing, an org's name; nothing when nothing is selected.
pub open spec fn refreshed(b: Browser, a: Browser) -> bool {
    let f = b.focus as int;
    &&& a == (Browser { preview: a.preview, blob_request: a.blob_request, ..b })
    &&& match picked(b.levels@[f]) {
        None => a.preview == (Preview { content: PreviewContent::Empty, ..b.preview }) && a.blob_request
            == b.blob_request,
        Some(e) => match e.kind {
            EntryKind::File => match file_node(b.levels@, f, b.tree, e) {
                None => a.preview == (Preview { content: PreviewContent::Empty, ..b.preview })
                    && a.blob_request == b.blob_request,
                Some(n) => match cached_blob(b.blobs@, n.sha@) {
                    Some(blob) => shows_blob(a.preview, b.preview, e.name@, blob) && a.blob_request
                        == b.blob_request,
                    None => shows_pending(a.preview, b.preview, e.name@, n) && a.blob_request == (if views(
                        b.pending_blobs@,
                    ).contains(n.sha@) {
                        b.blob_request
                    } else {
                        Some((n.sha, e.name))
                    }),
                },
            },
            EntryKind::Dir | EntryKind::Repo => shows_listing(
                a.preview,
                b.preview,
                e.name@,
                kids(b.levels@, f, b.tree, e),
            ) && a.blob_request == b.blob_request,
            EntryKind::Org => a.preview == (Preview { title: e.name, content: PreviewContent::Empty, ..b.preview })
                && a.blob_request == b.blob_request,
        },
    }
}

/// The org list a new browser starts from: the recent orgs, then each
/// default not already listed.
pub open spec fn merged_orgs(recent: Seq<Seq<char>>, defaults: Seq<Seq<char>>) -> Seq<Seq<char>>
    decreases defaults.len(),
{
    if defaults.len() == 0 {
        recent
    } else {
        let before = merged_orgs(recent, defaults.drop_last());
        if before.contains(defaults.last()) {
            before
        } else {
            before.push(defaults.last())
        }
    }
}

/// Entries named by `names`, of one kind.
pub open spec fn named_entries(names: Seq<Seq<char>>, kind: EntryKind) -> Seq<(Seq<char>, EntryKind)> {
    names.map_values(|n: Seq<char>| (spec_sanitize_inline(n), kind))
}

/// A browser as it starts, before its first sync: one orgs column.
pub open spec fn initial(b: Browser, recent: Seq<Seq<char>>, defaults: Seq<Seq<char>>) -> bool {
    &&& b.levels@.len() == 1
    &&& fresh_pane(b.levels@[0], seq!['o', 'r', 'g', 's'], named_entries(merged_orgs(recent, defaults), EntryKind::Org))
    &&& b.focus == 0
    &&& b.tree is None
    &&& b.blobs@.len() == 0
    &&& b.pending_blobs@.len() == 0
    &&& b.blob_request is None
    &&& b.preview.fresh()
    &&& !b.preview.focused
    &&& b.filter_input.wf() && b.filter_input@.chars.len() == 0 && !b.filter_input@.modal
    &&& b.find_input.wf() && b.find_input@.chars.len() == 0 && !b.find_input@.modal
    &&& !b.visual
    &&& b.marks@.len() == 0
    &&& b.current_ref is None
    &&& b.history is None
    &&& b.blame is None
    &&& b.at_commit is None
}

/// `m` is `b` with the focused column's selection moved by `delta`.
pub open spec fn stepped(b: Browser, m: Browser, delta: int) -> bool {
    let f = b.focus as int;
    let p = b.levels@[f];
    &&& m == (Browser { levels: m.levels, ..b })
    &&& m.levels@ == b.levels@.update(f, m.levels@[f])
    &&& m.levels@[f].selected == crate::components::pane::moved_row(
        p.selected as int,
        visible_entries(p.entries@, p.filter@).len() as int,
        delta,
    )
    &&& m.levels@[f] == (Pane { selected: m.levels@[f].selected, ..p })
}

/// The first entry named exactly `name`.
pub open spec fn first_named(es: Seq<Entry>, name: Seq<char>) -> Option<int>
    decreases es.len(),
{
    if es.len() == 0 {
        None
    } else if es[0].name@ == name {
        Some(0)
    } else {
        match first_named(es.skip(1), name) {
            Some(i) => Some(i + 1),
            None => None,
        }
    }
}

/// `m` is `b` with `name` selected in column `lvl` (added first, or
/// last, when missing) and the focus on that column.
pub open spec fn listed_and_selected(b: Browser, m: Browser, lvl: int, name: Seq<char>, kind: EntryKind, at_end: bool) -> bool {
    let p = b.levels@[lvl];
    let q = m.levels@[lvl];
    &&& m == (Browser { levels: m.levels, focus: lvl as usize, ..b })
    &&& m.levels@ == b.levels@.update(lvl, q)
    &&& q == (Pane { entries: q.entries, selected: q.selected, ..p })
    &&& match first_named(p.entries@, name) {
        Some(i) => q.entries == p.entries && q.selected == crate::components::pane::clamped(
            i,
            visible_entries(p.entries@, p.filter@).len() as int,
        ),
        None => {
            let added = if at_end {
                entries_view(p.entries@).push((spec_sanitize_inline(name), kind))
            } else {
                seq![(spec_sanitize_inline(name), kind)] + entries_view(p.entries@)
            };
            let at = if at_end {
                p.entries@.len() as int
            } else {
                0
            };
            &&& entries_view(q.entries@) == added
            &&& q.entries@ == (if at_end {
                p.entries@.push(q.entries@[at])
            } else {
                seq![q.entries@[0]] + p.entries@
            })
            &&& q.selected == crate::components::pane::clamped(at, visible_entries(q.entries@, p.filter@).len() as int)
        },
    }
}

/// `m` is `b` with a newly loaded tree for `owner/name` installed, the
/// columns cut back to the repos, which take the focus.
pub open spec fn tree_installed(
    b: Browser,
    m: Browser,
    owner: Seq<char>,
    name: Seq<char>,
    nodes: Seq<TreeNode>,
    truncated: bool,
    branch: Seq<char>,
) -> bool {
    &&& m == (Browser { levels: m.levels, focus: 1, tree: m.tree, ..b })
    &&& m.levels@ == b.levels@.take(2)
    &&& m.tree matches Some(t) && t.owner@ == owner && t.name@ == name && t.truncated == truncated && t.branch@
        == branch && t.entries@ == nodes
}

/// `m` is `b` with a repos column for `owner`: the one there, or a new
/// empty one in place of everything right of the orgs.
pub open spec fn repos_column(b: Browser, m: Browser, owner: Seq<char>) -> bool {
    if b.levels@.len() >= 2 && b.levels@[1].title@ == owner {
        m == b
    } else {
        &&& m == (Browser { levels: m.levels, ..b })
        &&& m.levels@.len() == 2
        &&& m.levels@[0] == b.levels@[0]
        &&& fresh_pane(m.levels@[1], owner, seq![])
    }
}

/// `m` is `b` with the repos column for `org` in place of everything
/// right of the orgs, focused.
pub open spec fn repos_installed(b: Browser, m: Browser, org: Seq<char>, repos: Seq<RepoInfo>) -> bool {
    &&& m == (Browser { levels: m.levels, focus: 1, ..b })
    &&& m.levels@.len() == 2
    &&& m.levels@[0] == b.levels@[0]
    &&& fresh_pane(
        m.levels@[1],
        org,
        named_entries(repos.map_values(|r: RepoInfo| r.name@), EntryKind::Repo),
    )
}

/// `a` is `b` after `select_org(org)`.
pub open spec fn org_selected(b: Browser, a: Browser, org: Seq<char>) -> bool {
    exists|m: Browser| #[trigger] listed_and_selected(b, m, 0, org, EntryKind::Org, false) && settles(m, a)
}

/// `b` is `a` after a move, drill or preview-cursor action; `r` is
/// what the app must fetch, if anything.
pub open spec fn browser_updated(a: Browser, b: Browser, action: Action, r: Action) -> bool {
    &&& action == Action::MoveDown ==> r == Action::Noop && exists|m1: Browser, m2: Browser|
        #[trigger] stepped(a, m1, 1) && #[trigger] cascaded(m1, m2) && settles(m2, b)
    &&& action == Action::MoveUp ==> r == Action::Noop && exists|m1: Browser, m2: Browser|
        #[trigger] stepped(a, m1, -1) && #[trigger] cascaded(m1, m2) && settles(m2, b)
    &&& action == Action::DrillIn ==> exists|m: Browser| drilled(a, m, r) && #[trigger] settles(m, b)
    &&& action == Action::DrillOut ==> r == Action::Noop && settles(
        Browser {
            focus: if a.focus > 0 {
                (a.focus - 1) as usize
            } else {
                a.focus
            },
            ..a
        },
        b,
    )
    &&& action == Action::PreviewLineDown ==> r == Action::Noop && b == (Browser {
        preview: Preview {
            cursor: if a.preview.line_count == 0 {
                a.preview.cursor
            } else {
                crate::components::preview::motion::moved(a.preview.cursor, 1, a.preview.line_count)
            },
            ..a.preview
        },
        ..a
    })
    &&& action == Action::PreviewLineUp ==> r == Action::Noop && b == (Browser {
        preview: Preview {
            cursor: if a.preview.line_count == 0 {
                a.preview.cursor
            } else {
                crate::components::preview::motion::moved(a.preview.cursor, -1, a.preview.line_count)
            },
            ..a.preview
        },
        ..a
    })
    &&& !(action == Action::MoveDown || action == Action::MoveUp || action == Action::DrillIn || action
        == Action::DrillOut || action == Action::PreviewLineDown || action == Action::PreviewLineUp)
        ==> r == Action::Noop && b == a
}

/// `b` is `a` with the mark on the focused column's selected entry
/// toggled (none selected: unchanged).
pub open spec fn selection_toggled(a: Browser, b: Browser) -> bool {
    match picked(a.levels@[a.focus as int]) {
        Some(e) => exists|m: Browser|
            #[trigger] marks_toggled(a, m, a.levels@[a.focus as int].title@ + seq!['/'] + e.name@) && settles(m, b),
        None => b == a,
    }
}

/// `b` is `a` with every VISUAL mark dropped.
pub open spec fn marks_cleared(a: Browser, b: Browser) -> bool {
    exists|m: Browser|
        #![trigger settles(m, b)]
        m == (Browser { marks: m.marks, ..a }) && m.marks@.len() == 0 && settles(m, b)
}

/// `a` is `b` after `org_repos_loaded(org, repos)`: ignored unless `org`
/// is still the selected org.
pub open spec fn repos_landed(b: Browser, a: Browser, org: Seq<char>, repos: Seq<RepoInfo>) -> bool {
    if picked(b.levels@[0]) matches Some(e) && e.name@ == org {
        exists|m1: Browser, m2: Browser|
            #[trigger] repos_installed(b, m1, org, repos) && #[trigger] cascaded(m1, m2) && settles(m2, a)
    } else {
        a == b
    }
}

/// `a` is `b` after `tree_loaded(owner, name, nodes, truncated,
/// branch)`: ignored unless that repo is still the selected one.
pub open spec fn tree_landed(
    b: Browser,
    a: Browser,
    owner: Seq<char>,
    name: Seq<char>,
    nodes: Seq<TreeNode>,
    truncated: bool,
    branch: Seq<char>,
) -> bool {
    if b.levels@.len() > 1 && b.levels@[1].title@ == owner && (picked(b.levels@[1]) matches Some(e)
        && e.name@ == name) {
        exists|m1: Browser, m2: Browser|
            #[trigger] tree_installed(b, m1, owner, name, nodes, truncated, branch) && #[trigger] cascaded(m1, m2)
                && settles(
                Browser {
                    focus: if m2.levels@.len() > 2 {
                        2
                    } else {
                        1
                    },
                    ..m2
                },
                a,
            )
    } else {
        a == b
    }
}

/// `a` is `b` after `set_repo(owner, name)`.
pub open spec fn repo_set(b: Browser, a: Browser, owner: Seq<char>, name: Seq<char>) -> bool {
    exists|m0: Browser, m1: Browser, m2: Browser, m3: Browser, m4: Browser|
        #[trigger] listed_and_selected(b, m0, 0, owner, EntryKind::Org, false) && settles(m0, m1)
            && #[trigger] repos_column(m1, m2, owner) && #[trigger] listed_and_selected(
            m2,
            m3,
            1,
            name,
            EntryKind::Repo,
            true,
        ) && #[trigger] cascaded(m3, m4) && settles(m4, a)
}

/// A new column: titled, unfiltered, first row selected, unfocused,
/// no marks shown.
pub open spec fn fresh_pane(p: Pane, title: Seq<char>, listing: Seq<(Seq<char>, EntryKind)>) -> bool {
    &&& p.title@ == title
    &&& entries_view(p.entries@) == listing
    &&& p.filter@.len() == 0
    &&& p.selected == 0
    &&& !p.focused
    &&& p.checkboxes is None
    &&& !p.marks_only
}

/// `a` is `b` with the columns right of the focus dropped, and the
/// focused selection's children, when it has any, as the next column.
pub open spec fn cascaded(b: Browser, a: Browser) -> bool {
    let f = b.focus as int;
    let kept = b.levels@.take(f + 1);
    &&& a == (Browser { levels: a.levels, ..b })
    &&& a.levels@.len() >= f + 1
    &&& a.levels@.take(f + 1) == kept
    &&& match picked(b.levels@[f]) {
        Some(e) => match kids(kept, f, b.tree, e) {
            Some(k) => a.levels@.len() == f + 2 && fresh_pane(a.levels@[f + 1], e.name@, k),
            None => a.levels@.len() == f + 1,
        },
        None => a.levels@.len() == f + 1,
    }
}

/// What drilling into the focused selection does: files stay (the app
/// opens them), an org asks for its repos, a repo without its tree
/// asks for the tree; otherwise the child column is built when it is
/// missing and the focus moves into it when there is one.
pub open spec fn drilled(b: Browser, a: Browser, r: Action) -> bool {
    let f = b.focus as int;
    match picked(b.levels@[f]) {
        None => a == b && r == Action::Noop,
        Some(e) => match e.kind {
            EntryKind::File => a == b && r == Action::Noop,
            EntryKind::Org => a == b && r == Action::LoadOrgRepos(e.name),
            EntryKind::Repo | EntryKind::Dir => {
                let k = kids(b.levels@, f, b.tree, e);
                if e.kind == EntryKind::Repo && k is None {
                    &&& a == b
                    &&& r matches Action::LoadRepoTree { owner, name } && name == e.name && owner@ == (if b.levels@.len()
                        > 1 {
                        b.levels@[1].title@
                    } else {
                        seq![]
                    })
                } else {
                    &&& r == Action::Noop
                    &&& a == (Browser { levels: a.levels, focus: a.focus, ..b })
                    &&& if f == b.levels@.len() - 1 && k is Some {
                        &&& a.levels@.len() == b.levels@.len() + 1
                        &&& a.levels@.take(b.levels@.len() as int) == b.levels@
                        &&& fresh_pane(a.levels@.last(), e.name@, k.unwrap())
                    } else {
                        a.levels@ == b.levels@
                    }
                    &&& a.focus == (if f + 1 < a.levels@.len() {
                        f + 1
                    } else {
                        f
                    })
                }
            },
        },
    }
}

/// The file under the cursor: its repo path and blob sha.
pub open spec fn spec_selected_file(b: Browser) -> Option<(Seq<char>, Seq<char>)> {
    let f = b.focus as int;
    match picked(b.levels@[f]) {
        Some(e) => if e.kind == EntryKind::File {
            match file_node(b.levels@, f, b.tree, e) {
                Some(n) => Some((entry_path(spec_dir_path(b.levels@, f), e.name@), n.sha@)),
                None => None,
            }
        } else {
            None
        },
        None => None,
    }
}

/// The pieces joined by `sep`.
pub open spec fn join_seq(words: Seq<Seq<char>>, sep: Seq<char>) -> Seq<char>
    decreases words.len(),
{
    if words.len() == 0 {
        seq![]
    } else if words.len() == 1 {
        words[0]
    } else {
        join_seq(words.drop_last(), sep) + sep + words.last()
    }
}

/// The breadcrumb: the titles from the repos column down to the focus,
/// joined by ` · `, and ` @ <ref>` when browsing off the default branch.
pub open spec fn spec_context(b: Browser) -> Seq<char> {
    let crumbs = join_seq(titles(b.levels@.subrange(1, b.focus + 1)), seq![' ', '·', ' ']);
    match b.current_ref {
        Some(r) => if crumbs.len() > 0 {
            crumbs + seq![' ', '@', ' '] + r@
        } else {
            crumbs
        },
        None => crumbs,
    }
}

/// `org/<name>` for each repo entry, in order.
pub open spec fn repo_full_names(org: Seq<char>, es: Seq<Entry>) -> Seq<Seq<char>>
    decreases es.len(),
{
    if es.len() == 0 {
        seq![]
    } else {
        let prev = repo_full_names(org, es.drop_last());
        if es.last().kind == EntryKind::Repo {
            prev.push(org + seq!['/'] + es.last().name@)
        } else {
            prev
        }
    }
}

/// The repos column's repos as `org/repo`, for the selected org.
pub open spec fn spec_full_names(b: Browser) -> Seq<Seq<char>> {
    match picked(b.levels@[0]) {
        Some(o) => if b.levels@.len() > 1 {
            repo_full_names(o.name@, b.levels@[1].entries@)
        } else {
            seq![]
        },
        None => seq![],
    }
}

/// The first position of `x`.
pub open spec fn pos_of(s: Seq<Seq<char>>, x: Seq<char>) -> Option<int>
    decreases s.len(),
{
    if s.len() == 0 {
        None
    } else if s[0] == x {
        Some(0)
    } else {
        match pos_of(s.skip(1), x) {
            Some(i) => Some(i + 1),
            None => None,
        }
    }
}

/// Strings keyed for sorting by name.
pub open spec fn keyed(ms: Seq<Seq<char>>) -> Seq<(Seq<char>, ())> {
    ms.map_values(|m: Seq<char>| (m, ()))
}

/// The strings in ascending order (equal ones keep their order).
pub open spec fn ascending(ms: Seq<Seq<char>>) -> Seq<Seq<char>> {
    by_name(keyed(ms)).map_values(|p: (Seq<char>, ())| p.0)
}

/// `m` is `b` with `key` marked when it was not, unmarked when it was.
pub open spec fn marks_toggled(b: Browser, m: Browser, key: Seq<char>) -> bool {
    &&& m == (Browser { marks: m.marks, ..b })
    &&& views(m.marks@) == match pos_of(views(b.marks@), key) {
        Some(i) => views(b.marks@).remove(i),
        None => views(b.marks@).push(key),
    }
}

/// `m` is `b` with the focused column filtered by `filter`.
pub open spec fn filtered(b: Browser, m: Browser, filter: Seq<char>) -> bool {
    let f = b.focus as int;
    let p = b.levels@[f];
    &&& m.levels@ == b.levels@.update(f, m.levels@[f])
    &&& m.levels@[f].filter@ == filter
    &&& m.levels@[f].selected == crate::components::pane::clamped(
        p.selected as int,
        visible_entries(p.entries@, filter).len() as int,
    )
    &&& m.levels@[f] == (Pane { filter: m.levels@[f].filter, selected: m.levels@[f].selected, ..p })
}

/// `m` is `b` with the org-column marks deleted: the orgs they name
/// gone from the column, the marks gone.
pub open spec fn orgs_deleted(b: Browser, m: Browser) -> bool {
    let orgs = seq!['o', 'r', 'g', 's'];
    let gone = marks_under(views(b.marks@), orgs);
    let p = b.levels@[0];
    let q = m.levels@[0];
    let kept = p.entries@.filter(|e: Entry| !gone.contains(e.name@));
    let left = Pane { entries: q.entries, ..p };
    &&& m == (Browser { levels: m.levels, marks: m.marks, ..b })
    &&& m.levels@ == b.levels@.update(0, q)
    &&& q.entries@ == kept
    &&& views(m.marks@) == views(b.marks@).filter(|k: Seq<char>| !starts(k, orgs.push('/')))
    &&& q == (Pane { entries: q.entries, selected: q.selected, ..p })
    &&& q.selected == (if picked(left) matches Some(e) && gone.contains(e.name@) {
        crate::components::pane::clamped(0, visible_entries(kept, p.filter@).len() as int) as usize
    } else {
        p.selected
    })
}

/// The marks under a column titled `title`, each less the
/// `"<title>/"` prefix, in mark order.
pub open spec fn marks_under(marks: Seq<Seq<char>>, title: Seq<char>) -> Seq<Seq<char>>
    decreases marks.len(),
{
    if marks.len() == 0 {
        seq![]
    } else {
        let prev = marks_under(marks.drop_last(), title);
        let m = marks.last();
        if starts(m, title.push('/')) {
            prev.push(m.skip(title.len() as int + 1))
        } else {
            prev
        }
    }
}

/// `q` is column `p` as a sync leaves it: focused or not, its marks
/// shown (always in VISUAL, else only when it has some), boxes only on
/// marked rows outside VISUAL.
pub open spec fn settled_pane(p: Pane, q: Pane, focused: bool, marks: Seq<Seq<char>>, visual: bool) -> bool {
    &&& q == (Pane { focused: q.focused, checkboxes: q.checkboxes, marks_only: q.marks_only, ..p })
    &&& q.focused == focused
    &&& q.marks_only == !visual
    &&& match q.checkboxes {
        Some(c) => (visual || marks_under(marks, p.title@).len() > 0) && views(c@) == marks_under(marks, p.title@),
        None => !visual && marks_under(marks, p.title@).len() == 0,
    }
}

/// `a` is `b` after a sync: every column's focus flag and marks
/// brought up to date, then the preview refreshed.
pub open spec fn settles(b: Browser, a: Browser) -> bool {
    &&& a.levels@.len() == b.levels@.len()
    &&& forall|i: int|
        0 <= i < b.levels@.len() ==> settled_pane(
            #[trigger] b.levels@[i],
            a.levels@[i],
            i == b.focus,
            views(b.marks@),
            b.visual,
        )
    &&& refreshed(Browser { levels: a.levels, ..b }, a)
}

/// The marks under the column titled `title`, prefix stripped.
fn marks_in(marks: &Vec<String>, title: &str) -> (r: Vec<String>)
    ensures
        views(r@) == marks_under(views(marks@), title@),
{
    let mut prefix = chars_of(title);
    prefix.push('/');
    let mut r: Vec<String> = Vec::new();
    let mut i: usize = 0;
    while i < marks.len()
        invariant
            i <= marks@.len(),
            prefix@ == title@.push('/'),
            views(r@) == marks_under(views(marks@).take(i as int), title@),
        decreases marks.len() - i,
    {
        let m = chars_of(marks[i].as_str());
        assert(views(marks@).take(i + 1).drop_last() =~= views(marks@).take(i as int));
        assert(views(marks@).take(i + 1).last() == marks@[i as int]@);
        if starts_with(m.as_slice(), prefix.as_slice()) {
            let rest = slice_chars(m.as_slice(), prefix.len(), m.len());
            let ghost before = r@;
            r.push(string_of(rest.as_slice()));
            assert(rest@ =~= m@.skip(title@.len() as int + 1));
            assert(views(r@) =~= views(before).push(rest@));
        }
        i += 1;
    }
    assert(views(marks@).take(marks@.len() as int) =~= views(marks@));
    r
}

/// Bring one column's focus flag and marks up to date.
fn settle_pane(p: &mut Pane, focused: bool, marks: &Vec<String>, visual: bool)
    ensures
        settled_pane(*old(p), *final(p), focused, views(marks@), visual),
{
    p.focused = focused;
    let mine = marks_in(marks, p.title.as_str());
    p.checkboxes = if visual || mine.len() > 0 {
        Some(mine)
    } else {
        None
    };
    p.marks_only = !visual;
}

/// Where the first entry named exactly `name` is.
fn find_named(es: &Vec<Entry>, name: &str) -> (r: Option<usize>)
    ensures
        match r {
            Some(i) => first_named(es@, name@) == Some(i as int),
            None => first_named(es@, name@) is None,
        },
{
    let mut i: usize = 0;
    assert(es@.skip(0) =~= es@);
    while i < es.len()
        invariant
            i <= es@.len(),
            match first_named(es@.skip(i as int), name@) {
                Some(j) => first_named(es@, name@) == Some(j + i),
                None => first_named(es@, name@) is None,
            },
        decreases es.len() - i,
    {
        assert(es@.skip(i as int)[0] == es@[i as int]);
        if str_is(es[i].name.as_str(), name) {
            return Some(i);
        }
        assert(es@.skip(i as int).skip(1) =~= es@.skip(i + 1));
        i += 1;
    }
    None
}

/// `words` joined by `sep`.
pub(crate) fn join_with_str(words: &Vec<String>, sep: &str) -> (r: String)
    ensures
        r@ == join_seq(views(words@), sep@),
{
    let mut r = String::new();
    let mut i: usize = 0;
    while i < words.len()
        invariant
            i <= words@.len(),
            r@ == join_seq(views(words@).take(i as int), sep@),
        decreases words.len() - i,
    {
        assert(views(words@).take(i + 1).drop_last() =~= views(words@).take(i as int));
        if i > 0 {
            push_str(&mut r, sep);
        } else {
            assert(r@ =~= Seq::<char>::empty());
        }
        push_str(&mut r, words[i].as_str());
        i += 1;
    }
    assert(views(words@).take(words@.len() as int) =~= views(words@));
    r
}

/// Where `key` is among the marks.
fn mark_pos(marks: &Vec<String>, key: &str) -> (r: Option<usize>)
    ensures
        match r {
            Some(i) => pos_of(views(marks@), key@) == Some(i as int) && i < marks@.len(),
            None => pos_of(views(marks@), key@) is None,
        },
{
    let mut i: usize = 0;
    assert(views(marks@).skip(0) =~= views(marks@));
    while i < marks.len()
        invariant
            i <= marks@.len(),
            match pos_of(views(marks@).skip(i as int), key@) {
                Some(j) => pos_of(views(marks@), key@) == Some(j + i),
                None => pos_of(views(marks@), key@) is None,
            },
        decreases marks.len() - i,
    {
        assert(views(marks@).skip(i as int)[0] == marks@[i as int]@);
        if str_is(marks[i].as_str(), key) {
            return Some(i);
        }
        assert(views(marks@).skip(i as int).skip(1) =~= views(marks@).skip(i + 1));
        i += 1;
    }
    None
}

proof fn lemma_pos_of_member(s: Seq<Seq<char>>, x: Seq<char>)
    ensures
        pos_of(s, x) is None <==> !s.contains(x),
        pos_of(s, x) matches Some(i) ==> 0 <= i < s.len() && s[i] == x,
    decreases s.len(),
{
    if s.len() > 0 && s[0] != x {
        lemma_pos_of_member(s.skip(1), x);
        if s.contains(x) {
            let k = choose|k: int| 0 <= k < s.len() && s[k] == x;
            assert(s.skip(1)[k - 1] == x);
        }
        if s.skip(1).contains(x) {
            let k = choose|k: int| 0 <= k < s.skip(1).len() && s.skip(1)[k] == x;
            assert(s[k + 1] == x);
        }
    } else if s.len() > 0 {
        assert(s[0] == x);
    }
}

/// Insert a mark at its sorted place (after equal ones).
fn insert_mark(v: &mut Vec<String>, m: String)
    ensures
        keyed(views(final(v)@)) == ({
            let t = keyed(views(old(v)@));
            let p = name_pos_of(t, m@);
            t.take(p) + seq![(m@, ())] + t.skip(p)
        }),
{
    let ghost t = keyed(views(v@));
    let key = chars_of(m.as_str());
    let mut p: usize = 0;
    assert(t.skip(0) =~= t);
    while p < v.len() && !name_less(key.as_slice(), chars_of(v[p].as_str()).as_slice())
        invariant
            p <= v@.len(),
            t == keyed(views(v@)),
            key@ == m@,
            name_pos_of(t, m@) == p + name_pos_of(t.skip(p as int), m@),
        decreases v.len() - p,
    {
        assert(t.skip(p as int).skip(1) =~= t.skip(p + 1));
        assert(t.skip(p as int)[0] == t[p as int]);
        p += 1;
    }
    proof {
        if p < v@.len() {
            assert(t.skip(p as int)[0] == t[p as int]);
        }
    }
    v.insert(p, m);
    assert(keyed(views(v@)) =~= t.take(p as int) + seq![(m@, ())] + t.skip(p as int));
}

/// `name` is among `names`.
pub fn contains_name(names: &Vec<String>, name: &str) -> (r: bool)
    ensures
        r == views(names@).contains(name@),
{
    let mut i: usize = 0;
    while i < names.len()
        invariant
            i <= names@.len(),
            forall|k: int| 0 <= k < i ==> names@[k]@ != name@,
        decreases names.len() - i,
    {
        if str_is(names[i].as_str(), name) {
            assert(views(names@)[i as int] == name@);
            return true;
        }
        i += 1;
    }
    assert forall|k: int| 0 <= k < views(names@).len() implies views(names@)[k] != name@ by {
        assert(names@[k]@ != name@);
    }
    false
}

/// The strings sorted ascending (a stable insertion sort).
pub fn sort_strings(v: &Vec<String>) -> (r: Vec<String>)
    ensures
        views(r@) == ascending(views(v@)),
{
    let ghost s = keyed(views(v@));
    let mut out: Vec<String> = Vec::new();
    let mut i: usize = 0;
    while i < v.len()
        invariant
            i <= v@.len(),
            s == keyed(views(v@)),
            keyed(views(out@)) == by_name(s.take(i as int)),
        decreases v.len() - i,
    {
        assert(s.take(i + 1).drop_last() =~= s.take(i as int));
        assert(s.take(i + 1).last() == (v@[i as int]@, ()));
        insert_mark(&mut out, v[i].clone());
        i += 1;
    }
    assert(s.take(v@.len() as int) =~= s);
    assert(views(out@) =~= keyed(views(out@)).map_values(|p: (Seq<char>, ())| p.0));
    out
}

/// A copy of an entry.
fn copy_entry(e: &Entry) -> (r: Entry)
    ensures
        r == *e,
{
    Entry { name: e.name.clone(), kind: e.kind }
}

/// A copy of a tree node.
fn copy_node(n: &TreeNode) -> (r: TreeNode)
    ensures
        r == *n,
{
    TreeNode { path: n.path.clone(), is_dir: n.is_dir, sha: n.sha.clone(), size: n.size }
}

/// The selected entry of a column, copied out.
fn pick(p: &Pane) -> (r: Option<Entry>)
    ensures
        r == picked(*p),
{
    match p.selected_entry() {
        Some(e) => Some(copy_entry(e)),
        None => None,
    }
}

/// `name` under `base`, as a path.
fn join_path(base: &str, name: &str) -> (r: String)
    ensures
        r@ == entry_path(base@, name@),
{
    if base.is_empty() {
        name.to_string()
    } else {
        let mut s = base.to_string();
        push_char(&mut s, '/');
        push_str(&mut s, name);
        s
    }
}

/// Every node of a tree can have its sha cut short.
pub open spec fn tree_shas_cut(tree: Option<RepoTree>) -> bool {
    tree matches Some(t) ==> forall|k: int| 0 <= k < t.entries@.len() ==> sha_cuts(#[trigger] t.entries@[k].sha@)
}

proof fn lemma_node_at_member(nodes: Seq<TreeNode>, path: Seq<char>)
    ensures
        node_at(nodes, path) matches Some(n) ==> exists|k: int| 0 <= k < nodes.len() && nodes[k] == n,
    decreases nodes.len(),
{
    if nodes.len() > 0 && nodes[0].path@ != path {
        lemma_node_at_member(nodes.skip(1), path);
        if let Some(n) = node_at(nodes, path) {
            let k = choose|k: int| 0 <= k < nodes.skip(1).len() && nodes.skip(1)[k] == n;
            assert(nodes[k + 1] == n);
        }
    }
}

/// Entries expand only from a loaded tree: without one nothing
/// expands, and orgs and files never do (an org's repos come from the
/// provider).
pub proof fn lemma_children_only_from_the_tree(levels: Seq<Pane>, focus: int, tree: Option<RepoTree>, e: Entry)
    ensures
        tree is None ==> kids(levels, focus, tree, e) is None,
        e.kind == EntryKind::Org || e.kind == EntryKind::File ==> kids(levels, focus, tree, e) is None,
{
}

/// A sync touches no column's title, entries, filter or selection, nor
/// the focus, the tree or the marks: only focus flags, shown marks,
/// the preview and the blob request.
pub proof fn lemma_sync_keeps_columns(b: Browser, a: Browser)
    requires
        settles(b, a),
    ensures
        a.focus == b.focus,
        a.tree == b.tree,
        a.marks == b.marks,
        a.visual == b.visual,
        a.levels@.len() == b.levels@.len(),
        forall|i: int|
            0 <= i < b.levels@.len() ==> {
                &&& (#[trigger] a.levels@[i]).title == b.levels@[i].title
                &&& a.levels@[i].entries == b.levels@[i].entries
                &&& a.levels@[i].filter == b.levels@[i].filter
                &&& a.levels@[i].selected == b.levels@[i].selected
                &&& picked(a.levels@[i]) == picked(b.levels@[i])
            },
{
    assert forall|i: int| 0 <= i < b.levels@.len() implies {
        &&& (#[trigger] a.levels@[i]).title == b.levels@[i].title
        &&& a.levels@[i].entries == b.levels@[i].entries
        &&& a.levels@[i].filter == b.levels@[i].filter
        &&& a.levels@[i].selected == b.levels@[i].selected
        &&& picked(a.levels@[i]) == picked(b.levels@[i])
    } by {
        assert(settled_pane(b.levels@[i], a.levels@[i], i == b.focus, views(b.marks@), b.visual));
    }
}

/// Toggling the same mark twice, with a sync between, leaves the set
/// of marks as it was; the sync keeps the selection the mark is named
/// after.
pub proof fn lemma_toggle_twice_restores_marks(b: Browser, m1: Browser, a1: Browser, m2: Browser, key: Seq<char>)
    requires
        b.wf(),
        marks_toggled(b, m1, key),
        settles(m1, a1),
        marks_toggled(a1, m2, key),
    ensures
        views(m2.marks@).to_set() == views(b.marks@).to_set(),
        views(m2.marks@).len() == views(b.marks@).len(),
        a1.focus == b.focus,
        a1.levels@[a1.focus as int].title == b.levels@[b.focus as int].title,
        picked(a1.levels@[a1.focus as int]) == picked(b.levels@[b.focus as int]),
{
    lemma_sync_keeps_columns(m1, a1);
    let s0 = views(b.marks@);
    let s1 = views(m1.marks@);
    assert(views(a1.marks@) == s1);
    lemma_pos_of_member(s0, key);
    lemma_pos_of_member(s1, key);
    match pos_of(s0, key) {
        Some(i) => {
            assert(s1 == s0.remove(i));
            assert(!s1.contains(key)) by {
                if s1.contains(key) {
                    let j = choose|j: int| 0 <= j < s1.len() && s1[j] == key;
                    let j2 = if j < i { j } else { j + 1 };
                    assert(s0[j2] == s1[j]);
                    assert(s0[i] == key);
                }
            }
            assert(views(m2.marks@) == s1.push(key));
            assert(views(m2.marks@).to_set() =~= s0.to_set()) by {
                assert forall|x: Seq<char>| s0.to_set().contains(x) implies views(m2.marks@).to_set().contains(x) by {
                    let j = choose|j: int| 0 <= j < s0.len() && s0[j] == x;
                    if j < i {
                        assert(views(m2.marks@)[j] == x);
                    } else if j > i {
                        assert(views(m2.marks@)[j - 1] == x);
                    } else {
                        assert(views(m2.marks@)[s1.len() as int] == x);
                    }
                }
                assert forall|x: Seq<char>| views(m2.marks@).to_set().contains(x) implies s0.to_set().contains(x) by {
                    let j = choose|j: int| 0 <= j < views(m2.marks@).len() && views(m2.marks@)[j] == x;
                    if j < s1.len() {
                        let j2 = if j < i { j } else { j + 1 };
                        assert(s0[j2] == x);
                    } else {
                        assert(s0[i] == x);
                    }
                }
            }
        },
        None => {
            assert(s1 == s0.push(key));
            assert(pos_of(s1, key) == Some(s0.len() as int)) by {
                lemma_pos_of_member(s1, key);
                let p = pos_of(s1, key)->Some_0;
                if p < s0.len() {
                    assert(s0[p] == key);
                    assert(s0.contains(key));
                }
            }
            assert(views(m2.marks@) =~= s0);
        },
    }
}

impl Browser {
    /// The browser's invariant: a focused column exists, marks are
    /// distinct, every loaded sha can be shortened, the history lens
    /// is well formed.
    pub open spec fn wf(&self) -> bool {
        &&& self.levels@.len() >= 1
        &&& self.focus < self.levels@.len()
        &&& views(self.marks@).no_duplicates()
        &&& tree_shas_cut(self.tree)
        &&& self.history matches Some(h) ==> h.wf()
    }

    /// The repos column's title: the owner of whatever is browsed.
    fn current_owner(&self) -> (r: Option<&str>)
        ensures
            match r {
                Some(o) => self.levels@.len() > 1 && o@ == self.levels@[1].title@,
                None => self.levels@.len() <= 1,
            },
    {
        if self.levels.len() > 1 {
            Some(self.levels[1].title.as_str())
        } else {
            None
        }
    }

    /// The focused directory's path in the repo (`""` at the root).
    pub fn dir_path(&self) -> (r: String)
        requires
            self.wf(),
        ensures
            r@ == spec_dir_path(self.levels@, self.focus as int),
    {
        let mut parts: Vec<String> = Vec::new();
        if self.focus < 3 {
            assert(views(parts@) =~= Seq::<Seq<char>>::empty());
            return join_with_char(&parts, '/');
        }
        let len = self.levels.len();
        let mut i: usize = 3;
        while i <= self.focus
            invariant
                3 <= i <= self.focus + 1,
                self.focus < len,
                len == self.levels@.len(),
                views(parts@) == titles(self.levels@.subrange(3, i as int)),
            decreases self.focus + 1 - i,
        {
            let ghost before = parts@;
            parts.push(self.levels[i].title.clone());
            assert(self.levels@.subrange(3, i + 1) =~= self.levels@.subrange(3, i as int).push(self.levels@[i as int]));
            assert(views(parts@) =~= views(before).push(self.levels@[i as int].title@));
            i += 1;
            assert(views(parts@) =~= titles(self.levels@.subrange(3, i as int)));
        }
        join_with_char(&parts, '/')
    }

    /// What `e` expands to from the loaded tree.
    fn children_of(&self, e: &Entry) -> (r: Option<Vec<Entry>>)
        requires
            self.wf(),
        ensures
            match kids(self.levels@, self.focus as int, self.tree, *e) {
                Some(k) => r matches Some(v) && entries_view(v@) == k,
                None => r is None,
            },
    {
        let tree = match &self.tree {
            Some(t) => t,
            None => return None,
        };
        match e.kind {
            EntryKind::Org | EntryKind::File => None,
            EntryKind::Repo => {
                let owner = match self.current_owner() {
                    Some(o) => o,
                    None => return None,
                };
                if str_is(tree.owner.as_str(), owner) && str_is(tree.name.as_str(), e.name.as_str()) {
                    let root = String::new();
                    Some(tree.children(root.as_str()))
                } else {
                    None
                }
            },
            EntryKind::Dir => {
                let base = self.dir_path();
                let child = join_path(base.as_str(), e.name.as_str());
                Some(tree.children(child.as_str()))
            },
        }
    }

    /// The cached blob with this sha, if any.
    fn cached(&self, sha: &str) -> (r: Option<&CachedBlob>)
        ensures
            match r {
                Some(b) => cached_blob(self.blobs@, sha@) == Some(*b),
                None => cached_blob(self.blobs@, sha@) is None,
            },
    {
        let mut i: usize = 0;
        assert(self.blobs@.skip(0) =~= self.blobs@);
        while i < self.blobs.len()
            invariant
                i <= self.blobs@.len(),
                cached_blob(self.blobs@, sha@) == cached_blob(self.blobs@.skip(i as int), sha@),
            decreases self.blobs.len() - i,
        {
            assert(self.blobs@.skip(i as int)[0] == self.blobs@[i as int]);
            if str_is(self.blobs[i].sha.as_str(), sha) {
                return Some(&self.blobs[i]);
            }
            assert(self.blobs@.skip(i as int).skip(1) =~= self.blobs@.skip(i + 1));
            i += 1;
        }
        None
    }

    /// A fetch of this sha is in flight.
    fn is_pending(&self, sha: &str) -> (r: bool)
        ensures
            r == views(self.pending_blobs@).contains(sha@),
    {
        let mut i: usize = 0;
        while i < self.pending_blobs.len()
            invariant
                i <= self.pending_blobs@.len(),
                forall|k: int| 0 <= k < i ==> self.pending_blobs@[k]@ != sha@,
            decreases self.pending_blobs.len() - i,
        {
            if str_is(self.pending_blobs[i].as_str(), sha) {
                assert(views(self.pending_blobs@)[i as int] == sha@);
                return true;
            }
            i += 1;
        }
        assert forall|k: int| 0 <= k < views(self.pending_blobs@).len() implies views(self.pending_blobs@)[k]
            != sha@ by {
            assert(self.pending_blobs@[k]@ != sha@);
        }
        false
    }

    /// Bring every column's focus flag and marks up to date, then the
    /// preview.
    fn sync(&mut self)
        requires
            old(self).wf(),
        ensures
            settles(*old(self), *final(self)),
    {
        let n = self.levels.len();
        let mut i: usize = 0;
        while i < n
            invariant
                n == self.levels@.len(),
                n == old(self).levels@.len(),
                i <= n,
                *self == (Browser { levels: self.levels, ..*old(self) }),
                forall|k: int|
                    0 <= k < i ==> settled_pane(
                        #[trigger] old(self).levels@[k],
                        self.levels@[k],
                        k == old(self).focus,
                        views(old(self).marks@),
                        old(self).visual,
                    ),
                forall|k: int| i <= k < n ==> #[trigger] self.levels@[k] == old(self).levels@[k],
            decreases n - i,
        {
            let focused = i == self.focus;
            settle_pane(&mut self.levels[i], focused, &self.marks, self.visual);
            i += 1;
        }
        self.refresh_preview();
    }

    /// A browser over the recent orgs, then the defaults not among
    /// them; folded at the orgs column.
    pub fn new(recent_orgs: &[String], defaults: &[String]) -> (r: Self)
        ensures
            r.wf(),
            exists|b: Browser| initial(b, views(recent_orgs@), views(defaults@)) && settles(b, r),
    {
        let mut names: Vec<String> = Vec::new();
        let mut i: usize = 0;
        while i < recent_orgs.len()
            invariant
                i <= recent_orgs@.len(),
                views(names@) == views(recent_orgs@).take(i as int),
            decreases recent_orgs.len() - i,
        {
            let ghost before = names@;
            names.push(recent_orgs[i].clone());
            assert(views(names@) =~= views(before).push(recent_orgs@[i as int]@));
            assert(views(recent_orgs@).take(i + 1) =~= views(recent_orgs@).take(i as int).push(recent_orgs@[i as int]@));
            i += 1;
            assert(views(names@) =~= views(recent_orgs@).take(i as int));
        }
        assert(views(recent_orgs@).take(recent_orgs@.len() as int) =~= views(recent_orgs@));
        let mut j: usize = 0;
        while j < defaults.len()
            invariant
                j <= defaults@.len(),
                views(names@) == merged_orgs(views(recent_orgs@), views(defaults@).take(j as int)),
            decreases defaults.len() - j,
        {
            let d = &defaults[j];
            assert(views(defaults@).take(j + 1).drop_last() =~= views(defaults@).take(j as int));
            assert(views(defaults@).take(j + 1).last() == d@);
            let mut seen = false;
            let mut k: usize = 0;
            while k < names.len()
                invariant
                    k <= names@.len(),
                    seen == exists|q: int| 0 <= q < k && names@[q]@ == d@,
                decreases names.len() - k,
            {
                if str_is(names[k].as_str(), d.as_str()) {
                    seen = true;
                }
                k += 1;
            }
            if seen {
                proof {
                    let q = choose|q: int| 0 <= q < names@.len() && names@[q]@ == d@;
                    assert(views(names@)[q] == d@);
                }
            } else {
                assert(!views(names@).contains(d@)) by {
                    if views(names@).contains(d@) {
                        let q = choose|q: int| 0 <= q < views(names@).len() && views(names@)[q] == d@;
                        assert(names@[q]@ == d@);
                    }
                }
                let ghost before = names@;
                names.push(d.clone());
                assert(views(names@) =~= views(before).push(d@));
            }
            j += 1;
        }
        assert(views(defaults@).take(defaults@.len() as int) =~= views(defaults@));
        let mut orgs: Vec<Entry> = Vec::new();
        let mut m: usize = 0;
        while m < names.len()
            invariant
                m <= names@.len(),
                entries_view(orgs@) == named_entries(views(names@).take(m as int), EntryKind::Org),
            decreases names.len() - m,
        {
            let ghost before = orgs@;
            let e = Entry::new(names[m].as_str(), EntryKind::Org);
            orgs.push(e);
            assert(entries_view(orgs@) =~= entries_view(before).push((spec_sanitize_inline(names@[m as int]@), EntryKind::Org)));
            assert(views(names@).take(m + 1) =~= views(names@).take(m as int).push(names@[m as int]@));
            m += 1;
            assert(entries_view(orgs@) =~= named_entries(views(names@).take(m as int), EntryKind::Org));
        }
        assert(views(names@).take(names@.len() as int) =~= views(names@));
        let title = String::from_str("orgs");
        proof {
            reveal_strlit("orgs");
        }
        let mut levels: Vec<Pane> = Vec::new();
        levels.push(Pane::new(title, orgs));
        let mut browser = Browser {
            levels,
            focus: 0,
            tree: None,
            blobs: Vec::new(),
            pending_blobs: Vec::new(),
            blob_request: None,
            preview: Preview::new(),
            filter_input: VimInput::transient(),
            find_input: VimInput::transient(),
            visual: false,
            marks: Vec::new(),
            current_ref: None,
            history: None,
            blame: None,
            at_commit: None,
        };
        let ghost b = browser;
        assert(views(browser.marks@) =~= Seq::<Seq<char>>::empty());
        assert(b.levels@[0].title@ =~= seq!['o', 'r', 'g', 's']);
        assert(fresh_pane(b.levels@[0], seq!['o', 'r', 'g', 's'], named_entries(merged_orgs(views(recent_orgs@), views(defaults@)), EntryKind::Org)));
        assert(initial(b, views(recent_orgs@), views(defaults@)));
        browser.sync();
        browser
    }

    /// Move, drill or step back through the columns; move the preview
    /// cursor. Returns what the app must fetch, if anything.
    pub fn update(&mut self, action: &Action) -> (r: Action)
        requires
            old(self).wf(),
        ensures
            final(self).wf(),
            browser_updated(*old(self), *final(self), *action, r),
    {
        match action {
            Action::MoveUp | Action::MoveDown => {
                let f = self.focus;
                self.levels[f].update(action);
                let ghost m1 = *self;
                assert(m1.levels@ =~= old(self).levels@.update(f as int, m1.levels@[f as int]));
                assert(*action == Action::MoveDown ==> stepped(*old(self), m1, 1));
                assert(*action == Action::MoveUp ==> stepped(*old(self), m1, -1));
                self.cascade();
                let ghost m2 = *self;
                self.sync();
                assert(cascaded(m1, m2) && settles(m2, *self));
                Action::Noop
            },
            Action::DrillIn => {
                let r = self.drill_in();
                let ghost m = *self;
                self.sync();
                assert(drilled(*old(self), m, r) && settles(m, *self));
                r
            },
            Action::DrillOut => {
                if self.focus > 0 {
                    self.focus -= 1;
                }
                self.sync();
                Action::Noop
            },
            Action::PreviewLineDown => {
                self.preview.move_cursor(1);
                Action::Noop
            },
            Action::PreviewLineUp => {
                self.preview.move_cursor(-1);
                Action::Noop
            },
            _ => Action::Noop,
        }
    }

    /// Make sure `org` is listed in the orgs column, select it and
    /// focus there.
    pub fn select_org(&mut self, org: &str)
        requires
            old(self).wf(),
        ensures
            final(self).wf(),
            org_selected(*old(self), *final(self), org@),
    {
        let pos = match find_named(&self.levels[0].entries, org) {
            Some(p) => p,
            None => {
                self.levels[0].entries.insert(0, Entry::new(org, EntryKind::Org));
                assert(self.levels@[0].entries@ =~= seq![self.levels@[0].entries@[0]] + old(self).levels@[0].entries@);
                assert(entries_view(self.levels@[0].entries@) =~= seq![(spec_sanitize_inline(org@), EntryKind::Org)]
                    + entries_view(old(self).levels@[0].entries@));
                0
            },
        };
        self.levels[0].select(pos);
        self.focus = 0;
        let ghost m = *self;
        assert(m.levels@ =~= old(self).levels@.update(0, m.levels@[0]));
        assert(listed_and_selected(*old(self), m, 0, org@, EntryKind::Org, false));
        self.sync();
    }

    /// The repos of `org` arrived: they become the repos column, unless
    /// another org has been selected since.
    pub fn org_repos_loaded(&mut self, org: &str, repos: Vec<RepoInfo>)
        requires
            old(self).wf(),
        ensures
            final(self).wf(),
            repos_landed(*old(self), *final(self), org@, repos@),
    {
        match pick(&self.levels[0]) {
            Some(e) => {
                if !str_is(e.name.as_str(), org) {
                    return;
                }
            },
            None => return,
        }
        let mut entries: Vec<Entry> = Vec::new();
        let mut i: usize = 0;
        let ghost names = repos@.map_values(|r: RepoInfo| r.name@);
        while i < repos.len()
            invariant
                i <= repos@.len(),
                names == repos@.map_values(|r: RepoInfo| r.name@),
                entries_view(entries@) == named_entries(names.take(i as int), EntryKind::Repo),
            decreases repos.len() - i,
        {
            let ghost before = entries@;
            entries.push(Entry::new(repos[i].name.as_str(), EntryKind::Repo));
            assert(entries_view(entries@) =~= entries_view(before).push((spec_sanitize_inline(names[i as int]), EntryKind::Repo)));
            assert(names.take(i + 1) =~= names.take(i as int).push(names[i as int]));
            i += 1;
        }
        assert(names.take(repos@.len() as int) =~= names);
        self.levels.truncate(1);
        self.levels.push(Pane::new(org.to_string(), entries));
        self.focus = 1;
        let ghost m1 = *self;
        self.cascade();
        let ghost m2 = *self;
        self.sync();
        assert(repos_installed(*old(self), m1, org@, repos@) && cascaded(m1, m2) && settles(m2, *self));
    }

    /// The tree of `owner/name` arrived: it is installed and the
    /// columns rebuilt, landing in the repo's root column, unless
    /// another repo has been selected since.
    pub fn tree_loaded(&mut self, owner: &str, name: &str, entries: Vec<TreeNode>, truncated: bool, branch: String)
        requires
            old(self).wf(),
            forall|k: int| 0 <= k < entries@.len() ==> sha_cuts(#[trigger] entries@[k].sha@),
        ensures
            final(self).wf(),
            tree_landed(*old(self), *final(self), owner@, name@, entries@, truncated, branch@),
    {
        if self.levels.len() < 2 || !str_is(self.levels[1].title.as_str(), owner) {
            return;
        }
        match pick(&self.levels[1]) {
            Some(e) => {
                if !str_is(e.name.as_str(), name) {
                    return;
                }
            },
            None => return,
        }
        let ghost bw = branch@;
        self.tree = Some(RepoTree::new(owner.to_string(), name.to_string(), truncated, branch, entries));
        self.levels.truncate(2);
        self.focus = 1;
        let ghost m1 = *self;
        self.cascade();
        let ghost m2 = *self;
        if self.levels.len() > 2 {
            self.focus = 2;
        }
        self.sync();
        assert(tree_installed(*old(self), m1, owner@, name@, entries@, truncated, bw));
        assert(cascaded(m1, m2));
    }

    /// Open `owner/name`: the org selected, the repo listed and
    /// selected in its column (added when the listing lacks it), the
    /// focus on the repos.
    pub fn set_repo(&mut self, owner: &str, name: &str)
        requires
            old(self).wf(),
        ensures
            final(self).wf(),
            repo_set(*old(self), *final(self), owner@, name@),
    {
        self.select_org(owner);
        let ghost m1 = *self;
        let ghost m0 = choose|m: Browser| #[trigger] listed_and_selected(*old(self), m, 0, owner@, EntryKind::Org, false) && settles(m, m1);
        if self.levels.len() < 2 || !str_is(self.levels[1].title.as_str(), owner) {
            self.levels.truncate(1);
            let none: Vec<Entry> = Vec::new();
            assert(entries_view(none@) =~= Seq::<(Seq<char>, EntryKind)>::empty());
            self.levels.push(Pane::new(owner.to_string(), none));
        }
        let ghost m2 = *self;
        assert(repos_column(m1, m2, owner@));
        let pos = match find_named(&self.levels[1].entries, name) {
            Some(p) => p,
            None => {
                self.levels[1].entries.push(Entry::new(name, EntryKind::Repo));
                assert(self.levels@[1].entries@ =~= m2.levels@[1].entries@.push(self.levels@[1].entries@[m2.levels@[1].entries@.len() as int]));
                assert(entries_view(self.levels@[1].entries@) =~= entries_view(m2.levels@[1].entries@).push(
                    (spec_sanitize_inline(name@), EntryKind::Repo),
                ));
                self.levels[1].entries.len() - 1
            },
        };
        self.levels[1].select(pos);
        self.focus = 1;
        let ghost m3 = *self;
        assert(m3.levels@ =~= m2.levels@.update(1, m3.levels@[1]));
        assert(listed_and_selected(m2, m3, 1, name@, EntryKind::Repo, true));
        self.cascade();
        let ghost m4 = *self;
        self.sync();
        assert(cascaded(m3, m4) && settles(m4, *self));
    }

    /// The selected org, if any.
    pub fn selected_org(&self) -> (r: Option<String>)
        requires
            self.wf(),
        ensures
            match picked(self.levels@[0]) {
                Some(e) => r == Some(e.name),
                None => r is None,
            },
    {
        match self.levels[0].selected_entry() {
            Some(e) => Some(e.name.clone()),
            None => None,
        }
    }

    /// The loaded tree's default branch.
    pub fn branch(&self) -> (r: Option<&str>)
        ensures
            match self.tree {
                Some(t) => r matches Some(b) && b@ == t.branch@,
                None => r is None,
            },
    {
        match &self.tree {
            Some(t) => Some(t.branch.as_str()),
            None => None,
        }
    }

    /// The repos column's repos as `org/repo`, for the selected org.
    pub fn org_repo_full_names(&self) -> (r: Vec<String>)
        requires
            self.wf(),
        ensures
            views(r@) == spec_full_names(*self),
    {
        let mut r: Vec<String> = Vec::new();
        let org = match self.selected_org() {
            Some(o) => o,
            None => {
                assert(views(r@) =~= Seq::<Seq<char>>::empty());
                return r;
            },
        };
        if self.levels.len() < 2 {
            assert(views(r@) =~= Seq::<Seq<char>>::empty());
            return r;
        }
        let es = &self.levels[1].entries;
        let mut i: usize = 0;
        while i < es.len()
            invariant
                i <= es@.len(),
                views(r@) == repo_full_names(org@, es@.take(i as int)),
            decreases es.len() - i,
        {
            assert(es@.take(i + 1).drop_last() =~= es@.take(i as int));
            assert(es@.take(i + 1).last() == es@[i as int]);
            if es[i].kind == EntryKind::Repo {
                let mut full = org.clone();
                push_char(&mut full, '/');
                push_str(&mut full, es[i].name.as_str());
                assert(full@ =~= org@ + seq!['/'] + es@[i as int].name@);
                let ghost before = r@;
                r.push(full);
                assert(views(r@) =~= views(before).push(org@ + seq!['/'] + es@[i as int].name@));
            }
            i += 1;
        }
        assert(es@.take(es@.len() as int) =~= es@);
        r
    }

    /// The browsed revision, if off the default branch.
    pub fn current_ref(&self) -> (r: Option<&str>)
        ensures
            match self.current_ref {
                Some(c) => r matches Some(x) && x@ == c@,
                None => r is None,
            },
    {
        match &self.current_ref {
            Some(c) => Some(c.as_str()),
            None => None,
        }
    }

    /// Switch the browsed revision. History, blame and the at-commit
    /// view belonged to the previous one and are dropped.
    pub fn set_current_ref(&mut self, name: Option<String>)
        ensures
            *final(self) == (Browser {
                current_ref: name,
                history: None,
                blame: None,
                at_commit: None,
                preview: Preview { blame: None, ..old(self).preview },
                ..*old(self)
            }),
    {
        self.current_ref = name;
        self.history = None;
        self.blame = None;
        self.preview.set_blame(None);
        self.at_commit = None;
    }

    /// The lines a permalink covers: the VISUAL range when one is on,
    /// else the cursor line alone.
    pub fn yank_anchor(&self) -> (r: (Option<u32>, Option<u32>))
        ensures
            r == match crate::components::preview::spec_visual_range(self.preview.visual_anchor, self.preview.cursor) {
                Some((lo, hi)) => (Some(lo), Some(hi)),
                None => (
                    if self.preview.line_count > 0 {
                        Some((self.preview.cursor + 1) as u32)
                    } else {
                        None
                    },
                    None,
                ),
            },
    {
        match self.preview.visual_range() {
            Some((lo, hi)) => (Some(lo), Some(hi)),
            None => (self.preview.line(), None),
        }
    }

    /// Close the history lens.
    pub fn close_history(&mut self)
        ensures
            *final(self) == (Browser { history: None, ..*old(self) }),
    {
        self.history = None;
    }

    /// Entering a file at a commit: remember the present-day file to
    /// return to; its blame marks do not apply to the old content.
    pub fn note_commit_view(&mut self)
        requires
            old(self).wf(),
        ensures
            *final(self) == (Browser {
                at_commit: final(self).at_commit,
                preview: Preview { blame: None, ..old(self).preview },
                ..*old(self)
            }),
            match spec_selected_file(*old(self)) {
                Some((p, sha)) => final(self).at_commit matches Some((a, c)) && a@ == p && c@ == sha,
                None => final(self).at_commit is None,
            },
    {
        self.at_commit = self.selected_file();
        self.preview.set_blame(None);
    }

    /// Show a file's content at a commit, titled `name`, with the
    /// commit's context in the band: the present-day file is noted to
    /// return to (its blame marks dropped), and the content is cached
    /// under the commit's blob `sha` unless that sha is cached already.
    pub fn show_at_commit(&mut self, sha: &str, name: &str, text: String, band: Option<BandContext>)
        requires
            old(self).wf(),
        ensures
            final(self).wf(),
            shows_at_commit(*old(self), *final(self), sha@, name@, text@, band),
    {
        let ghost before = *self;
        self.note_commit_view();
        if self.cached(sha).is_none() {
            let lines = split_lines(text.as_str());
            let kept = text.clone();
            self.blobs.push(CachedBlob { sha: sha.to_string(), name: name.to_string(), lang: String::new(), text: kept, lines });
            assert(self.blobs@.drop_last() =~= before.blobs@);
        }
        let band_path = match &self.at_commit {
            Some((p, _)) => Some(p.clone()),
            None => None,
        };
        self.preview.set_text(name, text);
        self.preview.set_band(band_path, band);
    }

    /// VISUAL on: every column shows checkboxes.
    pub fn enter_visual(&mut self)
        requires
            old(self).wf(),
        ensures
            final(self).wf(),
            settles(Browser { visual: true, ..*old(self) }, *final(self)),
    {
        self.visual = true;
        self.sync();
    }

    /// VISUAL off; the marks stay (a following clone takes them).
    pub fn exit_visual(&mut self)
        requires
            old(self).wf(),
        ensures
            final(self).wf(),
            settles(Browser { visual: false, ..*old(self) }, *final(self)),
    {
        self.visual = false;
        self.sync();
    }

    /// Toggle the mark on the focused column's selected entry.
    pub fn toggle_selected(&mut self)
        requires
            old(self).wf(),
        ensures
            final(self).wf(),
            selection_toggled(*old(self), *final(self)),
    {
        let f = self.focus;
        let entry = match pick(&self.levels[f]) {
            Some(e) => e,
            None => return,
        };
        let mut key = self.levels[f].title.clone();
        push_char(&mut key, '/');
        push_str(&mut key, entry.name.as_str());
        let ghost k = key@;
        proof {
            lemma_pos_of_member(views(self.marks@), k);
        }
        match mark_pos(&self.marks, key.as_str()) {
            Some(i) => {
                let ghost before = views(self.marks@);
                self.marks.remove(i);
                assert(views(self.marks@) =~= before.remove(i as int));
                assert(views(self.marks@).no_duplicates()) by {
                    assert forall|a: int, b: int| 0 <= a < b < views(self.marks@).len() implies views(self.marks@)[a]
                        != views(self.marks@)[b] by {
                        let a2 = if a < i { a } else { a + 1 };
                        let b2 = if b < i { b } else { b + 1 };
                        assert(views(self.marks@)[a] == before[a2]);
                        assert(views(self.marks@)[b] == before[b2]);
                    }
                }
            },
            None => {
                let ghost before = views(self.marks@);
                self.marks.push(key);
                assert(views(self.marks@) =~= before.push(k));
                assert(views(self.marks@).no_duplicates()) by {
                    assert forall|a: int, b: int| 0 <= a < b < views(self.marks@).len() implies views(self.marks@)[a]
                        != views(self.marks@)[b] by {
                        if b == before.len() {
                            assert(before[a] != k) by {
                                if before[a] == k {
                                    assert(before.contains(k));
                                }
                            }
                        }
                    }
                }
            },
        }
        let ghost m = *self;
        self.sync();
        assert(marks_toggled(*old(self), m, k));
        assert(k == old(self).levels@[old(self).focus as int].title@ + seq!['/'] + entry.name@);
        assert(marks_toggled(*old(self), m, old(self).levels@[old(self).focus as int].title@ + seq!['/'] + entry.name@)
            && settles(m, *self));
    }

    /// Drop every VISUAL mark.
    pub fn clear_marks(&mut self)
        requires
            old(self).wf(),
        ensures
            final(self).wf(),
            marks_cleared(*old(self), *final(self)),
    {
        self.marks.clear();
        assert(views(self.marks@) =~= Seq::<Seq<char>>::empty());
        let ghost m = *self;
        self.sync();
        assert(settles(m, *self));
    }

    /// Marked entries as `"<column title>/<name>"`, sorted.
    pub fn visual_marks(&self) -> (r: Vec<String>)
        ensures
            views(r@) == ascending(views(self.marks@)),
    {
        sort_strings(&self.marks)
    }

    /// The breadcrumb for the focused column.
    pub fn context(&self) -> (r: String)
        requires
            self.wf(),
        ensures
            r@ == spec_context(*self),
    {
        let mut parts: Vec<String> = Vec::new();
        let len = self.levels.len();
        let mut i: usize = 1;
        while i <= self.focus
            invariant
                1 <= i <= self.focus + 1,
                self.focus < len,
                len == self.levels@.len(),
                views(parts@) == titles(self.levels@.subrange(1, i as int)),
            decreases self.focus + 1 - i,
        {
            let ghost before = parts@;
            parts.push(self.levels[i].title.clone());
            assert(self.levels@.subrange(1, i + 1) =~= self.levels@.subrange(1, i as int).push(self.levels@[i as int]));
            assert(views(parts@) =~= views(before).push(self.levels@[i as int].title@));
            i += 1;
        }
        let crumbs = join_with_str(&parts, " · ");
        proof {
            reveal_strlit(" · ");
            assert(" · "@ =~= seq![' ', '·', ' ']);
        }
        match &self.current_ref {
            Some(r) => {
                if crumbs.as_str().is_empty() {
                    crumbs
                } else {
                    let mut out = crumbs;
                    push_str(&mut out, " @ ");
                    push_str(&mut out, r.as_str());
                    proof {
                        reveal_strlit(" @ ");
                        assert(" @ "@ =~= seq![' ', '@', ' ']);
                    }
                    out
                }
            },
            None => crumbs,
        }
    }

    /// The focused selection's kind.
    pub fn selected_kind(&self) -> (r: Option<EntryKind>)
        requires
            self.wf(),
        ensures
            match picked(self.levels@[self.focus as int]) {
                Some(e) => r == Some(e.kind),
                None => r is None,
            },
    {
        match self.levels[self.focus].selected_entry() {
            Some(e) => Some(e.kind),
            None => None,
        }
    }

    /// Apply the `/` input's text as the focused column's filter.
    pub fn apply_filter(&mut self)
        requires
            old(self).wf(),
        ensures
            final(self).wf(),
            exists|m1: Browser, m2: Browser|
                #[trigger] filtered(*old(self), m1, old(self).filter_input@.chars) && m1 == (Browser {
                    levels: m1.levels,
                    ..*old(self)
                }) && #[trigger] cascaded(m1, m2) && settles(m2, *final(self)),
    {
        let filter = self.filter_input.value();
        let f = self.focus;
        self.levels[f].set_filter(filter);
        let ghost m1 = *self;
        assert(m1.levels@ =~= old(self).levels@.update(f as int, m1.levels@[f as int]));
        self.cascade();
        let ghost m2 = *self;
        self.sync();
        assert(filtered(*old(self), m1, old(self).filter_input@.chars) && cascaded(m1, m2));
    }

    /// Clear the `/` input and the focused column's filter.
    pub fn clear_filter(&mut self)
        requires
            old(self).wf(),
        ensures
            final(self).wf(),
            final(self).filter_input.wf(),
            exists|m1: Browser, m2: Browser|
                #[trigger] filtered(*old(self), m1, seq![]) && m1 == (Browser {
                    levels: m1.levels,
                    filter_input: m1.filter_input,
                    ..*old(self)
                }) && m1.filter_input@ == (crate::components::vim_input::VimState {
                    chars: Seq::<char>::empty(),
                    cursor: 0,
                    replace_on_edit: false,
                    ..old(self).filter_input@
                }) && #[trigger] cascaded(m1, m2) && settles(m2, *final(self)),
    {
        self.filter_input.clear();
        let f = self.focus;
        let empty = String::new();
        self.levels[f].set_filter(empty);
        let ghost m1 = *self;
        assert(m1.levels@ =~= old(self).levels@.update(f as int, m1.levels@[f as int]));
        self.cascade();
        let ghost m2 = *self;
        self.sync();
        assert(filtered(*old(self), m1, seq![]) && cascaded(m1, m2));
    }

    /// The blob fetch the file under the cursor needs: handed out once
    /// and marked in flight, so it is not asked for again.
    pub fn take_blob_request(&mut self) -> (r: Option<(String, String)>)
        ensures
            final(self).blob_request is None,
            match old(self).blob_request {
                None => r is None && *final(self) == *old(self),
                Some((sha, name)) => if views(old(self).pending_blobs@).contains(sha@) {
                    r is None && *final(self) == (Browser { blob_request: None, ..*old(self) })
                } else {
                    &&& r == Some((sha, name))
                    &&& *final(self) == (Browser {
                        blob_request: None,
                        pending_blobs: final(self).pending_blobs,
                        ..*old(self)
                    })
                    &&& views(final(self).pending_blobs@) == views(old(self).pending_blobs@).push(sha@)
                },
            },
    {
        let (sha, name) = match self.blob_request.take() {
            Some(req) => req,
            None => return None,
        };
        if self.is_pending(sha.as_str()) {
            return None;
        }
        let ghost before = self.pending_blobs@;
        self.pending_blobs.push(sha.clone());
        assert(views(self.pending_blobs@) =~= views(before).push(sha@));
        Some((sha, name))
    }

    /// The preview's cursor line (1-based), if it has lines.
    pub fn preview_line(&self) -> (r: Option<u32>)
        ensures
            r == (if self.preview.line_count > 0 {
                Some((self.preview.cursor + 1) as u32)
            } else {
                None
            }),
    {
        self.preview.line()
    }

    /// The (owner, repo) a blob fetch goes to.
    pub fn repo_coords(&self) -> (r: Option<(String, String)>)
        ensures
            match self.tree {
                Some(t) => if self.levels@.len() > 1 {
                    r matches Some((o, n)) && o@ == self.levels@[1].title@ && n == t.name
                } else {
                    r is None
                },
                None => r is None,
            },
    {
        let owner = match self.current_owner() {
            Some(o) => o.to_string(),
            None => return None,
        };
        match &self.tree {
            Some(t) => Some((owner, t.name.clone())),
            None => None,
        }
    }

    /// Delete the marked orgs from the orgs column (␣ d) and their
    /// marks; returns the deleted org names. Other marks stay.
    pub fn delete_marked_orgs(&mut self) -> (r: Vec<String>)
        requires
            old(self).wf(),
        ensures
            final(self).wf(),
            views(r@) == marks_under(views(old(self).marks@), seq!['o', 'r', 'g', 's']),
            r@.len() == 0 ==> *final(self) == *old(self),
            r@.len() > 0 ==> exists|m: Browser| #[trigger] orgs_deleted(*old(self), m) && settles(m, *final(self)),
    {
        let title = String::from_str("orgs");
        proof {
            reveal_strlit("orgs");
            assert(title@ =~= seq!['o', 'r', 'g', 's']);
        }
        let deleted = marks_in(&self.marks, title.as_str());
        if deleted.len() == 0 {
            return deleted;
        }
        let ghost gone = views(deleted@);
        let ghost pred = |e: Entry| !gone.contains(e.name@);
        let ghost p0 = self.levels@[0];
        let mut kept: Vec<Entry> = Vec::new();
        let mut i: usize = 0;
        while i < self.levels[0].entries.len()
            invariant
                i <= p0.entries@.len(),
                *self == *old(self),
                old(self).levels@.len() >= 1,
                p0 == old(self).levels@[0],
                gone == views(deleted@),
                pred == (|e: Entry| !gone.contains(e.name@)),
                kept@ == p0.entries@.take(i as int).filter(pred),
            decreases p0.entries@.len() - i,
        {
            let e = &self.levels[0].entries[i];
            proof {
                reveal(Seq::filter);
                assert(p0.entries@.take(i + 1).drop_last() =~= p0.entries@.take(i as int));
            }
            let mut hit = false;
            let mut k: usize = 0;
            while k < deleted.len()
                invariant
                    k <= deleted@.len(),
                    gone == views(deleted@),
                    hit == exists|q: int| 0 <= q < k && deleted@[q]@ == e.name@,
                decreases deleted.len() - k,
            {
                if str_is(deleted[k].as_str(), e.name.as_str()) {
                    hit = true;
                }
                k += 1;
            }
            proof {
                if hit {
                    let q = choose|q: int| 0 <= q < deleted@.len() && deleted@[q]@ == e.name@;
                    assert(gone[q] == e.name@);
                } else {
                    if gone.contains(e.name@) {
                        let q = choose|q: int| 0 <= q < gone.len() && gone[q] == e.name@;
                        assert(deleted@[q]@ == e.name@);
                    }
                }
            }
            if !hit {
                kept.push(copy_entry(e));
            }
            i += 1;
        }
        assert(p0.entries@.take(p0.entries@.len() as int) =~= p0.entries@);
        self.levels[0].entries = kept;
        let ghost mpred = |k: Seq<char>| !starts(k, seq!['o', 'r', 'g', 's'].push('/'));
        let mut prefix = chars_of(title.as_str());
        prefix.push('/');
        let mut left: Vec<String> = Vec::new();
        let mut j: usize = 0;
        while j < self.marks.len()
            invariant
                j <= self.marks@.len(),
                self.marks@ == old(self).marks@,
                views(self.marks@).no_duplicates(),
                prefix@ == seq!['o', 'r', 'g', 's'].push('/'),
                mpred == (|k: Seq<char>| !starts(k, seq!['o', 'r', 'g', 's'].push('/'))),
                views(left@) == views(self.marks@).take(j as int).filter(mpred),
                views(left@).no_duplicates(),
            decreases self.marks@.len() - j,
        {
            let ghost x = self.marks@[j as int]@;
            assert(views(self.marks@).take(j + 1) =~= views(self.marks@).take(j as int).push(x));
            proof {
                views(self.marks@).take(j as int).lemma_filter_push(x, mpred);
            }
            if !starts_with(chars_of(self.marks[j].as_str()).as_slice(), prefix.as_slice()) {
                let ghost before = views(left@);
                assert(!before.contains(x)) by {
                    if before.contains(x) {
                        views(self.marks@).take(j as int).lemma_filter_contains_rev(mpred, x);
                        let c = choose|c: int| 0 <= c < j && views(self.marks@).take(j as int)[c] == x;
                        assert(views(self.marks@)[c] == views(self.marks@)[j as int]);
                    }
                }
                left.push(self.marks[j].clone());
                assert(views(left@) =~= before.push(x));
                assert forall|a: int, b: int| 0 <= a < b < views(left@).len() implies views(left@)[a] != views(left@)[b] by {
                    if b == before.len() {
                        assert(views(left@)[a] == before[a]);
                        assert(before.contains(before[a]));
                    } else {
                        assert(before[a] != before[b]);
                    }
                }
            }
            j += 1;
        }
        assert(views(self.marks@).take(self.marks@.len() as int) =~= views(self.marks@));
        self.marks = left;
        let ghost left_pane = self.levels@[0];
        match pick(&self.levels[0]) {
            Some(e) => {
                if contains_name(&deleted, e.name.as_str()) {
                    self.levels[0].select(0);
                }
            },
            None => {},
        }
        let ghost m = *self;
        assert(m.levels@ =~= old(self).levels@.update(0, m.levels@[0]));
        assert(orgs_deleted(*old(self), m));
        self.sync();
        deleted
    }

    /// Drop the columns right of the focus and rebuild the next one
    /// from the focused selection.
    fn cascade(&mut self)
        requires
            old(self).wf(),
        ensures
            cascaded(*old(self), *final(self)),
            final(self).wf(),
    {
        let ghost b = *self;
        let n = self.levels.len();
        self.levels.truncate(self.focus + 1);
        assert(self.levels@ =~= b.levels@.take(b.focus + 1));
        assert(self.levels@[b.focus as int] == b.levels@[b.focus as int]);
        assert(self.levels@.take(b.focus + 1) =~= b.levels@.take(b.focus + 1));
        let entry = match pick(&self.levels[self.focus]) {
            Some(e) => e,
            None => return,
        };
        if let Some(children) = self.children_of(&entry) {
            let ghost kept = self.levels@;
            self.levels.push(Pane::new(entry.name.clone(), children));
            assert(self.levels@.take(b.focus + 1) =~= kept);
        }
    }

    /// Drill into the focused selection.
    fn drill_in(&mut self) -> (r: Action)
        requires
            old(self).wf(),
        ensures
            drilled(*old(self), *final(self), r),
            final(self).wf(),
    {
        let entry = match pick(&self.levels[self.focus]) {
            Some(e) => e,
            None => return Action::Noop,
        };
        match entry.kind {
            EntryKind::File => Action::Noop,
            EntryKind::Org => Action::LoadOrgRepos(entry.name),
            EntryKind::Repo | EntryKind::Dir => {
                if entry.kind == EntryKind::Repo {
                    if self.children_of(&entry).is_none() {
                        let owner = match self.current_owner() {
                            Some(o) => o.to_string(),
                            None => String::new(),
                        };
                        return Action::LoadRepoTree { owner, name: entry.name };
                    }
                }
                if self.focus == self.levels.len() - 1 {
                    if let Some(children) = self.children_of(&entry) {
                        let ghost before = self.levels@;
                        self.levels.push(Pane::new(entry.name.clone(), children));
                        assert(self.levels@.take(before.len() as int) =~= before);
                    }
                }
                if self.focus + 1 < self.levels.len() {
                    self.focus += 1;
                }
                Action::Noop
            },
        }
    }

    /// The file under the cursor, as (repo path, blob sha).
    pub fn selected_file(&self) -> (r: Option<(String, String)>)
        requires
            self.wf(),
        ensures
            match spec_selected_file(*self) {
                Some((p, sha)) => r matches Some((rp, rs)) && rp@ == p && rs@ == sha,
                None => r is None,
            },
    {
        let entry = match pick(&self.levels[self.focus]) {
            Some(e) => e,
            None => return None,
        };
        if entry.kind != EntryKind::File {
            return None;
        }
        let base = self.dir_path();
        let full = join_path(base.as_str(), entry.name.as_str());
        let tree = match &self.tree {
            Some(t) => t,
            None => return None,
        };
        match tree.find(full.as_str()) {
            Some(n) => Some((full, n.sha.clone())),
            None => None,
        }
    }

    /// Show in the preview what the focused selection calls for.
    fn refresh_preview(&mut self)
        requires
            old(self).wf(),
        ensures
            refreshed(*old(self), *final(self)),
    {
        let entry = match pick(&self.levels[self.focus]) {
            Some(e) => e,
            None => {
                self.preview.content = PreviewContent::Empty;
                return;
            },
        };
        match entry.kind {
            EntryKind::File => {
                let base = self.dir_path();
                let full = join_path(base.as_str(), entry.name.as_str());
                let node: Option<TreeNode> = match &self.tree {
                    Some(t) => match t.find(full.as_str()) {
                        Some(n) => {
                            proof {
                                lemma_node_at_member(t.entries@, full@);
                                let k = choose|k: int| 0 <= k < t.entries@.len() && t.entries@[k] == *n;
                                assert(sha_cuts(t.entries@[k].sha@));
                            }
                            Some(copy_node(n))
                        },
                        None => None,
                    },
                    None => None,
                };
                match node {
                    Some(node) => {
                        match self.cached(node.sha.as_str()) {
                            Some(blob) => {
                                let lines = clone_strings(&blob.lines);
                                let lang = blob.lang.clone();
                                self.preview.set_highlighted(entry.name.as_str(), lang.as_str(), lines);
                            },
                            None => {
                                if !self.is_pending(node.sha.as_str()) {
                                    self.blob_request = Some((node.sha.clone(), entry.name.clone()));
                                }
                                self.preview.set_file_meta(entry.name.as_str(), node.size, node.sha.as_str());
                            },
                        }
                    },
                    None => {
                        self.preview.content = PreviewContent::Empty;
                    },
                }
            },
            EntryKind::Dir | EntryKind::Repo => {
                let children = match self.children_of(&entry) {
                    Some(c) => c,
                    None => {
                        let v: Vec<Entry> = Vec::new();
                        assert(entries_view(v@) =~= Seq::<(Seq<char>, EntryKind)>::empty());
                        v
                    },
                };
                self.preview.set_dir(entry.name.as_str(), children);
            },
            EntryKind::Org => {
                self.preview.title = entry.name.clone();
                self.preview.content = PreviewContent::Empty;
            },
        }
    }
}

} // verus!
