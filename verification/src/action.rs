//! What components ask the application to do: every key a component
//! consumes comes back as one of these, and the dispatcher routes it.
use crate::components::global_search::model::{SearchHit, SearchKind};
use crate::config::Config;
use crate::provider::{ProviderError, SearchItem, TreeNode};
use vstd::prelude::*;

verus! {

/// Worker-progress state for the declared-provider consent popup:
/// `Installing` while the verified download runs, `Failed` once it
/// refuses — the popup shows why.
#[derive(Debug, Clone, PartialEq, Eq)]
pub enum DeclarationState {
    Installing,
    Failed(String),
}

/// Requests a component hands back to the application's dispatcher.
#[derive(Debug, Clone, PartialEq, Eq)]
pub enum Action {
    Noop,
    Quit,
    // Navigation
    MoveUp,
    MoveDown,
    DrillIn,
    DrillOut,
    PreviewLineUp,
    PreviewLineDown,
    // Pane filter
    EnterSearch,
    CommitFilter,
    ClearFilter,
    // Find in file: `␣ /` opens it over the preview; n/N cycle matches.
    LeaderFindInFile,
    /// A find keystroke changed the query: recompute matches live.
    UpdateFind,
    CommitFind,
    CancelFind,
    FindNext,
    FindPrev,
    // Leader
    Leader,
    LeaderSearch,
    LeaderFileFind,
    LeaderGrep,
    /// `␣ b`: the revision switcher.
    LeaderRefs,
    /// `␣ p`: the preview pane takes the keyboard.
    LeaderPreview,
    /// Esc/q out of the preview submode.
    ExitPreview,
    /// `␣ p h`: the file history lens.
    LeaderHistory,
    /// `␣ p b`: the blame lens.
    BlameToggle,
    /// `Y` in a file pane: copy the selection (else the cursor line).
    PreviewCopy,
    /// Enter in the preview submode: the editor, or the line's commit
    /// while blaming.
    PreviewEnter,
    LeaderQuit,
    // Revisions: the refs popup live-previews, Enter commits, Esc
    // reverts; the history lens navigates commits.
    RefsPreview(String),
    RefsCommit(String),
    HistoryUp,
    HistoryDown,
    HistoryOpen,
    HistoryClose,
    /// `y` in the repo search popup: yank the selected entry's URL.
    SearchYank,
    // Declared-provider lifecycle: the consent popup asks, the app
    // runs the verified install, the events land.
    DeclarationAccept,
    /// Health prompt: retry the failed spawn once.
    DeclarationRetry,
    /// Health prompt: open the config file in the editor.
    DeclarationEditConfig,
    DeclarationDecline,
    /// Worker state landing back in the popup.
    DeclarationState(DeclarationState),
    /// `/` in the history lens: commit-list filter session.
    HistoryFilterBegin,
    /// `y` in the history lens: yank the file URL anchored to the commit.
    HistoryYank,
    // Popup
    ClosePopup,
    // Overlays and the command layer
    KeybindsPopup,
    CommandLine,
    RunCommand(String),
    Visual,
    ExitVisual,
    ToggleSelect,
    /// `␣ y`: yank the context's remote URL.
    LeaderYank,
    /// `␣ c`: clear all marks.
    ClearMarks,
    /// `␣ d`: delete marked orgs from the browser.
    DeleteMarked,
    /// `␣ r`: reload the open repo's tree (or the org's repos).
    LeaderReload,
    /// Settings closed with edits: persist and hot reload.
    ApplySettings(Config),
    /// Clone wizard: run the clones (repos + destination directory).
    RunClone { repos: Vec<String>, dest: String },
    // Global search view
    CloseSearchView,
    GlobalSearchSubmitted { kind: SearchKind, query: String, scope: String, extension: String },
    GlobalSearchFailed { error: ProviderError },
    /// A streamed batch of hits.
    GlobalSearchDelta { hits: Vec<SearchHit> },
    /// The search finished: a full result set (or, streamed, none) and
    /// what the title reports.
    GlobalSearchResults {
        hits: Vec<SearchHit>,
        clipped: bool,
        index: Option<String>,
        client_filtered: usize,
        unfiltered: Vec<String>,
    },
    /// Open a search hit in the editor.
    OpenSearchHit(SearchHit),
    /// The cursor rests on a hit without context: ask for it once the
    /// cursor has stayed.
    LoadHitContext { hit: SearchHit, query: String },
    /// The cursor-rest timer numbered `timer_gen` ran out.
    HitContextDebounceFired { timer_gen: u64, hit: SearchHit, query: String },
    /// A hit's lazily fetched context landed.
    HitContextLoaded { repo: String, path: String, sha: String, line: u32, preview: Vec<(u32, String)>, match_count: u32 },
    // Search popup
    SearchSubmitted(String),
    SearchResults { items: Vec<SearchItem> },
    SearchFailed { error: ProviderError },
    // Org loading
    OrgSelected(String),
    LoadOrgRepos(String),
    OrgReposFailed { org: String, error: ProviderError },
    // Repo tree loading
    LoadRepoTree { owner: String, name: String },
    TreeLoaded {
        owner: String,
        name: String,
        entries: Vec<TreeNode>,
        truncated: bool,
        branch: String,
    },
    TreeFailed { owner: String, name: String, error: ProviderError },
    // Blob preview
    LoadBlob { sha: String, name: String },
    BlobLoaded { sha: String, name: String, bytes: Vec<u8> },
    BlobFailed { sha: String, error: ProviderError },
    /// Lazy hit-context fetch failed.
    HitContextFailed { sha: String, error: ProviderError },
    /// Blob fetched but the match text isn't in it.
    HitContextMissing { sha: String },
    // Selection outcomes
    RepoSelected { owner: String, name: String },
    OpenSelected,
}

} // verus!
