//! The application's state machine: key presses, actions and worker
//! results come in, the next state and the work to start (effects) come
//! out. It covers which overlay a key goes to, the repo search popup,
//! loading orgs and trees, moving through the columns, VISUAL marks,
//! the preview submode, the history and blame lenses (a file opened at
//! a picked commit), the revision preview, the clone run, the declared
//! provider's install and start, and the newer-release notice. Searches
//! are numbered; a result for a search that a newer one has replaced is
//! dropped.
use crate::action::Action;
use crate::mode::Mode;
use crate::app::{blame_status, blame_toggle, blame_toggled, history_fetch, open_repo, provider_status, spec_blame_status, BlameStep};
use crate::components::browser::{
    browser_updated,
    marks_cleared,
    marks_under,
    org_selected,
    orgs_deleted,
    picked,
    repo_set,
    repos_landed,
    selection_toggled,
    settles,
    sha_cuts,
    shows_at_commit,
    spec_selected_file,
    tree_landed,
    Browser,
};
use crate::sanitize::{is_binary, sanitize, spec_is_binary, spec_sanitize};
use crate::components::browser::lenses::{
    entries_view,
    first_with_sha,
    history_escaped,
    history_filter_begun,
    history_moved,
    history_opened,
    row_of,
    selected_commit,
    spec_blame_line_sha,
    visible_commits,
    HistoryView,
};
use crate::components::preview::{BandContext, Preview};
use crate::components::pane::EntryKind;
use crate::components::clone_wizard::{CloneWizard, Focus as WizardFocus, Screen};
use crate::components::command_line::CommandLine;
use crate::components::consent_popup::{ConsentKind, ConsentPopup};
use crate::components::keybinds_popup::{KeybindsPopup, MODE_COUNT};
use crate::components::refs_popup::RefsPopup;
use crate::components::settings_popup::sections::spec_build;
use crate::components::settings_popup::{opt_str_eq, strings_eq, SettingsPopup};
use crate::components::global_search::view::{view_after, SearchView};
use crate::components::global_search::model::{RawHit, SearchHit, SearchKind};
use crate::components::preview::spec_copy_target;
use crate::config::{same_config, Config, ProviderConfig, ThemeConfig, UiConfig};
use crate::app::spec_clone_candidates;
use crate::components::search_popup::{popup_after, Focus as PopupFocus, SearchPopup};
use crate::components::vim_input::{accepts, step as input_step, Outcome};
use crate::components::preview::motion::{motion_fits, motion_step};
use crate::components::preview::spec_plain_lines;
use crate::keys::{Key, KeyCode};
use crate::action::DeclarationState;
use crate::provider::{BlameRange, Declaration, LogEntry, ProviderError, RepoInfo, RepoRefs, SearchItem, TreeNode};
use crate::components::refs_popup::{row_named, spec_rows_of, RefsView};
use crate::text::{
    chars_of,
    decimal,
    decimal_chars,
    parse_u64,
    push_char,
    push_str,
    spec_parse_u64,
    starts,
    str_is,
    string_of,
    views,
};
use vstd::prelude::*;

verus! {

/// A worker's result, back on the state machine.
pub enum AppEvent {
    SearchResults { gen_id: u64, items: Vec<SearchItem> },
    SearchFailed { gen_id: u64, error: ProviderError },
    OrgReposLoaded { org: String, repos: Vec<RepoInfo> },
    OrgReposFailed { org: String, error: ProviderError },
    TreeLoaded { owner: String, name: String, entries: Vec<TreeNode>, truncated: bool, branch: String },
    TreeFailed { owner: String, name: String, error: ProviderError },
    LogLoaded { path: String, entries: Vec<LogEntry>, truncated: bool },
    LogFailed { path: String, error: ProviderError },
    BlameLoaded { path: String, ranges: Vec<BlameRange> },
    BlameFailed { path: String, error: ProviderError },
    /// A clone run finished: the repos cloned, and those that failed
    /// with their error text.
    CloneDone { ok: Vec<String>, failed: Vec<(String, String)> },
    /// The config file was written (`error` is None) or not.
    ConfigSaved { provider_changed: bool, error: Option<String> },
    /// Marked orgs were expanded into repos for a clone (`errors` name
    /// the orgs that could not be listed).
    CloneExpanded { repos: Vec<String>, errors: Vec<String> },
    /// A batch of the global search numbered `gen_id`.
    GlobalSearchDelta { gen_id: u64, hits: Vec<RawHit> },
    /// The final answer of the global search numbered `gen_id`.
    GlobalSearchResults {
        gen_id: u64,
        hits: Vec<RawHit>,
        clipped: bool,
        index: Option<String>,
        client_filtered: usize,
        unfiltered: Vec<String>,
    },
    /// The global search numbered `gen_id` failed.
    GlobalSearchFailed { gen_id: u64, error: ProviderError },
    /// A hit's blob of the global search numbered `gen_id` holds no match.
    HitContextMissing { gen_id: u64, sha: String },
    /// A hit's context for the global search numbered `gen_id` landed.
    HitContextLoaded {
        gen_id: u64,
        repo: String,
        path: String,
        sha: String,
        line: u32,
        preview: Vec<(u32, String)>,
        match_count: u32,
    },
    /// A hit's context could not be fetched.
    HitContextFailed { gen_id: u64, sha: String, error: ProviderError },
    /// A repo's branches and tags were listed.
    RefsLoaded { repo: String, refs: RepoRefs },
    /// A repo's revisions could not be listed.
    RefsFailed { repo: String, error: ProviderError },
    /// The editor could not be prepared.
    EditorFailed { message: String },
    /// No editor resolves for a stand-in hit.
    MockEditorMissing,
    /// A file's content at a commit landed: `ref_` names the commit,
    /// `sha` the blob; the commit's subject, author and date dress the
    /// band.
    BlobAtLoaded {
        path: String,
        ref_: String,
        sha: String,
        bytes: Vec<u8>,
        subject: String,
        author: String,
        date: String,
    },
    /// A file's content at a commit could not be fetched.
    BlobAtFailed { path: String, error: ProviderError },
    /// A newer release `tag` exists; `toast` says the daily reminder is
    /// still due.
    UpdateAvailable { tag: String, toast: bool },
    /// The declared provider `name` was installed.
    DeclarationInstalled { name: String },
    /// The declared provider `name` could not be installed.
    DeclarationFailed { name: String, error: String },
    /// The installed provider `name` runs now: the forge's name as the
    /// status line says it, and what it offers.
    ProviderStarted { name: String, forge: String, log_capable: bool, blame_capable: bool, refs_capable: bool },
    /// The installed provider `name` could not be started.
    ProviderUnavailable { name: String, error: String },
}

/// Work the state machine asks the world to do.
pub enum Effect {
    /// Tell the provider that in-flight work is superseded.
    CancelInFlight,
    /// Run the popup's search, numbered `gen_id`.
    SpawnSearch { gen_id: u64 },
    /// Load an org's repos.
    SpawnOrgRepos(String),
    /// Load a repo's tree.
    SpawnTree { owner: String, name: String },
    /// Remember the repo among the recent ones.
    RecordRepo { owner: String, name: String },
    /// Remember the org among the recent ones.
    RecordOrg(String),
    /// Load a file's commit log for the history lens.
    SpawnLog { repo: String, path: String, ref_name: Option<String> },
    /// Load a file's blame for the preview's margin.
    SpawnBlame { repo: String, path: String, ref_name: Option<String> },
    /// Clone the repos (`owner/name`) into `dest`.
    SpawnClones { repos: Vec<String>, dest: String },
    /// Run this action next.
    Then(Action),
    /// List the branches and tags of the repo (`owner/name`).
    SpawnRefs(String),
    /// Fetch the blob `sha` (shown as `name`) for the preview.
    SpawnBlob { sha: String, name: String },
    /// Drop these orgs from the saved recent orgs (and as the last org).
    ForgetOrgs(Vec<String>),
    /// Save the session state (recent orgs and repos, the last path).
    SaveState,
    /// Open the clone wizard on these repos, in the working directory.
    OpenCloneWizard { repos: Vec<String> },
    /// Expand the orgs into their repos, then open the clone wizard.
    SpawnExpandClone { repos: Vec<String>, orgs: Vec<String> },
    /// Reload the palette and chrome from the config.
    ReloadTheme,
    /// Write the config file; the answer comes back as `ConfigSaved`.
    SaveConfig { provider_changed: bool },
    /// Install the declared provider.
    SpawnDeclaredInstall(Declaration),
    /// Run the global search numbered `gen_id`.
    SpawnViewSearch { gen_id: u64, kind: SearchKind, query: String, scope: String, extension: String },
    /// Put the text on the clipboard.
    CopyToClipboard(String),
    /// Open the blob `sha` of `repo` (`owner/name`) at `path` in the
    /// editor.
    EditBlob { repo: String, path: String, sha: String },
    /// Open a stand-in hit's body in the editor, cached under `slug`.
    EditMockHit { slug: String, path: String, body: String },
    /// Start the cursor-rest timer numbered `timer_gen`; when it runs
    /// out, `HitContextDebounceFired` comes back.
    ArmContextTimer { timer_gen: u64, hit: SearchHit, query: String },
    /// Fetch the hit's context for the global search numbered `gen_id`.
    SpawnHitContext { gen_id: u64, hit: SearchHit, query: String },
    /// Fetch `path` of `repo` (`owner/name`) at the commit `sha`; the
    /// commit's subject, author and date come back with the bytes.
    SpawnBlobAt { repo: String, path: String, sha: String, subject: String, author: String, date: String },
    /// Start the installed provider `name` in place of the running one.
    StartInstalled(String),
}

/// The state the state machine runs on.
pub struct AppState {
    pub browser: Browser,
    pub popup: Option<SearchPopup>,
    pub status: Option<String>,
    /// The forge's name, as the status line says it.
    pub forge: String,
    /// The number of the latest search; results of older ones are stale.
    pub search_gen: u64,
    /// Offline: nothing is fetched.
    pub offline: bool,
    /// The input mode.
    pub mode: Mode,
    /// The provider lists a file's commits.
    pub log_capable: bool,
    /// The provider blames a file.
    pub blame_capable: bool,
    /// The provider lists a repo's branches and tags.
    pub refs_capable: bool,
    /// The mode the history lens returns to when it closes.
    pub history_return: Option<Mode>,
    /// The clone wizard, when open.
    pub wizard: Option<CloneWizard>,
    /// The key-binding help popup, when open.
    pub help: Option<KeybindsPopup>,
    /// The `:` command line, when open.
    pub command_line: Option<CommandLine>,
    /// The settings popup, when open.
    pub settings: Option<SettingsPopup>,
    /// The revision switcher, when open.
    pub refs_popup: Option<RefsPopup>,
    /// The revision committed when the switcher opened.
    pub refs_baseline: Option<String>,
    /// The declared-provider prompt, when open.
    pub consent: Option<ConsentPopup>,
    /// The sticky note of a declined provider install.
    pub degraded: Option<String>,
    /// The live configuration.
    pub config: Config,
    /// The palettes the settings popup offers.
    pub themes: Vec<String>,
    /// The directory the browser was in at quit.
    pub last_path: Option<String>,
    /// The app is done.
    pub should_quit: bool,
    /// The repo the search popup resumes from.
    pub last_repo: Option<String>,
    /// The global search view, when open.
    pub search_view: Option<SearchView>,
    /// The number of the latest global search; older answers are stale.
    pub view_gen: u64,
    /// Most hits a global search view keeps.
    pub view_cap: usize,
    /// The blob whose hit context is being fetched.
    pub pending_context_sha: Option<String>,
    /// The number of the latest cursor-rest timer; older ones are void.
    pub context_timer: u64,
    /// The tag of a newer release, for the modeline's chip.
    pub update_tag: Option<String>,
}

/// A status line, as text.
pub open spec fn status_view(s: Option<String>) -> Option<Seq<char>> {
    match s {
        Some(t) => Some(t@),
        None => None,
    }
}

/// The status after a load finished: a loading message (one starting
/// with one of `prefixes`) is cleared, any other message stays.
pub open spec fn cleared(s: Option<String>, prefixes: Seq<Seq<char>>) -> Option<Seq<char>> {
    match s {
        Some(t) => if exists|i: int| 0 <= i < prefixes.len() && starts(t@, #[trigger] prefixes[i]) {
            None
        } else {
            Some(t@)
        },
        None => None,
    }
}

/// A status message `"<what>: <provider status>"`.
pub open spec fn failed_status(what: Seq<char>, error: ProviderError, s: Seq<char>) -> bool {
    exists|t: String| #[trigger] crate::components::search_popup::provider_status_of(error, t) && s == what + ": "@ + t@
}

/// The history lens after its commits land (as `History::loaded`
/// leaves it).
pub open spec fn history_after(h: HistoryView, entries: Seq<LogEntry>, truncated: bool) -> HistoryView {
    let es = entries_view(entries);
    let base = HistoryView { loading: false, truncated, entries: es, pending_sha: None, ..h };
    match h.pending_sha {
        Some(sha) => match first_with_sha(es, sha) {
            Some(i) => HistoryView { cursor: row_of(visible_commits(base), i) as nat, ..base },
            None => base,
        },
        None => base,
    }
}

/// `b` is `a` after a file's log landed: the history lens open on that
/// path takes the commits; otherwise nothing changes.
pub open spec fn log_landed(a: Browser, b: Browser, path: Seq<char>, entries: Seq<LogEntry>, truncated: bool) -> bool {
    match a.history {
        Some(h) => if h@.path == path {
            &&& b == (Browser { history: b.history, ..a })
            &&& b.history matches Some(g) && g@ == history_after(h@, entries, truncated)
        } else {
            b == a
        },
        None => b == a,
    }
}

/// The event is a search result for a search a newer one replaced.
pub open spec fn stale(a: AppState, event: AppEvent) -> bool {
    match event {
        AppEvent::SearchResults { gen_id, .. } => gen_id != a.search_gen,
        AppEvent::SearchFailed { gen_id, .. } => gen_id != a.search_gen,
        AppEvent::GlobalSearchDelta { gen_id, .. } => gen_id != a.view_gen,
        AppEvent::GlobalSearchResults { gen_id, .. } => gen_id != a.view_gen,
        AppEvent::GlobalSearchFailed { gen_id, .. } => gen_id != a.view_gen,
        AppEvent::HitContextMissing { gen_id, .. } => gen_id != a.view_gen,
        AppEvent::HitContextLoaded { gen_id, .. } => gen_id != a.view_gen,
        AppEvent::HitContextFailed { gen_id, .. } => gen_id != a.view_gen,
        _ => false,
    }
}

/// The popup as an action reaches it: updated when open.
pub open spec fn popup_routed(a: Option<SearchPopup>, b: Option<SearchPopup>, action: Action) -> bool {
    match a {
        Some(p) => b matches Some(q) && popup_after(p, q, action),
        None => b is None,
    }
}

impl AppState {
    pub open spec fn wf(self) -> bool {
        &&& self.browser.wf()
        &&& self.popup matches Some(p) ==> p.wf()
        &&& self.wizard matches Some(w) ==> w.wf()
        &&& self.command_line matches Some(c) ==> c.wf()
        &&& self.settings matches Some(p) ==> p.wf()
        &&& self.refs_popup matches Some(p) ==> p.wf()
    }

    /// A state over `browser` with nothing open or searched yet, in
    /// BROWSE; `log_capable` and `blame_capable` say what the provider
    /// offers, `themes` the palettes the settings offer, `view_cap` the
    /// most hits a global search view keeps.
    pub fn new(
        browser: Browser,
        forge: String,
        offline: bool,
        log_capable: bool,
        blame_capable: bool,
        refs_capable: bool,
        config: Config,
        themes: Vec<String>,
        view_cap: usize,
    ) -> (r: Self)
        requires
            browser.wf(),
        ensures
            r.wf(),
            r == (AppState {
                browser,
                popup: None,
                status: None,
                forge,
                search_gen: 0,
                offline,
                mode: Mode::Browse,
                log_capable,
                blame_capable,
                refs_capable,
                history_return: None,
                wizard: None,
                help: None,
                command_line: None,
                settings: None,
                refs_popup: None,
                refs_baseline: None,
                consent: None,
                degraded: None,
                config,
                themes,
                last_path: None,
                should_quit: false,
                last_repo: None,
                search_view: None,
                view_gen: 0,
                view_cap,
                pending_context_sha: None,
                context_timer: 0,
                update_tag: None,
            }),
    {
        AppState {
            browser,
            popup: None,
            status: None,
            forge,
            search_gen: 0,
            offline,
            mode: Mode::Browse,
            log_capable,
            blame_capable,
            refs_capable,
            history_return: None,
            wizard: None,
            help: None,
            command_line: None,
            settings: None,
            refs_popup: None,
            refs_baseline: None,
            consent: None,
            degraded: None,
            config,
            themes,
            last_path: None,
            should_quit: false,
            last_repo: None,
            search_view: None,
            view_gen: 0,
            view_cap,
            pending_context_sha: None,
            context_timer: 0,
            update_tag: None,
        }
    }
}

/// Every node's sha can be shortened (what the browser needs of a tree).
pub fn tree_shas_cut(entries: &Vec<TreeNode>) -> (r: bool)
    ensures
        r == forall|k: int| 0 <= k < entries@.len() ==> sha_cuts(#[trigger] entries@[k].sha@),
{
    let mut i: usize = 0;
    while i < entries.len()
        invariant
            i <= entries@.len(),
            forall|k: int| 0 <= k < i ==> sha_cuts(#[trigger] entries@[k].sha@),
        decreases entries.len() - i,
    {
        let s = entries[i].sha.as_str();
        let b = s.as_bytes().len();
        let m = if b < 7 {
            b
        } else {
            7
        };
        if !s.is_char_boundary(m) {
            assert(!sha_cuts(entries@[i as int].sha@));
            return false;
        }
        i += 1;
    }
    true
}

/// Clear a loading message (one starting with one of `prefixes`).
fn clear_loading(status: &mut Option<String>, prefixes: &Vec<String>)
    ensures
        status_view(*final(status)) == cleared(*old(status), crate::text::views(prefixes@)),
{
    let hit = match status {
        Some(t) => {
            let tc = crate::text::chars_of(t.as_str());
            let mut i: usize = 0;
            let mut found = false;
            while i < prefixes.len()
                invariant
                    i <= prefixes@.len(),
                    tc@ == t@,
                    found == exists|k: int| 0 <= k < i && starts(t@, #[trigger] crate::text::views(prefixes@)[k]),
                decreases prefixes.len() - i,
            {
                let p = crate::text::chars_of(prefixes[i].as_str());
                if crate::text::starts_with(tc.as_slice(), p.as_slice()) {
                    found = true;
                }
                proof {
                    assert(crate::text::views(prefixes@)[i as int] == prefixes@[i as int]@);
                    if !found {
                        assert forall|k: int| 0 <= k < i + 1 implies !starts(t@, #[trigger] crate::text::views(prefixes@)[k]) by {}
                    }
                }
                i += 1;
            }
            found
        },
        None => false,
    };
    if hit {
        *status = None;
    }
}

/// A status `"<what>: <provider status>"`.
fn failed_message(what: &str, error: &ProviderError) -> (r: String)
    ensures
        failed_status(what@, *error, r@),
{
    let mut s = what.to_string();
    push_str(&mut s, ": ");
    let t = provider_status(error);
    push_str(&mut s, t.as_str());
    assert(crate::components::search_popup::provider_status_of(*error, t));
    s
}

/// `owner/name`.
fn full_name(owner: &str, name: &str) -> (r: String)
    ensures
        r@ == owner@ + seq!['/'] + name@,
{
    let mut s = owner.to_string();
    crate::text::push_char(&mut s, '/');
    push_str(&mut s, name);
    s
}

/// Route a worker's result into the state. A result of a replaced
/// search is dropped; search outcomes reach the popup and clear the
/// "searching" message; org repos and trees land in the browser (a
/// failure names what failed); a log lands in the history lens open
/// on that path; blame ranges land in the browser and clear the
/// "blame…" message; failures show the provider's status.
#[verifier::spinoff_prover]
#[verifier::rlimit(80)]
pub fn route_event(state: &mut AppState, event: AppEvent) -> (fx: Vec<Effect>)
    requires
        old(state).wf(),
        event matches AppEvent::TreeLoaded { entries, .. } ==> forall|k: int|
            0 <= k < entries@.len() ==> sha_cuts(#[trigger] entries@[k].sha@),
        event matches AppEvent::GlobalSearchDelta { gen_id, hits } ==> (gen_id == old(state).view_gen ==> (
        old(state).search_view matches Some(v) ==> v.dropped + hits@.len() <= usize::MAX)),
    ensures
        final(state).wf(),
        !(event is CloneExpanded || event is DeclarationInstalled) ==> fx@.len() == 0,
        event matches AppEvent::CloneExpanded { repos, .. } ==> fx@ == if repos@.len() == 0 {
            Seq::<Effect>::empty()
        } else {
            seq![Effect::OpenCloneWizard { repos }]
        },
        stale(*old(state), event) ==> *final(state) == *old(state),
        !stale(*old(state), event) ==> ({
            let a = *old(state);
            let b = *final(state);
            match event {
                AppEvent::SearchResults { items, .. } => {
                    &&& b == (AppState { popup: b.popup, status: b.status, ..a })
                    &&& status_view(b.status) == cleared(a.status, seq!["searching"@])
                    &&& popup_routed(a.popup, b.popup, Action::SearchResults { items })
                },
                AppEvent::SearchFailed { error, .. } => {
                    &&& b == (AppState { popup: b.popup, status: b.status, ..a })
                    &&& status_view(b.status) == cleared(a.status, seq!["searching"@])
                    &&& popup_routed(a.popup, b.popup, Action::SearchFailed { error })
                },
                AppEvent::OrgReposLoaded { org, repos } => {
                    &&& b == (AppState { browser: b.browser, status: b.status, ..a })
                    &&& status_view(b.status) == cleared(a.status, seq!["loading "@, "reloading org repos"@])
                    &&& repos_landed(a.browser, b.browser, org@, repos@)
                },
                AppEvent::OrgReposFailed { org, error } => {
                    &&& b == (AppState { status: b.status, ..a })
                    &&& b.status matches Some(s) && failed_status(org@, error, s@)
                },
                AppEvent::TreeLoaded { owner, name, entries, truncated, branch } => {
                    &&& b == (AppState { browser: b.browser, status: None, ..a })
                    &&& tree_landed(a.browser, b.browser, owner@, name@, entries@, truncated, branch@)
                },
                AppEvent::TreeFailed { owner, name, error } => {
                    &&& b == (AppState { status: b.status, ..a })
                    &&& b.status matches Some(s) && failed_status(owner@ + seq!['/'] + name@, error, s@)
                },
                AppEvent::LogLoaded { path, entries, truncated } => {
                    &&& b == (AppState { browser: b.browser, ..a })
                    &&& log_landed(a.browser, b.browser, path@, entries@, truncated)
                },
                AppEvent::LogFailed { error, .. } => {
                    &&& b == (AppState { status: b.status, ..a })
                    &&& b.status matches Some(s) && crate::components::search_popup::provider_status_of(error, s)
                },
                AppEvent::BlameLoaded { path, ranges } => {
                    &&& b == (AppState { browser: b.browser, status: b.status, ..a })
                    &&& b.browser.blame matches Some(x) && x.path == path && x.ranges == ranges && !x.loading
                    &&& b.status == (if a.status matches Some(s) && s@ == "blame…"@ {
                        None
                    } else {
                        a.status
                    })
                },
                AppEvent::BlameFailed { error, .. } => {
                    &&& b == (AppState { status: b.status, ..a })
                    &&& b.status matches Some(s) && crate::components::search_popup::provider_status_of(error, s)
                },
                AppEvent::CloneDone { ok, failed } => {
                    &&& b == (AppState { status: b.status, ..a })
                    &&& status_view(b.status) == Some(clone_report(ok@.len(), failed@))
                },
                AppEvent::GlobalSearchDelta { .. } => view_event_routed(a, b, event),
                AppEvent::GlobalSearchResults { .. } => view_event_routed(a, b, event),
                AppEvent::GlobalSearchFailed { .. } => view_event_routed(a, b, event),
                AppEvent::HitContextMissing { .. } => view_event_routed(a, b, event),
                AppEvent::HitContextLoaded { repo, path, sha, line, preview, match_count, .. } => {
                    &&& b == (AppState { search_view: b.search_view, pending_context_sha: b.pending_context_sha, ..a })
                    &&& b.pending_context_sha == (if a.pending_context_sha matches Some(p) && p@ == sha@ {
                        None
                    } else {
                        a.pending_context_sha
                    })
                    &&& view_routed(
                        a.search_view,
                        b.search_view,
                        Action::HitContextLoaded { repo, path, sha, line, preview, match_count },
                    )
                },
                AppEvent::HitContextFailed { error, .. } => if error.kind == crate::provider::ErrorKind::Auth
                    || error.kind == crate::provider::ErrorKind::RateLimited {
                    &&& b == (AppState { status: b.status, ..a })
                    &&& b.status matches Some(s) && crate::components::search_popup::provider_status_of(error, s)
                } else {
                    b == a
                },
                AppEvent::RefsLoaded { refs, .. } => {
                    &&& b == (AppState { refs_popup: b.refs_popup, ..a })
                    &&& match a.refs_popup {
                        Some(p) => b.refs_popup matches Some(q) && q.wf() && q@ == (RefsView {
                            cursor: row_named(spec_rows_of(refs.branches@, refs.tags@), p@.baseline) as nat,
                            rows: Some(spec_rows_of(refs.branches@, refs.tags@)),
                            ..p@
                        }),
                        None => b.refs_popup is None,
                    }
                },
                AppEvent::RefsFailed { error, .. } => {
                    &&& b == (AppState { status: b.status, ..a })
                    &&& b.status matches Some(s) && crate::components::search_popup::provider_status_of(error, s)
                },
                AppEvent::EditorFailed { message } => {
                    &&& b == (AppState { status: b.status, ..a })
                    &&& status_view(b.status) == Some("editor: "@ + message@)
                },
                AppEvent::MockEditorMissing => {
                    &&& b == (AppState { status: b.status, ..a })
                    &&& status_view(b.status) == Some("no editor found — set [editor].program or $EDITOR"@)
                },
                AppEvent::CloneExpanded { repos, errors } => {
                    let joined = crate::components::browser::join_seq(views(errors@), "; "@);
                    &&& b == (AppState { status: b.status, ..a })
                    &&& if repos@.len() == 0 {
                        status_view(b.status) == Some(
                            if errors@.len() == 0 {
                                "nothing to clone"@
                            } else {
                                "no repos: "@ + joined
                            },
                        )
                    } else if errors@.len() == 0 {
                        b.status == a.status
                    } else {
                        status_view(b.status) == Some("some orgs failed: "@ + joined)
                    }
                },
                AppEvent::ConfigSaved { provider_changed, error } => {
                    &&& b == (AppState { status: b.status, ..a })
                    &&& status_view(b.status) == Some(
                        match error {
                            None => if provider_changed {
                                "settings saved — provider applies after restart"@
                            } else {
                                "settings saved"@
                            },
                            Some(e) => "settings: "@ + e@ + " (applied live)"@,
                        },
                    )
                },
                AppEvent::BlobAtLoaded { .. } => outcome_routed(a, b, event, fx@),
                AppEvent::BlobAtFailed { .. } => outcome_routed(a, b, event, fx@),
                AppEvent::UpdateAvailable { .. } => outcome_routed(a, b, event, fx@),
                AppEvent::DeclarationInstalled { .. } => outcome_routed(a, b, event, fx@),
                AppEvent::DeclarationFailed { .. } => outcome_routed(a, b, event, fx@),
                AppEvent::ProviderStarted { .. } => outcome_routed(a, b, event, fx@),
                AppEvent::ProviderUnavailable { .. } => outcome_routed(a, b, event, fx@),
            }
        }),
{
    let fx: Vec<Effect> = Vec::new();
    match event {
        AppEvent::SearchResults { gen_id, items } => {
            if gen_id != state.search_gen {
                return fx;
            }
            let prefixes = vec![String::from_str("searching")];
            proof {
                reveal_strlit("searching");
                assert(crate::text::views(prefixes@) =~= seq!["searching"@]);
            }
            clear_loading(&mut state.status, &prefixes);
            match &mut state.popup {
                Some(p) => p.update(&Action::SearchResults { items }),
                None => {},
            }
        },
        AppEvent::SearchFailed { gen_id, error } => {
            if gen_id != state.search_gen {
                return fx;
            }
            let prefixes = vec![String::from_str("searching")];
            proof {
                reveal_strlit("searching");
                assert(crate::text::views(prefixes@) =~= seq!["searching"@]);
            }
            clear_loading(&mut state.status, &prefixes);
            match &mut state.popup {
                Some(p) => p.update(&Action::SearchFailed { error }),
                None => {},
            }
        },
        AppEvent::OrgReposLoaded { org, repos } => {
            let prefixes = vec![String::from_str("loading "), String::from_str("reloading org repos")];
            proof {
                reveal_strlit("loading ");
                reveal_strlit("reloading org repos");
                assert(crate::text::views(prefixes@) =~= seq!["loading "@, "reloading org repos"@]);
            }
            clear_loading(&mut state.status, &prefixes);
            state.browser.org_repos_loaded(org.as_str(), repos);
        },
        AppEvent::OrgReposFailed { org, error } => {
            state.status = Some(failed_message(org.as_str(), &error));
        },
        AppEvent::TreeLoaded { owner, name, entries, truncated, branch } => {
            state.status = None;
            state.browser.tree_loaded(owner.as_str(), name.as_str(), entries, truncated, branch);
        },
        AppEvent::TreeFailed { owner, name, error } => {
            let what = full_name(owner.as_str(), name.as_str());
            state.status = Some(failed_message(what.as_str(), &error));
        },
        AppEvent::LogLoaded { path, entries, truncated } => {
            let open_here = match state.browser.history_path() {
                Some(p) => str_is(p, path.as_str()),
                None => false,
            };
            if open_here {
                state.browser.history_loaded(entries, truncated);
            }
        },
        AppEvent::LogFailed { path: _, error } => {
            state.status = Some(provider_status(&error));
            assert(crate::components::search_popup::provider_status_of(error, state.status->Some_0));
        },
        AppEvent::BlameLoaded { path, ranges } => {
            state.browser.blame_store(path, ranges);
            let was_blaming = match &state.status {
                Some(s) => str_is(s.as_str(), "blame…"),
                None => false,
            };
            if was_blaming {
                state.status = None;
            }
        },
        AppEvent::BlameFailed { path: _, error } => {
            state.status = Some(provider_status(&error));
            assert(crate::components::search_popup::provider_status_of(error, state.status->Some_0));
        },
        AppEvent::CloneDone { ok, failed } => {
            state.status = Some(clone_done_status(ok.len(), &failed));
        },
        AppEvent::GlobalSearchDelta { gen_id, hits } => {
            if gen_id != state.view_gen {
                return fx;
            }
            route_view_event(state, AppEvent::GlobalSearchDelta { gen_id, hits });
        },
        AppEvent::GlobalSearchResults { gen_id, hits, clipped, index, client_filtered, unfiltered } => {
            if gen_id != state.view_gen {
                return fx;
            }
            route_view_event(
                state,
                AppEvent::GlobalSearchResults { gen_id, hits, clipped, index, client_filtered, unfiltered },
            );
        },
        AppEvent::GlobalSearchFailed { gen_id, error } => {
            if gen_id != state.view_gen {
                return fx;
            }
            route_view_event(state, AppEvent::GlobalSearchFailed { gen_id, error });
        },
        AppEvent::HitContextMissing { gen_id, sha } => {
            if gen_id != state.view_gen {
                return fx;
            }
            route_view_event(state, AppEvent::HitContextMissing { gen_id, sha });
        },
        AppEvent::CloneExpanded { repos, errors } => {
            let joined = crate::components::browser::join_with_str(&errors, "; ");
            proof {
                reveal_strlit("; ");
                reveal_strlit("nothing to clone");
                reveal_strlit("no repos: ");
                reveal_strlit("some orgs failed: ");
            }
            if repos.len() == 0 {
                if errors.len() == 0 {
                    state.status = Some(String::from_str("nothing to clone"));
                } else {
                    let mut s = String::from_str("no repos: ");
                    push_str(&mut s, joined.as_str());
                    state.status = Some(s);
                }
            } else {
                if errors.len() > 0 {
                    let mut s = String::from_str("some orgs failed: ");
                    push_str(&mut s, joined.as_str());
                    state.status = Some(s);
                }
                let mut fx = Vec::new();
                fx.push(Effect::OpenCloneWizard { repos });
                return fx;
            }
        },
        AppEvent::HitContextLoaded { gen_id, repo, path, sha, line, preview, match_count } => {
            if gen_id != state.view_gen {
                return fx;
            }
            let clear = match &state.pending_context_sha {
                Some(p) => str_is(p.as_str(), sha.as_str()),
                None => false,
            };
            if clear {
                state.pending_context_sha = None;
            }
            match &mut state.search_view {
                Some(v) => v.update(Action::HitContextLoaded { repo, path, sha, line, preview, match_count }),
                None => {},
            }
        },
        AppEvent::HitContextFailed { gen_id, sha: _, error } => {
            if gen_id != state.view_gen {
                return fx;
            }
            if error.kind == crate::provider::ErrorKind::Auth || error.kind == crate::provider::ErrorKind::RateLimited {
                state.status = Some(provider_status(&error));
                assert(crate::components::search_popup::provider_status_of(error, state.status->Some_0));
            }
        },
        AppEvent::RefsLoaded { repo: _, refs } => {
            match &mut state.refs_popup {
                Some(p) => p.set_refs(refs),
                None => {},
            }
        },
        AppEvent::RefsFailed { repo: _, error } => {
            state.status = Some(provider_status(&error));
            assert(crate::components::search_popup::provider_status_of(error, state.status->Some_0));
        },
        AppEvent::EditorFailed { message } => {
            let mut s = String::from_str("editor: ");
            push_str(&mut s, message.as_str());
            proof {
                reveal_strlit("editor: ");
            }
            state.status = Some(s);
        },
        AppEvent::MockEditorMissing => {
            state.status = Some(String::from_str("no editor found — set [editor].program or $EDITOR"));
            proof {
                reveal_strlit("no editor found — set [editor].program or $EDITOR");
            }
        },
        AppEvent::ConfigSaved { provider_changed, error } => {
            proof {
                reveal_strlit("settings saved — provider applies after restart");
                reveal_strlit("settings saved");
                reveal_strlit("settings: ");
                reveal_strlit(" (applied live)");
            }
            state.status = Some(
                match error {
                    None => if provider_changed {
                        String::from_str("settings saved — provider applies after restart")
                    } else {
                        String::from_str("settings saved")
                    },
                    Some(e) => {
                        let mut s = String::from_str("settings: ");
                        push_str(&mut s, e.as_str());
                        push_str(&mut s, " (applied live)");
                        s
                    },
                },
            );
        },
        other => {
            return route_outcome(state, other);
        },
    }
    fx
}

/// A backend hit became this result block (no body yet).
pub open spec fn raw_became(raw: RawHit, h: SearchHit) -> bool {
    &&& h.repo == raw.repo && h.path == raw.path && h.sha == raw.sha && h.branch == raw.branch
    &&& h.line == raw.line && h.preview == raw.preview && h.match_count == raw.match_count
    &&& h.body@.len() == 0 && h.stale == raw.stale && !h.unlocatable
}

/// Each backend hit became the block at its place.
pub open spec fn raws_became(raws: Seq<RawHit>, hs: Seq<SearchHit>) -> bool {
    hs.len() == raws.len() && forall|i: int| 0 <= i < raws.len() ==> raw_became(raws[i], #[trigger] hs[i])
}

/// The live count while a global search streams.
pub open spec fn live_count(forge: Seq<char>, n: nat) -> Seq<char> {
    "searching "@ + forge + "… "@ + decimal(n) + " hits"@
}

/// `b` is `a` after a current global-search answer: a batch merges
/// into the view (the status counts the hits so far); the final answer
/// or a failure clears the "searching code" status and lands in the
/// view; a hit whose blob lacks the match is marked. Without a view the
/// answer only clears the status.
pub open spec fn view_event_routed(a: AppState, b: AppState, event: AppEvent) -> bool {
    match event {
        AppEvent::GlobalSearchDelta { hits, .. } => match a.search_view {
            None => b == a,
            Some(v) => {
                &&& b == (AppState { search_view: b.search_view, status: b.status, ..a })
                &&& b.search_view matches Some(w) && (exists|hs: Vec<SearchHit>|
                    #[trigger] raws_became(hits@, hs@) && view_after(v, w, Action::GlobalSearchDelta { hits: hs }))
                    && status_view(b.status) == Some(live_count(a.forge@, w.hits@.len()))
            },
        },
        AppEvent::GlobalSearchResults { hits, clipped, index, client_filtered, unfiltered, .. } => {
            &&& b == (AppState { search_view: b.search_view, status: b.status, ..a })
            &&& status_view(b.status) == cleared(a.status, seq!["searching code"@])
            &&& match a.search_view {
                None => b.search_view is None,
                Some(v) => b.search_view matches Some(w) && exists|hs: Vec<SearchHit>|
                    #[trigger] raws_became(hits@, hs@) && view_after(
                        v,
                        w,
                        Action::GlobalSearchResults { hits: hs, clipped, index, client_filtered, unfiltered },
                    ),
            }
        },
        AppEvent::GlobalSearchFailed { error, .. } => {
            &&& b == (AppState { search_view: b.search_view, status: b.status, ..a })
            &&& status_view(b.status) == cleared(a.status, seq!["searching code"@])
            &&& match a.search_view {
                None => b.search_view is None,
                Some(v) => b.search_view matches Some(w) && view_after(v, w, Action::GlobalSearchFailed { error }),
            }
        },
        AppEvent::HitContextMissing { sha, .. } => {
            &&& b == (AppState { search_view: b.search_view, ..a })
            &&& match a.search_view {
                None => b.search_view is None,
                Some(v) => b.search_view matches Some(w) && view_after(v, w, Action::HitContextMissing { sha }),
            }
        },
        _ => b == a,
    }
}

/// Backend hits as result blocks.
fn blocks_of(raws: Vec<RawHit>) -> (r: Vec<SearchHit>)
    ensures
        raws_became(raws@, r@),
{
    let mut out: Vec<SearchHit> = Vec::new();
    let ghost all = raws@;
    let mut rest = raws;
    let mut rev: Vec<SearchHit> = Vec::new();
    while rest.len() > 0
        invariant
            rest@ == all.take(rest@.len() as int),
            rest@.len() + rev@.len() == all.len(),
            forall|k: int| 0 <= k < rev@.len() ==> raw_became(all[all.len() - 1 - k], #[trigger] rev@[k]),
        decreases rest@.len(),
    {
        let raw = rest.pop().unwrap();
        assert(raw == all[rest@.len() as int]);
        assert(rest@ =~= all.take(rest@.len() as int));
        rev.push(SearchHit::from_raw(raw));
    }
    while rev.len() > 0
        invariant
            rev@.len() + out@.len() == all.len(),
            forall|k: int| 0 <= k < rev@.len() ==> raw_became(all[all.len() - 1 - k], #[trigger] rev@[k]),
            forall|k: int| 0 <= k < out@.len() ==> raw_became(all[k], #[trigger] out@[k]),
        decreases rev@.len(),
    {
        let h = rev.pop().unwrap();
        assert(raw_became(all[out@.len() as int], h));
        out.push(h);
    }
    out
}

/// A current global-search answer reaches the view.
fn route_view_event(state: &mut AppState, event: AppEvent)
    requires
        old(state).wf(),
        event is GlobalSearchDelta || event is GlobalSearchResults || event is GlobalSearchFailed
            || event is HitContextMissing,
        event matches AppEvent::GlobalSearchDelta { hits, .. } ==> (old(state).search_view matches Some(v)
            ==> v.dropped + hits@.len() <= usize::MAX),
    ensures
        final(state).wf(),
        view_event_routed(*old(state), *final(state), event),
{
    match event {
        AppEvent::GlobalSearchDelta { gen_id: _, hits } => {
            if state.search_view.is_none() {
                return;
            }
            let blocks = blocks_of(hits);
            let mut s = String::from_str("searching ");
            push_str(&mut s, state.forge.as_str());
            push_str(&mut s, "… ");
            match &mut state.search_view {
                Some(v) => {
                    v.update(Action::GlobalSearchDelta { hits: blocks });
                    let digits = string_of(decimal_chars(v.hits.len() as u64).as_slice());
                    push_str(&mut s, digits.as_str());
                },
                None => {},
            }
            push_str(&mut s, " hits");
            proof {
                reveal_strlit("searching ");
                reveal_strlit("… ");
                reveal_strlit(" hits");
            }
            state.status = Some(s);
        },
        AppEvent::GlobalSearchResults { gen_id: _, hits, clipped, index, client_filtered, unfiltered } => {
            let prefixes = vec![String::from_str("searching code")];
            proof {
                reveal_strlit("searching code");
                assert(crate::text::views(prefixes@) =~= seq!["searching code"@]);
            }
            clear_loading(&mut state.status, &prefixes);
            let blocks = blocks_of(hits);
            match &mut state.search_view {
                Some(v) => v.update(
                    Action::GlobalSearchResults { hits: blocks, clipped, index, client_filtered, unfiltered },
                ),
                None => {},
            }
        },
        AppEvent::GlobalSearchFailed { gen_id: _, error } => {
            let prefixes = vec![String::from_str("searching code")];
            proof {
                reveal_strlit("searching code");
                assert(crate::text::views(prefixes@) =~= seq!["searching code"@]);
            }
            clear_loading(&mut state.status, &prefixes);
            match &mut state.search_view {
                Some(v) => v.update(Action::GlobalSearchFailed { error }),
                None => {},
            }
        },
        AppEvent::HitContextMissing { gen_id: _, sha } => {
            match &mut state.search_view {
                Some(v) => v.update(Action::HitContextMissing { sha }),
                None => {},
            }
        },
        _ => {},
    }
}

/// The status of a release newer than the running one.
pub open spec fn update_toast(tag: Seq<char>) -> Seq<char> {
    "rootle "@ + tag + " is out — run `rootle update`"@
}

/// The sticky note of a provider that could not be had, and why.
pub open spec fn unavailable_note(name: Seq<char>, why: Seq<char>) -> Seq<char> {
    name + " unavailable: "@ + why + " — browsing github"@
}

/// The title of a file shown at a commit: its path, then the commit's
/// first seven chars.
pub open spec fn at_commit_title(path: Seq<char>, ref_name: Seq<char>) -> Seq<char> {
    path + " @ "@ + first_chars(ref_name, 7)
}

/// `b` is `a` after an outcome arrived: a file's content at a commit
/// opens in the preview (binary content is only reported), the
/// history lens closing; a newer release is noted, its reminder shown
/// only over an empty status line; an installed provider is started,
/// and a provider that could not be installed or started leaves a
/// sticky note (shown in the install prompt when that is open).
pub open spec fn outcome_routed(a: AppState, b: AppState, event: AppEvent, fx: Seq<Effect>) -> bool {
    match event {
        AppEvent::BlobAtLoaded { path, ref_, sha, bytes, subject, author, date } => {
            &&& fx.len() == 0
            &&& if spec_is_binary(bytes@) {
                &&& b == (AppState { status: b.status, ..a })
                &&& status_view(b.status) == Some("binary file at that commit"@)
            } else {
                &&& b == (AppState {
                    browser: b.browser,
                    history_return: Some(Mode::Preview),
                    mode: Mode::Preview,
                    status: None,
                    ..a
                })
                &&& b.browser.history is None
                &&& shows_at_commit(
                    a.browser,
                    Browser { history: a.browser.history, ..b.browser },
                    sha@,
                    at_commit_title(path@, ref_@),
                    spec_sanitize(bytes@),
                    b.browser.preview.band_context,
                )
                &&& b.browser.preview.band_context matches Some(c) && c.sha@ == first_chars(ref_@, 7) && c.subject
                    == subject && c.author == author && c.date == date
            }
        },
        AppEvent::BlobAtFailed { error, .. } => {
            &&& fx.len() == 0
            &&& b == (AppState { status: b.status, ..a })
            &&& b.status matches Some(s) && crate::components::search_popup::provider_status_of(error, s)
        },
        AppEvent::UpdateAvailable { tag, toast } => {
            &&& fx.len() == 0
            &&& b == (AppState { update_tag: Some(tag), status: b.status, ..a })
            &&& if toast && a.status is None {
                status_view(b.status) == Some(update_toast(tag@))
            } else {
                b.status == a.status
            }
        },
        AppEvent::DeclarationInstalled { name } => {
            &&& fx == seq![Effect::StartInstalled(name)]
            &&& b == (AppState { consent: None, degraded: None, ..a })
        },
        AppEvent::DeclarationFailed { name, error } => {
            &&& fx.len() == 0
            &&& status_view(b.degraded) == Some(unavailable_note(name@, error@))
            &&& match a.consent {
                Some(p) => {
                    &&& b == (AppState { degraded: b.degraded, consent: b.consent, ..a })
                    &&& b.consent matches Some(q) && q.kind_spec() == p.kind_spec() && q.state_spec() == Some(
                        DeclarationState::Failed(error),
                    )
                },
                None => {
                    &&& b == (AppState { degraded: b.degraded, status: b.status, ..a })
                    &&& b.status == b.degraded
                },
            }
        },
        AppEvent::ProviderStarted { name, forge, log_capable, blame_capable, refs_capable } => {
            &&& fx.len() == 0
            &&& b == (AppState { forge, log_capable, blame_capable, refs_capable, status: b.status, ..a })
            &&& status_view(b.status) == Some(name@ + " ready"@)
        },
        AppEvent::ProviderUnavailable { name, error } => {
            &&& fx.len() == 0
            &&& b == (AppState { degraded: b.degraded, status: b.status, ..a })
            &&& status_view(b.status) == Some(unavailable_note(name@, error@))
            &&& b.degraded == b.status
        },
        _ => false,
    }
}

/// At most the first `n` chars of `s`.
fn first_chars_of(s: &str, n: usize) -> (r: String)
    ensures
        r@ == first_chars(s@, n as int),
{
    let cs = chars_of(s);
    let mut r = String::new();
    let mut i: usize = 0;
    while i < cs.len() && i < n
        invariant
            i <= cs@.len(),
            i <= n,
            cs@ == s@,
            r@ == cs@.take(i as int),
        decreases cs@.len() - i,
    {
        push_char(&mut r, cs[i]);
        assert(cs@.take(i + 1) =~= cs@.take(i as int).push(cs@[i as int]));
        i += 1;
    }
    assert(cs@.take(i as int) =~= first_chars(s@, n as int));
    r
}

/// `name` + " unavailable: " + `why` + " — browsing github".
fn unavailable(name: &str, why: &str) -> (r: String)
    ensures
        r@ == unavailable_note(name@, why@),
{
    let mut s = name.to_string();
    push_str(&mut s, " unavailable: ");
    push_str(&mut s, why);
    push_str(&mut s, " — browsing github");
    proof {
        reveal_strlit(" unavailable: ");
        reveal_strlit(" — browsing github");
    }
    s
}

/// Route an outcome: a file at a commit, a newer release, an install
/// or a provider start (see `outcome_routed`).
#[verifier::spinoff_prover]
fn route_outcome(state: &mut AppState, event: AppEvent) -> (fx: Vec<Effect>)
    requires
        old(state).wf(),
        event is BlobAtLoaded || event is BlobAtFailed || event is UpdateAvailable || event is DeclarationInstalled
            || event is DeclarationFailed || event is ProviderStarted || event is ProviderUnavailable,
    ensures
        final(state).wf(),
        outcome_routed(*old(state), *final(state), event, fx@),
{
    let mut fx: Vec<Effect> = Vec::new();
    match event {
        AppEvent::BlobAtLoaded { path, ref_, sha, bytes, subject, author, date } => {
            if is_binary(bytes.as_slice()) {
                state.status = Some(String::from_str("binary file at that commit"));
                proof {
                    reveal_strlit("binary file at that commit");
                }
                return fx;
            }
            let text = sanitize(bytes.as_slice());
            let short = first_chars_of(ref_.as_str(), 7);
            let mut name = path.clone();
            push_str(&mut name, " @ ");
            push_str(&mut name, short.as_str());
            proof {
                reveal_strlit(" @ ");
            }
            let band = BandContext { sha: short, subject, author, date };
            state.browser.show_at_commit(sha.as_str(), name.as_str(), text, Some(band));
            state.browser.close_history();
            state.history_return = Some(Mode::Preview);
            state.mode = Mode::Preview;
            state.status = None;
        },
        AppEvent::BlobAtFailed { path: _, error } => {
            state.status = Some(provider_status(&error));
            assert(crate::components::search_popup::provider_status_of(error, state.status->Some_0));
        },
        AppEvent::UpdateAvailable { tag, toast } => {
            if toast && state.status.is_none() {
                let mut s = String::from_str("rootle ");
                push_str(&mut s, tag.as_str());
                push_str(&mut s, " is out — run `rootle update`");
                proof {
                    reveal_strlit("rootle ");
                    reveal_strlit(" is out — run `rootle update`");
                }
                state.status = Some(s);
            }
            state.update_tag = Some(tag);
        },
        AppEvent::DeclarationInstalled { name } => {
            state.consent = None;
            state.degraded = None;
            fx.push(Effect::StartInstalled(name));
        },
        AppEvent::DeclarationFailed { name, error } => {
            let note = unavailable(name.as_str(), error.as_str());
            state.degraded = Some(note.clone());
            match &mut state.consent {
                Some(p) => p.set_state(DeclarationState::Failed(error)),
                None => state.status = Some(note),
            }
        },
        AppEvent::ProviderStarted { name, forge, log_capable, blame_capable, refs_capable } => {
            state.forge = forge;
            state.log_capable = log_capable;
            state.blame_capable = blame_capable;
            state.refs_capable = refs_capable;
            let mut s = name;
            push_str(&mut s, " ready");
            proof {
                reveal_strlit(" ready");
            }
            state.status = Some(s);
        },
        AppEvent::ProviderUnavailable { name, error } => {
            let note = unavailable(name.as_str(), error.as_str());
            state.degraded = Some(note.clone());
            state.status = Some(note);
        },
        _ => {},
    }
    fx
}

/// The clone selection after an org's listing: each listed repo, as
/// `org/name`, joins the selection unless it is already there.
pub open spec fn with_org_repos(repos: Seq<Seq<char>>, org: Seq<char>, names: Seq<Seq<char>>) -> Seq<Seq<char>>
    decreases names.len(),
{
    if names.len() == 0 {
        repos
    } else {
        let before = with_org_repos(repos, org, names.drop_last());
        let full = org + seq!['/'] + names.last();
        if before.contains(full) {
            before
        } else {
            before.push(full)
        }
    }
}

/// Add an org's listed repos to a clone selection.
pub fn add_org_repos(repos: &mut Vec<String>, org: &str, listing: &Vec<RepoInfo>)
    ensures
        views(final(repos)@) == with_org_repos(
            views(old(repos)@),
            org@,
            listing@.map_values(|r: RepoInfo| r.name@),
        ),
{
    let ghost names = listing@.map_values(|r: RepoInfo| r.name@);
    let mut i: usize = 0;
    while i < listing.len()
        invariant
            i <= listing@.len(),
            names == listing@.map_values(|r: RepoInfo| r.name@),
            views(repos@) == with_org_repos(views(old(repos)@), org@, names.take(i as int)),
        decreases listing.len() - i,
    {
        let mut full = String::from_str(org);
        push_char(&mut full, '/');
        push_str(&mut full, listing[i].name.as_str());
        assert(full@ =~= org@ + seq!['/'] + listing@[i as int].name@);
        assert(names.take(i + 1).drop_last() =~= names.take(i as int));
        assert(names.take(i + 1).last() == listing@[i as int].name@);
        if !crate::components::browser::contains_name(repos, full.as_str()) {
            let ghost before = views(repos@);
            repos.push(full);
            assert(views(repos@) =~= before.push(org@ + seq!['/'] + listing@[i as int].name@));
        }
        i += 1;
    }
    assert(names.take(listing@.len() as int) =~= names);
}

/// What a hit-context fetch for the global search numbered `gen_id`
/// comes to, given the provider's answer for the hit's blob: within the
/// blob cap, the needles are the query's whitespace-separated words and
/// the blob's first match (line, preview, count) lands, or the hit is
/// marked as holding none; a fetch error, or a blob over the cap, fails.
pub fn hit_context_event(
    gen_id: u64,
    hit: SearchHit,
    query: &str,
    fetched: crate::provider::ProviderResult<Vec<u8>>,
) -> (r: AppEvent)
    ensures
        match fetched {
            Ok(bytes) => if bytes@.len() <= crate::app::BLOB_CAP {
                match crate::components::global_search::backend::spec_locate_in_blob(
                    bytes@,
                    crate::text::split_ws(query@),
                ) {
                    Some((line, pv, count)) => r matches AppEvent::HitContextLoaded {
                        gen_id: g,
                        repo,
                        path,
                        sha,
                        line: l,
                        preview,
                        match_count,
                    } && g == gen_id && repo == hit.repo && path == hit.path && sha == hit.sha && l == line
                        && crate::components::global_search::model::rows_view(preview@) == pv && match_count == count,
                    None => r == AppEvent::HitContextMissing { gen_id, sha: hit.sha },
                }
            } else {
                r matches AppEvent::HitContextFailed { gen_id: g, sha, error } && g == gen_id && sha == hit.sha
                    && error.kind == crate::provider::ErrorKind::Provider && error.message@
                    == crate::app::over_cap_message(hit.sha@, bytes@.len())
            },
            Err(e) => r matches AppEvent::HitContextFailed { gen_id: g, sha, error } && g == gen_id && sha == hit.sha
                && error.kind == e.kind && error.message@ == e.message@,
        },
{
    let capped = crate::app::fetch_blob_capped(fetched, hit.sha.as_str());
    match capped {
        Ok(bytes) => {
            let needles = crate::text::split_whitespace_words(query);
            match crate::components::global_search::backend::locate_in_blob(bytes.as_slice(), needles.as_slice()) {
                Some((line, preview, count)) => AppEvent::HitContextLoaded {
                    gen_id,
                    repo: hit.repo,
                    path: hit.path,
                    sha: hit.sha,
                    line,
                    preview,
                    match_count: count,
                },
                None => AppEvent::HitContextMissing { gen_id, sha: hit.sha },
            }
        },
        Err(error) => AppEvent::HitContextFailed { gen_id, sha: hit.sha, error },
    }
}

/// At most the first `n` chars of `s`.
pub open spec fn first_chars(s: Seq<char>, n: int) -> Seq<char> {
    if s.len() <= n {
        s
    } else {
        s.take(n)
    }
}

/// What a finished clone run reports: "cloned <n> repo(s)", then, when
/// some failed, ", <m> failed (<the first error's first 40 chars> …)".
pub open spec fn clone_report(ok: nat, failed: Seq<(String, String)>) -> Seq<char> {
    let head = "cloned "@ + decimal(ok) + " repo"@ + if ok == 1 {
        seq![]
    } else {
        seq!['s']
    };
    if failed.len() == 0 {
        head
    } else {
        head + ", "@ + decimal(failed.len()) + " failed ("@ + first_chars(failed[0].1@, 40) + " …)"@
    }
}

/// The status line of a finished clone run.
pub fn clone_done_status(ok: usize, failed: &Vec<(String, String)>) -> (r: String)
    ensures
        r@ == clone_report(ok as nat, failed@),
{
    let mut s = String::from_str("cloned ");
    let digits = string_of(decimal_chars(ok as u64).as_slice());
    push_str(&mut s, digits.as_str());
    push_str(&mut s, " repo");
    if ok != 1 {
        push_char(&mut s, 's');
    }
    proof {
        reveal_strlit("cloned ");
        reveal_strlit(" repo");
    }
    if failed.len() > 0 {
        push_str(&mut s, ", ");
        let n = string_of(decimal_chars(failed.len() as u64).as_slice());
        push_str(&mut s, n.as_str());
        push_str(&mut s, " failed (");
        let cs = chars_of(failed[0].1.as_str());
        let ghost before = s@;
        let mut i: usize = 0;
        while i < cs.len() && i < 40
            invariant
                i <= cs@.len(),
                i <= 40,
                s@ == before + cs@.take(i as int),
            decreases cs@.len() - i,
        {
            push_char(&mut s, cs[i]);
            assert(cs@.take(i + 1) =~= cs@.take(i as int).push(cs@[i as int]));
            i += 1;
        }
        assert(cs@.take(i as int) =~= first_chars(failed@[0].1@, 40));
        push_str(&mut s, " …)");
        proof {
            reveal_strlit(", ");
            reveal_strlit(" failed (");
            reveal_strlit(" …)");
        }
    }
    s
}

/// `fx` is the single effect `e` when online, nothing offline.
pub open spec fn spawn_unless_offline(offline: bool, fx: Seq<Effect>, e: Effect) -> bool {
    if offline {
        fx.len() == 0
    } else {
        fx == seq![e]
    }
}

/// The number after `g`, wrapping to 0 past the last one.
pub open spec fn next_gen(g: u64) -> u64 {
    if g == u64::MAX {
        0
    } else {
        (g + 1) as u64
    }
}

/// The number after `g`, wrapping to 0 past the last one.
pub fn bump(g: u64) -> (r: u64)
    ensures
        r == next_gen(g),
{
    if g == u64::MAX {
        0
    } else {
        g + 1
    }
}

/// The "loading <org>…" message.
pub open spec fn loading_org(org: Seq<char>) -> Seq<char> {
    "loading "@ + org + "…"@
}

/// The "loading <owner>/<name> tree…" message.
pub open spec fn loading_tree(owner: Seq<char>, name: Seq<char>) -> Seq<char> {
    "loading "@ + owner + seq!['/'] + name + " tree…"@
}

/// `fx` is the log fetch the open history lens of `b` needs: one
/// effect when a repo is open, none otherwise.
pub open spec fn log_fetch(b: Browser, fx: Seq<Effect>) -> bool {
    match (open_repo(b), b.history) {
        (Some(repo), Some(h)) => fx.len() == 1 && (fx[0] matches Effect::SpawnLog { repo: rr, path: p, ref_name: f }
            && rr@ == repo && p@ == h@.path && f == b.current_ref),
        _ => fx.len() == 0,
    }
}

/// The effects a blame step starts: its fetch, if it asks for one.
pub open spec fn blame_effects(step: BlameStep) -> Seq<Effect> {
    match step {
        BlameStep::Fetch { repo, path, ref_name } => seq![Effect::SpawnBlame { repo, path, ref_name }],
        _ => seq![],
    }
}

/// The lens closes on this Esc: no committed filter is there to clear.
pub open spec fn history_closes(b: Browser) -> bool {
    !(b.history matches Some(h) && h@.filter_value.len() > 0)
}

/// What one action does to the state, and the work it starts (the
/// search popup and loads here, the other flows in turn); `r.0` hands
/// back an action the state machine does not own.
pub open spec fn spec_step(a: AppState, b: AppState, action: Action, r: (Option<Action>, Seq<Effect>)) -> bool {
    match action {
        Action::SearchSubmitted(q) => {
            &&& r.0 is None
            &&& b == (AppState { popup: b.popup, status: b.status, search_gen: next_gen(a.search_gen), ..a })
            &&& status_view(b.status) == Some("searching "@ + a.forge@ + "…"@)
            &&& popup_routed(a.popup, b.popup, Action::SearchSubmitted(q))
            &&& r.1[0] == Effect::CancelInFlight
            &&& spawn_unless_offline(a.offline, r.1.skip(1), Effect::SpawnSearch { gen_id: next_gen(a.search_gen) })
            &&& r.1.len() >= 1
        },
        Action::SearchResults { items } => {
            &&& r.0 is None && r.1.len() == 0
            &&& b == (AppState { popup: b.popup, status: None, ..a })
            &&& popup_routed(a.popup, b.popup, Action::SearchResults { items })
        },
        Action::SearchFailed { error } => {
            &&& r.0 is None && r.1.len() == 0
            &&& b == (AppState { popup: b.popup, status: None, ..a })
            &&& popup_routed(a.popup, b.popup, Action::SearchFailed { error })
        },
        Action::RepoSelected { owner, name } => {
            &&& r.0 is None
            &&& b == (AppState {
                browser: b.browser,
                popup: None,
                mode: Mode::Browse,
                status: b.status,
                ..a
            })
            &&& repo_set(a.browser, b.browser, owner@, name@)
            &&& status_view(b.status) == Some(loading_tree(owner@, name@))
            &&& r.1.len() >= 1
            &&& r.1[0] == (Effect::RecordRepo { owner, name })
            &&& spawn_unless_offline(a.offline, r.1.skip(1), Effect::SpawnTree { owner, name })
        },
        Action::OrgSelected(org) => {
            &&& r.0 is None
            &&& b == (AppState { browser: b.browser, popup: None, mode: Mode::Browse, status: b.status, ..a })
            &&& org_selected(a.browser, b.browser, org@)
            &&& status_view(b.status) == Some(loading_org(org@))
            &&& r.1.len() >= 1
            &&& r.1[0] == Effect::RecordOrg(org)
            &&& spawn_unless_offline(a.offline, r.1.skip(1), Effect::SpawnOrgRepos(org))
        },
        Action::LoadOrgRepos(org) => {
            &&& r.0 is None
            &&& b == (AppState { status: b.status, ..a })
            &&& status_view(b.status) == Some(loading_org(org@))
            &&& spawn_unless_offline(a.offline, r.1, Effect::SpawnOrgRepos(org))
        },
        Action::LoadRepoTree { owner, name } => {
            &&& r.0 is None
            &&& b == (AppState { status: b.status, ..a })
            &&& status_view(b.status) == Some(loading_tree(owner@, name@))
            &&& spawn_unless_offline(a.offline, r.1, Effect::SpawnTree { owner, name })
        },
        Action::OrgReposFailed { org, error } => {
            &&& r.0 is None && r.1.len() == 0
            &&& b == (AppState { status: b.status, ..a })
            &&& b.status matches Some(s) && failed_status(org@, error, s@)
        },
        Action::TreeLoaded { owner, name, entries, truncated, branch } => {
            &&& r.0 is None && r.1.len() == 0
            &&& b == (AppState { browser: b.browser, status: None, ..a })
            &&& tree_landed(a.browser, b.browser, owner@, name@, entries@, truncated, branch@)
        },
        Action::TreeFailed { owner, name, error } => {
            &&& r.0 is None && r.1.len() == 0
            &&& b == (AppState { status: b.status, ..a })
            &&& b.status matches Some(s) && failed_status(owner@ + seq!['/'] + name@, error, s@)
        },
        _ => spec_browse_step(a, b, action, r),
    }
}

/// What one action on the columns (moves, drills, VISUAL marks, the
/// committed filter) does to the state; a fetch the columns ask for
/// comes out as the action to run next.
pub open spec fn spec_browse_step(a: AppState, b: AppState, action: Action, r: (Option<Action>, Seq<Effect>)) -> bool {
    match action {
        Action::Visual => {
            &&& r.0 is None && r.1.len() == 0
            &&& b == (AppState { browser: b.browser, mode: Mode::Visual, ..a })
            &&& settles(Browser { visual: true, ..a.browser }, b.browser)
        },
        Action::ExitVisual => {
            &&& r.0 is None && r.1.len() == 0
            &&& b == (AppState { browser: b.browser, mode: Mode::Browse, ..a })
            &&& settles(Browser { visual: false, ..a.browser }, b.browser)
        },
        Action::ToggleSelect => {
            &&& r.0 is None && r.1.len() == 0
            &&& b == (AppState { browser: b.browser, ..a })
            &&& selection_toggled(a.browser, b.browser)
        },
        Action::ClearMarks => {
            &&& r.0 is None && r.1.len() == 0
            &&& b == (AppState { browser: b.browser, mode: Mode::Browse, status: b.status, ..a })
            &&& status_view(b.status) == Some("marks cleared"@)
            &&& marks_cleared(a.browser, b.browser)
        },
        Action::CommitFilter => r.0 is None && r.1.len() == 0 && b == (AppState { mode: Mode::Browse, ..a }),
        Action::MoveUp | Action::MoveDown | Action::DrillIn | Action::DrillOut | Action::PreviewLineUp
        | Action::PreviewLineDown => {
            &&& r.0 is None && r.1.len() == 1
            &&& b == (AppState { browser: b.browser, ..a })
            &&& r.1[0] matches Effect::Then(follow) && browser_updated(a.browser, b.browser, action, follow)
        },
        Action::LoadBlob { sha, name } => r.0 is None && b == a && spawn_unless_offline(
            a.offline,
            r.1,
            Effect::SpawnBlob { sha, name },
        ),
        Action::DeleteMarked => {
            let deleted = marks_under(views(a.browser.marks@), seq!['o', 'r', 'g', 's']);
            &&& r.0 is None
            &&& if deleted.len() == 0 {
                &&& r.1.len() == 0
                &&& b == (AppState { mode: Mode::Browse, status: b.status, ..a })
                &&& status_view(b.status) == Some("no marked orgs (mark orgs in VISUAL, ␣d)"@)
            } else {
                &&& b == (AppState { browser: b.browser, mode: Mode::Browse, status: b.status, ..a })
                &&& exists|m: Browser| #[trigger] orgs_deleted(a.browser, m) && settles(m, b.browser)
                &&& status_view(b.status) == Some("deleted "@ + decimal(deleted.len()) + " org(s)"@)
                &&& r.1.len() == 1 && (r.1[0] matches Effect::ForgetOrgs(v) && views(v@) == deleted)
            }
        },
        Action::OpenSelected => {
            &&& r.0 is None
            &&& match picked(a.browser.levels@[a.browser.focus as int]) {
                Some(e) => if e.kind == EntryKind::File {
                    &&& b == a
                    &&& match (spec_selected_file(a.browser), open_repo(a.browser)) {
                        (Some((p, sha)), Some(repo)) => r.1.len() == 1 && (r.1[0] matches Effect::EditBlob {
                            repo: rr,
                            path: pp,
                            sha: ss,
                        } && rr@ == repo && pp@ == p && ss@ == sha),
                        _ => r.1.len() == 0,
                    }
                } else {
                    &&& r.1.len() == 1
                    &&& b == (AppState { browser: b.browser, ..a })
                    &&& r.1[0] matches Effect::Then(follow) && browser_updated(a.browser, b.browser, Action::DrillIn, follow)
                },
                None => b == a && r.1.len() == 0,
            }
        },
        _ => spec_lens_step(a, b, action, r),
    }
}

/// What one action of the revision lenses (preview submode, history,
/// blame, revision preview) does to the state, and the work it starts;
/// `r.0` hands back an action they do not own, or the one to run next.
pub open spec fn spec_lens_step(a: AppState, b: AppState, action: Action, r: (Option<Action>, Seq<Effect>)) -> bool {
    match action {
        Action::LeaderPreview => {
            &&& r.0 is None && r.1.len() == 0
            &&& if open_repo(a.browser) is None {
                &&& b == (AppState { mode: Mode::Browse, status: b.status, ..a })
                &&& status_view(b.status) == Some("open a repo first"@)
            } else {
                b == (AppState { mode: Mode::Preview, ..a })
            }
        },
        Action::LeaderHistory => {
            &&& r.0 is None
            &&& if !a.log_capable {
                &&& r.1.len() == 0
                &&& b == (AppState { mode: Mode::Browse, status: b.status, ..a })
                &&& status_view(b.status) == Some("provider has no commit log"@)
            } else if spec_selected_file(a.browser) is Some {
                &&& b == (AppState {
                    browser: b.browser,
                    history_return: Some(
                        if a.mode == Mode::Preview {
                            Mode::Preview
                        } else {
                            Mode::Browse
                        },
                    ),
                    mode: Mode::History,
                    ..a
                })
                &&& history_opened(a.browser, b.browser, None, true)
                &&& log_fetch(b.browser, r.1)
            } else {
                &&& r.1.len() == 0
                &&& b == (AppState { mode: Mode::Browse, status: b.status, ..a })
                &&& status_view(b.status) == Some("preview a file for its history"@)
            }
        },
        Action::PreviewEnter => match spec_blame_line_sha(a.browser) {
            Some(sha) if a.log_capable => {
                &&& r.0 is None
                &&& if spec_selected_file(a.browser) is Some {
                    &&& b == (AppState {
                        browser: b.browser,
                        history_return: Some(Mode::Preview),
                        mode: Mode::History,
                        ..a
                    })
                    &&& history_opened(a.browser, b.browser, Some(sha), true)
                    &&& log_fetch(b.browser, r.1)
                } else {
                    b == a && r.1.len() == 0
                }
            },
            _ => r.0 is None && r.1 == seq![Effect::Then(Action::OpenSelected)] && b == a,
        },
        Action::HistoryFilterBegin => {
            &&& r.0 is None && r.1.len() == 0
            &&& b == (AppState { browser: b.browser, ..a })
            &&& history_filter_begun(a.browser, b.browser)
        },
        Action::HistoryUp => {
            &&& r.0 is None && r.1.len() == 0
            &&& b == (AppState { browser: b.browser, ..a })
            &&& history_moved(a.browser, b.browser, false)
        },
        Action::HistoryDown => {
            &&& r.0 is None && r.1.len() == 0
            &&& b == (AppState { browser: b.browser, ..a })
            &&& history_moved(a.browser, b.browser, true)
        },
        Action::HistoryOpen => {
            &&& r.0 is None
            &&& match (open_repo(a.browser), a.browser.history) {
                (Some(repo), Some(h)) => match selected_commit(h@) {
                    Some(c) => {
                        &&& b == (AppState { status: b.status, ..a })
                        &&& status_view(b.status) == Some("opening at commit"@)
                        &&& r.1.len() == 1
                        &&& r.1[0] matches Effect::SpawnBlobAt { repo: rr, path, sha, subject, author, date } && rr@
                            == repo && path@ == h@.path && (sha@, subject@, author@, date@) == c
                    },
                    None => b == a && r.1.len() == 0,
                },
                _ => b == a && r.1.len() == 0,
            }
        },
        Action::HistoryClose => {
            &&& r.0 is None && r.1.len() == 0
            &&& history_escaped(a.browser, b.browser, history_closes(a.browser))
            &&& if history_closes(a.browser) {
                b == (AppState {
                    browser: b.browser,
                    mode: match a.history_return {
                        Some(m) => m,
                        None => Mode::Browse,
                    },
                    history_return: None,
                    ..a
                })
            } else {
                b == (AppState { browser: b.browser, ..a })
            }
        },
        Action::BlameToggle => {
            &&& r.0 is None
            &&& b == (AppState { browser: b.browser, status: b.status, ..a })
            &&& exists|step: BlameStep| {
                &&& #[trigger] blame_toggled(a.browser, b.browser, a.blame_capable, step)
                &&& r.1 == blame_effects(step)
                &&& status_view(b.status) == match spec_blame_status(step) {
                    Some(t) => Some(t),
                    None => status_view(a.status),
                }
            }
        },
        Action::LeaderRefs => {
            &&& r.0 is None
            &&& if !a.refs_capable {
                &&& r.1.len() == 0
                &&& b == (AppState { mode: Mode::Browse, status: b.status, ..a })
                &&& status_view(b.status) == Some("provider has no revision listing"@)
            } else if open_repo(a.browser) is Some {
                let current = match a.browser.current_ref {
                    Some(c) => c@,
                    None => a.browser.tree->Some_0.branch@,
                };
                &&& b == (AppState {
                    mode: Mode::Browse,
                    refs_baseline: a.browser.current_ref,
                    refs_popup: b.refs_popup,
                    ..a
                })
                &&& b.refs_popup matches Some(p) && p.wf() && p@.cursor == 0 && p@.baseline == current && p@.rows is None
                    && !p@.filtering && p@.filter_value.len() == 0
                &&& r.1.len() == 1 && (r.1[0] matches Effect::SpawnRefs(x) && x@ == open_repo(a.browser)->Some_0)
            } else {
                &&& r.1.len() == 0
                &&& b == (AppState { mode: Mode::Browse, status: b.status, ..a })
                &&& status_view(b.status) == Some("open a repo to switch revisions"@)
            }
        },
        Action::RefsCommit(name) => {
            &&& r.0 is None
            &&& b == (AppState {
                refs_popup: None,
                refs_baseline: Some(name),
                browser: Browser {
                    current_ref: Some(name),
                    history: None,
                    blame: None,
                    at_commit: None,
                    preview: Preview { blame: None, ..a.browser.preview },
                    ..a.browser
                },
                status: b.status,
                ..a
            })
            &&& status_view(b.status) == Some("switched to "@ + name@)
            &&& match open_repo(a.browser) {
                Some(_) => r.1.len() == 1 && (r.1[0] matches Effect::Then(Action::LoadRepoTree { owner, name: n })
                    && owner@ == a.browser.levels@[1].title@ && n == a.browser.tree->Some_0.name),
                None => r.1.len() == 0,
            }
        },
        Action::RefsPreview(name) => {
            &&& r.0 is None && r.1.len() == 0
            &&& b == (AppState {
                browser: Browser {
                    current_ref: Some(name),
                    history: None,
                    blame: None,
                    at_commit: None,
                    preview: Preview { blame: None, ..a.browser.preview },
                    ..a.browser
                },
                ..a
            })
        },
        _ => spec_lifecycle_step(a, b, action, r),
    }
}

/// The "cloning <n> repos…" message.
pub open spec fn cloning(n: nat) -> Seq<char> {
    "cloning "@ + decimal(n) + " repos…"@
}

/// The "expanding <n> org(s)…" message.
pub open spec fn expanding(n: nat) -> Seq<char> {
    "expanding "@ + decimal(n) + " org(s)…"@
}

/// `str::parse::<u32>`: an optional `+`, then ASCII digits whose value
/// fits a `u32`.
pub open spec fn spec_parse_u32(s: Seq<char>) -> Option<u32> {
    match spec_parse_u64(s) {
        Some(v) => if v <= u32::MAX {
            Some(v as u32)
        } else {
            None
        },
        None => None,
    }
}

/// The preview with its cursor on 1-based `line`, clamped to the
/// content (unchanged without lines or for line 0).
pub open spec fn at_line(p: Preview, line: u32) -> Preview {
    Preview {
        cursor: if p.line_count == 0 || line == 0 {
            p.cursor
        } else if line - 1 < p.line_count - 1 {
            (line - 1) as u16
        } else {
            (p.line_count - 1) as u16
        },
        ..p
    }
}

/// An optional text, as text.
pub open spec fn opt_view(o: Option<String>) -> Option<Seq<char>> {
    match o {
        Some(s) => Some(s@),
        None => None,
    }
}

/// Two theme sections name the same palette.
pub open spec fn theme_same(a: ThemeConfig, b: ThemeConfig) -> bool {
    a.name@ == b.name@ && opt_view(a.path) == opt_view(b.path)
}

/// Two chrome sections agree.
pub open spec fn ui_same(a: UiConfig, b: UiConfig) -> bool {
    a.border@ == b.border@ && a.nerd_font == b.nerd_font && a.separator@ == b.separator@
}

/// Two provider sections agree.
pub open spec fn provider_same(a: ProviderConfig, b: ProviderConfig) -> bool {
    &&& a.kind@ == b.kind@
    &&& views(a.command@) == views(b.command@)
    &&& a.timeout_ms == b.timeout_ms
    &&& a.stderr@ == b.stderr@
    &&& opt_view(a.name) == opt_view(b.name)
    &&& opt_view(a.icon) == opt_view(b.icon)
    &&& opt_view(a.tag) == opt_view(b.tag)
    &&& opt_view(a.sha) == opt_view(b.sha)
}

/// Esc on the topmost overlay: the clone wizard, the settings, the
/// help, the command line close first, in that order; the revision
/// switcher closes reverting the browsed revision to the committed one;
/// otherwise the search popup closes and the mode is BROWSE.
pub open spec fn popup_closed(a: AppState, b: AppState) -> bool {
    if a.wizard is Some {
        b == (AppState { wizard: None, ..a })
    } else if a.settings is Some {
        b == (AppState { settings: None, ..a })
    } else if a.help is Some {
        b == (AppState { help: None, ..a })
    } else if a.command_line is Some {
        b == (AppState { command_line: None, ..a })
    } else if a.refs_popup is Some {
        b == (AppState {
            refs_popup: None,
            browser: Browser {
                current_ref: a.refs_baseline,
                history: None,
                blame: None,
                at_commit: None,
                preview: Preview { blame: None, ..a.browser.preview },
                ..a.browser
            },
            ..a
        })
    } else {
        b == (AppState { popup: None, mode: Mode::Browse, ..a })
    }
}

/// What `:<name>` does (the command line closes first): `settings`
/// opens the settings popup over the live config; `clone` opens the
/// wizard on the marked (or selected) repos, or first expands marked
/// orgs; `:<n>` (n > 0) puts the preview's cursor on line n when the
/// browser shows a file and no search view is up; anything else says
/// it is unknown.
pub open spec fn command_run(a: AppState, b: AppState, name: Seq<char>, fx: Seq<Effect>) -> bool {
    let a1 = AppState { command_line: None, ..a };
    if name == "settings"@ {
        &&& fx.len() == 0
        &&& b == (AppState { settings: b.settings, ..a1 })
        &&& b.settings matches Some(p) && p.wf() && p@.sections == spec_build(a.config, views(a.themes@))
            && p@.section == 0 && p@.row == 0 && p@.scroll == 0 && p@.editing is None && same_config(
            p@.config,
            a.config,
        ) && !p@.dirty && p@.preview is None
    } else if name == "clone"@ {
        let (repos, orgs) = spec_clone_candidates(a.browser);
        if orgs.len() == 0 {
            &&& b == a1
            &&& fx.len() == 1 && (fx[0] matches Effect::OpenCloneWizard { repos: rs } && views(rs@) == repos)
        } else {
            &&& b == (AppState { status: b.status, ..a1 })
            &&& status_view(b.status) == Some(expanding(orgs.len()))
            &&& a.offline ==> fx.len() == 0
            &&& !a.offline ==> fx.len() == 1 && (fx[0] matches Effect::SpawnExpandClone { repos: rs, orgs: os }
                && views(rs@) == repos && views(os@) == orgs)
        }
    } else {
        &&& fx.len() == 0
        &&& match spec_parse_u32(name) {
            Some(line) if line > 0 => if a.search_view is None && a.browser.preview.line_count > 0 {
                b == (AppState { browser: Browser { preview: at_line(a.browser.preview, line), ..a.browser }, ..a1 })
            } else {
                &&& b == (AppState { status: b.status, ..a1 })
                &&& status_view(b.status) == Some(seq![':'] + name + ": not in a file view"@)
            },
            _ => {
                &&& b == (AppState { status: b.status, ..a1 })
                &&& status_view(b.status) == Some("unknown command: "@ + name)
            },
        }
    }
}

/// What applying settings does: the popup closes, the config becomes
/// `c`; the palette reloads when the theme or chrome changed; the
/// config is saved (the answer names whether the provider changed).
pub open spec fn settings_applied(a: AppState, b: AppState, c: Config, fx: Seq<Effect>) -> bool {
    let reload = !theme_same(a.config.theme, c.theme) || !ui_same(a.config.ui, c.ui);
    let save = Effect::SaveConfig { provider_changed: !provider_same(a.config.provider, c.provider) };
    &&& b == (AppState { settings: None, config: c, ..a })
    &&& fx == if reload {
        seq![Effect::ReloadTheme, save]
    } else {
        seq![save]
    }
}

/// The note a declined provider install leaves.
pub open spec fn declined_note(name: Seq<char>) -> Seq<char> {
    name + " not installed — browsing github (retry: rootle provider install "@ + name + ")"@
}

/// What one lifecycle action does to the state, and the work it starts;
/// `r.0` hands back an action this flow does not own.
pub open spec fn spec_lifecycle_step(a: AppState, b: AppState, action: Action, r: (Option<Action>, Seq<Effect>)) -> bool {
    match action {
        Action::Quit | Action::LeaderQuit => {
            &&& r.0 is None && r.1 == seq![Effect::SaveState]
            &&& b == (AppState { last_path: b.last_path, should_quit: true, ..a })
            &&& opt_view(b.last_path) == Some(crate::components::browser::spec_dir_path(
                a.browser.levels@,
                a.browser.focus as int,
            ))
        },
        Action::ClosePopup => r.0 is None && r.1.len() == 0 && popup_closed(a, b),
        Action::Leader => r.0 is None && r.1.len() == 0 && b == (AppState { mode: Mode::Leader, ..a }),
        Action::KeybindsPopup => {
            &&& r.0 is None && r.1.len() == 0
            &&& b == (AppState { help: b.help, ..a })
            &&& b.help matches Some(h) && h.mode == 0 && h.scroll == 0
        },
        Action::CommandLine => {
            &&& r.0 is None && r.1.len() == 0
            &&& b == (AppState { command_line: b.command_line, ..a })
            &&& b.command_line matches Some(c) && c.wf() && c.typed().chars.len() == 0 && !c.typed().modal
        },
        Action::RunCommand(name) => r.0 is None && command_run(a, b, name@, r.1),
        Action::ApplySettings(c) => r.0 is None && settings_applied(a, b, c, r.1),
        Action::DeclarationDecline => {
            &&& r.0 is None && r.1.len() == 0
            &&& match a.consent {
                Some(c) => {
                    let name = c.kind_spec()->Install_0.name@;
                    &&& b == (AppState { consent: None, degraded: b.degraded, status: b.status, ..a })
                    &&& opt_view(b.degraded) == Some(declined_note(name))
                    &&& status_view(b.status) == Some(declined_note(name))
                },
                None => b == a,
            }
        },
        Action::DeclarationState(st) => {
            &&& r.0 is None && r.1.len() == 0
            &&& match a.consent {
                Some(c) => {
                    &&& b == (AppState { consent: b.consent, ..a })
                    &&& b.consent matches Some(d) && d.kind_spec() == c.kind_spec() && d.state_spec() == Some(st)
                },
                None => b == a,
            }
        },
        Action::DeclarationAccept => {
            &&& r.0 is None
            &&& match a.consent {
                Some(c) => {
                    let decl = c.kind_spec()->Install_0;
                    &&& b == (AppState { consent: b.consent, status: b.status, ..a })
                    &&& b.consent matches Some(d) && d.kind_spec() == c.kind_spec() && d.state_spec() == Some(
                        DeclarationState::Installing,
                    )
                    &&& status_view(b.status) == Some("installing "@ + decl.name@ + "…"@)
                    &&& r.1 == seq![Effect::SpawnDeclaredInstall(decl)]
                },
                None => b == a && r.1.len() == 0,
            }
        },
        Action::Noop => r.0 is None && r.1.len() == 0 && b == a,
        Action::RunClone { repos, dest } => {
            &&& r.0 is None
            &&& b == (AppState { wizard: None, status: b.status, ..a })
            &&& if repos@.len() == 0 {
                &&& r.1.len() == 0
                &&& status_view(b.status) == Some("nothing selected to clone"@)
            } else {
                &&& status_view(b.status) == Some(cloning(repos@.len()))
                &&& spawn_unless_offline(a.offline, r.1, Effect::SpawnClones { repos, dest })
            }
        },
        _ => spec_search_step(a, b, action, r),
    }
}

/// The view as an action reaches it: updated when open.
pub open spec fn view_routed(a: Option<SearchView>, b: Option<SearchView>, action: Action) -> bool {
    match a {
        Some(v) => b matches Some(w) && view_after(v, w, action),
        None => b is None,
    }
}

/// A fresh result view keeping at most `cap` hits.
pub open spec fn fresh_view(v: SearchView, cap: usize) -> bool {
    v.hits@.len() == 0 && v.cap == cap && v.selected == 0 && v.scroll == 0 && !v.pending && v.error is None
        && !v.submitted_once && !v.clipped && v.dropped == 0 && v.index_as_of is None && v.client_filtered == 0
        && v.unfiltered@.len() == 0
}

/// The view after an offline submission: the mock producer's hits land
/// as the final answer (none land when its scores would overflow).
pub open spec fn mock_answered(v: SearchView, w: SearchView, kind: SearchKind, query: Seq<char>, extension: Seq<char>) -> bool {
    if crate::components::global_search::mock::mock_scores_fit(kind, query) {
        exists|h: Vec<SearchHit>, u: Vec<String>|
            #![trigger view_after(v, w, Action::GlobalSearchResults { hits: h, clipped: false, index: None, client_filtered: 0, unfiltered: u })]
            h@.map_values(|x: SearchHit| crate::components::global_search::mock::hit_view(x))
                == crate::components::global_search::mock::spec_mock_hits(kind, query, extension) && u@.len() == 0
                && view_after(
                v,
                w,
                Action::GlobalSearchResults { hits: h, clipped: false, index: None, client_filtered: 0, unfiltered: u },
            )
    } else {
        w == v
    }
}

/// The "copied <n> line(s)" message.
pub open spec fn copied_lines(n: nat) -> Seq<char> {
    "copied "@ + decimal(n) + " line"@ + if n == 1 {
        seq![]
    } else {
        seq!['s']
    }
}

/// What one global-search action does to the state, and the work it
/// starts; `r.0` hands back an action the state machine does not own.
pub open spec fn spec_search_step(a: AppState, b: AppState, action: Action, r: (Option<Action>, Seq<Effect>)) -> bool {
    match action {
        Action::LeaderFileFind | Action::LeaderGrep => {
            &&& r.0 is None && r.1.len() == 0
            &&& b == (AppState { search_view: b.search_view, mode: Mode::Browse, ..a })
            &&& b.search_view matches Some(v) && fresh_view(v, a.view_cap) && v.kind == (if action is LeaderFileFind {
                SearchKind::FileFind
            } else {
                SearchKind::Grep
            })
        },
        Action::CloseSearchView => r.0 is None && r.1.len() == 0 && b == (AppState {
            search_view: None,
            mode: Mode::Browse,
            ..a
        }),
        Action::GlobalSearchSubmitted { kind, query, scope, extension } => {
            let g = next_gen(a.view_gen);
            let submitted = Action::GlobalSearchSubmitted { kind, query, scope, extension };
            &&& r.0 is None
            &&& b == (AppState {
                search_view: b.search_view,
                status: b.status,
                view_gen: g,
                pending_context_sha: None,
                ..a
            })
            &&& r.1.len() >= 1 && r.1[0] == Effect::CancelInFlight
            &&& if a.offline {
                &&& r.1.len() == 1
                &&& b.status is None
                &&& match a.search_view {
                    None => b.search_view is None,
                    Some(v) => b.search_view matches Some(w) && exists|w1: SearchView|
                        #[trigger] view_after(v, w1, submitted) && mock_answered(w1, w, kind, query@, extension@),
                }
            } else {
                &&& r.1.len() == 2
                &&& r.1[1] == (Effect::SpawnViewSearch { gen_id: g, kind, query, scope, extension })
                &&& status_view(b.status) == Some("searching code…"@)
                &&& view_routed(a.search_view, b.search_view, submitted)
            }
        },
        Action::GlobalSearchResults { .. } | Action::GlobalSearchDelta { .. } | Action::GlobalSearchFailed { .. } => {
            &&& r.0 is None && r.1.len() == 0
            &&& b == (AppState { search_view: b.search_view, status: None, ..a })
            &&& view_routed(a.search_view, b.search_view, action)
        },
        Action::HitContextLoaded { .. } | Action::HitContextMissing { .. } => {
            &&& r.0 is None && r.1.len() == 0
            &&& b == (AppState { search_view: b.search_view, ..a })
            &&& view_routed(a.search_view, b.search_view, action)
        },
        Action::PreviewCopy => {
            &&& r.0 is None
            &&& b == (AppState { status: b.status, ..a })
            &&& match (if a.search_view is Some {
                None
            } else {
                spec_copy_target(a.browser.preview)
            }) {
                Some((text, n)) => {
                    &&& status_view(b.status) == Some(copied_lines(n as nat))
                    &&& r.1.len() == 1 && (r.1[0] matches Effect::CopyToClipboard(t) && t@ == text)
                },
                None => status_view(b.status) == Some("nothing to copy"@) && r.1.len() == 0,
            }
        },
        Action::OpenSearchHit(hit) => {
            &&& r.0 is None && b == a
            &&& if hit.sha@.len() > 0 {
                if hit.repo@.contains('/') {
                    r.1 == seq![Effect::EditBlob { repo: hit.repo, path: hit.path, sha: hit.sha }]
                } else {
                    r.1.len() == 0
                }
            } else {
                r.1.len() == 1 && (r.1[0] matches Effect::EditMockHit { slug, path, body } && path == hit.path && body
                    == hit.body && slug@ == match a.search_view {
                    Some(v) => if v.kind == SearchKind::FileFind {
                        "find"@
                    } else {
                        "grep"@
                    },
                    None => "hit"@,
                })
            }
        },
        Action::LoadHitContext { hit, query } => {
            &&& r.0 is None
            &&& if (a.pending_context_sha matches Some(p) && p@ == hit.sha@) || a.offline {
                b == a && r.1.len() == 0
            } else {
                &&& b == (AppState { context_timer: next_gen(a.context_timer), ..a })
                &&& r.1 == seq![Effect::ArmContextTimer { timer_gen: next_gen(a.context_timer), hit, query }]
            }
        },
        Action::HitContextDebounceFired { timer_gen, hit, query } => {
            &&& r.0 is None
            &&& if timer_gen != a.context_timer || (a.pending_context_sha matches Some(p) && p@ == hit.sha@) {
                b == a && r.1.len() == 0
            } else {
                let spawn = Effect::SpawnHitContext { gen_id: a.view_gen, hit, query };
                &&& b == (AppState { pending_context_sha: b.pending_context_sha, ..a })
                &&& b.pending_context_sha matches Some(p) && p@ == hit.sha@
                &&& r.1 == if a.pending_context_sha is Some {
                    seq![Effect::CancelInFlight, spawn]
                } else {
                    seq![spawn]
                }
            }
        },
        Action::LeaderSearch => {
            &&& r.0 is None && r.1.len() == 0
            &&& b == (AppState { popup: b.popup, mode: Mode::Browse, ..a })
            &&& b.popup matches Some(p) && p.wf() && p.forge@ == a.forge@ && p.input@.chars == (match a.last_repo {
                Some(l) => l@,
                None => Seq::<char>::empty(),
            }) && p.input@.replace_on_edit == a.last_repo is Some && p.focus
                == crate::components::search_popup::Focus::Input && !p.filtering && !p.pending && !p.submitted_once
                && p.error is None && p.results.entries@.len() == 0
        },
        _ => r.0 == Some(action) && r.1.len() == 0 && b == a,
    }
}

/// The commit log fetch for the lens `state`'s browser just opened.
fn fetch_log(state: &AppState, fx: &mut Vec<Effect>)
    requires
        state.browser.wf(),
        old(fx)@.len() == 0,
    ensures
        log_fetch(state.browser, final(fx)@),
{
    match history_fetch(&state.browser) {
        Some((repo, path, ref_name)) => fx.push(Effect::SpawnLog { repo, path, ref_name }),
        None => {},
    }
}

/// Status and spawn for loading an org's repos.
fn load_org(state: &mut AppState, org: String, fx: &mut Vec<Effect>)
    ensures
        *final(state) == (AppState { status: final(state).status, ..*old(state) }),
        status_view(final(state).status) == Some(loading_org(org@)),
        spawn_unless_offline(old(state).offline, final(fx)@.skip(old(fx)@.len() as int), Effect::SpawnOrgRepos(org)),
        final(fx)@.len() >= old(fx)@.len(),
        final(fx)@.take(old(fx)@.len() as int) == old(fx)@,
{
    let mut s = String::from_str("loading ");
    push_str(&mut s, org.as_str());
    push_str(&mut s, "…");
    proof {
        reveal_strlit("loading ");
        reveal_strlit("…");
    }
    state.status = Some(s);
    let ghost before = fx@;
    if !state.offline {
        fx.push(Effect::SpawnOrgRepos(org));
        assert(fx@.skip(before.len() as int) =~= seq![Effect::SpawnOrgRepos(org)]);
    } else {
        assert(fx@.skip(before.len() as int) =~= Seq::<Effect>::empty());
    }
    assert(fx@.take(before.len() as int) =~= before);
}

/// Status and spawn for loading a repo's tree.
fn load_tree(state: &mut AppState, owner: String, name: String, fx: &mut Vec<Effect>)
    ensures
        *final(state) == (AppState { status: final(state).status, ..*old(state) }),
        status_view(final(state).status) == Some(loading_tree(owner@, name@)),
        spawn_unless_offline(
            old(state).offline,
            final(fx)@.skip(old(fx)@.len() as int),
            Effect::SpawnTree { owner, name },
        ),
        final(fx)@.len() >= old(fx)@.len(),
        final(fx)@.take(old(fx)@.len() as int) == old(fx)@,
{
    let mut s = String::from_str("loading ");
    push_str(&mut s, owner.as_str());
    crate::text::push_char(&mut s, '/');
    push_str(&mut s, name.as_str());
    push_str(&mut s, " tree…");
    proof {
        reveal_strlit("loading ");
        reveal_strlit(" tree…");
    }
    state.status = Some(s);
    let ghost before = fx@;
    if !state.offline {
        fx.push(Effect::SpawnTree { owner, name });
        assert(fx@.skip(before.len() as int) =~= seq![Effect::SpawnTree { owner, name }]);
    } else {
        assert(fx@.skip(before.len() as int) =~= Seq::<Effect>::empty());
    }
    assert(fx@.take(before.len() as int) =~= before);
}

/// One action: the next state and the work to start; an action the
/// state machine does not own comes back untouched.
#[verifier::spinoff_prover]
#[verifier::rlimit(80)]
pub fn step(state: &mut AppState, action: Action) -> (r: (Option<Action>, Vec<Effect>))
    requires
        old(state).wf(),
        (action is DeclarationDecline || action is DeclarationAccept) ==> (old(state).consent matches Some(c)
            ==> c.kind_spec() is Install),
        action matches Action::GlobalSearchDelta { hits } ==> (old(state).search_view matches Some(v) ==> v.dropped
            + hits@.len() <= usize::MAX),
        action matches Action::TreeLoaded { entries, .. } ==> forall|k: int|
            0 <= k < entries@.len() ==> sha_cuts(#[trigger] entries@[k].sha@),
    ensures
        final(state).wf(),
        spec_step(*old(state), *final(state), action, (r.0, r.1@)),
{
    let mut fx: Vec<Effect> = Vec::new();
    match action {
        Action::SearchSubmitted(q) => {
            state.search_gen = bump(state.search_gen);
            fx.push(Effect::CancelInFlight);
            let mut s = String::from_str("searching ");
            push_str(&mut s, state.forge.as_str());
            push_str(&mut s, "…");
            proof {
                reveal_strlit("searching ");
                reveal_strlit("…");
            }
            state.status = Some(s);
            let act = Action::SearchSubmitted(q);
            match &mut state.popup {
                Some(p) => p.update(&act),
                None => {},
            }
            if !state.offline {
                fx.push(Effect::SpawnSearch { gen_id: state.search_gen });
                assert(fx@.skip(1) =~= seq![Effect::SpawnSearch { gen_id: state.search_gen }]);
            } else {
                assert(fx@.skip(1) =~= Seq::<Effect>::empty());
            }
            (None, fx)
        },
        Action::SearchResults { items } => {
            let act = Action::SearchResults { items };
            match &mut state.popup {
                Some(p) => p.update(&act),
                None => {},
            }
            state.status = None;
            (None, fx)
        },
        Action::SearchFailed { error } => {
            let act = Action::SearchFailed { error };
            match &mut state.popup {
                Some(p) => p.update(&act),
                None => {},
            }
            state.status = None;
            (None, fx)
        },
        Action::RepoSelected { owner, name } => {
            fx.push(Effect::RecordRepo { owner: owner.clone(), name: name.clone() });
            state.browser.set_repo(owner.as_str(), name.as_str());
            state.popup = None;
            state.mode = Mode::Browse;
            load_tree(state, owner, name, &mut fx);
            assert(fx@.take(1)[0] == fx@[0]);
            (None, fx)
        },
        Action::OrgSelected(org) => {
            fx.push(Effect::RecordOrg(org.clone()));
            state.browser.select_org(org.as_str());
            state.popup = None;
            state.mode = Mode::Browse;
            load_org(state, org, &mut fx);
            assert(fx@.take(1)[0] == fx@[0]);
            (None, fx)
        },
        Action::LoadOrgRepos(org) => {
            load_org(state, org, &mut fx);
            assert(fx@.skip(0) =~= fx@);
            (None, fx)
        },
        Action::LoadRepoTree { owner, name } => {
            load_tree(state, owner, name, &mut fx);
            assert(fx@.skip(0) =~= fx@);
            (None, fx)
        },
        Action::OrgReposFailed { org, error } => {
            state.status = Some(failed_message(org.as_str(), &error));
            (None, fx)
        },
        Action::TreeLoaded { owner, name, entries, truncated, branch } => {
            state.status = None;
            state.browser.tree_loaded(owner.as_str(), name.as_str(), entries, truncated, branch);
            (None, fx)
        },
        Action::TreeFailed { owner, name, error } => {
            let what = full_name(owner.as_str(), name.as_str());
            state.status = Some(failed_message(what.as_str(), &error));
            (None, fx)
        },
        other => browse_step(state, other),
    }
}

/// One action on the columns: the next state, and the fetch they ask
/// for as the action to run next; an action they do not own comes
/// back untouched.
#[verifier::spinoff_prover]
#[verifier::rlimit(80)]
pub fn browse_step(state: &mut AppState, action: Action) -> (r: (Option<Action>, Vec<Effect>))
    requires
        old(state).wf(),
        (action is DeclarationDecline || action is DeclarationAccept) ==> (old(state).consent matches Some(c)
            ==> c.kind_spec() is Install),
        action matches Action::GlobalSearchDelta { hits } ==> (old(state).search_view matches Some(v) ==> v.dropped
            + hits@.len() <= usize::MAX),
    ensures
        final(state).wf(),
        spec_browse_step(*old(state), *final(state), action, (r.0, r.1@)),
{
    let mut fx: Vec<Effect> = Vec::new();
    match action {
        Action::Visual => {
            state.mode = Mode::Visual;
            state.browser.enter_visual();
            (None, fx)
        },
        Action::ExitVisual => {
            state.mode = Mode::Browse;
            state.browser.exit_visual();
            (None, fx)
        },
        Action::ToggleSelect => {
            state.browser.toggle_selected();
            (None, fx)
        },
        Action::ClearMarks => {
            state.mode = Mode::Browse;
            state.browser.clear_marks();
            state.status = Some(String::from_str("marks cleared"));
            (None, fx)
        },
        Action::CommitFilter => {
            state.mode = Mode::Browse;
            (None, fx)
        },
        Action::MoveUp => moved(state, Action::MoveUp),
        Action::MoveDown => moved(state, Action::MoveDown),
        Action::DrillIn => moved(state, Action::DrillIn),
        Action::DrillOut => moved(state, Action::DrillOut),
        Action::PreviewLineUp => moved(state, Action::PreviewLineUp),
        Action::PreviewLineDown => moved(state, Action::PreviewLineDown),
        Action::OpenSelected => open_selected(state),
        Action::LoadBlob { sha, name } => {
            if !state.offline {
                let ghost e = Effect::SpawnBlob { sha, name };
                fx.push(Effect::SpawnBlob { sha, name });
                assert(fx@ =~= seq![e]);
            }
            (None, fx)
        },
        Action::DeleteMarked => delete_marked(state),
        other => lens_step(state, other),
    }
}

/// Delete the marked orgs from the orgs column.
fn delete_marked(state: &mut AppState) -> (r: (Option<Action>, Vec<Effect>))
    requires
        old(state).wf(),
    ensures
        final(state).wf(),
        spec_browse_step(*old(state), *final(state), Action::DeleteMarked, (r.0, r.1@)),
{
    let mut fx: Vec<Effect> = Vec::new();
    state.mode = Mode::Browse;
    let deleted = state.browser.delete_marked_orgs();
    if deleted.len() == 0 {
        state.status = Some(String::from_str("no marked orgs (mark orgs in VISUAL, ␣d)"));
        proof {
            reveal_strlit("no marked orgs (mark orgs in VISUAL, ␣d)");
        }
    } else {
        let mut s = String::from_str("deleted ");
        let digits = string_of(decimal_chars(deleted.len() as u64).as_slice());
        push_str(&mut s, digits.as_str());
        push_str(&mut s, " org(s)");
        proof {
            reveal_strlit("deleted ");
            reveal_strlit(" org(s)");
        }
        state.status = Some(s);
        fx.push(Effect::ForgetOrgs(deleted));
    }
    (None, fx)
}

/// Enter on the selection: a file opens in the editor, anything else
/// drills in.
fn open_selected(state: &mut AppState) -> (r: (Option<Action>, Vec<Effect>))
    requires
        old(state).wf(),
    ensures
        final(state).wf(),
        spec_browse_step(*old(state), *final(state), Action::OpenSelected, (r.0, r.1@)),
{
    let mut fx: Vec<Effect> = Vec::new();
    match state.browser.selected_kind() {
        Some(EntryKind::File) => {
            match (state.browser.selected_file(), state.browser.repo_coords()) {
                (Some((path, sha)), Some((owner, name))) => {
                    let mut repo = owner;
                    push_char(&mut repo, '/');
                    push_str(&mut repo, name.as_str());
                    assert(repo@ =~= open_repo(state.browser)->Some_0);
                    fx.push(Effect::EditBlob { repo, path, sha });
                },
                _ => {},
            }
            (None, fx)
        },
        Some(_) => moved(state, Action::DrillIn),
        None => (None, fx),
    }
}

/// A move, drill or preview-cursor action through the columns.
fn moved(state: &mut AppState, action: Action) -> (r: (Option<Action>, Vec<Effect>))
    requires
        old(state).wf(),
    ensures
        final(state).wf(),
        *final(state) == (AppState { browser: final(state).browser, ..*old(state) }),
        r.0 is None && r.1@.len() == 1,
        r.1@[0] matches Effect::Then(follow) && browser_updated(old(state).browser, final(state).browser, action, follow),
{
    let follow = state.browser.update(&action);
    let mut fx: Vec<Effect> = Vec::new();
    fx.push(Effect::Then(follow));
    (None, fx)
}

/// One action of the revision lenses: the next state and the work to
/// start; an action they do not own comes back untouched.
#[verifier::spinoff_prover]
#[verifier::rlimit(80)]
pub fn lens_step(state: &mut AppState, action: Action) -> (r: (Option<Action>, Vec<Effect>))
    requires
        old(state).wf(),
        (action is DeclarationDecline || action is DeclarationAccept) ==> (old(state).consent matches Some(c)
            ==> c.kind_spec() is Install),
        action matches Action::GlobalSearchDelta { hits } ==> (old(state).search_view matches Some(v) ==> v.dropped
            + hits@.len() <= usize::MAX),
    ensures
        final(state).wf(),
        spec_lens_step(*old(state), *final(state), action, (r.0, r.1@)),
{
    let mut fx: Vec<Effect> = Vec::new();
    match action {
        Action::LeaderPreview => {
            state.mode = Mode::Browse;
            if state.browser.repo_coords().is_none() {
                state.status = Some(String::from_str("open a repo first"));
            } else {
                state.mode = Mode::Preview;
            }
            (None, fx)
        },
        Action::LeaderHistory => {
            let back = state.mode;
            state.mode = Mode::Browse;
            if !state.log_capable {
                state.status = Some(String::from_str("provider has no commit log"));
            } else if state.browser.open_history(None) {
                state.history_return = Some(
                    match back {
                        Mode::Preview => Mode::Preview,
                        _ => Mode::Browse,
                    },
                );
                fetch_log(state, &mut fx);
                state.mode = Mode::History;
            } else {
                state.status = Some(String::from_str("preview a file for its history"));
            }
            (None, fx)
        },
        Action::PreviewEnter => {
            let sha = if state.log_capable {
                state.browser.blame_line_sha()
            } else {
                None
            };
            match sha {
                Some(sha) => {
                    if state.browser.open_history(Some(sha)) {
                        fetch_log(state, &mut fx);
                        state.history_return = Some(Mode::Preview);
                        state.mode = Mode::History;
                    }
                    (None, fx)
                },
                None => {
                    fx.push(Effect::Then(Action::OpenSelected));
                    (None, fx)
                },
            }
        },
        Action::HistoryFilterBegin => {
            state.browser.history_begin_filter();
            (None, fx)
        },
        Action::HistoryUp => {
            state.browser.history_move(false);
            (None, fx)
        },
        Action::HistoryDown => {
            state.browser.history_move(true);
            (None, fx)
        },
        Action::HistoryOpen => {
            let target = state.browser.repo_coords();
            let pick = state.browser.history_pick();
            let entry = state.browser.history_pick_entry();
            match (target, pick, entry) {
                (Some((owner, name)), Some((path, sha)), Some(e)) => {
                    let mut repo = owner;
                    push_char(&mut repo, '/');
                    push_str(&mut repo, name.as_str());
                    assert(repo@ =~= open_repo(state.browser)->Some_0);
                    fx.push(Effect::SpawnBlobAt { repo, path, sha, subject: e.subject, author: e.author, date: e.date });
                    state.status = Some(String::from_str("opening at commit"));
                    proof {
                        reveal_strlit("opening at commit");
                    }
                },
                _ => {},
            }
            (None, fx)
        },
        Action::HistoryClose => {
            if state.browser.history_esc() {
                state.mode = match state.history_return {
                    Some(m) => m,
                    None => Mode::Browse,
                };
                state.history_return = None;
            }
            (None, fx)
        },
        Action::BlameToggle => {
            let step = blame_toggle(&mut state.browser, state.blame_capable);
            match blame_status(&step) {
                Some(s) => state.status = Some(s),
                None => {},
            }
            let ghost st = step;
            match step {
                BlameStep::Fetch { repo, path, ref_name } => fx.push(Effect::SpawnBlame { repo, path, ref_name }),
                _ => {},
            }
            assert(fx@ =~= blame_effects(st));
            (None, fx)
        },
        Action::LeaderRefs => {
            state.mode = Mode::Browse;
            if !state.refs_capable {
                state.status = Some(String::from_str("provider has no revision listing"));
                proof {
                    reveal_strlit("provider has no revision listing");
                }
            } else {
                match state.browser.repo_coords() {
                    Some((owner, name)) => {
                        let current = match state.browser.current_ref() {
                            Some(c) => c.to_owned(),
                            None => match state.browser.branch() {
                                Some(b) => b.to_owned(),
                                None => String::from_str("main"),
                            },
                        };
                        state.refs_baseline = copy_opt(&state.browser.current_ref);
                        state.refs_popup = Some(RefsPopup::new(current.as_str()));
                        let mut repo = owner;
                        push_char(&mut repo, '/');
                        push_str(&mut repo, name.as_str());
                        assert(repo@ =~= open_repo(state.browser)->Some_0);
                        fx.push(Effect::SpawnRefs(repo));
                    },
                    None => {
                        state.status = Some(String::from_str("open a repo to switch revisions"));
                        proof {
                            reveal_strlit("open a repo to switch revisions");
                        }
                    },
                }
            }
            (None, fx)
        },
        Action::RefsCommit(name) => {
            state.refs_popup = None;
            state.refs_baseline = Some(name.clone());
            state.browser.set_current_ref(Some(name.clone()));
            let mut s = String::from_str("switched to ");
            push_str(&mut s, name.as_str());
            proof {
                reveal_strlit("switched to ");
            }
            state.status = Some(s);
            match state.browser.repo_coords() {
                Some((owner, n)) => fx.push(Effect::Then(Action::LoadRepoTree { owner, name: n })),
                None => {},
            }
            (None, fx)
        },
        Action::RefsPreview(name) => {
            state.browser.set_current_ref(Some(name));
            (None, fx)
        },
        other => lifecycle_step(state, other),
    }
}

fn copy_opt(o: &Option<String>) -> (r: Option<String>)
    ensures
        r == *o,
{
    match o {
        Some(s) => Some(s.clone()),
        None => None,
    }
}

fn copy_declaration(d: &Declaration) -> (r: Declaration)
    ensures
        r == *d,
{
    Declaration { name: d.name.clone(), repo: d.repo.clone(), tag: copy_opt(&d.tag), sha: copy_opt(&d.sha) }
}

fn theme_eq(a: &ThemeConfig, b: &ThemeConfig) -> (r: bool)
    ensures
        r == theme_same(*a, *b),
{
    str_is(a.name.as_str(), b.name.as_str()) && crate::components::settings_popup::opt_str_eq(&a.path, &b.path)
}

fn ui_eq(a: &UiConfig, b: &UiConfig) -> (r: bool)
    ensures
        r == ui_same(*a, *b),
{
    str_is(a.border.as_str(), b.border.as_str()) && a.nerd_font == b.nerd_font && str_is(
        a.separator.as_str(),
        b.separator.as_str(),
    )
}

fn provider_eq(a: &ProviderConfig, b: &ProviderConfig) -> (r: bool)
    ensures
        r == provider_same(*a, *b),
{
    str_is(a.kind.as_str(), b.kind.as_str()) && strings_eq(&a.command, &b.command) && a.timeout_ms == b.timeout_ms
        && str_is(a.stderr.as_str(), b.stderr.as_str()) && opt_str_eq(&a.name, &b.name) && opt_str_eq(
        &a.icon,
        &b.icon,
    ) && opt_str_eq(&a.tag, &b.tag) && opt_str_eq(&a.sha, &b.sha)
}

/// Esc on the topmost overlay.
fn close_popup(state: &mut AppState)
    requires
        old(state).wf(),
    ensures
        final(state).wf(),
        popup_closed(*old(state), *final(state)),
{
    if state.wizard.is_some() {
        state.wizard = None;
    } else if state.settings.is_some() {
        state.settings = None;
    } else if state.help.is_some() {
        state.help = None;
    } else if state.command_line.is_some() {
        state.command_line = None;
    } else if state.refs_popup.is_some() {
        state.refs_popup = None;
        let baseline = copy_opt(&state.refs_baseline);
        state.browser.set_current_ref(baseline);
    } else {
        state.popup = None;
        state.mode = Mode::Browse;
    }
}

/// `:<name>`.
fn run_command(state: &mut AppState, name: String) -> (fx: Vec<Effect>)
    requires
        old(state).wf(),
    ensures
        final(state).wf(),
        command_run(*old(state), *final(state), name@, fx@),
{
    let mut fx: Vec<Effect> = Vec::new();
    state.command_line = None;
    proof {
        reveal_strlit("settings");
        reveal_strlit("clone");
    }
    if str_is(name.as_str(), "settings") {
        let themes = crate::text::clone_strings(&state.themes);
        state.settings = Some(SettingsPopup::new(&state.config, themes));
    } else if str_is(name.as_str(), "clone") {
        let (repos, orgs) = crate::app::clone_candidates(&state.browser);
        if orgs.len() == 0 {
            fx.push(Effect::OpenCloneWizard { repos });
        } else {
            let mut s = String::from_str("expanding ");
            let digits = string_of(decimal_chars(orgs.len() as u64).as_slice());
            push_str(&mut s, digits.as_str());
            push_str(&mut s, " org(s)…");
            proof {
                reveal_strlit("expanding ");
                reveal_strlit(" org(s)…");
            }
            state.status = Some(s);
            if !state.offline {
                fx.push(Effect::SpawnExpandClone { repos, orgs });
            }
        }
    } else {
        let cs = chars_of(name.as_str());
        let parsed = parse_u64(cs.as_slice());
        let line: u32 = match parsed {
            Some(v) => if v <= 0xffff_ffff {
                v as u32
            } else {
                0
            },
            None => 0,
        };
        assert(spec_parse_u32(name@) matches Some(l) && l > 0 <==> line > 0);
        if line > 0 {
            if state.search_view.is_none() && state.browser.preview.text_line_count() > 0 {
                state.browser.preview.set_cursor_line(line);
            } else {
                let mut s = String::from_str(":");
                push_str(&mut s, name.as_str());
                push_str(&mut s, ": not in a file view");
                proof {
                    reveal_strlit(":");
                    reveal_strlit(": not in a file view");
                    assert(":"@ =~= seq![':']);
                }
                assert(s@ =~= seq![':'] + name@ + ": not in a file view"@);
                state.status = Some(s);
            }
        } else {
            let mut s = String::from_str("unknown command: ");
            push_str(&mut s, name.as_str());
            proof {
                reveal_strlit("unknown command: ");
            }
            state.status = Some(s);
        }
    }
    fx
}

/// Applying settings.
fn apply_settings(state: &mut AppState, c: Config) -> (fx: Vec<Effect>)
    requires
        old(state).wf(),
    ensures
        final(state).wf(),
        settings_applied(*old(state), *final(state), c, fx@),
{
    let mut fx: Vec<Effect> = Vec::new();
    state.settings = None;
    let theme_changed = !theme_eq(&c.theme, &state.config.theme);
    let provider_changed = !provider_eq(&c.provider, &state.config.provider);
    let ui_changed = !ui_eq(&c.ui, &state.config.ui);
    state.config = c;
    let save = Effect::SaveConfig { provider_changed };
    if theme_changed || ui_changed {
        fx.push(Effect::ReloadTheme);
        fx.push(save);
        assert(fx@ =~= seq![Effect::ReloadTheme, save]);
    } else {
        fx.push(save);
        assert(fx@ =~= seq![save]);
    }
    fx
}

/// One lifecycle action: quit, the overlays (close, help, command line,
/// commands, settings), the declared-provider prompt's answers, the
/// leader key, the clone run, a no-op; an action it does not own comes
/// back untouched.
#[verifier::spinoff_prover]
#[verifier::rlimit(80)]
pub fn lifecycle_step(state: &mut AppState, action: Action) -> (r: (Option<Action>, Vec<Effect>))
    requires
        old(state).wf(),
        (action is DeclarationDecline || action is DeclarationAccept) ==> (old(state).consent matches Some(c)
            ==> c.kind_spec() is Install),
        action matches Action::GlobalSearchDelta { hits } ==> (old(state).search_view matches Some(v) ==> v.dropped
            + hits@.len() <= usize::MAX),
    ensures
        final(state).wf(),
        spec_lifecycle_step(*old(state), *final(state), action, (r.0, r.1@)),
{
    let mut fx: Vec<Effect> = Vec::new();
    match action {
        Action::Quit => {
            state.last_path = Some(state.browser.dir_path());
            state.should_quit = true;
            fx.push(Effect::SaveState);
            (None, fx)
        },
        Action::LeaderQuit => {
            state.last_path = Some(state.browser.dir_path());
            state.should_quit = true;
            fx.push(Effect::SaveState);
            (None, fx)
        },
        Action::ClosePopup => {
            close_popup(state);
            (None, fx)
        },
        Action::Leader => {
            state.mode = Mode::Leader;
            (None, fx)
        },
        Action::KeybindsPopup => {
            state.help = Some(KeybindsPopup::new());
            (None, fx)
        },
        Action::CommandLine => {
            state.command_line = Some(CommandLine::new());
            (None, fx)
        },
        Action::RunCommand(name) => {
            let fx = run_command(state, name);
            (None, fx)
        },
        Action::ApplySettings(c) => {
            let fx = apply_settings(state, c);
            (None, fx)
        },
        Action::DeclarationDecline => {
            match state.consent.take() {
                Some(consent) => {
                    let name = consent.declaration().name.clone();
                    let mut note = name.clone();
                    push_str(&mut note, " not installed — browsing github (retry: rootle provider install ");
                    push_str(&mut note, name.as_str());
                    push_str(&mut note, ")");
                    proof {
                        reveal_strlit(" not installed — browsing github (retry: rootle provider install ");
                        reveal_strlit(")");
                    }
                    state.degraded = Some(note.clone());
                    state.status = Some(note);
                },
                None => {},
            }
            (None, fx)
        },
        Action::DeclarationState(st) => {
            match &mut state.consent {
                Some(consent) => consent.set_state(st),
                None => {},
            }
            (None, fx)
        },
        Action::DeclarationAccept => {
            match &mut state.consent {
                Some(consent) => {
                    let decl = copy_declaration(consent.declaration());
                    consent.set_state(DeclarationState::Installing);
                    let mut s = String::from_str("installing ");
                    push_str(&mut s, decl.name.as_str());
                    push_str(&mut s, "…");
                    proof {
                        reveal_strlit("installing ");
                        reveal_strlit("…");
                    }
                    state.status = Some(s);
                    fx.push(Effect::SpawnDeclaredInstall(decl));
                },
                None => {},
            }
            (None, fx)
        },
        Action::Noop => (None, fx),
        Action::RunClone { repos, dest } => {
            state.wizard = None;
            if repos.len() == 0 {
                state.status = Some(String::from_str("nothing selected to clone"));
            } else {
                let mut s = String::from_str("cloning ");
                let digits = string_of(decimal_chars(repos.len() as u64).as_slice());
                push_str(&mut s, digits.as_str());
                push_str(&mut s, " repos…");
                proof {
                    reveal_strlit("cloning ");
                    reveal_strlit(" repos…");
                }
                state.status = Some(s);
                if !state.offline {
                    fx.push(Effect::SpawnClones { repos, dest });
                }
            }
            (None, fx)
        },
        other => search_step(state, other),
    }
}

/// A global search submitted: a new generation, in-flight work
/// superseded; offline the mock producer answers at once, otherwise the
/// search is spawned.
fn submit_view_search(state: &mut AppState, kind: SearchKind, query: String, scope: String, extension: String) -> (r: (
    Option<Action>,
    Vec<Effect>,
))
    requires
        old(state).wf(),
    ensures
        final(state).wf(),
        spec_search_step(
            *old(state),
            *final(state),
            Action::GlobalSearchSubmitted { kind, query, scope, extension },
            (r.0, r.1@),
        ),
{
    let mut fx: Vec<Effect> = Vec::new();
    state.view_gen = bump(state.view_gen);
    state.pending_context_sha = None;
    fx.push(Effect::CancelInFlight);
    let ghost submitted = Action::GlobalSearchSubmitted { kind, query, scope, extension };
    if state.offline {
        let found = crate::components::global_search::mock::hits(kind, query.as_str(), extension.as_str());
        match &mut state.search_view {
            Some(v) => {
                let ghost v0 = *v;
                v.update(Action::GlobalSearchSubmitted { kind, query, scope, extension });
                let ghost w1 = *v;
                match found {
                    Some(h) => {
                        let u: Vec<String> = Vec::new();
                        let ghost hg = h;
                        let ghost ug = u;
                        v.update(
                            Action::GlobalSearchResults { hits: h, clipped: false, index: None, client_filtered: 0, unfiltered: u },
                        );
                        assert(view_after(
                            w1,
                            *v,
                            Action::GlobalSearchResults { hits: hg, clipped: false, index: None, client_filtered: 0, unfiltered: ug },
                        ));
                    },
                    None => {},
                }
                assert(mock_answered(w1, *v, kind, query@, extension@));
                assert(view_after(v0, w1, submitted));
            },
            None => {},
        }
        state.status = None;
    } else {
        match &mut state.search_view {
            Some(v) => v.update(Action::GlobalSearchSubmitted {
                kind,
                query: query.clone(),
                scope: scope.clone(),
                extension: extension.clone(),
            }),
            None => {},
        }
        state.status = Some(String::from_str("searching code…"));
        proof {
            reveal_strlit("searching code…");
        }
        fx.push(Effect::SpawnViewSearch { gen_id: state.view_gen, kind, query, scope, extension });
    }
    (None, fx)
}

/// One global-search action: opening and closing the view, submitting
/// a search, its answers and hit context reaching the view, copying
/// from the preview, and reopening the search popup; an action it does
/// not own comes back untouched.
#[verifier::spinoff_prover]
#[verifier::rlimit(80)]
pub fn search_step(state: &mut AppState, action: Action) -> (r: (Option<Action>, Vec<Effect>))
    requires
        old(state).wf(),
        action matches Action::GlobalSearchDelta { hits } ==> (old(state).search_view matches Some(v) ==> v.dropped
            + hits@.len() <= usize::MAX),
    ensures
        final(state).wf(),
        spec_search_step(*old(state), *final(state), action, (r.0, r.1@)),
{
    let mut fx: Vec<Effect> = Vec::new();
    match action {
        Action::LeaderFileFind => {
            state.search_view = Some(SearchView::new(SearchKind::FileFind, state.view_cap));
            state.mode = Mode::Browse;
            (None, fx)
        },
        Action::LeaderGrep => {
            state.search_view = Some(SearchView::new(SearchKind::Grep, state.view_cap));
            state.mode = Mode::Browse;
            (None, fx)
        },
        Action::CloseSearchView => {
            state.search_view = None;
            state.mode = Mode::Browse;
            (None, fx)
        },
        Action::GlobalSearchSubmitted { kind, query, scope, extension } => submit_view_search(
            state,
            kind,
            query,
            scope,
            extension,
        ),
        Action::GlobalSearchResults { hits, clipped, index, client_filtered, unfiltered } => {
            match &mut state.search_view {
                Some(v) => v.update(Action::GlobalSearchResults { hits, clipped, index, client_filtered, unfiltered }),
                None => {},
            }
            state.status = None;
            (None, fx)
        },
        Action::GlobalSearchDelta { hits } => {
            match &mut state.search_view {
                Some(v) => v.update(Action::GlobalSearchDelta { hits }),
                None => {},
            }
            state.status = None;
            (None, fx)
        },
        Action::GlobalSearchFailed { error } => {
            match &mut state.search_view {
                Some(v) => v.update(Action::GlobalSearchFailed { error }),
                None => {},
            }
            state.status = None;
            (None, fx)
        },
        Action::HitContextLoaded { repo, path, sha, line, preview, match_count } => {
            match &mut state.search_view {
                Some(v) => v.update(Action::HitContextLoaded { repo, path, sha, line, preview, match_count }),
                None => {},
            }
            (None, fx)
        },
        Action::HitContextMissing { sha } => {
            match &mut state.search_view {
                Some(v) => v.update(Action::HitContextMissing { sha }),
                None => {},
            }
            (None, fx)
        },
        Action::PreviewCopy => {
            let target = if state.search_view.is_some() {
                None
            } else {
                state.browser.preview.copy_target()
            };
            match target {
                Some((text, n)) => {
                    let mut s = String::from_str("copied ");
                    let digits = string_of(decimal_chars(n as u64).as_slice());
                    push_str(&mut s, digits.as_str());
                    push_str(&mut s, " line");
                    if n != 1 {
                        push_char(&mut s, 's');
                    }
                    proof {
                        reveal_strlit("copied ");
                        reveal_strlit(" line");
                    }
                    assert(s@ =~= copied_lines(n as nat));
                    state.status = Some(s);
                    fx.push(Effect::CopyToClipboard(text));
                },
                None => {
                    state.status = Some(String::from_str("nothing to copy"));
                    proof {
                        reveal_strlit("nothing to copy");
                    }
                },
            }
            (None, fx)
        },
        Action::OpenSearchHit(hit) => {
            if !hit.sha.as_str().is_empty() {
                let rc = chars_of(hit.repo.as_str());
                match crate::text::find_char(rc.as_slice(), '/') {
                    Some(i) => {
                        assert(rc@[i as int] == '/');
                        let ghost e = Effect::EditBlob { repo: hit.repo, path: hit.path, sha: hit.sha };
                        fx.push(Effect::EditBlob { repo: hit.repo, path: hit.path, sha: hit.sha });
                        assert(fx@ =~= seq![e]);
                    },
                    None => {},
                }
            } else {
                let slug = match &state.search_view {
                    Some(v) => String::from_str(v.kind.slug()),
                    None => String::from_str("hit"),
                };
                proof {
                    reveal_strlit("hit");
                    reveal_strlit("find");
                    reveal_strlit("grep");
                }
                fx.push(Effect::EditMockHit { slug, path: hit.path, body: hit.body });
            }
            (None, fx)
        },
        Action::LoadHitContext { hit, query } => {
            let pending = match &state.pending_context_sha {
                Some(p) => str_is(p.as_str(), hit.sha.as_str()),
                None => false,
            };
            if !pending && !state.offline {
                state.context_timer = bump(state.context_timer);
                let ghost e = Effect::ArmContextTimer { timer_gen: state.context_timer, hit, query };
                fx.push(Effect::ArmContextTimer { timer_gen: state.context_timer, hit, query });
                assert(fx@ =~= seq![e]);
            }
            (None, fx)
        },
        Action::HitContextDebounceFired { timer_gen, hit, query } => {
            let pending = match &state.pending_context_sha {
                Some(p) => str_is(p.as_str(), hit.sha.as_str()),
                None => false,
            };
            if timer_gen == state.context_timer && !pending {
                let had = state.pending_context_sha.is_some();
                if had {
                    fx.push(Effect::CancelInFlight);
                }
                state.pending_context_sha = Some(hit.sha.clone());
                let ghost e = Effect::SpawnHitContext { gen_id: state.view_gen, hit, query };
                fx.push(Effect::SpawnHitContext { gen_id: state.view_gen, hit, query });
                if had {
                    assert(fx@ =~= seq![Effect::CancelInFlight, e]);
                } else {
                    assert(fx@ =~= seq![e]);
                }
            }
            (None, fx)
        },
        Action::LeaderSearch => {
            let prefill = match &state.last_repo {
                Some(l) => Some(l.as_str()),
                None => None,
            };
            let mut popup = SearchPopup::with_prefill(prefill);
            popup.forge = state.forge.clone();
            state.popup = Some(popup);
            state.mode = Mode::Browse;
            (None, fx)
        },
        other => (Some(other), fx),
    }
}

/// Who takes a key press: the topmost open overlay (the install prompt
/// first), else the global search view (the leader layer over it goes
/// to the leader table), else the search popup, else the mode's owner.
pub enum KeyOwner {
    Consent,
    Wizard,
    Settings,
    Help,
    Refs,
    CommandLine,
    SearchView,
    Popup,
    /// The `/` filter input (SEARCH).
    Filter,
    /// The find-in-file input (FIND).
    Find,
    /// The history lens's `/` filter while it is being typed.
    HistoryFilter,
    /// The preview submode.
    Preview,
    /// The key table of the mode decides.
    Table(Mode),
    /// No one: the key does nothing.
    Nobody,
}

/// Where a key press went.
#[derive(Debug)]
pub enum KeyRoute {
    /// It became this action.
    Act(Action),
    /// The key table of this mode decides.
    Table(Mode),
    /// The global search view owns it.
    SearchView,
}

/// The owner of the next key press.
pub open spec fn key_owner(a: AppState) -> KeyOwner {
    if a.consent is Some {
        KeyOwner::Consent
    } else if a.wizard is Some {
        KeyOwner::Wizard
    } else if a.settings is Some {
        KeyOwner::Settings
    } else if a.help is Some {
        KeyOwner::Help
    } else if a.refs_popup is Some {
        KeyOwner::Refs
    } else if a.command_line is Some {
        KeyOwner::CommandLine
    } else if a.search_view is Some {
        if a.mode == Mode::Leader {
            KeyOwner::Table(Mode::Leader)
        } else {
            KeyOwner::SearchView
        }
    } else if a.popup is Some {
        KeyOwner::Popup
    } else {
        match a.mode {
            Mode::Browse => KeyOwner::Table(Mode::Browse),
            Mode::Visual => KeyOwner::Table(Mode::Visual),
            Mode::Search => KeyOwner::Filter,
            Mode::Find => KeyOwner::Find,
            Mode::Leader => KeyOwner::Table(Mode::Leader),
            Mode::History => if a.browser.history matches Some(h) && h@.filtering {
                KeyOwner::HistoryFilter
            } else {
                KeyOwner::Table(Mode::History)
            },
            Mode::Preview => KeyOwner::Preview,
            _ => KeyOwner::Nobody,
        }
    }
}

/// The key is one its owner can take: an input being typed in accepts
/// it, and the owner's counters have room for it.
pub open spec fn key_fits(a: AppState, key: Key) -> bool {
    match key_owner(a) {
        KeyOwner::Wizard => {
            let w = a.wizard->Some_0@;
            &&& w.filtering ==> accepts(w.filter, key)
            &&& !w.filtering && w.screen == Screen::Summary && w.focus == WizardFocus::List && (key.code
                == KeyCode::Char('j') || key.code == KeyCode::Down) ==> w.scroll < usize::MAX
        },
        KeyOwner::Settings => a.settings->Some_0@.editing matches Some(v) ==> accepts(v, key),
        KeyOwner::Help => a.help->Some_0.mode < MODE_COUNT,
        KeyOwner::Refs => a.refs_popup->Some_0@.filtering ==> accepts(a.refs_popup->Some_0@.filter, key),
        KeyOwner::CommandLine => key.code != KeyCode::Down && key.code != KeyCode::Up ==> accepts(
            a.command_line->Some_0.typed(),
            key,
        ),
        KeyOwner::Popup => {
            let p = a.popup->Some_0;
            &&& p.filtering ==> accepts(p.filter@, key)
            &&& !p.filtering && key.code != KeyCode::Tab && p.focus == PopupFocus::Input ==> accepts(p.input@, key)
        },
        KeyOwner::Filter => a.browser.filter_input.wf() && accepts(a.browser.filter_input@, key),
        KeyOwner::Find => a.browser.find_input.wf() && accepts(a.browser.find_input@, key),
        KeyOwner::HistoryFilter => accepts(a.browser.history->Some_0@.filter, key),
        KeyOwner::Preview => {
            let p = a.browser.preview;
            p.lines_cover() && motion_fits(p.motion_state(), p.line_count, p.viewport, key)
        },
        _ => true,
    }
}

/// What an input's outcome asks for in SEARCH (`filter`) or FIND.
pub open spec fn input_action(out: Outcome, filter: bool) -> Action {
    match out {
        Outcome::Changed => if filter {
            Action::Noop
        } else {
            Action::UpdateFind
        },
        Outcome::Submitted => if filter {
            Action::CommitFilter
        } else {
            Action::CommitFind
        },
        Outcome::Cancelled => if filter {
            Action::ClearFilter
        } else {
            Action::CancelFind
        },
        Outcome::Noop => Action::Noop,
    }
}

/// `b` is `a` after the preview submode took `key`: a motion moves the
/// cursor; else `v` toggles the line selection, `Y` asks to copy, Esc
/// clears a selection (and, with none, goes to the key table, as does
/// every other key).
pub open spec fn preview_keyed(a: AppState, b: AppState, key: Key, r: KeyRoute) -> bool {
    let p = a.browser.preview;
    let q = b.browser.preview;
    let (m, moved) = motion_step(p.motion_state(), p.line_count, p.viewport, key, spec_plain_lines(p.content));
    &&& b == (AppState { browser: Browser { preview: q, ..a.browser }, ..a })
    &&& q.motion_state() == m
    &&& (Preview { visual_anchor: p.visual_anchor, ..q }).same_but_motion(p)
    &&& q.visual_anchor == if !moved && key.code == KeyCode::Char('v') {
        if p.line_count == 0 {
            p.visual_anchor
        } else if p.visual_anchor is Some {
            None
        } else {
            Some(m.cursor)
        }
    } else if !moved && key.code == KeyCode::Esc {
        None
    } else {
        p.visual_anchor
    }
    &&& r == if moved || key.code == KeyCode::Char('v') {
        KeyRoute::Act(Action::Noop)
    } else if key.code == KeyCode::Char('Y') {
        KeyRoute::Act(Action::PreviewCopy)
    } else if key.code == KeyCode::Esc && p.visual_anchor is Some {
        KeyRoute::Act(Action::Noop)
    } else {
        KeyRoute::Table(Mode::Preview)
    }
}

/// `b` is `a` after `key` went to its owner: only the owner changes;
/// an overlay's answer is an action; the search view and the key tables
/// are named; SEARCH and FIND feed their inputs, whose outcome maps to
/// the filter's or the find's action; the history filter takes the
/// key; the preview submode moves or selects.
pub open spec fn key_routed(a: AppState, b: AppState, key: Key, r: KeyRoute) -> bool {
    match key_owner(a) {
        KeyOwner::Consent => {
            &&& b == (AppState { consent: b.consent, ..a })
            &&& r is Act
            &&& b.consent matches Some(c) && c.kind_spec() == a.consent->Some_0.kind_spec() && c.state_spec()
                == a.consent->Some_0.state_spec()
        },
        KeyOwner::Wizard => b == (AppState { wizard: b.wizard, ..a }) && r is Act && b.wizard is Some,
        KeyOwner::Settings => b == (AppState { settings: b.settings, ..a }) && r is Act && b.settings is Some,
        KeyOwner::Help => b == (AppState { help: b.help, ..a }) && r is Act && b.help is Some,
        KeyOwner::Refs => b == (AppState { refs_popup: b.refs_popup, ..a }) && r is Act && b.refs_popup is Some,
        KeyOwner::CommandLine => b == (AppState { command_line: b.command_line, ..a }) && r is Act
            && b.command_line is Some,
        KeyOwner::Popup => b == (AppState { popup: b.popup, ..a }) && r is Act && b.popup is Some,
        KeyOwner::SearchView => b == a && r == KeyRoute::SearchView,
        KeyOwner::Table(m) => b == a && r == KeyRoute::Table(m),
        KeyOwner::Nobody => b == a && r == KeyRoute::Act(Action::Noop),
        KeyOwner::Filter => {
            let (f, out) = input_step(a.browser.filter_input@, key);
            &&& b == (AppState { browser: Browser { filter_input: b.browser.filter_input, ..a.browser }, ..a })
            &&& b.browser.filter_input@ == f
            &&& r == KeyRoute::Act(input_action(out, true))
        },
        KeyOwner::Find => {
            let (f, out) = input_step(a.browser.find_input@, key);
            &&& b == (AppState { browser: Browser { find_input: b.browser.find_input, ..a.browser }, ..a })
            &&& b.browser.find_input@ == f
            &&& r == KeyRoute::Act(input_action(out, false))
        },
        KeyOwner::HistoryFilter => {
            let h = a.browser.history->Some_0@;
            let (f, out) = input_step(h.filter, key);
            &&& b == (AppState { browser: Browser { history: b.browser.history, ..a.browser }, ..a })
            &&& b.browser.history matches Some(g) && g@.filter == f
            &&& r == KeyRoute::Act(Action::Noop)
        },
        KeyOwner::Preview => preview_keyed(a, b, key, r),
    }
}

/// Whether `route_key` can take `key` now (`key_fits`).
pub fn key_fits_check(state: &AppState, key: Key) -> (b: bool)
    requires
        state.wf(),
    ensures
        b == key_fits(*state, key),
{
    if state.consent.is_some() {
        return true;
    }
    if let Some(w) = &state.wizard {
        return w.takes_key(key);
    }
    if let Some(p) = &state.settings {
        return p.takes_key(key);
    }
    if let Some(h) = &state.help {
        return h.mode < MODE_COUNT;
    }
    if let Some(p) = &state.refs_popup {
        return p.takes_key(key);
    }
    if let Some(c) = &state.command_line {
        return c.takes_key(key);
    }
    if state.search_view.is_some() {
        return true;
    }
    if let Some(p) = &state.popup {
        return p.takes_key(key);
    }
    match state.mode {
        Mode::Search => state.browser.filter_input.in_shape() && state.browser.filter_input.accepts_key(key),
        Mode::Find => state.browser.find_input.in_shape() && state.browser.find_input.accepts_key(key),
        Mode::History => !state.browser.history_filtering() || state.browser.history_takes_key(key),
        Mode::Preview => state.browser.preview.lines_cover_check() && state.browser.preview.motion_fits_check(key),
        _ => true,
    }
}

/// Route a key press to its owner (see `key_owner`).
#[verifier::spinoff_prover]
#[verifier::rlimit(40)]
pub fn route_key(state: &mut AppState, key: Key) -> (r: KeyRoute)
    requires
        old(state).wf(),
        key_fits(*old(state), key),
    ensures
        final(state).wf(),
        key_routed(*old(state), *final(state), key, r),
{
    if let Some(c) = &mut state.consent {
        return KeyRoute::Act(c.handle_key(key));
    }
    if let Some(w) = &mut state.wizard {
        return KeyRoute::Act(w.handle_key(key));
    }
    if let Some(p) = &mut state.settings {
        return KeyRoute::Act(p.handle_key(key));
    }
    if let Some(h) = &mut state.help {
        return KeyRoute::Act(h.handle_key(key));
    }
    if let Some(p) = &mut state.refs_popup {
        return KeyRoute::Act(p.handle_key(key));
    }
    if let Some(c) = &mut state.command_line {
        return KeyRoute::Act(c.handle_key(key));
    }
    if state.search_view.is_some() {
        return if state.mode == Mode::Leader {
            KeyRoute::Table(Mode::Leader)
        } else {
            KeyRoute::SearchView
        };
    }
    if let Some(p) = &mut state.popup {
        return KeyRoute::Act(p.handle_key(key));
    }
    mode_key(state, key)
}

/// A key with no overlay, view or popup open: the mode's owner takes it.
#[verifier::spinoff_prover]
fn mode_key(state: &mut AppState, key: Key) -> (r: KeyRoute)
    requires
        old(state).wf(),
        old(state).consent is None && old(state).wizard is None && old(state).settings is None && old(state).help is None,
        old(state).refs_popup is None && old(state).command_line is None && old(state).search_view is None && old(state).popup is None,
        key_fits(*old(state), key),
    ensures
        final(state).wf(),
        key_routed(*old(state), *final(state), key, r),
{
    match state.mode {
        Mode::Browse => KeyRoute::Table(Mode::Browse),
        Mode::Visual => KeyRoute::Table(Mode::Visual),
        Mode::Search => {
            let out = state.browser.filter_input.handle_key(key);
            KeyRoute::Act(
                match out {
                    Outcome::Changed => Action::Noop,
                    Outcome::Submitted => Action::CommitFilter,
                    Outcome::Cancelled => Action::ClearFilter,
                    Outcome::Noop => Action::Noop,
                },
            )
        },
        Mode::Find => {
            let out = state.browser.find_input.handle_key(key);
            KeyRoute::Act(
                match out {
                    Outcome::Changed => Action::UpdateFind,
                    Outcome::Submitted => Action::CommitFind,
                    Outcome::Cancelled => Action::CancelFind,
                    Outcome::Noop => Action::Noop,
                },
            )
        },
        Mode::Leader => KeyRoute::Table(Mode::Leader),
        Mode::History => {
            if state.browser.history_filtering() {
                state.browser.history_filter_key(key);
                KeyRoute::Act(Action::Noop)
            } else {
                KeyRoute::Table(Mode::History)
            }
        },
        Mode::Preview => preview_key(state, key),
        _ => KeyRoute::Act(Action::Noop),
    }
}

/// A key in the preview submode (see `preview_keyed`).
fn preview_key(state: &mut AppState, key: Key) -> (r: KeyRoute)
    requires
        old(state).wf(),
        old(state).browser.preview.lines_cover(),
        motion_fits(
            old(state).browser.preview.motion_state(),
            old(state).browser.preview.line_count,
            old(state).browser.preview.viewport,
            key,
        ),
    ensures
        final(state).wf(),
        preview_keyed(*old(state), *final(state), key, r),
{
    let p = &mut state.browser.preview;
    if p.motion_key(key) {
        KeyRoute::Act(Action::Noop)
    } else if key.code == KeyCode::Char('v') {
        p.toggle_visual();
        KeyRoute::Act(Action::Noop)
    } else if key.code == KeyCode::Char('Y') {
        KeyRoute::Act(Action::PreviewCopy)
    } else if key.code == KeyCode::Esc && p.clear_visual() {
        KeyRoute::Act(Action::Noop)
    } else {
        KeyRoute::Table(Mode::Preview)
    }
}

/// Results of a search that a newer submission replaced are dropped:
/// after a submitted search, an answer numbered with any earlier
/// generation changes nothing.
pub proof fn lemma_superseded_results_are_dropped(
    a: AppState,
    b: AppState,
    q: String,
    r: (Option<Action>, Seq<Effect>),
    gen_id: u64,
    items: Vec<SearchItem>,
)
    requires
        a.search_gen < u64::MAX,
        spec_step(a, b, Action::SearchSubmitted(q), r),
        gen_id <= a.search_gen,
    ensures
        stale(b, AppEvent::SearchResults { gen_id, items }),
{
}

/// The global search an answer belongs to, for global-search answers.
pub open spec fn view_answer_gen(e: AppEvent) -> Option<u64> {
    match e {
        AppEvent::GlobalSearchDelta { gen_id, .. } => Some(gen_id),
        AppEvent::GlobalSearchResults { gen_id, .. } => Some(gen_id),
        AppEvent::GlobalSearchFailed { gen_id, .. } => Some(gen_id),
        AppEvent::HitContextMissing { gen_id, .. } => Some(gen_id),
        AppEvent::HitContextLoaded { gen_id, .. } => Some(gen_id),
        AppEvent::HitContextFailed { gen_id, .. } => Some(gen_id),
        _ => None,
    }
}

/// Answers of a global search that a newer submission replaced are
/// dropped: after a submitted global search, a batch, final answer,
/// failure, or hit context numbered with any earlier generation is
/// stale, and routing it leaves the whole state as it was.
pub proof fn lemma_superseded_view_answers_are_dropped(
    a: AppState,
    b: AppState,
    kind: SearchKind,
    query: String,
    scope: String,
    extension: String,
    r: (Option<Action>, Seq<Effect>),
    event: AppEvent,
)
    requires
        a.view_gen < u64::MAX,
        spec_step(a, b, Action::GlobalSearchSubmitted { kind, query, scope, extension }, r),
        view_answer_gen(event) matches Some(g) && g <= a.view_gen,
    ensures
        stale(b, event),
{
}

} // verus!
