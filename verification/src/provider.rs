//! The provider-facing data the library reasons about: errors, tree
//! entries, refs, and declared-provider records.
use vstd::prelude::*;

verus! {

/// What went wrong at the provider boundary.
#[derive(Debug, Clone, Copy, PartialEq, Eq, Structural)]
pub enum ErrorKind {
    /// Credentials missing or rejected.
    Auth,
    /// The backend throttled the request.
    RateLimited,
    /// The provider (or the app's boundary) refused the payload.
    Provider,
    /// Anything else.
    Other,
}

/// A provider failure.
#[derive(Debug, Clone, PartialEq, Eq)]
pub struct ProviderError {
    pub kind: ErrorKind,
    pub message: String,
    /// Throttling backends may say when to retry: the delay in whole
    /// seconds.
    pub retry_after: Option<u64>,
}

pub type ProviderResult<T> = Result<T, ProviderError>;

impl ProviderError {
    pub fn new(kind: ErrorKind, message: &str) -> (r: Self)
        ensures
            r.kind == kind,
            r.message@ == message@,
            r.retry_after is None,
    {
        ProviderError { kind, message: message.to_owned(), retry_after: None }
    }

    /// An error of kind `Other`.
    pub fn other(message: &str) -> (r: Self)
        ensures
            r.kind == ErrorKind::Other,
            r.message@ == message@,
            r.retry_after is None,
    {
        Self::new(ErrorKind::Other, message)
    }

    /// The same error, carrying a retry delay of `delay` seconds.
    pub fn with_retry_after(self, delay: u64) -> (r: Self)
        ensures
            r.kind == self.kind,
            r.message == self.message,
            r.retry_after == Some(delay),
    {
        ProviderError { retry_after: Some(delay), ..self }
    }
}

/// One entry of a repo's recursive tree.
#[derive(Debug, Clone, PartialEq, Eq)]
pub struct TreeNode {
    pub path: String,
    pub is_dir: bool,
    pub sha: String,
    pub size: Option<u64>,
}

/// A repo of an org's listing.
#[derive(Debug, Clone)]
pub struct RepoInfo {
    pub name: String,
}

/// A repo's recursive tree as fetched.
#[derive(Debug, Clone)]
pub struct TreeResult {
    pub entries: Vec<TreeNode>,
    /// The provider cut the listing short.
    pub truncated: bool,
    /// The branch the tree was read from.
    pub branch: String,
}

/// One code-search match as a provider reports it.
#[derive(Debug, Clone)]
pub struct CodeMatch {
    pub repo: String,
    pub path: String,
    /// Blob sha of the matched file.
    pub sha: String,
    pub branch: String,
    /// A line the provider already knows matches.
    pub line: Option<u32>,
    /// The fragments the provider highlighted.
    pub matches: Vec<String>,
    /// The provider's index is current for this file.
    pub located: bool,
}

/// A code-search answer.
#[derive(Debug, Clone)]
pub struct SearchCodeResult {
    pub hits: Vec<CodeMatch>,
    /// The provider stopped before the full result set.
    pub truncated: bool,
    /// When the provider's index was built, if it says.
    pub index_as_of: Option<String>,
}

/// A forge backend: the hosted API, an external adapter, or a test
/// double. Every answer comes from the remote side, so the library
/// assumes nothing of it; what it does with each answer is what its
/// own functions state.
pub trait Provider {
    /// The recursive tree of `repo` at `reference` (the default branch
    /// when `None`).
    fn fetch_tree(&self, repo: &str, reference: Option<&str>) -> ProviderResult<TreeResult>;

    /// The bytes of a blob.
    fn fetch_blob(&self, repo: &str, sha: &str) -> ProviderResult<Vec<u8>>;

    /// Code search with the wire query `query`.
    fn search_code(&self, query: &str) -> ProviderResult<SearchCodeResult>;

    /// The gzipped tarball of the default branch.
    fn source_tarball(&self, repo: &str) -> ProviderResult<Vec<u8>>;
}

/// One search-popup result: a repo (`owner/name`) or an org login.
#[derive(Debug, Clone, PartialEq, Eq)]
pub enum SearchItem {
    Repo(String),
    Org(String),
}

/// One commit of a file's history.
#[derive(Debug, Clone)]
pub struct LogEntry {
    pub sha: String,
    pub subject: String,
    pub author: String,
    pub date: String,
}

/// A blame run: lines `start_line..=end_line` (1-based) last touched by
/// commit `sha`.
#[derive(Debug, Clone)]
pub struct BlameRange {
    pub sha: String,
    pub author: String,
    pub start_line: u32,
    pub end_line: u32,
}

/// A provider that the config declares but this machine lacks.
#[derive(Debug, Clone)]
pub struct Declaration {
    pub name: String,
    pub repo: String,
    pub tag: Option<String>,
    pub sha: Option<String>,
}

/// A configured provider that fails to start.
#[derive(Debug, Clone)]
pub struct HealthIssue {
    pub name: String,
    pub error: String,
    /// A retry could plausibly help (transient spawn failure).
    pub retryable: bool,
}

/// A branch or tag.
#[derive(Debug, Clone)]
pub struct RefInfo {
    pub name: String,
    pub sha: String,
    pub is_default: bool,
}

/// A repo's revisions: branches then tags.
#[derive(Debug, Clone)]
pub struct RepoRefs {
    pub branches: Vec<RefInfo>,
    pub tags: Vec<RefInfo>,
}

} // verus!
