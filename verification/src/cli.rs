//! Command-line arguments: the positional `owner/repo` and the
//! provider manager subcommand tree. The argument parser itself lives
//! with the binary; this is the parsed shape and its rules.
use crate::text::{chars_of, find_char, first_index_of, slice_chars, string_of};
use std::path::PathBuf;
use vstd::prelude::*;

verus! {

/// Parsed command line.
#[derive(Debug)]
pub struct Cli {
    /// Open this repo directly (owner/repo), skipping the search popup.
    pub repo: Option<String>,
    /// Use this config file instead of the default location.
    pub config: Option<PathBuf>,
    /// Theme name.
    pub theme: Option<String>,
    /// Provider management: install, list, update, upgrade, pin,
    /// unpin, remove, use.
    pub provider: Option<ProviderCommand>,
}

/// Install a provider from a release, manage it locally, and switch
/// the active backend.
#[derive(Debug)]
pub enum ProviderCommand {
    /// Install a provider binary (bare name, `owner/repo` or URL,
    /// optionally `@tag`-pinned).
    Install { ref_: String, pin: bool, force: bool, path: Option<PathBuf> },
    /// List installed providers.
    List { json: bool },
    /// Refresh latest-known release tags (non-mutating).
    Update { name: Option<String> },
    /// Upgrade provider binaries to the latest release.
    Upgrade { name: Option<String>, all: bool, dry_run: bool, force: bool },
    /// Freeze a provider at its current (or given) tag.
    Pin { name: String, tag: Option<String> },
    /// Unfreeze a provider.
    Unpin { name: String },
    /// Remove a provider binary and its receipt.
    Remove { name: String },
    /// Activate a provider; extra argv reaches the provider binary.
    Use { name: String, extra: Vec<String> },
}

/// `owner/name` split at the first `/`; both sides must be non-empty
/// (the name may itself hold further slashes).
pub open spec fn split_repo_arg(s: Seq<char>) -> Option<(Seq<char>, Seq<char>)> {
    match first_index_of(s, '/') {
        None => None,
        Some(k) => if k == 0 || k + 1 == s.len() {
            None
        } else {
            Some((s.take(k), s.skip(k + 1)))
        },
    }
}

impl Cli {
    /// Split the positional repo argument into (owner, name), if valid.
    pub fn repo_parts(&self) -> (r: Option<(String, String)>)
        ensures
            match self.repo {
                None => r is None,
                Some(repo) => match split_repo_arg(repo@) {
                    None => r is None,
                    Some((owner, name)) => r matches Some((o, n)) && o@ == owner && n@ == name,
                },
            },
    {
        let repo = match &self.repo {
            Some(repo) => repo,
            None => return None,
        };
        let chars = chars_of(repo.as_str());
        let k = match find_char(chars.as_slice(), '/') {
            Some(k) => k,
            None => return None,
        };
        if k == 0 || k == chars.len() - 1 {
            return None;
        }
        let owner = slice_chars(chars.as_slice(), 0, k);
        let name = slice_chars(chars.as_slice(), k + 1, chars.len());
        assert(owner@ =~= chars@.take(k as int));
        assert(name@ =~= chars@.skip(k + 1));
        Some((string_of(owner.as_slice()), string_of(name.as_slice())))
    }
}

} // verus!
