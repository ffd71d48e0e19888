//! Editor integration: the read-only argv for the vim family, the
//! traversal rules for the materialized file, and the job the main
//! loop runs while the terminal is suspended.
use crate::config::Config;
use crate::provider::Provider;
use crate::text::{chars_of, clone_strings, hex_lower, hex_string, rfind_char, slice_chars, str_is, string_of, views};
use vstd::string::StringSliceAdditionalSpecFns;
use vstd::prelude::*;

verus! {

/// A prepared editor invocation.
pub struct EditorJob {
    pub program: String,
    pub args: Vec<String>,
}

/// The last `/`-separated segment of a program path.
pub open spec fn base_name(p: Seq<char>) -> Seq<char> {
    if exists|i: int| 0 <= i < p.len() && p[i] == '/' {
        let k = choose|k: int| 0 <= k < p.len() && p[k] == '/' && forall|j: int| k < j < p.len() ==> p[j] != '/';
        p.skip(k + 1)
    } else {
        p
    }
}

/// Editors with a `-R` read-only flag.
pub open spec fn is_vim_family(base: Seq<char>) -> bool {
    base == "vim"@ || base == "nvim"@ || base == "vi"@ || base == "view"@
}

/// The argv for `program`: the configured args, led by `-R` when
/// read-only is on and the program is of the vim family.
pub open spec fn spec_build_args(program: Seq<char>, args: Seq<Seq<char>>, read_only: bool) -> Seq<Seq<char>> {
    if read_only && is_vim_family(base_name(program)) {
        seq!["-R"@] + args
    } else {
        args
    }
}

fn base_of(program: &str) -> (r: Vec<char>)
    ensures
        r@ == base_name(program@),
{
    let p = chars_of(program);
    match rfind_char(p.as_slice(), '/') {
        Some(k) => {
            proof {
                let j = choose|j: int| 0 <= j < p@.len() && p@[j] == '/' && forall|m: int| j < m < p@.len() ==> p@[m] != '/';
                if j < k {
                    assert(p@[k as int] == '/');
                } else if j > k {
                    assert(p@[j] == '/');
                }
            }
            assert(k < p.len());
            let r = slice_chars(p.as_slice(), k + 1, p.len());
            assert(r@ =~= p@.skip(k + 1));
            r
        },
        None => p,
    }
}

/// Read-only args for the vim family; other editors have no such flag
/// and get the configured args as they are.
pub fn build_args(program: &str, config: &Config) -> (r: Vec<String>)
    ensures
        views(r@) == spec_build_args(program@, views(config.editor.args@), config.editor.read_only),
{
    let mut args = clone_strings(&config.editor.args);
    if config.editor.read_only {
        let base = string_of(base_of(program).as_slice());
        if str_is(base.as_str(), "vim") || str_is(base.as_str(), "nvim") || str_is(base.as_str(), "vi")
            || str_is(base.as_str(), "view") {
            args.insert(0, "-R".to_owned());
            assert(views(args@) =~= seq!["-R"@] + views(config.editor.args@));
        }
    }
    args
}

/// Why a relative path may not be materialized under the cache.
#[derive(Debug, Clone, Copy, PartialEq, Eq, Structural)]
pub enum PathRejection {
    /// Starts at the filesystem root.
    Absolute,
    /// Holds a `..` component.
    Traversal,
}

/// A `..` component starts at `i`.
pub open spec fn parent_component_at(p: Seq<char>, i: int) -> bool {
    0 <= i && i + 2 <= p.len() && (i == 0 || p[i - 1] == '/') && p[i] == '.' && p[i + 1] == '.'
        && (i + 2 == p.len() || p[i + 2] == '/')
}

/// The materialize rules: absolute paths and `..` components are
/// refused (the bytes come from the network — verify anyway).
pub open spec fn spec_path_rejection(p: Seq<char>) -> Option<PathRejection> {
    if p.len() > 0 && p[0] == '/' {
        Some(PathRejection::Absolute)
    } else if exists|i: int| parent_component_at(p, i) {
        Some(PathRejection::Traversal)
    } else {
        None
    }
}

/// Check a repo-relative path before it is written under the cache.
pub fn path_rejection(rel_path: &str) -> (r: Option<PathRejection>)
    ensures
        r == spec_path_rejection(rel_path@),
{
    let p = chars_of(rel_path);
    let n = p.len();
    if n > 0 && p[0] == '/' {
        return Some(PathRejection::Absolute);
    }
    let mut i: usize = 0;
    while n >= 2 && i <= n - 2
        invariant
            n == p@.len(),
            p@ == rel_path@,
            !(n > 0 && p@[0] == '/'),
            forall|k: int| 0 <= k < i ==> !parent_component_at(p@, k),
        decreases n - i,
    {
        if (i == 0 || p[i - 1] == '/') && p[i] == '.' && p[i + 1] == '.' && (i + 2 == n || p[i + 2]
            == '/') {
            assert(parent_component_at(p@, i as int));
            return Some(PathRejection::Traversal);
        }
        i += 1;
    }
    assert forall|k: int| !parent_component_at(p@, k) by {
        if 0 <= k < i {
        }
    }
    None
}

/// The message shown when no editor can be found.
pub open spec fn no_editor_message() -> Seq<char> {
    "no editor found — set [editor].program in config.toml or $EDITOR"@
}

/// The blob an editor job opens, fetched only once an editor is known:
/// without a program the job fails with the no-editor message before
/// anything is fetched; a fetch error fails it with the provider's
/// message.
pub fn editor_blob<P: Provider + ?Sized>(provider: &P, program: Option<&str>, repo_full: &str, sha: &str) -> (r:
    Result<Vec<u8>, String>)
    ensures
        program is None ==> (r matches Err(e) && e@ == no_editor_message()),
{
    if program.is_none() {
        return Err("no editor found — set [editor].program in config.toml or $EDITOR".to_owned());
    }
    match provider.fetch_blob(repo_full, sha) {
        Ok(bytes) => Ok(bytes),
        Err(e) => Err(e.message),
    }
}

/// Assemble the editor job from the resolved program and the
/// materialized file: no program is an error; a failed fetch or
/// materialize passes its message through; otherwise the argv is the
/// read-only args followed by the file.
pub fn prepare(config: &Config, program: Option<String>, file: Result<String, String>) -> (r: Result<
    EditorJob,
    String,
>)
    ensures
        match program {
            None => r matches Err(e) && e@ == no_editor_message(),
            Some(p) => match file {
                Err(msg) => r matches Err(e) && e@ == msg@,
                Ok(f) => r matches Ok(job) && job.program@ == p@ && views(job.args@) == spec_build_args(
                    p@,
                    views(config.editor.args@),
                    config.editor.read_only,
                ).push(f@),
            },
        },
{
    let program = match program {
        Some(p) => p,
        None => return Err("no editor found — set [editor].program in config.toml or $EDITOR".to_owned()),
    };
    let file = match file {
        Ok(f) => f,
        Err(e) => return Err(e),
    };
    let mut args = build_args(program.as_str(), config);
    let ghost before = args@;
    args.push(file);
    assert(views(args@) =~= views(before).push(args@[args@.len() - 1]@));
    Ok(EditorJob { program, args })
}

/// What SHA-256 hashes `b` to.
pub uninterp spec fn sha256_of(b: Seq<u8>) -> Seq<u8>;

/// `<sha2::Sha256 as Digest>::digest`: the SHA-256 of the bytes, named
/// `sha256_of`; a SHA-256 digest is 32 bytes long.
#[verifier::external_body]
fn sha256_digest(data: &[u8]) -> (r: Vec<u8>)
    ensures
        r@ == sha256_of(data@),
        r@.len() == 32,
{
    <sha2::Sha256 as sha2::Digest>::digest(data).to_vec()
}

/// The name a body without a blob sha is materialized under: its
/// SHA-256 in lowercase hex, so equal bodies share one file.
pub fn content_address(body: &str) -> (r: String)
    ensures
        r@ == hex_lower(sha256_of(body.spec_bytes())),
        r@.len() == 64,
{
    let digest = sha256_digest(body.as_bytes());
    proof {
        crate::text::lemma_hex_lower_len(digest@);
    }
    hex_string(digest.as_slice())
}

} // verus!