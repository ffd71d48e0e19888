//! The on-disk cache layout: trees by sha, blobs fanned out by their
//! sha's first two chars, ref mappings by owner/repo/branch. Paths are
//! given as components under the cache root; the caller joins them and
//! does the file I/O.
use crate::text::{push_str, views};
use vstd::prelude::*;
use vstd::string::StringSliceAdditionalSpecFns;
use vstd::utf8::{encode_utf8, is_char_boundary};

verus! {

/// A ref mapping: the tree sha a branch resolved to, and the etag to
/// revalidate it with.
#[derive(Debug, Clone)]
pub struct RefCache {
    pub tree_sha: String,
    pub etag: Option<String>,
}

/// `index/refs/<owner>/<repo>/<branch>`.
pub fn ref_path(owner: &str, repo: &str, branch: &str) -> (r: Vec<String>)
    ensures
        views(r@) == seq!["index/refs"@, owner@, repo@, branch@],
{
    let mut r: Vec<String> = Vec::new();
    r.push(String::from_str("index/refs"));
    r.push(owner.to_string());
    r.push(repo.to_string());
    r.push(branch.to_string());
    proof {
        reveal_strlit("index/refs");
    }
    assert(views(r@) =~= seq!["index/refs"@, owner@, repo@, branch@]);
    r
}

/// `trees/<sha>.json`.
pub fn tree_path(sha: &str) -> (r: Vec<String>)
    ensures
        views(r@) == seq!["trees"@, sha@ + ".json"@],
{
    let mut file = sha.to_string();
    push_str(&mut file, ".json");
    let mut r: Vec<String> = Vec::new();
    r.push(String::from_str("trees"));
    r.push(file);
    assert(views(r@) =~= seq!["trees"@, sha@ + ".json"@]);
    r
}

/// The byte length of a sha's fan-out prefix: two bytes, or the whole
/// of a shorter sha.
pub open spec fn fan_len(b: Seq<u8>) -> int {
    if b.len() < 2 {
        b.len() as int
    } else {
        2
    }
}

/// `blobs/<ab>/<rest>`: the sha cut after its first two bytes.
pub fn blob_path(sha: &str) -> (r: Vec<String>)
    requires
        is_char_boundary(sha.spec_bytes(), fan_len(sha.spec_bytes())),
    ensures
        r@.len() == 3,
        r@[0]@ == "blobs"@,
        encode_utf8(r@[1]@) == sha.spec_bytes().take(fan_len(sha.spec_bytes())),
        encode_utf8(r@[2]@) == sha.spec_bytes().skip(fan_len(sha.spec_bytes())),
{
    let b = sha.as_bytes();
    let m = if b.len() < 2 { b.len() } else { 2 };
    let (head, tail) = sha.split_at(m);
    let mut r: Vec<String> = Vec::new();
    r.push(String::from_str("blobs"));
    r.push(head.to_string());
    r.push(tail.to_string());
    proof {
        reveal_strlit("blobs");
        assert(sha.spec_bytes().skip(m as int) =~= sha.spec_bytes().subrange(m as int, sha.spec_bytes().len() as int));
    }
    r
}

} // verus!
