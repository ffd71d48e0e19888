//! The local grep fallback: when the code index answers a scoped grep
//! with a silent zero, the default branch's tarball is walked and each
//! file is matched the way the hosted search would match it.
use super::backend::{dotted, lowered, tree_needles, spec_locate_in_blob, locate_in_blob, located_view, BACKEND_CAP};
use super::grammar::{lang_matches, spec_lang_matches, Grammar, GrammarView};
use super::model::{hits_view, HitView, RawHit};
use super::rank::first_n;
use crate::provider::Provider;
use crate::sanitize::{is_binary, sanitize, spec_is_binary, spec_sanitize};
use crate::text::{
    chars_of, contains, decimal, decimal_chars, ends, ends_with, find_char, first_index_of,
    has_sub, hex_lower, hex_string, lower_chars, lowercase, slice_chars, string_of, views,
};
use vstd::prelude::*;

verus! {

/// Files above this size are skipped (the preview pane's blob cap).
pub const FILE_CAP: u64 = 1048576;

/// What gzip decompression yields for the bytes: the decoded stream up
/// to the first decoding error.
pub uninterp spec fn gunzipped(data: Seq<u8>) -> Seq<u8>;

/// The members of a tar archive in archive order, each as (regular
/// file, path when it is valid UTF-8, header size, contents when they
/// could be read).
pub uninterp spec fn tar_listing(archive: Seq<u8>) -> Seq<(bool, Option<Seq<char>>, u64, Option<Seq<u8>>)>;

/// The SHA-1 digest of the bytes.
pub uninterp spec fn sha1_of(data: Seq<u8>) -> Seq<u8>;

/// One member of a tar archive.
pub struct TarMember {
    /// A regular file (not a directory, link, or special entry).
    pub regular: bool,
    pub path: Option<String>,
    /// The size the header declares.
    pub size: u64,
    pub data: Option<Vec<u8>>,
}

pub open spec fn opt_bytes_view(o: Option<Vec<u8>>) -> Option<Seq<u8>> {
    match o {
        Some(v) => Some(v@),
        None => None,
    }
}

pub open spec fn opt_text_view(o: Option<String>) -> Option<Seq<char>> {
    match o {
        Some(s) => Some(s@),
        None => None,
    }
}

/// A member as plain values.
pub open spec fn member_view(m: TarMember) -> (bool, Option<Seq<char>>, u64, Option<Seq<u8>>) {
    (m.regular, opt_text_view(m.path), m.size, opt_bytes_view(m.data))
}

pub open spec fn members_view(v: Seq<TarMember>) -> Seq<(bool, Option<Seq<char>>, u64, Option<Seq<u8>>)> {
    v.map_values(|m: TarMember| member_view(m))
}

/// `flate2::read::GzDecoder` read to the end: the decompressed bytes,
/// named `gunzipped` (a decoding error ends the stream where it occurs).
#[verifier::external_body]
fn gunzip(data: &[u8]) -> (r: Vec<u8>)
    ensures
        r@ == gunzipped(data@),
{
    let mut out = Vec::new();
    let _ = std::io::Read::read_to_end(&mut flate2::read::GzDecoder::new(data), &mut out);
    out
}

/// `tar::Archive::entries` walked to the end: each entry as a
/// `TarMember`, named `tar_listing` (a malformed entry ends the walk).
#[verifier::external_body]
fn tar_members(archive: &[u8]) -> (r: Vec<TarMember>)
    ensures
        members_view(r@) == tar_listing(archive@),
{
    let mut out = Vec::new();
    let mut ar = tar::Archive::new(archive);
    if let Ok(entries) = ar.entries() {
        for mut e in entries.flatten() {
            let regular = e.header().entry_type() == tar::EntryType::Regular;
            let path = e.path().ok().and_then(|p| p.to_str().map(str::to_string));
            let size = e.size();
            let mut buf = Vec::new();
            let data = std::io::Read::read_to_end(&mut e, &mut buf).ok().map(|_| buf);
            out.push(TarMember { regular, path, size, data });
        }
    }
    out
}

/// `<sha1::Sha1 as Digest>::digest`: the SHA-1 of the bytes, named
/// `sha1_of`; a SHA-1 digest is 20 bytes long.
#[verifier::external_body]
fn sha1_digest(data: &[u8]) -> (r: Vec<u8>)
    ensures
        r@ == sha1_of(data@),
        r@.len() == 20,
{
    <sha1::Sha1 as sha1::Digest>::digest(data).to_vec()
}

/// ASCII text as bytes.
pub open spec fn ascii_bytes(s: Seq<char>) -> Seq<u8> {
    s.map_values(|c: char| c as u8)
}

/// The object header git hashes in front of a blob's bytes.
pub open spec fn blob_header(len: nat) -> Seq<u8> {
    ascii_bytes("blob "@) + ascii_bytes(decimal(len)) + seq![0u8]
}

/// A blob's git object id: the SHA-1 of header and bytes, in lowercase
/// hex.
pub open spec fn spec_git_blob_sha(bytes: Seq<u8>) -> Seq<char> {
    hex_lower(sha1_of(blob_header(bytes.len()) + bytes))
}

fn push_ascii(buf: &mut Vec<u8>, text: &[char])
    requires
        forall|i: int| 0 <= i < text@.len() ==> (text@[i] as u32) < 128,
    ensures
        final(buf)@ == old(buf)@ + ascii_bytes(text@),
{
    let mut i: usize = 0;
    while i < text.len()
        invariant
            i <= text@.len(),
            forall|k: int| 0 <= k < text@.len() ==> (text@[k] as u32) < 128,
            buf@ == old(buf)@ + ascii_bytes(text@.take(i as int)),
        decreases text.len() - i,
    {
        let c = text[i];
        buf.push(c as u8);
        i += 1;
        assert(buf@ =~= old(buf)@ + ascii_bytes(text@.take(i as int)));
    }
    assert(text@.take(text@.len() as int) =~= text@);
}

proof fn lemma_decimal_ascii(n: nat)
    ensures
        forall|i: int| 0 <= i < decimal(n).len() ==> (decimal(n)[i] as u32) < 128,
    decreases n,
{
    assert forall|d: nat| (#[trigger] crate::text::digit_char(d) as u32) < 128 by {}
    if n >= 10 {
        lemma_decimal_ascii(n / 10);
        let s = decimal(n);
        assert(s == decimal(n / 10).push(crate::text::digit_char(n % 10)));
        assert forall|i: int| 0 <= i < s.len() implies (s[i] as u32) < 128 by {
            if i < s.len() - 1 {
                assert(s[i] == decimal(n / 10)[i]);
            }
        }
    } else {
        assert(decimal(n) == seq![crate::text::digit_char(n)]);
    }
}

/// The git blob id of the bytes, as the API addresses blobs.
pub fn git_blob_sha(bytes: &[u8]) -> (r: String)
    ensures
        r@ == spec_git_blob_sha(bytes@),
{
    let mut buf: Vec<u8> = Vec::new();
    let head = chars_of("blob ");
    proof {
        reveal_strlit("blob ");
    }
    push_ascii(&mut buf, head.as_slice());
    let digits = decimal_chars(bytes.len() as u64);
    proof {
        lemma_decimal_ascii(bytes@.len());
    }
    push_ascii(&mut buf, digits.as_slice());
    buf.push(0u8);
    assert(buf@ =~= blob_header(bytes@.len()));
    let mut i: usize = 0;
    while i < bytes.len()
        invariant
            i <= bytes@.len(),
            buf@ == blob_header(bytes@.len()) + bytes@.take(i as int),
        decreases bytes.len() - i,
    {
        buf.push(bytes[i]);
        i += 1;
        assert(buf@ =~= blob_header(bytes@.len()) + bytes@.take(i as int));
    }
    assert(bytes@.take(bytes@.len() as int) =~= bytes@);
    let d = sha1_digest(buf.as_slice());
    hex_string(d.as_slice())
}

/// The path inside the archive: what follows the top directory.
pub open spec fn inner_path(path: Seq<char>) -> Option<Seq<char>> {
    match first_index_of(path, '/') {
        Some(k) => Some(path.skip(k + 1)),
        None => None,
    }
}

/// The path and extension filters of the fallback on a lowercased
/// path: an inline `extension:`, `language:`, `-language:`.
pub open spec fn member_path_kept(g: GrammarView, path: Seq<char>) -> bool {
    &&& (g.extension matches Some(e) ==> ends(path, dotted(lowercase(e))))
    &&& spec_lang_matches(g.language, path) != Some(false)
    &&& spec_lang_matches(g.negated_language, path) != Some(true)
}

/// The hosted search's content rule: every needle somewhere in the
/// lowercased text, no negated term anywhere in it.
pub open spec fn text_matches(g: GrammarView, needles: Seq<Seq<char>>, text: Seq<char>) -> bool {
    &&& forall|k: int| 0 <= k < needles.len() ==> has_sub(text, #[trigger] needles[k])
    &&& forall|k: int| 0 <= k < g.negated.len() ==> !has_sub(text, #[trigger] g.negated[k])
}

/// The hit a tarball member becomes, if any: a regular file within the
/// size cap, with a path below the top directory that passes the
/// filters, readable text content that matches, and a located preview;
/// its sha is the blob's git id.
pub open spec fn spec_member_hit(
    m: (bool, Option<Seq<char>>, u64, Option<Seq<u8>>),
    g: GrammarView,
    needles: Seq<Seq<char>>,
    repo: Seq<char>,
    branch: Seq<char>,
) -> Option<HitView> {
    if !m.0 || m.2 > FILE_CAP {
        None
    } else {
        match m.1 {
            None => None,
            Some(full) => match inner_path(full) {
                None => None,
                Some(rel) => if rel.len() == 0 || !member_path_kept(g, lowercase(rel)) {
                    None
                } else {
                    match m.3 {
                        None => None,
                        Some(bytes) => if spec_is_binary(bytes) || !text_matches(
                            g,
                            needles,
                            lowercase(spec_sanitize(bytes)),
                        ) {
                            None
                        } else {
                            match spec_locate_in_blob(bytes, needles) {
                                None => None,
                                Some(loc) => Some(
                                    HitView {
                                        repo,
                                        path: rel,
                                        sha: spec_git_blob_sha(bytes),
                                        branch,
                                        line: loc.0,
                                        preview: loc.1,
                                        match_count: loc.2,
                                        stale: false,
                                    },
                                ),
                            }
                        },
                    }
                },
            },
        }
    }
}

/// The hits of the members, in archive order.
pub open spec fn member_hits(
    ms: Seq<(bool, Option<Seq<char>>, u64, Option<Seq<u8>>)>,
    g: GrammarView,
    needles: Seq<Seq<char>>,
    repo: Seq<char>,
    branch: Seq<char>,
) -> Seq<HitView>
    decreases ms.len(),
{
    if ms.len() == 0 {
        seq![]
    } else {
        let prev = member_hits(ms.drop_last(), g, needles, repo, branch);
        match spec_member_hit(ms.last(), g, needles, repo, branch) {
            Some(h) => prev.push(h),
            None => prev,
        }
    }
}

fn path_passes(g: &Grammar, path: &str) -> (b: bool)
    ensures
        b == member_path_kept(g@, path@),
{
    let p = chars_of(path);
    if let Some(e) = &g.extension {
        let le = lower_chars(e.as_str());
        let dot = vec!['.'];
        let d = crate::text::concat_chars(dot.as_slice(), le.as_slice());
        assert(dot@ =~= seq!['.']);
        if !ends_with(p.as_slice(), d.as_slice()) {
            return false;
        }
    }
    if let Some(false) = lang_matches(&g.language, path) {
        return false;
    }
    if let Some(true) = lang_matches(&g.negated_language, path) {
        return false;
    }
    true
}

fn text_passes(g: &Grammar, needles: &Vec<String>, text: &[char]) -> (b: bool)
    ensures
        b == text_matches(g@, views(needles@), text@),
{
    let ghost nv = views(needles@);
    let mut k: usize = 0;
    while k < needles.len()
        invariant
            k <= needles@.len(),
            nv == views(needles@),
            forall|j: int| 0 <= j < k ==> has_sub(text@, #[trigger] nv[j]),
        decreases needles.len() - k,
    {
        let n = chars_of(needles[k].as_str());
        assert(nv[k as int] == n@);
        if !contains(text, n.as_slice()) {
            return false;
        }
        k += 1;
    }
    let ghost neg = views(g.negated@);
    let mut j: usize = 0;
    while j < g.negated.len()
        invariant
            j <= g.negated@.len(),
            neg == views(g.negated@),
            neg == g@.negated,
            forall|i: int| 0 <= i < j ==> !has_sub(text@, #[trigger] neg[i]),
        decreases g.negated.len() - j,
    {
        let n = chars_of(g.negated[j].as_str());
        assert(neg[j as int] == n@);
        if contains(text, n.as_slice()) {
            assert(has_sub(text@, g@.negated[j as int]));
            return false;
        }
        j += 1;
    }
    true
}

fn inner_path_of(path: &str) -> (r: Option<String>)
    ensures
        opt_text_view(r) == inner_path(path@),
{
    let p = chars_of(path);
    match find_char(p.as_slice(), '/') {
        Some(k) => {
            assert(k < p.len());
            let rest = slice_chars(p.as_slice(), k + 1, p.len());
            assert(rest@ =~= path@.skip(k + 1));
            Some(string_of(rest.as_slice()))
        },
        None => None,
    }
}

/// The grep hit of one tarball member (see `spec_member_hit`);
/// `needles` are the lowercased terms.
pub fn member_hit(
    m: &TarMember,
    g: &Grammar,
    needles: &Vec<String>,
    repo: &str,
    branch: &str,
) -> (r: Option<RawHit>)
    ensures
        match r {
            Some(h) => spec_member_hit(member_view(*m), g@, views(needles@), repo@, branch@) == Some(h@),
            None => spec_member_hit(member_view(*m), g@, views(needles@), repo@, branch@) is None,
        },
{
    if !m.regular || m.size > FILE_CAP {
        return None;
    }
    let full = match &m.path {
        Some(p) => p,
        None => return None,
    };
    let rel = match inner_path_of(full.as_str()) {
        Some(r) => r,
        None => return None,
    };
    if rel.as_str().is_empty() {
        return None;
    }
    let rel_lower = crate::text::to_lowercase(rel.as_str());
    if !path_passes(g, rel_lower.as_str()) {
        return None;
    }
    let bytes = match &m.data {
        Some(b) => b,
        None => return None,
    };
    if is_binary(bytes.as_slice()) {
        return None;
    }
    let text = sanitize(bytes.as_slice());
    let text_lower = lower_chars(text.as_str());
    if !text_passes(g, needles, text_lower.as_slice()) {
        return None;
    }
    let loc = match locate_in_blob(bytes.as_slice(), needles.as_slice()) {
        Some(l) => l,
        None => return None,
    };
    assert(located_view(Some(loc)) == spec_locate_in_blob(bytes@, views(needles@)));
    let sha = git_blob_sha(bytes.as_slice());
    let (line, preview, count) = loc;
    Some(
        RawHit {
            repo: repo.to_owned(),
            path: rel,
            sha,
            branch: branch.to_owned(),
            line,
            preview,
            match_count: count,
            stale: false,
        },
    )
}

proof fn lemma_member_hits_prefix(
    ms: Seq<(bool, Option<Seq<char>>, u64, Option<Seq<u8>>)>,
    g: GrammarView,
    needles: Seq<Seq<char>>,
    repo: Seq<char>,
    branch: Seq<char>,
    i: int,
)
    requires
        0 <= i <= ms.len(),
    ensures
        member_hits(ms.take(i), g, needles, repo, branch).len() <= member_hits(ms, g, needles, repo, branch).len(),
        member_hits(ms.take(i), g, needles, repo, branch) == member_hits(ms, g, needles, repo, branch).take(
            member_hits(ms.take(i), g, needles, repo, branch).len() as int,
        ),
    decreases ms.len() - i,
{
    if i < ms.len() {
        lemma_member_hits_prefix(ms, g, needles, repo, branch, i + 1);
        assert(ms.take(i + 1).drop_last() =~= ms.take(i));
    } else {
        assert(ms.take(i) =~= ms);
    }
}

/// Grep the members in archive order, stopping at `BACKEND_CAP` hits.
pub fn grep_members(
    members: &Vec<TarMember>,
    g: &Grammar,
    needles: &Vec<String>,
    repo: &str,
    branch: &str,
) -> (r: Vec<RawHit>)
    ensures
        hits_view(r@) == first_n(
            member_hits(members_view(members@), g@, views(needles@), repo@, branch@),
            BACKEND_CAP as int,
        ),
{
    let ghost ms = members_view(members@);
    let ghost all = member_hits(ms, g@, views(needles@), repo@, branch@);
    let mut hits: Vec<RawHit> = Vec::new();
    let mut i: usize = 0;
    while i < members.len()
        invariant
            i <= members@.len(),
            ms == members_view(members@),
            all == member_hits(ms, g@, views(needles@), repo@, branch@),
            hits_view(hits@) == member_hits(ms.take(i as int), g@, views(needles@), repo@, branch@),
            hits@.len() < BACKEND_CAP,
        decreases members.len() - i,
    {
        assert(ms.take(i + 1).drop_last() =~= ms.take(i as int));
        assert(ms.take(i + 1).last() == member_view(members@[i as int]));
        let found = member_hit(&members[i], g, needles, repo, branch);
        if let Some(h) = found {
            let ghost before = hits@;
            hits.push(h);
            assert(hits_view(hits@) =~= hits_view(before).push(h@));
        }
        i += 1;
        if hits.len() >= BACKEND_CAP {
            proof {
                lemma_member_hits_prefix(ms, g@, views(needles@), repo@, branch@, i as int);
                assert(all.take(BACKEND_CAP as int) =~= hits_view(hits@));
            }
            return hits;
        }
    }
    assert(ms.take(ms.len() as int) =~= ms);
    hits
}

/// The hit comes from a regular member of `ms` within the size cap,
/// whose path below the top directory is the hit's path and passes the
/// path filters, and whose text holds every needle and no negated term.
pub open spec fn from_member(
    ms: Seq<(bool, Option<Seq<char>>, u64, Option<Seq<u8>>)>,
    g: GrammarView,
    needles: Seq<Seq<char>>,
    repo: Seq<char>,
    branch: Seq<char>,
    h: HitView,
) -> bool {
    &&& h.repo == repo
    &&& h.branch == branch
    &&& member_path_kept(g, lowercase(h.path))
    &&& exists|j: int|
        0 <= j < ms.len() && {
            let m = #[trigger] ms[j];
            &&& m.0
            &&& m.2 <= FILE_CAP
            &&& m.1 matches Some(full) && inner_path(full) == Some(h.path)
            &&& m.3 matches Some(bytes) && !spec_is_binary(bytes) && text_matches(
                g,
                needles,
                lowercase(spec_sanitize(bytes)),
            )
        }
}

proof fn lemma_member_hits_from_members(
    ms: Seq<(bool, Option<Seq<char>>, u64, Option<Seq<u8>>)>,
    g: GrammarView,
    needles: Seq<Seq<char>>,
    repo: Seq<char>,
    branch: Seq<char>,
)
    ensures
        forall|k: int|
            0 <= k < member_hits(ms, g, needles, repo, branch).len() ==> from_member(
                ms,
                g,
                needles,
                repo,
                branch,
                #[trigger] member_hits(ms, g, needles, repo, branch)[k],
            ),
    decreases ms.len(),
{
    if ms.len() > 0 {
        let d = ms.drop_last();
        lemma_member_hits_from_members(d, g, needles, repo, branch);
        let prev = member_hits(d, g, needles, repo, branch);
        let cur = member_hits(ms, g, needles, repo, branch);
        assert forall|k: int| 0 <= k < cur.len() implies from_member(ms, g, needles, repo, branch, #[trigger] cur[k]) by {
            if k < prev.len() {
                assert(cur[k] == prev[k]);
                assert(from_member(d, g, needles, repo, branch, prev[k]));
                let j = choose|j: int|
                    0 <= j < d.len() && {
                        let m = #[trigger] d[j];
                        &&& m.0
                        &&& m.2 <= FILE_CAP
                        &&& m.1 matches Some(full) && inner_path(full) == Some(prev[k].path)
                        &&& m.3 matches Some(bytes) && !spec_is_binary(bytes) && text_matches(
                            g,
                            needles,
                            lowercase(spec_sanitize(bytes)),
                        )
                    };
                assert(ms[j] == d[j]);
            } else {
                assert(ms[ms.len() - 1] == ms.last());
            }
        }
    }
}

/// The tarball fallback honours the query: every hit belongs to the
/// repo and branch asked for, comes from a regular member within the
/// size cap whose path below the top directory is the hit's path and
/// whose lowercased text holds every lowercased term and no negated
/// term; the hit's lowercased path ends with the inline `extension:`'s
/// `.ext`, and its extension (the lowercased text after the last `.`)
/// is one of the query language's extensions when that language is in
/// the table, and none of the negated language's when that one is.
pub proof fn lemma_tarball_honours_the_query(
    archive: Seq<u8>,
    branch: Seq<char>,
    g: GrammarView,
    repo: Seq<char>,
    hits: Seq<HitView>,
)
    requires
        tarball_answers(archive, branch, g, repo, hits),
    ensures
        forall|i: int|
            0 <= i < hits.len() ==> {
                let h = #[trigger] hits[i];
                let p = lowercase(h.path);
                let e = lowercase(crate::text::after_last(p, '.'));
                let ms = tar_listing(gunzipped(archive));
                &&& h.repo == repo && h.branch == branch
                &&& exists|j: int|
                    0 <= j < ms.len() && {
                        let m = #[trigger] ms[j];
                        &&& m.0
                        &&& m.2 <= FILE_CAP
                        &&& m.1 matches Some(full) && inner_path(full) == Some(h.path)
                        &&& m.3 matches Some(bytes) && !spec_is_binary(bytes) && (forall|k: int|
                            0 <= k < g.terms.len() ==> has_sub(
                                lowercase(spec_sanitize(bytes)),
                                lowercase(#[trigger] g.terms[k]),
                            )) && (forall|k: int|
                            0 <= k < g.negated.len() ==> !has_sub(
                                lowercase(spec_sanitize(bytes)),
                                #[trigger] g.negated[k],
                            ))
                    }
                &&& (g.extension matches Some(x) ==> ends(p, seq!['.'] + lowercase(x)))
                &&& (g.language matches Some(l) ==> (super::grammar::spec_lang_exts(l) matches Some(exts)
                    ==> exts.contains(e)))
                &&& (g.negated_language matches Some(l) ==> (super::grammar::spec_lang_exts(l) matches Some(exts)
                    ==> !exts.contains(e)))
            },
{
    let ms = tar_listing(gunzipped(archive));
    let needles = tree_needles(g);
    let all = member_hits(ms, g, needles, repo, branch);
    lemma_member_hits_from_members(ms, g, needles, repo, branch);
    assert forall|i: int| 0 <= i < hits.len() implies from_member(ms, g, needles, repo, branch, #[trigger] hits[i]) by {
        assert(hits[i] == all[i]);
    }
    assert forall|i: int| 0 <= i < hits.len() implies {
        let h = #[trigger] hits[i];
        exists|j: int|
            0 <= j < ms.len() && {
                let m = #[trigger] ms[j];
                &&& m.0
                &&& m.2 <= FILE_CAP
                &&& m.1 matches Some(full) && inner_path(full) == Some(h.path)
                &&& m.3 matches Some(bytes) && !spec_is_binary(bytes) && (forall|k: int|
                    0 <= k < g.terms.len() ==> has_sub(
                        lowercase(spec_sanitize(bytes)),
                        lowercase(#[trigger] g.terms[k]),
                    )) && (forall|k: int|
                    0 <= k < g.negated.len() ==> !has_sub(lowercase(spec_sanitize(bytes)), #[trigger] g.negated[k]))
            }
    } by {
        let h = hits[i];
        assert(from_member(ms, g, needles, repo, branch, h));
        let j = choose|j: int|
            0 <= j < ms.len() && {
                let m = #[trigger] ms[j];
                &&& m.0
                &&& m.2 <= FILE_CAP
                &&& m.1 matches Some(full) && inner_path(full) == Some(h.path)
                &&& m.3 matches Some(bytes) && !spec_is_binary(bytes) && text_matches(
                    g,
                    needles,
                    lowercase(spec_sanitize(bytes)),
                )
            };
        let bytes = ms[j].3->Some_0;
        assert forall|k: int| 0 <= k < g.terms.len() implies has_sub(
            lowercase(spec_sanitize(bytes)),
            lowercase(#[trigger] g.terms[k]),
        ) by {
            assert(needles[k] == lowercase(g.terms[k]));
        }
    }
}

proof fn lemma_member_hits_has(
    ms: Seq<(bool, Option<Seq<char>>, u64, Option<Seq<u8>>)>,
    g: GrammarView,
    needles: Seq<Seq<char>>,
    repo: Seq<char>,
    branch: Seq<char>,
    j: int,
)
    requires
        0 <= j < ms.len(),
        spec_member_hit(ms[j], g, needles, repo, branch) is Some,
    ensures
        member_hits(ms, g, needles, repo, branch).contains(spec_member_hit(ms[j], g, needles, repo, branch)->Some_0),
    decreases ms.len(),
{
    let d = ms.drop_last();
    let prev = member_hits(d, g, needles, repo, branch);
    let cur = member_hits(ms, g, needles, repo, branch);
    if j < ms.len() - 1 {
        assert(d[j] == ms[j]);
        lemma_member_hits_has(d, g, needles, repo, branch, j);
        let k = choose|k: int| 0 <= k < prev.len() && prev[k] == spec_member_hit(ms[j], g, needles, repo, branch)->Some_0;
        assert(cur[k] == prev[k]);
    } else {
        assert(ms.last() == ms[j]);
        assert(cur[prev.len() as int] == spec_member_hit(ms[j], g, needles, repo, branch)->Some_0);
    }
}

/// The tarball fallback misses nothing it was not told to cut: when it
/// answers fewer than `BACKEND_CAP` hits, every regular member within
/// the size cap whose path below the top directory is not empty, whose
/// lowercased path ends with the inline `extension:`'s `.ext` and has an
/// extension (the lowercased text after the last `.`) among the query
/// language's extensions (when that language is in the table) and none
/// of the negated language's (when that one is), whose text holds every
/// lowercased term and no negated term, and whose matches can be
/// located, is among the hits.
pub proof fn lemma_tarball_misses_nothing(
    archive: Seq<u8>,
    branch: Seq<char>,
    g: GrammarView,
    repo: Seq<char>,
    hits: Seq<HitView>,
)
    requires
        tarball_answers(archive, branch, g, repo, hits),
        hits.len() < BACKEND_CAP,
    ensures
        forall|j: int|
            0 <= j < tar_listing(gunzipped(archive)).len() && ({
                let m = #[trigger] tar_listing(gunzipped(archive))[j];
                &&& m.0
                &&& m.2 <= FILE_CAP
                &&& m.1 matches Some(full) && inner_path(full) matches Some(rel) && rel.len() > 0 && {
                    let p = lowercase(rel);
                    let e = lowercase(crate::text::after_last(p, '.'));
                    &&& (g.extension matches Some(x) ==> ends(p, seq!['.'] + lowercase(x)))
                    &&& (g.language matches Some(l) ==> (super::grammar::spec_lang_exts(l) matches Some(exts)
                        ==> exts.contains(e)))
                    &&& (g.negated_language matches Some(l) ==> (super::grammar::spec_lang_exts(l) matches Some(
                        exts,
                    ) ==> !exts.contains(e)))
                }
                &&& m.3 matches Some(bytes) && !spec_is_binary(bytes) && (forall|k: int|
                    0 <= k < g.terms.len() ==> has_sub(
                        lowercase(spec_sanitize(bytes)),
                        lowercase(#[trigger] g.terms[k]),
                    )) && (forall|k: int|
                    0 <= k < g.negated.len() ==> !has_sub(lowercase(spec_sanitize(bytes)), #[trigger] g.negated[k]))
                    && spec_locate_in_blob(bytes, tree_needles(g)) is Some
            }) ==> exists|i: int|
                0 <= i < hits.len() && inner_path(tar_listing(gunzipped(archive))[j].1->Some_0) == Some(
                    (#[trigger] hits[i]).path,
                ),
{
    let ms = tar_listing(gunzipped(archive));
    let needles = tree_needles(g);
    let all = member_hits(ms, g, needles, repo, branch);
    assert(hits == all);
    assert forall|j: int|
        0 <= j < ms.len() && ({
            let m = #[trigger] ms[j];
            &&& m.0
            &&& m.2 <= FILE_CAP
            &&& m.1 matches Some(full) && inner_path(full) matches Some(rel) && rel.len() > 0 && {
                let p = lowercase(rel);
                let e = lowercase(crate::text::after_last(p, '.'));
                &&& (g.extension matches Some(x) ==> ends(p, seq!['.'] + lowercase(x)))
                &&& (g.language matches Some(l) ==> (super::grammar::spec_lang_exts(l) matches Some(exts)
                    ==> exts.contains(e)))
                &&& (g.negated_language matches Some(l) ==> (super::grammar::spec_lang_exts(l) matches Some(exts)
                    ==> !exts.contains(e)))
            }
            &&& m.3 matches Some(bytes) && !spec_is_binary(bytes) && (forall|k: int|
                0 <= k < g.terms.len() ==> has_sub(
                    lowercase(spec_sanitize(bytes)),
                    lowercase(#[trigger] g.terms[k]),
                )) && (forall|k: int|
                0 <= k < g.negated.len() ==> !has_sub(lowercase(spec_sanitize(bytes)), #[trigger] g.negated[k]))
                && spec_locate_in_blob(bytes, tree_needles(g)) is Some
        }) implies exists|i: int|
            0 <= i < hits.len() && inner_path(ms[j].1->Some_0) == Some((#[trigger] hits[i]).path) by {
        let m = ms[j];
        let bytes = m.3->Some_0;
        let rel = inner_path(m.1->Some_0)->Some_0;
        assert forall|k: int| 0 <= k < needles.len() implies has_sub(
            lowercase(spec_sanitize(bytes)),
            #[trigger] needles[k],
        ) by {
            assert(needles[k] == lowercase(g.terms[k]));
        }
        assert(text_matches(g, needles, lowercase(spec_sanitize(bytes))));
        assert(member_path_kept(g, lowercase(rel)));
        assert(spec_member_hit(m, g, needles, repo, branch) is Some);
        lemma_member_hits_has(ms, g, needles, repo, branch, j);
        let h = spec_member_hit(m, g, needles, repo, branch)->Some_0;
        assert(h.path == rel);
        let i = choose|i: int| 0 <= i < all.len() && all[i] == h;
        assert(hits[i] == h);
    }
}

/// The fallback's answer for the tarball `archive` and the default
/// branch `branch`: the first `BACKEND_CAP` member hits.
pub open spec fn tarball_answers(
    archive: Seq<u8>,
    branch: Seq<char>,
    g: GrammarView,
    repo: Seq<char>,
    hits: Seq<HitView>,
) -> bool {
    hits == first_n(
        member_hits(tar_listing(gunzipped(archive)), g, tree_needles(g), repo, branch),
        BACKEND_CAP as int,
    )
}

/// The local grep fallback: download the default branch's tarball,
/// walk it, and match each file (`member_hit`) with the query's
/// lowercased terms; the hits carry the tree's branch name (empty when
/// the tree can't be read). `None` when the provider can't serve the
/// tarball or the query has no terms.
pub fn tarball_grep<P: Provider + ?Sized>(provider: &P, repo_full: &str, g: &Grammar) -> (r: Option<
    Vec<RawHit>,
>)
    ensures
        tree_needles(g@).len() == 0 ==> r is None,
        r matches Some(hits) ==> (exists|archive: Seq<u8>, branch: Seq<char>|
            #[trigger] tarball_answers(archive, branch, g@, repo_full@, hits_view(hits@))),
{
    let tarball = match provider.source_tarball(repo_full) {
        Ok(t) => t,
        Err(_) => return None,
    };
    let branch = match provider.fetch_tree(repo_full, None) {
        Ok(t) => t.branch,
        Err(_) => String::new(),
    };
    let needles = lowered(&g.terms);
    if needles.len() == 0 {
        return None;
    }
    let unpacked = gunzip(tarball.as_slice());
    let members = tar_members(unpacked.as_slice());
    let hits = grep_members(&members, g, &needles, repo_full, branch.as_str());
    assert(tarball_answers(tarball@, branch@, g@, repo_full@, hits_view(hits@)));
    let r = Some(hits);
    assert(tarball_answers(tarball@, branch@, g@, repo_full@, hits_view(r.unwrap()@)));
    r
}

} // verus!
