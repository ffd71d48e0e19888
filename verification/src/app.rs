//! Application-level rules: how provider failures read in the status
//! line, the forge chip's name, and the uniform blob-size cap.
use crate::components::browser::{ascending, contains_name, picked, sort_strings, spec_full_names, spec_selected_file, Browser};
use crate::components::browser::lenses::blame_applied;
use crate::components::preview::{BandContext, Preview};
use crate::provider::LogEntry;
use crate::config::Config;
use crate::provider::{ErrorKind, ProviderError, ProviderResult};
use crate::text::{chars_of, str_is, decimal, decimal_chars, eq_chars, find_char, first_index_of, push_char, push_str, slice_chars, starts_with, string_of, views};
use vstd::prelude::*;

verus! {

/// The status line for a throttled request that names its delay.
pub open spec fn throttled_retry_text(secs: u64) -> Seq<char> {
    "provider throttled — retry in "@ + decimal(secs as nat) + "s"@
}

/// The status line for each provider failure: auth failures say how to
/// fix them, throttling says when to retry, anything else is the
/// provider's own message.
pub fn provider_status(error: &ProviderError) -> (r: String)
    ensures
        error.kind == ErrorKind::Auth ==> r@ == "auth failed: "@ + error.message@
            + " — refresh provider credentials"@,
        error.kind == ErrorKind::RateLimited && error.retry_after is Some ==> r@ == throttled_retry_text(
            error.retry_after->Some_0,
        ),
        error.kind == ErrorKind::RateLimited && error.retry_after is None ==> r@
            == "provider throttled: "@ + error.message@,
        error.kind != ErrorKind::Auth && error.kind != ErrorKind::RateLimited ==> r@
            == error.message@,
{
    match error.kind {
        ErrorKind::Auth => {
            let mut s = "auth failed: ".to_owned();
            push_str(&mut s, error.message.as_str());
            push_str(&mut s, " — refresh provider credentials");
            s
        },
        ErrorKind::RateLimited => match &error.retry_after {
            Some(d) => {
                let secs = *d;
                let mut s = "provider throttled — retry in ".to_owned();
                let digits = string_of(decimal_chars(secs).as_slice());
                push_str(&mut s, digits.as_str());
                push_str(&mut s, "s");
                assert(s@ == throttled_retry_text(secs));
                s
            },
            None => {
                let mut s = "provider throttled: ".to_owned();
                push_str(&mut s, error.message.as_str());
                s
            },
        },
        _ => error.message.clone(),
    }
}

/// `s` with every leading copy of `p` removed (`trim_start_matches`).
pub open spec fn trim_start_all(s: Seq<char>, p: Seq<char>) -> Seq<char>
    decreases s.len(),
{
    if p.len() > 0 && p.len() <= s.len() && s.take(p.len() as int) == p {
        trim_start_all(s.skip(p.len() as int), p)
    } else {
        s
    }
}

fn trim_start_matches(s: &[char], p: &[char]) -> (r: Vec<char>)
    ensures
        r@ == trim_start_all(s@, p@),
{
    let mut i: usize = 0;
    if p.len() == 0 {
        return crate::text::slice_chars(s, 0, s.len());
    }
    assert(s@.skip(0) =~= s@);
    while i <= s.len() && p.len() <= s.len() - i && crate::text::matches_at(s, p, i)
        invariant
            i <= s@.len(),
            p@.len() > 0,
            trim_start_all(s@.skip(i as int), p@) == trim_start_all(s@, p@),
        decreases s@.len() - i,
    {
        proof {
            assert(s@.skip(i as int).take(p@.len() as int) =~= s@.subrange(i as int, i + p@.len()));
            assert(s@.skip(i as int).skip(p@.len() as int) =~= s@.skip(i + p@.len()));
        }
        i += p.len();
    }
    proof {
        if p@.len() <= s@.len() - i {
            assert(s@.skip(i as int).take(p@.len() as int) =~= s@.subrange(i as int, i + p@.len()));
        }
    }
    let r = crate::text::slice_chars(s, i, s.len());
    assert(r@ =~= s@.skip(i as int));
    r
}

/// Forge chip text for the modeline: the configured `[provider] name`
/// when set, else the provider's self-reported name with any `stdio:`
/// prefixes trimmed.
pub fn forge_name(config: &Config, provider_name: &str) -> (r: String)
    ensures
        match config.provider.name {
            Some(n) => r@ == n@,
            None => r@ == trim_start_all(provider_name@, "stdio:"@),
        },
{
    match &config.provider.name {
        Some(n) => n.clone(),
        None => {
            let s = chars_of(provider_name);
            let p = chars_of("stdio:");
            string_of(trim_start_matches(s.as_slice(), p.as_slice()).as_slice())
        },
    }
}

/// The largest blob the app accepts from any provider (1 MiB).
pub const BLOB_CAP: usize = 1048576;

/// The refusal for an oversized blob.
pub open spec fn over_cap_message(sha: Seq<char>, len: nat) -> Seq<char> {
    "blob "@ + sha + " is "@ + decimal(len / 1024) + " KiB — over the 1 MiB preview cap"@
}

/// The uniform blob cap at the provider boundary: a fetched blob over
/// 1 MiB becomes a `Provider` error naming its size in KiB; fetch
/// errors and blobs within the cap pass through.
pub fn fetch_blob_capped(fetched: ProviderResult<Vec<u8>>, sha: &str) -> (r: ProviderResult<Vec<u8>>)
    ensures
        match fetched {
            Err(e) => r matches Err(e2) && e2.kind == e.kind && e2.message@ == e.message@,
            Ok(bytes) => if bytes@.len() > BLOB_CAP {
                r matches Err(e) && e.kind == ErrorKind::Provider && e.message@ == over_cap_message(
                    sha@,
                    bytes@.len(),
                )
            } else {
                r == Ok::<Vec<u8>, ProviderError>(bytes)
            },
        },
{
    let bytes = match fetched {
        Ok(b) => b,
        Err(e) => return Err(e),
    };
    if bytes.len() > BLOB_CAP {
        let mut msg = "blob ".to_owned();
        push_str(&mut msg, sha);
        push_str(&mut msg, " is ");
        let kib = string_of(decimal_chars((bytes.len() / 1024) as u64).as_slice());
        push_str(&mut msg, kib.as_str());
        push_str(&mut msg, " KiB — over the 1 MiB preview cap");
        return Err(ProviderError::new(ErrorKind::Provider, msg.as_str()));
    }
    Ok(bytes)
}

/// A mark cut at its first `/`: (column title, name), or ("", mark)
/// when it has none.
pub open spec fn split_mark(m: Seq<char>) -> (Seq<char>, Seq<char>) {
    match first_index_of(m, '/') {
        Some(i) => (m.take(i), m.skip(i + 1)),
        None => (seq![], m),
    }
}

/// `x` added at the end unless already there.
pub open spec fn add_new(s: Seq<Seq<char>>, x: Seq<char>) -> Seq<Seq<char>> {
    if s.contains(x) {
        s
    } else {
        s.push(x)
    }
}

/// Each of `xs` added in turn, unless already there.
pub open spec fn add_all(s: Seq<Seq<char>>, xs: Seq<Seq<char>>) -> Seq<Seq<char>>
    decreases xs.len(),
{
    if xs.len() == 0 {
        s
    } else {
        add_new(add_all(s, xs.drop_last()), xs.last())
    }
}

/// What the marks ask to clone, in mark order: org marks name orgs to
/// expand; a repo mark under the selected org is taken as it stands;
/// any other mark (a dir or file) folds up to the open repo.
pub open spec fn from_marks(marks: Seq<Seq<char>>, org: Option<Seq<char>>, open_repo: Option<Seq<char>>) -> (
    Seq<Seq<char>>,
    Seq<Seq<char>>,
)
    decreases marks.len(),
{
    if marks.len() == 0 {
        (seq![], seq![])
    } else {
        let prev = from_marks(marks.drop_last(), org, open_repo);
        let m = marks.last();
        let title = split_mark(m).0;
        let name = split_mark(m).1;
        if title == seq!['o', 'r', 'g', 's'] {
            (prev.0, prev.1.push(name))
        } else if org == Some(title) {
            (add_new(prev.0, m), prev.1)
        } else {
            match open_repo {
                Some(full) => (add_new(prev.0, full), prev.1),
                None => prev,
            }
        }
    }
}

/// Runs of equal neighbours cut to one.
pub open spec fn dedup(s: Seq<Seq<char>>) -> Seq<Seq<char>>
    decreases s.len(),
{
    if s.len() == 0 {
        s
    } else {
        let d = dedup(s.drop_last());
        if d.len() > 0 && d.last() == s.last() {
            d
        } else {
            d.push(s.last())
        }
    }
}

/// The open repo as `owner/repo`, when a tree is loaded.
pub open spec fn open_repo(b: Browser) -> Option<Seq<char>> {
    match b.tree {
        Some(t) => if b.levels@.len() > 1 {
            Some(b.levels@[1].title@ + seq!['/'] + t.name@)
        } else {
            None
        },
        None => None,
    }
}

/// The clone candidates: (repos to clone now, orgs whose repos are
/// all to be listed first), each sorted without repeats. With no marks,
/// every repo of the repos column.
pub open spec fn spec_clone_candidates(b: Browser) -> (Seq<Seq<char>>, Seq<Seq<char>>) {
    let marks = ascending(views(b.marks@));
    let org = match picked(b.levels@[0]) {
        Some(e) => Some(e.name@),
        None => None,
    };
    let found = if marks.len() > 0 {
        from_marks(marks, org, open_repo(b))
    } else {
        (add_all(seq![], spec_full_names(b)), seq![])
    };
    (dedup(ascending(found.0)), dedup(ascending(found.1)))
}

/// `v` with runs of equal neighbours cut to one.
fn dedup_strings(v: Vec<String>) -> (r: Vec<String>)
    ensures
        views(r@) == dedup(views(v@)),
{
    let mut r: Vec<String> = Vec::new();
    let mut i: usize = 0;
    while i < v.len()
        invariant
            i <= v@.len(),
            views(r@) == dedup(views(v@).take(i as int)),
        decreases v.len() - i,
    {
        assert(views(v@).take(i + 1).drop_last() =~= views(v@).take(i as int));
        assert(views(v@).take(i + 1).last() == v@[i as int]@);
        let same = r.len() > 0 && eq_chars(
            chars_of(r[r.len() - 1].as_str()).as_slice(),
            chars_of(v[i].as_str()).as_slice(),
        );
        if !same {
            let ghost before = views(r@);
            r.push(v[i].clone());
            assert(views(r@) =~= before.push(v@[i as int]@));
        }
        i += 1;
    }
    assert(views(v@).take(v@.len() as int) =~= views(v@));
    r
}

/// Add `x` unless already there.
fn push_new(v: &mut Vec<String>, x: String)
    ensures
        views(final(v)@) == add_new(views(old(v)@), x@),
{
    if !contains_name(v, x.as_str()) {
        let ghost before = views(v@);
        v.push(x);
        assert(views(v@) =~= before.push(x@));
    }
}

/// What a clone of the marks (or, without marks, of the whole repos
/// column) covers: repos to clone now and orgs to expand first.
pub fn clone_candidates(browser: &Browser) -> (r: (Vec<String>, Vec<String>))
    requires
        browser.wf(),
    ensures
        views(r.0@) == spec_clone_candidates(*browser).0,
        views(r.1@) == spec_clone_candidates(*browser).1,
{
    let mut repos: Vec<String> = Vec::new();
    let mut orgs: Vec<String> = Vec::new();
    let marks = browser.visual_marks();
    let org = browser.selected_org();
    let ghost org_v: Option<Seq<char>> = match picked(browser.levels@[0]) {
        Some(e) => Some(e.name@),
        None => None,
    };
    let ghost full_v = open_repo(*browser);
    let orgs_title = chars_of("orgs");
    proof {
        reveal_strlit("orgs");
        assert(orgs_title@ =~= seq!['o', 'r', 'g', 's']);
    }
    if marks.len() > 0 {
        let mut i: usize = 0;
        while i < marks.len()
            invariant
                i <= marks@.len(),
                orgs_title@ == seq!['o', 'r', 'g', 's'],
                org_v == match org {
                    Some(o) => Some(o@),
                    None => None,
                },
                full_v == open_repo(*browser),
                browser.wf(),
                (views(repos@), views(orgs@)) == from_marks(views(marks@).take(i as int), org_v, full_v),
            decreases marks.len() - i,
        {
            assert(views(marks@).take(i + 1).drop_last() =~= views(marks@).take(i as int));
            assert(views(marks@).take(i + 1).last() == marks@[i as int]@);
            let ghost prev = from_marks(views(marks@).take(i as int), org_v, full_v);
            let ghost now = from_marks(views(marks@).take(i + 1), org_v, full_v);
            let m = chars_of(marks[i].as_str());
            let n = m.len();
            let (title, name) = match find_char(m.as_slice(), '/') {
                Some(k) => (slice_chars(m.as_slice(), 0, k), slice_chars(m.as_slice(), k + 1, n)),
                None => (Vec::new(), m.clone()),
            };
            assert(title@ == split_mark(m@).0 && name@ == split_mark(m@).1) by {
                if let Some(k) = first_index_of(m@, '/') {
                    assert(title@ =~= m@.take(k));
                    assert(name@ =~= m@.skip(k + 1));
                } else {
                    assert(title@ =~= Seq::<char>::empty());
                }
            }
            assert(now == ({
                let t = split_mark(m@).0;
                if t == seq!['o', 'r', 'g', 's'] {
                    (prev.0, prev.1.push(split_mark(m@).1))
                } else if org_v == Some(t) {
                    (add_new(prev.0, m@), prev.1)
                } else {
                    match full_v {
                        Some(full) => (add_new(prev.0, full), prev.1),
                        None => prev,
                    }
                }
            }));
            if eq_chars(title.as_slice(), orgs_title.as_slice()) {
                let ghost before = views(orgs@);
                orgs.push(string_of(name.as_slice()));
                assert(views(orgs@) =~= before.push(name@));
            } else {
                let under_org = match &org {
                    Some(o) => eq_chars(title.as_slice(), chars_of(o.as_str()).as_slice()),
                    None => false,
                };
                if under_org {
                    push_new(&mut repos, marks[i].clone());
                } else {
                    match browser.repo_coords() {
                        Some((owner, repo)) => {
                            let mut full = owner;
                            push_char(&mut full, '/');
                            push_str(&mut full, repo.as_str());
                            assert(full_v == Some(full@));
                            push_new(&mut repos, full);
                        },
                        None => {},
                    }
                }
            }
            i += 1;
        }
        assert(views(marks@).take(marks@.len() as int) =~= views(marks@));
    } else {
        let names = browser.org_repo_full_names();
        let mut i: usize = 0;
        assert(views(repos@) =~= add_all(seq![], views(names@).take(0)));
        while i < names.len()
            invariant
                i <= names@.len(),
                views(repos@) == add_all(seq![], views(names@).take(i as int)),
            decreases names.len() - i,
        {
            assert(views(names@).take(i + 1).drop_last() =~= views(names@).take(i as int));
            assert(views(names@).take(i + 1).last() == names@[i as int]@);
            push_new(&mut repos, names[i].clone());
            i += 1;
        }
        assert(views(names@).take(names@.len() as int) =~= views(names@));
        assert(views(orgs@) =~= Seq::<Seq<char>>::empty());
    }
    let repos = dedup_strings(sort_strings(&repos));
    let orgs = dedup_strings(sort_strings(&orgs));
    (repos, orgs)
}

/// A remembered last commit of a file: (repo, path, ref) and the commit.
pub struct LastCommit {
    pub repo: String,
    pub path: String,
    pub ref_name: String,
    pub commit: LogEntry,
}

/// The first remembered commit under (repo, path, ref).
pub open spec fn memo_hit(memo: Seq<LastCommit>, repo: Seq<char>, path: Seq<char>, ref_name: Seq<char>) -> Option<
    LogEntry,
>
    decreases memo.len(),
{
    if memo.len() == 0 {
        None
    } else if memo[0].repo@ == repo && memo[0].path@ == path && memo[0].ref_name@ == ref_name {
        Some(memo[0].commit)
    } else {
        memo_hit(memo.skip(1), repo, path, ref_name)
    }
}

/// The header band's last-commit context for the file under preview:
/// nothing without a log-capable provider or while a file is shown at
/// a commit, or without an open repo and a file; else the remembered
/// commit dresses the band at once, and a miss asks for a fetch of
/// (repo, path, ref) — returned.
pub fn band_apply_or_fetch(browser: &mut Browser, log_capable: bool, memo: &Vec<LastCommit>) -> (r: Option<
    (String, String, String),
>)
    requires
        old(browser).wf(),
    ensures
        ({
            let b = *old(browser);
            let ref_name = match b.current_ref {
                Some(c) => c@,
                None => seq![],
            };
            if !log_capable || b.at_commit is Some || open_repo(b) is None || spec_selected_file(b) is None {
                r is None && *final(browser) == b
            } else {
                let repo = open_repo(b)->Some_0;
                let path = spec_selected_file(b)->Some_0.0;
                match memo_hit(memo@, repo, path, ref_name) {
                    Some(c) => {
                        &&& r is None
                        &&& *final(browser) == (Browser { preview: final(browser).preview, ..b })
                        &&& final(browser).preview == (Preview {
                            band_path: final(browser).preview.band_path,
                            band_context: final(browser).preview.band_context,
                            ..b.preview
                        })
                        &&& final(browser).preview.band_path matches Some(p) && p@ == path
                        &&& final(browser).preview.band_context matches Some(ctx) && ctx.sha == c.sha && ctx.subject
                            == c.subject && ctx.author == c.author && ctx.date == c.date
                    },
                    None => {
                        &&& *final(browser) == b
                        &&& r matches Some((rr, pp, ff)) && rr@ == repo && pp@ == path && ff@ == ref_name
                    },
                }
            }
        }),
{
    if !log_capable || browser.at_commit_view() {
        return None;
    }
    let (owner, name) = match browser.repo_coords() {
        Some(c) => c,
        None => return None,
    };
    let path = match browser.selected_file() {
        Some((p, _)) => p,
        None => return None,
    };
    let ref_name = match browser.current_ref() {
        Some(c) => c.to_string(),
        None => String::new(),
    };
    let mut repo = owner;
    push_char(&mut repo, '/');
    push_str(&mut repo, name.as_str());
    let ghost b = *old(browser);
    assert(repo@ == open_repo(b)->Some_0);
    assert(path@ == spec_selected_file(b)->Some_0.0);
    assert(ref_name@ == match b.current_ref {
        Some(c) => c@,
        None => seq![],
    });
    let mut i: usize = 0;
    assert(memo@.skip(0) =~= memo@);
    while i < memo.len()
        invariant
            i <= memo@.len(),
            *browser == b,
            b == *old(browser),
            log_capable,
            b.at_commit is None,
            open_repo(b) is Some,
            spec_selected_file(b) is Some,
            repo@ == open_repo(b)->Some_0,
            path@ == spec_selected_file(b)->Some_0.0,
            ref_name@ == match b.current_ref {
                Some(c) => c@,
                None => seq![],
            },
            memo_hit(memo@, repo@, path@, ref_name@) == memo_hit(memo@.skip(i as int), repo@, path@, ref_name@),
        decreases memo.len() - i,
    {
        assert(memo@.skip(i as int)[0] == memo@[i as int]);
        let m = &memo[i];
        if str_is(m.repo.as_str(), repo.as_str()) && str_is(m.path.as_str(), path.as_str()) && str_is(
            m.ref_name.as_str(),
            ref_name.as_str(),
        ) {
            let c = &m.commit;
            let ctx = BandContext {
                sha: c.sha.clone(),
                subject: c.subject.clone(),
                author: c.author.clone(),
                date: c.date.clone(),
            };
            browser.preview.set_band(Some(path), Some(ctx));
            return None;
        }
        assert(memo@.skip(i as int).skip(1) =~= memo@.skip(i + 1));
        i += 1;
    }
    Some((repo, path, ref_name))
}

/// The log fetch the open history lens needs: (repo, path, ref), when
/// a repo is open and the lens is on a file.
pub fn history_fetch(browser: &Browser) -> (r: Option<(String, String, Option<String>)>)
    requires
        browser.wf(),
    ensures
        match (open_repo(*browser), browser.history) {
            (Some(repo), Some(h)) => r matches Some((rr, p, f)) && rr@ == repo && p@ == h@.path && f == browser.current_ref,
            _ => r is None,
        },
{
    let (owner, name) = match browser.repo_coords() {
        Some(c) => c,
        None => return None,
    };
    let path = match browser.history_path() {
        Some(p) => p.to_string(),
        None => return None,
    };
    let mut repo = owner;
    push_char(&mut repo, '/');
    push_str(&mut repo, name.as_str());
    let ref_name = match &browser.current_ref {
        Some(c) => Some(c.clone()),
        None => None,
    };
    Some((repo, path, ref_name))
}

/// What the blame toggle came to.
pub enum BlameStep {
    /// The lens was on and is now off.
    Cleared,
    /// The provider has no blame.
    Unsupported,
    /// The preview shows no text to blame.
    NotText,
    /// The lens waits for these ranges: fetch (repo, path, ref).
    Fetch { repo: String, path: String, ref_name: Option<String> },
    /// The lens is on with what it had (loaded ranges applied), or
    /// there was nothing to fetch.
    Idle,
}

/// The status line a blame step shows, if any.
pub open spec fn spec_blame_status(step: BlameStep) -> Option<Seq<char>> {
    match step {
        BlameStep::Unsupported => Some("provider has no blame"@),
        BlameStep::NotText => Some("blame: preview is not a text file"@),
        BlameStep::Fetch { .. } => Some("blame…"@),
        _ => None,
    }
}

/// The status line a blame step shows, if any.
pub fn blame_status(step: &BlameStep) -> (r: Option<String>)
    ensures
        match spec_blame_status(*step) {
            Some(t) => r matches Some(s) && s@ == t,
            None => r is None,
        },
{
    match step {
        BlameStep::Unsupported => Some(String::from_str("provider has no blame")),
        BlameStep::NotText => Some(String::from_str("blame: preview is not a text file")),
        BlameStep::Fetch { .. } => Some(String::from_str("blame…")),
        _ => None,
    }
}

/// `f` is `b` after the blame toggle, which came to `r`: on → off;
/// off → on when the provider blames and text is shown, applying
/// loaded ranges at once or asking for them.
pub open spec fn blame_toggled(b: Browser, f: Browser, blame_capable: bool, r: BlameStep) -> bool {
    if b.preview.blame is Some {
        r is Cleared && f == (Browser { blame: None, preview: Preview { blame: None, ..b.preview }, ..b })
    } else if !blame_capable {
        r is Unsupported && f == b
    } else if b.preview.line_count == 0 {
        r is NotText && f == b
    } else if b.blame matches Some(bs) && !bs.loading {
        r is Idle && blame_applied(b, f)
    } else if b.blame is None && spec_selected_file(b) is Some && open_repo(b) is Some {
        let path = spec_selected_file(b)->Some_0.0;
        &&& r matches BlameStep::Fetch { repo, path: p, ref_name } && repo@ == open_repo(b)->Some_0 && p@ == path
            && ref_name == b.current_ref
        &&& f == (Browser { blame: f.blame, ..b })
        &&& f.blame matches Some(x) && x.path@ == path && x.ranges@.len() == 0 && x.loading
    } else {
        r is Idle && f == b
    }
}

/// The blame toggle over the browser's preview: on → off; off → on
/// when the provider blames and text is shown, applying loaded ranges
/// at once or asking for them (the lens then waits for them).
pub fn blame_toggle(browser: &mut Browser, blame_capable: bool) -> (r: BlameStep)
    requires
        old(browser).wf(),
    ensures
        final(browser).wf(),
        blame_toggled(*old(browser), *final(browser), blame_capable, r),
{
    if browser.preview.blaming() {
        browser.clear_blame();
        return BlameStep::Cleared;
    }
    if !blame_capable {
        return BlameStep::Unsupported;
    }
    if !browser.blame_toggle_on() {
        return BlameStep::NotText;
    }
    let path = match browser.blame_needed_for() {
        Some(p) => p,
        None => return BlameStep::Idle,
    };
    let (owner, name) = match browser.repo_coords() {
        Some(c) => c,
        None => return BlameStep::Idle,
    };
    let ghost before = *browser;
    browser.blame_mark_loading(path.clone());
    let mut repo = owner;
    push_char(&mut repo, '/');
    push_str(&mut repo, name.as_str());
    assert(repo@ =~= open_repo(before)->Some_0);
    let ref_name = match &browser.current_ref {
        Some(c) => Some(c.clone()),
        None => None,
    };
    BlameStep::Fetch { repo, path, ref_name }
}

} // verus!
