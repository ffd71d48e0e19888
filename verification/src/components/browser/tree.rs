//! Repo tree queries: a fetched recursive tree reduced to the
//! miller-column questions the browser asks — "what are this path's
//! direct children?" and "where is this path's node?".
use crate::components::pane::{Entry, EntryKind};
use crate::provider::TreeNode;
use crate::sanitize::spec_sanitize_inline;
use crate::text::{chars_of, eq_chars, find_char, slice_chars, starts, starts_with, string_of};
use vstd::prelude::*;

verus! {

/// `a` sorts strictly before `b`: lexicographic by code point (the
/// order of `String`'s `Ord`, which compares UTF-8 bytes).
pub open spec fn name_lt(a: Seq<char>, b: Seq<char>) -> bool
    decreases a.len(),
{
    if b.len() == 0 {
        false
    } else if a.len() == 0 {
        true
    } else if a[0] != b[0] {
        (a[0] as u32) < (b[0] as u32)
    } else {
        name_lt(a.skip(1), b.skip(1))
    }
}

/// Does `a` sort strictly before `b`?
pub fn name_less(a: &[char], b: &[char]) -> (r: bool)
    ensures
        r == name_lt(a@, b@),
{
    let mut i: usize = 0;
    assert(a@.skip(0) =~= a@);
    assert(b@.skip(0) =~= b@);
    while i < a.len() && i < b.len() && a[i] == b[i]
        invariant
            i <= a@.len(),
            i <= b@.len(),
            name_lt(a@, b@) == name_lt(a@.skip(i as int), b@.skip(i as int)),
        decreases a.len() - i,
    {
        assert(a@.skip(i as int).skip(1) =~= a@.skip(i + 1));
        assert(b@.skip(i as int).skip(1) =~= b@.skip(i + 1));
        assert(a@.skip(i as int)[0] == a@[i as int]);
        assert(b@.skip(i as int)[0] == b@[i as int]);
        i += 1;
    }
    if i == b.len() {
        assert(b@.skip(i as int).len() == 0);
        false
    } else if i == a.len() {
        assert(a@.skip(i as int).len() == 0);
        true
    } else {
        assert(a@.skip(i as int)[0] == a@[i as int]);
        assert(b@.skip(i as int)[0] == b@[i as int]);
        (a[i] as u32) < (b[i] as u32)
    }
}

/// An entry as (name, kind).
pub open spec fn entry_view(e: Entry) -> (Seq<char>, EntryKind) {
    (e.name@, e.kind)
}

pub open spec fn entries_view(v: Seq<Entry>) -> Seq<(Seq<char>, EntryKind)> {
    v.map_values(|e: Entry| entry_view(e))
}

/// Where `x` goes in a name-sorted list: before the first name that
/// sorts after it (after every equal one).
pub open spec fn name_pos_of<T>(s: Seq<(Seq<char>, T)>, x: Seq<char>) -> int
    decreases s.len(),
{
    if s.len() == 0 {
        0
    } else if name_lt(x, s[0].0) {
        0
    } else {
        1 + name_pos_of(s.skip(1), x)
    }
}

/// The entries sorted by name; equal names keep their order.
pub open spec fn by_name<T>(s: Seq<(Seq<char>, T)>) -> Seq<(Seq<char>, T)>
    decreases s.len(),
{
    if s.len() == 0 {
        s
    } else {
        let t = by_name(s.drop_last());
        let p = name_pos_of(t, s.last().0);
        t.take(p) + seq![s.last()] + t.skip(p)
    }
}

/// The direct child name of `path` under `prefix` (`""` = root, else
/// the directory path plus `/`): what follows the prefix, when that is
/// one non-empty path segment.
pub open spec fn child_name(path: Seq<char>, prefix: Seq<char>) -> Option<Seq<char>> {
    if starts(path, prefix) {
        let rest = path.skip(prefix.len() as int);
        if rest.len() == 0 || rest.contains('/') {
            None
        } else {
            Some(rest)
        }
    } else {
        None
    }
}

/// The listing prefix of a directory path.
pub open spec fn dir_prefix(path: Seq<char>) -> Seq<char> {
    if path.len() == 0 {
        seq![]
    } else {
        path.push('/')
    }
}

/// The direct children of `prefix` that are directories (`dirs`) or
/// files (`!dirs`), as entries, in tree order.
pub open spec fn child_entries(nodes: Seq<TreeNode>, prefix: Seq<char>, dirs: bool) -> Seq<
    (Seq<char>, EntryKind),
>
    decreases nodes.len(),
{
    if nodes.len() == 0 {
        seq![]
    } else {
        let prev = child_entries(nodes.drop_last(), prefix, dirs);
        let n = nodes.last();
        match child_name(n.path@, prefix) {
            Some(name) => if n.is_dir == dirs {
                prev.push(
                    (
                        spec_sanitize_inline(name),
                        if dirs {
                            EntryKind::Dir
                        } else {
                            EntryKind::File
                        },
                    ),
                )
            } else {
                prev
            },
            None => prev,
        }
    }
}

/// The listing of a directory: its subdirectories by name, then its
/// files by name.
pub open spec fn spec_children(nodes: Seq<TreeNode>, path: Seq<char>) -> Seq<(Seq<char>, EntryKind)> {
    by_name(child_entries(nodes, dir_prefix(path), true)) + by_name(
        child_entries(nodes, dir_prefix(path), false),
    )
}

/// The first node whose path is exactly `path`.
pub open spec fn node_at(nodes: Seq<TreeNode>, path: Seq<char>) -> Option<TreeNode>
    decreases nodes.len(),
{
    if nodes.len() == 0 {
        None
    } else if nodes[0].path@ == path {
        Some(nodes[0])
    } else {
        node_at(nodes.skip(1), path)
    }
}

/// The names are in order.
pub open spec fn names_sorted(s: Seq<(Seq<char>, EntryKind)>) -> bool {
    forall|i: int, j: int| 0 <= i < j < s.len() ==> !name_lt(s[j].0, s[i].0)
}

/// A repo's full recursive tree, paths relative to the repo root.
pub struct RepoTree {
    pub owner: String,
    pub name: String,
    pub truncated: bool,
    /// Default branch (yank URLs, blob links).
    pub branch: String,
    pub entries: Vec<TreeNode>,
}

/// Insert `e` at its by-name place.
fn insert_by_name(v: &mut Vec<Entry>, e: Entry)
    ensures
        entries_view(final(v)@) == ({
            let s = entries_view(old(v)@);
            let p = name_pos_of(s, e.name@);
            s.take(p) + seq![entry_view(e)] + s.skip(p)
        }),
{
    let ghost s = entries_view(v@);
    let name = chars_of(e.name.as_str());
    let mut p: usize = 0;
    assert(s.skip(0) =~= s);
    while p < v.len() && !name_less(name.as_slice(), chars_of(v[p].name.as_str()).as_slice())
        invariant
            p <= v@.len(),
            s == entries_view(v@),
            name@ == e.name@,
            name_pos_of(s, e.name@) == p + name_pos_of(s.skip(p as int), e.name@),
        decreases v.len() - p,
    {
        assert(s.skip(p as int).skip(1) =~= s.skip(p + 1));
        assert(s.skip(p as int)[0] == s[p as int]);
        p += 1;
    }
    proof {
        if p < v@.len() {
            assert(s.skip(p as int)[0] == s[p as int]);
        }
    }
    v.insert(p, e);
    assert(entries_view(v@) =~= s.take(p as int) + seq![entry_view(e)] + s.skip(p as int));
}

fn sort_by_name(items: Vec<Entry>) -> (r: Vec<Entry>)
    ensures
        entries_view(r@) == by_name(entries_view(items@)),
{
    let ghost s = entries_view(items@);
    let mut out: Vec<Entry> = Vec::new();
    let mut rest = items;
    let mut taken: usize = 0;
    let total = rest.len();
    while rest.len() > 0
        invariant
            taken + rest@.len() == total,
            total == s.len(),
            entries_view(rest@) == s.skip(taken as int),
            entries_view(out@) == by_name(s.take(taken as int)),
        decreases rest.len(),
    {
        let ghost old_rest = rest@;
        let e = rest.remove(0);
        assert(entry_view(e) == s[taken as int]) by {
            assert(entries_view(old_rest)[0] == s.skip(taken as int)[0]);
        }
        assert(s.take(taken + 1).drop_last() =~= s.take(taken as int));
        assert(s.take(taken + 1).last() == s[taken as int]);
        insert_by_name(&mut out, e);
        taken += 1;
        assert(rest@ =~= old_rest.skip(1));
        assert(entries_view(old_rest).skip(1) =~= s.skip(taken as int));
        assert(entries_view(rest@) =~= entries_view(old_rest).skip(1));
    }
    assert(s.take(total as int) =~= s);
    out
}

impl RepoTree {
    pub fn new(owner: String, name: String, truncated: bool, branch: String, entries: Vec<TreeNode>) -> (r:
        Self)
        ensures
            r.owner == owner,
            r.name == name,
            r.truncated == truncated,
            r.branch == branch,
            r.entries@ == entries@,
    {
        RepoTree { owner, name, truncated, branch, entries }
    }

    /// Direct children of `path` (`""` = root): directories first, then
    /// files, alphabetical within each group.
    pub fn children(&self, path: &str) -> (r: Vec<Entry>)
        ensures
            entries_view(r@) == spec_children(self.entries@, path@),
    {
        let p = chars_of(path);
        let mut prefix = p.clone();
        if p.len() > 0 {
            prefix.push('/');
        }
        assert(prefix@ == dir_prefix(path@));
        let mut dirs: Vec<Entry> = Vec::new();
        let mut files: Vec<Entry> = Vec::new();
        let mut i: usize = 0;
        while i < self.entries.len()
            invariant
                i <= self.entries@.len(),
                prefix@ == dir_prefix(path@),
                entries_view(dirs@) == child_entries(self.entries@.take(i as int), prefix@, true),
                entries_view(files@) == child_entries(self.entries@.take(i as int), prefix@, false),
            decreases self.entries.len() - i,
        {
            let node = &self.entries[i];
            let ghost pre = self.entries@.take(i as int);
            assert(self.entries@.take(i + 1).drop_last() =~= pre);
            assert(self.entries@.take(i + 1).last() == *node);
            if let Some(rest) = direct_child(node.path.as_str(), prefix.as_slice()) {
                if node.is_dir {
                    let ghost before = dirs@;
                    dirs.push(Entry::new(rest.as_str(), EntryKind::Dir));
                    assert(entries_view(dirs@) =~= entries_view(before).push(
                        (spec_sanitize_inline(rest@), EntryKind::Dir),
                    ));
                } else {
                    let ghost before = files@;
                    files.push(Entry::new(rest.as_str(), EntryKind::File));
                    assert(entries_view(files@) =~= entries_view(before).push(
                        (spec_sanitize_inline(rest@), EntryKind::File),
                    ));
                }
            }
            i += 1;
        }
        assert(self.entries@.take(self.entries@.len() as int) =~= self.entries@);
        let mut dirs = sort_by_name(dirs);
        let files = sort_by_name(files);
        let ghost d = dirs@;
        let mut j: usize = 0;
        let mut files = files;
        let ghost f = files@;
        let nf = files.len();
        while files.len() > 0
            invariant
                j + files@.len() == f.len(),
                nf == f.len(),
                files@ == f.skip(j as int),
                dirs@ == d + f.take(j as int),
            decreases files.len(),
        {
            let ghost old_files = files@;
            let e = files.remove(0);
            assert(e == f[j as int]) by {
                assert(old_files[0] == f.skip(j as int)[0]);
            }
            dirs.push(e);
            j += 1;
            assert(files@ =~= old_files.skip(1));
            assert(files@ =~= f.skip(j as int));
            assert(dirs@ =~= d + f.take(j as int));
        }
        assert(f.take(f.len() as int) =~= f);
        assert(entries_view(dirs@) =~= entries_view(d) + entries_view(f));
        dirs
    }

    /// The node at exactly `path`, if the tree has one (the first, in
    /// tree order).
    pub fn find(&self, path: &str) -> (r: Option<&TreeNode>)
        ensures
            match r {
                Some(n) => node_at(self.entries@, path@) == Some(*n),
                None => node_at(self.entries@, path@) is None,
            },
    {
        let want = chars_of(path);
        let mut i: usize = 0;
        assert(self.entries@.skip(0) =~= self.entries@);
        while i < self.entries.len()
            invariant
                i <= self.entries@.len(),
                want@ == path@,
                node_at(self.entries@, path@) == node_at(self.entries@.skip(i as int), path@),
            decreases self.entries.len() - i,
        {
            let cand = chars_of(self.entries[i].path.as_str());
            assert(self.entries@.skip(i as int)[0] == self.entries@[i as int]);
            if eq_chars(cand.as_slice(), want.as_slice()) {
                let n = &self.entries[i];
                return Some(n);
            }
            assert(self.entries@.skip(i as int).skip(1) =~= self.entries@.skip(i + 1));
            i += 1;
        }
        None
    }
}

/// The direct child name of `path` under `prefix`, if it is one.
fn direct_child(path: &str, prefix: &[char]) -> (r: Option<String>)
    ensures
        match r {
            Some(s) => child_name(path@, prefix@) == Some(s@),
            None => child_name(path@, prefix@) is None,
        },
{
    let p = chars_of(path);
    if !starts_with(p.as_slice(), prefix) {
        return None;
    }
    let rest = slice_chars(p.as_slice(), prefix.len(), p.len());
    assert(rest@ =~= path@.skip(prefix@.len() as int));
    if rest.len() == 0 {
        return None;
    }
    match find_char(rest.as_slice(), '/') {
        Some(k) => {
            assert(rest@[k as int] == '/');
            None
        },
        None => {
            assert(!rest@.contains('/'));
            Some(string_of(rest.as_slice()))
        },
    }
}


proof fn lemma_name_lt_irreflexive(a: Seq<char>)
    ensures
        !name_lt(a, a),
    decreases a.len(),
{
    if a.len() > 0 {
        lemma_name_lt_irreflexive(a.skip(1));
    }
}

proof fn lemma_name_lt_transitive(a: Seq<char>, b: Seq<char>, c: Seq<char>)
    requires
        name_lt(a, b),
        name_lt(b, c),
    ensures
        name_lt(a, c),
    decreases a.len(),
{
    if a.len() > 0 && a[0] == b[0] && b[0] == c[0] {
        lemma_name_lt_transitive(a.skip(1), b.skip(1), c.skip(1));
    }
}

proof fn lemma_name_pos<T>(t: Seq<(Seq<char>, T)>, x: Seq<char>)
    ensures
        0 <= name_pos_of(t, x) <= t.len(),
        forall|i: int| 0 <= i < name_pos_of(t, x) ==> !name_lt(x, #[trigger] t[i].0),
        name_pos_of(t, x) < t.len() ==> name_lt(x, t[name_pos_of(t, x)].0),
    decreases t.len(),
{
    if t.len() > 0 && !name_lt(x, t[0].0) {
        lemma_name_pos(t.skip(1), x);
        assert forall|i: int| 0 <= i < name_pos_of(t, x) implies !name_lt(x, #[trigger] t[i].0) by {
            if i > 0 {
                assert(t[i] == t.skip(1)[i - 1]);
            }
        }
    }
}


/// Sorting by name orders the names, keeps every entry's kind among
/// the kinds it was given, and keeps the count.
pub proof fn lemma_by_name_sorted(s: Seq<(Seq<char>, EntryKind)>, k: EntryKind)
    ensures
        names_sorted(by_name(s)),
        by_name(s).len() == s.len(),
        (forall|i: int| 0 <= i < s.len() ==> #[trigger] s[i].1 == k) ==> forall|i: int|
            0 <= i < by_name(s).len() ==> #[trigger] by_name(s)[i].1 == k,
    decreases s.len(),
{
    if s.len() > 0 {
        let t = by_name(s.drop_last());
        let x = s.last();
        lemma_by_name_sorted(s.drop_last(), k);
        lemma_name_pos(t, x.0);
        let p = name_pos_of(t, x.0);
        let r = by_name(s);
        assert(r == t.take(p) + seq![x] + t.skip(p));
        assert forall|i: int, j: int| 0 <= i < j < r.len() implies !name_lt(r[j].0, r[i].0) by {
            let ri = if i < p { t[i] } else if i == p { x } else { t[i - 1] };
            let rj = if j < p { t[j] } else if j == p { x } else { t[j - 1] };
            assert(r[i] == ri);
            assert(r[j] == rj);
            if i < p && j == p {
                // x is not before t[i]
            } else if i == p && j > p {
                assert(name_lt(x.0, t[p].0));
                if name_lt(t[j - 1].0, x.0) {
                    lemma_name_lt_transitive(t[j - 1].0, x.0, t[p].0);
                    if j - 1 > p {
                        assert(!name_lt(t[j - 1].0, t[p].0));
                    } else {
                        lemma_name_lt_irreflexive(t[p].0);
                    }
                }
            } else if i < p && j > p {
                assert(!name_lt(t[j - 1].0, t[i].0));
            }
        }
        if forall|i: int| 0 <= i < s.len() ==> #[trigger] s[i].1 == k {
            assert forall|i: int| 0 <= i < s.drop_last().len() implies #[trigger] s.drop_last()[i].1 == k by {
                assert(s.drop_last()[i] == s[i]);
            }
            assert forall|i: int| 0 <= i < r.len() implies #[trigger] r[i].1 == k by {
                if i < p {
                    assert(r[i] == t[i]);
                } else if i > p {
                    assert(r[i] == t[i - 1]);
                } else {
                    assert(s[s.len() - 1].1 == k);
                }
            }
        }
    }
}

proof fn lemma_child_entries_kind(nodes: Seq<TreeNode>, prefix: Seq<char>, dirs: bool)
    ensures
        forall|i: int|
            0 <= i < child_entries(nodes, prefix, dirs).len() ==> #[trigger] child_entries(
                nodes,
                prefix,
                dirs,
            )[i].1 == if dirs {
                EntryKind::Dir
            } else {
                EntryKind::File
            },
    decreases nodes.len(),
{
    if nodes.len() > 0 {
        lemma_child_entries_kind(nodes.drop_last(), prefix, dirs);
    }
}

/// A directory listing is in order: every directory comes before every
/// file, and within each group the names ascend.
pub proof fn lemma_children_ordered(nodes: Seq<TreeNode>, path: Seq<char>)
    ensures
        forall|i: int, j: int|
            0 <= i < j < spec_children(nodes, path).len() && spec_children(nodes, path)[i].1
                == EntryKind::File ==> spec_children(nodes, path)[j].1 == EntryKind::File,
        forall|i: int, j: int|
            0 <= i < j < spec_children(nodes, path).len() && spec_children(nodes, path)[i].1
                == spec_children(nodes, path)[j].1 ==> !name_lt(
                spec_children(nodes, path)[j].0,
                spec_children(nodes, path)[i].0,
            ),
{
    let pre = dir_prefix(path);
    let ds = child_entries(nodes, pre, true);
    let fs = child_entries(nodes, pre, false);
    lemma_child_entries_kind(nodes, pre, true);
    lemma_child_entries_kind(nodes, pre, false);
    lemma_by_name_sorted(ds, EntryKind::Dir);
    lemma_by_name_sorted(fs, EntryKind::File);
    let a = by_name(ds);
    let b = by_name(fs);
    let s = spec_children(nodes, path);
    assert(s == a + b);
    assert forall|i: int, j: int| 0 <= i < j < s.len() && s[i].1 == EntryKind::File implies s[j].1
        == EntryKind::File by {
        if i < a.len() {
            assert(s[i] == a[i]);
        }
        if j >= a.len() {
            assert(s[j] == b[j - a.len()]);
        } else {
            assert(s[i] == a[i]);
        }
    }
    assert forall|i: int, j: int| 0 <= i < j < s.len() && s[i].1 == s[j].1 implies !name_lt(s[j].0, s[i].0) by {
        if j < a.len() {
            assert(s[i] == a[i]);
            assert(s[j] == a[j]);
        } else if i >= a.len() {
            assert(s[i] == b[i - a.len()]);
            assert(s[j] == b[j - a.len()]);
        } else {
            assert(s[i] == a[i]);
            assert(s[j] == b[j - a.len()]);
        }
    }
}

/// Sorting by name keeps every entry, each as often as it was there.
pub proof fn lemma_by_name_keeps_entries<T>(s: Seq<(Seq<char>, T)>)
    ensures
        by_name(s).to_multiset() == s.to_multiset(),
    decreases s.len(),
{
    broadcast use vstd::seq_lib::lemma_multiset_commutative;
    broadcast use vstd::seq_lib::to_multiset_build;

    if s.len() > 0 {
        let t = by_name(s.drop_last());
        lemma_by_name_keeps_entries(s.drop_last());
        lemma_name_pos(t, s.last().0);
        let p = name_pos_of(t, s.last().0);
        assert(t =~= t.take(p) + t.skip(p));
        assert((t.take(p) + seq![s.last()]) =~= t.take(p).push(s.last()));
        assert(s =~= s.drop_last().push(s.last()));
        assert(by_name(s).to_multiset() =~= t.to_multiset().insert(s.last()));
    }
}

/// A directory's listing holds exactly its direct subdirectories and
/// its files, each once per tree node it comes from, named by what
/// follows the directory's path and kind by the node: the directories
/// first, then the files, each group by name.
pub proof fn lemma_children_are_the_direct_entries(nodes: Seq<TreeNode>, path: Seq<char>)
    ensures
        spec_children(nodes, path).to_multiset() == child_entries(nodes, dir_prefix(path), true).to_multiset().add(
            child_entries(nodes, dir_prefix(path), false).to_multiset(),
        ),
        forall|i: int, j: int|
            0 <= i < j < spec_children(nodes, path).len() && spec_children(nodes, path)[i].1 == EntryKind::File
                ==> spec_children(nodes, path)[j].1 == EntryKind::File,
{
    broadcast use vstd::seq_lib::lemma_multiset_commutative;

    lemma_by_name_keeps_entries(child_entries(nodes, dir_prefix(path), true));
    lemma_by_name_keeps_entries(child_entries(nodes, dir_prefix(path), false));
    lemma_children_ordered(nodes, path);
}

} // verus!
