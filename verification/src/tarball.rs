//! The reproducible layer tar: which entries it holds, in which order, and with
//! which headers. The same staged tree always gives the same entries, sorted by
//! path, with mtime, uid and gid zeroed and canonical modes, so it tars to the same
//! bytes. Walking the tree on disk is the caller's; writing the tar format is the
//! `tar` crate's.

use vstd::prelude::*;
use crate::image::gzip_of;
use crate::text::{less_than, lex_less, sorted_strict, str_eq, lemma_lex_total, lemma_lex_trans};

verus! {

/// What a path of the staged tree is.
#[derive(Debug, Clone, PartialEq, Eq)]
pub enum TreeKind {
    /// A regular file (its bytes, and whether any execute bit is set).
    Regular { data: Vec<u8>, executable: bool },
    Directory,
    /// A symbolic link, kept as a link (its target).
    Symlink { target: String },
}

/// One path of the staged tree, relative to its root.
#[derive(Debug, Clone, PartialEq, Eq)]
pub struct TreeEntry {
    pub path: String,
    pub kind: TreeKind,
}

/// The tar type flag of a regular file (`0`).
pub const TYPE_REGULAR: u8 = 48;

/// The tar type flag of a symbolic link (`2`).
pub const TYPE_SYMLINK: u8 = 50;

/// The tar type flag of a directory (`5`).
pub const TYPE_DIRECTORY: u8 = 53;

/// One entry of the layer tar with its header fields: the type flag, the data of a
/// regular file (empty otherwise), the target of a link, and the mode, mtime, uid
/// and gid.
#[derive(Debug, Clone, PartialEq, Eq)]
pub struct TarEntry {
    pub path: String,
    pub type_flag: u8,
    pub data: Vec<u8>,
    pub link: Option<String>,
    pub mode: u32,
    pub mtime: u64,
    pub uid: u64,
    pub gid: u64,
}

/// The mathematical content of a [`TreeKind`].
pub enum TreeKindView {
    Regular { data: Seq<u8>, executable: bool },
    Directory,
    Symlink { target: Seq<char> },
}

/// The mathematical content of a [`TreeEntry`].
pub struct TreeEntryView {
    pub path: Seq<char>,
    pub kind: TreeKindView,
}

/// The mathematical content of a [`TarEntry`].
pub struct TarEntryView {
    pub path: Seq<char>,
    pub type_flag: u8,
    pub data: Seq<u8>,
    pub link: Option<Seq<char>>,
    pub mode: u32,
    pub mtime: u64,
    pub uid: u64,
    pub gid: u64,
}

impl View for TreeEntry {
    type V = TreeEntryView;

    open spec fn view(&self) -> TreeEntryView {
        TreeEntryView {
            path: self.path@,
            kind: match self.kind {
                TreeKind::Regular { data, executable } => TreeKindView::Regular { data: data@, executable },
                TreeKind::Directory => TreeKindView::Directory,
                TreeKind::Symlink { target } => TreeKindView::Symlink { target: target@ },
            },
        }
    }
}

impl View for TarEntry {
    type V = TarEntryView;

    open spec fn view(&self) -> TarEntryView {
        TarEntryView {
            path: self.path@,
            type_flag: self.type_flag,
            data: self.data@,
            link: match self.link {
                Some(t) => Some(t@),
                None => None,
            },
            mode: self.mode,
            mtime: self.mtime,
            uid: self.uid,
            gid: self.gid,
        }
    }
}

/// The canonical mode of an entry: `0o777` for a link, `0o755` for a directory or
/// an executable file, `0o644` for any other file.
pub open spec fn spec_mode(k: TreeKindView) -> u32 {
    match k {
        TreeKindView::Symlink { .. } => 0o777,
        TreeKindView::Directory => 0o755,
        TreeKindView::Regular { executable, .. } => if executable {
            0o755
        } else {
            0o644
        },
    }
}

/// The tar entry of a tree entry: same path and content, canonical mode, and
/// mtime, uid and gid zero.
pub open spec fn spec_tar_entry(e: TreeEntryView) -> TarEntryView {
    TarEntryView {
        path: e.path,
        type_flag: match e.kind {
            TreeKindView::Regular { .. } => TYPE_REGULAR,
            TreeKindView::Directory => TYPE_DIRECTORY,
            TreeKindView::Symlink { .. } => TYPE_SYMLINK,
        },
        data: match e.kind {
            TreeKindView::Regular { data, .. } => data,
            _ => Seq::empty(),
        },
        link: match e.kind {
            TreeKindView::Symlink { target } => Some(target),
            _ => None,
        },
        mode: spec_mode(e.kind),
        mtime: 0,
        uid: 0,
        gid: 0,
    }
}

/// The paths of a list of tar entries.
pub open spec fn tar_paths(p: Seq<TarEntry>) -> Seq<Seq<char>> {
    Seq::new(p.len(), |i: int| p[i].path@)
}

/// The views of a list of tar entries.
pub open spec fn tar_views(p: Seq<TarEntry>) -> Seq<TarEntryView> {
    Seq::new(p.len(), |i: int| p[i]@)
}

/// `t` is the tar entry of some entry of `es` at index `lo` or later.
pub open spec fn comes_from(t: TarEntryView, es: Seq<TreeEntry>, lo: int) -> bool {
    exists|j: int| lo <= j < es.len() && t == spec_tar_entry(#[trigger] es[j]@)
}

/// Some entry of `p` has the path `path`.
pub open spec fn has_tar_path(p: Seq<TarEntry>, path: Seq<char>) -> bool {
    exists|i: int| 0 <= i < p.len() && #[trigger] p[i].path@ == path
}

/// `p` is the tar plan of `entries`: strictly sorted by path (a `/` sorts before
/// every other character, which is the order of path components), every entry
/// of `p` is the tar entry of an entry given, and every path given is in `p`.
pub open spec fn is_tar_plan(entries: Seq<TreeEntry>, p: Seq<TarEntry>) -> bool {
    &&& sorted_strict(tar_paths(p), true)
    &&& forall|i: int| 0 <= i < p.len() ==> comes_from(#[trigger] p[i]@, entries, 0)
    &&& forall|j: int| 0 <= j < entries.len() ==> has_tar_path(p, #[trigger] entries[j].path@)
}

fn to_tar(e: TreeEntry) -> (t: TarEntry)
    ensures
        t@ == spec_tar_entry(e@),
{
    let t = match e.kind {
        TreeKind::Regular { data, executable } => TarEntry {
            path: e.path,
            type_flag: TYPE_REGULAR,
            data,
            link: None,
            mode: if executable { 0o755 } else { 0o644 },
            mtime: 0,
            uid: 0,
            gid: 0,
        },
        TreeKind::Directory => TarEntry {
            path: e.path,
            type_flag: TYPE_DIRECTORY,
            data: Vec::new(),
            link: None,
            mode: 0o755,
            mtime: 0,
            uid: 0,
            gid: 0,
        },
        TreeKind::Symlink { target } => TarEntry {
            path: e.path,
            type_flag: TYPE_SYMLINK,
            data: Vec::new(),
            link: Some(target),
            mode: 0o777,
            mtime: 0,
            uid: 0,
            gid: 0,
        },
    };
    assert(t@.data =~= spec_tar_entry(e@).data);
    t
}

/// Inserting `x` where everything before is smaller and what follows is larger
/// keeps a sequence strictly sorted.
proof fn lemma_insert_sorted(v: Seq<Seq<char>>, k: int, x: Seq<char>)
    requires
        sorted_strict(v, true),
        0 <= k <= v.len(),
        forall|i: int| 0 <= i < k ==> lex_less(#[trigger] v[i], x, true),
        k < v.len() ==> lex_less(x, v[k], true),
    ensures
        sorted_strict(v.insert(k, x), true),
{
    let w = v.insert(k, x);
    assert forall|i: int, j: int| 0 <= i < j < w.len() implies lex_less(w[i], w[j], true) by {
        if j < k {
        } else if j == k {
            assert(w[i] == v[i]);
        } else if i < k {
            assert(w[i] == v[i] && w[j] == v[j - 1]);
        } else if i == k {
            assert(w[j] == v[j - 1]);
            if j - 1 > k {
                lemma_lex_trans(x, v[k], v[j - 1], true);
            }
        } else {
            assert(w[i] == v[i - 1] && w[j] == v[j - 1]);
        }
    }
}

/// The tar plan of a staged tree: its entries sorted by path, one per path, with
/// canonical headers.
pub fn tar_plan(entries: Vec<TreeEntry>) -> (p: Vec<TarEntry>)
    ensures
        is_tar_plan(entries@, p@),
        forall|i: int| 0 <= i < p@.len() ==> (#[trigger] p@[i]).mtime == 0 && p@[i].uid == 0 && p@[i].gid == 0,
{
    let ghost orig = entries@;
    let mut es = entries;
    let mut r: Vec<TarEntry> = Vec::new();
    while es.len() > 0
        invariant
            es@.len() <= orig.len(),
            es@ == orig.take(es@.len() as int),
            sorted_strict(tar_paths(r@), true),
            forall|i: int| 0 <= i < r@.len() ==> comes_from(#[trigger] r@[i]@, orig, es@.len() as int),
            forall|j: int| es@.len() <= j < orig.len() ==> has_tar_path(r@, #[trigger] orig[j].path@),
        decreases es@.len(),
    {
        let ghost n = es@.len() as int;
        let e = es.pop().unwrap();
        assert(e == orig[n - 1]);
        assert(es@ =~= orig.take(n - 1));
        let mut k: usize = 0;
        while k < r.len() && less_than(r[k].path.as_str(), e.path.as_str(), true)
            invariant
                k <= r@.len(),
                forall|i: int| 0 <= i < k ==> lex_less(#[trigger] tar_paths(r@)[i], e.path@, true),
            decreases r@.len() - k,
        {
            k += 1;
        }
        if k < r.len() && str_eq(r[k].path.as_str(), e.path.as_str()) {
            proof {
                assert(r@[k as int].path@ == orig[n - 1].path@);
                assert forall|i: int| 0 <= i < r@.len() implies comes_from(#[trigger] r@[i]@, orig, n - 1) by {
                    let j = choose|j: int| n <= j < orig.len() && r@[i]@ == spec_tar_entry(#[trigger] orig[j]@);
                }
                assert forall|j: int| n - 1 <= j < orig.len() implies has_tar_path(r@, #[trigger] orig[j].path@) by {
                    if j == n - 1 {
                        assert(r@[k as int].path@ == orig[j].path@);
                    }
                }
            }
        } else {
            let ghost old_r = r@;
            let ghost x = e.path@;
            proof {
                if k < old_r.len() {
                    lemma_lex_total(tar_paths(old_r)[k as int], x, true);
                }
                lemma_insert_sorted(tar_paths(old_r), k as int, x);
            }
            let t = to_tar(e);
            r.insert(k, t);
            proof {
                assert(tar_paths(r@) =~= tar_paths(old_r).insert(k as int, x));
                assert forall|i: int| 0 <= i < r@.len() implies comes_from(#[trigger] r@[i]@, orig, n - 1) by {
                    if i < k {
                        assert(r@[i] == old_r[i]);
                        let j = choose|j: int| n <= j < orig.len() && old_r[i]@ == spec_tar_entry(#[trigger] orig[j]@);
                    } else if i == k {
                        assert(r@[i]@ == spec_tar_entry(orig[n - 1]@));
                    } else {
                        assert(r@[i] == old_r[i - 1]);
                        let j = choose|j: int| n <= j < orig.len() && old_r[i - 1]@ == spec_tar_entry(#[trigger] orig[j]@);
                    }
                }
                assert forall|j: int| n - 1 <= j < orig.len() implies has_tar_path(r@, #[trigger] orig[j].path@) by {
                    if j == n - 1 {
                        assert(r@[k as int].path@ == orig[j].path@);
                    } else {
                        let i = choose|i: int| 0 <= i < old_r.len() && #[trigger] old_r[i].path@ == orig[j].path@;
                        if i < k {
                            assert(r@[i] == old_r[i]);
                        } else {
                            assert(r@[i + 1] == old_r[i]);
                        }
                    }
                }
            }
        }
    }
    assert(orig.take(0) =~= Seq::<TreeEntry>::empty());
    proof {
        assert forall|i: int| 0 <= i < r@.len() implies (#[trigger] r@[i]).mtime == 0 && r@[i].uid == 0 && r@[i].gid == 0 by {
            let j = choose|j: int| 0 <= j < orig.len() && r@[i]@ == spec_tar_entry(#[trigger] orig[j]@);
        }
    }
    r
}

/// Entry views strictly sorted by path.
#[verifier::opaque]
pub open spec fn views_sorted(v: Seq<TarEntryView>) -> bool {
    forall|i: int, j: int| 0 <= i < j < v.len() ==> lex_less(#[trigger] v[i].path, #[trigger] v[j].path, true)
}

/// Every entry of `a` is an entry of `b`.
#[verifier::opaque]
pub open spec fn within(a: Seq<TarEntryView>, b: Seq<TarEntryView>) -> bool {
    forall|i: int| 0 <= i < a.len() ==> b.contains(#[trigger] a[i])
}

proof fn lemma_sorted_at(v: Seq<TarEntryView>, i: int, j: int)
    requires
        views_sorted(v),
        0 <= i < j < v.len(),
    ensures
        lex_less(v[i].path, v[j].path, true),
{
    reveal(views_sorted);
}

proof fn lemma_within_at(a: Seq<TarEntryView>, b: Seq<TarEntryView>, i: int) -> (j: int)
    requires
        within(a, b),
        0 <= i < a.len(),
    ensures
        0 <= j < b.len(),
        b[j] == a[i],
{
    reveal(within);
    let t = a[i];
    assert(b.contains(t));
    choose|j: int| 0 <= j < b.len() && b[j] == t
}

/// An entry found in a sorted sequence after its head has a larger path, so it is
/// not the head.
proof fn lemma_not_head(a: Seq<TarEntryView>, x: int)
    requires
        views_sorted(a),
        0 < x < a.len(),
    ensures
        a[x] != a[0],
{
    lemma_sorted_at(a, 0, x);
    lemma_lex_total(a[0].path, a[0].path, true);
}

/// Two sorted sequences holding the same entries start with the same entry.
proof fn lemma_same_head(a: Seq<TarEntryView>, b: Seq<TarEntryView>)
    requires
        views_sorted(a),
        views_sorted(b),
        within(a, b),
        within(b, a),
        a.len() > 0,
    ensures
        b.len() > 0,
        a[0] == b[0],
{
    let k = lemma_within_at(a, b, 0);
    let i = lemma_within_at(b, a, 0);
    if i > 0 && k > 0 {
        lemma_sorted_at(a, 0, i);
        lemma_sorted_at(b, 0, k);
        lemma_lex_total(a[0].path, b[0].path, true);
    } else if i > 0 {
        lemma_not_head(a, i);
    } else if k > 0 {
        lemma_not_head(b, k);
    }
}

/// The tail of a sorted sequence is sorted.
proof fn lemma_tail_sorted(a: Seq<TarEntryView>)
    requires
        views_sorted(a),
        a.len() > 0,
    ensures
        views_sorted(a.skip(1)),
{
    let a1 = a.skip(1);
    reveal(views_sorted);
    assert forall|p: int, q: int| 0 <= p < q < a1.len() implies lex_less(#[trigger] a1[p].path, #[trigger] a1[q].path, true) by {
        assert(a1[p] == a[p + 1] && a1[q] == a[q + 1]);
    }
}

/// Past a common head, the tails hold the same entries.
proof fn lemma_tail_within(a: Seq<TarEntryView>, b: Seq<TarEntryView>)
    requires
        views_sorted(a),
        within(a, b),
        a.len() > 0,
        b.len() > 0,
        a[0] == b[0],
    ensures
        within(a.skip(1), b.skip(1)),
{
    let a1 = a.skip(1);
    let b1 = b.skip(1);
    reveal(within);
    assert forall|x: int| 0 <= x < a1.len() implies b1.contains(#[trigger] a1[x]) by {
        let y = lemma_within_at(a, b, x + 1);
        lemma_not_head(a, x + 1);
        assert(a1[x] == a[x + 1]);
        assert(b1[y - 1] == b[y]);
        assert(0 <= y - 1 < b1.len() && b1[y - 1] == a1[x]);
    }
}

/// Two sequences sorted strictly by path that hold the same entries are equal.
proof fn lemma_sorted_same(a: Seq<TarEntryView>, b: Seq<TarEntryView>)
    requires
        views_sorted(a),
        views_sorted(b),
        within(a, b),
        within(b, a),
    ensures
        a == b,
    decreases a.len(),
{
    if a.len() == 0 {
        if b.len() > 0 {
            lemma_same_head(b, a);
        }
        assert(a =~= b);
    } else {
        lemma_same_head(a, b);
        lemma_tail_within(a, b);
        lemma_tail_within(b, a);
        lemma_tail_sorted(a);
        lemma_tail_sorted(b);
        lemma_sorted_same(a.skip(1), b.skip(1));
        assert(a =~= seq![a[0]] + a.skip(1));
        assert(b =~= seq![b[0]] + b.skip(1));
    }
}

/// The paths of the entries of `es` are pairwise distinct (a walk meets each path
/// once).
pub open spec fn distinct_paths(es: Seq<TreeEntry>) -> bool {
    forall|i: int, j: int| 0 <= i < j < es.len() ==> #[trigger] es[i].path@ != #[trigger] es[j].path@
}

/// The views of a list of tree entries.
pub open spec fn entry_views(es: Seq<TreeEntry>) -> Seq<TreeEntryView> {
    Seq::new(es.len(), |i: int| es[i]@)
}

/// Every entry of `a` is an entry of `b`.
pub open spec fn entries_within(a: Seq<TreeEntry>, b: Seq<TreeEntry>) -> bool {
    forall|i: int| 0 <= i < a.len() ==> entry_views(b).contains(#[trigger] a[i]@)
}

/// A plan is sorted by path.
proof fn lemma_plan_sorted(e: Seq<TreeEntry>, p: Seq<TarEntry>)
    requires
        is_tar_plan(e, p),
    ensures
        views_sorted(tar_views(p)),
{
    reveal(views_sorted);
    let v = tar_views(p);
    assert forall|i: int, j: int| 0 <= i < j < v.len() implies lex_less(#[trigger] v[i].path, #[trigger] v[j].path, true) by {
        assert(tar_paths(p)[i] == v[i].path);
        assert(tar_paths(p)[j] == v[j].path);
    }
}

/// Every entry of a plan of `e1` is an entry of a plan of `e2` when `e2` holds
/// every entry of `e1` and meets each path once.
#[verifier::spinoff_prover]
proof fn lemma_plan_within(e1: Seq<TreeEntry>, e2: Seq<TreeEntry>, p1: Seq<TarEntry>, p2: Seq<TarEntry>)
    requires
        is_tar_plan(e1, p1),
        is_tar_plan(e2, p2),
        distinct_paths(e2),
        entries_within(e1, e2),
    ensures
        within(tar_views(p1), tar_views(p2)),
{
    reveal(within);
    let v1 = tar_views(p1);
    let v2 = tar_views(p2);
    assert forall|i: int| 0 <= i < v1.len() implies v2.contains(#[trigger] v1[i]) by {
        assert(comes_from(p1[i]@, e1, 0));
        let a = choose|a: int| 0 <= a < e1.len() && p1[i]@ == spec_tar_entry(#[trigger] e1[a]@);
        assert(entry_views(e2).contains(e1[a]@));
        let b = choose|b: int| 0 <= b < entry_views(e2).len() && entry_views(e2)[b] == e1[a]@;
        assert(e2[b]@ == e1[a]@);
        assert(has_tar_path(p2, e2[b].path@));
        let j = choose|j: int| 0 <= j < p2.len() && #[trigger] p2[j].path@ == e2[b].path@;
        assert(comes_from(p2[j]@, e2, 0));
        let c = choose|c: int| 0 <= c < e2.len() && p2[j]@ == spec_tar_entry(#[trigger] e2[c]@);
        assert(e2[c].path@ == e2[b].path@);
        if c < b {
            assert(e2[c].path@ != e2[b].path@);
        } else if b < c {
            assert(e2[b].path@ != e2[c].path@);
        }
        assert(v2[j] == v1[i]);
    }
}

/// Reproducible layers: two walks of the same staged tree — the same entries, each
/// path once, in whatever order the walk met them — give the same tar plan, and so
/// the same tar bytes.
pub proof fn law_same_tree_same_tar(e1: Seq<TreeEntry>, e2: Seq<TreeEntry>, p1: Seq<TarEntry>, p2: Seq<TarEntry>)
    requires
        is_tar_plan(e1, p1),
        is_tar_plan(e2, p2),
        distinct_paths(e1),
        distinct_paths(e2),
        entries_within(e1, e2),
        entries_within(e2, e1),
    ensures
        tar_views(p1) == tar_views(p2),
        tar_of(tar_views(p1)) == tar_of(tar_views(p2)),
{
    lemma_plan_within(e1, e2, p1, p2);
    lemma_plan_within(e2, e1, p2, p1);
    lemma_plan_sorted(e1, p1);
    lemma_plan_sorted(e2, p2);
    lemma_sorted_same(tar_views(p1), tar_views(p2));
}

/// Reproducible layers, end to end: when two walks of the same staged tree (each
/// path once, in any order) are both written by [`tar_tree`], the two tars are the
/// same bytes, and so is the layer made of each (its gzip blob, diff_id and digest
/// are functions of the tar bytes).
pub proof fn law_same_tree_same_layer(e1: Seq<TreeEntry>, e2: Seq<TreeEntry>, b1: Seq<u8>, b2: Seq<u8>)
    requires
        distinct_paths(e1),
        distinct_paths(e2),
        entries_within(e1, e2),
        entries_within(e2, e1),
    ensures
        (exists|p: Seq<TarEntry>| is_tar_plan(e1, p) && b1 == tar_of(tar_views(p))) && (exists|p: Seq<TarEntry>|
            is_tar_plan(e2, p) && b2 == tar_of(tar_views(p))) ==> b1 == b2 && gzip_of(b1) == gzip_of(b2),
{
    if (exists|p: Seq<TarEntry>| is_tar_plan(e1, p) && b1 == tar_of(tar_views(p))) && (exists|p: Seq<TarEntry>|
        is_tar_plan(e2, p) && b2 == tar_of(tar_views(p))) {
        let p1 = choose|p: Seq<TarEntry>| is_tar_plan(e1, p) && b1 == tar_of(tar_views(p));
        let p2 = choose|p: Seq<TarEntry>| is_tar_plan(e2, p) && b2 == tar_of(tar_views(p));
        law_same_tree_same_tar(e1, e2, p1, p2);
    }
}

/// `path` has a component `..`: a run of two dots with a `/` or an end of the
/// path on each side.
pub open spec fn has_parent_component(path: Seq<char>) -> bool {
    exists|i: int|
        0 <= i && i + 2 <= path.len() && #[trigger] path[i] == '.' && path[i + 1] == '.' && (i == 0
            || path[i - 1] == '/') && (i + 2 == path.len() || path[i + 2] == '/')
}

/// A path that a tar header takes: not empty, relative (no leading `/`), with no
/// `..` component and no NUL character.
pub open spec fn valid_tar_path(path: Seq<char>) -> bool {
    &&& path.len() > 0
    &&& path[0] != '/'
    &&& !path.contains('\0')
    &&& !has_parent_component(path)
}

/// A link target that a tar header takes: not empty, with no NUL character.
pub open spec fn valid_link_target(target: Seq<char>) -> bool {
    target.len() > 0 && !target.contains('\0')
}

/// A tar entry whose path, and link target if it has one, a tar header takes.
pub open spec fn tar_writable(t: TarEntryView) -> bool {
    &&& valid_tar_path(t.path)
    &&& match t.link {
        Some(target) => valid_link_target(target),
        None => true,
    }
}

/// A tree entry whose path, and link target if it is a link, a tar header takes.
pub open spec fn tree_writable(e: TreeEntryView) -> bool {
    &&& valid_tar_path(e.path)
    &&& match e.kind {
        TreeKindView::Symlink { target } => valid_link_target(target),
        _ => true,
    }
}

/// What the `tar` crate writes for a list of entries: a GNU-format archive holding
/// each entry in order, with exactly the header fields given.
pub uninterp spec fn tar_of(entries: Seq<TarEntryView>) -> Seq<u8>;

/// Write the entries as a tar archive in memory.
///
/// Trusted: appends each entry to a `tar::Builder` over a `Vec` — a GNU header with
/// the entry's type flag (`EntryType::new`), mtime, uid, gid, mode and data size —
/// with `append_link` for an entry with a link target and `append_data` with its
/// data otherwise, and returns the finished bytes. The contract names the bytes as
/// a function of the entries alone, and promises them whenever every path and link
/// target is one that a header takes: for a path the builder refuses only an empty
/// or absolute one, a `..` component or a NUL; for a link target (which may be
/// absolute and hold `..`) only an empty one or a NUL; a name too long for the
/// header goes into a GNU long-name entry, and writing into a `Vec` does not fail.
/// Which of the other inputs (a NUL past the first hundred bytes of a long name)
/// it also writes is not stated.
#[verifier::external_body]
fn tar_bytes(p: &Vec<TarEntry>) -> (r: Result<Vec<u8>, String>)
    ensures
        r matches Ok(b) ==> b@ == tar_of(tar_views(p@)),
        (forall|i: int| 0 <= i < p@.len() ==> tar_writable(#[trigger] p@[i]@)) ==> r is Ok,
{
    let mut ar = tar::Builder::new(Vec::new());
    for e in p.iter() {
        let mut h = tar::Header::new_gnu();
        h.set_entry_type(tar::EntryType::new(e.type_flag));
        h.set_mtime(e.mtime); h.set_uid(e.uid); h.set_gid(e.gid); h.set_mode(e.mode); h.set_size(e.data.len() as u64);
        let done = match &e.link { Some(t) => ar.append_link(&mut h, &e.path, t), None => ar.append_data(&mut h, &e.path, e.data.as_slice()) };
        done.map_err(|x| x.to_string())?;
    }
    ar.into_inner().map_err(|x| x.to_string())
}

/// The reproducible tar of a staged tree: the bytes of its tar plan. It is written
/// whenever every path is relative, not empty, free of `..` components and NUL
/// characters, and every link target is not empty and free of NUL characters.
pub fn tar_tree(entries: Vec<TreeEntry>) -> (r: Result<Vec<u8>, String>)
    ensures
        r matches Ok(b) ==> exists|p: Seq<TarEntry>| is_tar_plan(entries@, p) && b@ == tar_of(tar_views(p)),
        (forall|j: int| 0 <= j < entries@.len() ==> tree_writable(#[trigger] entries@[j]@)) ==> r is Ok,
{
    let ghost e = entries@;
    let p = tar_plan(entries);
    proof {
        if forall|j: int| 0 <= j < e.len() ==> tree_writable(#[trigger] e[j]@) {
            assert forall|i: int| 0 <= i < p@.len() implies tar_writable(#[trigger] p@[i]@) by {
                assert(comes_from(p@[i]@, e, 0));
                let j = choose|j: int| 0 <= j < e.len() && p@[i]@ == spec_tar_entry(#[trigger] e[j]@);
                assert(tree_writable(e[j]@));
            }
        }
    }
    let r = tar_bytes(&p);
    proof {
        if r is Ok {
            assert(is_tar_plan(e, p@));
        }
    }
    r
}

} // verus!
