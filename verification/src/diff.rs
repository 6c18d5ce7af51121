//! Comparing two staged rootfs trees (the `diff` subcommand): the files added,
//! removed and changed between them, plus each side's total size. An image-drift
//! regression gate. Walking the directories is the caller's job; it hands over one
//! entry per regular file or symlink, keyed by its path relative to the root.

use vstd::prelude::*;
use crate::image::{hex, sha256, spec_hex, sha256_of};
use crate::text::{
    concat, copy_str, decimal, decimal_string, join, join_strings, lemma_sorted_same_items, lex_less, sorted_strict, str_eq,
    views,
};

verus! {

/// One file's identity for comparison: its path relative to the root, its size and
/// a content fingerprint (the sha256 of a regular file, the target of a symlink).
#[derive(Debug, Clone, PartialEq, Eq)]
pub struct DiffEntry {
    pub path: String,
    pub size: u64,
    pub fingerprint: String,
}

/// A file that exists on one side only.
#[derive(Debug, Clone, PartialEq, Eq)]
pub struct DiffFile {
    pub path: String,
    pub size: u64,
}

/// The differences between two trees.
#[derive(Debug, Clone, PartialEq, Eq)]
pub struct DiffReport {
    /// Files only in the second tree.
    pub added: Vec<DiffFile>,
    /// Files only in the first tree.
    pub removed: Vec<DiffFile>,
    /// Paths in both trees whose content differs.
    pub changed: Vec<String>,
    /// The total size of the first tree's files.
    pub size_before: u64,
    /// The total size of the second tree's files.
    pub size_after: u64,
}

impl DiffReport {
    /// Whether anything was added, removed or changed.
    pub fn has_changes(&self) -> (b: bool)
        ensures
            b == (self.added@.len() > 0 || self.removed@.len() > 0 || self.changed@.len() > 0),
    {
        self.added.len() > 0 || self.removed.len() > 0 || self.changed.len() > 0
    }
}

/// The fingerprint of a regular file: the lowercase hex sha256 of its bytes.
pub fn content_fingerprint(bytes: &[u8]) -> (s: String)
    ensures
        s@ == spec_hex(sha256_of(bytes@)),
{
    let d = sha256(bytes);
    hex(d.as_slice())
}

/// The fingerprint of a symlink: `symlink:` and its target.
pub fn symlink_fingerprint(target: &str) -> (s: String)
    ensures
        s@ == "symlink:"@ + target@,
{
    concat("symlink:", target)
}

/// Some entry of `es` has the path `p`.
pub open spec fn has_path(es: Seq<DiffEntry>, p: Seq<char>) -> bool {
    exists|i: int| 0 <= i < es.len() && #[trigger] es[i].path@ == p
}

/// An entry of `old` has the path of `e` and a different fingerprint.
pub open spec fn differs(old: Seq<DiffEntry>, e: DiffEntry) -> bool {
    exists|i: int|
        0 <= i < old.len() && #[trigger] old[i].path@ == e.path@ && old[i].fingerprint@ != e.fingerprint@
}

/// The entries of `es` whose path `other` lacks, as (path, size), in order.
pub open spec fn only_in(es: Seq<DiffEntry>, other: Seq<DiffEntry>) -> Seq<(Seq<char>, u64)>
    decreases es.len(),
{
    if es.len() == 0 {
        Seq::empty()
    } else {
        let p = only_in(es.drop_last(), other);
        let e = es.last();
        if has_path(other, e.path@) {
            p
        } else {
            p.push((e.path@, e.size))
        }
    }
}

/// The paths of `new` whose content differs from `old`, in order.
pub open spec fn changed_paths(old: Seq<DiffEntry>, new: Seq<DiffEntry>) -> Seq<Seq<char>>
    decreases new.len(),
{
    if new.len() == 0 {
        Seq::empty()
    } else {
        let p = changed_paths(old, new.drop_last());
        let e = new.last();
        if differs(old, e) {
            p.push(e.path@)
        } else {
            p
        }
    }
}

/// The sum of the sizes of `es`.
pub open spec fn total_size(es: Seq<DiffEntry>) -> nat
    decreases es.len(),
{
    if es.len() == 0 {
        0
    } else {
        total_size(es.drop_last()) + es.last().size as nat
    }
}

/// The (path, size) pairs of a list of files.
pub open spec fn file_views(fs: Seq<DiffFile>) -> Seq<(Seq<char>, u64)> {
    fs.map_values(|f: DiffFile| (f.path@, f.size))
}

/// Does some entry of `es` have the path `p`? Returns the index of one.
fn lookup(es: &Vec<DiffEntry>, p: &str) -> (r: Option<usize>)
    ensures
        match r {
            Some(i) => i < es@.len() && es@[i as int].path@ == p@,
            None => !has_path(es@, p@),
        },
{
    let mut i: usize = 0;
    while i < es.len()
        invariant
            i <= es.len(),
            forall|j: int| 0 <= j < i ==> es@[j].path@ != p@,
        decreases es.len() - i,
    {
        if str_eq(es[i].path.as_str(), p) {
            return Some(i);
        }
        i += 1;
    }
    None
}

/// Does an entry of `old` have `e`'s path and another fingerprint?
fn differs_exec(old: &Vec<DiffEntry>, e: &DiffEntry) -> (b: bool)
    ensures
        b == differs(old@, *e),
{
    let mut i: usize = 0;
    while i < old.len()
        invariant
            i <= old.len(),
            forall|j: int| 0 <= j < i ==> !(#[trigger] old@[j].path@ == e.path@ && old@[j].fingerprint@ != e.fingerprint@),
        decreases old.len() - i,
    {
        if str_eq(old[i].path.as_str(), e.path.as_str()) && !str_eq(old[i].fingerprint.as_str(), e.fingerprint.as_str()) {
            return true;
        }
        i += 1;
    }
    false
}

/// The entries of `es` whose path `other` lacks.
fn only_in_exec(es: &Vec<DiffEntry>, other: &Vec<DiffEntry>) -> (r: Vec<DiffFile>)
    ensures
        file_views(r@) == only_in(es@, other@),
{
    let mut out: Vec<DiffFile> = Vec::new();
    let mut i: usize = 0;
    assert(es@.take(0) =~= Seq::<DiffEntry>::empty());
    while i < es.len()
        invariant
            i <= es.len(),
            file_views(out@) == only_in(es@.take(i as int), other@),
        decreases es.len() - i,
    {
        proof {
            assert(es@.take(i + 1).drop_last() =~= es@.take(i as int));
            assert(es@.take(i + 1).last() == es@[i as int]);
        }
        if lookup(other, es[i].path.as_str()).is_none() {
            let ghost before = out@;
            out.push(DiffFile { path: es[i].path.clone(), size: es[i].size });
            assert(file_views(out@) =~= file_views(before).push((es@[i as int].path@, es@[i as int].size)));
        }
        i += 1;
    }
    assert(es@.take(es.len() as int) =~= es@);
    out
}

/// The sum of the sizes of `es`.
fn sum_sizes(es: &Vec<DiffEntry>) -> (t: u64)
    requires
        total_size(es@) <= u64::MAX,
    ensures
        t == total_size(es@),
{
    let mut t: u64 = 0;
    let mut i: usize = 0;
    assert(es@.take(0) =~= Seq::<DiffEntry>::empty());
    while i < es.len()
        invariant
            i <= es.len(),
            total_size(es@) <= u64::MAX,
            t == total_size(es@.take(i as int)),
        decreases es.len() - i,
    {
        proof {
            assert(es@.take(i + 1).drop_last() =~= es@.take(i as int));
            lemma_total_prefix(es@, i + 1);
        }
        t = t + es[i].size;
        i += 1;
    }
    assert(es@.take(es.len() as int) =~= es@);
    t
}

proof fn lemma_total_prefix(es: Seq<DiffEntry>, k: int)
    requires
        0 <= k <= es.len(),
    ensures
        total_size(es.take(k)) <= total_size(es),
    decreases es.len(),
{
    if k < es.len() {
        lemma_total_prefix(es.drop_last(), k);
        assert(es.drop_last().take(k) =~= es.take(k));
    } else {
        assert(es.take(k) =~= es);
    }
}

/// Compare two trees, each given as its entries (one per path): the files added in
/// `new`, removed from `old`, and changed between them, plus each side's total
/// size. The lists keep the order of the entries given.
pub fn build(old: &Vec<DiffEntry>, new: &Vec<DiffEntry>) -> (r: DiffReport)
    requires
        total_size(old@) <= u64::MAX,
        total_size(new@) <= u64::MAX,
    ensures
        file_views(r.added@) == only_in(new@, old@),
        file_views(r.removed@) == only_in(old@, new@),
        views(r.changed@) == changed_paths(old@, new@),
        r.size_before == total_size(old@),
        r.size_after == total_size(new@),
{
    let added = only_in_exec(new, old);
    let removed = only_in_exec(old, new);
    let mut changed: Vec<String> = Vec::new();
    let mut i: usize = 0;
    assert(new@.take(0) =~= Seq::<DiffEntry>::empty());
    while i < new.len()
        invariant
            i <= new.len(),
            views(changed@) == changed_paths(old@, new@.take(i as int)),
        decreases new.len() - i,
    {
        proof {
            assert(new@.take(i + 1).drop_last() =~= new@.take(i as int));
            assert(new@.take(i + 1).last() == new@[i as int]);
        }
        if differs_exec(old, &new[i]) {
            let ghost before = changed@;
            changed.push(new[i].path.clone());
            proof {
                crate::text::lemma_views_push(before, new@[i as int].path);
            }
        }
        i += 1;
    }
    assert(new@.take(new.len() as int) =~= new@);
    let size_before = sum_sizes(old);
    let size_after = sum_sizes(new);
    DiffReport { added, removed, changed, size_before, size_after }
}

/// A path is reported changed exactly when `new` holds an entry at it that differs
/// from an entry of `old` at the same path.
proof fn lemma_changed_contains(old: Seq<DiffEntry>, new: Seq<DiffEntry>, x: Seq<char>)
    ensures
        changed_paths(old, new).contains(x) <==> exists|j: int|
            0 <= j < new.len() && #[trigger] new[j].path@ == x && differs(old, new[j]),
    decreases new.len(),
{
    if new.len() > 0 {
        lemma_changed_contains(old, new.drop_last(), x);
        let p = changed_paths(old, new.drop_last());
        let e = new.last();
        if changed_paths(old, new).contains(x) {
            if p.contains(x) {
                let j = choose|j: int| 0 <= j < new.drop_last().len() && #[trigger] new.drop_last()[j].path@ == x && differs(old, new.drop_last()[j]);
                assert(new[j] == new.drop_last()[j]);
            } else {
                let k = choose|k: int| 0 <= k < changed_paths(old, new).len() && changed_paths(old, new)[k] == x;
                if differs(old, e) {
                    assert(changed_paths(old, new) == p.push(e.path@));
                    if k < p.len() {
                        assert(p.contains(x));
                    }
                    assert(new[new.len() - 1].path@ == x);
                } else {
                    assert(changed_paths(old, new) == p);
                }
            }
        } else {
            if exists|j: int| 0 <= j < new.len() && #[trigger] new[j].path@ == x && differs(old, new[j]) {
                let j = choose|j: int| 0 <= j < new.len() && #[trigger] new[j].path@ == x && differs(old, new[j]);
                if j < new.len() - 1 {
                    assert(new.drop_last()[j] == new[j]);
                    assert(p.contains(x));
                    let k = choose|k: int| 0 <= k < p.len() && p[k] == x;
                    if differs(old, e) {
                        assert(changed_paths(old, new)[k] == x);
                    } else {
                        assert(changed_paths(old, new)[k] == x);
                    }
                } else {
                    assert(changed_paths(old, new) == p.push(e.path@));
                    assert(changed_paths(old, new)[p.len() as int] == x);
                }
            }
        }
    }
}

/// Comparing two trees the other way round swaps what is added and what is removed
/// (the added files of `(a, b)` are `only_in(b, a)`, the removed ones of `(b, a)`
/// too) and the two totals, and reports the same changed paths.
pub proof fn law_swapped_trees_report_the_same_changes(a: Seq<DiffEntry>, b: Seq<DiffEntry>, x: Seq<char>)
    ensures
        changed_paths(a, b).contains(x) <==> changed_paths(b, a).contains(x),
{
    lemma_changed_contains(a, b, x);
    lemma_changed_contains(b, a, x);
    if changed_paths(a, b).contains(x) {
        let j = choose|j: int| 0 <= j < b.len() && #[trigger] b[j].path@ == x && differs(a, b[j]);
        let i = choose|i: int| 0 <= i < a.len() && #[trigger] a[i].path@ == b[j].path@ && a[i].fingerprint@ != b[j].fingerprint@;
        assert(differs(b, a[i]));
    }
    if changed_paths(b, a).contains(x) {
        let j = choose|j: int| 0 <= j < a.len() && #[trigger] a[j].path@ == x && differs(b, a[j]);
        let i = choose|i: int| 0 <= i < b.len() && #[trigger] b[i].path@ == a[j].path@ && b[i].fingerprint@ != a[j].fingerprint@;
        assert(differs(a, b[i]));
    }
}

/// The paths of a list of entries, in order.
pub open spec fn entry_paths(es: Seq<DiffEntry>) -> Seq<Seq<char>> {
    Seq::new(es.len(), |i: int| es[i].path@)
}

/// When `new` is sorted by path, so are its changed paths.
proof fn lemma_changed_sorted(old: Seq<DiffEntry>, new: Seq<DiffEntry>, slash_low: bool)
    requires
        sorted_strict(entry_paths(new), slash_low),
    ensures
        sorted_strict(changed_paths(old, new), slash_low),
    decreases new.len(),
{
    if new.len() > 0 {
        let d = new.drop_last();
        assert forall|i: int, j: int| 0 <= i < j < entry_paths(d).len() implies lex_less(
            entry_paths(d)[i],
            entry_paths(d)[j],
            slash_low,
        ) by {
            assert(entry_paths(d)[i] == entry_paths(new)[i]);
            assert(entry_paths(d)[j] == entry_paths(new)[j]);
        }
        lemma_changed_sorted(old, d, slash_low);
        let p = changed_paths(old, d);
        let e = new.last();
        if differs(old, e) {
            assert forall|k: int| 0 <= k < p.len() implies lex_less(#[trigger] p[k], e.path@, slash_low) by {
                assert(p.contains(p[k]));
                lemma_changed_contains(old, d, p[k]);
                let j = choose|j: int| 0 <= j < d.len() && #[trigger] d[j].path@ == p[k] && differs(old, d[j]);
                assert(entry_paths(new)[j] == p[k]);
                assert(entry_paths(new)[new.len() - 1] == e.path@);
            }
            let q = p.push(e.path@);
            assert forall|i: int, j: int| 0 <= i < j < q.len() implies lex_less(q[i], q[j], slash_low) by {
                if j == p.len() {
                    assert(q[i] == p[i]);
                } else {
                    assert(q[i] == p[i] && q[j] == p[j]);
                }
            }
        }
    }
}

/// The paths of a list of (path, size) pairs, in order.
pub open spec fn pair_paths(v: Seq<(Seq<char>, u64)>) -> Seq<Seq<char>> {
    Seq::new(v.len(), |i: int| v[i].0)
}

/// When `es` is sorted by path, so are the files of `es` that `other` lacks, and
/// each of them is a path of `es`.
proof fn lemma_only_in_sorted(es: Seq<DiffEntry>, other: Seq<DiffEntry>, slash_low: bool)
    requires
        sorted_strict(entry_paths(es), slash_low),
    ensures
        sorted_strict(pair_paths(only_in(es, other)), slash_low),
        forall|k: int|
            0 <= k < only_in(es, other).len() ==> exists|j: int|
                0 <= j < es.len() && #[trigger] es[j].path@ == (#[trigger] only_in(es, other)[k]).0,
    decreases es.len(),
{
    if es.len() > 0 {
        let d = es.drop_last();
        assert forall|i: int, j: int| 0 <= i < j < entry_paths(d).len() implies lex_less(
            entry_paths(d)[i],
            entry_paths(d)[j],
            slash_low,
        ) by {
            assert(entry_paths(d)[i] == entry_paths(es)[i]);
            assert(entry_paths(d)[j] == entry_paths(es)[j]);
        }
        lemma_only_in_sorted(d, other, slash_low);
        let p = only_in(d, other);
        let e = es.last();
        assert forall|k: int| 0 <= k < p.len() implies exists|j: int|
            0 <= j < es.len() - 1 && #[trigger] es[j].path@ == (#[trigger] p[k]).0 by {
            let j = choose|j: int| 0 <= j < d.len() && #[trigger] d[j].path@ == (#[trigger] p[k]).0;
            assert(es[j] == d[j]);
        }
        if !has_path(other, e.path@) {
            let q = p.push((e.path@, e.size));
            assert(q == only_in(es, other));
            assert forall|k: int| 0 <= k < p.len() implies lex_less(#[trigger] pair_paths(p)[k], e.path@, slash_low) by {
                let j = choose|j: int| 0 <= j < es.len() - 1 && #[trigger] es[j].path@ == (#[trigger] p[k]).0;
                assert(entry_paths(es)[j] == p[k].0);
                assert(entry_paths(es)[es.len() - 1] == e.path@);
            }
            assert forall|i: int, j: int| 0 <= i < j < pair_paths(q).len() implies lex_less(
                pair_paths(q)[i],
                pair_paths(q)[j],
                slash_low,
            ) by {
                assert(pair_paths(q)[i] == pair_paths(p)[i]);
                if j < p.len() {
                    assert(pair_paths(q)[j] == pair_paths(p)[j]);
                }
            }
            assert forall|k: int| 0 <= k < q.len() implies exists|j: int|
                0 <= j < es.len() && #[trigger] es[j].path@ == (#[trigger] q[k]).0 by {
                if k < p.len() {
                    assert(q[k] == p[k]);
                    let j = choose|j: int| 0 <= j < es.len() - 1 && #[trigger] es[j].path@ == (#[trigger] p[k]).0;
                    assert(es[j].path@ == q[k].0);
                } else {
                    assert(es[es.len() - 1].path@ == q[k].0);
                }
            }
        }
    }
}

/// Two trees given in sorted path order (as a walk sorted by path hands them over)
/// report the very same list of changed paths whichever way round they are
/// compared, and every list of the comparison is sorted by path.
pub proof fn law_swapped_sorted_trees_same_changed_list(a: Seq<DiffEntry>, b: Seq<DiffEntry>, slash_low: bool)
    requires
        sorted_strict(entry_paths(a), slash_low),
        sorted_strict(entry_paths(b), slash_low),
    ensures
        changed_paths(a, b) == changed_paths(b, a),
        sorted_strict(changed_paths(a, b), slash_low),
        sorted_strict(pair_paths(only_in(b, a)), slash_low),
        sorted_strict(pair_paths(only_in(a, b)), slash_low),
{
    lemma_only_in_sorted(a, b, slash_low);
    lemma_only_in_sorted(b, a, slash_low);
    lemma_changed_sorted(a, b, slash_low);
    lemma_changed_sorted(b, a, slash_low);
    assert forall|x: Seq<char>| changed_paths(a, b).contains(x) <==> changed_paths(b, a).contains(x) by {
        law_swapped_trees_report_the_same_changes(a, b, x);
    }
    lemma_sorted_same_items(changed_paths(a, b), changed_paths(b, a), slash_low);
}

/// Comparing a tree (one entry per path) with itself finds nothing added, removed
/// or changed.
pub proof fn law_identical_trees_have_no_changes(es: Seq<DiffEntry>)
    requires
        forall|i: int, j: int| 0 <= i < es.len() && 0 <= j < es.len() && es[i].path@ == es[j].path@ ==> i == j,
    ensures
        only_in(es, es).len() == 0,
        changed_paths(es, es).len() == 0,
{
    assert forall|i: int| 0 <= i < es.len() implies #[trigger] es.contains(es[i]) by {}
    lemma_nothing_only_in(es, es);
    lemma_nothing_changed(es, es);
}

proof fn lemma_nothing_only_in(es: Seq<DiffEntry>, all: Seq<DiffEntry>)
    requires
        forall|i: int| 0 <= i < es.len() ==> #[trigger] all.contains(es[i]),
    ensures
        only_in(es, all).len() == 0,
    decreases es.len(),
{
    if es.len() > 0 {
        assert forall|i: int| 0 <= i < es.drop_last().len() implies #[trigger] all.contains(es.drop_last()[i]) by {
            assert(es.drop_last()[i] == es[i]);
        }
        lemma_nothing_only_in(es.drop_last(), all);
        assert(all.contains(es[es.len() - 1]));
        let k = choose|k: int| 0 <= k < all.len() && all[k] == es.last();
        assert(all[k].path@ == es.last().path@);
    }
}

proof fn lemma_nothing_changed(es: Seq<DiffEntry>, all: Seq<DiffEntry>)
    requires
        forall|i: int| 0 <= i < es.len() ==> #[trigger] all.contains(es[i]),
        forall|i: int, j: int|
            0 <= i < all.len() && 0 <= j < all.len() && all[i].path@ == all[j].path@ ==> all[i] == all[j],
    ensures
        changed_paths(all, es).len() == 0,
    decreases es.len(),
{
    if es.len() > 0 {
        assert forall|i: int| 0 <= i < es.drop_last().len() implies #[trigger] all.contains(es.drop_last()[i]) by {
            assert(es.drop_last()[i] == es[i]);
        }
        lemma_nothing_changed(es.drop_last(), all);
        assert(all.contains(es[es.len() - 1]));
    }
}


/// The line of a file only in the second tree.
pub open spec fn added_line(f: (Seq<char>, u64)) -> Seq<char> {
    "+ "@ + f.0 + " ("@ + decimal(f.1 as nat) + " B)"@
}

/// The line of a file only in the first tree.
pub open spec fn removed_line(f: (Seq<char>, u64)) -> Seq<char> {
    "- "@ + f.0 + " ("@ + decimal(f.1 as nat) + " B)"@
}

/// The line of a path whose content changed.
pub open spec fn changed_line(p: Seq<char>) -> Seq<char> {
    "~ "@ + p
}

/// The change from `before` to `after`, with its sign.
pub open spec fn signed_delta(before: u64, after: u64) -> Seq<char> {
    if after >= before {
        "+"@ + decimal((after - before) as nat)
    } else {
        "-"@ + decimal((before - after) as nat)
    }
}

/// The text of a diff: each added file marked `+`, each removed file `-`, each
/// changed file `~` (or `no changes`), then the total sizes and their delta.
pub open spec fn diff_lines(r: DiffReport) -> Seq<Seq<char>> {
    let a = file_views(r.added@);
    let d = file_views(r.removed@);
    let c = views(r.changed@);
    Seq::new(a.len(), |i: int| added_line(a[i])) + Seq::new(d.len(), |i: int| removed_line(d[i])) + Seq::new(
        c.len(),
        |i: int| changed_line(c[i]),
    ) + (if a.len() == 0 && d.len() == 0 && c.len() == 0 {
        seq!["no changes"@]
    } else {
        Seq::empty()
    }) + seq![
        "size: "@ + decimal(r.size_before as nat) + " -> "@ + decimal(r.size_after as nat) + " bytes ("@
            + signed_delta(r.size_before, r.size_after) + ")"@,
    ]
}

/// The line of a file that exists on one side only.
fn file_line(mark: &str, f: &DiffFile) -> (s: String)
    ensures
        s@ == mark@ + f.path@ + " ("@ + decimal(f.size as nat) + " B)"@,
{
    let mut s = concat(mark, f.path.as_str());
    s.append(" (");
    s.append(decimal_string(f.size).as_str());
    s.append(" B)");
    s
}

impl DiffReport {
    /// The text rendering (the `--format text` output).
    pub fn to_text(&self) -> (s: String)
        ensures
            s@ == join(diff_lines(*self), "\n"@),
    {
        let ghost a = file_views(self.added@);
        let ghost d = file_views(self.removed@);
        let ghost c = views(self.changed@);
        let mut lines: Vec<String> = Vec::new();
        let mut i: usize = 0;
        while i < self.added.len()
            invariant
                i <= self.added.len(),
                a == file_views(self.added@),
                views(lines@) == Seq::new(i as nat, |k: int| added_line(a[k])),
            decreases self.added.len() - i,
        {
            let line = file_line("+ ", &self.added[i]);
            let ghost before = lines@;
            lines.push(line);
            proof {
                crate::text::lemma_views_push(before, line);
                assert(views(lines@) =~= Seq::new((i + 1) as nat, |k: int| added_line(a[k])));
            }
            i += 1;
        }
        let ghost first = views(lines@);
        let mut j: usize = 0;
        while j < self.removed.len()
            invariant
                j <= self.removed.len(),
                d == file_views(self.removed@),
                views(lines@) == first + Seq::new(j as nat, |k: int| removed_line(d[k])),
            decreases self.removed.len() - j,
        {
            let line = file_line("- ", &self.removed[j]);
            let ghost before = lines@;
            lines.push(line);
            proof {
                crate::text::lemma_views_push(before, line);
                assert(views(lines@) =~= first + Seq::new((j + 1) as nat, |k: int| removed_line(d[k])));
            }
            j += 1;
        }
        let ghost second = views(lines@);
        let mut k: usize = 0;
        while k < self.changed.len()
            invariant
                k <= self.changed.len(),
                c == views(self.changed@),
                views(lines@) == second + Seq::new(k as nat, |m: int| changed_line(c[m])),
            decreases self.changed.len() - k,
        {
            let line = concat("~ ", self.changed[k].as_str());
            let ghost before = lines@;
            lines.push(line);
            proof {
                crate::text::lemma_views_push(before, line);
                assert(views(lines@) =~= second + Seq::new((k + 1) as nat, |m: int| changed_line(c[m])));
            }
            k += 1;
        }
        let ghost third = views(lines@);
        if !self.has_changes() {
            let nc = copy_str("no changes");
            let ghost before = lines@;
            lines.push(nc);
            proof {
                crate::text::lemma_views_push(before, nc);
            }
        }
        let ghost fourth = views(lines@);
        assert(fourth == third + (if a.len() == 0 && d.len() == 0 && c.len() == 0 {
            seq!["no changes"@]
        } else {
            Seq::<Seq<char>>::empty()
        }));
        let mut size = concat("size: ", decimal_string(self.size_before).as_str());
        size.append(" -> ");
        size.append(decimal_string(self.size_after).as_str());
        size.append(" bytes (");
        if self.size_after >= self.size_before {
            size.append("+");
            size.append(decimal_string(self.size_after - self.size_before).as_str());
        } else {
            size.append("-");
            size.append(decimal_string(self.size_before - self.size_after).as_str());
        }
        size.append(")");
        assert(size@ =~= "size: "@ + decimal(self.size_before as nat) + " -> "@ + decimal(self.size_after as nat)
            + " bytes ("@ + signed_delta(self.size_before, self.size_after) + ")"@);
        let ghost before = lines@;
        lines.push(size);
        proof {
            crate::text::lemma_views_push(before, size);
            assert(views(lines@) =~= diff_lines(*self));
        }
        join_strings(&lines, "\n")
    }
}

} // verus!
