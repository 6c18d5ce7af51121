//! A binary's resolved dependency tree (the `graph` subcommand): one node per
//! resolved object, each with its direct dependencies, so parent-to-child edges can
//! be rendered. A read-only audit view; reading the ELF files is the caller's job.

use vstd::prelude::*;
use crate::paths::{file_name, file_name_of};
use crate::resolver::{contains_string, Resolution};
use crate::text::{copy_str, views};

verus! {

/// One object of the graph and its direct dependencies.
#[derive(Debug, Clone, PartialEq, Eq)]
pub struct DepNode {
    pub name: String,
    pub path: String,
    pub needs: Vec<String>,
}

/// The dependency graph of a binary.
#[derive(Debug, Clone, PartialEq, Eq)]
pub struct DepGraphReport {
    pub root: String,
    pub interpreter: Option<String>,
    pub nodes: Vec<DepNode>,
    pub missing: Vec<String>,
}

/// The final component of a path; the whole path when it has none.
pub open spec fn spec_name_of(path: Seq<char>) -> Seq<char> {
    match file_name(path) {
        Some(n) => n,
        None => path,
    }
}

/// The final path component as a string; the whole path when it has none.
pub fn file_name_or_path(path: &str) -> (r: String)
    ensures
        r@ == spec_name_of(path@),
{
    match file_name_of(path) {
        Some(n) => n,
        None => copy_str(path),
    }
}

/// `s` with repeats dropped, keeping each first occurrence in order.
pub open spec fn spec_dedup(s: Seq<Seq<char>>) -> Seq<Seq<char>>
    decreases s.len(),
{
    if s.len() == 0 {
        s
    } else {
        let p = spec_dedup(s.drop_last());
        if p.contains(s.last()) {
            p
        } else {
            p.push(s.last())
        }
    }
}

/// Drop repeated sonames while keeping first-seen order — DT_NEEDED can list a
/// soname twice, and a duplicated edge only clutters the tree.
pub fn dedup(sonames: Vec<String>) -> (r: Vec<String>)
    ensures
        views(r@) == spec_dedup(views(sonames@)),
{
    let ghost sv = views(sonames@);
    let mut out: Vec<String> = Vec::new();
    let mut i: usize = 0;
    assert(sv.take(0) =~= Seq::<Seq<char>>::empty());
    while i < sonames.len()
        invariant
            i <= sonames.len(),
            sv == views(sonames@),
            views(out@) == spec_dedup(sv.take(i as int)),
        decreases sonames.len() - i,
    {
        proof {
            assert(sv.take(i + 1).drop_last() =~= sv.take(i as int));
            assert(sv.take(i + 1).last() == sonames@[i as int]@);
        }
        if !contains_string(&out, sonames[i].as_str()) {
            let ghost before = out@;
            out.push(sonames[i].clone());
            proof {
                crate::text::lemma_views_push(before, sonames@[i as int]);
            }
        }
        i += 1;
    }
    assert(sv.take(sonames.len() as int) =~= sv);
    out
}

/// `x` occurs in `s` before the first occurrence of `y`.
pub open spec fn occurs_before_first(s: Seq<Seq<char>>, x: Seq<char>, y: Seq<char>) -> bool {
    exists|a: int, b: int|
        #![trigger s[a], s[b]]
        0 <= a < b < s.len() && s[a] == x && s[b] == y && (forall|c: int| 0 <= c < b ==> s[c] != y)
}

/// Deduplication keeps exactly the names it was given, each once, in the order of
/// their first occurrence.
pub proof fn law_dedup(s: Seq<Seq<char>>)
    ensures
        spec_dedup(s).no_duplicates(),
        spec_dedup(s).to_set() == s.to_set(),
        forall|i: int, j: int|
            #![trigger spec_dedup(s)[i], spec_dedup(s)[j]]
            0 <= i < j < spec_dedup(s).len() ==> occurs_before_first(s, spec_dedup(s)[i], spec_dedup(s)[j]),
    decreases s.len(),
{
    if s.len() > 0 {
        let q = s.drop_last();
        law_dedup(q);
        let p = spec_dedup(q);
        let x = s.last();
        let d = spec_dedup(s);
        assert(s =~= q.push(x));
        if p.contains(x) {
            assert(d.to_set() =~= s.to_set()) by {
                assert forall|y: Seq<char>| d.to_set().contains(y) <==> s.to_set().contains(y) by {
                    if s.to_set().contains(y) {
                        let k = choose|k: int| 0 <= k < s.len() && s[k] == y;
                        if k < q.len() {
                            assert(q[k] == y);
                            assert(q.to_set().contains(y));
                        }
                    }
                    if d.to_set().contains(y) {
                        assert(q.to_set().contains(y));
                        let k = choose|k: int| 0 <= k < q.len() && q[k] == y;
                        assert(s[k] == y);
                    }
                }
            }
            assert forall|i: int, j: int| 0 <= i < j < d.len() implies #[trigger] occurs_before_first(s, d[i], d[j]) by {
                assert(occurs_before_first(q, p[i], p[j]));
                let (a, b) = choose|a: int, b: int|
                    #![trigger q[a], q[b]]
                    0 <= a < b < q.len() && q[a] == p[i] && q[b] == p[j] && (forall|c: int|
                        0 <= c < b ==> q[c] != p[j]);
                assert(s[a] == d[i] && s[b] == d[j]);
                assert forall|c: int| 0 <= c < b implies s[c] != d[j] by {
                    assert(s[c] == q[c]);
                }
            }
        } else {
            assert(d == p.push(x));
            assert(d.no_duplicates()) by {
                assert forall|i: int, j: int| 0 <= i < d.len() && 0 <= j < d.len() && i != j implies d[i] != d[j] by {
                    if i < p.len() && j < p.len() {
                    } else if i == p.len() {
                        assert(d[i] == x);
                        assert(d[j] == p[j]);
                    } else {
                        assert(d[j] == x);
                        assert(d[i] == p[i]);
                    }
                }
            }
            assert(d.to_set() =~= s.to_set()) by {
                assert forall|y: Seq<char>| d.to_set().contains(y) <==> s.to_set().contains(y) by {
                    if s.to_set().contains(y) {
                        let k = choose|k: int| 0 <= k < s.len() && s[k] == y;
                        if k < q.len() {
                            assert(q[k] == y);
                            assert(q.to_set().contains(y));
                            assert(p.to_set().contains(y));
                            let m = choose|m: int| 0 <= m < p.len() && p[m] == y;
                            assert(d[m] == y);
                        } else {
                            assert(d[p.len() as int] == y);
                        }
                    }
                    if d.to_set().contains(y) {
                        let k = choose|k: int| 0 <= k < d.len() && d[k] == y;
                        if k < p.len() {
                            assert(p[k] == y);
                            assert(p.to_set().contains(y));
                            assert(q.to_set().contains(y));
                            let m = choose|m: int| 0 <= m < q.len() && q[m] == y;
                            assert(s[m] == y);
                        } else {
                            assert(s[q.len() as int] == y);
                        }
                    }
                }
            }
            assert forall|i: int, j: int| 0 <= i < j < d.len() implies #[trigger] occurs_before_first(s, d[i], d[j]) by {
                if j < p.len() {
                    assert(occurs_before_first(q, p[i], p[j]));
                    let (a, b) = choose|a: int, b: int|
                        #![trigger q[a], q[b]]
                        0 <= a < b < q.len() && q[a] == p[i] && q[b] == p[j] && (forall|c: int|
                            0 <= c < b ==> q[c] != p[j]);
                    assert(s[a] == d[i] && s[b] == d[j]);
                    assert forall|c: int| 0 <= c < b implies s[c] != d[j] by {
                        assert(s[c] == q[c]);
                    }
                } else {
                    assert(d[j] == x);
                    assert(d[i] == p[i]);
                    assert(p.to_set().contains(p[i]));
                    assert(q.to_set().contains(p[i]));
                    let a = choose|a: int| 0 <= a < q.len() && q[a] == p[i];
                    let b = q.len() as int;
                    assert(s[a] == d[i] && s[b] == d[j]);
                    assert forall|c: int| 0 <= c < b implies s[c] != d[j] by {
                        assert(s[c] == q[c]);
                        if q[c] == x {
                            assert(q.to_set().contains(x));
                            assert(p.to_set().contains(x));
                            let m = choose|m: int| 0 <= m < p.len() && p[m] == x;
                            assert(p.contains(x));
                        }
                    }
                }
            }
        }
    } else {
        assert(spec_dedup(s).to_set() =~= s.to_set());
    }
}

/// The graph of a resolution: the binary first, with its own direct dependencies
/// plus the forced includes, then each resolved library with its own (`None` for
/// a file that would not parse, which stays a leaf). Every list of needs is
/// deduplicated.
pub open spec fn spec_graph_nodes(
    binary: Seq<char>,
    root_needed: Seq<Seq<char>>,
    includes: Seq<Seq<char>>,
    libs: Seq<(Seq<char>, Seq<char>)>,
    lib_needed: Seq<Seq<Seq<char>>>,
) -> Seq<(Seq<char>, Seq<char>, Seq<Seq<char>>)> {
    seq![(spec_name_of(binary), binary, spec_dedup(root_needed + includes))] + Seq::new(
        libs.len(),
        |i: int| (libs[i].0, libs[i].1, spec_dedup(lib_needed[i])),
    )
}

/// The (name, path, needs) views of a list of nodes.
pub open spec fn node_views(nodes: Seq<DepNode>) -> Seq<(Seq<char>, Seq<char>, Seq<Seq<char>>)> {
    nodes.map_values(|n: DepNode| (n.name@, n.path@, views(n.needs@)))
}

/// The direct needs of one library: its own list, or none when it did not parse.
fn needs_of(o: &Option<Vec<String>>) -> (r: Vec<String>)
    ensures
        views(r@) == match o {
            Some(v) => views(v@),
            None => Seq::empty(),
        },
{
    match o {
        Some(v) => crate::image::clone_list(v),
        None => {
            let r: Vec<String> = Vec::new();
            assert(views(r@) =~= Seq::<Seq<char>>::empty());
            r
        },
    }
}

/// Build the dependency graph of `binary` from its resolution, its own direct
/// dependencies, the forced includes, and each resolved library's direct
/// dependencies (`None` for a file that does not parse).
pub fn build(
    binary: &str,
    root_needed: &Vec<String>,
    includes: &Vec<String>,
    resolution: &Resolution,
    lib_needed: &Vec<Option<Vec<String>>>,
) -> (g: DepGraphReport)
    requires
        lib_needed@.len() == resolution@.libs.len(),
    ensures
        g.root@ == spec_name_of(binary@),
        crate::image::opt_view(g.interpreter) == match resolution@.interpreter {
            Some(i) => Some(i.0),
            None => None,
        },
        views(g.missing@) == resolution@.missing,
        node_views(g.nodes@) == spec_graph_nodes(
            binary@,
            views(root_needed@),
            views(includes@),
            resolution@.libs,
            Seq::new(
                lib_needed@.len(),
                |i: int| match lib_needed@[i] {
                    Some(v) => views(v@),
                    None => Seq::empty(),
                },
            ),
        ),
{
    let ghost ln = Seq::new(
        lib_needed@.len(),
        |i: int| match lib_needed@[i] {
            Some(v) => views(v@),
            None => Seq::<Seq<char>>::empty(),
        },
    );
    let ghost rv = resolution@;
    let mut all = crate::image::clone_list(root_needed);
    let mut k: usize = 0;
    while k < includes.len()
        invariant
            k <= includes.len(),
            views(all@) == views(root_needed@) + views(includes@).take(k as int),
        decreases includes.len() - k,
    {
        let ghost before = all@;
        all.push(includes[k].clone());
        proof {
            crate::text::lemma_views_push(before, includes@[k as int]);
            assert(views(includes@).take(k + 1) =~= views(includes@).take(k as int).push(includes@[k as int]@));
            assert(views(all@) =~= views(root_needed@) + views(includes@).take(k + 1));
        }
        k += 1;
    }
    assert(views(includes@).take(includes.len() as int) =~= views(includes@));
    let mut nodes: Vec<DepNode> = Vec::new();
    nodes.push(DepNode { name: file_name_or_path(binary), path: copy_str(binary), needs: dedup(all) });
    let ghost expected = spec_graph_nodes(binary@, views(root_needed@), views(includes@), rv.libs, ln);
    let libs = &resolution.libs;
    let mut i: usize = 0;
    while i < libs.len()
        invariant
            i <= libs.len(),
            lib_needed@.len() == libs.len(),
            rv == resolution@,
            rv.libs == crate::resolver::lib_views(libs@),
            ln == Seq::new(
                lib_needed@.len(),
                |i: int| match lib_needed@[i] {
                    Some(v) => views(v@),
                    None => Seq::<Seq<char>>::empty(),
                },
            ),
            expected == spec_graph_nodes(binary@, views(root_needed@), views(includes@), rv.libs, ln),
            nodes@.len() == i + 1,
            forall|j: int| 0 <= j <= i ==> #[trigger] node_views(nodes@)[j] == expected[j],
        decreases libs.len() - i,
    {
        let lib = &libs[i];
        assert(rv.libs[i as int] == (lib.soname@, lib.path@));
        let needs = needs_of(&lib_needed[i]);
        let ghost before = nodes@;
        nodes.push(DepNode { name: lib.soname.clone(), path: lib.path.clone(), needs: dedup(needs) });
        proof {
            assert forall|j: int| 0 <= j <= i + 1 implies #[trigger] node_views(nodes@)[j] == expected[j] by {
                if j <= i {
                    assert(nodes@[j] == before[j]);
                    assert(node_views(before)[j] == expected[j]);
                }
            }
        }
        i += 1;
    }
    assert(node_views(nodes@) =~= expected);
    let interpreter = resolution.interpreter_path();
    DepGraphReport {
        root: file_name_or_path(binary),
        interpreter,
        nodes,
        missing: crate::image::clone_list(&resolution.missing),
    }
}


// ---------------------------------------------------------------------------
// The tree
// ---------------------------------------------------------------------------

/// The first node at or after `j` named `name`.
pub open spec fn find_node(nodes: Seq<(Seq<char>, Seq<char>, Seq<Seq<char>>)>, name: Seq<char>, j: int) -> Option<int>
    decreases nodes.len() - j,
{
    if j < 0 || j >= nodes.len() {
        None
    } else if nodes[j].0 == name {
        Some(j)
    } else {
        find_node(nodes, name, j + 1)
    }
}

/// A found node lies at or after the start, within the nodes, and has the name.
proof fn lemma_find_node(nodes: Seq<(Seq<char>, Seq<char>, Seq<Seq<char>>)>, name: Seq<char>, j: int)
    ensures
        find_node(nodes, name, j) matches Some(k) ==> j <= k < nodes.len() && 0 <= k && nodes[k].0 == name,
    decreases nodes.len() - j,
{
    if 0 <= j < nodes.len() && nodes[j].0 != name {
        lemma_find_node(nodes, name, j + 1);
    }
}

/// The branch drawn before an entry: the last of its siblings closes the branch.
pub open spec fn branch(last: bool) -> Seq<char> {
    if last {
        "└── "@
    } else {
        "├── "@
    }
}

/// What the children of an entry are indented by.
pub open spec fn indent(last: bool) -> Seq<char> {
    if last {
        "    "@
    } else {
        "│   "@
    }
}

/// The lines of the needs `needs[k..]` of an entry drawn at `prefix`, and which
/// nodes are shown once they are drawn. A resolved library is drawn in full, with
/// its path and its own needs below it, the first time only; a later repeat is
/// marked `(*)`, and a need no node resolves is marked `(missing)`. Each level
/// down draws a node not drawn before, so `fuel` (the number of nodes) never runs out.
pub open spec fn render(
    nodes: Seq<(Seq<char>, Seq<char>, Seq<Seq<char>>)>,
    needs: Seq<Seq<char>>,
    k: int,
    prefix: Seq<char>,
    shown: Seq<bool>,
    fuel: nat,
) -> (Seq<Seq<char>>, Seq<bool>)
    decreases fuel, needs.len() - k,
{
    if k < 0 || k >= needs.len() {
        (Seq::empty(), shown)
    } else {
        let last = k == needs.len() - 1;
        let head = prefix + branch(last) + needs[k];
        match find_node(nodes, needs[k], 1) {
            None => {
                let rest = render(nodes, needs, k + 1, prefix, shown, fuel);
                (seq![head + " (missing)"@] + rest.0, rest.1)
            },
            Some(j) => if j >= shown.len() || shown[j] || fuel == 0 {
                let rest = render(nodes, needs, k + 1, prefix, shown, fuel);
                (seq![head + " (*)"@] + rest.0, rest.1)
            } else {
                let sub = render(nodes, nodes[j].2, 0, prefix + indent(last), shown.update(j, true), (fuel - 1) as nat);
                let rest = render(nodes, needs, k + 1, prefix, sub.1, fuel);
                (seq![head + " ("@ + nodes[j].1 + ")"@] + sub.0 + rest.0, rest.1)
            },
        }
    }
}

/// How many nodes are not drawn yet.
pub open spec fn undrawn(shown: Seq<bool>) -> nat
    decreases shown.len(),
{
    if shown.len() == 0 {
        0
    } else {
        undrawn(shown.drop_last()) + if shown.last() {
            0nat
        } else {
            1nat
        }
    }
}

/// Drawing an undrawn node leaves one fewer to draw.
proof fn lemma_undrawn_update(shown: Seq<bool>, j: int)
    requires
        0 <= j < shown.len(),
        !shown[j],
    ensures
        undrawn(shown.update(j, true)) + 1 == undrawn(shown),
    decreases shown.len(),
{
    if j == shown.len() - 1 {
        assert(shown.update(j, true).drop_last() =~= shown.drop_last());
    } else {
        lemma_undrawn_update(shown.drop_last(), j);
        assert(shown.update(j, true).drop_last() =~= shown.drop_last().update(j, true));
    }
}

/// With a budget of at least the undrawn nodes, the lines drawn do not depend on
/// the budget, and drawing never adds undrawn nodes.
proof fn lemma_render_budget(
    nodes: Seq<(Seq<char>, Seq<char>, Seq<Seq<char>>)>,
    needs: Seq<Seq<char>>,
    k: int,
    prefix: Seq<char>,
    shown: Seq<bool>,
    f1: nat,
    f2: nat,
)
    requires
        f1 >= undrawn(shown),
        f2 >= undrawn(shown),
    ensures
        render(nodes, needs, k, prefix, shown, f1) == render(nodes, needs, k, prefix, shown, f2),
        render(nodes, needs, k, prefix, shown, f1).1.len() == shown.len(),
        undrawn(render(nodes, needs, k, prefix, shown, f1).1) <= undrawn(shown),
    decreases f1, needs.len() - k,
{
    if k < 0 || k >= needs.len() {
    } else {
        let last = k == needs.len() - 1;
        lemma_find_node(nodes, needs[k], 1);
        match find_node(nodes, needs[k], 1) {
            None => {
                lemma_render_budget(nodes, needs, k + 1, prefix, shown, f1, f2);
            },
            Some(j) => {
                if j >= shown.len() || shown[j] {
                    lemma_render_budget(nodes, needs, k + 1, prefix, shown, f1, f2);
                } else {
                    lemma_undrawn_update(shown, j);
                    let s2 = shown.update(j, true);
                    lemma_render_budget(nodes, nodes[j].2, 0, prefix + indent(last), s2, (f1 - 1) as nat, (f2 - 1) as nat);
                    let sub = render(nodes, nodes[j].2, 0, prefix + indent(last), s2, (f1 - 1) as nat);
                    lemma_render_budget(nodes, needs, k + 1, prefix, sub.1, f1, f2);
                }
            },
        }
    }
}

/// The dependency tree never runs out of its node budget: the tree drawn with one
/// budget per node is the tree drawn with any larger budget, so every library is
/// drawn in full at its first occurrence and `(*)` marks only true repeats.
pub proof fn law_graph_budget_suffices(nodes: Seq<(Seq<char>, Seq<char>, Seq<Seq<char>>)>, budget: nat)
    requires
        nodes.len() > 0,
        budget >= nodes.len(),
    ensures
        render(nodes, nodes[0].2, 0, Seq::empty(), Seq::new(nodes.len(), |i: int| i == 0), nodes.len())
            == render(nodes, nodes[0].2, 0, Seq::empty(), Seq::new(nodes.len(), |i: int| i == 0), budget),
{
    let shown = Seq::new(nodes.len(), |i: int| i == 0);
    lemma_undrawn_le_len(shown);
    lemma_render_budget(nodes, nodes[0].2, 0, Seq::empty(), shown, nodes.len(), budget);
}

/// At most every node is undrawn.
proof fn lemma_undrawn_le_len(shown: Seq<bool>)
    ensures
        undrawn(shown) <= shown.len(),
    decreases shown.len(),
{
    if shown.len() > 0 {
        lemma_undrawn_le_len(shown.drop_last());
    }
}

/// The last line: the loader the kernel starts, or that there is none.
pub open spec fn interpreter_line(g: DepGraphReport) -> Seq<char> {
    "interpreter: "@ + match crate::image::opt_view(g.interpreter) {
        Some(i) => i,
        None => "none (static binary)"@,
    }
}

/// The text of a graph: the binary with its path, its dependency tree, and the loader.
pub open spec fn graph_lines(g: DepGraphReport) -> Seq<Seq<char>> {
    let nv = node_views(g.nodes@);
    if nv.len() == 0 {
        seq![g.root@, interpreter_line(g)]
    } else {
        seq![nv[0].0 + " ("@ + nv[0].1 + ")"@] + render(
            nv,
            nv[0].2,
            0,
            Seq::empty(),
            Seq::new(nv.len(), |i: int| i == 0),
            nv.len(),
        ).0 + seq![interpreter_line(g)]
    }
}

/// The index of the first node after the root named `name`.
fn find_node_exec(nodes: &Vec<DepNode>, name: &str) -> (r: Option<usize>)
    ensures
        match r {
            Some(j) => find_node(node_views(nodes@), name@, 1) == Some(j as int),
            None => find_node(node_views(nodes@), name@, 1) is None,
        },
{
    let ghost nv = node_views(nodes@);
    proof {
        lemma_find_node(nv, name@, 1);
    }
    let mut j: usize = 1;
    if nodes.len() == 0 {
        return None;
    }
    while j < nodes.len()
        invariant
            1 <= j <= nodes.len(),
            nv == node_views(nodes@),
            find_node(nv, name@, 1) == find_node(nv, name@, j as int),
        decreases nodes.len() - j,
    {
        assert(nv[j as int].0 == nodes@[j as int].name@);
        if crate::text::str_eq(nodes[j].name.as_str(), name) {
            return Some(j);
        }
        j += 1;
    }
    None
}

/// The lines of `needs[k..]` drawn at `prefix`, marking each node drawn in `shown`.
fn render_exec(
    nodes: &Vec<DepNode>,
    needs: &Vec<String>,
    k: usize,
    prefix: &str,
    shown: &mut Vec<bool>,
    fuel: usize,
) -> (out: Vec<String>)
    requires
        k <= needs.len(),
        old(shown)@.len() == nodes@.len(),
    ensures
        (views(out@), final(shown)@) == render(
            node_views(nodes@),
            views(needs@),
            k as int,
            prefix@,
            old(shown)@,
            fuel as nat,
        ),
        final(shown)@.len() == nodes@.len(),
    decreases fuel, needs.len() - k,
{
    let ghost nv = node_views(nodes@);
    if k >= needs.len() {
        let out: Vec<String> = Vec::new();
        assert(views(out@) =~= Seq::<Seq<char>>::empty());
        return out;
    }
    let last = k + 1 == needs.len();
    let mut head = copy_str(prefix);
    head.append(if last {
        "└── "
    } else {
        "├── "
    });
    head.append(needs[k].as_str());
    assert(views(needs@)[k as int] == needs@[k as int]@);
    let ghost h = head@;
    let mut out: Vec<String> = Vec::new();
    proof {
        lemma_find_node(nv, needs@[k as int]@, 1);
    }
    match find_node_exec(nodes, needs[k].as_str()) {
        None => {
            head.append(" (missing)");
            out.push(head);
            let rest = render_exec(nodes, needs, k + 1, prefix, shown, fuel);
            let all = crate::resolver::concat_strings(&out, &rest);
            proof {
                crate::text::lemma_views_add(out@, rest@);
                assert(views(out@) =~= seq![h + " (missing)"@]);
            }
            all
        },
        Some(j) => {
            if shown[j] || fuel == 0 {
                head.append(" (*)");
                out.push(head);
                let rest = render_exec(nodes, needs, k + 1, prefix, shown, fuel);
                let all = crate::resolver::concat_strings(&out, &rest);
                proof {
                    crate::text::lemma_views_add(out@, rest@);
                    assert(views(out@) =~= seq![h + " (*)"@]);
                }
                all
            } else {
                head.append(" (");
                head.append(nodes[j].path.as_str());
                head.append(")");
                assert(nv[j as int].1 == nodes@[j as int].path@);
                assert(nv[j as int].2 == views(nodes@[j as int].needs@));
                out.push(head);
                shown.set(j, true);
                let mut child_prefix = copy_str(prefix);
                child_prefix.append(if last {
                    "    "
                } else {
                    "│   "
                });
                let sub = render_exec(nodes, &nodes[j].needs, 0, child_prefix.as_str(), shown, fuel - 1);
                let rest = render_exec(nodes, needs, k + 1, prefix, shown, fuel);
                let first = crate::resolver::concat_strings(&out, &sub);
                let all = crate::resolver::concat_strings(&first, &rest);
                proof {
                    crate::text::lemma_views_add(out@, sub@);
                    crate::text::lemma_views_add(first@, rest@);
                    assert(views(out@) =~= seq![h + " ("@ + nv[j as int].1 + ")"@]);
                }
                all
            }
        },
    }
}

impl DepGraphReport {
    /// The text rendering: the binary with its path, then its dependency tree, then
    /// the loader (PT_INTERP) on the last line.
    pub fn to_text(&self) -> (s: String)
        ensures
            s@ == crate::text::join(graph_lines(*self), "\n"@),
    {
        let ghost nv = node_views(self.nodes@);
        let mut interp = copy_str("interpreter: ");
        match &self.interpreter {
            Some(i) => interp.append(i.as_str()),
            None => interp.append("none (static binary)"),
        }
        let mut lines: Vec<String> = Vec::new();
        if self.nodes.len() == 0 {
            lines.push(self.root.clone());
            lines.push(interp);
            assert(views(lines@) =~= graph_lines(*self));
            return crate::text::join_strings(&lines, "\n");
        }
        let mut root = copy_str(self.nodes[0].name.as_str());
        root.append(" (");
        root.append(self.nodes[0].path.as_str());
        root.append(")");
        lines.push(root);
        let mut shown: Vec<bool> = Vec::new();
        let mut i: usize = 0;
        while i < self.nodes.len()
            invariant
                i <= self.nodes.len(),
                shown@ == Seq::new(i as nat, |k: int| k == 0),
            decreases self.nodes.len() - i,
        {
            shown.push(i == 0);
            assert(shown@ =~= Seq::new((i + 1) as nat, |k: int| k == 0));
            i += 1;
        }
        assert(nv[0].0 == self.nodes@[0].name@ && nv[0].1 == self.nodes@[0].path@);
        assert(nv[0].2 == views(self.nodes@[0].needs@));
        let tree = render_exec(&self.nodes, &self.nodes[0].needs, 0, "", &mut shown, self.nodes.len());
        let mut tail: Vec<String> = Vec::new();
        tail.push(interp);
        let head_and_tree = crate::resolver::concat_strings(&lines, &tree);
        let all = crate::resolver::concat_strings(&head_and_tree, &tail);
        proof {
            crate::text::lemma_views_add(lines@, tree@);
            crate::text::lemma_views_add(head_and_tree@, tail@);
            reveal_strlit("");
            assert(""@ =~= Seq::<char>::empty());
            assert(views(all@) =~= graph_lines(*self));
        }
        crate::text::join_strings(&all, "\n")
    }
}

} // verus!
