//! Crate dependency graphs and their publish order.

use std::path::{Path, PathBuf};
use vstd::prelude::*;

use super::local_manifest::path_buf;
use super::PromoteError;
use crate::text::{cat, cat3, ends_with, has_prefix, has_suffix, owned, starts_with};
use crate::toml_doc::{strs_view, toml_node, toml_node_at, NodeView, TomlNode};

verus! {

/// A crate node in the dependency graph.
#[derive(Debug)]
pub struct CrateNode {
    pub name: String,
    pub version: String,
    pub manifest_path: PathBuf,
    /// Internal deps (names of other crates in the graph).
    pub internal_deps: Vec<String>,
    /// Whether this crate has `publish = false`.
    pub unpublishable: bool,
    /// Deps that use path-only (no version) — blocks publishing.
    pub path_only_deps: Vec<String>,
}

/// Clones a list of strings element by element.
pub fn clone_strings(v: &Vec<String>) -> (r: Vec<String>)
    ensures
        r@ == v@,
{
    let mut r: Vec<String> = Vec::new();
    let mut i: usize = 0;
    while i < v.len()
        invariant
            i <= v@.len(),
            r@ == v@.subrange(0, i as int),
        decreases v@.len() - i,
    {
        r.push(v[i].clone());
        assert(r@ =~= v@.subrange(0, i + 1));
        i = i + 1;
    }
    assert(v@.subrange(0, v@.len() as int) =~= v@);
    r
}

impl Clone for CrateNode {
    fn clone(&self) -> (r: Self)
        ensures
            r.name == self.name,
            r.version == self.version,
            r.manifest_path == self.manifest_path,
            r.internal_deps@ == self.internal_deps@,
            r.unpublishable == self.unpublishable,
            r.path_only_deps@ == self.path_only_deps@,
    {
        CrateNode {
            name: self.name.clone(),
            version: self.version.clone(),
            manifest_path: super::clone_path(&self.manifest_path),
            internal_deps: clone_strings(&self.internal_deps),
            unpublishable: self.unpublishable,
            path_only_deps: clone_strings(&self.path_only_deps),
        }
    }
}

/// Number of occurrences of `x` in `s`.
pub open spec fn count_of<A>(s: Seq<A>, x: A) -> nat
    decreases s.len(),
{
    if s.len() == 0 {
        0
    } else {
        count_of(s.drop_last(), x) + if s.last() == x {
            1nat
        } else {
            0nat
        }
    }
}

/// Number of entries of `s` outside the set `p`.
pub open spec fn outside<A>(s: Seq<A>, p: Set<A>) -> nat
    decreases s.len(),
{
    if s.len() == 0 {
        0
    } else {
        outside(s.drop_last(), p) + if p.contains(s.last()) {
            0nat
        } else {
            1nat
        }
    }
}

/// The index a dependency name resolves to: the last node with that name.
pub open spec fn resolve(nodes: Seq<CrateNode>, name: Seq<char>) -> Option<int>
    decreases nodes.len(),
{
    if nodes.len() == 0 {
        None
    } else if nodes.last().name@ == name {
        Some(nodes.len() - 1)
    } else {
        resolve(nodes.drop_last(), name)
    }
}

/// The graph nodes that the dependency names `deps` resolve to, in order,
/// one entry per resolving name.
pub open spec fn targets(nodes: Seq<CrateNode>, deps: Seq<String>) -> Seq<usize>
    decreases deps.len(),
{
    if deps.len() == 0 {
        Seq::empty()
    } else {
        let rest = targets(nodes, deps.drop_last());
        match resolve(nodes, deps.last()@) {
            Some(j) => rest.push(j as usize),
            None => rest,
        }
    }
}

/// The nodes that node `i` depends on (with multiplicity).
pub open spec fn deps_of(nodes: Seq<CrateNode>, i: int) -> Seq<usize> {
    targets(nodes, nodes[i].internal_deps@)
}

/// `perm` lists every node once, and no node depends on itself or on a
/// node listed at or after it.
pub open spec fn is_topo_order(nodes: Seq<CrateNode>, perm: Seq<usize>) -> bool {
    &&& perm.len() == nodes.len()
    &&& perm.no_duplicates()
    &&& forall|a: int| 0 <= a < perm.len() ==> perm[a] < nodes.len()
    &&& forall|a: int, b: int|
        0 <= a <= b < perm.len() ==> !#[trigger] deps_of(nodes, perm[a] as int).contains(
            #[trigger] perm[b],
        )
}

/// `placed` orders part of the graph as far as it can go: each node
/// listed once, after the nodes it depends on, and every node left out
/// depends on a node that is also left out. The nodes left out are then
/// exactly those that lie on a dependency cycle or depend on one.
pub open spec fn maximal_partial_order(nodes: Seq<CrateNode>, placed: Seq<usize>) -> bool {
    &&& placed.no_duplicates()
    &&& forall|a: int| 0 <= a < placed.len() ==> placed[a] < nodes.len()
    &&& forall|a: int, k: int|
        0 <= a < placed.len() && 0 <= k < deps_of(nodes, placed[a] as int).len()
            ==> placed.subrange(0, a).contains(#[trigger] deps_of(nodes, placed[a] as int)[k])
    &&& forall|x: usize|
        x < nodes.len() && !placed.contains(x) ==> exists|k: int|
            0 <= k < deps_of(nodes, x as int).len() && !placed.contains(
                #[trigger] deps_of(nodes, x as int)[k],
            )
}

/// The last position before `a` in `perm` that holds a dependency of node
/// `x`, or `-1` when none does.
pub open spec fn last_dep_before(nodes: Seq<CrateNode>, perm: Seq<usize>, x: int, a: int) -> int
    decreases a,
{
    if a <= 0 {
        -1
    } else if deps_of(nodes, x).contains(perm[a - 1]) {
        a - 1
    } else {
        last_dep_before(nodes, perm, x, a - 1)
    }
}

/// The node at position `a` of `perm` comes before the one at `b` by the
/// order in which a first-in first-out topological sort releases them:
/// first by the position of the last dependency placed (`-1` for none),
/// then by node index.
pub open spec fn released_before(nodes: Seq<CrateNode>, perm: Seq<usize>, a: int, b: int) -> bool {
    let ka = last_dep_before(nodes, perm, perm[a] as int, a);
    let kb = last_dep_before(nodes, perm, perm[b] as int, b);
    ka < kb || (ka == kb && perm[a] < perm[b])
}

/// `perm` is the order `topo_sort` produces: a topological order in
/// which the nodes come as a first-in first-out queue releases them,
/// starting from the nodes without dependencies in index order, and
/// appending each node, in index order, when its last dependency is
/// taken. There is at most one such order
/// ([`lemma_release_order_unique`]).
pub open spec fn is_release_order(nodes: Seq<CrateNode>, perm: Seq<usize>) -> bool {
    &&& is_topo_order(nodes, perm)
    &&& forall|a: int, b: int| 0 <= a < b < perm.len() ==> #[trigger] released_before(nodes, perm, a, b)
}

/// The release order of a graph, where it has one (see
/// [`is_release_order`]).
pub open spec fn release_order(nodes: Seq<CrateNode>) -> Seq<usize> {
    choose|perm: Seq<usize>| is_release_order(nodes, perm)
}

/// The names of the nodes listed by `perm`, in that order.
pub open spec fn names_along(nodes: Seq<CrateNode>, perm: Seq<usize>) -> Seq<Seq<char>> {
    perm.map_values(|i: usize| nodes[i as int].name@)
}

/// `parts` joined with `sep` between consecutive parts.
pub open spec fn joined(parts: Seq<Seq<char>>, sep: Seq<char>) -> Seq<char>
    decreases parts.len(),
{
    if parts.len() == 0 {
        Seq::empty()
    } else if parts.len() == 1 {
        parts[0]
    } else {
        joined(parts.drop_last(), sep) + sep + parts.last()
    }
}

/// Names of the nodes (in node order) whose name is not in `placed`.
pub open spec fn names_missing(nodes: Seq<CrateNode>, placed: Seq<Seq<char>>) -> Seq<Seq<char>> {
    nodes.map_values(|n: CrateNode| n.name@).filter(|s: Seq<char>| !placed.contains(s))
}

proof fn lemma_count_push<A>(s: Seq<A>, y: A, x: A)
    ensures
        count_of(s.push(y), x) == count_of(s, x) + if y == x {
            1nat
        } else {
            0nat
        },
{
    assert(s.push(y).drop_last() =~= s);
}

proof fn lemma_outside_empty_set<A>(s: Seq<A>)
    ensures
        outside(s, Set::empty()) == s.len(),
    decreases s.len(),
{
    if s.len() > 0 {
        lemma_outside_empty_set(s.drop_last());
    }
}

proof fn lemma_outside_insert<A>(s: Seq<A>, p: Set<A>, x: A)
    requires
        !p.contains(x),
    ensures
        outside(s, p.insert(x)) + count_of(s, x) == outside(s, p),
        count_of(s, x) <= outside(s, p),
    decreases s.len(),
{
    if s.len() > 0 {
        lemma_outside_insert(s.drop_last(), p, x);
    }
}

proof fn lemma_outside_zero<A>(s: Seq<A>, p: Set<A>)
    requires
        outside(s, p) == 0,
    ensures
        forall|k: int| 0 <= k < s.len() ==> p.contains(#[trigger] s[k]),
    decreases s.len(),
{
    if s.len() > 0 {
        lemma_outside_zero(s.drop_last(), p);
        assert forall|k: int| 0 <= k < s.len() implies p.contains(#[trigger] s[k]) by {
            if k < s.len() - 1 {
                assert(s[k] == s.drop_last()[k]);
            }
        }
    }
}

proof fn lemma_outside_positive<A>(s: Seq<A>, p: Set<A>) -> (k: int)
    requires
        outside(s, p) > 0,
    ensures
        0 <= k < s.len(),
        !p.contains(s[k]),
    decreases s.len(),
{
    if p.contains(s.last()) {
        let k = lemma_outside_positive(s.drop_last(), p);
        assert(s[k] == s.drop_last()[k]);
        k
    } else {
        s.len() - 1
    }
}

proof fn lemma_count_prefix<A>(s: Seq<A>, k: int, x: A)
    requires
        0 <= k <= s.len(),
    ensures
        count_of(s.subrange(0, k), x) <= count_of(s, x),
    decreases s.len() - k,
{
    if k < s.len() {
        lemma_count_prefix(s, k + 1, x);
        assert(s.subrange(0, k + 1).drop_last() =~= s.subrange(0, k));
    } else {
        assert(s.subrange(0, k) =~= s);
    }
}

proof fn lemma_count_positive<A>(s: Seq<A>, x: A)
    requires
        count_of(s, x) > 0,
    ensures
        s.contains(x),
    decreases s.len(),
{
    if s.last() != x {
        lemma_count_positive(s.drop_last(), x);
        let k = choose|k: int| 0 <= k < s.drop_last().len() && s.drop_last()[k] == x;
        assert(s[k] == x);
    } else {
        assert(s[s.len() - 1] == x);
    }
}

proof fn lemma_contains_count<A>(s: Seq<A>, x: A)
    requires
        s.contains(x),
    ensures
        count_of(s, x) > 0,
    decreases s.len(),
{
    if s.last() != x {
        let k = choose|k: int| 0 <= k < s.len() && s[k] == x;
        assert(s.drop_last()[k] == x);
        lemma_contains_count(s.drop_last(), x);
    }
}

proof fn lemma_resolve_range(nodes: Seq<CrateNode>, name: Seq<char>)
    ensures
        resolve(nodes, name) matches Some(j) ==> 0 <= j < nodes.len() && nodes[j].name@ == name,
    decreases nodes.len(),
{
    if nodes.len() > 0 && nodes.last().name@ != name {
        lemma_resolve_range(nodes.drop_last(), name);
    }
}

proof fn lemma_targets_range(nodes: Seq<CrateNode>, deps: Seq<String>)
    requires
        nodes.len() <= usize::MAX,
    ensures
        forall|k: int| 0 <= k < targets(nodes, deps).len() ==> #[trigger] targets(nodes, deps)[k]
            < nodes.len(),
    decreases deps.len(),
{
    if deps.len() > 0 {
        lemma_targets_range(nodes, deps.drop_last());
        lemma_resolve_range(nodes, deps.last()@);
        let rest = targets(nodes, deps.drop_last());
        assert forall|k: int| 0 <= k < targets(nodes, deps).len() implies #[trigger] targets(
            nodes,
            deps,
        )[k] < nodes.len() by {
            if k < rest.len() {
                assert(targets(nodes, deps)[k] == rest[k]);
            }
        }
    }
}

proof fn lemma_targets_step(nodes: Seq<CrateNode>, deps: Seq<String>, k: int)
    requires
        0 <= k < deps.len(),
    ensures
        targets(nodes, deps.subrange(0, k + 1)) == (match resolve(nodes, deps[k]@) {
            Some(j) => targets(nodes, deps.subrange(0, k)).push(j as usize),
            None => targets(nodes, deps.subrange(0, k)),
        }),
{
    assert(deps.subrange(0, k + 1).drop_last() =~= deps.subrange(0, k));
}

/// Every dependency of a queued node is queued before it.
#[verifier::opaque]
spec fn deps_first(ns: Seq<CrateNode>, q: Seq<usize>) -> bool {
    forall|a: int, k: int|
        0 <= a < q.len() && 0 <= k < deps_of(ns, q[a] as int).len() ==> q.subrange(0, a).contains(
            #[trigger] deps_of(ns, q[a] as int)[k],
        )
}

proof fn lemma_prefix_set_step(q: Seq<usize>, h: int)
    requires
        0 <= h < q.len(),
    ensures
        q.subrange(0, h + 1).to_set() == q.subrange(0, h).to_set().insert(q[h]),
{
    let a = q.subrange(0, h + 1);
    let b = q.subrange(0, h);
    assert forall|x: usize| a.to_set().contains(x) <==> b.to_set().insert(q[h]).contains(x) by {
        if a.contains(x) {
            let i = choose|i: int| 0 <= i < a.len() && a[i] == x;
            if i < h {
                assert(b[i] == x);
            }
        }
        if b.contains(x) {
            let i = choose|i: int| 0 <= i < b.len() && b[i] == x;
            assert(a[i] == x);
        }
        if x == q[h] {
            assert(a[h] == x);
        }
    }
    assert(a.to_set() =~= b.to_set().insert(q[h]));
}

/// Finds the last node named `name` (what a name-to-index hash map built
/// from the nodes in order answers).
pub fn find_last(nodes: &[CrateNode], name: &String) -> (r: Option<usize>)
    ensures
        r matches Some(j) ==> resolve(nodes@, name@) == Some(j as int),
        r is None ==> resolve(nodes@, name@) is None,
{
    let mut i = nodes.len();
    assert(nodes@.subrange(0, i as int) =~= nodes@);
    while i > 0
        invariant
            i <= nodes@.len(),
            resolve(nodes@, name@) == resolve(nodes@.subrange(0, i as int), name@),
        decreases i,
    {
        let ghost pre = nodes@.subrange(0, i as int);
        assert(pre.drop_last() =~= nodes@.subrange(0, i - 1));
        assert(pre.last() == nodes@[i - 1]);
        if nodes[i - 1].name == *name {
            return Some(i - 1);
        }
        i = i - 1;
    }
    assert(nodes@.subrange(0, 0) =~= Seq::<CrateNode>::empty());
    None
}

/// In-degree of every node and, for every node, the nodes depending on it
/// (one entry per dependency edge).
fn build_graph(nodes: &[CrateNode]) -> (r: (Vec<usize>, Vec<Vec<usize>>))
    ensures
        r.0@.len() == nodes@.len(),
        r.1@.len() == nodes@.len(),
        forall|x: int| 0 <= x < nodes@.len() ==> #[trigger] r.0@[x] == deps_of(nodes@, x).len(),
        forall|j: int, d: usize|
            0 <= j < nodes@.len() ==> #[trigger] count_of(r.1@[j]@, d) == if d < nodes@.len() {
                count_of(deps_of(nodes@, d as int), j as usize)
            } else {
                0
            },
        forall|j: int, k: int|
            0 <= j < nodes@.len() && 0 <= k < r.1@[j]@.len() ==> #[trigger] r.1@[j]@[k]
                < nodes@.len(),
        forall|j: int, a: int, b: int|
            0 <= j < nodes@.len() && 0 <= a < b < r.1@[j]@.len() ==> #[trigger] r.1@[j]@[a]
                <= #[trigger] r.1@[j]@[b],
{
    let n = nodes.len();
    let ghost ns = nodes@;
    let mut in_degree: Vec<usize> = Vec::new();
    let mut dependents: Vec<Vec<usize>> = Vec::new();
    let mut i: usize = 0;
    while i < n
        invariant
            n == ns.len(),
            ns == nodes@,
            i <= n,
            in_degree@.len() == i,
            dependents@.len() == i,
            forall|x: int| 0 <= x < i ==> #[trigger] in_degree@[x] == 0,
            forall|x: int| 0 <= x < i ==> #[trigger] dependents@[x]@ == Seq::<usize>::empty(),
        decreases n - i,
    {
        in_degree.push(0);
        dependents.push(Vec::new());
        i = i + 1;
    }
    i = 0;
    while i < n
        invariant
            n == ns.len(),
            ns == nodes@,
            i <= n,
            in_degree@.len() == n,
            dependents@.len() == n,
            forall|x: int| 0 <= x < i ==> #[trigger] in_degree@[x] == deps_of(ns, x).len(),
            forall|x: int| i <= x < n ==> #[trigger] in_degree@[x] == 0,
            forall|j: int, d: usize|
                0 <= j < n ==> #[trigger] count_of(dependents@[j]@, d) == if d < i {
                    count_of(deps_of(ns, d as int), j as usize)
                } else {
                    0
                },
            forall|j: int, k: int|
                0 <= j < n && 0 <= k < dependents@[j]@.len() ==> #[trigger] dependents@[j]@[k] < n,
            forall|j: int, k: int|
                0 <= j < n && 0 <= k < dependents@[j]@.len() ==> #[trigger] dependents@[j]@[k] < i,
            forall|j: int, a: int, b: int|
                0 <= j < n && 0 <= a < b < dependents@[j]@.len() ==> #[trigger] dependents@[j]@[a]
                    <= #[trigger] dependents@[j]@[b],
        decreases n - i,
    {
        let deps = &nodes[i].internal_deps;
        let m = deps.len();
        let mut k: usize = 0;
        assert(deps@.subrange(0, 0) =~= Seq::<String>::empty());
        while k < m
            invariant
                n == ns.len(),
                ns == nodes@,
                i < n,
                deps@ == ns[i as int].internal_deps@,
                m == deps@.len(),
                k <= m,
                in_degree@.len() == n,
                dependents@.len() == n,
                forall|x: int| 0 <= x < i ==> #[trigger] in_degree@[x] == deps_of(ns, x).len(),
                in_degree@[i as int] == targets(ns, deps@.subrange(0, k as int)).len(),
                in_degree@[i as int] <= k,
                forall|x: int| i < x < n ==> #[trigger] in_degree@[x] == 0,
                forall|j: int, d: usize|
                    0 <= j < n ==> #[trigger] count_of(dependents@[j]@, d) == if d < i {
                        count_of(deps_of(ns, d as int), j as usize)
                    } else if d == i {
                        count_of(targets(ns, deps@.subrange(0, k as int)), j as usize)
                    } else {
                        0
                    },
                forall|j: int, k2: int|
                    0 <= j < n && 0 <= k2 < dependents@[j]@.len() ==> #[trigger] dependents@[j]@[k2]
                        < n,
                forall|j: int, k2: int|
                    0 <= j < n && 0 <= k2 < dependents@[j]@.len() ==> #[trigger] dependents@[j]@[k2]
                        <= i,
                forall|j: int, a: int, b: int|
                    0 <= j < n && 0 <= a < b < dependents@[j]@.len() ==> #[trigger] dependents@[j]@[a]
                        <= #[trigger] dependents@[j]@[b],
            decreases m - k,
        {
            proof {
                lemma_targets_step(ns, deps@, k as int);
                lemma_resolve_range(ns, deps@[k as int]@);
            }
            let found = find_last(nodes, &deps[k]);
            let ghost old_dep = dependents@;
            match found {
                Some(j) => {
                    let deg = in_degree[i];
                    in_degree.set(i, deg + 1);
                    let mut list: Vec<usize> = Vec::new();
                    std::mem::swap(&mut list, &mut dependents[j]);
                    list.push(i);
                    dependents.set(j, list);
                    proof {
                        assert forall|jj: int, d: usize| 0 <= jj < n implies #[trigger] count_of(
                            dependents@[jj]@,
                            d,
                        ) == if d < i {
                            count_of(deps_of(ns, d as int), jj as usize)
                        } else if d == i {
                            count_of(targets(ns, deps@.subrange(0, k + 1)), jj as usize)
                        } else {
                            0
                        } by {
                            lemma_count_push(targets(ns, deps@.subrange(0, k as int)), j, jj as usize);
                            if jj == j {
                                lemma_count_push(old_dep[jj]@, i, d);
                            } else {
                                assert(dependents@[jj] == old_dep[jj]);
                            }
                        }
                        assert forall|jj: int, k2: int|
                            0 <= jj < n && 0 <= k2 < dependents@[jj]@.len() implies #[trigger] dependents@[jj]@[k2]
                                < n by {
                            if jj == j && k2 == dependents@[jj]@.len() - 1 {
                            } else if jj == j {
                                assert(dependents@[jj]@[k2] == old_dep[jj]@[k2]);
                            } else {
                                assert(dependents@[jj] == old_dep[jj]);
                            }
                        }
                        assert forall|jj: int, k2: int|
                            0 <= jj < n && 0 <= k2 < dependents@[jj]@.len() implies #[trigger] dependents@[jj]@[k2]
                                <= i by {
                            if jj == j && k2 == dependents@[jj]@.len() - 1 {
                            } else if jj == j {
                                assert(dependents@[jj]@[k2] == old_dep[jj]@[k2]);
                            } else {
                                assert(dependents@[jj] == old_dep[jj]);
                            }
                        }
                        assert forall|jj: int, a: int, b: int|
                            0 <= jj < n && 0 <= a < b < dependents@[jj]@.len() implies #[trigger] dependents@[jj]@[a]
                                <= #[trigger] dependents@[jj]@[b] by {
                            if jj == j {
                                assert(dependents@[jj]@[a] == old_dep[jj]@[a]);
                                if b < dependents@[jj]@.len() - 1 {
                                    assert(dependents@[jj]@[b] == old_dep[jj]@[b]);
                                }
                            } else {
                                assert(dependents@[jj] == old_dep[jj]);
                            }
                        }
                    }
                },
                None => {},
            }
            k = k + 1;
        }
        proof {
            assert(deps@.subrange(0, m as int) =~= deps@);
        }
        i = i + 1;
    }
    (in_degree, dependents)
}

/// The nodes without dependencies, in increasing order.
fn roots(in_degree: &Vec<usize>) -> (queue: Vec<usize>)
    ensures
        forall|a: int, b: int| 0 <= a < b < queue@.len() ==> queue@[a] < queue@[b],
        forall|a: int| 0 <= a < queue@.len() ==> #[trigger] queue@[a] < in_degree@.len(),
        forall|x: usize| x < in_degree@.len() ==> (queue@.contains(x) <==> in_degree@[x as int] == 0),
{
    let n = in_degree.len();
    let mut queue: Vec<usize> = Vec::new();
    let mut i: usize = 0;
    while i < n
        invariant
            n == in_degree@.len(),
            i <= n,
            forall|a: int, b: int| 0 <= a < b < queue@.len() ==> queue@[a] < queue@[b],
            forall|a: int| 0 <= a < queue@.len() ==> #[trigger] queue@[a] < i,
            forall|x: usize| x < i ==> (queue@.contains(x) <==> in_degree@[x as int] == 0),
        decreases n - i,
    {
        let ghost old_q = queue@;
        if in_degree[i] == 0 {
            queue.push(i);
            assert(queue@[queue@.len() - 1] == i);
        }
        assert forall|x: usize| x < i + 1 implies (queue@.contains(x) <==> in_degree@[x as int] == 0) by {
            if x < i {
                if old_q.contains(x) {
                    let b = choose|b: int| 0 <= b < old_q.len() && old_q[b] == x;
                    assert(queue@[b] == x);
                }
                if queue@.contains(x) {
                    let b = choose|b: int| 0 <= b < queue@.len() && queue@[b] == x;
                    if b < old_q.len() {
                        assert(old_q[b] == x);
                    }
                }
            } else {
                if queue@.contains(x) {
                    let b = choose|b: int| 0 <= b < queue@.len() && queue@[b] == x;
                    if b < old_q.len() {
                        assert(old_q[b] < i);
                    }
                }
            }
        }
        i = i + 1;
    }
    queue
}

proof fn lemma_pigeonhole(s: Seq<usize>, n: usize)
    requires
        s.len() == n,
        s.no_duplicates(),
        forall|a: int| 0 <= a < s.len() ==> s[a] < n,
    ensures
        forall|x: usize| x < n ==> s.contains(x),
{
    let r = <usize as vstd::set_lib::FiniteRange>::range_set(0, n);
    vstd::set_lib::range_set_properties::<usize>(0, n);
    s.unique_seq_to_set();
    assert(s.to_set().subset_of(r));
    vstd::set_lib::lemma_subset_equality(s.to_set(), r);
    assert forall|x: usize| x < n implies s.contains(x) by {
        assert(r.contains(x));
        assert(s.to_set().contains(x));
    }
}

/// The first position of `perm` holding a member of `u`, given one at `p`.
proof fn lemma_first_in(perm: Seq<usize>, u: Set<usize>, p: int) -> (a: int)
    requires
        0 <= p < perm.len(),
        u.contains(perm[p]),
    ensures
        0 <= a <= p,
        u.contains(perm[a]),
        forall|b: int| 0 <= b < a ==> !u.contains(#[trigger] perm[b]),
    decreases p,
{
    if exists|b: int| 0 <= b < p && u.contains(#[trigger] perm[b]) {
        let b = choose|b: int| 0 <= b < p && u.contains(#[trigger] perm[b]);
        lemma_first_in(perm, u, b)
    } else {
        p
    }
}

/// Given a nonempty set of nodes `u` each of which depends on a node of
/// `u`, no topological order exists.
proof fn lemma_cycle_blocks_order(nodes: Seq<CrateNode>, u: Set<usize>, perm: Seq<usize>)
    requires
        nodes.len() <= usize::MAX,
        exists|x: usize| u.contains(x) && x < nodes.len(),
        forall|x: usize|
            u.contains(x) && x < nodes.len() ==> exists|k: int|
                0 <= k < deps_of(nodes, x as int).len() && u.contains(
                    #[trigger] deps_of(nodes, x as int)[k],
                ),
    ensures
        !is_topo_order(nodes, perm),
{
    if is_topo_order(nodes, perm) {
        lemma_pigeonhole(perm, nodes.len() as usize);
        let x0 = choose|x: usize| u.contains(x) && x < nodes.len();
        assert(perm.contains(x0));
        let p0 = choose|p: int| 0 <= p < perm.len() && perm[p] == x0;
        let a = lemma_first_in(perm, u, p0);
        let x = perm[a];
        let k = choose|k: int|
            0 <= k < deps_of(nodes, x as int).len() && u.contains(
                #[trigger] deps_of(nodes, x as int)[k],
            );
        let y = deps_of(nodes, x as int)[k];
        lemma_targets_range(nodes, nodes[x as int].internal_deps@);
        assert(perm.contains(y));
        let b = choose|b: int| 0 <= b < perm.len() && perm[b] == y;
        assert(deps_of(nodes, perm[a] as int).contains(perm[b]));
        if b < a {
            assert(!u.contains(perm[b]));
        }
    }
}

/// Joins names with `, `.
fn join_names(parts: &Vec<String>) -> (r: String)
    ensures
        r@ == joined(parts@.map_values(|s: String| s@), ", "@),
{
    let mut r = String::new();
    let ghost v = parts@.map_values(|s: String| s@);
    let mut i: usize = 0;
    assert(v.subrange(0, 0) =~= Seq::<Seq<char>>::empty());
    while i < parts.len()
        invariant
            i <= parts@.len(),
            v == parts@.map_values(|s: String| s@),
            r@ == joined(v.subrange(0, i as int), ", "@),
        decreases parts@.len() - i,
    {
        assert(v.subrange(0, i + 1).drop_last() =~= v.subrange(0, i as int));
        if i > 0 {
            r.append(", ");
        } else {
            assert(v.subrange(0, 1) =~= seq![v[0]]);
        }
        r.append(parts[i].as_str());
        i = i + 1;
    }
    assert(v.subrange(0, parts@.len() as int) =~= v);
    r
}

/// Whether `name` is among `names`.
fn contains_name(names: &Vec<String>, name: &String) -> (r: bool)
    ensures
        r == names@.map_values(|s: String| s@).contains(name@),
{
    let ghost v = names@.map_values(|s: String| s@);
    let mut i: usize = 0;
    while i < names.len()
        invariant
            i <= names@.len(),
            v == names@.map_values(|s: String| s@),
            forall|k: int| 0 <= k < i ==> v[k] != name@,
        decreases names@.len() - i,
    {
        if names[i] == *name {
            assert(v[i as int] == name@);
            return true;
        }
        i = i + 1;
    }
    false
}

/// The names of `nodes` (in order) that are not among `placed`.
fn missing_names(nodes: &[CrateNode], placed: &Vec<String>) -> (r: Vec<String>)
    ensures
        r@.map_values(|s: String| s@) == names_missing(nodes@, placed@.map_values(|s: String| s@)),
{
    let n = nodes.len();
    let mut missing: Vec<String> = Vec::new();
    let mut j: usize = 0;
    let ghost all = nodes@.map_values(|c: CrateNode| c.name@);
    let ghost pl = placed@.map_values(|s: String| s@);
    let ghost pred = |s: Seq<char>| !pl.contains(s);
    assert(all.subrange(0, 0) =~= Seq::<Seq<char>>::empty());
    assert(missing@.map_values(|s: String| s@) =~= Seq::<Seq<char>>::empty());
    while j < n
        invariant
            n == nodes@.len(),
            all == nodes@.map_values(|c: CrateNode| c.name@),
            pl == placed@.map_values(|s: String| s@),
            pred == (|s: Seq<char>| !pl.contains(s)),
            j <= n,
            missing@.map_values(|s: String| s@) == all.subrange(0, j as int).filter(pred),
        decreases n - j,
    {
        proof {
            all.subrange(0, j as int).lemma_filter_push(all[j as int], pred);
            assert(all.subrange(0, j as int).push(all[j as int]) =~= all.subrange(0, j + 1));
        }
        if !contains_name(placed, &nodes[j].name) {
            missing.push(nodes[j].name.clone());
            assert(missing@.map_values(|s: String| s@) =~= all.subrange(0, j as int).filter(
                pred,
            ).push(all[j as int]));
        }
        j = j + 1;
    }
    assert(all.subrange(0, n as int) =~= all);
    missing
}

/// Topological sort of crate nodes (Kahn's algorithm, first-in first-out).
/// Returns names in publish order: every crate after the graph crates it
/// depends on. A cycle is reported with the names left unordered.
pub fn topo_sort(nodes: &[CrateNode]) -> (r: Result<Vec<String>, PromoteError>)
    ensures
        r matches Ok(order) ==> exists|perm: Seq<usize>|
            is_topo_order(nodes@, perm) && order@.map_values(|s: String| s@) == names_along(
                nodes@,
                perm,
            ),
        r matches Ok(order) ==> is_release_order(nodes@, release_order(nodes@))
            && order@.map_values(|s: String| s@) == names_along(nodes@, release_order(nodes@)),
        r is Err ==> forall|perm: Seq<usize>| !is_topo_order(nodes@, perm),
        r matches Err(e) ==> (e matches PromoteError::Other(m) && exists|placed: Seq<usize>|
            #[trigger] maximal_partial_order(nodes@, placed) && m@
                == "circular dependency detected involving: "@ + joined(
                names_missing(nodes@, names_along(nodes@, placed)),
                ", "@,
            )),
{
    let n = nodes.len();
    let ghost ns = nodes@;
    let (mut in_degree, dependents) = build_graph(nodes);
    let mut queue = roots(&in_degree);
    proof {
        assert forall|x: int| 0 <= x < n implies #[trigger] in_degree@[x] == outside(
            deps_of(ns, x),
            queue@.subrange(0, 0).to_set(),
        ) by {
            assert(queue@.subrange(0, 0).to_set() =~= Set::<usize>::empty());
            lemma_outside_empty_set(deps_of(ns, x));
        }
        assert forall|a: int, b: int|
            0 <= a < queue@.len() && 0 <= b < queue@.len() && a != b implies queue@[a] != queue@[b] by {
            if a < b {
                assert(queue@[a] < queue@[b]);
            } else {
                assert(queue@[b] < queue@[a]);
            }
        }
        assert(queue@.no_duplicates());
        reveal(deps_first);
        assert forall|a: int, k: int|
            0 <= a < queue@.len() && 0 <= k < deps_of(ns, queue@[a] as int).len() implies queue@.subrange(0, a).contains(
                #[trigger] deps_of(ns, queue@[a] as int)[k],
            ) by {
            assert(queue@.contains(queue@[a]));
            assert(in_degree@[queue@[a] as int] == 0);
        }
        assert(deps_first(ns, queue@));
        lemma_pigeonhole_le(queue@, n);
        assert forall|b: int| 0 <= b < queue@.len() implies #[trigger] last_dep_before(
            ns,
            queue@,
            queue@[b] as int,
            b,
        ) == -1 by {
            assert(queue@.contains(queue@[b]));
            assert(deps_of(ns, queue@[b] as int).len() == 0);
            lemma_ldb_skip(ns, queue@, queue@[b] as int, 0, b);
        }
        assert forall|a: int, b: int| 0 <= a < b < queue@.len() implies #[trigger] released_before(
            ns,
            queue@,
            a,
            b,
        ) by {
            assert(last_dep_before(ns, queue@, queue@[a] as int, a) == -1);
            assert(last_dep_before(ns, queue@, queue@[b] as int, b) == -1);
        }
    }
    let mut order: Vec<String> = Vec::new();
    let mut head: usize = 0;
    while head < queue.len()
        invariant
            n == ns.len(),
            ns == nodes@,
            in_degree@.len() == n,
            dependents@.len() == n,
            head <= queue@.len(),
            queue@.len() <= n,
            queue@.no_duplicates(),
            forall|a: int| 0 <= a < queue@.len() ==> #[trigger] queue@[a] < n,
            forall|j: int, d: usize|
                0 <= j < n ==> #[trigger] count_of(dependents@[j]@, d) == if d < n {
                    count_of(deps_of(ns, d as int), j as usize)
                } else {
                    0
                },
            forall|j: int, k: int|
                0 <= j < n && 0 <= k < dependents@[j]@.len() ==> #[trigger] dependents@[j]@[k] < n,
            forall|x: int|
                0 <= x < n ==> #[trigger] in_degree@[x] == outside(
                    deps_of(ns, x),
                    queue@.subrange(0, head as int).to_set(),
                ),
            forall|x: usize| x < n ==> (queue@.contains(x) <==> in_degree@[x as int] == 0),
            deps_first(ns, queue@),
            order@.len() == head,
            forall|b: int| 0 <= b < head ==> #[trigger] order@[b]@ == ns[queue@[b] as int].name@,
            forall|a: int, b: int| 0 <= a < b < queue@.len() ==> #[trigger] released_before(ns, queue@, a, b),
            forall|b: int|
                head <= b < queue@.len() ==> #[trigger] last_dep_before(ns, queue@, queue@[b] as int, b)
                    < head,
            forall|j: int, a: int, b: int|
                0 <= j < n && 0 <= a < b < dependents@[j]@.len() ==> #[trigger] dependents@[j]@[a]
                    <= #[trigger] dependents@[j]@[b],
        decreases n - head,
    {
        let idx = queue[head];
        let ghost old_order = order@;
        order.push(nodes[idx].name.clone());
        proof {
            assert forall|b: int| 0 <= b < head + 1 implies #[trigger] order@[b]@ == ns[queue@[b] as int].name@ by {
                if b < head {
                    assert(order@[b] == old_order[b]);
                }
            }
        }
        let ghost p = queue@.subrange(0, head as int).to_set();
        let ghost qlen = queue@.len();
        proof {
            if p.contains(idx) {
                let b = choose|b: int| 0 <= b < head && queue@.subrange(0, head as int)[b] == idx;
                assert(queue@[b] == queue@[head as int]);
            }
        }
        let ghost q0 = queue@;
        let ds = dependents[idx].clone();
        let m = ds.len();
        let mut k: usize = 0;
        assert(ds@.subrange(0, 0) =~= Seq::<usize>::empty());
        while k < m
            invariant
                n == ns.len(),
                ns == nodes@,
                in_degree@.len() == n,
                dependents@.len() == n,
                head < qlen,
                qlen <= queue@.len(),
                queue@.len() <= n,
                queue@.no_duplicates(),
                idx == queue@[head as int],
                !p.contains(idx),
                p == queue@.subrange(0, head as int).to_set(),
                ds@ == dependents@[idx as int]@,
                m == ds@.len(),
                k <= m,
                idx < n,
                forall|a: int| 0 <= a < queue@.len() ==> #[trigger] queue@[a] < n,
                forall|j: int, d: usize|
                    0 <= j < n ==> #[trigger] count_of(dependents@[j]@, d) == if d < n {
                        count_of(deps_of(ns, d as int), j as usize)
                    } else {
                        0
                    },
                forall|j: int, kk: int|
                    0 <= j < n && 0 <= kk < dependents@[j]@.len() ==> #[trigger] dependents@[j]@[kk] < n,
                forall|x: int|
                    0 <= x < n ==> #[trigger] in_degree@[x] + count_of(ds@.subrange(0, k as int), x as usize)
                        == outside(deps_of(ns, x), p),
                forall|x: usize| x < n ==> (queue@.contains(x) <==> in_degree@[x as int] == 0),
                deps_first(ns, queue@),
                q0.len() <= queue@.len(),
                forall|b: int| 0 <= b < q0.len() ==> #[trigger] queue@[b] == q0[b],
                q0.len() == qlen,
                order@.len() == head + 1,
                forall|b: int| 0 <= b < head + 1 ==> #[trigger] order@[b]@ == ns[q0[b] as int].name@,
                forall|a: int, b: int| 0 <= a < b < queue@.len() ==> #[trigger] released_before(ns, queue@, a, b),
                forall|b: int|
                    head <= b < qlen ==> #[trigger] last_dep_before(ns, queue@, queue@[b] as int, b)
                        < head,
                forall|b: int|
                    qlen <= b < queue@.len() ==> #[trigger] last_dep_before(ns, queue@, queue@[b] as int, b)
                        == head && ds@.subrange(0, k as int).contains(queue@[b]),
                forall|a: int, b: int| 0 <= a < b < ds@.len() ==> #[trigger] ds@[a] <= #[trigger] ds@[b],
                forall|j: int, a: int, b: int|
                    0 <= j < n && 0 <= a < b < dependents@[j]@.len() ==> #[trigger] dependents@[j]@[a]
                        <= #[trigger] dependents@[j]@[b],
            decreases m - k,
        {
            let d = ds[k];
            let ghost old_queue = queue@;
            let ghost old_in = in_degree@;
            proof {
                assert(ds@.subrange(0, k + 1) =~= ds@.subrange(0, k as int).push(d));
                assert(d < n);
                lemma_count_push(ds@.subrange(0, k as int), d, d);
                lemma_count_prefix(ds@, k + 1, d);
                lemma_outside_insert(deps_of(ns, d as int), p, idx);
            }
            let deg = in_degree[d];
            in_degree.set(d, deg - 1);
            if deg - 1 == 0 {
                proof {
                    let q = p.insert(idx);
                    assert(outside(deps_of(ns, d as int), q) == 0);
                    lemma_outside_zero(deps_of(ns, d as int), q);
                    assert(!old_queue.contains(d));
                }
                queue.push(d);
                proof {
                    let qn = queue@;
                    let l = old_queue.len() as int;
                    assert(qn == old_queue.push(d));
                    assert forall|x: int, b: int| 0 <= b <= l implies #[trigger] last_dep_before(
                        ns,
                        qn,
                        x,
                        b,
                    ) == last_dep_before(ns, old_queue, x, b) by {
                        lemma_ldb_prefix(ns, qn, old_queue, x, b);
                    }
                    let q = p.insert(idx);
                    let dd = deps_of(ns, d as int);
                    lemma_outside_zero(dd, q);
                    if !dd.contains(idx) {
                        assert forall|kk: int| 0 <= kk < dd.len() implies p.contains(#[trigger] dd[kk]) by {
                            assert(q.contains(dd[kk]));
                            if dd[kk] == idx {
                                assert(dd.contains(idx));
                            }
                        }
                        lemma_outside_all_in(dd, p);
                        assert(old_in[d as int] + count_of(ds@.subrange(0, k as int), d) == 0);
                        assert(false);
                    }
                    assert forall|c: int| head < c < l implies !dd.contains(#[trigger] qn[c]) by {
                        if dd.contains(qn[c]) {
                            let kk = choose|kk: int| 0 <= kk < dd.len() && dd[kk] == qn[c];
                            assert(q.contains(dd[kk]));
                            if qn[c] == idx {
                                assert(old_queue[c] == old_queue[head as int]);
                            } else {
                                assert(p.contains(qn[c]));
                                let e = choose|e: int|
                                    0 <= e < old_queue.subrange(0, head as int).len()
                                        && old_queue.subrange(0, head as int)[e] == qn[c];
                                assert(old_queue[e] == old_queue[c]);
                            }
                        }
                    }
                    assert(qn[head as int] == idx);
                    lemma_ldb_at(ns, qn, d as int, head as int, l);
                    assert(last_dep_before(ns, qn, qn[l] as int, l) == head);
                    assert forall|a: int, b: int| 0 <= a < b < qn.len() implies #[trigger] released_before(
                        ns,
                        qn,
                        a,
                        b,
                    ) by {
                        if b < l {
                            assert(released_before(ns, old_queue, a, b));
                            assert(qn[a] == old_queue[a] && qn[b] == old_queue[b]);
                        } else {
                            lemma_ldb_bounds(ns, qn, qn[a] as int, a);
                            if a > head && a < qlen {
                                assert(qn[a] == old_queue[a]);
                                assert(last_dep_before(ns, old_queue, old_queue[a] as int, a) < head);
                            } else if a >= qlen {
                                assert(qn[a] == old_queue[a]);
                                assert(last_dep_before(ns, old_queue, old_queue[a] as int, a) == head);
                                assert(ds@.subrange(0, k as int).contains(old_queue[a]));
                                let kk = choose|kk: int|
                                    0 <= kk < ds@.subrange(0, k as int).len() && ds@.subrange(0, k as int)[kk]
                                        == old_queue[a];
                                assert(ds@[kk] <= ds@[k as int]);
                                assert(old_queue.contains(old_queue[a]));
                            }
                        }
                    }
                    assert forall|b: int| head <= b < qlen implies #[trigger] last_dep_before(
                        ns,
                        qn,
                        qn[b] as int,
                        b,
                    ) < head by {
                        assert(qn[b] == old_queue[b]);
                    }
                    assert forall|b: int| qlen <= b < qn.len() implies #[trigger] last_dep_before(
                        ns,
                        qn,
                        qn[b] as int,
                        b,
                    ) == head && ds@.subrange(0, k + 1).contains(qn[b]) by {
                        if b < l {
                            assert(qn[b] == old_queue[b]);
                            assert(last_dep_before(ns, old_queue, old_queue[b] as int, b) == head);
                            assert(ds@.subrange(0, k as int).contains(old_queue[b]));
                            let kk = choose|kk: int|
                                0 <= kk < ds@.subrange(0, k as int).len() && ds@.subrange(0, k as int)[kk]
                                    == old_queue[b];
                            assert(ds@.subrange(0, k + 1)[kk] == old_queue[b]);
                        } else {
                            assert(ds@.subrange(0, k + 1)[k as int] == d);
                        }
                    }
                    assert(forall|b: int|
                        qlen <= b < queue@.len() ==> #[trigger] last_dep_before(ns, queue@, queue@[b] as int, b)
                            == head && ds@.subrange(0, k + 1).contains(queue@[b]));
                    assert(forall|b: int|
                        head <= b < qlen ==> #[trigger] last_dep_before(ns, queue@, queue@[b] as int, b)
                            < head);
                    assert(forall|a: int, b: int|
                        0 <= a < b < queue@.len() ==> #[trigger] released_before(ns, queue@, a, b));
                }
                proof {
                    let q = p.insert(idx);
                    assert(queue@.subrange(0, head as int) =~= old_queue.subrange(0, head as int));
                    reveal(deps_first);
                    assert forall|a: int, kk: int|
                        0 <= a < queue@.len() && 0 <= kk < deps_of(ns, queue@[a] as int).len() implies queue@.subrange(0, a).contains(
                            #[trigger] deps_of(ns, queue@[a] as int)[kk],
                        ) by {
                        if a == queue@.len() - 1 {
                            let t = deps_of(ns, d as int)[kk];
                            assert(q.contains(t));
                            if t == idx {
                                assert(queue@.subrange(0, a)[head as int] == t);
                            } else {
                                assert(p.contains(t));
                                let b = choose|b: int|
                                    0 <= b < queue@.subrange(0, head as int).len() && queue@.subrange(0, head as int)[b] == t;
                                assert(queue@.subrange(0, a)[b] == t);
                            }
                        } else {
                            assert(queue@[a] == old_queue[a]);
                            assert(old_queue.subrange(0, a).contains(deps_of(ns, old_queue[a] as int)[kk]));
                            assert(queue@.subrange(0, a) =~= old_queue.subrange(0, a));
                        }
                    }
                    assert(deps_first(ns, queue@));
                    assert forall|a: int, b: int|
                        0 <= a < queue@.len() && 0 <= b < queue@.len() && a != b implies queue@[a] != queue@[b] by {
                        if a < old_queue.len() && b < old_queue.len() {
                            assert(old_queue[a] != old_queue[b]);
                        } else if a < old_queue.len() {
                            assert(old_queue.contains(old_queue[a]));
                        } else if b < old_queue.len() {
                            assert(old_queue.contains(old_queue[b]));
                        }
                    }
                }
            }
            proof {
                if deg - 1 != 0 {
                    assert forall|b: int| qlen <= b < queue@.len() implies #[trigger] last_dep_before(
                        ns,
                        queue@,
                        queue@[b] as int,
                        b,
                    ) == head && ds@.subrange(0, k + 1).contains(queue@[b]) by {
                        assert(last_dep_before(ns, old_queue, old_queue[b] as int, b) == head);
                        assert(ds@.subrange(0, k as int).contains(old_queue[b]));
                        let kk = choose|kk: int|
                            0 <= kk < ds@.subrange(0, k as int).len() && ds@.subrange(0, k as int)[kk]
                                == old_queue[b];
                        assert(ds@.subrange(0, k + 1)[kk] == old_queue[b]);
                    }
                }
                assert forall|x: usize| x < n implies (queue@.contains(x) <==> in_degree@[x as int] == 0) by {
                    if old_queue.contains(x) {
                        let b = choose|b: int| 0 <= b < old_queue.len() && old_queue[b] == x;
                        assert(queue@[b] == x);
                    }
                    if queue@.contains(x) && x != d {
                        let b = choose|b: int| 0 <= b < queue@.len() && queue@[b] == x;
                        if b < old_queue.len() {
                            assert(old_queue[b] == x);
                        }
                    }
                    if x == d && deg - 1 == 0 {
                        assert(queue@[queue@.len() - 1] == x);
                    }
                }
                assert forall|x: int|
                    0 <= x < n implies #[trigger] in_degree@[x] + count_of(ds@.subrange(0, k + 1), x as usize)
                        == outside(deps_of(ns, x), p) by {
                    lemma_count_push(ds@.subrange(0, k as int), d, x as usize);
                }
                assert(queue@.subrange(0, head as int) =~= old_queue.subrange(0, head as int));
                lemma_pigeonhole_le(queue@, n);
            }
            let ghost kold = k;
            k = k + 1;
            proof {
                assert(ds@.subrange(0, k as int) == ds@.subrange(0, kold + 1));
                assert forall|b: int|
                    qlen <= b < queue@.len() implies #[trigger] last_dep_before(ns, queue@, queue@[b] as int, b)
                        == head && ds@.subrange(0, k as int).contains(queue@[b]) by {
                    assert(last_dep_before(ns, queue@, queue@[b] as int, b) == head);
                    assert(ds@.subrange(0, kold + 1).contains(queue@[b]));
                }
            }
        }
        proof {
            assert(ds@.subrange(0, m as int) =~= ds@);
            lemma_prefix_set_step(queue@, head as int);
            assert forall|b: int| 0 <= b < head + 1 implies #[trigger] order@[b]@ == ns[queue@[b] as int].name@ by {
                assert(queue@[b] == q0[b]);
            }
            assert forall|x: int|
                0 <= x < n implies #[trigger] in_degree@[x] == outside(
                    deps_of(ns, x),
                    queue@.subrange(0, head + 1).to_set(),
                ) by {
                lemma_outside_insert(deps_of(ns, x), p, idx);
            }
        }
        head = head + 1;
    }
    if order.len() != n {
        let missing = missing_names(nodes, &order);
        proof {
            // the unordered nodes each wait on an unordered node
            let u = Set::new(|x: usize| x < n && !queue@.contains(x));
            assert(queue@.subrange(0, head as int) =~= queue@);
            if forall|x: usize| x < n ==> queue@.contains(x) {
                broadcast use vstd::seq_lib::seq_to_set_is_finite;
                queue@.unique_seq_to_set();
                let r = <usize as vstd::set_lib::FiniteRange>::range_set(0, n);
                vstd::set_lib::range_set_properties::<usize>(0, n);
                assert forall|x: usize| r.contains(x) implies queue@.to_set().contains(x) by {
                    assert(queue@.contains(x));
                }
                assert(r.subset_of(queue@.to_set()));
                vstd::set_lib::lemma_len_subset(r, queue@.to_set());
                assert(false);
            }
            let x0 = choose|x: usize| !(x < n ==> queue@.contains(x));
            assert(u.contains(x0));
            assert forall|x: usize| u.contains(x) && x < ns.len() implies exists|k: int|
                0 <= k < deps_of(ns, x as int).len() && u.contains(#[trigger] deps_of(ns, x as int)[k]) by {
                assert(in_degree@[x as int] != 0);
                let k = lemma_outside_positive(deps_of(ns, x as int), queue@.to_set());
                lemma_targets_range(ns, ns[x as int].internal_deps@);
                let t = deps_of(ns, x as int)[k];
                if queue@.contains(t) {
                    assert(queue@.to_set().contains(t));
                }
                assert(u.contains(t));
            }
            assert forall|perm: Seq<usize>| !is_topo_order(ns, perm) by {
                lemma_cycle_blocks_order(ns, u, perm);
            }
        }
        proof {
            assert(order@.map_values(|s: String| s@) =~= names_along(ns, queue@));
            reveal(deps_first);
            assert forall|x: usize|
                x < ns.len() && !queue@.contains(x) implies exists|k: int|
                    0 <= k < deps_of(ns, x as int).len() && !queue@.contains(
                        #[trigger] deps_of(ns, x as int)[k],
                    ) by {
                let u = Set::new(|x: usize| x < n && !queue@.contains(x));
                assert(u.contains(x));
                let k = choose|k: int|
                    0 <= k < deps_of(ns, x as int).len() && u.contains(#[trigger] deps_of(ns, x as int)[k]);
                assert(!queue@.contains(deps_of(ns, x as int)[k]));
            }
            assert(maximal_partial_order(ns, queue@));
        }
        let msg = join_names(&missing);
        return Err(PromoteError::Other(cat("circular dependency detected involving: ", msg.as_str())));
    }
    proof {
        assert(queue@.subrange(0, head as int) =~= queue@);
        reveal(deps_first);
        lemma_pigeonhole(queue@, n);
        assert(order@.map_values(|s: String| s@) =~= names_along(ns, queue@));
        assert forall|a: int, b: int|
            0 <= a <= b < queue@.len() implies !#[trigger] deps_of(ns, queue@[a] as int).contains(
                #[trigger] queue@[b],
            ) by {
            if deps_of(ns, queue@[a] as int).contains(queue@[b]) {
                let k = choose|k: int|
                    0 <= k < deps_of(ns, queue@[a] as int).len() && deps_of(ns, queue@[a] as int)[k] == queue@[b];
                assert(queue@.subrange(0, a).contains(deps_of(ns, queue@[a] as int)[k]));
                let c = choose|c: int| 0 <= c < a && queue@.subrange(0, a)[c] == deps_of(ns, queue@[a] as int)[k];
                assert(queue@[c] == queue@[b]);
            }
        }
        assert(is_topo_order(ns, queue@));
        assert(is_release_order(ns, queue@));
        lemma_release_order_unique(ns, queue@, release_order(ns));
    }
    Ok(order)
}

proof fn lemma_ldb_prefix(nodes: Seq<CrateNode>, p: Seq<usize>, q: Seq<usize>, x: int, a: int)
    requires
        0 <= a <= p.len(),
        a <= q.len(),
        forall|c: int| 0 <= c < a ==> p[c] == q[c],
    ensures
        last_dep_before(nodes, p, x, a) == last_dep_before(nodes, q, x, a),
    decreases a,
{
    if a > 0 {
        lemma_ldb_prefix(nodes, p, q, x, a - 1);
    }
}

proof fn lemma_ldb_skip(nodes: Seq<CrateNode>, p: Seq<usize>, x: int, a: int, b: int)
    requires
        0 <= a <= b <= p.len(),
        forall|c: int| a <= c < b ==> !deps_of(nodes, x).contains(#[trigger] p[c]),
    ensures
        last_dep_before(nodes, p, x, b) == last_dep_before(nodes, p, x, a),
    decreases b - a,
{
    if a < b {
        lemma_ldb_skip(nodes, p, x, a, b - 1);
    }
}

proof fn lemma_ldb_bounds(nodes: Seq<CrateNode>, p: Seq<usize>, x: int, a: int)
    requires
        0 <= a,
    ensures
        -1 <= last_dep_before(nodes, p, x, a) < a,
    decreases a,
{
    if a > 0 {
        lemma_ldb_bounds(nodes, p, x, a - 1);
    }
}

proof fn lemma_ldb_at(nodes: Seq<CrateNode>, p: Seq<usize>, x: int, h: int, l: int)
    requires
        0 <= h < l <= p.len(),
        deps_of(nodes, x).contains(p[h]),
        forall|c: int| h < c < l ==> !deps_of(nodes, x).contains(#[trigger] p[c]),
    ensures
        last_dep_before(nodes, p, x, l) == h,
{
    lemma_ldb_skip(nodes, p, x, h + 1, l);
}

proof fn lemma_outside_all_in<A>(s: Seq<A>, p: Set<A>)
    requires
        forall|k: int| 0 <= k < s.len() ==> p.contains(#[trigger] s[k]),
    ensures
        outside(s, p) == 0,
    decreases s.len(),
{
    if s.len() > 0 {
        assert forall|k: int| 0 <= k < s.drop_last().len() implies p.contains(#[trigger] s.drop_last()[k]) by {
            assert(s.drop_last()[k] == s[k]);
        }
        lemma_outside_all_in(s.drop_last(), p);
        assert(p.contains(s[s.len() - 1]));
    }
}

/// Where two release orders agree on the first `i` nodes, they agree on
/// the next one too.
proof fn lemma_release_step(nodes: Seq<CrateNode>, p: Seq<usize>, q: Seq<usize>, i: int)
    requires
        nodes.len() <= usize::MAX,
        is_release_order(nodes, p),
        is_release_order(nodes, q),
        0 <= i < p.len(),
        forall|c: int| 0 <= c < i ==> p[c] == q[c],
    ensures
        p[i] == q[i],
{
    let n = nodes.len() as usize;
    lemma_pigeonhole(p, n);
    lemma_pigeonhole(q, n);
    let x = p[i];
    let y = q[i];
    if x != y {
        // x comes later in q, y later in p.
        assert(x < n && y < n);
        assert(q.contains(x));
        assert(p.contains(y));
        let k = choose|k: int| 0 <= k < q.len() && q[k] == x;
        let j = choose|j: int| 0 <= j < p.len() && p[j] == y;
        if k < i {
            assert(p[k] == x);
        }
        if j < i {
            assert(q[j] == y);
        }
        assert(k > i && j > i);
        // Every dependency of x lies in the common prefix.
        lemma_targets_range(nodes, nodes[x as int].internal_deps@);
        lemma_targets_range(nodes, nodes[y as int].internal_deps@);
        assert forall|c: int| i <= c < k implies !deps_of(nodes, x as int).contains(#[trigger] q[c]) by {
            if deps_of(nodes, x as int).contains(q[c]) {
                let d = q[c];
                assert(d < n);
                assert(p.contains(d));
                let e = choose|e: int| 0 <= e < p.len() && p[e] == d;
                if e >= i {
                    assert(!deps_of(nodes, p[i] as int).contains(p[e]));
                }
                assert(q[e] == d);
            }
        }
        assert forall|c: int| i <= c < j implies !deps_of(nodes, y as int).contains(#[trigger] p[c]) by {
            if deps_of(nodes, y as int).contains(p[c]) {
                let d = p[c];
                assert(d < n);
                assert(q.contains(d));
                let e = choose|e: int| 0 <= e < q.len() && q[e] == d;
                if e >= i {
                    assert(!deps_of(nodes, q[i] as int).contains(q[e]));
                }
                assert(p[e] == d);
            }
        }
        lemma_ldb_skip(nodes, q, x as int, i, k);
        lemma_ldb_skip(nodes, p, y as int, i, j);
        lemma_ldb_prefix(nodes, p, q, x as int, i);
        lemma_ldb_prefix(nodes, p, q, y as int, i);
        assert(released_before(nodes, p, i, j));
        assert(released_before(nodes, q, i, k));
    }
}

/// There is at most one release order of a graph: the order `topo_sort`
/// returns is fixed by the nodes alone.
pub proof fn lemma_release_order_unique(nodes: Seq<CrateNode>, p: Seq<usize>, q: Seq<usize>)
    requires
        nodes.len() <= usize::MAX,
        is_release_order(nodes, p),
        is_release_order(nodes, q),
    ensures
        p == q,
{
    lemma_release_prefix(nodes, p, q, p.len() as int);
    assert(p =~= q);
}

proof fn lemma_release_prefix(nodes: Seq<CrateNode>, p: Seq<usize>, q: Seq<usize>, i: int)
    requires
        nodes.len() <= usize::MAX,
        is_release_order(nodes, p),
        is_release_order(nodes, q),
        0 <= i <= p.len(),
    ensures
        forall|c: int| 0 <= c < i ==> p[c] == q[c],
    decreases i,
{
    if i > 0 {
        lemma_release_prefix(nodes, p, q, i - 1);
        lemma_release_step(nodes, p, q, i - 1);
    }
}

/// A duplicate-free sequence of values below `n` has at most `n` entries.
proof fn lemma_pigeonhole_le(s: Seq<usize>, n: usize)
    requires
        s.no_duplicates(),
        forall|a: int| 0 <= a < s.len() ==> s[a] < n,
    ensures
        s.len() <= n,
{
    let r = <usize as vstd::set_lib::FiniteRange>::range_set(0, n);
    vstd::set_lib::range_set_properties::<usize>(0, n);
    s.unique_seq_to_set();
    assert(s.to_set().subset_of(r));
    vstd::set_lib::lemma_len_subset(s.to_set(), r);
}

/// The string at `path` of a document read with `toml`.
pub open spec fn node_str(text: Seq<char>, path: Seq<Seq<char>>) -> Option<Seq<char>> {
    match toml_node_at(text, path) {
        NodeView::Str(s) => Some(s),
        _ => None,
    }
}

/// The crate a manifest names (`[package].name`).
pub open spec fn spec_crate_name(text: Seq<char>) -> Option<Seq<char>> {
    node_str(text, seq!["package"@, "name"@])
}

/// The names in a dependency section, when it is a table.
pub open spec fn section_keys(text: Seq<char>, section: Seq<char>) -> Seq<Seq<char>> {
    match toml_node_at(text, seq![section]) {
        NodeView::Table(keys) => keys,
        _ => Seq::empty(),
    }
}

/// Whether a dependency is given by path alone (a table with `path` and
/// no `version`).
pub open spec fn is_path_only(text: Seq<char>, section: Seq<char>, dep: Seq<char>) -> bool {
    match toml_node_at(text, seq![section, dep]) {
        NodeView::Table(keys) => keys.contains("path"@) && !keys.contains("version"@),
        _ => false,
    }
}

/// The names among `keys` that are crates of the tree.
pub open spec fn internal_in(keys: Seq<Seq<char>>, known: Seq<Seq<char>>) -> Seq<Seq<char>>
    decreases keys.len(),
{
    if keys.len() == 0 {
        Seq::empty()
    } else if known.contains(keys.last()) {
        internal_in(keys.drop_last(), known).push(keys.last())
    } else {
        internal_in(keys.drop_last(), known)
    }
}

/// The names among `keys` that are crates of the tree given by path
/// alone.
pub open spec fn path_only_in(
    text: Seq<char>,
    section: Seq<char>,
    keys: Seq<Seq<char>>,
    known: Seq<Seq<char>>,
) -> Seq<Seq<char>>
    decreases keys.len(),
{
    if keys.len() == 0 {
        Seq::empty()
    } else if known.contains(keys.last()) && is_path_only(text, section, keys.last()) {
        path_only_in(text, section, keys.drop_last(), known).push(keys.last())
    } else {
        path_only_in(text, section, keys.drop_last(), known)
    }
}

/// The internal dependencies of a manifest: `[dependencies]`, then
/// `[build-dependencies]`.
pub open spec fn spec_internal_deps(text: Seq<char>, known: Seq<Seq<char>>) -> Seq<Seq<char>> {
    internal_in(section_keys(text, "dependencies"@), known) + internal_in(
        section_keys(text, "build-dependencies"@),
        known,
    )
}

/// The internal dependencies given by path alone.
pub open spec fn spec_path_only_deps(text: Seq<char>, known: Seq<Seq<char>>) -> Seq<Seq<char>> {
    path_only_in(text, "dependencies"@, section_keys(text, "dependencies"@), known) + path_only_in(
        text,
        "build-dependencies"@,
        section_keys(text, "build-dependencies"@),
        known,
    )
}

/// `dep` is a key of the table `[section]` of the manifest.
pub open spec fn listed_in(text: Seq<char>, section: Seq<char>, dep: Seq<char>) -> bool {
    toml_node_at(text, seq![section]) matches NodeView::Table(keys) && keys.contains(dep)
}

/// `dep` is given in `[section]` by a `path` and without a `version`.
pub open spec fn given_by_path(text: Seq<char>, section: Seq<char>, dep: Seq<char>) -> bool {
    toml_node_at(text, seq![section, dep]) matches NodeView::Table(keys) && keys.contains("path"@)
        && !keys.contains("version"@)
}

proof fn lemma_internal_in_contains(keys: Seq<Seq<char>>, known: Seq<Seq<char>>, d: Seq<char>)
    ensures
        internal_in(keys, known).contains(d) <==> (keys.contains(d) && known.contains(d)),
    decreases keys.len(),
{
    if keys.len() > 0 {
        lemma_internal_in_contains(keys.drop_last(), known, d);
        let rest = internal_in(keys.drop_last(), known);
        if keys.contains(d) && d != keys.last() {
            let i = choose|i: int| 0 <= i < keys.len() && keys[i] == d;
            assert(keys.drop_last()[i] == d);
        }
        if keys.drop_last().contains(d) {
            let i = choose|i: int| 0 <= i < keys.drop_last().len() && keys.drop_last()[i] == d;
            assert(keys[i] == d);
        }
        assert(keys[keys.len() - 1] == keys.last());
        if known.contains(keys.last()) {
            assert(rest.push(keys.last())[rest.len() as int] == keys.last());
            if rest.contains(d) {
                let i = choose|i: int| 0 <= i < rest.len() && rest[i] == d;
                assert(rest.push(keys.last())[i] == d);
            }
            if rest.push(keys.last()).contains(d) {
                let i = choose|i: int| 0 <= i < rest.push(keys.last()).len() && rest.push(keys.last())[i] == d;
                if i < rest.len() {
                    assert(rest[i] == d);
                }
            }
        }
    }
}

proof fn lemma_path_only_in_contains(
    text: Seq<char>,
    section: Seq<char>,
    keys: Seq<Seq<char>>,
    known: Seq<Seq<char>>,
    d: Seq<char>,
)
    ensures
        path_only_in(text, section, keys, known).contains(d) <==> (keys.contains(d) && known.contains(d)
            && is_path_only(text, section, d)),
    decreases keys.len(),
{
    if keys.len() > 0 {
        lemma_path_only_in_contains(text, section, keys.drop_last(), known, d);
        let rest = path_only_in(text, section, keys.drop_last(), known);
        if keys.contains(d) && d != keys.last() {
            let i = choose|i: int| 0 <= i < keys.len() && keys[i] == d;
            assert(keys.drop_last()[i] == d);
        }
        if keys.drop_last().contains(d) {
            let i = choose|i: int| 0 <= i < keys.drop_last().len() && keys.drop_last()[i] == d;
            assert(keys[i] == d);
        }
        assert(keys[keys.len() - 1] == keys.last());
        if known.contains(keys.last()) && is_path_only(text, section, keys.last()) {
            assert(rest.push(keys.last())[rest.len() as int] == keys.last());
            if rest.contains(d) {
                let i = choose|i: int| 0 <= i < rest.len() && rest[i] == d;
                assert(rest.push(keys.last())[i] == d);
            }
            if rest.push(keys.last()).contains(d) {
                let i = choose|i: int| 0 <= i < rest.push(keys.last()).len() && rest.push(keys.last())[i] == d;
                if i < rest.len() {
                    assert(rest[i] == d);
                }
            }
        }
    }
}

proof fn lemma_concat_contains(a: Seq<Seq<char>>, b: Seq<Seq<char>>, d: Seq<char>)
    ensures
        (a + b).contains(d) <==> (a.contains(d) || b.contains(d)),
{
    if a.contains(d) {
        let i = choose|i: int| 0 <= i < a.len() && a[i] == d;
        assert((a + b)[i] == d);
    }
    if b.contains(d) {
        let i = choose|i: int| 0 <= i < b.len() && b[i] == d;
        assert((a + b)[a.len() + i] == d);
    }
    if (a + b).contains(d) {
        let i = choose|i: int| 0 <= i < (a + b).len() && (a + b)[i] == d;
        if i < a.len() {
            assert(a[i] == d);
        } else {
            assert(b[i - a.len()] == d);
        }
    }
}

/// Only `[dependencies]` and `[build-dependencies]` make a crate depend
/// on another: a crate of the tree is an internal dependency of a
/// manifest exactly when one of those two tables names it, and a
/// path-only one exactly when such a table gives it by a path and no
/// version. A crate named under any other table (`[dev-dependencies]`,
/// say) is in neither list.
pub proof fn lemma_dependencies_come_from_dependency_tables(
    text: Seq<char>,
    known: Seq<Seq<char>>,
    d: Seq<char>,
)
    ensures
        spec_internal_deps(text, known).contains(d) <==> (known.contains(d) && (listed_in(
            text,
            "dependencies"@,
            d,
        ) || listed_in(text, "build-dependencies"@, d))),
        spec_path_only_deps(text, known).contains(d) <==> (known.contains(d) && ((listed_in(
            text,
            "dependencies"@,
            d,
        ) && given_by_path(text, "dependencies"@, d)) || (listed_in(
            text,
            "build-dependencies"@,
            d,
        ) && given_by_path(text, "build-dependencies"@, d)))),
{
    let dk = section_keys(text, "dependencies"@);
    let bk = section_keys(text, "build-dependencies"@);
    lemma_internal_in_contains(dk, known, d);
    lemma_internal_in_contains(bk, known, d);
    lemma_path_only_in_contains(text, "dependencies"@, dk, known, d);
    lemma_path_only_in_contains(text, "build-dependencies"@, bk, known, d);
    lemma_concat_contains(internal_in(dk, known), internal_in(bk, known), d);
    lemma_concat_contains(
        path_only_in(text, "dependencies"@, dk, known),
        path_only_in(text, "build-dependencies"@, bk, known),
        d,
    );
    assert(dk.contains(d) <==> listed_in(text, "dependencies"@, d));
    assert(bk.contains(d) <==> listed_in(text, "build-dependencies"@, d));
}

/// Whether a crate is a build helper (`xtask`, `*-xtask`).
pub open spec fn is_xtask(name: Seq<char>) -> bool {
    name == "xtask"@ || has_suffix(name, "-xtask"@)
}

/// The crate name a manifest declares; `None` where the manifest could
/// not be read (`content` is `None`), parsed, or names none.
pub fn read_crate_name(content: &Option<String>) -> (r: Option<String>)
    ensures
        content matches Some(t) ==> crate::toml_doc::opt_view(r) == spec_crate_name(t@),
        content is None ==> r is None,
{
    match content {
        Some(t) => {
            let path = vec![owned("package"), owned("name")];
            assert(strs_view(path@) =~= seq!["package"@, "name"@]);
            match toml_node(t.as_str(), &path) {
                TomlNode::Str(s) => Some(s),
                _ => None,
            }
        },
        None => None,
    }
}

/// Whether `name` is among `names`.
fn contains_str(names: &Vec<String>, name: &str) -> (r: bool)
    ensures
        r == strs_view(names@).contains(name@),
{
    let mut i: usize = 0;
    while i < names.len()
        invariant
            i <= names@.len(),
            forall|j: int| 0 <= j < i ==> strs_view(names@)[j] != name@,
        decreases names@.len() - i,
    {
        if super::string_eq(&names[i], name) {
            assert(strs_view(names@)[i as int] == name@);
            return true;
        }
        i = i + 1;
    }
    proof {
        if strs_view(names@).contains(name@) {
            let j = choose|j: int| 0 <= j < strs_view(names@).len() && strs_view(names@)[j] == name@;
            assert(strs_view(names@)[j] != name@);
        }
    }
    false
}

/// The internal and path-only dependencies of one section.
fn section_deps(text: &str, section: &str, known: &Vec<String>) -> (r: (Vec<String>, Vec<String>))
    ensures
        strs_view(r.0@) == internal_in(section_keys(text@, section@), strs_view(known@)),
        strs_view(r.1@) == path_only_in(
            text@,
            section@,
            section_keys(text@, section@),
            strs_view(known@),
        ),
{
    let mut internal: Vec<String> = Vec::new();
    let mut path_only: Vec<String> = Vec::new();
    let sec = vec![owned(section)];
    assert(strs_view(sec@) =~= seq![section@]);
    let keys = match toml_node(text, &sec) {
        TomlNode::Table(k) => k,
        _ => Vec::new(),
    };
    let ghost kv = strs_view(keys@);
    assert(kv == section_keys(text@, section@));
    let mut i: usize = 0;
    while i < keys.len()
        invariant
            i <= keys@.len(),
            kv == strs_view(keys@),
            strs_view(internal@) == internal_in(kv.subrange(0, i as int), strs_view(known@)),
            strs_view(path_only@) == path_only_in(
                text@,
                section@,
                kv.subrange(0, i as int),
                strs_view(known@),
            ),
        decreases keys@.len() - i,
    {
        let ghost (bi, bp) = (internal@, path_only@);
        assert(kv.subrange(0, i + 1).drop_last() =~= kv.subrange(0, i as int));
        let dep = &keys[i];
        if contains_str(known, dep.as_str()) {
            internal.push(dep.clone());
            assert(strs_view(internal@) =~= strs_view(bi).push(dep@));
            let p = vec![owned(section), dep.clone()];
            assert(strs_view(p@) =~= seq![section@, dep@]);
            let path_only_dep = match toml_node(text, &p) {
                TomlNode::Table(k) => contains_str(&k, "path") && !contains_str(&k, "version"),
                _ => false,
            };
            if path_only_dep {
                path_only.push(dep.clone());
                assert(strs_view(path_only@) =~= strs_view(bp).push(dep@));
            }
        }
        i = i + 1;
    }
    assert(kv.subrange(0, keys@.len() as int) =~= kv);
    (internal, path_only)
}

/// Extract internal deps and path-only deps from `[dependencies]` and
/// `[build-dependencies]`: the dependencies that are crates of the tree
/// (`known_names`), and those of them given by path alone.
pub fn collect_internal_deps(text: &str, known_names: &Vec<String>) -> (r: (
    Vec<String>,
    Vec<String>,
))
    ensures
        strs_view(r.0@) == spec_internal_deps(text@, strs_view(known_names@)),
        strs_view(r.1@) == spec_path_only_deps(text@, strs_view(known_names@)),
        forall|d: Seq<char>|
            #[trigger] strs_view(r.0@).contains(d) <==> (strs_view(known_names@).contains(d) && (
            listed_in(text@, "dependencies"@, d) || listed_in(text@, "build-dependencies"@, d))),
        forall|d: Seq<char>|
            #[trigger] strs_view(r.1@).contains(d) <==> (strs_view(known_names@).contains(d) && ((
            listed_in(text@, "dependencies"@, d) && given_by_path(text@, "dependencies"@, d)) || (
            listed_in(text@, "build-dependencies"@, d) && given_by_path(
                text@,
                "build-dependencies"@,
                d,
            )))),
{
    let (mut internal, mut path_only) = section_deps(text, "dependencies", known_names);
    let (mut bi, mut bp) = section_deps(text, "build-dependencies", known_names);
    let ghost (i0, p0, i1, p1) = (internal@, path_only@, bi@, bp@);
    internal.append(&mut bi);
    path_only.append(&mut bp);
    assert(strs_view(internal@) =~= strs_view(i0) + strs_view(i1));
    assert(strs_view(path_only@) =~= strs_view(p0) + strs_view(p1));
    proof {
        let kn = strs_view(known_names@);
        assert forall|d: Seq<char>|
            #[trigger] strs_view(internal@).contains(d) <==> (kn.contains(d) && (listed_in(
                text@,
                "dependencies"@,
                d,
            ) || listed_in(text@, "build-dependencies"@, d))) by {
            lemma_dependencies_come_from_dependency_tables(text@, kn, d);
        }
        assert forall|d: Seq<char>|
            #[trigger] strs_view(path_only@).contains(d) <==> (kn.contains(d) && ((listed_in(
                text@,
                "dependencies"@,
                d,
            ) && given_by_path(text@, "dependencies"@, d)) || (listed_in(
                text@,
                "build-dependencies"@,
                d,
            ) && given_by_path(text@, "build-dependencies"@, d)))) by {
            lemma_dependencies_come_from_dependency_tables(text@, kn, d);
        }
    }
    (internal, path_only)
}

/// What the graph records of a crate.
pub struct NodeSummary {
    pub name: Seq<char>,
    pub version: Seq<char>,
    pub unpublishable: bool,
    pub deps: Seq<Seq<char>>,
    pub path_only: Seq<Seq<char>>,
}

/// The record of a node.
pub open spec fn summary(n: CrateNode) -> NodeSummary {
    NodeSummary {
        name: n.name@,
        version: n.version@,
        unpublishable: n.unpublishable,
        deps: strs_view(n.internal_deps@),
        path_only: strs_view(n.path_only_deps@),
    }
}

/// The records of a list of nodes.
pub open spec fn summaries(v: Seq<CrateNode>) -> Seq<NodeSummary> {
    v.map_values(|n: CrateNode| summary(n))
}

/// The record a manifest text yields, given the names of the tree's
/// crates: none where it names no package.
pub open spec fn spec_node(text: Seq<char>, known: Seq<Seq<char>>) -> Option<NodeSummary> {
    match spec_crate_name(text) {
        None => None,
        Some(name) => Some(
            NodeSummary {
                name,
                version: match node_str(text, seq!["package"@, "version"@]) {
                    Some(v) => v,
                    None => "0.0.0"@,
                },
                unpublishable: is_xtask(name) || toml_node_at(text, seq!["package"@, "publish"@])
                    == NodeView::Bool(false),
                deps: spec_internal_deps(text, known),
                path_only: spec_path_only_deps(text, known),
            },
        ),
    }
}

/// The records of the manifests that name a package, in order.
pub open spec fn scanned(contents: Seq<Option<Seq<char>>>, known: Seq<Seq<char>>) -> Seq<
    NodeSummary,
>
    decreases contents.len(),
{
    if contents.len() == 0 {
        Seq::empty()
    } else {
        let rest = scanned(contents.drop_last(), known);
        match contents.last() {
            Some(t) => match spec_node(t, known) {
                Some(n) => rest.push(n),
                None => rest,
            },
            None => rest,
        }
    }
}

/// The node a manifest (at `manifest`, with `content`) stands for;
/// `None` where it could not be read or parsed, or declares no package
/// name. Build helpers (`xtask`, `*-xtask`) and `publish = false`
/// crates are unpublishable; a missing version reads `0.0.0`.
pub fn build_node(manifest: &Path, content: &Option<String>, known_names: &Vec<String>) -> (r:
    Option<CrateNode>)
    ensures
        content is None ==> r is None,
        content matches Some(t) ==> match spec_node(t@, strs_view(known_names@)) {
            Some(n) => r matches Some(x) && summary(x) == n,
            None => r is None,
        },
        content matches Some(t) ==> {
            &&& spec_crate_name(t@) is None ==> r is None
            &&& spec_crate_name(t@) matches Some(name) ==> (r matches Some(n) && n.name@ == name
                && n.version@ == match node_str(t@, seq!["package"@, "version"@]) {
                Some(v) => v,
                None => "0.0.0"@,
            } && n.unpublishable == (is_xtask(name) || toml_node_at(
                t@,
                seq!["package"@, "publish"@],
            ) == NodeView::Bool(false)) && strs_view(n.internal_deps@) == spec_internal_deps(
                t@,
                strs_view(known_names@),
            ) && strs_view(n.path_only_deps@) == spec_path_only_deps(
                t@,
                strs_view(known_names@),
            ))
        },
{
    let text = match content {
        Some(t) => t,
        None => {
            return None;
        },
    };
    let name = match read_crate_name(content) {
        Some(n) => n,
        None => {
            return None;
        },
    };
    let vp = vec![owned("package"), owned("version")];
    assert(strs_view(vp@) =~= seq!["package"@, "version"@]);
    let version = match toml_node(text.as_str(), &vp) {
        TomlNode::Str(v) => v,
        _ => owned("0.0.0"),
    };
    let pp = vec![owned("package"), owned("publish")];
    assert(strs_view(pp@) =~= seq!["package"@, "publish"@]);
    let publish_off = match toml_node(text.as_str(), &pp) {
        TomlNode::Bool(b) => !b,
        _ => false,
    };
    proof {
        reveal_strlit("xtask");
        reveal_strlit("-xtask");
    }
    let xtask = crate::domain::string_eq(&name, "xtask") || ends_with(name.as_str(), "-xtask");
    let (internal_deps, path_only_deps) = collect_internal_deps(text.as_str(), known_names);
    Some(
        CrateNode {
            name,
            version,
            manifest_path: path_buf(manifest),
            internal_deps,
            unpublishable: xtask || publish_off,
            path_only_deps,
        },
    )
}

/// The crate names the manifests declare, in order.
pub open spec fn crate_names(contents: Seq<Option<Seq<char>>>) -> Seq<Seq<char>>
    decreases contents.len(),
{
    if contents.len() == 0 {
        Seq::empty()
    } else {
        let rest = crate_names(contents.drop_last());
        match contents.last() {
            Some(t) => match spec_crate_name(t) {
                Some(n) => rest.push(n),
                None => rest,
            },
            None => rest,
        }
    }
}

/// The contents of the manifests, as read.
pub open spec fn contents_view(manifests: Seq<(PathBuf, Option<String>)>) -> Seq<Option<Seq<char>>> {
    manifests.map_values(|m: (PathBuf, Option<String>)| crate::toml_doc::opt_view(m.1))
}

/// The names of the crates of the tree.
pub fn collect_crate_names(manifests: &Vec<(PathBuf, Option<String>)>) -> (r: Vec<String>)
    ensures
        strs_view(r@) == crate_names(contents_view(manifests@)),
{
    let ghost cv = contents_view(manifests@);
    let mut r: Vec<String> = Vec::new();
    let mut i: usize = 0;
    while i < manifests.len()
        invariant
            i <= manifests@.len(),
            cv == contents_view(manifests@),
            strs_view(r@) == crate_names(cv.subrange(0, i as int)),
        decreases manifests@.len() - i,
    {
        let ghost before = r@;
        assert(cv.subrange(0, i + 1).drop_last() =~= cv.subrange(0, i as int));
        match read_crate_name(&manifests[i].1) {
            Some(n) => {
                r.push(n);
                assert(strs_view(r@) =~= strs_view(before).push(r@[r@.len() - 1]@));
            },
            None => {},
        }
        i = i + 1;
    }
    assert(cv.subrange(0, manifests@.len() as int) =~= cv);
    r
}

/// Whether a directory of the tree root is left out of a scan: hidden
/// (`.`-prefixed) or named in `skip`.
pub fn is_skipped_dir(name: &str, skip: &[&str]) -> (r: bool)
    ensures
        r == (has_prefix(name@, "."@) || exists|i: int| 0 <= i < skip@.len() && skip@[i]@ == name@),
{
    if starts_with(name, ".") {
        return true;
    }
    let mut i: usize = 0;
    while i < skip.len()
        invariant
            i <= skip@.len(),
            forall|j: int| 0 <= j < i ==> skip@[j]@ != name@,
        decreases skip@.len() - i,
    {
        let t = owned(skip[i]);
        if crate::domain::string_eq(&t, name) {
            return true;
        }
        i = i + 1;
    }
    false
}

/// Build the dependency graph of the manifests found in a tree (each
/// with its path and content, `None` where it could not be read): every
/// manifest that names a package becomes a node, its dependencies
/// resolved against the names of all of them.
pub fn scan_workspace_tree(manifests: &Vec<(PathBuf, Option<String>)>) -> (r: Vec<CrateNode>)
    ensures
        summaries(r@) == scanned(
            contents_view(manifests@),
            crate_names(contents_view(manifests@)),
        ),
{
    let known = collect_crate_names(manifests);
    let ghost cv = contents_view(manifests@);
    let mut nodes: Vec<CrateNode> = Vec::new();
    let mut i: usize = 0;
    while i < manifests.len()
        invariant
            i <= manifests@.len(),
            cv == contents_view(manifests@),
            strs_view(known@) == crate_names(cv),
            summaries(nodes@) == scanned(cv.subrange(0, i as int), crate_names(cv)),
        decreases manifests@.len() - i,
    {
        let ghost before = nodes@;
        assert(cv.subrange(0, i + 1).drop_last() =~= cv.subrange(0, i as int));
        assert(cv[i as int] == crate::toml_doc::opt_view(manifests@[i as int].1));
        match build_node(super::as_path(&manifests[i].0), &manifests[i].1, &known) {
            Some(n) => {
                let ghost sn = summary(n);
                nodes.push(n);
                assert(summaries(nodes@) =~= summaries(before).push(sn));
            },
            None => {},
        }
        i = i + 1;
    }
    assert(cv.subrange(0, manifests@.len() as int) =~= cv);
    nodes
}

/// Which manifests a directory of the tree holds.
#[derive(Debug)]
pub enum ManifestPaths {
    /// Its `Cargo.toml` could not be read or parsed: none.
    Unreadable,
    /// Its own `Cargo.toml`.
    Root,
    /// The `Cargo.toml` of each workspace member (directories relative to
    /// it).
    Members(Vec<String>),
}

/// The strings of `[workspace].members` when it is an array (read with
/// `toml`).
pub open spec fn spec_member_dirs(text: Seq<char>) -> Option<Seq<Seq<char>>> {
    match toml_node_at(text, seq!["workspace"@, "members"@]) {
        NodeView::Array(a) => Some(super::local_manifest::present(a)),
        _ => None,
    }
}

/// The manifests of a directory, from its `Cargo.toml` (`content`,
/// `None` where unreadable): the workspace members' manifests, or its
/// own.
pub fn manifest_paths(content: &Option<String>) -> (r: ManifestPaths)
    ensures
        content is None ==> r is Unreadable,
        content matches Some(t) ==> {
            &&& toml_node_at(t@, Seq::empty()) is Invalid ==> r is Unreadable
            &&& !(toml_node_at(t@, Seq::empty()) is Invalid) && spec_member_dirs(t@) is None ==> r is Root
            &&& !(toml_node_at(t@, Seq::empty()) is Invalid) && spec_member_dirs(t@) is Some ==> (r matches ManifestPaths::Members(v)
                && Some(strs_view(v@)) == spec_member_dirs(t@))
        },
{
    let text = match content {
        Some(t) => t,
        None => {
            return ManifestPaths::Unreadable;
        },
    };
    let root: Vec<String> = Vec::new();
    assert(strs_view(root@) =~= Seq::<Seq<char>>::empty());
    if let TomlNode::Invalid = toml_node(text.as_str(), &root) {
        return ManifestPaths::Unreadable;
    }
    let path = vec![owned("workspace"), owned("members")];
    assert(strs_view(path@) =~= seq!["workspace"@, "members"@]);
    match toml_node(text.as_str(), &path) {
        TomlNode::Array(a) => {
            let ghost av = crate::toml_doc::opts_view(a@);
            let mut r: Vec<String> = Vec::new();
            let mut i: usize = 0;
            while i < a.len()
                invariant
                    i <= a@.len(),
                    av == crate::toml_doc::opts_view(a@),
                    strs_view(r@) == super::local_manifest::present(av.subrange(0, i as int)),
                decreases a@.len() - i,
            {
                let ghost before = r@;
                assert(av.subrange(0, i + 1).drop_last() =~= av.subrange(0, i as int));
                match &a[i] {
                    Some(s) => {
                        r.push(s.clone());
                        assert(strs_view(r@) =~= strs_view(before).push(s@));
                    },
                    None => {},
                }
                i = i + 1;
            }
            assert(av.subrange(0, a@.len() as int) =~= av);
            ManifestPaths::Members(r)
        },
        _ => ManifestPaths::Root,
    }
}

/// `[package].version` of a manifest, for a crate just bumped: the
/// manifest must parse (`failed to parse <path>: <error>`) and name a
/// version (`could not read [package].version from <path>`).
pub fn read_package_version(contents: &str, shown_path: &str) -> (r: Result<String, PromoteError>)
    ensures
        crate::toml_doc::toml_error_of(contents@) matches Some(m) ==> (r matches Err(
            PromoteError::Other(x),
        ) && x@ == "failed to parse "@ + shown_path@ + ": "@ + m),
        crate::toml_doc::toml_error_of(contents@) is None ==> match node_str(
            contents@,
            seq!["package"@, "version"@],
        ) {
            Some(v) => r matches Ok(s) && s@ == v,
            None => r matches Err(PromoteError::Other(x)) && x@
                == "could not read [package].version from "@ + shown_path@,
        },
{
    if let Some(m) = crate::toml_doc::toml_error(contents) {
        let a = cat3("failed to parse ", shown_path, ": ");
        return Err(PromoteError::Other(cat(a.as_str(), m.as_str())));
    }
    let path = vec![owned("package"), owned("version")];
    assert(strs_view(path@) =~= seq!["package"@, "version"@]);
    match toml_node(contents, &path) {
        TomlNode::Str(v) => Ok(v),
        _ => Err(PromoteError::Other(cat("could not read [package].version from ", shown_path))),
    }
}

} // verus!
