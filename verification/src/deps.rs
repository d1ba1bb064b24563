//! Package model, contract-relationship graph, and verified topological
//! ordering of a workspace's packages: every package that is a contract
//! dependency of another package comes out before it, and a cyclic graph
//! is always refused.

use vstd::prelude::*;
use vstd::seq_lib::*;
use vstd::set_lib::*;
use crate::strutil;

verus! {

/// A package of the workspace, with what the pipeline reads of it:
/// identity, manifest location, declared relationship flags, the names of
/// the packages in its dependency tree, and build-target facts.
#[derive(Debug)]
pub struct Package {
    pub name: String,
    pub version: String,
    pub manifest_path: String,
    /// Declared as a contract dependency in its package metadata.
    pub is_contract: bool,
    /// Declared as a subcontract dependency in its package metadata.
    pub is_subcontract: bool,
    /// Names of the packages in this package's dependency tree.
    pub deps: Vec<String>,
    /// Whether the package builds a deployable (cdylib) artifact.
    pub targets_cdylib: bool,
    /// Feature names the package declares as available.
    pub features: Vec<String>,
}

fn clone_string_vec(v: &Vec<String>) -> (r: Vec<String>)
    ensures
        r@ == v@,
{
    let mut r: Vec<String> = Vec::new();
    let mut i: usize = 0;
    while i < v.len()
        invariant
            i <= v.len(),
            r@ == v@.take(i as int),
        decreases v.len() - i,
    {
        r.push(v[i].clone());
        proof {
            assert(v@.take(i + 1) =~= v@.take(i as int).push(v@[i as int]));
        }
        i = i + 1;
    }
    proof {
        assert(v@.take(v@.len() as int) =~= v@);
    }
    r
}

/// The two packages agree on every field, up to the view of each.
pub open spec fn pkg_eq(a: Package, b: Package) -> bool {
    &&& a.name@ == b.name@
    &&& a.version@ == b.version@
    &&& a.manifest_path@ == b.manifest_path@
    &&& a.is_contract == b.is_contract
    &&& a.is_subcontract == b.is_subcontract
    &&& a.deps.deep_view() == b.deps.deep_view()
    &&& a.targets_cdylib == b.targets_cdylib
    &&& a.features.deep_view() == b.features.deep_view()
}

/// The edge relation reads only what `pkg_eq` compares.
pub proof fn lemma_consumes_congruence(a: Package, b: Package, q: Package)
    requires
        pkg_eq(a, b),
    ensures
        consumes(a, q) == consumes(b, q),
        consumes(q, a) == consumes(q, b),
{
    assert(a.deps.deep_view() =~= b.deps.deep_view());
}

/// `ws` lists the packages of `sel`, each position of `sel` used exactly
/// once, in some order, up to the view of each field.
pub open spec fn pkg_permutation(ws: Seq<Package>, sel: Seq<Package>) -> bool {
    exists|idx: Seq<usize>|
        {
            &&& #[trigger] idx.no_duplicates()
            &&& idx.len() == sel.len()
            &&& ws.len() == sel.len()
            &&& forall|k: int| 0 <= k < idx.len() ==> (#[trigger] idx[k]) < sel.len()
            &&& forall|k: int| 0 <= k < ws.len() ==> pkg_eq(#[trigger] ws[k], sel[idx[k] as int])
        }
}

/// Whether the graph is cyclic depends only on the fields' views.
pub proof fn lemma_cycle_congruence(a: Seq<Package>, b: Seq<Package>)
    requires
        a.len() == b.len(),
        forall|t: int| 0 <= t < a.len() ==> pkg_eq(#[trigger] a[t], b[t]),
    ensures
        has_cycle(a) == has_cycle(b),
{
    assert forall|i: int, j: int|
        #![trigger graph_edge(a, i, j)]
        #![trigger graph_edge(b, i, j)]
        graph_edge(a, i, j) == graph_edge(b, i, j) by {
        if 0 <= i < a.len() && 0 <= j < a.len() {
            lemma_consumes_congruence(a[j], b[j], a[i]);
            lemma_consumes_congruence(a[i], b[i], b[j]);
        }
    }
    if has_cycle(a) {
        let c = choose|c: Seq<int>| is_cycle(a, c);
        assert(is_cycle(b, c));
    }
    if has_cycle(b) {
        let c = choose|c: Seq<int>| is_cycle(b, c);
        assert(is_cycle(a, c));
    }
}

impl Clone for Package {
    /// A clone carries every field over unchanged.
    fn clone(&self) -> (r: Self)
        ensures
            pkg_eq(r, *self),
    {
        Package {
            name: self.name.clone(),
            version: self.version.clone(),
            manifest_path: self.manifest_path.clone(),
            is_contract: self.is_contract,
            is_subcontract: self.is_subcontract,
            deps: clone_string_vec(&self.deps),
            targets_cdylib: self.targets_cdylib,
            features: clone_string_vec(&self.features),
        }
    }
}

/// The two declared relationship kinds a package can have towards a
/// consuming package.
#[derive(Clone, Copy, Debug, PartialEq, Eq, Structural)]
pub enum DepKind {
    Subcontract,
    Contract,
}

impl DepKind {
    /// The metadata key under which the relationship is declared.
    pub fn as_str(&self) -> (r: &'static str)
        ensures
            *self is Subcontract ==> r@ == "subcontract"@,
            *self is Contract ==> r@ == "contract"@,
    {
        match self {
            DepKind::Subcontract => "subcontract",
            DepKind::Contract => "contract",
        }
    }
}

pub trait PackageExt {
    spec fn is_dep_spec(&self, key: DepKind) -> bool;

    /// Whether the package declares the given relationship kind.
    fn is_dep(&self, key: &DepKind) -> (r: bool)
        ensures
            r == self.is_dep_spec(*key),
    ;
}

impl PackageExt for Package {
    open spec fn is_dep_spec(&self, key: DepKind) -> bool {
        match key {
            DepKind::Subcontract => self.is_subcontract,
            DepKind::Contract => self.is_contract,
        }
    }

    fn is_dep(&self, key: &DepKind) -> (r: bool) {
        match key {
            DepKind::Subcontract => self.is_subcontract,
            DepKind::Contract => self.is_contract,
        }
    }
}

/// What can go wrong while resolving the package graph.
#[derive(Debug, Clone, PartialEq, Eq)]
pub enum Error {
    /// No root package was found for the given manifest path.
    RootNotFound(String),
    /// The dependency tree could not be enumerated for the given path.
    CargoTree(String),
    /// The given path has no parent directory.
    ParentNotFound(String),
    /// The contract-relationship graph is cyclic.
    Cycle,
}

/// Package `q` is a contract dependency consumed by package `p`.
pub open spec fn consumes(p: Package, q: Package) -> bool {
    &&& q.is_contract
    &&& p.deps.deep_view().contains(q.name@)
    &&& q.manifest_path@ != p.manifest_path@
}

/// Edge of the dependency graph: `ps[i]` must precede `ps[j]`.
pub open spec fn graph_edge(ps: Seq<Package>, i: int, j: int) -> bool {
    &&& 0 <= i < ps.len()
    &&& 0 <= j < ps.len()
    &&& consumes(ps[j], ps[i])
}

/// `idx` lists positions into `ps`, each exactly once, such that every
/// edge's source appears before its target.
pub open spec fn is_ordering(ps: Seq<Package>, idx: Seq<usize>) -> bool {
    &&& idx.len() == ps.len()
    &&& forall|k: int| 0 <= k < idx.len() ==> (#[trigger] idx[k]) < ps.len()
    &&& idx.no_duplicates()
    &&& forall|k: int, i: int|
        #![trigger graph_edge(ps, i, idx[k] as int)]
        0 <= k < idx.len() && graph_edge(ps, i, idx[k] as int)
            ==> exists|m: int| 0 <= m < k && #[trigger] idx[m] as int == i
}

/// A nonempty index path through `ps` whose consecutive nodes are joined
/// by edges and whose last node has an edge back to its first.
pub open spec fn is_cycle(ps: Seq<Package>, c: Seq<int>) -> bool {
    &&& c.len() > 0
    &&& forall|t: int| 0 <= t < c.len() - 1 ==> graph_edge(ps, #[trigger] c[t], c[t + 1])
    &&& graph_edge(ps, c.last(), c[0])
}

pub open spec fn has_cycle(ps: Seq<Package>) -> bool {
    exists|c: Seq<int>| is_cycle(ps, c)
}

/// Position of value `x` in `idx`.
pub open spec fn pos_in(idx: Seq<usize>, x: int) -> int {
    choose|k: int| 0 <= k < idx.len() && idx[k] as int == x
}

/// Value `x` occurs somewhere in `idx`.
pub open spec fn appears(idx: Seq<usize>, x: int) -> bool {
    exists|k: int| 0 <= k < idx.len() && #[trigger] idx[k] as int == x
}

/// An ordering of `n` distinct positions below `n` reaches every position.
proof fn lemma_ordering_complete(ps: Seq<Package>, idx: Seq<usize>)
    requires
        is_ordering(ps, idx),
    ensures
        forall|x: int| 0 <= x < ps.len() ==> #[trigger] appears(idx, x),
{
    let n = ps.len() as int;
    let f = |u: usize| u as int;
    let idxi = idx.map_values(f);
    assert(vstd::relations::injective(f)) by {
        assert(forall|u1: usize, u2: usize| #[trigger] f(u1) == #[trigger] f(u2) ==> u1 == u2);
    }
    idx.lemma_no_duplicates_injective(f);
    idxi.unique_seq_to_set();
    let range = set_int_range(0, n);
    lemma_int_range(0, n);
    assert(idxi.to_set().subset_of(range)) by {
        assert forall|a: int| idxi.to_set().contains(a) implies range.contains(a) by {
            let k = choose|k: int| 0 <= k < idxi.len() && idxi[k] == a;
            assert(idx[k] < ps.len());
        }
    }
    lemma_subset_equality(idxi.to_set(), range);
    assert forall|x: int| 0 <= x < n implies #[trigger] appears(idx, x) by {
        assert(range.contains(x));
        assert(idxi.to_set().contains(x));
        assert(idxi.contains(x));
        let k = choose|k: int| 0 <= k < idxi.len() && idxi[k] == x;
        assert(idx[k] as int == x);
    }
}

/// In an edge-respecting ordering, an edge's source sits strictly before
/// its target.
proof fn lemma_edge_pos(ps: Seq<Package>, idx: Seq<usize>, i: int, j: int)
    requires
        is_ordering(ps, idx),
        graph_edge(ps, i, j),
    ensures
        0 <= pos_in(idx, i) < pos_in(idx, j) < idx.len(),
        idx[pos_in(idx, i)] as int == i,
        idx[pos_in(idx, j)] as int == j,
{
    lemma_ordering_complete(ps, idx);
    assert(appears(idx, i));
    assert(appears(idx, j));
    let kj = pos_in(idx, j);
    assert(0 <= kj < idx.len() && idx[kj] as int == j);
    let m = choose|m: int| 0 <= m < kj && #[trigger] idx[m] as int == i;
    let ki = pos_in(idx, i);
    assert(0 <= ki < idx.len() && idx[ki] as int == i);
    if ki != m {
        assert(idx[ki] != idx[m]);
    }
}

/// Walking a chain of edges can only move forward in the ordering.
proof fn lemma_chain_pos(ps: Seq<Package>, idx: Seq<usize>, c: Seq<int>, t: int)
    requires
        is_ordering(ps, idx),
        is_cycle(ps, c),
        0 <= t < c.len(),
    ensures
        pos_in(idx, c[0]) <= pos_in(idx, c[t]),
    decreases t,
{
    if t > 0 {
        lemma_chain_pos(ps, idx, c, t - 1);
        lemma_edge_pos(ps, idx, c[t - 1], c[t]);
    }
}

/// An ordering that respects every edge can exist only for an acyclic
/// graph: a cyclic package set never admits one.
pub proof fn lemma_ordering_excludes_cycle(ps: Seq<Package>, idx: Seq<usize>)
    requires
        is_ordering(ps, idx),
    ensures
        !has_cycle(ps),
{
    if has_cycle(ps) {
        let c = choose|c: Seq<int>| is_cycle(ps, c);
        lemma_chain_pos(ps, idx, c, c.len() - 1);
        lemma_edge_pos(ps, idx, c.last(), c[0]);
    }
}

/// Whether packages `i` and `j` stand in the edge relation.
fn edge_exec(ps: &Vec<Package>, i: usize, j: usize) -> (r: bool)
    requires
        i < ps@.len(),
        j < ps@.len(),
    ensures
        r == graph_edge(ps@, i as int, j as int),
{
    let q = &ps[i];
    let p = &ps[j];
    let r = q.is_contract && vec_contains_str(&p.deps, q.name.as_str())
        && !strutil::str_eq(q.manifest_path.as_str(), p.manifest_path.as_str());
    proof {
        assert(p.deps.deep_view() =~= p.deps@.map_values(|x: String| x@));
    }
    r
}

pub fn vec_contains_str(v: &Vec<String>, x: &str) -> (r: bool)
    ensures
        r == v.deep_view().contains(x@),
{
    let mut i: usize = 0;
    while i < v.len()
        invariant
            i <= v.len(),
            forall|t: int| 0 <= t < i ==> v.deep_view()[t] != x@,
        decreases v.len() - i,
    {
        if strutil::str_eq(v[i].as_str(), x) {
            proof {
                assert(v.deep_view()[i as int] == x@);
            }
            return true;
        }
        i = i + 1;
    }
    false
}

/// Finds an unplaced package all of whose graph predecessors are placed;
/// when none exists, every unplaced package has an unplaced predecessor.
fn find_ready(ps: &Vec<Package>, placed: &Vec<bool>) -> (r: Option<usize>)
    requires
        placed@.len() == ps@.len(),
    ensures
        match r {
            Some(j) => (j as int) < ps@.len() && !placed@[j as int] && forall|i: int|
                graph_edge(ps@, i, j as int) ==> placed@[i],
            None => forall|j: int|
                0 <= j < ps@.len() && !placed@[j] ==> exists|i: int|
                    #[trigger] graph_edge(ps@, i, j) && !placed@[i],
        },
{
    let n = ps.len();
    let mut j: usize = 0;
    while j < n
        invariant
            n == ps@.len(),
            placed@.len() == n,
            j <= n,
            forall|t: int|
                0 <= t < j && !placed@[t] ==> exists|i: int|
                    #[trigger] graph_edge(ps@, i, t) && !placed@[i],
        decreases n - j,
    {
        if !placed[j] {
            let mut ok = true;
            let mut i: usize = 0;
            while i < n
                invariant
                    n == ps@.len(),
                    placed@.len() == n,
                    j < n,
                    i <= n,
                    ok ==> forall|t: int| 0 <= t < i && graph_edge(ps@, t, j as int)
                        ==> placed@[t],
                    !ok ==> exists|t: int|
                        #[trigger] graph_edge(ps@, t, j as int) && !placed@[t],
                decreases n - i,
            {
                if edge_exec(ps, i, j) && !placed[i] {
                    proof {
                        assert(graph_edge(ps@, i as int, j as int) && !placed@[i as int]);
                    }
                    ok = false;
                }
                i = i + 1;
            }
            if ok {
                return Some(j);
            }
        }
        j = j + 1;
    }
    None
}

/// A walk through the unplaced packages, each step moving to a graph
/// predecessor, starting at `x` and `k` nodes long.
proof fn build_chain(ps: Seq<Package>, placed: Seq<bool>, x: int, k: int) -> (p: Seq<int>)
    requires
        placed.len() == ps.len(),
        0 <= x < ps.len(),
        !placed[x],
        k >= 1,
        forall|j: int|
            0 <= j < placed.len() && !placed[j] ==> exists|i: int|
                #[trigger] graph_edge(ps, i, j) && !placed[i],
    ensures
        p.len() == k,
        p[0] == x,
        forall|t: int| 0 <= t < k ==> 0 <= #[trigger] p[t] < ps.len() && !placed[p[t]],
        forall|t: int| 0 <= t < k - 1 ==> graph_edge(ps, #[trigger] p[t + 1], p[t]),
    decreases k,
{
    if k == 1 {
        seq![x]
    } else {
        let q = build_chain(ps, placed, x, k - 1);
        let last = q[k - 2];
        let pred = choose|i: int| #[trigger] graph_edge(ps, i, last) && !placed[i];
        let p = q.push(pred);
        assert(graph_edge(ps, pred, last));
        assert(p[k - 1] == pred);
        assert forall|t: int| 0 <= t < k - 1 implies graph_edge(ps, #[trigger] p[t + 1], p[t]) by {
            if t < k - 2 {
                assert(p[t + 1] == q[t + 1] && p[t] == q[t]);
            }
        }
        p
    }
}

/// A sequence longer than the range it draws from repeats a value.
proof fn lemma_dup_in_bounded(p: Seq<int>, n: int)
    requires
        n >= 0,
        p.len() > n,
        forall|t: int| 0 <= t < p.len() ==> 0 <= #[trigger] p[t] < n,
    ensures
        exists|a: int, b: int| 0 <= a < b < p.len() && #[trigger] p[a] == #[trigger] p[b],
{
    if !(exists|a: int, b: int| 0 <= a < b < p.len() && #[trigger] p[a] == #[trigger] p[b]) {
        assert(p.no_duplicates()) by {
            assert forall|i: int, j: int|
                0 <= i < p.len() && 0 <= j < p.len() && i != j implies p[i] != p[j] by {
                if i < j {
                    assert(!(0 <= i < j < p.len() && p[i] == p[j]));
                } else {
                    assert(!(0 <= j < i < p.len() && p[j] == p[i]));
                }
            }
        }
        p.unique_seq_to_set();
        let range = set_int_range(0, n);
        lemma_int_range(0, n);
        assert(p.to_set().subset_of(range)) by {
            assert forall|a: int| p.to_set().contains(a) implies range.contains(a) by {
                let t = choose|t: int| 0 <= t < p.len() && p[t] == a;
                assert(0 <= p[t] < n);
            }
        }
        lemma_len_subset(p.to_set(), range);
    }
}

/// When every unplaced package still waits on an unplaced predecessor,
/// the graph is cyclic.
#[verifier::rlimit(50)]
#[verifier::spinoff_prover]
proof fn lemma_stuck_has_cycle(ps: Seq<Package>, placed: Seq<bool>, x: int)
    requires
        placed.len() == ps.len(),
        0 <= x < ps.len(),
        !placed[x],
        forall|j: int|
            0 <= j < placed.len() && !placed[j] ==> exists|i: int|
                #[trigger] graph_edge(ps, i, j) && !placed[i],
    ensures
        has_cycle(ps),
{
    let n = ps.len() as int;
    let p = build_chain(ps, placed, x, n + 1);
    lemma_dup_in_bounded(p, n);
    let (a, b) = choose|a: int, b: int| 0 <= a < b < p.len() && #[trigger] p[a] == #[trigger] p[b];
    let c = Seq::new((b - a) as nat, |u: int| p[b - 1 - u]);
    assert(c.len() > 0);
    assert forall|t: int| 0 <= t < c.len() - 1 implies graph_edge(ps, #[trigger] c[t], c[t + 1]) by {
        assert(c[t] == p[b - 1 - t] && c[t + 1] == p[b - 2 - t]);
        assert(graph_edge(ps, p[(b - 2 - t) + 1], p[b - 2 - t]));
    }
    assert(graph_edge(ps, c.last(), c[0])) by {
        assert(c.last() == p[a] && c[0] == p[b - 1]);
        assert(graph_edge(ps, p[(b - 1) + 1], p[b - 1]));
        assert(p[b] == p[a]);
    }
    assert(is_cycle(ps, c));
}

/// Computes a topological order of the packages' positions, or refuses a
/// cyclic graph.
fn topo_order(ps: &Vec<Package>) -> (r: Result<Vec<usize>, Error>)
    ensures
        match r {
            Ok(idx) => is_ordering(ps@, idx@),
            Err(e) => e == Error::Cycle && has_cycle(ps@),
        },
{
    let n = ps.len();
    let mut placed: Vec<bool> = Vec::new();
    let mut t: usize = 0;
    while t < n
        invariant
            t <= n,
            placed@.len() == t,
            forall|x: int| 0 <= x < t ==> !placed@[x],
        decreases n - t,
    {
        placed.push(false);
        t = t + 1;
    }
    let mut order: Vec<usize> = Vec::new();
    while order.len() < n
        invariant
            n == ps@.len(),
            placed@.len() == n,
            order@.len() <= n,
            forall|k: int| 0 <= k < order@.len() ==> (#[trigger] order@[k]) < n,
            order@.no_duplicates(),
            forall|x: int|
                0 <= x < n ==> (placed@[x] <==> exists|m: int|
                    0 <= m < order@.len() && #[trigger] order@[m] as int == x),
            forall|k: int, i: int|
                #![trigger graph_edge(ps@, i, order@[k] as int)]
                0 <= k < order@.len() && graph_edge(ps@, i, order@[k] as int)
                    ==> exists|m: int| 0 <= m < k && #[trigger] order@[m] as int == i,
        decreases n - order.len(),
    {
        let found = find_ready(ps, &placed);
        match found {
            None => {
                proof {
                    let oi = order@.map_values(|u: usize| u as int);
                    assert(exists|x: int| 0 <= x < placed@.len() && !placed@[x]) by {
                        if forall|x: int| 0 <= x < placed@.len() ==> #[trigger] placed@[x] {
                            let f = |u: usize| u as int;
                            assert(vstd::relations::injective(f)) by {
                                assert(forall|u1: usize, u2: usize|
                                    #[trigger] f(u1) == #[trigger] f(u2) ==> u1 == u2);
                            }
                            order@.lemma_no_duplicates_injective(f);
                            oi.unique_seq_to_set();
                            let range = set_int_range(0, n as int);
                            lemma_int_range(0, n as int);
                            assert(range.subset_of(oi.to_set())) by {
                                assert forall|a: int| range.contains(a)
                                    implies oi.to_set().contains(a) by {
                                    assert(placed@[a]);
                                    let m = choose|m: int|
                                        0 <= m < order@.len() && #[trigger] order@[m] as int == a;
                                    assert(oi[m] == a);
                                }
                            }
                            lemma_len_subset(range, oi.to_set());
                        }
                    }
                    let x = choose|x: int| 0 <= x < placed@.len() && !placed@[x];
                    lemma_stuck_has_cycle(ps@, placed@, x);
                }
                return Err(Error::Cycle);
            },
            Some(j) => {
                let ghost old_order = order@;
                let ghost old_placed = placed@;
                order.push(j);
                placed.set(j, true);
                proof {
                    assert(order@ == old_order.push(j));
                    assert forall|x: int| 0 <= x < n implies (placed@[x] <==> exists|m: int|
                        0 <= m < order@.len() && #[trigger] order@[m] as int == x) by {
                        if x == j as int {
                            assert(order@[order@.len() - 1] as int == x);
                        } else {
                            if placed@[x] {
                                let m = choose|m: int|
                                    0 <= m < old_order.len() && #[trigger] old_order[m] as int == x;
                                assert(order@[m] as int == x);
                            } else {
                                assert(forall|m: int|
                                    0 <= m < old_order.len()
                                        ==> #[trigger] old_order[m] as int != x);
                                assert forall|m: int| 0 <= m < order@.len()
                                    implies #[trigger] order@[m] as int != x by {
                                    if m < old_order.len() {
                                        assert(order@[m] == old_order[m]);
                                    }
                                }
                            }
                        }
                    }
                    assert(!old_placed[j as int]);
                    assert(forall|m: int|
                        0 <= m < old_order.len() ==> #[trigger] old_order[m] as int != j as int);
                    assert(order@.no_duplicates()) by {
                        assert forall|k1: int, k2: int|
                            0 <= k1 < order@.len() && 0 <= k2 < order@.len() && k1 != k2
                            implies order@[k1] != order@[k2] by {
                            if k1 < old_order.len() && k2 < old_order.len() {
                                assert(old_order[k1] != old_order[k2]);
                            }
                        }
                    }
                    assert forall|k: int, i: int|
                        #![trigger graph_edge(ps@, i, order@[k] as int)]
                        0 <= k < order@.len() && graph_edge(ps@, i, order@[k] as int)
                        implies exists|m: int| 0 <= m < k && #[trigger] order@[m] as int == i by {
                        if k < old_order.len() {
                            let m = choose|m: int|
                                0 <= m < k && #[trigger] old_order[m] as int == i;
                            assert(order@[m] as int == i);
                        } else {
                            assert(order@[k] == j);
                            assert(old_placed[i]);
                            let m = choose|m: int|
                                0 <= m < old_order.len() && #[trigger] old_order[m] as int == i;
                            assert(order@[m] as int == i);
                        }
                    }
                }
            },
        }
    }
    Ok(order)
}

/// Topologically sorts the packages by their contract relationships.
/// The result lists each package exactly once; a package providing a
/// contract relationship to another always precedes it. A cyclic graph
/// is a hard error, never silently broken.
pub fn get_workspace(packages: &Vec<Package>) -> (r: Result<Vec<Package>, Error>)
    ensures
        match r {
            Ok(ws) => {
                &&& ws@.len() == packages@.len()
                &&& exists|idx: Seq<usize>|
                    is_ordering(packages@, idx) && (forall|k: int|
                        0 <= k < ws@.len() ==> pkg_eq(#[trigger] ws@[k], packages@[idx[k] as int]))
                &&& forall|a: int, b: int|
                    0 <= a < ws@.len() && 0 <= b < ws@.len() && consumes(
                        #[trigger] ws@[a],
                        #[trigger] ws@[b],
                    ) ==> b < a
                &&& !has_cycle(packages@)
            },
            Err(e) => e == Error::Cycle && has_cycle(packages@),
        },
{
    let idx = match topo_order(packages) {
        Ok(idx) => idx,
        Err(e) => {
            return Err(e);
        },
    };
    let mut ws: Vec<Package> = Vec::new();
    let mut k: usize = 0;
    while k < idx.len()
        invariant
            is_ordering(packages@, idx@),
            idx@.len() == packages@.len(),
            k <= idx@.len(),
            ws@.len() == k,
            forall|t: int| 0 <= t < k ==> pkg_eq(#[trigger] ws@[t], packages@[idx@[t] as int]),
        decreases idx.len() - k,
    {
        let j = idx[k];
        ws.push(packages[j].clone());
        k = k + 1;
    }
    proof {
        lemma_ordering_excludes_cycle(packages@, idx@);
        assert forall|a: int, b: int|
            0 <= a < ws@.len() && 0 <= b < ws@.len() && consumes(
                #[trigger] ws@[a],
                #[trigger] ws@[b],
            ) implies b < a by {
            lemma_consumes_congruence(ws@[a], packages@[idx@[a] as int], ws@[b]);
            lemma_consumes_congruence(ws@[b], packages@[idx@[b] as int], packages@[idx@[a] as int]);
            assert(consumes(packages@[idx@[a] as int], packages@[idx@[b] as int]));
            assert(graph_edge(packages@, idx@[b] as int, idx@[a] as int));
            let m = choose|m: int| 0 <= m < a && #[trigger] idx@[m] as int == idx@[b] as int;
            if m != b {
                assert(idx@[m] != idx@[b]);
            }
        }
    }
    Ok(ws)
}

/// `name` with every dash turned into an underscore.
pub open spec fn underscored(name: Seq<char>) -> Seq<char> {
    name.map_values(|c: char| if c == '-' { '_' } else { c })
}

pub fn dash_to_underscore(name: &str) -> (r: String)
    ensures
        r@ == underscored(name@),
{
    let len = name.unicode_len();
    let mut out = String::new();
    let mut i: usize = 0;
    while i < len
        invariant
            len == name@.len(),
            i <= len,
            out@ =~= underscored(name@.take(i as int)),
        decreases len - i,
    {
        let c = name.get_char(i);
        if c == '-' {
            out.append("_");
            proof {
                reveal_strlit("_");
            }
        } else {
            let piece = name.substring_char(i, i + 1);
            out.append(piece);
        }
        proof {
            assert(out@ =~= underscored(name@.take(i + 1)));
        }
        i = i + 1;
    }
    proof {
        assert(name@.take(len as int) =~= name@);
    }
    out
}

/// Appends the pipeline's own artifact directory to a target directory.
pub fn get_target_dir(target_directory: &str) -> (r: String)
    ensures
        r@ == target_directory@ + "/loam"@,
{
    strutil::strcat(target_directory, "/loam")
}

/// The canonical artifact directory for a package: dashes in the name
/// are normalized to underscores.
pub fn out_dir(target_dir: &str, name: &str) -> (r: String)
    ensures
        r@ == target_dir@ + "/loam/"@ + underscored(name@),
{
    let mut r = strutil::strcat(target_dir, "/loam/");
    let u = dash_to_underscore(name);
    r.append(u.as_str());
    r
}

/// Index of the first space at or after `i`, or the length of `l`.
pub open spec fn next_sp(l: Seq<char>, i: int) -> int
    decreases l.len() - i,
{
    if 0 <= i < l.len() && l[i] != ' ' {
        next_sp(l, i + 1)
    } else {
        i
    }
}

proof fn lemma_next_sp_bounds(l: Seq<char>, i: int)
    requires
        0 <= i <= l.len(),
    ensures
        i <= next_sp(l, i) <= l.len(),
    decreases l.len() - i,
{
    if i < l.len() && l[i] != ' ' {
        lemma_next_sp_bounds(l, i + 1);
    }
}

proof fn lemma_next_sp_at(l: Seq<char>, k: int, i: int)
    requires
        0 <= k <= i <= l.len(),
        forall|j: int| k <= j < i ==> l[j] != ' ',
        i == l.len() || l[i] == ' ',
    ensures
        next_sp(l, k) == i,
    decreases i - k,
{
    if k < i {
        lemma_next_sp_at(l, k + 1, i);
    }
}

/// The lookup key of one line of dependency-tree output: its first two
/// space-separated tokens, the package name and the `v`-prefixed version.
pub open spec fn line_key(l: Seq<char>) -> Option<Seq<char>> {
    let sp = next_sp(l, 0);
    if sp >= l.len() {
        Option::None
    } else {
        Option::Some(l.subrange(0, sp) + l.subrange(sp + 1, next_sp(l, sp + 1)))
    }
}

/// The key a package is registered under: name, then `v`, then version.
pub open spec fn pkg_key(p: Package) -> Seq<char> {
    p.name@ + "v"@ + p.version@
}

/// The position of the last package carrying the given key, if any.
pub open spec fn lookup_idx(ps: Seq<Package>, key: Seq<char>) -> Option<int>
    decreases ps.len(),
{
    if ps.len() == 0 {
        Option::None
    } else if pkg_key(ps.last()) == key {
        Option::Some(ps.len() - 1)
    } else {
        lookup_idx(ps.drop_last(), key)
    }
}

proof fn lemma_lookup_idx_bounds(ps: Seq<Package>, key: Seq<char>)
    ensures
        match lookup_idx(ps, key) {
            Option::Some(i) => 0 <= i < ps.len() && pkg_key(ps[i]) == key,
            Option::None => true,
        },
    decreases ps.len(),
{
    if ps.len() > 0 && pkg_key(ps.last()) != key {
        lemma_lookup_idx_bounds(ps.drop_last(), key);
    }
}

fn pkg_key_exec(p: &Package) -> (r: String)
    ensures
        r@ == pkg_key(*p),
{
    strutil::strcat3(p.name.as_str(), "v", p.version.as_str())
}

fn lookup_pkg(ps: &Vec<Package>, key: &str) -> (r: Option<usize>)
    ensures
        match r {
            Some(i) => lookup_idx(ps@, key@) == Option::Some(i as int),
            None => lookup_idx(ps@, key@) is None,
        },
{
    let mut i: usize = ps.len();
    proof {
        assert(ps@.take(ps@.len() as int) =~= ps@);
    }
    while i > 0
        invariant
            i <= ps@.len(),
            lookup_idx(ps@, key@) == lookup_idx(ps@.take(i as int), key@),
        decreases i,
    {
        i = i - 1;
        let k = pkg_key_exec(&ps[i]);
        proof {
            assert(ps@.take(i + 1).last() == ps@[i as int]);
            assert(ps@.take(i + 1).drop_last() =~= ps@.take(i as int));
        }
        if strutil::str_eq(k.as_str(), key) {
            return Some(i);
        }
    }
    proof {
        assert(ps@.take(0) =~= Seq::<Package>::empty());
    }
    None
}

/// Positions of the packages the dependency-tree lines select: each line's
/// key is looked up, the root's own manifest is left out, and the rest
/// keep the lines' order.
pub open spec fn tree_selection(
    lines: Seq<Seq<char>>,
    ps: Seq<Package>,
    root_manifest: Seq<char>,
) -> Seq<int>
    decreases lines.len(),
{
    if lines.len() == 0 {
        Seq::empty()
    } else {
        let rest = tree_selection(lines.drop_first(), ps, root_manifest);
        match line_key(lines.first()) {
            Option::None => rest,
            Option::Some(key) => match lookup_idx(ps, key) {
                Option::None => rest,
                Option::Some(i) => if ps[i].manifest_path@ == root_manifest {
                    rest
                } else {
                    seq![i] + rest
                },
            },
        }
    }
}

/// Parses one dependency-tree line's key, if the line has two tokens.
fn line_key_exec(l: &str) -> (r: Option<String>)
    ensures
        match r {
            Some(k) => line_key(l@) == Option::Some(k@),
            None => line_key(l@) is None,
        },
{
    let len = l.unicode_len();
    let mut sp: usize = 0;
    while sp < len && l.get_char(sp) != ' '
        invariant
            len == l@.len(),
            sp <= len,
            forall|j: int| 0 <= j < sp ==> l@[j] != ' ',
        decreases len - sp,
    {
        sp = sp + 1;
    }
    proof {
        lemma_next_sp_at(l@, 0, sp as int);
    }
    if sp >= len {
        return None;
    }
    let mut sp2: usize = sp + 1;
    while sp2 < len && l.get_char(sp2) != ' '
        invariant
            len == l@.len(),
            sp + 1 <= sp2 <= len,
            forall|j: int| sp + 1 <= j < sp2 ==> l@[j] != ' ',
        decreases len - sp2,
    {
        sp2 = sp2 + 1;
    }
    proof {
        lemma_next_sp_at(l@, sp + 1, sp2 as int);
    }
    let t0 = l.substring_char(0, sp);
    let t1 = l.substring_char(sp + 1, sp2);
    Some(strutil::strcat(t0, t1))
}

/// Resolves the full package set named by dependency-tree output: every
/// line's package except the root itself, in line order, with the root
/// appended last.
pub fn all(tree_stdout: &str, packages: &Vec<Package>, root: &Package) -> (r: Vec<Package>)
    ensures
        ({
            let sel = tree_selection(strutil::spec_lines(tree_stdout@), packages@,
                root.manifest_path@);
            &&& r@.len() == sel.len() + 1
            &&& forall|t: int| 0 <= t < sel.len() ==> 0 <= #[trigger] sel[t] < packages@.len()
            &&& forall|t: int|
                0 <= t < sel.len() ==> pkg_eq(#[trigger] r@[t], packages@[sel[t]])
            &&& pkg_eq(r@.last(), *root)
        }),
{
    let lines = strutil::split_lines(tree_stdout);
    let ghost lseq = lines.deep_view();
    let ghost rootm = root.manifest_path@;
    let ghost done = tree_selection(lseq, packages@, rootm);
    let mut r: Vec<Package> = Vec::new();
    let mut i: usize = 0;
    proof {
        assert(lseq.skip(0) =~= lseq);
        assert(done =~= done.take(0) + done);
    }
    while i < lines.len()
        invariant
            lseq == lines.deep_view(),
            rootm == root.manifest_path@,
            done == tree_selection(lseq, packages@, rootm),
            lseq.len() == lines@.len(),
            i <= lines@.len(),
            r@.len() + tree_selection(lseq.skip(i as int), packages@, rootm).len() == done.len(),
            forall|t: int| 0 <= t < r@.len() ==> 0 <= #[trigger] done[t] < packages@.len(),
            forall|t: int|
                0 <= t < r@.len() ==> pkg_eq(#[trigger] r@[t], packages@[done[t]]),
            done =~= done.take(r@.len() as int) + tree_selection(
                lseq.skip(i as int),
                packages@,
                rootm,
            ),
        decreases lines@.len() - i,
    {
        let ghost pre = tree_selection(lseq.skip(i as int), packages@, rootm);
        let ghost post = tree_selection(lseq.skip(i + 1), packages@, rootm);
        let ghost old_len = r@.len() as int;
        proof {
            assert(lseq.skip(i as int).len() > 0);
            assert(lseq.skip(i as int).first() == lseq[i as int]);
            assert(lseq.skip(i as int).drop_first() =~= lseq.skip(i + 1));
            assert(lines@[i as int]@ == lseq[i as int]);
        }
        let key = line_key_exec(lines[i].as_str());
        match key {
            None => {
                proof {
                    assert(pre == post);
                }
            },
            Some(k) => {
                match lookup_pkg(packages, k.as_str()) {
                    None => {
                        proof {
                            assert(pre == post);
                        }
                    },
                    Some(j) => {
                        proof {
                            lemma_lookup_idx_bounds(packages@, k@);
                            assert(0 <= j < packages@.len());
                        }
                        if !strutil::str_eq(
                            packages[j].manifest_path.as_str(),
                            root.manifest_path.as_str(),
                        ) {
                            proof {
                                assert(pre == seq![j as int] + post);
                            }
                            let ghost old_r = r@;
                            r.push(packages[j].clone());
                            proof {
                                assert(done =~= done.take(old_len) + (seq![j as int] + post));
                                assert(done[old_len] == j as int);
                                assert(done.take(old_len + 1) =~= done.take(old_len).push(
                                    j as int,
                                ));
                                assert(done =~= done.take(old_len + 1) + post);
                                assert forall|t: int|
                                    0 <= t < r@.len() implies 0 <= #[trigger] done[t]
                                    < packages@.len() by {
                                    if t < old_len {
                                        assert(r@[t] == old_r[t]);
                                    } else {
                                        assert(done[t] == j as int);
                                    }
                                }
                                assert forall|t: int|
                                    0 <= t < r@.len() implies pkg_eq(
                                    #[trigger] r@[t],
                                    packages@[done[t]],
                                ) by {
                                    if t < old_len {
                                        assert(r@[t] == old_r[t]);
                                        assert(pkg_eq(old_r[t], packages@[done[t]]));
                                    } else {
                                        assert(t == old_len);
                                        assert(done[t] == j as int);
                                        assert(pkg_eq(r@[t], packages@[j as int]));
                                    }
                                }
                            }
                        } else {
                            proof {
                                assert(pre == post);
                            }
                        }
                    },
                }
            },
        }
        i = i + 1;
    }
    proof {
        assert(lseq.skip(lseq.len() as int) =~= Seq::<Seq<char>>::empty());
        assert(tree_selection(lseq.skip(lseq.len() as int), packages@, rootm).len() == 0);
        assert(done =~= done.take(r@.len() as int));
        assert(done.take(r@.len() as int) =~= done);
    }
    r.push(root.clone());
    r
}

/// The packages declaring the given relationship kind, the consuming
/// package itself left out.
pub open spec fn kind_deps_of(ps: Seq<Package>, manifest: Seq<char>, kind: DepKind) -> Seq<
    Package,
> {
    ps.filter(|p: Package| p.is_dep_spec(kind) && p.manifest_path@ != manifest)
}

fn deps_of_kind(packages: &Vec<Package>, manifest_path: &str, kind: &DepKind) -> (r: Vec<Package>)
    ensures
        ({
            let sel = kind_deps_of(packages@, manifest_path@, *kind);
            &&& r@.len() == sel.len()
            &&& forall|t: int| 0 <= t < sel.len() ==> pkg_eq(#[trigger] r@[t], sel[t])
        }),
{
    let mut r: Vec<Package> = Vec::new();
    let mut i: usize = 0;
    proof {
        reveal(Seq::filter);
        assert(packages@.take(0) =~= Seq::<Package>::empty());
        assert(packages@.take(0).len() == 0);
    }
    while i < packages.len()
        invariant
            i <= packages@.len(),
            ({
                let sel = kind_deps_of(packages@.take(i as int), manifest_path@, *kind);
                &&& r@.len() == sel.len()
                &&& forall|t: int| 0 <= t < sel.len() ==> pkg_eq(#[trigger] r@[t], sel[t])
            }),
        decreases packages@.len() - i,
    {
        let ghost pre = kind_deps_of(packages@.take(i as int), manifest_path@, *kind);
        proof {
            reveal(Seq::filter);
            assert(packages@.take(i + 1).drop_last() =~= packages@.take(i as int));
            assert(packages@.take(i + 1).last() == packages@[i as int]);
        }
        let keep = packages[i].is_dep(kind)
            && !strutil::str_eq(packages[i].manifest_path.as_str(), manifest_path);
        if keep {
            r.push(packages[i].clone());
            proof {
                let post = kind_deps_of(packages@.take(i + 1), manifest_path@, *kind);
                assert(post == pre.push(packages@[i as int]));
                assert(forall|t: int|
                    0 <= t < pre.len() ==> pkg_eq(#[trigger] r@[t], post[t]));
            }
        } else {
            proof {
                let post = kind_deps_of(packages@.take(i + 1), manifest_path@, *kind);
                assert(post == pre);
            }
        }
        i = i + 1;
    }
    proof {
        assert(packages@.take(packages@.len() as int) =~= packages@);
    }
    r
}

/// The contract dependencies among the given packages, the package at
/// `manifest_path` itself left out.
pub fn contract(packages: &Vec<Package>, manifest_path: &str) -> (r: Vec<Package>)
    ensures
        ({
            let sel = kind_deps_of(packages@, manifest_path@, DepKind::Contract);
            &&& r@.len() == sel.len()
            &&& forall|t: int| 0 <= t < sel.len() ==> pkg_eq(#[trigger] r@[t], sel[t])
        }),
{
    deps_of_kind(packages, manifest_path, &DepKind::Contract)
}

/// The subcontract dependencies among the given packages, the package at
/// `manifest_path` itself left out.
pub fn subcontract(packages: &Vec<Package>, manifest_path: &str) -> (r: Vec<Package>)
    ensures
        ({
            let sel = kind_deps_of(packages@, manifest_path@, DepKind::Subcontract);
            &&& r@.len() == sel.len()
            &&& forall|t: int| 0 <= t < sel.len() ==> pkg_eq(#[trigger] r@[t], sel[t])
        }),
{
    deps_of_kind(packages, manifest_path, &DepKind::Subcontract)
}

/// Index of the last separator of `s`, or `-1` if `s` has none.
pub open spec fn last_slash(s: Seq<char>) -> int
    decreases s.len(),
{
    if s.len() == 0 {
        -1
    } else if s.last() == '/' {
        s.len() - 1
    } else {
        last_slash(s.drop_last())
    }
}

proof fn lemma_last_slash_bounds(s: Seq<char>)
    ensures
        -1 <= last_slash(s) < s.len(),
    decreases s.len(),
{
    if s.len() > 0 && s.last() != '/' {
        lemma_last_slash_bounds(s.drop_last());
    }
}

/// The directory part of `s`: what stands before its last separator.
fn parent_dir<'a>(s: &'a str) -> (r: Option<&'a str>)
    ensures
        match r {
            Some(p) => last_slash(s@) >= 0 && p@ == s@.subrange(0, last_slash(s@)),
            None => last_slash(s@) == -1,
        },
{
    let len = s.unicode_len();
    let mut e: usize = len;
    proof {
        assert(s@.take(len as int) =~= s@);
    }
    while e > 0 && s.get_char(e - 1) != '/'
        invariant
            len == s@.len(),
            e <= len,
            last_slash(s@) == last_slash(s@.take(e as int)),
        decreases e,
    {
        proof {
            assert(s@.take(e as int).drop_last() =~= s@.take(e - 1));
            assert(s@.take(e as int).last() == s@[e - 1]);
        }
        e = e - 1;
    }
    if e == 0 {
        proof {
            assert(s@.take(0) =~= Seq::<char>::empty());
        }
        return None;
    }
    proof {
        assert(s@.take(e as int).last() == s@[e - 1]);
        assert(last_slash(s@) == e - 1);
    }
    Some(s.substring_char(0, e - 1))
}

/// A package's selection for the source/output path set: the kind it is
/// asked for, or the consuming package itself.
pub open spec fn loam_selected(ps: Seq<Package>, manifest: Seq<char>, kind: DepKind) -> Seq<
    Package,
> {
    ps.filter(|p: Package| p.is_dep_spec(kind) || p.manifest_path@ == manifest)
}

/// The source/output pair derived from one package: its crate root file,
/// and its canonical artifact directory.
pub open spec fn loam_pair_of(p: Package) -> (Seq<char>, Seq<char>) {
    (
        p.manifest_path@.subrange(0, last_slash(p.manifest_path@)) + "/src/lib.rs"@,
        p.name@ + p.version@ + "/loam/"@ + underscored(p.name@),
    )
}

/// Two source/output pairs hold the same paths.
pub open spec fn pair_eq(a: (String, String), b: (Seq<char>, Seq<char>)) -> bool {
    a.0@ == b.0 && a.1@ == b.1
}

/// Some entry of `v` holds exactly the paths of `pr`.
pub open spec fn pair_listed(v: Seq<(String, String)>, pr: (Seq<char>, Seq<char>)) -> bool {
    exists|t: int| 0 <= t < v.len() && pair_eq(#[trigger] v[t], pr)
}

/// The pair read from a package depends only on its fields' views.
proof fn lemma_pair_congruence(a: Package, b: Package)
    requires
        pkg_eq(a, b),
    ensures
        loam_pair_of(a) == loam_pair_of(b),
{
}

fn select_loam(packages: &Vec<Package>, manifest_path: &str, kind: &DepKind) -> (r: Vec<Package>)
    ensures
        ({
            let sel = loam_selected(packages@, manifest_path@, *kind);
            &&& r@.len() == sel.len()
            &&& forall|t: int| 0 <= t < sel.len() ==> pkg_eq(#[trigger] r@[t], sel[t])
        }),
{
    let mut r: Vec<Package> = Vec::new();
    let mut i: usize = 0;
    proof {
        reveal(Seq::filter);
        assert(packages@.take(0) =~= Seq::<Package>::empty());
        assert(packages@.take(0).len() == 0);
    }
    while i < packages.len()
        invariant
            i <= packages@.len(),
            ({
                let sel = loam_selected(packages@.take(i as int), manifest_path@, *kind);
                &&& r@.len() == sel.len()
                &&& forall|t: int| 0 <= t < sel.len() ==> pkg_eq(#[trigger] r@[t], sel[t])
            }),
        decreases packages@.len() - i,
    {
        let ghost pre = loam_selected(packages@.take(i as int), manifest_path@, *kind);
        proof {
            reveal(Seq::filter);
            assert(packages@.take(i + 1).drop_last() =~= packages@.take(i as int));
            assert(packages@.take(i + 1).last() == packages@[i as int]);
        }
        let keep = packages[i].is_dep(kind)
            || strutil::str_eq(packages[i].manifest_path.as_str(), manifest_path);
        if keep {
            r.push(packages[i].clone());
            proof {
                let post = loam_selected(packages@.take(i + 1), manifest_path@, *kind);
                assert(post == pre.push(packages@[i as int]));
                assert(forall|t: int| 0 <= t < pre.len() ==> pkg_eq(#[trigger] r@[t], post[t]));
            }
        } else {
            proof {
                let post = loam_selected(packages@.take(i + 1), manifest_path@, *kind);
                assert(post == pre);
            }
        }
        i = i + 1;
    }
    proof {
        assert(packages@.take(packages@.len() as int) =~= packages@);
    }
    r
}

fn pairs_contain(v: &Vec<(String, String)>, x0: &str, x1: &str) -> (r: bool)
    ensures
        r == exists|t: int| 0 <= t < v@.len() && (#[trigger] v@[t]).0@ == x0@ && v@[t].1@ == x1@,
{
    let mut i: usize = 0;
    while i < v.len()
        invariant
            i <= v@.len(),
            forall|t: int| 0 <= t < i ==> !((#[trigger] v@[t]).0@ == x0@ && v@[t].1@ == x1@),
        decreases v@.len() - i,
    {
        if strutil::str_eq(v[i].0.as_str(), x0) && strutil::str_eq(v[i].1.as_str(), x1) {
            return true;
        }
        i = i + 1;
    }
    false
}

/// True when two stored pairs hold the same two paths.
pub open spec fn same_pair(a: (String, String), b: (String, String)) -> bool {
    a.0@ == b.0@ && a.1@ == b.1@
}

/// Pair `x` occurs somewhere in `r`.
pub open spec fn pair_covered(r: Seq<(String, String)>, x: (String, String)) -> bool {
    exists|t: int| 0 <= t < r.len() && same_pair(#[trigger] r[t], x)
}

/// Pair `x` reads the same paths as some entry of `xs`.
pub open spec fn pair_sourced(xs: Seq<(String, String)>, x: (String, String)) -> bool {
    exists|s: int| 0 <= s < xs.len() && same_pair(x, #[trigger] xs[s])
}

/// Pair `x` is the source/output pair of one of the packages of `sel`.
pub open spec fn pair_of_selected(sel: Seq<Package>, x: (String, String)) -> bool {
    exists|s: int| 0 <= s < sel.len() && pair_eq(x, loam_pair_of(#[trigger] sel[s]))
}

proof fn lemma_covered_push(r: Seq<(String, String)>, x: (String, String), y: (String, String))
    requires
        pair_covered(r, x),
    ensures
        pair_covered(r.push(y), x),
{
    let t = choose|t: int| 0 <= t < r.len() && same_pair(#[trigger] r[t], x);
    assert(same_pair(r.push(y)[t], x));
}

/// Keeps the first occurrence of each distinct pair, in order.
#[verifier::rlimit(100)]
fn dedup_pairs(xs: &Vec<(String, String)>) -> (r: Vec<(String, String)>)
    ensures
        forall|s: int| 0 <= s < xs@.len() ==> pair_covered(r@, #[trigger] xs@[s]),
        forall|t: int| 0 <= t < r@.len() ==> pair_sourced(xs@, #[trigger] r@[t]),
        forall|a: int, b: int| 0 <= a < b < r@.len() ==> !same_pair(#[trigger] r@[a], #[trigger] r@[b]),
{
    let mut r: Vec<(String, String)> = Vec::new();
    let mut i: usize = 0;
    while i < xs.len()
        invariant
            i <= xs@.len(),
            forall|s: int| 0 <= s < i ==> pair_covered(r@, #[trigger] xs@[s]),
            forall|t: int| 0 <= t < r@.len() ==> pair_sourced(xs@, #[trigger] r@[t]),
            forall|a: int, b: int|
                0 <= a < b < r@.len() ==> !same_pair(#[trigger] r@[a], #[trigger] r@[b]),
        decreases xs@.len() - i,
    {
        let dup = pairs_contain(&r, xs[i].0.as_str(), xs[i].1.as_str());
        if !dup {
            let ghost old_r = r@;
            let item = (xs[i].0.clone(), xs[i].1.clone());
            proof {
                assert(same_pair(item, xs@[i as int]));
            }
            r.push(item);
            proof {
                assert(same_pair(r@[old_r.len() as int], xs@[i as int]));
                assert forall|t: int| 0 <= t < r@.len() implies pair_sourced(
                    xs@,
                    #[trigger] r@[t],
                ) by {
                    if t < old_r.len() {
                        assert(r@[t] == old_r[t]);
                        assert(pair_sourced(xs@, old_r[t]));
                    } else {
                        assert(same_pair(r@[t], xs@[i as int]));
                    }
                }
                assert forall|s: int| 0 <= s < i + 1 implies pair_covered(
                    r@,
                    #[trigger] xs@[s],
                ) by {
                    if s < i {
                        assert(r@ =~= old_r.push(r@[old_r.len() as int]));
                        lemma_covered_push(old_r, xs@[s], r@[old_r.len() as int]);
                    } else {
                        assert(same_pair(r@[old_r.len() as int], xs@[s]));
                    }
                }
                assert forall|a: int, b: int| 0 <= a < b < r@.len() implies !same_pair(
                    #[trigger] r@[a],
                    #[trigger] r@[b],
                ) by {
                    if b == old_r.len() as int {
                        assert(!(r@[a].0@ == xs@[i as int].0@ && r@[a].1@ == xs@[i as int].1@));
                    }
                }
            }
        } else {
            proof {
                let t0 = choose|t: int|
                    0 <= t < r@.len() && (#[trigger] r@[t]).0@ == xs@[i as int].0@ && r@[t].1@
                        == xs@[i as int].1@;
                assert(same_pair(r@[t0], xs@[i as int]));
                assert(pair_covered(r@, xs@[i as int]));
            }
        }
        i = i + 1;
    }
    r
}

/// Resolves the source-file/output-directory pair of every package of the
/// requested kind (and of the consuming package itself), as a set: each
/// distinct pair exactly once. A selected package whose manifest path has
/// no directory part is an error.
pub fn loam(packages: &Vec<Package>, manifest_path: &str, kind: &DepKind) -> (r: Result<
    Vec<(String, String)>,
    Error,
>)
    ensures
        ({
            let sel = loam_selected(packages@, manifest_path@, *kind);
            match r {
                Ok(v) => {
                    &&& forall|s: int|
                        0 <= s < sel.len() ==> pair_listed(v@, loam_pair_of(#[trigger] sel[s]))
                    &&& forall|t: int| 0 <= t < v@.len() ==> pair_of_selected(sel, #[trigger] v@[t])
                    &&& forall|a: int, b: int|
                        0 <= a < b < v@.len() ==> !same_pair(#[trigger] v@[a], #[trigger] v@[b])
                },
                Err(e) => {
                    &&& e matches Error::ParentNotFound(_)
                    &&& exists|s: int|
                        0 <= s < sel.len() && last_slash((#[trigger] sel[s]).manifest_path@) == -1
                },
            }
        }),
{
    let ghost sel = loam_selected(packages@, manifest_path@, *kind);
    let picked = select_loam(packages, manifest_path, kind);
    let mut pairs: Vec<(String, String)> = Vec::new();
    let mut i: usize = 0;
    while i < picked.len()
        invariant
            sel == loam_selected(packages@, manifest_path@, *kind),
            picked@.len() == sel.len(),
            forall|t: int| 0 <= t < sel.len() ==> pkg_eq(#[trigger] picked@[t], sel[t]),
            i <= picked@.len(),
            pairs@.len() == i,
            forall|t: int|
                0 <= t < i ==> pair_eq(#[trigger] pairs@[t], loam_pair_of(picked@[t])),
        decreases picked@.len() - i,
    {
        let p = &picked[i];
        let parent = match parent_dir(p.manifest_path.as_str()) {
            Some(parent) => parent,
            None => {
                proof {
                    assert(pkg_eq(picked@[i as int], sel[i as int]));
                    assert(last_slash(sel[i as int].manifest_path@) == -1);
                }
                return Err(Error::ParentNotFound(String::from_str(p.manifest_path.as_str())));
            },
        };
        let lib = strutil::strcat(parent, "/src/lib.rs");
        let mut od = strutil::strcat(p.name.as_str(), p.version.as_str());
        od.append("/loam/");
        let u = dash_to_underscore(p.name.as_str());
        od.append(u.as_str());
        proof {
            assert(pair_eq((lib, od), loam_pair_of(picked@[i as int])));
        }
        pairs.push((lib, od));
        i = i + 1;
    }
    let v = dedup_pairs(&pairs);
    proof {
        assert forall|s: int| 0 <= s < sel.len() implies pair_listed(
            v@,
            loam_pair_of(#[trigger] sel[s]),
        ) by {
            lemma_pair_congruence(picked@[s], sel[s]);
            assert(pair_eq(pairs@[s], loam_pair_of(picked@[s])));
            assert(pair_covered(v@, pairs@[s]));
            let t = choose|t: int| 0 <= t < v@.len() && same_pair(#[trigger] v@[t], pairs@[s]);
            assert(pair_eq(v@[t], loam_pair_of(sel[s])));
        }
        assert forall|t: int| 0 <= t < v@.len() implies pair_of_selected(
            sel,
            #[trigger] v@[t],
        ) by {
            assert(pair_sourced(pairs@, v@[t]));
            let s = choose|s: int| 0 <= s < pairs@.len() && same_pair(v@[t], #[trigger] pairs@[s]);
            assert(pair_eq(pairs@[s], loam_pair_of(picked@[s])));
            lemma_pair_congruence(picked@[s], sel[s]);
            assert(pair_eq(v@[t], loam_pair_of(sel[s])));
        }
    }
    Ok(v)
}

/// The source/output pairs of the subcontract dependencies.
pub fn subcontract_paths(packages: &Vec<Package>, manifest_path: &str) -> (r: Result<
    Vec<(String, String)>,
    Error,
>)
    ensures
        ({
            let sel = loam_selected(packages@, manifest_path@, DepKind::Subcontract);
            match r {
                Ok(v) => forall|s: int|
                    0 <= s < sel.len() ==> pair_listed(v@, loam_pair_of(#[trigger] sel[s])),
                Err(e) => e matches Error::ParentNotFound(_),
            }
        }),
{
    loam(packages, manifest_path, &DepKind::Subcontract)
}

} // verus!
