//! The locked dependency graph: packages, the edges from each package to its
//! dependencies, and the one package that nothing depends on.

use vstd::prelude::*;
use crate::error::AuditError;
use crate::version::{semver_valid, Version};

verus! {

/// A locked package.
#[derive(Debug)]
pub struct Package {
    pub name: String,
    pub version: Version,
}

/// A package as plain text: its name, then its version.
pub open spec fn package_views(v: Seq<Package>) -> Seq<(Seq<char>, Seq<char>)> {
    Seq::new(v.len(), |i: int| (v[i].name@, v[i].version@))
}

/// The names and versions of a list of pairs of strings.
pub open spec fn pair_views(v: Seq<(String, String)>) -> Seq<(Seq<char>, Seq<char>)> {
    Seq::new(v.len(), |i: int| (v[i].0@, v[i].1@))
}

/// What the `cargo-lock` crate reads from the text of a lockfile: the
/// packages in the order in which its dependency tree holds them, as name
/// and version, and the edges of the tree in the order in which it adds
/// them, each from the position of a package to the position of one of its
/// dependencies. `None` where the crate refuses the text.
pub uninterp spec fn lock_graph(text: Seq<char>) -> Option<
    (Seq<(Seq<char>, Seq<char>)>, Seq<(usize, usize)>),
>;

/// The order in which `petgraph::visit::Bfs` visits the nodes of the directed
/// graph with nodes `0..n` and the given edges, added in their order, when it
/// starts at `root`.
pub uninterp spec fn petgraph_bfs(n: nat, edges: Seq<(usize, usize)>, root: nat) -> Seq<usize>;

/// The sources of the edges into `node`, in the order in which
/// `petgraph::Graph::edges_directed` walks them, for the directed graph with
/// nodes `0..n` and the given edges, added in their order.
pub uninterp spec fn petgraph_incoming(n: nat, edges: Seq<(usize, usize)>, node: nat) -> Seq<
    usize,
>;

/// Every edge joins two of the nodes `0..n`.
pub open spec fn in_range(n: int, edges: Seq<(usize, usize)>) -> bool {
    forall|k: int| 0 <= k < edges.len() ==> (#[trigger] edges[k]).0 < n && edges[k].1 < n
}

/// Some edge ends in `v`.
pub open spec fn has_parent(edges: Seq<(usize, usize)>, v: int) -> bool {
    exists|k: int| 0 <= k < edges.len() && (#[trigger] edges[k]).1 == v
}

/// `root` is the only node without a parent.
pub open spec fn single_root(n: int, edges: Seq<(usize, usize)>, root: int) -> bool {
    &&& 0 <= root < n
    &&& forall|v: int| 0 <= v < n ==> (has_parent(edges, v) <==> v != root)
}

/// `rank` gives every node a number that grows along every edge.
pub open spec fn ranked(n: int, edges: Seq<(usize, usize)>, rank: Seq<nat>) -> bool {
    &&& rank.len() == n
    &&& forall|k: int|
        0 <= k < edges.len() ==> rank[(#[trigger] edges[k]).0 as int] < rank[edges[k].1 as int]
}

/// The graph has no cycle: its nodes can be numbered so that the number grows
/// along every edge.
pub open spec fn acyclic(n: int, edges: Seq<(usize, usize)>) -> bool {
    exists|rank: Seq<nat>| ranked(n, edges, rank)
}

/// Parses the text with `cargo_lock::Lockfile::from_str`, builds the tree
/// with `Lockfile::dependency_tree`, and lists the node weights and the raw
/// edges of its graph. The contract names what comes out and adds that every
/// edge joins two listed packages, as `petgraph` only adds edges between
/// nodes it holds. Nothing is said of the error text.
#[verifier::external_body]
fn read_lock(text: &str) -> (r: Result<(Vec<(String, String)>, Vec<(usize, usize)>), String>)
    ensures
        match r {
            Ok(g) => lock_graph(text@) == Some((pair_views(g.0@), g.1@)) && in_range(
                g.0.len() as int,
                g.1@,
            ),
            Err(_) => lock_graph(text@) is None,
        },
{
    let lock: cargo_lock::Lockfile = text.parse().map_err(|e: cargo_lock::Error| e.to_string())?;
    let tree = lock.dependency_tree().map_err(|e| e.to_string())?;
    let g = tree.graph();
    let packages =
        g.node_weights().map(|p| (p.name.as_str().to_string(), p.version.to_string())).collect();
    let edges = g.raw_edges().iter().map(|e| (e.source().index(), e.target().index())).collect();
    Ok((packages, edges))
}

/// Builds a `petgraph::Graph` with `n` nodes and the given edges and walks it
/// with `petgraph::visit::Bfs` from `root`. The contract names the order and
/// states what the traversal's source shows: it starts with `root`, yields
/// nodes of the graph, yields no node twice, and yields the target of every
/// edge that leaves a node it yields.
#[verifier::external_body]
fn bfs_order(n: usize, edges: &Vec<(usize, usize)>, root: usize) -> (r: Vec<usize>)
    requires
        root < n < u32::MAX,
        edges.len() < u32::MAX,
        in_range(n as int, edges@),
    ensures
        r@ == petgraph_bfs(n as nat, edges@, root as nat),
        r.len() >= 1 && r[0] == root,
        forall|i: int| 0 <= i < r.len() ==> #[trigger] r[i] < n,
        forall|i: int, j: int| 0 <= i < j < r.len() ==> r[i] != r[j],
        forall|i: int, k: int|
            0 <= i < r.len() && 0 <= k < edges.len() && (#[trigger] edges[k]).0 == #[trigger] r[i]
                ==> r@.contains(edges[k].1),
{
    let mut g = petgraph::Graph::<(), ()>::new();
    for _ in 0..n {
        g.add_node(());
    }
    for e in edges.iter() {
        g.add_edge(petgraph::graph::NodeIndex::new(e.0), petgraph::graph::NodeIndex::new(e.1), ());
    }
    let mut bfs = petgraph::visit::Bfs::new(&g, petgraph::graph::NodeIndex::new(root));
    let mut out = Vec::new();
    while let Some(nx) = bfs.next(&g) {
        out.push(nx.index());
    }
    out
}

/// Builds a `petgraph::Graph` with `n` nodes and the given edges and lists the
/// sources of the edges that `Graph::edges_directed` yields for `node` and
/// `Incoming`. The contract names the list and states that it holds exactly
/// the sources of the edges into `node`.
#[verifier::external_body]
fn incoming(n: usize, edges: &Vec<(usize, usize)>, node: usize) -> (r: Vec<usize>)
    requires
        node < n < u32::MAX,
        edges.len() < u32::MAX,
        in_range(n as int, edges@),
    ensures
        r@ == petgraph_incoming(n as nat, edges@, node as nat),
        forall|s: usize| r@.contains(s) <==> edges@.contains((s, node)),
{
    let mut g = petgraph::Graph::<(), ()>::new();
    for _ in 0..n {
        g.add_node(());
    }
    for e in edges.iter() {
        g.add_edge(petgraph::graph::NodeIndex::new(e.0), petgraph::graph::NodeIndex::new(e.1), ());
    }
    let at = petgraph::graph::NodeIndex::new(node);
    g.edges_directed(at, petgraph::Direction::Incoming).map(
        |e| petgraph::visit::EdgeRef::source(&e).index(),
    ).collect()
}

/// How many entries of `done` are still `false`.
pub open spec fn open_count(done: Seq<bool>) -> nat
    decreases done.len(),
{
    if done.len() == 0 {
        0
    } else if done.last() {
        open_count(done.drop_last())
    } else {
        open_count(done.drop_last()) + 1
    }
}

proof fn lemma_open_count_close(done: Seq<bool>, v: int)
    requires
        0 <= v < done.len(),
        !done[v],
    ensures
        open_count(done.update(v, true)) + 1 == open_count(done),
    decreases done.len(),
{
    let after = done.update(v, true);
    if v == done.len() - 1 {
        assert(after.drop_last() =~= done.drop_last());
    } else {
        lemma_open_count_close(done.drop_last(), v);
        assert(after.drop_last() =~= done.drop_last().update(v, true));
    }
}

proof fn lemma_open_count_all_false(n: nat)
    ensures
        open_count(Seq::new(n, |i: int| false)) == n,
    decreases n,
{
    if n > 0 {
        lemma_open_count_all_false((n - 1) as nat);
        assert(Seq::new(n, |i: int| false).drop_last() =~= Seq::new(
            (n - 1) as nat,
            |i: int| false,
        ));
    }
}

proof fn lemma_open_count_zero(done: Seq<bool>)
    requires
        open_count(done) == 0,
    ensures
        forall|v: int| 0 <= v < done.len() ==> done[v],
    decreases done.len(),
{
    if done.len() > 0 {
        lemma_open_count_zero(done.drop_last());
        assert forall|v: int| 0 <= v < done.len() implies done[v] by {
            if v < done.len() - 1 {
                assert(done[v] == done.drop_last()[v]);
            }
        }
    }
}

/// Where every node that is still open has an open parent, no numbering of
/// the nodes grows along every edge: the open node `v` would need a number
/// above that of an open parent, and so on without end.
proof fn lemma_stuck(n: int, edges: Seq<(usize, usize)>, done: Seq<bool>, rank: Seq<nat>, v: int)
    requires
        in_range(n, edges),
        done.len() == n,
        rank.len() == n,
        0 <= v < n,
        !done[v],
        forall|w: int|
            0 <= w < n && !done[w] ==> exists|k: int|
                0 <= k < edges.len() && (#[trigger] edges[k]).1 == w && !done[edges[k].0 as int],
    ensures
        !ranked(n, edges, rank),
    decreases rank[v],
{
    if ranked(n, edges, rank) {
        let k = choose|k: int|
            0 <= k < edges.len() && (#[trigger] edges[k]).1 == v && !done[edges[k].0 as int];
        lemma_stuck(n, edges, done, rank, edges[k].0 as int);
    }
}

/// The ranks of a list of numbers, as naturals.
pub open spec fn as_nats(v: Seq<usize>) -> Seq<nat> {
    Seq::new(v.len(), |i: int| v[i] as nat)
}

/// Numbers the nodes so that the number grows along every edge, or finds
/// that the graph has a cycle.
pub fn topological_ranks(n: usize, edges: &Vec<(usize, usize)>) -> (r: Option<Vec<usize>>)
    requires
        in_range(n as int, edges@),
    ensures
        match r {
            Some(rank) => ranked(n as int, edges@, as_nats(rank@)),
            None => !acyclic(n as int, edges@),
        },
{
    let mut done: Vec<bool> = Vec::new();
    let mut rank: Vec<usize> = Vec::new();
    let mut i: usize = 0;
    while i < n
        invariant
            i <= n,
            done.len() == i,
            rank.len() == i,
            done@ =~= Seq::new(i as nat, |j: int| false),
        decreases n - i,
    {
        done.push(false);
        rank.push(0);
        i += 1;
    }
    proof {
        lemma_open_count_all_false(n as nat);
    }
    let mut left: usize = n;
    let mut round: usize = 0;
    while left > 0
        invariant
            in_range(n as int, edges@),
            done.len() == n,
            rank.len() == n,
            left == open_count(done@),
            round + left <= n,
            forall|v: int| 0 <= v < n && done[v] ==> #[trigger] rank[v] < round,
            forall|k: int|
                0 <= k < edges.len() && done[(#[trigger] edges[k]).1 as int] ==> done[edges[k].0 as int]
                    && rank[edges[k].0 as int] < rank[edges[k].1 as int],
        decreases left,
    {
        let ghost done0 = done@;
        let ghost rank0 = rank@;
        let mut blocked: Vec<bool> = Vec::new();
        let mut b: usize = 0;
        while b < n
            invariant
                b <= n,
                blocked.len() == b,
                forall|j: int| 0 <= j < b ==> !blocked[j],
            decreases n - b,
        {
            blocked.push(false);
            b += 1;
        }
        let mut k: usize = 0;
        while k < edges.len()
            invariant
                k <= edges.len(),
                in_range(n as int, edges@),
                done.len() == n,
                blocked.len() == n,
                forall|j: int|
                    0 <= j < k && !done[(#[trigger] edges[j]).0 as int] ==> blocked[edges[j].1 as int],
                forall|w: int|
                    0 <= w < n && #[trigger] blocked[w] ==> exists|j: int|
                        0 <= j < k && (#[trigger] edges[j]).1 == w && !done[edges[j].0 as int],
            decreases edges.len() - k,
        {
            let e = edges[k];
            if !done[e.0] {
                blocked.set(e.1, true);
            }
            k += 1;
        }
        let mut progress = false;
        let mut v: usize = 0;
        while v < n
            invariant
                v <= n,
                in_range(n as int, edges@),
                done0.len() == n,
                rank0.len() == n,
                done.len() == n,
                rank.len() == n,
                blocked.len() == n,
                left == open_count(done@),
                round + left <= n,
                progress ==> left < open_count(done0),
                !progress ==> done@ == done0,
                forall|w: int| v <= w < n ==> done[w] == done0[w] && rank[w] == rank0[w],
                forall|w: int| 0 <= w < n && done0[w] ==> done[w] && rank[w] == rank0[w],
                forall|w: int|
                    0 <= w < v && !done0[w] ==> (#[trigger] done[w] <==> !blocked[w]),
                forall|w: int| 0 <= w < n && !done0[w] && #[trigger] done[w] ==> rank[w] == round,
                left <= open_count(done0),
                round + open_count(done0) <= n,
            decreases n - v,
        {
            if !done[v] && !blocked[v] {
                proof {
                    lemma_open_count_close(done@, v as int);
                }
                done.set(v, true);
                rank.set(v, round);
                left -= 1;
                progress = true;
            }
            v += 1;
        }
        if !progress {
            proof {
                assert forall|rk: Seq<nat>| !ranked(n as int, edges@, rk) by {
                    if rk.len() == n {
                        if forall|w: int| 0 <= w < n ==> done[w] {
                            lemma_open_count_all_done(done@);
                        } else {
                            let w0 = choose|w: int| 0 <= w < n && !done[w];
                            assert forall|w: int| 0 <= w < n && !done[w] implies exists|j: int|
                                0 <= j < edges.len() && (#[trigger] edges[j]).1 == w
                                    && !done[edges[j].0 as int] by {
                                assert(done[w] <==> !blocked[w]);
                            }
                            lemma_stuck(n as int, edges@, done@, rk, w0);
                        }
                    }
                }
            }
            return None;
        }
        proof {
            assert forall|k: int|
                0 <= k < edges.len() && done[(#[trigger] edges[k]).1 as int] implies done[edges[k].0 as int]
                && rank[edges[k].0 as int] < rank[edges[k].1 as int] by {
                let u = edges[k].0 as int;
                let w = edges[k].1 as int;
                if done0[w] {
                    assert(done0[u]);
                } else {
                    assert(done[w] <==> !blocked[w]);
                    assert(done0[u]);
                    assert(rank0[u] < round);
                }
            }
        }
        round += 1;
    }
    proof {
        lemma_open_count_zero(done@);
        assert(ranked(n as int, edges@, as_nats(rank@)));
    }
    Some(rank)
}

proof fn lemma_open_count_all_done(done: Seq<bool>)
    requires
        forall|v: int| 0 <= v < done.len() ==> done[v],
    ensures
        open_count(done) == 0,
    decreases done.len(),
{
    if done.len() > 0 {
        lemma_open_count_all_done(done.drop_last());
    }
}

/// What makes the text of a lockfile a graph this library works on: the
/// `cargo-lock` crate reads it, it holds a package and fewer than `u32::MAX`
/// packages and edges, `semver` accepts every version, exactly one package has
/// no parent, and no package depends on itself through others.
pub open spec fn lock_accepted(text: Seq<char>) -> bool {
    match lock_graph(text) {
        None => false,
        Some((packages, edges)) => {
            &&& packages.len() < u32::MAX
            &&& edges.len() < u32::MAX
            &&& forall|i: int| 0 <= i < packages.len() ==> semver_valid((#[trigger] packages[i]).1)
            &&& exists|root: int| single_root(packages.len() as int, edges, root)
            &&& acyclic(packages.len() as int, edges)
        },
    }
}

/// Why the dependency tree of a lockfile that the `cargo-lock` crate reads
/// is not a graph this library works on; `None` where the crate refuses the
/// text, and where the text is accepted.
pub open spec fn lock_flaw(text: Seq<char>) -> Option<Seq<char>> {
    match lock_graph(text) {
        None => None,
        Some((packages, edges)) => if packages.len() >= u32::MAX || edges.len() >= u32::MAX {
            Some("lock file too large"@)
        } else if !(forall|i: int|
            0 <= i < packages.len() ==> semver_valid((#[trigger] packages[i]).1)) {
            Some("a version cannot be read"@)
        } else if !(exists|root: int| single_root(packages.len() as int, edges, root)) {
            Some("not exactly one root package"@)
        } else if !acyclic(packages.len() as int, edges) {
            Some("dependency cycle found"@)
        } else {
            None
        },
    }
}

/// Why a lockfile was refused.
#[derive(Debug)]
pub enum LockFault {
    /// The `cargo-lock` crate could not read the text; its reason.
    Unreadable(String),
    /// The dependency tree is not a graph this library works on; the reason.
    Unfit(String),
}

impl LockFault {
    /// The fault in words: which of the two steps failed, and why.
    pub open spec fn rendered(self) -> Seq<char> {
        match self {
            LockFault::Unreadable(why) => "load lock file fails: "@ + why@,
            LockFault::Unfit(why) => "load dep tree fails: "@ + why@,
        }
    }

    /// The error that a refused lockfile ends in: an infrastructure fault
    /// whose message names what was being done and the fault.
    pub fn into_error(self, doing: &str) -> (r: AuditError)
        ensures
            r is Unexpected,
            r.message() == doing@ + self.rendered(),
    {
        match self {
            LockFault::Unreadable(why) => AuditError::Unexpected(
                crate::text::join3(doing, "load lock file fails: ", why.as_str()),
            ),
            LockFault::Unfit(why) => AuditError::Unexpected(
                crate::text::join3(doing, "load dep tree fails: ", why.as_str()),
            ),
        }
    }
}

/// A fault is the one of a text: the crate refuses the text, or the tree
/// has the flaw that the fault names.
pub open spec fn fault_of(fault: LockFault, text: Seq<char>) -> bool {
    match fault {
        LockFault::Unreadable(_) => lock_graph(text) is None,
        LockFault::Unfit(why) => lock_flaw(text) == Some(why@),
    }
}

/// What is reported when a lockfile is refused while something is being
/// done: for a dependency tree that is no graph this library works on, what
/// was being done, that the tree could not be loaded, and the flaw. Where
/// the text itself could not be read, the message only begins with what was
/// being done and that the file could not be loaded.
pub open spec fn refusal(doing: Seq<char>, lock: Seq<char>, message: Seq<char>) -> bool {
    match lock_graph(lock) {
        None => (doing + "load lock file fails: "@).is_prefix_of(message),
        Some(_) => lock_flaw(lock) matches Some(why) && message == doing
            + "load dep tree fails: "@ + why,
    }
}

/// The message of the error that a fault of a text ends in is one that
/// `refusal` describes.
pub proof fn lemma_refusal(fault: LockFault, doing: Seq<char>, text: Seq<char>)
    requires
        fault_of(fault, text),
    ensures
        refusal(doing, text, doing + fault.rendered()),
{
    match fault {
        LockFault::Unreadable(why) => {
            let head = doing + "load lock file fails: "@;
            let whole = doing + fault.rendered();
            assert(whole =~= head + why@);
            assert(whole.subrange(0, head.len() as int) =~= head);
        },
        LockFault::Unfit(why) => {
            assert(doing + fault.rendered() =~= doing + "load dep tree fails: "@ + why@);
        },
    }
}

/// The locked dependency graph. Packages are known by their position.
#[derive(Debug)]
pub struct DepGraph {
    packages: Vec<Package>,
    edges: Vec<(usize, usize)>,
    root: usize,
    ranks: Vec<usize>,
}

impl DepGraph {
    /// The packages, as name and version.
    pub closed spec fn nodes(self) -> Seq<(Seq<char>, Seq<char>)> {
        package_views(self.packages@)
    }

    /// The edges, each from a package to one of its dependencies.
    pub closed spec fn edge_seq(self) -> Seq<(usize, usize)> {
        self.edges@
    }

    /// The position of the root package.
    pub closed spec fn root_index(self) -> int {
        self.root as int
    }

    /// The graph has a single root and no cycle, and its edges join packages
    /// it holds.
    pub closed spec fn wf(self) -> bool {
        &&& self.packages.len() < u32::MAX
        &&& self.edges.len() < u32::MAX
        &&& in_range(self.packages.len() as int, self.edges@)
        &&& single_root(self.packages.len() as int, self.edges@, self.root as int)
        &&& ranked(self.packages.len() as int, self.edges@, as_nats(self.ranks@))
    }

    /// The parents of a package, in the order in which the graph walks them.
    pub open spec fn parent_seq(self, node: int) -> Seq<usize> {
        petgraph_incoming(self.nodes().len(), self.edge_seq(), node as nat)
    }

    /// The packages in the order of a breadth-first walk from the root.
    pub open spec fn bfs_seq(self) -> Seq<usize> {
        petgraph_bfs(self.nodes().len(), self.edge_seq(), self.root_index() as nat)
    }

    /// A well-formed graph has a single root and no cycle.
    pub proof fn lemma_wf(self)
        requires
            self.wf(),
        ensures
            in_range(self.nodes().len() as int, self.edge_seq()),
            single_root(self.nodes().len() as int, self.edge_seq(), self.root_index()),
            acyclic(self.nodes().len() as int, self.edge_seq()),
            0 <= self.root_index() < self.nodes().len(),
    {
    }

    /// Reads the graph from the text of a lockfile. The text is refused
    /// unless it is one that `lock_accepted` describes.
    pub fn from_lock(text: &str) -> (r: Result<DepGraph, LockFault>)
        ensures
            r is Ok <==> lock_accepted(text@),
            r matches Ok(g) ==> g.wf() && lock_graph(text@) == Some((g.nodes(), g.edge_seq())),
            r matches Err(fault) ==> fault_of(fault, text@),
    {
        let (pairs, edges) = match read_lock(text) {
            Ok(g) => g,
            Err(e) => {
                return Err(LockFault::Unreadable(e));
            },
        };
        let n: usize = pairs.len();
        if n >= 0xffff_ffff || edges.len() >= 0xffff_ffff {
            return Err(LockFault::Unfit("lock file too large".to_owned()));
        }
        let mut packages: Vec<Package> = Vec::new();
        let mut i: usize = 0;
        while i < n
            invariant
                i <= n,
                n == pairs.len(),
                n < 0xffff_ffff,
                edges.len() < 0xffff_ffff,
                packages.len() == i,
                lock_graph(text@) == Some((pair_views(pairs@), edges@)),
                forall|j: int|
                    0 <= j < i ==> (#[trigger] packages[j]).name@ == pairs[j].0@
                        && packages[j].version@ == pairs[j].1@,
                forall|j: int| 0 <= j < i ==> semver_valid((#[trigger] pair_views(pairs@)[j]).1),
            decreases n - i,
        {
            match Version::parse(pairs[i].1.as_str()) {
                Some(version) => {
                    packages.push(Package { name: pairs[i].0.clone(), version });
                },
                None => {
                    assert(!semver_valid(pair_views(pairs@)[i as int].1));
                    return Err(LockFault::Unfit("a version cannot be read".to_owned()));
                },
            }
            i += 1;
        }
        assert(package_views(packages@) =~= pair_views(pairs@));
        let root = match find_root(n, &edges) {
            Some(root) => root,
            None => {
                return Err(LockFault::Unfit("not exactly one root package".to_owned()));
            },
        };
        let ranks = match topological_ranks(n, &edges) {
            Some(ranks) => ranks,
            None => {
                return Err(LockFault::Unfit("dependency cycle found".to_owned()));
            },
        };
        Ok(DepGraph { packages, edges, root, ranks })
    }

    /// How many packages the graph holds.
    pub fn len(&self) -> (r: usize)
        ensures
            r == self.nodes().len(),
    {
        self.packages.len()
    }

    /// The position of the root package.
    pub fn root(&self) -> (r: usize)
        requires
            self.wf(),
        ensures
            r == self.root_index(),
            r < self.nodes().len(),
    {
        self.root
    }

    /// The package at a position.
    pub fn package(&self, node: usize) -> (r: &Package)
        requires
            node < self.nodes().len(),
        ensures
            (r.name@, r.version@) == self.nodes()[node as int],
    {
        &self.packages[node]
    }

    /// The parents of a package: those that depend on it directly.
    pub fn parents(&self, node: usize) -> (r: Vec<usize>)
        requires
            self.wf(),
            node < self.nodes().len(),
        ensures
            r@ == self.parent_seq(node as int),
            forall|s: usize| r@.contains(s) <==> self.edge_seq().contains((s, node)),
            forall|i: int| 0 <= i < r.len() ==> #[trigger] r[i] < self.nodes().len(),
            node == self.root_index() <==> r.len() == 0,
    {
        let r = incoming(self.packages.len(), &self.edges, node);
        proof {
            assert forall|i: int| 0 <= i < r.len() implies #[trigger] r[i] < self.nodes().len() by {
                assert(r@.contains(r[i]));
                let k = choose|k: int|
                    0 <= k < self.edges.len() && self.edges[k] == (r[i], node);
                assert(self.edges[k].0 < self.packages.len());
            }
            if node == self.root {
                if r.len() > 0 {
                    assert(r@.contains(r[0]));
                    let k = choose|k: int|
                        0 <= k < self.edges.len() && self.edges[k] == (r[0], node);
                    assert(self.edges[k].1 == node);
                    assert(has_parent(self.edges@, node as int));
                }
            } else {
                assert(has_parent(self.edges@, node as int));
                let k = choose|k: int| 0 <= k < self.edges.len() && (#[trigger] self.edges[k]).1 == node;
                assert(self.edges@.contains((self.edges[k].0, node)));
                assert(r@.contains(self.edges[k].0));
            }
        }
        r
    }

    /// The packages in the order of a breadth-first walk from the root. The
    /// walk starts at the root and reaches every package, each once.
    pub fn bfs(&self) -> (r: Vec<usize>)
        requires
            self.wf(),
        ensures
            r@ == self.bfs_seq(),
            r.len() >= 1 && r[0] == self.root_index(),
            forall|i: int| 0 <= i < r.len() ==> #[trigger] r[i] < self.nodes().len(),
            forall|i: int, j: int| 0 <= i < j < r.len() ==> r[i] != r[j],
            forall|v: usize| v < self.nodes().len() ==> r@.contains(v),
    {
        let r = bfs_order(self.packages.len(), &self.edges, self.root);
        proof {
            assert(r@.contains(r[0]));
            assert forall|v: usize| v < self.nodes().len() implies r@.contains(v) by {
                lemma_walk_reaches(
                    self.packages.len() as int,
                    self.edges@,
                    self.root as int,
                    as_nats(self.ranks@),
                    r@,
                    v as int,
                );
            }
        }
        r
    }
}

/// In a graph with a single root and no cycle, a set of nodes that holds the
/// root and, with every node, the targets of its edges holds every node: a
/// node other than the root has a parent of lower rank, which the set holds.
proof fn lemma_walk_reaches(
    n: int,
    edges: Seq<(usize, usize)>,
    root: int,
    rank: Seq<nat>,
    seen: Seq<usize>,
    v: int,
)
    requires
        in_range(n, edges),
        single_root(n, edges, root),
        ranked(n, edges, rank),
        seen.contains(root as usize),
        forall|i: int, k: int|
            0 <= i < seen.len() && 0 <= k < edges.len() && (#[trigger] edges[k]).0 == #[trigger] seen[i]
                ==> seen.contains(edges[k].1),
        0 <= v < n,
        v <= usize::MAX,
    ensures
        seen.contains(v as usize),
    decreases rank[v],
{
    if v != root {
        assert(has_parent(edges, v));
        let k = choose|k: int| 0 <= k < edges.len() && (#[trigger] edges[k]).1 == v;
        let u = edges[k].0;
        lemma_walk_reaches(n, edges, root, rank, seen, u as int);
        let i = choose|i: int| 0 <= i < seen.len() && seen[i] == u;
        assert(seen.contains(edges[k].1));
    }
}

/// Finds the one node without a parent, if there is exactly one.
pub fn find_root(n: usize, edges: &Vec<(usize, usize)>) -> (r: Option<usize>)
    requires
        in_range(n as int, edges@),
    ensures
        match r {
            Some(root) => single_root(n as int, edges@, root as int),
            None => forall|root: int| !single_root(n as int, edges@, root),
        },
{
    let mut has_in: Vec<bool> = Vec::new();
    let mut b: usize = 0;
    while b < n
        invariant
            b <= n,
            has_in.len() == b,
            forall|j: int| 0 <= j < b ==> !has_in[j],
        decreases n - b,
    {
        has_in.push(false);
        b += 1;
    }
    let mut k: usize = 0;
    while k < edges.len()
        invariant
            k <= edges.len(),
            in_range(n as int, edges@),
            has_in.len() == n,
            forall|j: int| 0 <= j < k ==> has_in[(#[trigger] edges[j]).1 as int],
            forall|w: int|
                0 <= w < n && #[trigger] has_in[w] ==> exists|j: int|
                    0 <= j < k && (#[trigger] edges[j]).1 == w,
        decreases edges.len() - k,
    {
        let e = edges[k];
        has_in.set(e.1, true);
        k += 1;
    }
    assert forall|w: int| 0 <= w < n implies (#[trigger] has_in[w] <==> has_parent(edges@, w)) by {
        if has_parent(edges@, w) {
            let j = choose|j: int| 0 <= j < edges.len() && (#[trigger] edges[j]).1 == w;
            assert(has_in[edges[j].1 as int]);
        }
    }
    let mut found: Option<usize> = None;
    let mut v: usize = 0;
    while v < n
        invariant
            v <= n,
            has_in.len() == n,
            forall|w: int| 0 <= w < n ==> (#[trigger] has_in[w] <==> has_parent(edges@, w)),
            match found {
                Some(root) => root < v && !has_in[root as int] && forall|w: int|
                    0 <= w < v && w != root ==> has_in[w],
                None => forall|w: int| 0 <= w < v ==> has_in[w],
            },
        decreases n - v,
    {
        if !has_in[v] {
            if found.is_some() {
                assert forall|root: int| !single_root(n as int, edges@, root) by {
                    let first = found->0 as int;
                    assert(!has_parent(edges@, first) && !has_parent(edges@, v as int));
                }
                return None;
            }
            found = Some(v);
        }
        v += 1;
    }
    match found {
        Some(root) => {
            assert forall|w: int| 0 <= w < n implies (has_parent(edges@, w) <==> w != root) by {
                assert(has_in[w] <==> has_parent(edges@, w));
            }
        },
        None => {
            assert forall|root: int| !single_root(n as int, edges@, root) by {
                if 0 <= root < n {
                    assert(has_in[root] <==> has_parent(edges@, root));
                }
            }
        },
    }
    found
}

} // verus!
