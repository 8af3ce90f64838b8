//! The dependency manager: the locked graph, the crates that live in the
//! workspace, and the versions a package could be moved to.

use vstd::prelude::*;
use crate::command::CommandOutput;
use crate::error::AuditError;
use crate::graph::{acyclic, lemma_refusal, lock_accepted, lock_graph, refusal, single_root,
    DepGraph};
use crate::registry::{versions_of, CandidateView, Candidates, DepReq};
use crate::text::{first_index, join2, join3, lemma_first_index, lemma_first_index_push, position,
    views};
use crate::version::{least_index, min_index, semver_matches, semver_req_same, version_lt,
    version_views, Version, VersionReq};

verus! {

/// What the build tool's metadata says of one package of the workspace or of
/// its dependencies.
#[derive(Debug)]
pub struct PackageMeta {
    pub name: String,
    pub version: String,
    /// Where the package comes from; `None` for a package of the workspace.
    pub source: Option<String>,
    pub dependencies: Vec<DepReq>,
}

/// The key of a package in the table of local crates.
pub open spec fn package_key(name: Seq<char>, version: Seq<char>) -> Seq<char> {
    name + "@"@ + version
}

/// The texts of a list of requirements.
pub open spec fn req_views(reqs: Seq<VersionReq>) -> Seq<Seq<char>> {
    Seq::new(reqs.len(), |i: int| reqs[i]@)
}

/// Every requirement of the list admits the version.
pub open spec fn admitted(reqs: Seq<Seq<char>>, v: Seq<char>) -> bool {
    forall|i: int| 0 <= i < reqs.len() ==> semver_matches(#[trigger] reqs[i], v)
}

/// A version a package may be lowered to: strictly below the current one and
/// admitted by every parent.
pub open spec fn eligible(reqs: Seq<Seq<char>>, current: Seq<char>, v: Seq<char>) -> bool {
    version_lt(v, current) && admitted(reqs, v)
}

/// The candidates that are eligible, in their order.
pub open spec fn candidates_below(
    all: Seq<CandidateView>,
    reqs: Seq<Seq<char>>,
    current: Seq<char>,
) -> Seq<CandidateView>
    decreases all.len(),
{
    if all.len() == 0 {
        Seq::empty()
    } else if eligible(reqs, current, all.last().0) {
        candidates_below(all.drop_last(), reqs, current).push(all.last())
    } else {
        candidates_below(all.drop_last(), reqs, current)
    }
}

/// The versions that a requirement admits, in their order.
pub open spec fn matching(versions: Seq<Seq<char>>, req: Seq<char>) -> Seq<Seq<char>>
    decreases versions.len(),
{
    if versions.len() == 0 {
        Seq::empty()
    } else if semver_matches(req, versions.last()) {
        matching(versions.drop_last(), req).push(versions.last())
    } else {
        matching(versions.drop_last(), req)
    }
}

/// The first least version of a list; `None` for the empty list.
pub open spec fn least_of(versions: Seq<Seq<char>>) -> Option<Seq<char>> {
    if versions.len() == 0 {
        None
    } else {
        Some(versions[least_index(versions, versions.len() as int)])
    }
}

/// The lowest version that a requirement still admits.
pub open spec fn lowest_for(versions: Seq<Seq<char>>, req: Seq<char>) -> Option<Seq<char>> {
    least_of(matching(versions, req))
}

/// The lowest admitted version of each requirement, in their order.
pub open spec fn lowests(versions: Seq<Seq<char>>, reqs: Seq<Seq<char>>) -> Seq<
    Option<Seq<char>>,
> {
    Seq::new(reqs.len(), |i: int| lowest_for(versions, reqs[i]))
}

/// The versions that are there, in their order.
pub open spec fn present(lows: Seq<Option<Seq<char>>>) -> Seq<Seq<char>>
    decreases lows.len(),
{
    if lows.len() == 0 {
        Seq::empty()
    } else {
        match lows.last() {
            Some(v) => present(lows.drop_last()).push(v),
            None => present(lows.drop_last()),
        }
    }
}

/// The first of the first `n` parents whose lowest admitted version lies
/// strictly above `floor`.
pub open spec fn first_above(lows: Seq<Option<Seq<char>>>, floor: Seq<char>, n: int) -> Option<int>
    decreases n,
{
    if n <= 0 {
        None
    } else {
        match first_above(lows, floor, n - 1) {
            Some(i) => Some(i),
            None => match lows[n - 1] {
                Some(v) => if version_lt(floor, v) {
                    Some(n - 1)
                } else {
                    None
                },
                None => None,
            },
        }
    }
}

/// The most restrictive parent: the first whose requirement admits nothing as
/// low as the lowest version that any parent admits.
pub open spec fn strict_parent(versions: Seq<Seq<char>>, reqs: Seq<Seq<char>>) -> Option<int> {
    let lows = lowests(versions, reqs);
    match least_of(present(lows)) {
        Some(floor) => first_above(lows, floor, lows.len() as int),
        None => None,
    }
}

/// The candidates of a parent that relax what it asks of a dependency: those
/// whose manifest does not name the dependency, or states a requirement that
/// differs from the current one.
pub open spec fn relaxing(
    cands: Seq<CandidateView>,
    current_req: Seq<char>,
    cand_reqs: Seq<Option<Seq<char>>>,
) -> Seq<CandidateView>
    decreases cands.len(),
{
    if cands.len() == 0 {
        Seq::empty()
    } else {
        let rest = relaxing(cands.drop_last(), current_req, cand_reqs);
        let keep = match cand_reqs[cands.len() - 1] {
            Some(r) => !semver_req_same(r, current_req),
            None => true,
        };
        if keep {
            rest.push(cands.last())
        } else {
            rest
        }
    }
}

/// Every candidate that `candidates_below` keeps lies strictly below the
/// current version, is admitted by every requirement, and is one of the
/// candidates it was given.
pub proof fn lemma_candidates_below(
    all: Seq<CandidateView>,
    reqs: Seq<Seq<char>>,
    current: Seq<char>,
)
    ensures
        forall|i: int|
            0 <= i < candidates_below(all, reqs, current).len() ==> {
                let c = #[trigger] candidates_below(all, reqs, current)[i];
                version_lt(c.0, current) && admitted(reqs, c.0) && all.contains(c)
            },
        candidates_below(all, reqs, current).len() <= all.len(),
    decreases all.len(),
{
    if all.len() > 0 {
        let rest = all.drop_last();
        lemma_candidates_below(rest, reqs, current);
        let kept = candidates_below(all, reqs, current);
        assert forall|i: int| 0 <= i < kept.len() implies {
            let c = #[trigger] kept[i];
            version_lt(c.0, current) && admitted(reqs, c.0) && all.contains(c)
        } by {
            let c = kept[i];
            if i < candidates_below(rest, reqs, current).len() {
                assert(c == candidates_below(rest, reqs, current)[i]);
                let k = choose|k: int| 0 <= k < rest.len() && rest[k] == c;
                assert(all[k] == c);
            } else {
                assert(c == all.last());
                assert(all[all.len() - 1] == c);
            }
        }
    }
}

/// Every candidate that `relaxing` keeps is one of the candidates it was
/// given.
pub proof fn lemma_relaxing(
    cands: Seq<CandidateView>,
    current_req: Seq<char>,
    cand_reqs: Seq<Option<Seq<char>>>,
)
    ensures
        forall|i: int|
            0 <= i < relaxing(cands, current_req, cand_reqs).len() ==> cands.contains(
                #[trigger] relaxing(cands, current_req, cand_reqs)[i],
            ),
    decreases cands.len(),
{
    if cands.len() > 0 {
        let rest = cands.drop_last();
        lemma_relaxing(rest, current_req, cand_reqs);
        let kept = relaxing(cands, current_req, cand_reqs);
        let inner = relaxing(rest, current_req, cand_reqs);
        assert forall|i: int| 0 <= i < kept.len() implies cands.contains(#[trigger] kept[i]) by {
            if i < inner.len() {
                assert(kept[i] == inner[i]);
                let k = choose|k: int| 0 <= k < rest.len() && rest[k] == inner[i];
                assert(cands[k] == kept[i]);
            } else {
                assert(cands[cands.len() - 1] == kept[i]);
            }
        }
    }
}

/// The versions that a requirement admits among those of the candidates.
pub fn matching_versions(all: &Candidates, req: &VersionReq) -> (r: Vec<Version>)
    ensures
        version_views(r@) == matching(versions_of(all@), req@),
{
    let ghost vs = versions_of(all@);
    let mut out: Vec<Version> = Vec::new();
    let mut i: usize = 0;
    assert(version_views(out@) =~= Seq::<Seq<char>>::empty());
    while i < all.len()
        invariant
            i <= all@.len(),
            vs == versions_of(all@),
            version_views(out@) == matching(vs.take(i as int), req@),
        decreases all@.len() - i,
    {
        proof {
            assert(vs.take(i + 1).drop_last() =~= vs.take(i as int));
            assert(vs.take(i + 1).last() == all@[i as int].0);
        }
        let v = all.version(i);
        if req.matches(v) {
            let ghost before = version_views(out@);
            out.push(v.duplicate());
            assert(version_views(out@) =~= before.push(v@));
        }
        i += 1;
    }
    assert(vs.take(all@.len() as int) =~= vs);
    out
}

/// Whether every requirement admits the version.
pub fn admitted_by(reqs: &Vec<VersionReq>, v: &Version) -> (r: bool)
    ensures
        r == admitted(req_views(reqs@), v@),
{
    let mut i: usize = 0;
    while i < reqs.len()
        invariant
            i <= reqs.len(),
            forall|j: int| 0 <= j < i ==> semver_matches(#[trigger] req_views(reqs@)[j], v@),
        decreases reqs.len() - i,
    {
        if !reqs[i].matches(v) {
            assert(!semver_matches(req_views(reqs@)[i as int], v@));
            return false;
        }
        i += 1;
    }
    true
}

/// The first least version of a list.
pub fn least_version(versions: &Vec<Version>) -> (r: Option<Version>)
    ensures
        match r {
            Some(v) => least_of(version_views(versions@)) == Some(v@),
            None => least_of(version_views(versions@)) is None,
        },
{
    match min_index(versions) {
        Some(i) => Some(versions[i].duplicate()),
        None => None,
    }
}

/// The locked graph of a project, the requirements of its local crates, and
/// for each package the most restrictive parent found since the graph last
/// changed.
#[derive(Debug)]
pub struct DepManager {
    graph: DepGraph,
    local_keys: Vec<String>,
    local_deps: Vec<Vec<DepReq>>,
    req: Vec<Option<usize>>,
}

impl DepManager {
    /// The graph is well formed, every local crate has its requirements, and
    /// the cache of most restrictive parents has a slot for every package.
    pub closed spec fn wf(self) -> bool {
        &&& self.graph.wf()
        &&& self.local_keys.len() == self.local_deps.len()
        &&& self.req.len() == self.graph.nodes().len()
        &&& forall|i: int|
            0 <= i < self.req.len() ==> (#[trigger] self.req[i] matches Some(p) ==> p
                < self.graph.nodes().len() && self.graph.edge_seq().contains((p, i as usize)))
    }

    /// The locked graph.
    pub closed spec fn dep_graph(self) -> DepGraph {
        self.graph
    }

    /// What the table of local crates holds under a key.
    pub closed spec fn local(self, key: Seq<char>) -> Option<Seq<DepReq>> {
        match first_index(views(self.local_keys@), key) {
            Some(i) => Some(self.local_deps[i]@),
            None => None,
        }
    }

    /// The most restrictive parent recorded for a package.
    pub closed spec fn recorded(self, node: int) -> Option<usize> {
        if 0 <= node < self.req.len() {
            self.req[node]
        } else {
            None
        }
    }

    /// The name of a package.
    pub open spec fn name_of(self, node: int) -> Seq<char> {
        self.dep_graph().nodes()[node].0
    }

    /// The version of a package.
    pub open spec fn version_of(self, node: int) -> Seq<char> {
        self.dep_graph().nodes()[node].1
    }

    /// Whether a package lives in the workspace.
    pub open spec fn is_local_node(self, node: int) -> bool {
        self.local(package_key(self.name_of(node), self.version_of(node))) is Some
    }

    /// The graph of a well-formed manager has exactly one root and no cycle.
    pub proof fn lemma_graph_shape(self)
        requires
            self.wf(),
        ensures
            single_root(
                self.dep_graph().nodes().len() as int,
                self.dep_graph().edge_seq(),
                self.dep_graph().root_index(),
            ),
            acyclic(self.dep_graph().nodes().len() as int, self.dep_graph().edge_seq()),
    {
        self.graph.lemma_wf();
    }

    /// Builds the manager from the text of the lockfile and the metadata of
    /// the build tool. The packages without a source make up the table of
    /// local crates, each under its key; of two with one key the later
    /// counts. No most restrictive parent is recorded yet.
    pub fn new(lock: &str, packages: Vec<PackageMeta>) -> (r: Result<DepManager, AuditError>)
        ensures
            r is Ok <==> lock_accepted(lock@),
            r matches Ok(dm) ==> {
                &&& dm.wf()
                &&& lock_graph(lock@) == Some((dm.dep_graph().nodes(), dm.dep_graph().edge_seq()))
                &&& forall|node: int| dm.recorded(node) is None
                &&& forall|key: Seq<char>|
                    #[trigger] dm.local(key) == local_table(packages@, packages.len() as int, key)
            },
            r matches Err(e) ==> e is Unexpected && refusal(
                "cannot build DepManager, "@,
                lock@,
                e.message(),
            ),
    {
        let graph = match DepGraph::from_lock(lock) {
            Ok(g) => g,
            Err(fault) => {
                proof {
                    lemma_refusal(fault, "cannot build DepManager, "@, lock@);
                }
                return Err(fault.into_error("cannot build DepManager, "));
            },
        };
        let mut packages = packages;
        let ghost given = packages@;
        let mut local_keys: Vec<String> = Vec::new();
        let mut local_deps: Vec<Vec<DepReq>> = Vec::new();
        let total: usize = packages.len();
        let mut i: usize = 0;
        assert(views(local_keys@) =~= Seq::<Seq<char>>::empty());
        while i < total
            invariant
                i <= total,
                total == given.len(),
                packages.len() == total,
                local_keys.len() == local_deps.len(),
                forall|j: int| i <= j < total ==> packages[j] == given[j],
                forall|key: Seq<char>|
                    (match #[trigger] first_index(views(local_keys@), key) {
                        Some(k) => Some(local_deps[k]@),
                        None => None,
                    }) == local_table(given, i as int, key),
            decreases total - i,
        {
            let ghost keys = views(local_keys@);
            let ghost deps_before = local_deps@;
            let is_local = packages[i].source.is_none();
            if is_local {
                let key = join3(packages[i].name.as_str(), "@", packages[i].version.as_str());
                let mut deps: Vec<DepReq> = Vec::new();
                std::mem::swap(&mut deps, &mut packages[i].dependencies);
                assert(deps@ == given[i as int].dependencies@);
                proof {
                    lemma_first_index(keys, key@);
                }
                match position(&local_keys, key.as_str()) {
                    Some(k) => {
                        local_deps.set(k, deps);
                        proof {
                            assert forall|other: Seq<char>|
                                (match #[trigger] first_index(views(local_keys@), other) {
                                    Some(k) => Some(local_deps[k]@),
                                    None => None,
                                }) == local_table(given, i + 1, other) by {
                                lemma_first_index(keys, other);
                            }
                        }
                    },
                    None => {
                        local_keys.push(key);
                        local_deps.push(deps);
                        proof {
                            assert(views(local_keys@) =~= keys.push(key@));
                            assert forall|other: Seq<char>|
                                (match #[trigger] first_index(views(local_keys@), other) {
                                    Some(k) => Some(local_deps[k]@),
                                    None => None,
                                }) == local_table(given, i + 1, other) by {
                                lemma_first_index_push(keys, key@, other);
                                lemma_first_index(keys, other);
                            }
                        }
                    },
                }
            }
            i += 1;
        }
        let mut req: Vec<Option<usize>> = Vec::new();
        let mut k: usize = 0;
        while k < graph.len()
            invariant
                k <= graph.nodes().len(),
                req.len() == k,
                forall|j: int| 0 <= j < k ==> req[j] is None,
            decreases graph.nodes().len() - k,
        {
            req.push(None);
            k += 1;
        }
        Ok(DepManager { graph, local_keys, local_deps, req })
    }

    /// The position of the root package.
    pub fn root(&self) -> (r: usize)
        requires
            self.wf(),
        ensures
            r == self.dep_graph().root_index(),
            r < self.dep_graph().nodes().len(),
    {
        self.graph.root()
    }

    /// The locked graph.
    pub fn graph(&self) -> (r: &DepGraph)
        requires
            self.wf(),
        ensures
            *r == self.dep_graph(),
            r.wf(),
    {
        &self.graph
    }

    /// The most restrictive parent recorded for a package, if one was found
    /// since the graph last changed.
    pub fn req_by(&self, dep: usize) -> (r: Option<usize>)
        requires
            self.wf(),
        ensures
            r == self.recorded(dep as int),
            r matches Some(p) ==> p < self.dep_graph().nodes().len() && self.dep_graph().edge_seq().contains(
                (p, dep),
            ),
    {
        if dep < self.req.len() {
            self.req[dep]
        } else {
            None
        }
    }

    /// The requirements of a local crate, looked up under its key.
    pub fn local_reqs(&self, name: &str, version: &str) -> (r: Option<&Vec<DepReq>>)
        requires
            self.wf(),
        ensures
            match r {
                Some(d) => self.local(package_key(name@, version@)) == Some(d@),
                None => self.local(package_key(name@, version@)) is None,
            },
    {
        let key = join3(name, "@", version);
        proof {
            lemma_first_index(views(self.local_keys@), key@);
        }
        match position(&self.local_keys, key.as_str()) {
            Some(i) => Some(&self.local_deps[i]),
            None => None,
        }
    }

    /// Whether a package lives in the workspace.
    pub fn is_local(&self, node: usize) -> (r: bool)
        requires
            self.wf(),
            node < self.dep_graph().nodes().len(),
        ensures
            r == self.is_local_node(node as int),
    {
        let pkg = self.graph.package(node);
        self.local_reqs(pkg.name.as_str(), pkg.version.as_str()).is_some()
    }

    /// The packages that depend on a package directly.
    pub fn get_dep_parent(&self, depnx: usize) -> (r: Vec<usize>)
        requires
            self.wf(),
            depnx < self.dep_graph().nodes().len(),
        ensures
            r@ == self.dep_graph().parent_seq(depnx as int),
            forall|i: int| 0 <= i < r.len() ==> #[trigger] r[i] < self.dep_graph().nodes().len(),
            depnx == self.dep_graph().root_index() <==> r.len() == 0,
    {
        self.graph.parents(depnx)
    }

    /// What working out the candidates of a package comes to: the graph and
    /// the table of local crates stay as they are; the candidates are none
    /// for a local package, and else the published versions strictly below
    /// its current version that every parent admits; and where the package is
    /// not local and has published versions, the most restrictive parent, if
    /// there is one, is recorded for it.
    pub open spec fn worked_out(
        self,
        pre: Self,
        pkgnx: int,
        all: Seq<CandidateView>,
        reqs: Seq<Seq<char>>,
        found: Seq<CandidateView>,
    ) -> bool {
        &&& self.dep_graph() == pre.dep_graph()
        &&& forall|key: Seq<char>| self.local(key) == pre.local(key)
        &&& found == if pre.is_local_node(pkgnx) {
            Seq::<CandidateView>::empty()
        } else {
            candidates_below(all, reqs, pre.version_of(pkgnx))
        }
        &&& forall|i: int|
            0 <= i < found.len() ==> version_lt((#[trigger] found[i]).0, pre.version_of(pkgnx))
        &&& forall|node: int| node != pkgnx ==> #[trigger] self.recorded(node) == pre.recorded(node)
        &&& self.recorded(pkgnx) == if pre.is_local_node(pkgnx) || all.len() == 0 {
            pre.recorded(pkgnx)
        } else {
            match strict_parent(versions_of(all), reqs) {
                Some(i) => Some(pre.dep_graph().parent_seq(pkgnx)[i]),
                None => pre.recorded(pkgnx),
            }
        }
    }

    /// The versions a package could be lowered to, given every published
    /// version of its crate and the requirement of each of its parents, in
    /// the order of the parents.
    pub fn get_candidates(&mut self, pkgnx: usize, all: &Candidates, reqs: &Vec<VersionReq>) -> (r:
        Candidates)
        requires
            old(self).wf(),
            all.wf(),
            pkgnx < old(self).dep_graph().nodes().len(),
            reqs.len() == old(self).dep_graph().parent_seq(pkgnx as int).len(),
        ensures
            final(self).wf(),
            r.wf(),
            final(self).worked_out(*old(self), pkgnx as int, all@, req_views(reqs@), r@),
    {
        if self.is_local(pkgnx) {
            return Candidates::empty();
        }
        if all.len() == 0 {
            let none = Candidates::empty();
            assert(candidates_below(all@, req_views(reqs@), self.version_of(pkgnx as int))
                =~= Seq::<CandidateView>::empty());
            return none;
        }
        let parents = self.graph.parents(pkgnx);
        match most_restrictive(all, reqs) {
            Some(i) => {
                assert(parents@.contains(parents[i as int]));
                self.req.set(pkgnx, Some(parents[i]));
            },
            None => {},
        }
        let current = &self.graph.package(pkgnx).version;
        let ghost cur = current@;
        let ghost rv = req_views(reqs@);
        let mut out = Candidates::empty();
        let mut i: usize = 0;
        while i < all.len()
            invariant
                i <= all@.len(),
                all.wf(),
                out.wf(),
                cur == current@,
                rv == req_views(reqs@),
                out@ == candidates_below(all@.take(i as int), rv, cur),
            decreases all@.len() - i,
        {
            proof {
                assert(all@.take(i + 1).drop_last() =~= all@.take(i as int));
                assert(all@.take(i + 1).last() == all@[i as int]);
            }
            let v = all.version(i);
            if v.less_than(current) && admitted_by(reqs, v) {
                out.push(v.duplicate(), all.rufs(i).duplicate());
            }
            i += 1;
        }
        proof {
            assert(all@.take(all@.len() as int) =~= all@);
            lemma_candidates_below(all@, rv, cur);
        }
        out
    }

    /// The same for any position and any list of requirements: `None`, and
    /// nothing changed, unless the position is one of the graph and the list
    /// holds one requirement for each parent of the package.
    pub fn find_candidates(&mut self, pkgnx: usize, all: &Candidates, reqs: &Vec<VersionReq>) -> (r:
        Option<Candidates>)
        requires
            old(self).wf(),
            all.wf(),
        ensures
            final(self).wf(),
            r is Some <==> pkgnx < old(self).dep_graph().nodes().len() && reqs.len() == old(
                self,
            ).dep_graph().parent_seq(pkgnx as int).len(),
            r matches Some(found) ==> found.wf() && final(self).worked_out(
                *old(self),
                pkgnx as int,
                all@,
                req_views(reqs@),
                found@,
            ),
            r is None ==> *final(self) == *old(self),
    {
        if pkgnx >= self.graph.len() {
            return None;
        }
        let parents = self.get_dep_parent(pkgnx);
        if parents.len() != reqs.len() {
            return None;
        }
        Some(self.get_candidates(pkgnx, all, reqs))
    }

    /// The candidates of a parent that relax what it asks of a dependency,
    /// given the requirement it states now and, for each candidate, the one
    /// that candidate states (`None` where it does not name the dependency).
    pub fn get_candidates_up_fix(
        candidates: &Candidates,
        current_req: &VersionReq,
        cand_reqs: &Vec<Option<VersionReq>>,
    ) -> (r: Candidates)
        requires
            candidates.wf(),
            cand_reqs.len() == candidates@.len(),
        ensures
            r.wf(),
            r@ == relaxing(candidates@, current_req@, option_req_views(cand_reqs@)),
    {
        let ghost rv = option_req_views(cand_reqs@);
        let mut out = Candidates::empty();
        let mut i: usize = 0;
        while i < candidates.len()
            invariant
                i <= candidates@.len(),
                candidates.wf(),
                cand_reqs.len() == candidates@.len(),
                rv == option_req_views(cand_reqs@),
                out.wf(),
                out@ == relaxing(candidates@.take(i as int), current_req@, rv),
            decreases candidates@.len() - i,
        {
            proof {
                assert(candidates@.take(i + 1).drop_last() =~= candidates@.take(i as int));
                assert(candidates@.take(i + 1).last() == candidates@[i as int]);
            }
            let keep = match &cand_reqs[i] {
                Some(req) => !req.same(current_req),
                None => true,
            };
            if keep {
                out.push(candidates.version(i).duplicate(), candidates.rufs(i).duplicate());
            }
            i += 1;
        }
        assert(candidates@.take(candidates@.len() as int) =~= candidates@);
        out
    }

    /// The arguments for the package manager that move a package from one
    /// version to another, exactly.
    pub fn update_args(name: &str, cur_ver: &str, update_ver: &str) -> (r: Vec<String>)
        ensures
            views(r@) == seq![
                "update"@,
                package_key(name@, cur_ver@),
                "--precise"@,
                update_ver@,
            ],
    {
        let mut args: Vec<String> = Vec::new();
        args.push("update".to_owned());
        args.push(join3(name, "@", cur_ver));
        args.push("--precise".to_owned());
        args.push(update_ver.to_owned());
        assert(views(args@) =~= seq![
            "update"@,
            package_key(name@, cur_ver@),
            "--precise"@,
            update_ver@,
        ]);
        args
    }

    /// Takes in what the package manager did when asked to move a package:
    /// where it failed, or the new lockfile is not one that `lock_accepted`
    /// describes, nothing changes and the error is `Unexpected`; else the
    /// graph is the one of the new lockfile and no most restrictive parent is
    /// recorded any more.
    pub fn update_pkg(&mut self, output: &CommandOutput, lock: &str) -> (r: Result<(), AuditError>)
        requires
            old(self).wf(),
        ensures
            final(self).wf(),
            r is Ok <==> output.success && lock_accepted(lock@),
            r is Ok ==> {
                &&& lock_graph(lock@) == Some(
                    (final(self).dep_graph().nodes(), final(self).dep_graph().edge_seq()),
                )
                &&& forall|node: int| final(self).recorded(node) is None
            },
            single_root(
                final(self).dep_graph().nodes().len() as int,
                final(self).dep_graph().edge_seq(),
                final(self).dep_graph().root_index(),
            ),
            acyclic(final(self).dep_graph().nodes().len() as int, final(self).dep_graph().edge_seq()),
            r matches Err(e) ==> e is Unexpected && *final(self) == *old(self),
            r matches Err(e) ==> if !output.success {
                e.message() == "cannot update dep version, execute cargo update fails: "@
                    + output.stderr@
            } else {
                refusal("cannot update dep tree, "@, lock@, e.message())
            },
            forall|key: Seq<char>| final(self).local(key) == old(self).local(key),
    {
        proof {
            self.lemma_graph_shape();
        }
        if !output.success {
            return Err(
                AuditError::Unexpected(
                    join2(
                        "cannot update dep version, execute cargo update fails: ",
                        output.stderr.as_str(),
                    ),
                ),
            );
        }
        self.update_dep_tree(lock)
    }

    /// Reads the graph again from the text of the lockfile and forgets every
    /// most restrictive parent. A lockfile that `lock_accepted` does not
    /// describe changes nothing.
    pub fn update_dep_tree(&mut self, lock: &str) -> (r: Result<(), AuditError>)
        requires
            old(self).wf(),
        ensures
            final(self).wf(),
            r is Ok <==> lock_accepted(lock@),
            r is Ok ==> {
                &&& lock_graph(lock@) == Some(
                    (final(self).dep_graph().nodes(), final(self).dep_graph().edge_seq()),
                )
                &&& forall|node: int| final(self).recorded(node) is None
            },
            single_root(
                final(self).dep_graph().nodes().len() as int,
                final(self).dep_graph().edge_seq(),
                final(self).dep_graph().root_index(),
            ),
            acyclic(final(self).dep_graph().nodes().len() as int, final(self).dep_graph().edge_seq()),
            r matches Err(e) ==> e is Unexpected && *final(self) == *old(self) && refusal(
                "cannot update dep tree, "@,
                lock@,
                e.message(),
            ),
            forall|key: Seq<char>| final(self).local(key) == old(self).local(key),
    {
        proof {
            self.lemma_graph_shape();
        }
        let graph = match DepGraph::from_lock(lock) {
            Ok(g) => g,
            Err(fault) => {
                proof {
                    lemma_refusal(fault, "cannot update dep tree, "@, lock@);
                }
                return Err(fault.into_error("cannot update dep tree, "));
            },
        };
        let mut req: Vec<Option<usize>> = Vec::new();
        let mut k: usize = 0;
        while k < graph.len()
            invariant
                k <= graph.nodes().len(),
                req.len() == k,
                forall|j: int| 0 <= j < k ==> req[j] is None,
            decreases graph.nodes().len() - k,
        {
            req.push(None);
            k += 1;
        }
        self.graph = graph;
        self.req = req;
        proof {
            self.lemma_graph_shape();
        }
        Ok(())
    }
}

/// The table of local crates after the first `n` packages of the metadata.
pub open spec fn local_table(packages: Seq<PackageMeta>, n: int, key: Seq<char>) -> Option<
    Seq<DepReq>,
>
    decreases n,
{
    if n <= 0 {
        None
    } else {
        let p = packages[n - 1];
        if p.source is None && package_key(p.name@, p.version@) == key {
            Some(p.dependencies@)
        } else {
            local_table(packages, n - 1, key)
        }
    }
}

/// The texts of a list of requirements, some of them absent.
pub open spec fn option_req_views(reqs: Seq<Option<VersionReq>>) -> Seq<Option<Seq<char>>> {
    Seq::new(
        reqs.len(),
        |i: int|
            match reqs[i] {
                Some(r) => Some(r@),
                None => None,
            },
    )
}

/// The texts of a list of versions, some of them absent.
pub open spec fn option_version_views(v: Seq<Option<Version>>) -> Seq<Option<Seq<char>>> {
    Seq::new(
        v.len(),
        |i: int|
            match v[i] {
                Some(x) => Some(x@),
                None => None,
            },
    )
}

/// Finds the most restrictive of the parents whose requirements are given.
pub fn most_restrictive(all: &Candidates, reqs: &Vec<VersionReq>) -> (r: Option<usize>)
    ensures
        match r {
            Some(i) => strict_parent(versions_of(all@), req_views(reqs@)) == Some(i as int) && i
                < reqs.len(),
            None => strict_parent(versions_of(all@), req_views(reqs@)) is None,
        },
{
    let ghost vs = versions_of(all@);
    let ghost rv = req_views(reqs@);
    let ghost lows = lowests(vs, rv);
    let mut found: Vec<Option<Version>> = Vec::new();
    let mut there: Vec<Version> = Vec::new();
    let mut i: usize = 0;
    assert(version_views(there@) =~= Seq::<Seq<char>>::empty());
    while i < reqs.len()
        invariant
            i <= reqs.len(),
            vs == versions_of(all@),
            rv == req_views(reqs@),
            lows == lowests(vs, rv),
            found.len() == i,
            option_version_views(found@) =~= lows.take(i as int),
            version_views(there@) == present(lows.take(i as int)),
        decreases reqs.len() - i,
    {
        proof {
            assert(lows.take(i + 1).drop_last() =~= lows.take(i as int));
            assert(lows.take(i + 1).last() == lows[i as int]);
            assert(lows[i as int] == lowest_for(vs, rv[i as int]));
            assert(rv[i as int] == reqs[i as int]@);
        }
        let admitted = matching_versions(all, &reqs[i]);
        let low = least_version(&admitted);
        match &low {
            Some(v) => {
                let ghost before = version_views(there@);
                there.push(v.duplicate());
                assert(version_views(there@) =~= before.push(v@));
            },
            None => {},
        }
        found.push(low);
        i += 1;
    }
    assert(lows.take(reqs.len() as int) =~= lows);
    let floor = match least_version(&there) {
        Some(f) => f,
        None => {
            return None;
        },
    };
    let mut k: usize = 0;
    while k < found.len()
        invariant
            k <= found.len(),
            found.len() == lows.len(),
            lows.len() == reqs.len(),
            lows == lowests(versions_of(all@), req_views(reqs@)),
            least_of(present(lows)) == Some(floor@),
            option_version_views(found@) =~= lows,
            first_above(lows, floor@, k as int) is None,
        decreases found.len() - k,
    {
        let above = match &found[k] {
            Some(v) => floor.less_than(v),
            None => false,
        };
        assert(lows[k as int] == option_version_views(found@)[k as int]);
        if above {
            proof {
                lemma_first_above_found(lows, floor@, k as int, lows.len() as int);
            }
            return Some(k);
        }
        k += 1;
    }
    None
}

/// Once a parent above the floor is found with none before it, it stays the
/// first however many parents follow.
proof fn lemma_first_above_found(lows: Seq<Option<Seq<char>>>, floor: Seq<char>, k: int, n: int)
    requires
        0 <= k < n <= lows.len(),
        first_above(lows, floor, k) is None,
        lows[k] matches Some(v) && version_lt(floor, v),
    ensures
        first_above(lows, floor, n) == Some(k),
    decreases n - k,
{
    if n > k + 1 {
        lemma_first_above_found(lows, floor, k, n - 1);
    }
}

} // verus!
