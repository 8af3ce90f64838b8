//! The audit engine: what to do next, given what has happened so far.
//!
//! The engine never runs a tool itself. Each call of [`Audit::step`] takes the
//! answer to the action it asked for last and returns the next action: an
//! extraction pass, a question to the registry, a scan of a candidate, a move
//! of a package to another version, or the end of the audit.

use vstd::prelude::*;
use vstd::string::{StrSliceExecFns, StringExecFns};
use crate::build_config::{crate_key, filtered, scanner_args, scanner_arguments, snippet,
    unconditional, BuildConfig};
use crate::check_info::UsedRufs;
use crate::command::CommandOutput;
use crate::dep_manager::{candidates_below, lemma_relaxing, local_table, option_req_views,
    package_key, relaxing, req_views, strict_parent, DepManager, PackageMeta};
use crate::error::AuditError;
use crate::extract::{cfgs_after, extract, extracted, Records};
use crate::graph::{lock_accepted, lock_graph, refusal, DepGraph};
use crate::registry::{find_listed, find_requirement, grouped, listed, requirement_on, row_views,
    versions_of, CandidateView, Candidates, DepReq, IndexVersion, VersionRow};
use crate::status::{RufLifetimes, RUSTC_VER_NUM};
use crate::text::{join2, views};
use crate::version::{greatest_index, is_greatest, is_least, least_index, max_index, min_index,
    semver_req_valid, version_lt, version_views, Version, VersionReq};

verus! {

/// How an audit ended.
#[derive(Debug)]
pub enum Outcome {
    /// Every crate's features can be enabled as things are.
    Clean,
    /// The dependency tree was changed so that every feature can be enabled.
    Fixed,
    /// The minimal dependency tree works under this compiler version.
    Rustc(u32),
    /// The audit failed.
    Failed(AuditError),
}

impl Outcome {
    /// The exit code of the process: 0 for a success, else the code of the
    /// error.
    pub open spec fn code(self) -> int {
        match self {
            Outcome::Failed(e) => e.code(),
            _ => 0,
        }
    }

    /// The exit code of the process for this outcome.
    pub fn exit_code(&self) -> (r: i32)
        ensures
            r == self.code(),
            r == 0 || r == -1 || r == -2,
    {
        match self {
            Outcome::Failed(e) => e.exit_code(),
            _ => 0,
        }
    }
}

/// What the engine asks its caller to do.
#[derive(Debug)]
pub enum Action {
    /// Run the build tool through the compiler wrapper.
    Extract,
    /// Read the lockfile and the metadata of the build tool.
    Load,
    /// Ask the metadata service for the versions of a crate.
    Versions { name: String },
    /// Ask the index of the registry for a crate, to learn what one of its
    /// versions requires of its dependencies: the copy of the index on disk
    /// first, the registry itself where `remote` is set.
    Requirements { name: String, version: String, remote: bool },
    /// Run the scanner on a source text, with the given arguments.
    Expand { crate_name: String, content: String, args: Vec<String> },
    /// Ask the package manager, with the given arguments, to move a package
    /// to another version, then read the lockfile.
    Update { name: String, current: String, target: String, args: Vec<String> },
    /// Ask the package manager to lock every dependency at its lowest
    /// version.
    MinimalVersions,
    /// Nothing to do outside: call the engine again.
    Continue,
    /// The audit is over.
    Finish(Outcome),
}

/// What happened outside.
#[derive(Debug)]
pub enum Event {
    /// The audit begins, or the engine asked to be called again.
    Resume,
    /// The build tool ran; `Err` where it could not be started.
    Extracted(Result<CommandOutput, String>),
    /// The lockfile and the metadata were read.
    Loaded { lock: Result<String, String>, metadata: Result<Vec<PackageMeta>, String> },
    /// The metadata service answered.
    Versions(Result<Vec<VersionRow>, String>),
    /// The index answered with what it holds for the crate, or with `None`
    /// where it does not know the crate.
    Requirements(Result<Option<Vec<IndexVersion>>, String>),
    /// The scanner ran.
    Expanded(CommandOutput),
    /// The package manager ran and the lockfile was read again.
    Updated { output: CommandOutput, lock: Result<String, String> },
    /// The package manager locked the lowest versions; `Err` where it could
    /// not be started.
    Regenerated(Result<CommandOutput, String>),
}

/// The pass that an extraction belongs to.
#[derive(Clone, Copy, Debug, PartialEq, Eq, Structural)]
pub enum Stage {
    /// The first look at the project.
    Initial,
    /// The look after a package was moved.
    Recheck,
    /// The look at the minimal dependency tree.
    Compiler,
}

/// What the engine waits for.
#[derive(Clone, Copy, Debug, PartialEq, Eq, Structural)]
pub enum Phase {
    Idle,
    Extracting(Stage),
    Loading,
    /// About to look for the first offending package.
    Seeking,
    /// Waiting for the versions of the target.
    Versions,
    /// Collecting what each parent of the target requires of it.
    ParentReqs,
    /// Waiting for what a parent requires.
    AwaitParentReq,
    /// Waiting for what the target requires now.
    AwaitCurrentReq,
    /// Collecting what each candidate of the target requires of the child.
    CandReqs,
    /// Waiting for what a candidate requires.
    AwaitCandReq,
    /// Judging the candidates one by one.
    Judging,
    /// Waiting for the scan of a candidate.
    AwaitExpand,
    /// Waiting for the package manager to move the target.
    Updating,
    /// Walking up from a package that could not be moved.
    Climbing,
    /// Waiting for the minimal dependency tree.
    Regenerating,
    Done,
}

/// A package that could not be repaired by moving it, with its parents and
/// how far the search among them has come.
#[derive(Debug)]
pub struct Frame {
    pub child: usize,
    pub parents: Vec<usize>,
    /// The parent looked at next.
    pub next: usize,
    /// Whether the parents have all been tried and the search now walks up
    /// from each of them.
    pub recursing: bool,
}

/// The package that is being moved, and what is known for it so far.
#[derive(Debug)]
pub struct Work {
    /// The package to move.
    pub target: usize,
    /// Its parents.
    pub parents: Vec<usize>,
    /// Every published version of its crate.
    pub all: Candidates,
    /// What the first parents require of it.
    pub reqs: Vec<VersionReq>,
    /// The versions it may be moved to.
    pub cands: Candidates,
    /// What it requires of the child now.
    pub current_req: Option<VersionReq>,
    /// What the first candidates require of the child.
    pub cand_reqs: Vec<Option<VersionReq>>,
    /// How many candidates have been judged.
    pub judged: usize,
    /// The judged candidates whose features can all be enabled.
    pub usable: Vec<Version>,
    /// The features that the candidate under scan declares always.
    pub plan_used: UsedRufs,
    /// The crate that the index was last asked for.
    pub asked_name: String,
    /// The version whose requirements were asked for.
    pub asked_version: String,
    /// Whether the registry itself was asked, not its copy on disk.
    pub remote: bool,
}

/// Whether a package of the graph offends: the last pass recorded features
/// for its crate that cannot all be enabled.
pub open spec fn offends(graph: DepGraph, records: Records, config: BuildConfig, node: int) -> bool {
    match records.rufs_of(crate_key(graph.nodes()[node].0)) {
        Some(rufs) => !config.usable(rufs),
        None => false,
    }
}

/// The position in `order` of the first of its first `n` packages that
/// offends.
pub open spec fn first_offending(
    graph: DepGraph,
    records: Records,
    config: BuildConfig,
    order: Seq<usize>,
    n: int,
) -> Option<int>
    decreases n,
{
    if n <= 0 {
        None
    } else {
        match first_offending(graph, records, config, order, n - 1) {
            Some(k) => Some(k),
            None => if offends(graph, records, config, order[n - 1] as int) {
                Some(n - 1)
            } else {
                None
            },
        }
    }
}

/// Once an offender is found with none before it, it stays the first.
pub proof fn lemma_first_offending_found(
    graph: DepGraph,
    records: Records,
    config: BuildConfig,
    order: Seq<usize>,
    k: int,
    n: int,
)
    requires
        0 <= k < n <= order.len(),
        first_offending(graph, records, config, order, k) is None,
        offends(graph, records, config, order[k] as int),
    ensures
        first_offending(graph, records, config, order, n) == Some(k),
    decreases n - k,
{
    if n > k + 1 {
        lemma_first_offending_found(graph, records, config, order, k, n - 1);
    }
}

/// Where no offender is found among the first `n` packages, none of them
/// offends.
pub proof fn lemma_first_offending_none(
    graph: DepGraph,
    records: Records,
    config: BuildConfig,
    order: Seq<usize>,
    n: int,
)
    requires
        0 <= n <= order.len(),
        first_offending(graph, records, config, order, n) is None,
    ensures
        forall|k: int| 0 <= k < n ==> !offends(graph, records, config, #[trigger] order[k] as int),
    decreases n,
{
    if n > 0 {
        lemma_first_offending_none(graph, records, config, order, n - 1);
    }
}

/// Walks the packages in the given order and returns the first that offends.
pub fn first_offender(
    graph: &DepGraph,
    records: &Records,
    config: &BuildConfig,
    order: &Vec<usize>,
) -> (r: Option<usize>)
    requires
        records.wf(),
        config.wf(),
        forall|i: int| 0 <= i < order.len() ==> #[trigger] order[i] < graph.nodes().len(),
    ensures
        match r {
            Some(node) => first_offending(*graph, *records, *config, order@, order.len() as int)
                matches Some(k) && order[k] == node && node < graph.nodes().len(),
            None => first_offending(*graph, *records, *config, order@, order.len() as int) is None,
        },
{
    let mut i: usize = 0;
    while i < order.len()
        invariant
            i <= order.len(),
            records.wf(),
            config.wf(),
            forall|j: int| 0 <= j < order.len() ==> #[trigger] order[j] < graph.nodes().len(),
            first_offending(*graph, *records, *config, order@, i as int) is None,
        decreases order.len() - i,
    {
        let node = order[i];
        let key = crate::text::replace_char(graph.package(node).name.as_str(), '-', '_');
        let bad = match records.get(key.as_str()) {
            Some(rufs) => !config.rufs_usable(rufs),
            None => false,
        };
        if bad {
            proof {
                lemma_first_offending_found(
                    *graph,
                    *records,
                    *config,
                    order@,
                    i as int,
                    order.len() as int,
                );
            }
            return Some(node);
        }
        i += 1;
    }
    None
}

/// Every crate that the last pass saw uses only features that can be enabled
/// under the configured compiler.
pub open spec fn all_usable(records: Records, config: BuildConfig) -> bool {
    forall|i: int| 0 <= i < records@.len() ==> config.usable((#[trigger] records@[i]).rufs)
}

/// Checks every crate of the last pass.
pub fn check_all(records: &Records, config: &BuildConfig) -> (r: bool)
    requires
        records.wf(),
        config.wf(),
    ensures
        r == all_usable(*records, *config),
{
    let mut i: usize = 0;
    while i < records.len()
        invariant
            i <= records@.len(),
            records.wf(),
            config.wf(),
            forall|j: int| 0 <= j < i ==> config.usable((#[trigger] records@[j]).rufs),
        decreases records@.len() - i,
    {
        if !config.rufs_usable(records.rufs(i)) {
            return false;
        }
        i += 1;
    }
    true
}

/// Every crate that the last pass saw uses only features that can be enabled
/// under compiler version `version`.
pub open spec fn works_under(records: Records, table: RufLifetimes, version: int) -> bool {
    0 <= version < RUSTC_VER_NUM && forall|i: int|
        0 <= i < records@.len() ==> table.all_usable((#[trigger] records@[i]).rufs, version)
}

/// The message of the failure to find a compiler.
pub open spec fn no_rustc_message() -> Seq<char> {
    "cannot find usable rustc"@
}

/// Picks the newest compiler version under which every crate of the last
/// pass works; where there is none, the repair fails.
pub fn pick_rustc(records: &Records, config: &BuildConfig) -> (r: Result<u32, AuditError>)
    requires
        records.wf(),
        config.wf(),
    ensures
        match r {
            Ok(v) => works_under(*records, config.table(), v as int) && forall|w: int|
                works_under(*records, config.table(), w) ==> w <= v,
            Err(e) => e is Functionality && e.message() == no_rustc_message() && forall|w: int|
                !works_under(*records, config.table(), w),
        },
{
    let mut v: u32 = 64;
    while v > 0
        invariant
            v <= 64,
            records.wf(),
            config.wf(),
            forall|w: int| v <= w ==> !works_under(*records, config.table(), w),
        decreases v,
    {
        v -= 1;
        let mut ok = true;
        let mut i: usize = 0;
        while i < records.len()
            invariant
                v < 64,
                i <= records@.len(),
                records.wf(),
                config.wf(),
                ok == forall|j: int|
                    0 <= j < i ==> config.table().all_usable((#[trigger] records@[j]).rufs, v as int),
            decreases records@.len() - i,
        {
            if !config.rufs_usable_under(records.rufs(i), v) {
                ok = false;
            }
            i += 1;
        }
        if ok {
            return Ok(v);
        }
    }
    Err(AuditError::functionality("cannot find usable rustc"))
}

impl Work {
    /// Nothing known yet, for the package at position 0.
    pub fn fresh() -> (r: Work)
        ensures
            r.target == 0,
            r.parents@.len() == 0,
            r.all.wf() && r.all@.len() == 0,
            r.reqs@.len() == 0,
            r.cands.wf() && r.cands@.len() == 0,
            r.current_req is None,
            r.cand_reqs@.len() == 0,
            r.judged == 0,
            r.usable@.len() == 0,
            r.plan_used@.len() == 0,
    {
        Work {
            target: 0,
            parents: Vec::new(),
            all: Candidates::empty(),
            reqs: Vec::new(),
            cands: Candidates::empty(),
            current_req: None,
            cand_reqs: Vec::new(),
            judged: 0,
            usable: Vec::new(),
            plan_used: UsedRufs::empty(),
            asked_name: String::new(),
            asked_version: String::new(),
            remote: false,
        }
    }

    /// Nothing differs but what the index was last asked.
    pub open spec fn same_but_asked(self, pre: Work) -> bool {
        &&& self.target == pre.target
        &&& self.parents == pre.parents
        &&& self.all == pre.all
        &&& self.reqs == pre.reqs
        &&& self.cands == pre.cands
        &&& self.current_req == pre.current_req
        &&& self.cand_reqs == pre.cand_reqs
        &&& self.judged == pre.judged
        &&& self.usable == pre.usable
        &&& self.plan_used == pre.plan_used
    }
}

/// The state of an audit.
#[derive(Debug)]
pub struct Audit<'c> {
    pub config: BuildConfig<'c>,
    pub phase: Phase,
    /// What the last extraction pass saw.
    pub records: Records,
    /// The dependency manager, once the lockfile was read.
    pub dm: Option<DepManager>,
    /// The packages that could not be moved, from the offender up.
    pub stack: Vec<Frame>,
    pub work: Work,
    /// Why the dependency tree could not be repaired, once that is known.
    pub dep_failure: Option<AuditError>,
    /// Why the walk up the graph failed, once that is known.
    pub up_failure: Option<AuditError>,
}

/// A frame of the walk up the graph fits a graph of `n` packages.
pub open spec fn frame_ok(f: Frame, n: int) -> bool {
    &&& f.child < n
    &&& 0 < f.parents.len()
    &&& f.next <= f.parents.len()
    &&& forall|i: int| 0 <= i < f.parents.len() ==> #[trigger] f.parents[i] < n
}

/// The phases in which a package is being moved.
pub open spec fn attempting(phase: Phase) -> bool {
    phase is Versions || phase is ParentReqs || phase is AwaitParentReq || phase is AwaitCurrentReq
        || phase is CandReqs || phase is AwaitCandReq || phase is Judging || phase is AwaitExpand
}

impl<'c> Audit<'c> {
    /// How many packages the graph holds.
    pub open spec fn size(self) -> int {
        self.dm->0.dep_graph().nodes().len() as int
    }

    /// The parts of the state are well formed, and every position it holds
    /// is one of the graph.
    pub open spec fn base(self) -> bool {
        &&& self.config.wf()
        &&& self.records.wf()
        &&& self.work.all.wf()
        &&& self.work.cands.wf()
        &&& self.dm matches Some(dm) ==> {
            &&& dm.wf()
            &&& self.work.target < self.size()
            &&& forall|i: int|
                0 <= i < self.work.parents.len() ==> #[trigger] self.work.parents[i] < self.size()
            &&& forall|i: int|
                0 <= i < self.stack.len() ==> frame_ok(#[trigger] self.stack[i], self.size())
        }
        &&& forall|i: int|
            0 <= i < self.stack.len() - 1 ==> (#[trigger] self.stack[i]).recursing
                && self.stack[i].next < self.stack[i].parents.len()
    }

    /// Where the walk up the graph is under way, the package being moved is
    /// the parent that the innermost frame looks at.
    pub open spec fn aimed(self) -> bool {
        self.stack.len() > 0 ==> {
            let top = self.stack[self.stack.len() - 1];
            !top.recursing && top.next < top.parents.len() && self.work.target
                == top.parents[top.next as int]
        }
    }

    /// The state is consistent: its parts are well formed, and each phase has
    /// what it works on.
    pub open spec fn wf(self) -> bool {
        &&& self.base()
        &&& self.dm is None ==> self.phase is Idle || self.phase == Phase::Extracting(
            Stage::Initial,
        ) || self.phase is Loading || self.phase is Done
        &&& attempting(self.phase) ==> self.aimed()
        &&& self.phase is ParentReqs ==> self.work.reqs.len() <= self.work.parents.len()
            && self.work.parents@ == self.dm->0.dep_graph().parent_seq(self.work.target as int)
        &&& self.phase is AwaitParentReq ==> self.work.reqs.len() < self.work.parents.len()
            && self.work.parents@ == self.dm->0.dep_graph().parent_seq(self.work.target as int)
        &&& self.phase is AwaitCurrentReq ==> self.stack.len() > 0
        &&& self.phase is CandReqs ==> self.stack.len() > 0 && self.work.current_req is Some
            && self.work.cand_reqs.len() <= self.work.cands@.len()
        &&& self.phase is AwaitCandReq ==> self.stack.len() > 0 && self.work.current_req is Some
            && self.work.cand_reqs.len() < self.work.cands@.len()
        &&& self.phase is Judging ==> self.work.judged <= self.work.cands@.len()
        &&& self.phase is AwaitExpand ==> self.work.judged < self.work.cands@.len()
        &&& self.phase is Climbing ==> self.stack.len() > 0
        &&& self.lowering()
    }

    /// The project is as it was: the settings, the records of the last pass
    /// and the dependency manager.
    pub open spec fn same_project(self, pre: Self) -> bool {
        self.config == pre.config && self.records == pre.records && self.dm == pre.dm
    }

    /// The audit ended in a failure of the given kind with the given message.
    pub open spec fn failed(self, action: Action, unexpected: bool, message: Seq<char>) -> bool {
        &&& self.phase is Done
        &&& action matches Action::Finish(Outcome::Failed(e))
        &&& (e is Unexpected) == unexpected
        &&& e.message() == message
    }

    /// The audit ended in an infrastructure fault because a lockfile was
    /// refused while something was being done.
    pub open spec fn refused(self, action: Action, doing: Seq<char>, lock: Seq<char>) -> bool {
        &&& self.phase is Done
        &&& action matches Action::Finish(Outcome::Failed(e))
        &&& e is Unexpected
        &&& refusal(doing, lock, e.message())
    }

    /// An audit that has not begun.
    pub fn new(config: BuildConfig<'c>) -> (r: Audit<'c>)
        requires
            config.wf(),
        ensures
            r.wf(),
            r.phase is Idle,
            r.config == config,
            r.records@.len() == 0,
            r.dm is None,
            r.stack@.len() == 0,
            r.dep_failure is None,
            r.up_failure is None,
    {
        Audit {
            config,
            phase: Phase::Idle,
            records: Records::empty(),
            dm: None,
            stack: Vec::new(),
            work: Work::fresh(),
            dep_failure: None,
            up_failure: None,
        }
    }

    /// Ends the audit with an error.
    fn fail(&mut self, e: AuditError) -> (action: Action)
        requires
            old(self).wf(),
        ensures
            final(self).wf(),
            final(self).same_project(*old(self)),
            final(self).failed(action, e is Unexpected, e.message()),
            final(self).dep_failure == old(self).dep_failure,
    {
        self.phase = Phase::Done;
        Action::Finish(Outcome::Failed(e))
    }

    /// Ends the audit with an infrastructure fault whose message is the two
    /// texts joined.
    fn fault(&mut self, what: &str, why: &str) -> (action: Action)
        requires
            old(self).wf(),
        ensures
            final(self).wf(),
            final(self).same_project(*old(self)),
            final(self).failed(action, true, what@ + why@),
            final(self).dep_failure == old(self).dep_failure,
    {
        self.fail(AuditError::Unexpected(join2(what, why)))
    }

    /// What the first call does: it asks for the first extraction pass.
    pub open spec fn started(self, pre: Self, action: Action) -> bool {
        &&& self.phase == Phase::Extracting(Stage::Initial)
        &&& action is Extract
        &&& self.same_project(pre)
        &&& self.stack == pre.stack
        &&& self.work == pre.work
        &&& self.dep_failure == pre.dep_failure
        &&& self.up_failure == pre.up_failure
    }

    /// Begins the audit.
    fn start(&mut self) -> (action: Action)
        requires
            old(self).wf(),
            old(self).phase is Idle,
        ensures
            final(self).wf(),
            final(self).started(*old(self), action),
    {
        self.phase = Phase::Extracting(Stage::Initial);
        Action::Extract
    }

    /// What follows an extraction pass. A build tool that could not be
    /// started, for the reason given, or that failed, and a record that
    /// cannot be read, end the audit. Else the records and the cfg predicates of the pass are taken
    /// in, and the first pass is followed by reading the lockfile, a pass
    /// after a move by the search for the next offender, and the pass over
    /// the minimal tree by the choice of a compiler: the newest under which
    /// every crate works, or a failure where there is none.
    pub open spec fn after_extraction(
        self,
        pre: Self,
        answer: Result<CommandOutput, String>,
        action: Action,
    ) -> bool {
        match answer {
            Err(e) => self.failed(action, true, e@) && self.same_project(pre),
            Ok(output) => match extracted(output) {
                Err(m) => self.failed(action, true, m) && self.same_project(pre),
                Ok(records) => {
                    &&& self.records@ == records
                    &&& self.dm == pre.dm
                    &&& self.config.same_settings(pre.config)
                    &&& forall|key: Seq<char>| #[trigger]
                        self.config.cfgs(key) == cfgs_after(
                            pre.config.cfgs(key),
                            records,
                            records.len() as int,
                            key,
                        )
                    &&& forall|i: int|
                        0 <= i < records.len() ==> self.config.cfgs((#[trigger] records[i]).name) is Some
                    &&& match pre.phase {
                        Phase::Extracting(Stage::Initial) => self.phase is Loading
                            && action is Load,
                        Phase::Extracting(Stage::Recheck) => self.phase is Seeking
                            && action is Continue,
                        _ => self.phase is Done && match action {
                            Action::Finish(Outcome::Rustc(v)) => works_under(
                                self.records,
                                self.config.table(),
                                v as int,
                            ) && forall|w: int|
                                works_under(self.records, self.config.table(), w) ==> w <= v,
                            Action::Finish(Outcome::Failed(e)) => e is Functionality && e.message()
                                == no_rustc_message() && forall|w: int|
                                !works_under(self.records, self.config.table(), w),
                            _ => false,
                        },
                    }
                },
            },
        }
    }

    /// Takes in an extraction pass.
    fn on_extracted(&mut self, answer: Result<CommandOutput, String>) -> (action: Action)
        requires
            old(self).wf(),
            old(self).phase is Extracting,
        ensures
            final(self).wf(),
            final(self).after_extraction(*old(self), answer, action),
    {
        let output = match answer {
            Ok(o) => o,
            Err(e) => {
                return self.fail(AuditError::Unexpected(e));
            },
        };
        let records = match extract(&mut self.config, &output) {
            Ok(r) => r,
            Err(e) => {
                return self.fail(e);
            },
        };
        self.records = records;
        match self.phase {
            Phase::Extracting(Stage::Initial) => {
                self.phase = Phase::Loading;
                Action::Load
            },
            Phase::Extracting(Stage::Recheck) => {
                self.phase = Phase::Seeking;
                Action::Continue
            },
            _ => {
                self.phase = Phase::Done;
                match pick_rustc(&self.records, &self.config) {
                    Ok(v) => Action::Finish(Outcome::Rustc(v)),
                    Err(e) => Action::Finish(Outcome::Failed(e)),
                }
            },
        }
    }

    /// What follows the reading of the lockfile and the metadata. A file that
    /// could not be read, or a lockfile that is not a graph this library
    /// works on, ends the audit. Else the audit is over where every crate of
    /// the first pass works as things are; it turns to the compiler where the
    /// user asked for the quick repair; and it looks for the first offender
    /// otherwise.
    pub open spec fn after_loading(
        self,
        pre: Self,
        lock: Result<String, String>,
        metadata: Result<Vec<PackageMeta>, String>,
        action: Action,
    ) -> bool {
        match lock {
            Err(e) => self.failed(
                action,
                true,
                "cannot build DepManager, load lock file fails: "@ + e@,
            ) && self.same_project(pre),
            Ok(text) => match metadata {
                Err(e) => self.failed(
                    action,
                    true,
                    "cannot build DepManager, load metadata fails: "@ + e@,
                ) && self.same_project(pre),
                Ok(packages) => if !lock_accepted(text@) {
                    self.refused(action, "cannot build DepManager, "@, text@) && self.same_project(
                        pre,
                    )
                } else {
                    &&& self.config == pre.config
                    &&& self.records == pre.records
                    &&& self.dm matches Some(dm)
                    &&& lock_graph(text@) == Some((dm.dep_graph().nodes(), dm.dep_graph().edge_seq()))
                    &&& forall|node: int| dm.recorded(node) is None
                    &&& forall|key: Seq<char>| #[trigger]
                        dm.local(key) == local_table(packages@, packages.len() as int, key)
                    &&& self.stack@.len() == 0
                    &&& if all_usable(pre.records, pre.config) {
                        self.phase is Done && (action matches Action::Finish(Outcome::Clean))
                    } else if pre.config.quick() {
                        self.phase is Regenerating && action is MinimalVersions
                    } else {
                        self.phase is Seeking && action is Continue
                    }
                },
            },
        }
    }

    /// Takes in the lockfile and the metadata.
    pub fn check_rufs(
        &mut self,
        lock: Result<String, String>,
        metadata: Result<Vec<PackageMeta>, String>,
    ) -> (action: Action)
        requires
            old(self).wf(),
            old(self).phase is Loading,
        ensures
            final(self).wf(),
            final(self).after_loading(*old(self), lock, metadata, action),
    {
        let text = match lock {
            Ok(t) => t,
            Err(e) => {
                return self.fault("cannot build DepManager, load lock file fails: ", e.as_str());
            },
        };
        let packages = match metadata {
            Ok(p) => p,
            Err(e) => {
                return self.fault("cannot build DepManager, load metadata fails: ", e.as_str());
            },
        };
        let dm = match DepManager::new(text.as_str(), packages) {
            Ok(dm) => dm,
            Err(e) => {
                return self.fail(e);
            },
        };
        self.dm = Some(dm);
        self.stack = Vec::new();
        self.work = Work::fresh();
        if check_all(&self.records, &self.config) {
            self.phase = Phase::Done;
            Action::Finish(Outcome::Clean)
        } else if self.config.is_quick_fix() {
            self.fix_with_rustc()
        } else {
            self.phase = Phase::Seeking;
            Action::Continue
        }
    }
}

/// The frame with its cursor moved to the next parent.
pub open spec fn moved_on(f: Frame) -> Frame {
    Frame { child: f.child, parents: f.parents, next: (f.next + 1) as usize, recursing: f.recursing }
}

/// The frame with its cursor back at the first parent, now to walk up from
/// each.
pub open spec fn turned(f: Frame) -> Frame {
    Frame { child: f.child, parents: f.parents, next: 0, recursing: true }
}

impl<'c> Audit<'c> {
    /// The walk up the graph failed for the stated reason; with it the
    /// repair of the dependency tree fails, and the audit turns to the
    /// compiler.
    pub open spec fn gave_up(self, pre: Self, action: Action, message: Seq<char>) -> bool {
        &&& self.phase is Regenerating
        &&& action is MinimalVersions
        &&& self.same_project(pre)
        &&& self.up_failure matches Some(e)
        &&& e is Functionality
        &&& e.message() == message
        &&& self.dep_failure matches Some(d)
        &&& d is Functionality
        &&& d.message() == "up fix fails"@
    }

    /// What follows when the package `target` cannot be moved. Where it is
    /// the offender itself, the walk up begins with its parents; an offender
    /// without parents is the root, and the repair of the tree is given up.
    /// Where the package is a parent tried during the walk, the walk goes on
    /// with the next parent.
    pub open spec fn dead_ended(
        self,
        pre: Self,
        stack: Seq<Frame>,
        target: int,
        action: Action,
    ) -> bool {
        if stack.len() == 0 {
            let parents = pre.dm->0.dep_graph().parent_seq(target);
            if parents.len() == 0 || target == pre.dm->0.dep_graph().root_index() {
                self.gave_up(pre, action, "up fix failed, reaching root"@)
            } else {
                &&& self.phase is Climbing
                &&& action is Continue
                &&& self.same_project(pre)
                &&& self.dep_failure == pre.dep_failure
                &&& self.stack@.len() == 1
                &&& self.stack[0].child == target
                &&& self.stack[0].parents@ == parents
                &&& self.stack[0].next == 0
                &&& !self.stack[0].recursing
            }
        } else {
            &&& self.phase is Climbing
            &&& action is Continue
            &&& self.same_project(pre)
            &&& self.dep_failure == pre.dep_failure
            &&& self.stack@ == stack.drop_last().push(moved_on(stack.last()))
        }
    }

    /// What begins the move of the package `target`: a local package cannot
    /// be moved; for another, the metadata service is asked for the versions
    /// of its crate.
    pub open spec fn begun(self, pre: Self, stack: Seq<Frame>, target: int, action: Action) -> bool {
        if pre.dm->0.is_local_node(target) {
            self.dead_ended(pre, stack, target, action)
        } else {
            &&& self.phase is Versions
            &&& action matches Action::Versions { name }
            &&& name@ == pre.dm->0.name_of(target)
            &&& self.same_project(pre)
            &&& self.dep_failure == pre.dep_failure
            &&& self.stack@ == stack
            &&& self.work.target == target
        }
    }

    /// What the search for an offender leads to: the packages are walked
    /// breadth first from the root; where none offends, the tree is
    /// repaired; else the move of the first offender begins.
    pub open spec fn sought(self, pre: Self, action: Action) -> bool {
        let dm = pre.dm->0;
        let order = dm.dep_graph().bfs_seq();
        match first_offending(
            dm.dep_graph(),
            pre.records,
            pre.config,
            order,
            order.len() as int,
        ) {
            None => {
                &&& self.phase is Done
                &&& self.same_project(pre)
                &&& action matches Action::Finish(Outcome::Fixed)
                &&& forall|node: int|
                    0 <= node < dm.dep_graph().nodes().len() ==> !offends(
                        dm.dep_graph(),
                        pre.records,
                        pre.config,
                        node,
                    )
            },
            Some(k) => self.begun(pre, Seq::empty(), order[k] as int, action),
        }
    }

    /// What a step of the walk up leads to. While the parents of the
    /// innermost package are tried, the move of the next parent begins; when
    /// all were tried, the walk turns to walking up from each. Then a parent
    /// without parents of its own is passed over, and any other becomes the
    /// innermost package. When that is through for every parent, the walk
    /// falls back to the package below, or, at the offender, the repair of
    /// the tree is given up.
    pub open spec fn climbed(self, pre: Self, action: Action) -> bool {
        let top = pre.stack@.last();
        if !top.recursing {
            if top.next < top.parents.len() {
                self.begun(pre, pre.stack@, top.parents[top.next as int] as int, action)
            } else {
                &&& self.phase is Climbing
                &&& action is Continue
                &&& self.same_project(pre)
                &&& self.dep_failure == pre.dep_failure
                &&& self.stack@ == pre.stack@.drop_last().push(turned(top))
            }
        } else if top.next < top.parents.len() {
            let p = top.parents[top.next as int];
            let grand = pre.dm->0.dep_graph().parent_seq(p as int);
            &&& self.phase is Climbing
            &&& action is Continue
            &&& self.same_project(pre)
            &&& self.dep_failure == pre.dep_failure
            &&& if grand.len() == 0 {
                self.stack@ == pre.stack@.drop_last().push(moved_on(top))
            } else {
                &&& self.stack@.len() == pre.stack@.len() + 1
                &&& self.stack@.drop_last() == pre.stack@
                &&& self.stack@.last().child == p
                &&& self.stack@.last().parents@ == grand
                &&& self.stack@.last().next == 0
                &&& !self.stack@.last().recursing
            }
        } else if pre.stack@.len() == 1 {
            self.gave_up(pre, action, "up fix fails at current layer"@)
        } else {
            let below = pre.stack@[pre.stack@.len() - 2];
            &&& self.phase is Climbing
            &&& action is Continue
            &&& self.same_project(pre)
            &&& self.dep_failure == pre.dep_failure
            &&& self.stack@ == pre.stack@.drop_last().drop_last().push(moved_on(below))
        }
    }

    /// Turns to the compiler: asks for the dependency tree with every
    /// package at its lowest version.
    pub fn fix_with_rustc(&mut self) -> (action: Action)
        requires
            old(self).base(),
            old(self).dm is Some,
        ensures
            final(self).wf(),
            final(self).phase is Regenerating,
            action is MinimalVersions,
            final(self).same_project(*old(self)),
            final(self).stack == old(self).stack,
            final(self).dep_failure == old(self).dep_failure,
            final(self).up_failure == old(self).up_failure,
    {
        self.phase = Phase::Regenerating;
        Action::MinimalVersions
    }

    /// Gives up the repair of the dependency tree.
    fn give_up(&mut self, message: &str) -> (action: Action)
        requires
            old(self).base(),
            old(self).dm is Some,
        ensures
            final(self).wf(),
            final(self).gave_up(*old(self), action, message@),
    {
        self.up_failure = Some(AuditError::functionality(message));
        self.dep_failure = Some(AuditError::functionality("up fix fails"));
        self.fix_with_rustc()
    }

    /// Goes on after the package being moved turned out to have no usable
    /// candidate.
    fn dead_end(&mut self) -> (action: Action)
        requires
            old(self).base(),
            old(self).dm is Some,
            old(self).aimed(),
        ensures
            final(self).wf(),
            final(self).dead_ended(*old(self), old(self).stack@, old(self).work.target as int, action),
    {
        if self.stack.len() == 0 {
            let child = self.work.target;
            let parents = match &self.dm {
                Some(dm) => dm.get_dep_parent(child),
                None => Vec::new(),
            };
            if parents.len() == 0 {
                return self.give_up("up fix failed, reaching root");
            }
            self.stack.push(Frame { child, parents, next: 0, recursing: false });
            self.phase = Phase::Climbing;
            Action::Continue
        } else {
            let mut top = self.stack.pop().unwrap();
            top.next = top.next + 1;
            self.stack.push(top);
            self.phase = Phase::Climbing;
            assert(frame_ok(self.stack[self.stack.len() - 1], self.size()));
            assert forall|i: int| 0 <= i < self.stack.len() implies frame_ok(
                #[trigger] self.stack[i],
                self.size(),
            ) by {
                if i < self.stack.len() - 1 {
                    assert(self.stack[i] == old(self).stack[i]);
                }
            }
            Action::Continue
        }
    }

    /// Begins the move of a package.
    fn begin(&mut self, target: usize) -> (action: Action)
        requires
            old(self).base(),
            old(self).dm is Some,
            target < old(self).size(),
            old(self).stack.len() > 0 ==> {
                let top = old(self).stack[old(self).stack.len() - 1];
                !top.recursing && top.next < top.parents.len() && target == top.parents[top.next as int]
            },
        ensures
            final(self).wf(),
            final(self).begun(*old(self), old(self).stack@, target as int, action),
    {
        let mut work = Work::fresh();
        work.target = target;
        self.work = work;
        let (local, name) = match &self.dm {
            Some(dm) => (dm.is_local(target), dm.graph().package(target).name.clone()),
            None => (true, String::new()),
        };
        if local {
            return self.dead_end();
        }
        self.phase = Phase::Versions;
        Action::Versions { name }
    }

    /// Looks for the first offender and begins its move.
    pub fn fix_with_dep(&mut self) -> (action: Action)
        requires
            old(self).wf(),
            old(self).phase is Seeking,
        ensures
            final(self).wf(),
            final(self).sought(*old(self), action),
    {
        let found = match &self.dm {
            Some(dm) => {
                let order = dm.graph().bfs();
                let total: usize = dm.graph().len();
                let found = first_offender(dm.graph(), &self.records, &self.config, &order);
                proof {
                    if found is None {
                        lemma_first_offending_none(
                            dm.dep_graph(),
                            self.records,
                            self.config,
                            order@,
                            order.len() as int,
                        );
                        assert forall|node: int|
                            0 <= node < dm.dep_graph().nodes().len() implies !offends(
                            dm.dep_graph(),
                            self.records,
                            self.config,
                            node,
                        ) by {
                            assert(node < total);
                            let at = node as usize;
                            assert(order@.contains(at));
                            let k = choose|k: int| 0 <= k < order.len() && order[k] == at;
                            assert(!offends(dm.dep_graph(), self.records, self.config, order[k] as int));
                        }
                    }
                }
                found
            },
            None => None,
        };
        match found {
            None => {
                self.phase = Phase::Done;
                Action::Finish(Outcome::Fixed)
            },
            Some(node) => {
                self.stack = Vec::new();
                self.begin(node)
            },
        }
    }

    /// Takes one step of the walk up the graph.
    pub fn up_fix(&mut self) -> (action: Action)
        requires
            old(self).wf(),
            old(self).phase is Climbing,
        ensures
            final(self).wf(),
            final(self).climbed(*old(self), action),
    {
        let ghost before = old(self).stack@;
        let mut top = self.stack.pop().unwrap();
        assert(top == before.last());
        assert(self.stack@ =~= before.drop_last());
        assert(frame_ok(top, self.size()));
        assert forall|i: int| 0 <= i < self.stack.len() implies frame_ok(
            #[trigger] self.stack[i],
            self.size(),
        ) by {
            assert(self.stack[i] == old(self).stack[i]);
        }
        if !top.recursing {
            if top.next < top.parents.len() {
                let target = top.parents[top.next];
                self.stack.push(top);
                assert(self.stack@ =~= before);
                self.begin(target)
            } else {
                top.recursing = true;
                top.next = 0;
                self.stack.push(top);
                assert(self.stack@ =~= before.drop_last().push(turned(before.last())));
                assert(frame_ok(self.stack[self.stack.len() - 1], self.size()));
                Action::Continue
            }
        } else if top.next < top.parents.len() {
            let p = top.parents[top.next];
            let grand = match &self.dm {
                Some(dm) => dm.get_dep_parent(p),
                None => Vec::new(),
            };
            if grand.len() == 0 {
                top.next = top.next + 1;
                self.stack.push(top);
                assert(self.stack@ =~= before.drop_last().push(moved_on(before.last())));
                assert(frame_ok(self.stack[self.stack.len() - 1], self.size()));
            } else {
                self.stack.push(top);
                assert(self.stack@ =~= before);
                self.stack.push(Frame { child: p, parents: grand, next: 0, recursing: false });
                assert(self.stack@.drop_last() =~= before);
                assert(frame_ok(self.stack[self.stack.len() - 1], self.size()));
            }
            Action::Continue
        } else if self.stack.len() == 0 {
            self.give_up("up fix fails at current layer")
        } else {
            let mut below = self.stack.pop().unwrap();
            assert(below == before[before.len() - 2]);
            assert(self.stack@ =~= before.drop_last().drop_last());
            assert(frame_ok(below, self.size()));
            assert(below.recursing && below.next < below.parents.len());
            assert forall|i: int| 0 <= i < self.stack.len() implies frame_ok(
                #[trigger] self.stack[i],
                self.size(),
            ) by {
                assert(self.stack[i] == old(self).stack[i]);
            }
            below.next = below.next + 1;
            self.stack.push(below);
            assert(self.stack@ =~= before.drop_last().drop_last().push(
                moved_on(before[before.len() - 2]),
            ));
            assert(frame_ok(self.stack[self.stack.len() - 1], self.size()));
            Action::Continue
        }
    }
}

/// Every candidate lies strictly below a version.
pub open spec fn all_below(cands: Seq<CandidateView>, current: Seq<char>) -> bool {
    forall|i: int| 0 <= i < cands.len() ==> version_lt((#[trigger] cands[i]).0, current)
}

/// Every version of a list lies strictly below a version.
pub open spec fn versions_below(versions: Seq<Seq<char>>, current: Seq<char>) -> bool {
    forall|i: int| 0 <= i < versions.len() ==> version_lt(#[trigger] versions[i], current)
}

impl<'c> Audit<'c> {
    /// The current version of the package being moved.
    pub open spec fn current(self) -> Seq<char> {
        self.dm->0.version_of(self.work.target as int)
    }

    /// The name of the package being moved.
    pub open spec fn target_name(self) -> Seq<char> {
        self.dm->0.name_of(self.work.target as int)
    }

    /// The package for whose sake the target is moved, during the walk up.
    pub open spec fn child_name(self) -> Seq<char> {
        self.dm->0.name_of(self.stack@.last().child as int)
    }

    /// While candidates are looked at, each lies strictly below the current
    /// version of the package being moved, and so does each found usable.
    pub open spec fn lowering(self) -> bool {
        &&& (self.phase is AwaitCurrentReq || self.phase is CandReqs || self.phase is AwaitCandReq
            || self.phase is Judging || self.phase is AwaitExpand) ==> all_below(
            self.work.cands@,
            self.current(),
        )
        &&& (self.phase is Judging || self.phase is AwaitExpand) ==> versions_below(
            version_views(self.work.usable@),
            self.current(),
        )
    }

    /// Nothing changed but the phase and what is known of the package being
    /// moved.
    pub open spec fn kept(self, pre: Self) -> bool {
        &&& self.same_project(pre)
        &&& self.stack == pre.stack
        &&& self.dep_failure == pre.dep_failure
        &&& self.work.target == pre.work.target
    }

    /// The index is asked for a crate, and the question is remembered.
    pub open spec fn asking(
        self,
        action: Action,
        name: Seq<char>,
        version: Seq<char>,
        remote: bool,
    ) -> bool {
        &&& action matches Action::Requirements { name: n, version: v, remote: r }
        &&& n@ == name
        &&& v@ == version
        &&& r == remote
        &&& self.work.asked_name@ == name
        &&& self.work.asked_version@ == version
        &&& self.work.remote == remote
    }

    /// Asks the copy of the index on disk for a crate.
    fn ask(&mut self, name: String, version: String) -> (action: Action)
        ensures
            final(self).asking(action, name@, version@, false),
            final(self).work.same_but_asked(old(self).work),
            final(self).config == old(self).config,
            final(self).records == old(self).records,
            final(self).dm == old(self).dm,
            final(self).stack == old(self).stack,
            final(self).dep_failure == old(self).dep_failure,
            final(self).phase == old(self).phase,
    {
        self.work.asked_name = name.clone();
        self.work.asked_version = version.clone();
        self.work.remote = false;
        Action::Requirements { name, version, remote: false }
    }

    /// What the answer of the metadata service leads to. An answer that did
    /// not come, or rows that cannot be grouped, end the audit. A crate
    /// without published versions cannot be moved. Else the requirements of
    /// the parents are collected next.
    pub open spec fn after_versions(
        self,
        pre: Self,
        answer: Result<Vec<VersionRow>, String>,
        action: Action,
    ) -> bool {
        match answer {
            Err(e) => self.failed(action, true, "cannot get candidates, due to "@ + e@)
                && self.same_project(pre),
            Ok(rows) => match grouped(row_views(rows@)) {
                None => self.failed(
                    action,
                    true,
                    "cannot get candidates, due to a feature without condition"@,
                ) && self.same_project(pre),
                Some(all) => if all.len() == 0 {
                    self.dead_ended(pre, pre.stack@, pre.work.target as int, action)
                } else {
                    &&& self.phase is ParentReqs
                    &&& action is Continue
                    &&& self.kept(pre)
                    &&& self.work.all@ == all
                    &&& self.work.reqs@.len() == 0
                    &&& self.work.parents@ == pre.dm->0.dep_graph().parent_seq(
                        pre.work.target as int,
                    )
                },
            },
        }
    }

    /// Takes in the answer of the metadata service.
    fn on_versions(&mut self, answer: Result<Vec<VersionRow>, String>) -> (action: Action)
        requires
            old(self).wf(),
            old(self).phase is Versions,
        ensures
            final(self).wf(),
            final(self).after_versions(*old(self), answer, action),
    {
        let rows = match answer {
            Ok(r) => r,
            Err(e) => {
                return self.fault("cannot get candidates, due to ", e.as_str());
            },
        };
        let all = match Candidates::group_rows(&rows) {
            Some(c) => c,
            None => {
                return self.fail(
                    AuditError::unexpected("cannot get candidates, due to a feature without condition"),
                );
            },
        };
        if all.len() == 0 {
            return self.dead_end();
        }
        let parents = match &self.dm {
            Some(dm) => dm.get_dep_parent(self.work.target),
            None => Vec::new(),
        };
        self.work.all = all;
        self.work.parents = parents;
        self.work.reqs = Vec::new();
        self.phase = Phase::ParentReqs;
        Action::Continue
    }

    /// What taking in the requirements of a parent leads to: the requirement
    /// that the parent states on the crate of the package being moved joins
    /// those collected; a parent that does not name the crate, or a
    /// requirement that cannot be read, ends the audit.
    pub open spec fn took_parent_req(self, pre: Self, list: Seq<DepReq>, action: Action) -> bool {
        self.took_parent_found(pre, looked_up(list, pre.target_name()), action)
    }

    /// The same, stated over what was found in the parent's list.
    pub open spec fn took_parent_found(
        self,
        pre: Self,
        found: Result<Option<Seq<char>>, ()>,
        action: Action,
    ) -> bool {
        match found {
            Ok(None) => self.failed(action, true, "cannot find dependency in parent package"@)
                && self.same_project(pre),
            Ok(Some(req)) => {
                &&& self.phase is ParentReqs
                &&& action is Continue
                &&& self.kept(pre)
                &&& self.work.all == pre.work.all
                &&& self.work.parents == pre.work.parents
                &&& req_views(self.work.reqs@) == req_views(pre.work.reqs@).push(req)
            },
            Err(_) => self.failed(action, true, "cannot read requirement of parent package"@)
                && self.same_project(pre),
        }
    }

    /// Takes in the requirement that a parent states.
    fn take_parent_req(&mut self, found: Result<Option<VersionReq>, ()>) -> (action: Action)
        requires
            old(self).wf(),
            old(self).phase is ParentReqs || old(self).phase is AwaitParentReq,
            old(self).work.reqs.len() < old(self).work.parents.len(),
        ensures
            final(self).wf(),
            final(self).took_parent_found(*old(self), found_view(found), action),
    {
        match found {
            Ok(Some(req)) => {
                let ghost before = req_views(self.work.reqs@);
                self.work.reqs.push(req);
                assert(req_views(self.work.reqs@) =~= before.push(req@));
                self.phase = Phase::ParentReqs;
                Action::Continue
            },
            Ok(None) => self.fail(AuditError::unexpected("cannot find dependency in parent package")),
            Err(_) => self.fail(AuditError::unexpected("cannot read requirement of parent package")),
        }
    }

    /// What the collecting of the parents' requirements leads to. While a
    /// parent is left, its requirements are taken from the table of local
    /// crates or asked of the registry. When every parent has stated its
    /// requirement, the candidates are worked out and the most restrictive
    /// parent is recorded; then, for the offender, the candidates are judged
    /// one by one; for a parent tried during the walk up, no candidate means
    /// that it cannot be moved, and else the registry is asked what the
    /// parent requires now.
    pub open spec fn after_parent_reqs(self, pre: Self, action: Action) -> bool {
        let dm = pre.dm->0;
        let target = pre.work.target as int;
        if pre.work.reqs.len() < pre.work.parents.len() {
            let p = pre.work.parents[pre.work.reqs.len() as int] as int;
            match dm.local(package_key(dm.name_of(p), dm.version_of(p))) {
                Some(list) => self.took_parent_req(pre, list, action),
                None => {
                    &&& self.phase is AwaitParentReq
                    &&& self.asking(action, dm.name_of(p), dm.version_of(p), false)
                    &&& self.kept(pre)
                    &&& self.work.same_but_asked(pre.work)
                },
            }
        } else {
            let cands = if dm.is_local_node(target) {
                Seq::<CandidateView>::empty()
            } else {
                candidates_below(pre.work.all@, req_views(pre.work.reqs@), dm.version_of(target))
            };
            &&& self.config == pre.config
            &&& self.records == pre.records
            &&& self.dm is Some
            &&& self.dm->0.dep_graph() == dm.dep_graph()
            &&& forall|key: Seq<char>| self.dm->0.local(key) == dm.local(key)
            &&& forall|node: int|
                node != target ==> #[trigger] self.dm->0.recorded(node) == dm.recorded(node)
            &&& self.dm->0.recorded(target) == if dm.is_local_node(target) || pre.work.all@.len()
                == 0 {
                dm.recorded(target)
            } else {
                match strict_parent(versions_of(pre.work.all@), req_views(pre.work.reqs@)) {
                    Some(i) => Some(pre.work.parents[i]),
                    None => dm.recorded(target),
                }
            }
            &&& if pre.stack@.len() == 0 {
                &&& self.phase is Judging
                &&& action is Continue
                &&& self.stack == pre.stack
                &&& self.dep_failure == pre.dep_failure
                &&& self.work.target == pre.work.target
                &&& self.work.cands@ == cands
                &&& self.work.judged == 0
                &&& self.work.usable@.len() == 0
            } else if cands.len() == 0 {
                &&& self.phase is Climbing
                &&& action is Continue
                &&& self.dep_failure == pre.dep_failure
                &&& self.stack@ == pre.stack@.drop_last().push(moved_on(pre.stack@.last()))
            } else {
                &&& self.phase is AwaitCurrentReq
                &&& self.asking(action, dm.name_of(target), dm.version_of(target), false)
                &&& self.stack == pre.stack
                &&& self.dep_failure == pre.dep_failure
                &&& self.work.target == pre.work.target
                &&& self.work.cands@ == cands
            }
        }
    }

    /// Goes on collecting what the parents require.
    fn on_parent_reqs(&mut self) -> (action: Action)
        requires
            old(self).wf(),
            old(self).lowering(),
            old(self).phase is ParentReqs,
        ensures
            final(self).wf(),
            final(self).lowering(),
            final(self).after_parent_reqs(*old(self), action),
    {
        if self.work.reqs.len() < self.work.parents.len() {
            let p = self.work.parents[self.work.reqs.len()];
            let dm = self.dm.take().unwrap();
            let pkg = dm.graph().package(p);
            let known = match dm.local_reqs(pkg.name.as_str(), pkg.version.as_str()) {
                Some(list) => Ok(
                    find_requirement(list, dm.graph().package(self.work.target).name.as_str()),
                ),
                None => Err((pkg.name.clone(), pkg.version.to_text())),
            };
            self.dm = Some(dm);
            assert(self.dm == old(self).dm);
            match known {
                Err((name, version)) => {
                    self.phase = Phase::AwaitParentReq;
                    self.ask(name, version)
                },
                Ok(found) => self.take_parent_req(found),
            }
        } else {
            let mut dm = self.dm.take().unwrap();
            let cands = dm.get_candidates(self.work.target, &self.work.all, &self.work.reqs);
            let name = dm.graph().package(self.work.target).name.clone();
            let version = dm.graph().package(self.work.target).version.to_text();
            self.dm = Some(dm);
            if self.stack.len() == 0 {
                self.work.cands = cands;
                self.work.judged = 0;
                self.work.usable = Vec::new();
                self.phase = Phase::Judging;
                assert(version_views(self.work.usable@) =~= Seq::<Seq<char>>::empty());
                Action::Continue
            } else if cands.len() == 0 {
                self.dead_end()
            } else {
                self.work.cands = cands;
                self.phase = Phase::AwaitCurrentReq;
                self.ask(name, version)
            }
        }
    }
}

/// What is reported when the index cannot tell what a version requires.
pub open spec fn index_failure(name: Seq<char>, version: Seq<char>, why: Seq<char>) -> Seq<char> {
    "cannot get package "@ + name + "-"@ + version + " metadata from index: "@ + why
}

/// Builds the message of an index failure.
pub fn index_message(name: &str, version: &str, why: &str) -> (r: String)
    ensures
        r@ == index_failure(name@, version@, why@),
{
    String::from_str("cannot get package ").concat(name).concat("-").concat(version).concat(
        " metadata from index: ",
    ).concat(why)
}

/// What a manifest says of a dependency: nothing, a requirement, or one that
/// cannot be read.
pub open spec fn looked_up(list: Seq<DepReq>, dep: Seq<char>) -> Result<Option<Seq<char>>, ()> {
    match requirement_on(list, dep) {
        None => Ok(None),
        Some(text) => if semver_req_valid(text) {
            Ok(Some(text))
        } else {
            Err(())
        },
    }
}

/// The text of what was found in a manifest.
pub open spec fn found_view(found: Result<Option<VersionReq>, ()>) -> Result<
    Option<Seq<char>>,
    (),
> {
    match found {
        Ok(Some(req)) => Ok(Some(req@)),
        Ok(None) => Ok(None),
        Err(_) => Err(()),
    }
}

/// The usable versions once one more candidate was judged.
pub open spec fn judged_one(usable: Seq<Seq<char>>, version: Seq<char>, ok: bool) -> Seq<Seq<char>> {
    if ok {
        usable.push(version)
    } else {
        usable
    }
}

/// The position of the version that the policy picks among the usable ones:
/// the greatest where the newer is wanted, else the least.
pub open spec fn picked(usable: Seq<Seq<char>>, newer: bool) -> int {
    if newer {
        greatest_index(usable, usable.len() as int)
    } else {
        least_index(usable, usable.len() as int)
    }
}

impl<'c> Audit<'c> {
    /// What taking in the requirement that the target states now leads to:
    /// the requirements of the candidates are collected next; a target that
    /// does not name the child, or a requirement that cannot be read, ends
    /// the audit.
    pub open spec fn took_current_found(
        self,
        pre: Self,
        found: Result<Option<Seq<char>>, ()>,
        action: Action,
    ) -> bool {
        match found {
            Ok(None) => self.failed(
                action,
                true,
                "cannot find dependency in current parent package"@,
            ) && self.same_project(pre),
            Ok(Some(req)) => {
                &&& self.phase is CandReqs
                &&& action is Continue
                &&& self.kept(pre)
                &&& self.work.cands == pre.work.cands
                &&& self.work.current_req matches Some(r)
                &&& r@ == req
                &&& self.work.cand_reqs@.len() == 0
            },
            Err(_) => self.failed(
                action,
                true,
                "cannot read requirement of current parent package"@,
            ) && self.same_project(pre),
        }
    }

    /// What taking in the requirement of a candidate leads to: it joins those
    /// collected, be it absent; one that cannot be read ends the audit.
    pub open spec fn took_cand_found(
        self,
        pre: Self,
        found: Result<Option<Seq<char>>, ()>,
        action: Action,
    ) -> bool {
        match found {
            Ok(req) => {
                &&& self.phase is CandReqs
                &&& action is Continue
                &&& self.kept(pre)
                &&& self.work.cands == pre.work.cands
                &&& self.work.current_req == pre.work.current_req
                &&& option_req_views(self.work.cand_reqs@) == option_req_views(
                    pre.work.cand_reqs@,
                ).push(req)
            },
            Err(_) => self.failed(action, true, "cannot read requirement of candidate"@)
                && self.same_project(pre),
        }
    }

    /// What the answer of the index leads to. An answer that did not come
    /// ends the audit. Where the index lists the version, its requirements
    /// are searched for the crate in question: that of the package being
    /// moved in the list of a parent, that of the child in the lists of the
    /// target and of its candidates. Where the copy on disk does not list the
    /// version, the registry itself is asked; where the registry does not
    /// either, the audit ends.
    pub open spec fn after_requirements(
        self,
        pre: Self,
        answer: Result<Option<Vec<IndexVersion>>, String>,
        action: Action,
    ) -> bool {
        match answer {
            Err(e) => self.failed(
                action,
                true,
                index_failure(pre.work.asked_name@, pre.work.asked_version@, e@),
            ) && self.same_project(pre),
            Ok(known) => match listed(known, pre.work.asked_version@) {
                None => if pre.work.remote {
                    self.failed(
                        action,
                        true,
                        index_failure(
                            pre.work.asked_name@,
                            pre.work.asked_version@,
                            "cannot find in index"@,
                        ),
                    ) && self.same_project(pre)
                } else {
                    &&& self.phase == pre.phase
                    &&& self.asking(action, pre.work.asked_name@, pre.work.asked_version@, true)
                    &&& self.kept(pre)
                    &&& self.work.same_but_asked(pre.work)
                },
                Some(list) => if pre.phase is AwaitParentReq {
                    self.took_parent_found(pre, looked_up(list, pre.target_name()), action)
                } else if pre.phase is AwaitCurrentReq {
                    self.took_current_found(pre, looked_up(list, pre.child_name()), action)
                } else {
                    self.took_cand_found(pre, looked_up(list, pre.child_name()), action)
                },
            },
        }
    }

    /// Takes in the requirement that the target states now.
    fn take_current_req(&mut self, found: Result<Option<VersionReq>, ()>) -> (action: Action)
        requires
            old(self).wf(),
            old(self).phase is AwaitCurrentReq,
        ensures
            final(self).wf(),
            final(self).took_current_found(*old(self), found_view(found), action),
    {
        match found {
            Ok(Some(req)) => {
                self.work.current_req = Some(req);
                self.work.cand_reqs = Vec::new();
                self.phase = Phase::CandReqs;
                Action::Continue
            },
            Ok(None) => self.fail(
                AuditError::unexpected("cannot find dependency in current parent package"),
            ),
            Err(_) => self.fail(
                AuditError::unexpected("cannot read requirement of current parent package"),
            ),
        }
    }

    /// Takes in the requirement that a candidate states.
    fn take_cand_req(&mut self, found: Result<Option<VersionReq>, ()>) -> (action: Action)
        requires
            old(self).wf(),
            old(self).phase is CandReqs || old(self).phase is AwaitCandReq,
            old(self).work.cand_reqs.len() < old(self).work.cands@.len(),
        ensures
            final(self).wf(),
            final(self).took_cand_found(*old(self), found_view(found), action),
    {
        match found {
            Ok(req) => {
                let ghost before = option_req_views(self.work.cand_reqs@);
                let ghost added = found_view(found)->Ok_0;
                self.work.cand_reqs.push(req);
                assert(option_req_views(self.work.cand_reqs@) =~= before.push(added));
                self.phase = Phase::CandReqs;
                Action::Continue
            },
            Err(_) => self.fail(AuditError::unexpected("cannot read requirement of candidate")),
        }
    }

    /// Takes in the answer of the index.
    fn on_requirements(&mut self, answer: Result<Option<Vec<IndexVersion>>, String>) -> (action:
        Action)
        requires
            old(self).wf(),
            old(self).phase is AwaitParentReq || old(self).phase is AwaitCurrentReq || old(
                self,
            ).phase is AwaitCandReq,
        ensures
            final(self).wf(),
            final(self).after_requirements(*old(self), answer, action),
    {
        let known = match answer {
            Ok(k) => k,
            Err(e) => {
                let message = index_message(
                    self.work.asked_name.as_str(),
                    self.work.asked_version.as_str(),
                    e.as_str(),
                );
                return self.fail(AuditError::Unexpected(message));
            },
        };
        let wanted = match &self.dm {
            Some(dm) => match self.phase {
                Phase::AwaitParentReq => dm.graph().package(self.work.target).name.clone(),
                _ => dm.graph().package(self.stack[self.stack.len() - 1].child).name.clone(),
            },
            None => String::new(),
        };
        let found = match find_listed(&known, self.work.asked_version.as_str()) {
            Some(list) => find_requirement(list, wanted.as_str()),
            None => {
                if self.work.remote {
                    let message = index_message(
                        self.work.asked_name.as_str(),
                        self.work.asked_version.as_str(),
                        "cannot find in index",
                    );
                    return self.fail(AuditError::Unexpected(message));
                }
                self.work.remote = true;
                return Action::Requirements {
                    name: self.work.asked_name.clone(),
                    version: self.work.asked_version.clone(),
                    remote: true,
                };
            },
        };
        match self.phase {
            Phase::AwaitParentReq => self.take_parent_req(found),
            Phase::AwaitCurrentReq => self.take_current_req(found),
            _ => self.take_cand_req(found),
        }
    }

    /// What the collecting of the candidates' requirements leads to. While a
    /// candidate is left, its requirements are taken from the table of local
    /// crates or asked of the registry. When every candidate has stated its
    /// requirement, those that relax what the target asks of the child are
    /// kept, and they are judged one by one.
    pub open spec fn after_cand_reqs(self, pre: Self, action: Action) -> bool {
        let dm = pre.dm->0;
        if pre.work.cand_reqs.len() < pre.work.cands@.len() {
            let v = pre.work.cands@[pre.work.cand_reqs.len() as int].0;
            match dm.local(package_key(pre.target_name(), v)) {
                Some(list) => self.took_cand_found(pre, looked_up(list, pre.child_name()), action),
                None => {
                    &&& self.phase is AwaitCandReq
                    &&& self.asking(action, pre.target_name(), v, false)
                    &&& self.kept(pre)
                    &&& self.work.same_but_asked(pre.work)
                },
            }
        } else {
            &&& self.phase is Judging
            &&& action is Continue
            &&& self.kept(pre)
            &&& self.work.cands@ == relaxing(
                pre.work.cands@,
                pre.work.current_req->0@,
                option_req_views(pre.work.cand_reqs@),
            )
            &&& self.work.judged == 0
            &&& self.work.usable@.len() == 0
        }
    }

    /// Goes on collecting what the candidates require.
    fn on_cand_reqs(&mut self) -> (action: Action)
        requires
            old(self).wf(),
            old(self).phase is CandReqs,
        ensures
            final(self).wf(),
            final(self).after_cand_reqs(*old(self), action),
    {
        if self.work.cand_reqs.len() < self.work.cands.len() {
            let dm = self.dm.take().unwrap();
            let name = &dm.graph().package(self.work.target).name;
            let version = self.work.cands.version(self.work.cand_reqs.len());
            let known = match dm.local_reqs(name.as_str(), version.as_str()) {
                Some(list) => Ok(
                    find_requirement(
                        list,
                        dm.graph().package(self.stack[self.stack.len() - 1].child).name.as_str(),
                    ),
                ),
                None => Err((name.clone(), version.to_text())),
            };
            self.dm = Some(dm);
            assert(self.dm == old(self).dm);
            match known {
                Err((name, version)) => {
                    self.phase = Phase::AwaitCandReq;
                    self.ask(name, version)
                },
                Ok(found) => self.take_cand_req(found),
            }
        } else {
            let cands = match &self.work.current_req {
                Some(req) => DepManager::get_candidates_up_fix(
                    &self.work.cands,
                    req,
                    &self.work.cand_reqs,
                ),
                None => Candidates::empty(),
            };
            proof {
                lemma_relaxing(
                    self.work.cands@,
                    self.work.current_req->0@,
                    option_req_views(self.work.cand_reqs@),
                );
                assert forall|i: int| 0 <= i < cands@.len() implies version_lt(
                    (#[trigger] cands@[i]).0,
                    self.current(),
                ) by {
                    let k = choose|k: int|
                        0 <= k < self.work.cands@.len() && self.work.cands@[k] == cands@[i];
                    assert(version_lt(self.work.cands@[k].0, self.current()));
                }
            }
            self.work.cands = cands;
            self.work.judged = 0;
            self.work.usable = Vec::new();
            self.phase = Phase::Judging;
            assert(version_views(self.work.usable@) =~= Seq::<Seq<char>>::empty());
            Action::Continue
        }
    }
}

impl<'c> Audit<'c> {
    /// What one more judged candidate leads to: the next is judged, with the
    /// candidate among the usable where its features can all be enabled.
    pub open spec fn judged_next(self, pre: Self, rufs: Seq<Seq<char>>, action: Action) -> bool {
        &&& self.phase is Judging
        &&& action is Continue
        &&& self.kept(pre)
        &&& self.work.cands == pre.work.cands
        &&& self.work.judged == pre.work.judged + 1
        &&& version_views(self.work.usable@) == judged_one(
            version_views(pre.work.usable@),
            pre.work.cands@[pre.work.judged as int].0,
            pre.config.usable(rufs),
        )
    }

    /// What the judging of the candidates leads to. A candidate that declares
    /// nothing under a condition is judged at once by the features it
    /// declares; any other is handed to the scanner with the cfg predicates
    /// recorded for the crate, and the audit ends where none are recorded or
    /// one cannot be read. When every candidate is judged, the policy picks
    /// among the usable ones, the greatest where the newer is wanted and
    /// else the least, and the package manager is asked to move the package
    /// there; with none usable the package cannot be moved.
    pub open spec fn after_judging(self, pre: Self, action: Action) -> bool {
        if pre.work.judged < pre.work.cands@.len() {
            let rufs = pre.work.cands@[pre.work.judged as int].1;
            if snippet(rufs).len() == 0 {
                self.judged_next(pre, unconditional(rufs), action)
            } else {
                match pre.config.cfgs(crate_key(pre.target_name())) {
                    None => self.failed(action, true, "no cfgs found with "@ + pre.target_name())
                        && self.same_project(pre),
                    Some(cfgs) => match scanner_arguments(cfgs) {
                        None => self.failed(
                            action,
                            true,
                            "cannot read cfgs of "@ + pre.target_name(),
                        ) && self.same_project(pre),
                        Some(arguments) => {
                            &&& self.phase is AwaitExpand
                            &&& action matches Action::Expand { crate_name, content, args }
                            &&& crate_name@ == pre.target_name()
                            &&& content@ == snippet(rufs)
                            &&& views(args@) == arguments
                            &&& self.kept(pre)
                            &&& self.work.cands == pre.work.cands
                            &&& self.work.judged == pre.work.judged
                            &&& self.work.usable == pre.work.usable
                            &&& self.work.plan_used@ == unconditional(rufs)
                        },
                    },
                }
            }
        } else {
            let usable = version_views(pre.work.usable@);
            if usable.len() == 0 {
                self.dead_ended(pre, pre.stack@, pre.work.target as int, action)
            } else {
                let choice = usable[picked(usable, pre.config.newer())];
                &&& self.phase is Updating
                &&& action matches Action::Update { name, current, target, args }
                &&& name@ == pre.target_name()
                &&& current@ == pre.current()
                &&& target@ == choice
                &&& if pre.config.newer() {
                    is_greatest(usable, choice)
                } else {
                    is_least(usable, choice)
                }
                &&& version_lt(target@, current@)
                &&& views(args@) == seq![
                    "update"@,
                    package_key(pre.target_name(), pre.current()),
                    "--precise"@,
                    choice,
                ]
                &&& self.kept(pre)
            }
        }
    }

    /// Goes on judging the candidates.
    fn on_judging(&mut self) -> (action: Action)
        requires
            old(self).wf(),
            old(self).phase is Judging,
        ensures
            final(self).wf(),
            final(self).after_judging(*old(self), action),
    {
        if self.work.judged < self.work.cands.len() {
            let plan = BuildConfig::plan_filter(self.work.cands.rufs(self.work.judged));
            if plan.content.as_str().unicode_len() == 0 {
                let ok = self.config.rufs_usable(&plan.used);
                self.judge(ok)
            } else {
                let dm = self.dm.take().unwrap();
                let crate_name = dm.graph().package(self.work.target).name.clone();
                self.dm = Some(dm);
                assert(self.dm == old(self).dm);
                let args = match self.config.get_build_cfgs(crate_name.as_str()) {
                    Some(cfgs) => scanner_args(cfgs),
                    None => {
                        return self.fault("no cfgs found with ", crate_name.as_str());
                    },
                };
                match args {
                    Some(args) => {
                        self.work.plan_used = plan.used;
                        self.phase = Phase::AwaitExpand;
                        Action::Expand { crate_name, content: plan.content, args }
                    },
                    None => self.fault("cannot read cfgs of ", crate_name.as_str()),
                }
            }
        } else {
            let choice = if self.config.is_newer_fix() {
                max_index(&self.work.usable)
            } else {
                min_index(&self.work.usable)
            };
            match choice {
                None => self.dead_end(),
                Some(i) => {
                    let dm = self.dm.take().unwrap();
                    let pkg = dm.graph().package(self.work.target);
                    let name = pkg.name.clone();
                    let current = pkg.version.to_text();
                    self.dm = Some(dm);
                    assert(self.dm == old(self).dm);
                    let target = self.work.usable[i].to_text();
                    assert(version_views(self.work.usable@)[i as int] == target@);
                    let args = DepManager::update_args(
                        name.as_str(),
                        current.as_str(),
                        target.as_str(),
                    );
                    self.phase = Phase::Updating;
                    Action::Update { name, current, target, args }
                },
            }
        }
    }

    /// Counts the candidate under judgement as judged, and as usable where
    /// `ok` says so.
    fn judge(&mut self, ok: bool) -> (action: Action)
        requires
            old(self).wf(),
            old(self).phase is Judging || old(self).phase is AwaitExpand,
            old(self).work.judged < old(self).work.cands@.len(),
        ensures
            final(self).wf(),
            final(self).phase is Judging,
            action is Continue,
            final(self).kept(*old(self)),
            final(self).work.cands == old(self).work.cands,
            final(self).work.judged == old(self).work.judged + 1,
            version_views(final(self).work.usable@) == judged_one(
                version_views(old(self).work.usable@),
                old(self).work.cands@[old(self).work.judged as int].0,
                ok,
            ),
    {
        let ghost before = version_views(self.work.usable@);
        if ok {
            let v = self.work.cands.version(self.work.judged).duplicate();
            self.work.usable.push(v);
            assert(version_views(self.work.usable@) =~= before.push(v@));
        }
        let total: usize = self.work.cands.len();
        self.work.judged = self.work.judged + 1;
        self.phase = Phase::Judging;
        Action::Continue
    }

    /// What the scan of a candidate leads to: a failed scan, or a list that
    /// cannot be read, ends the audit; else the candidate is judged by the
    /// features it declares always and those the scanner found.
    pub open spec fn after_expansion(self, pre: Self, output: CommandOutput, action: Action) -> bool {
        match filtered(pre.work.plan_used@, output) {
            Err(m) => self.failed(action, true, m) && self.same_project(pre),
            Ok(rufs) => self.judged_next(pre, rufs, action),
        }
    }

    /// Takes in the scan of a candidate.
    fn on_expanded(&mut self, output: CommandOutput) -> (action: Action)
        requires
            old(self).wf(),
            old(self).phase is AwaitExpand,
        ensures
            final(self).wf(),
            final(self).after_expansion(*old(self), output, action),
    {
        let mut used = UsedRufs::empty();
        std::mem::swap(&mut used, &mut self.work.plan_used);
        match BuildConfig::filter_rufs(used, &output) {
            Ok(rufs) => {
                let ok = self.config.rufs_usable(&rufs);
                self.judge(ok)
            },
            Err(e) => self.fail(e),
        }
    }

    /// What the move of a package leads to. A package manager that failed, a
    /// lockfile that could not be read or that is not a graph this library
    /// works on, end the audit. Else the graph is the one of the new
    /// lockfile, no most restrictive parent is recorded any more, the walk up
    /// the graph is over, and the project is looked at again.
    pub open spec fn after_update(
        self,
        pre: Self,
        output: CommandOutput,
        lock: Result<String, String>,
        action: Action,
    ) -> bool {
        if !output.success {
            self.failed(
                action,
                true,
                "cannot update dep version, execute cargo update fails: "@ + output.stderr@,
            ) && self.same_project(pre)
        } else {
            match lock {
                Err(e) => self.failed(
                    action,
                    true,
                    "cannot update dep tree, load lock file fails: "@ + e@,
                ) && self.same_project(pre),
                Ok(text) => if !lock_accepted(text@) {
                    self.refused(action, "cannot update dep tree, "@, text@) && self.same_project(
                        pre,
                    )
                } else {
                    &&& self.phase == Phase::Extracting(Stage::Recheck)
                    &&& action is Extract
                    &&& self.config == pre.config
                    &&& self.records == pre.records
                    &&& self.dep_failure == pre.dep_failure
                    &&& self.stack@.len() == 0
                    &&& self.dm matches Some(dm)
                    &&& lock_graph(text@) == Some((dm.dep_graph().nodes(), dm.dep_graph().edge_seq()))
                    &&& forall|node: int| dm.recorded(node) is None
                    &&& forall|key: Seq<char>| dm.local(key) == pre.dm->0.local(key)
                },
            }
        }
    }

    /// Takes in the move of a package.
    fn on_updated(&mut self, output: CommandOutput, lock: Result<String, String>) -> (action:
        Action)
        requires
            old(self).wf(),
            old(self).phase is Updating,
        ensures
            final(self).wf(),
            final(self).after_update(*old(self), output, lock, action),
    {
        if !output.success {
            return self.fault(
                "cannot update dep version, execute cargo update fails: ",
                output.stderr.as_str(),
            );
        }
        let text = match lock {
            Ok(t) => t,
            Err(e) => {
                return self.fault("cannot update dep tree, load lock file fails: ", e.as_str());
            },
        };
        let mut dm = self.dm.take().unwrap();
        let done = dm.update_pkg(&output, text.as_str());
        self.dm = Some(dm);
        match done {
            Err(e) => {
                assert(self.dm == old(self).dm);
                self.fail(e)
            },
            Ok(()) => {
                self.stack = Vec::new();
                self.work = Work::fresh();
                self.phase = Phase::Extracting(Stage::Recheck);
                Action::Extract
            },
        }
    }

    /// What the locking of the lowest versions leads to: a package manager
    /// that could not be started or that failed ends the audit; else the
    /// project is looked at once more.
    pub open spec fn after_regeneration(
        self,
        pre: Self,
        answer: Result<CommandOutput, String>,
        action: Action,
    ) -> bool {
        match answer {
            Err(e) => self.failed(action, true, "cannot run cargo generate-lockfile: "@ + e@)
                && self.same_project(pre),
            Ok(output) => if !output.success {
                self.failed(action, true, "failed to minimal generate-lock"@) && self.same_project(
                    pre,
                )
            } else {
                &&& self.phase == Phase::Extracting(Stage::Compiler)
                &&& action is Extract
                &&& self.same_project(pre)
                &&& self.dep_failure == pre.dep_failure
            },
        }
    }

    /// Takes in the locking of the lowest versions.
    fn on_regenerated(&mut self, answer: Result<CommandOutput, String>) -> (action: Action)
        requires
            old(self).wf(),
            old(self).phase is Regenerating,
        ensures
            final(self).wf(),
            final(self).after_regeneration(*old(self), answer, action),
    {
        match answer {
            Err(e) => self.fault("cannot run cargo generate-lockfile: ", e.as_str()),
            Ok(output) => {
                if !output.success {
                    self.fail(AuditError::unexpected("failed to minimal generate-lock"))
                } else {
                    self.phase = Phase::Extracting(Stage::Compiler);
                    Action::Extract
                }
            },
        }
    }

    /// What a step leads to: what the phase makes of the event it waits for.
    /// Any other event ends the audit.
    pub open spec fn stepped(self, pre: Self, event: Event, action: Action) -> bool {
        match (pre.phase, event) {
            (Phase::Idle, Event::Resume) => self.started(pre, action),
            (Phase::Extracting(_), Event::Extracted(answer)) => self.after_extraction(
                pre,
                answer,
                action,
            ),
            (Phase::Loading, Event::Loaded { lock, metadata }) => self.after_loading(
                pre,
                lock,
                metadata,
                action,
            ),
            (Phase::Seeking, Event::Resume) => self.sought(pre, action),
            (Phase::Versions, Event::Versions(answer)) => self.after_versions(pre, answer, action),
            (Phase::ParentReqs, Event::Resume) => self.after_parent_reqs(pre, action),
            (Phase::AwaitParentReq, Event::Requirements(answer)) => self.after_requirements(
                pre,
                answer,
                action,
            ),
            (Phase::AwaitCurrentReq, Event::Requirements(answer)) => self.after_requirements(
                pre,
                answer,
                action,
            ),
            (Phase::AwaitCandReq, Event::Requirements(answer)) => self.after_requirements(
                pre,
                answer,
                action,
            ),
            (Phase::CandReqs, Event::Resume) => self.after_cand_reqs(pre, action),
            (Phase::Judging, Event::Resume) => self.after_judging(pre, action),
            (Phase::AwaitExpand, Event::Expanded(output)) => self.after_expansion(
                pre,
                output,
                action,
            ),
            (Phase::Updating, Event::Updated { output, lock }) => self.after_update(
                pre,
                output,
                lock,
                action,
            ),
            (Phase::Climbing, Event::Resume) => self.climbed(pre, action),
            (Phase::Regenerating, Event::Regenerated(answer)) => self.after_regeneration(
                pre,
                answer,
                action,
            ),
            _ => self.failed(action, true, "unexpected event"@) && self.same_project(pre),
        }
    }

    /// Takes in what happened outside and says what to do next.
    pub fn step(&mut self, event: Event) -> (action: Action)
        requires
            old(self).wf(),
        ensures
            final(self).wf(),
            final(self).stepped(*old(self), event, action),
    {
        match (self.phase, event) {
            (Phase::Idle, Event::Resume) => self.start(),
            (Phase::Extracting(_), Event::Extracted(answer)) => self.on_extracted(answer),
            (Phase::Loading, Event::Loaded { lock, metadata }) => self.check_rufs(lock, metadata),
            (Phase::Seeking, Event::Resume) => self.fix_with_dep(),
            (Phase::Versions, Event::Versions(answer)) => self.on_versions(answer),
            (Phase::ParentReqs, Event::Resume) => self.on_parent_reqs(),
            (Phase::AwaitParentReq, Event::Requirements(answer)) => self.on_requirements(answer),
            (Phase::AwaitCurrentReq, Event::Requirements(answer)) => self.on_requirements(answer),
            (Phase::AwaitCandReq, Event::Requirements(answer)) => self.on_requirements(answer),
            (Phase::CandReqs, Event::Resume) => self.on_cand_reqs(),
            (Phase::Judging, Event::Resume) => self.on_judging(),
            (Phase::AwaitExpand, Event::Expanded(output)) => self.on_expanded(output),
            (Phase::Updating, Event::Updated { output, lock }) => self.on_updated(output, lock),
            (Phase::Climbing, Event::Resume) => self.up_fix(),
            (Phase::Regenerating, Event::Regenerated(answer)) => self.on_regenerated(answer),
            _ => self.fail(AuditError::unexpected("unexpected event")),
        }
    }
}

/// Begins an audit under the given settings: the state of the audit, and its
/// first action, which is an extraction pass.
pub fn audit<'c>(config: BuildConfig<'c>) -> (r: (Audit<'c>, Action))
    requires
        config.wf(),
    ensures
        r.0.wf(),
        r.0.phase == Phase::Extracting(Stage::Initial),
        r.1 is Extract,
        r.0.config == config,
        r.0.records@.len() == 0,
        r.0.dm is None,
        r.0.stack@.len() == 0,
        r.0.dep_failure is None,
        r.0.up_failure is None,
{
    let mut state = Audit::new(config);
    let action = state.start();
    (state, action)
}

/// An audit that ends in success leaves nothing that offends. Where the
/// first look found the project clean, every crate it saw uses only features
/// that can be enabled under the configured compiler. Where the dependency
/// tree was repaired, no package of the graph offends. Where a compiler was
/// chosen, every crate of the last pass works under it, and under no newer
/// one.
pub proof fn lemma_success_is_sound(pre: Audit, event: Event, post: Audit, action: Action)
    requires
        pre.wf(),
        post.stepped(pre, event, action),
    ensures
        action matches Action::Finish(Outcome::Clean) ==> all_usable(post.records, post.config),
        action matches Action::Finish(Outcome::Fixed) ==> forall|node: int|
            0 <= node < post.size() ==> !offends(
                post.dm->0.dep_graph(),
                post.records,
                post.config,
                node,
            ),
        action matches Action::Finish(Outcome::Rustc(v)) ==> works_under(
            post.records,
            post.config.table(),
            v as int,
        ) && forall|w: int| works_under(post.records, post.config.table(), w) ==> w <= v,
{
}

/// The package manager is only ever asked to move a package to a version
/// strictly below the one it is locked at.
pub proof fn lemma_moves_go_down(pre: Audit, event: Event, post: Audit, action: Action)
    requires
        pre.wf(),
        post.stepped(pre, event, action),
    ensures
        action matches Action::Update { name, current, target, args } ==> version_lt(
            target@,
            current@,
        ) && current@ == pre.current() && name@ == pre.target_name(),
{
}

/// After a move that went through, the graph has a single root and no cycle,
/// and no most restrictive parent is recorded.
pub proof fn lemma_move_keeps_graph(
    pre: Audit,
    output: CommandOutput,
    lock: Result<String, String>,
    post: Audit,
    action: Action,
)
    requires
        pre.wf(),
        pre.phase is Updating,
        post.wf(),
        post.stepped(pre, Event::Updated { output, lock }, action),
        action is Extract,
    ensures
        post.dm is Some,
        crate::graph::acyclic(post.size(), post.dm->0.dep_graph().edge_seq()),
        crate::graph::single_root(
            post.size(),
            post.dm->0.dep_graph().edge_seq(),
            post.dm->0.dep_graph().root_index(),
        ),
        forall|node: int| post.dm->0.recorded(node) is None,
{
    post.dm->0.lemma_graph_shape();
}

/// The walk up from the root ends at once: the root has no parent, and the
/// repair of the dependency tree is given up with a `Functionality` error.
pub proof fn lemma_root_cannot_climb(pre: Audit, post: Audit, action: Action)
    requires
        pre.dm is Some,
        post.dead_ended(pre, Seq::empty(), pre.dm->0.dep_graph().root_index(), action),
    ensures
        post.phase is Regenerating,
        post.up_failure matches Some(e) && e is Functionality && e.message()
            == "up fix failed, reaching root"@,
        post.dep_failure matches Some(d) && d is Functionality,
{
}

} // verus!
