//! The settings of an audit: the toolchain, the compiler version under which
//! features are judged, the cfg predicates seen for each crate, and the
//! policies the user chose.

use vstd::prelude::*;
use vstd::string::{StrSliceExecFns, StringExecFns};
use crate::check_info::{CondRufView, CondRufs, UsedRufs};
use crate::command::CommandOutput;
use crate::error::AuditError;
use crate::status::{get_ruf_status, RufLifetimes, RUSTC_VER_NUM};
use crate::text::{find_line, first_index, first_with_prefix, join2, join3, lemma_first_index,
    lemma_first_index_push, lines_of, parse_u32, parsed_u32, position, replace_char, replaced,
    split_lines, trim, trimmed, views};
use crate::wire::{find_first, find_payloads, first_payload, list_of_json, payloads, text_of_json,
    unquote_json, used_rufs_pattern};

verus! {

/// The nightly toolchain that the scanner was built against.
pub open spec fn pinned_toolchain() -> Seq<char> {
    "nightly-2023-12-12"@
}

/// The directory of the pinned toolchain for a host.
pub open spec fn toolchain_dir(rustup_home: Seq<char>, host: Seq<char>) -> Seq<char> {
    rustup_home + "/toolchains/"@ + pinned_toolchain() + "-"@ + host
}

/// The attribute that declares `feature` only where `cond` holds.
pub open spec fn attribute_line(cond: Seq<char>, feature: Seq<char>) -> Seq<char> {
    "#![cfg_attr("@ + cond + ", feature("@ + feature + "))]\n"@
}

/// The features that a list declares without a condition, in order.
pub open spec fn unconditional(rufs: Seq<CondRufView>) -> Seq<Seq<char>>
    decreases rufs.len(),
{
    if rufs.len() == 0 {
        Seq::empty()
    } else if rufs.last().cond is None {
        unconditional(rufs.drop_last()).push(rufs.last().feature)
    } else {
        unconditional(rufs.drop_last())
    }
}

/// One attribute line for each feature that a list declares under a
/// condition, in order.
pub open spec fn attribute_lines(rufs: Seq<CondRufView>) -> Seq<char>
    decreases rufs.len(),
{
    if rufs.len() == 0 {
        Seq::empty()
    } else {
        match rufs.last().cond {
            Some(c) => attribute_lines(rufs.drop_last()) + attribute_line(c, rufs.last().feature),
            None => attribute_lines(rufs.drop_last()),
        }
    }
}

/// The source text handed to the scanner for a list of declarations: the
/// attribute lines and an empty `main`, or nothing where no declaration has a
/// condition.
pub open spec fn snippet(rufs: Seq<CondRufView>) -> Seq<char> {
    if attribute_lines(rufs).len() == 0 {
        Seq::empty()
    } else {
        attribute_lines(rufs) + "fn main(){}\n"@
    }
}

/// The key under which the cfg predicates of a crate are kept: its name with
/// every hyphen turned into an underscore.
pub open spec fn crate_key(name: Seq<char>) -> Seq<char> {
    replaced(name, '-', '_')
}

/// What has to be expanded before the features of a candidate are known.
#[derive(Debug)]
pub struct FilterPlan {
    /// The features declared without a condition.
    pub used: UsedRufs,
    /// The source text for the scanner; empty where nothing is conditional.
    pub content: String,
}

/// The settings of an audit.
#[derive(Debug)]
pub struct BuildConfig<'c> {
    host: String,
    rustup_home: String,
    cargo_home: String,
    rust_version: u32,
    cargo_args: Option<&'c [String]>,
    cfg_crates: Vec<String>,
    cfg_sets: Vec<Vec<String>>,
    lifetimes: RufLifetimes,
    quick_fix: bool,
    newer_fix: bool,
    verbose: bool,
    test: bool,
}

impl<'c> BuildConfig<'c> {
    /// The compiler version is one the table covers, the table is sound, and
    /// every crate with cfg predicates has its set.
    pub closed spec fn wf(self) -> bool {
        &&& self.rust_version < RUSTC_VER_NUM
        &&& self.lifetimes.wf()
        &&& self.cfg_crates.len() == self.cfg_sets.len()
    }

    /// The compiler version under which features are judged.
    pub closed spec fn version(self) -> int {
        self.rust_version as int
    }

    /// The table of feature lifetimes.
    pub closed spec fn table(self) -> RufLifetimes {
        self.lifetimes
    }

    /// The host triple.
    pub closed spec fn host_name(self) -> Seq<char> {
        self.host@
    }

    /// The home of the toolchain manager.
    pub closed spec fn rustup_dir(self) -> Seq<char> {
        self.rustup_home@
    }

    /// The home of the package manager.
    pub closed spec fn cargo_dir(self) -> Seq<char> {
        self.cargo_home@
    }

    /// The arguments passed through to the build tool, if any were given.
    pub closed spec fn cargo_arguments(self) -> Option<Seq<Seq<char>>> {
        match self.cargo_args {
            Some(a) => Some(views(a@)),
            None => None,
        }
    }

    /// The cfg predicates recorded under a key, if the key has any.
    pub closed spec fn cfgs(self, key: Seq<char>) -> Option<Seq<Seq<char>>> {
        match first_index(views(self.cfg_crates@), key) {
            Some(i) => Some(views(self.cfg_sets[i]@)),
            None => None,
        }
    }

    /// Whether the repair of the dependency tree is skipped.
    pub closed spec fn quick(self) -> bool {
        self.quick_fix
    }

    /// Whether a repair takes the newest usable candidate.
    pub closed spec fn newer(self) -> bool {
        self.newer_fix
    }

    /// Whether the error output of child processes is shown.
    pub closed spec fn chatty(self) -> bool {
        self.verbose
    }

    /// Whether the diagnostic run was asked for.
    pub closed spec fn testing(self) -> bool {
        self.test
    }

    /// Whether every feature of a list can be enabled under the configured
    /// compiler version.
    pub open spec fn usable(self, rufs: Seq<Seq<char>>) -> bool {
        self.table().all_usable(rufs, self.version())
    }

    /// A configuration for the given toolchain and compiler version, with no
    /// arguments for the build tool, no cfg predicates and every policy off.
    /// A compiler version that the table does not cover is refused.
    pub fn new(
        host: String,
        rustup_home: String,
        cargo_home: String,
        rust_version: u32,
        lifetimes: RufLifetimes,
    ) -> (r: Result<BuildConfig<'c>, AuditError>)
        requires
            lifetimes.wf(),
        ensures
            r is Ok <==> rust_version < RUSTC_VER_NUM,
            r matches Ok(c) ==> {
                &&& c.wf()
                &&& c.version() == rust_version
                &&& c.table() == lifetimes
                &&& c.host_name() == host@
                &&& c.rustup_dir() == rustup_home@
                &&& c.cargo_dir() == cargo_home@
                &&& c.cargo_arguments() is None
                &&& forall|key: Seq<char>| c.cfgs(key) is None
                &&& !c.quick()
                &&& !c.newer()
                &&& !c.chatty()
                &&& !c.testing()
            },
            r matches Err(e) ==> e is Unexpected && e.message()
                == "cannot build BuildConfig, rustc version not covered"@,
    {
        if rust_version >= 64 {
            return Err(AuditError::unexpected("cannot build BuildConfig, rustc version not covered"));
        }
        let c = BuildConfig {
            host,
            rustup_home,
            cargo_home,
            rust_version,
            cargo_args: None,
            cfg_crates: Vec::new(),
            cfg_sets: Vec::new(),
            lifetimes,
            quick_fix: false,
            newer_fix: false,
            verbose: false,
            test: false,
        };
        assert(views(c.cfg_crates@) =~= Seq::<Seq<char>>::empty());
        Ok(c)
    }

    /// Records the cfg predicates seen for a crate, in place of any recorded
    /// before under the same name.
    pub fn update_build_cfgs(&mut self, crate_name: String, cfgs: Vec<String>)
        requires
            old(self).wf(),
        ensures
            final(self).wf(),
            final(self).cfgs(crate_name@) == Some(views(cfgs@)),
            forall|key: Seq<char>|
                key != crate_name@ ==> #[trigger] final(self).cfgs(key) == old(self).cfgs(key),
            final(self).same_settings(*old(self)),
    {
        let ghost keys = views(self.cfg_crates@);
        proof {
            lemma_first_index(keys, crate_name@);
        }
        match position(&self.cfg_crates, crate_name.as_str()) {
            Some(i) => {
                self.cfg_sets.set(i, cfgs);
                proof {
                    assert forall|key: Seq<char>| key != crate_name@ implies #[trigger] self.cfgs(
                        key,
                    ) == old(self).cfgs(key) by {
                        lemma_first_index(keys, key);
                    }
                }
            },
            None => {
                self.cfg_crates.push(crate_name);
                self.cfg_sets.push(cfgs);
                proof {
                    assert(views(self.cfg_crates@) =~= keys.push(crate_name@));
                    lemma_first_index_push(keys, crate_name@, crate_name@);
                    assert forall|key: Seq<char>| key != crate_name@ implies #[trigger] self.cfgs(
                        key,
                    ) == old(self).cfgs(key) by {
                        lemma_first_index_push(keys, crate_name@, key);
                        lemma_first_index(keys, key);
                    }
                }
            },
        }
    }

    /// Everything but the cfg predicates is the same in both configurations.
    pub closed spec fn same_settings(self, other: Self) -> bool {
        &&& self.host == other.host
        &&& self.rustup_home == other.rustup_home
        &&& self.cargo_home == other.cargo_home
        &&& self.rust_version == other.rust_version
        &&& self.cargo_args == other.cargo_args
        &&& self.lifetimes == other.lifetimes
        &&& self.quick_fix == other.quick_fix
        &&& self.newer_fix == other.newer_fix
        &&& self.verbose == other.verbose
        &&& self.test == other.test
    }

    /// A configuration has its own settings.
    pub proof fn lemma_same_settings_refl(self)
        ensures
            self.same_settings(self),
    {
    }

    /// `same_settings` carries over from one configuration to the next.
    pub proof fn lemma_same_settings_trans(self, later: Self, earlier: Self)
        requires
            later.same_settings(self),
            self.same_settings(earlier),
        ensures
            later.same_settings(earlier),
    {
    }

    /// What `same_settings` keeps.
    pub proof fn lemma_same_settings(self, other: Self)
        requires
            self.same_settings(other),
        ensures
            self.version() == other.version(),
            self.table() == other.table(),
            self.host_name() == other.host_name(),
            self.rustup_dir() == other.rustup_dir(),
            self.cargo_dir() == other.cargo_dir(),
            self.cargo_arguments() == other.cargo_arguments(),
            self.quick() == other.quick(),
            self.newer() == other.newer(),
            self.chatty() == other.chatty(),
            self.testing() == other.testing(),
    {
    }

    /// Sets the arguments that are passed through to the build tool.
    pub fn update_cargo_args(&mut self, cargo_args: &'c [String])
        ensures
            final(self).cargo_arguments() == Some(views(cargo_args@)),
            final(self).wf() == old(self).wf(),
            final(self).version() == old(self).version(),
            final(self).table() == old(self).table(),
            final(self).host_name() == old(self).host_name(),
            final(self).rustup_dir() == old(self).rustup_dir(),
            final(self).cargo_dir() == old(self).cargo_dir(),
            final(self).quick() == old(self).quick(),
            final(self).newer() == old(self).newer(),
            final(self).chatty() == old(self).chatty(),
            final(self).testing() == old(self).testing(),
            forall|key: Seq<char>| final(self).cfgs(key) == old(self).cfgs(key),
    {
        self.cargo_args = Some(cargo_args);
    }

    /// Whether every feature of `rufs` can be enabled under the configured
    /// compiler version. The empty list can.
    pub fn rufs_usable(&self, rufs: &UsedRufs) -> (r: bool)
        requires
            self.wf(),
        ensures
            r == self.usable(rufs@),
            rufs@.len() == 0 ==> r,
    {
        let mut i: usize = 0;
        while i < rufs.len()
            invariant
                self.wf(),
                i <= rufs@.len(),
                forall|j: int|
                    0 <= j < i ==> self.lifetimes.status(
                        #[trigger] rufs@[j],
                        self.rust_version as int,
                    ).usable(),
            decreases rufs@.len() - i,
        {
            let status = get_ruf_status(&self.lifetimes, rufs.get(i).as_str(), self.rust_version);
            if !status.is_usable() {
                return false;
            }
            i += 1;
        }
        true
    }

    /// The compiler versions under which every feature of `rufs` can be
    /// enabled, from the lowest up. For the empty list these are all 64.
    pub fn usable_rustc_for_rufs(&self, rufs: &UsedRufs) -> (r: Vec<u32>)
        requires
            self.wf(),
        ensures
            forall|i: int|
                0 <= i < r.len() ==> self.table().usable_versions_for(rufs@).contains(
                    #[trigger] r[i] as int,
                ),
            forall|v: int|
                self.table().usable_versions_for(rufs@).contains(v) ==> exists|i: int|
                    0 <= i < r.len() && #[trigger] r[i] == v,
            forall|i: int, j: int| 0 <= i < j < r.len() ==> r[i] < r[j],
            rufs@.len() == 0 ==> r.len() == RUSTC_VER_NUM && forall|i: int|
                0 <= i < RUSTC_VER_NUM ==> r[i] == i,
    {
        let mut out: Vec<u32> = Vec::new();
        let mut v: u32 = 0;
        while v < 64
            invariant
                self.wf(),
                v <= 64,
                forall|i: int|
                    0 <= i < out.len() ==> #[trigger] out[i] < v && self.lifetimes.all_usable(
                        rufs@,
                        out[i] as int,
                    ),
                forall|i: int, j: int| 0 <= i < j < out.len() ==> out[i] < out[j],
                forall|w: int|
                    0 <= w < v && self.lifetimes.all_usable(rufs@, w) ==> exists|i: int|
                        0 <= i < out.len() && #[trigger] out[i] == w,
                rufs@.len() == 0 ==> out.len() == v && forall|i: int|
                    0 <= i < v ==> out[i] == i,
            decreases 64 - v,
        {
            let mut ok = true;
            let mut i: usize = 0;
            while i < rufs.len()
                invariant
                    self.wf(),
                    v < 64,
                    i <= rufs@.len(),
                    ok == forall|j: int|
                        0 <= j < i ==> self.lifetimes.status(#[trigger] rufs@[j], v as int).usable(),
                decreases rufs@.len() - i,
            {
                let status = get_ruf_status(&self.lifetimes, rufs.get(i).as_str(), v);
                if !status.is_usable() {
                    ok = false;
                }
                i += 1;
            }
            let ghost before = out@;
            if ok {
                out.push(v);
            }
            proof {
                assert forall|w: int|
                    0 <= w < v + 1 && self.lifetimes.all_usable(rufs@, w) implies exists|i: int|
                    0 <= i < out.len() && #[trigger] out[i] == w by {
                    if w < v {
                        let k = choose|k: int| 0 <= k < before.len() && #[trigger] before[k] == w;
                        assert(out[k] == w);
                    } else {
                        assert(out[out.len() - 1] == w);
                    }
                }
            }
            v += 1;
        }
        proof {
            assert forall|w: int|
                self.table().usable_versions_for(rufs@).contains(w) implies exists|i: int|
                0 <= i < out.len() && #[trigger] out[i] == w by {
                assert(self.lifetimes.all_usable(rufs@, w));
            }
        }
        out
    }

    /// The directory that holds the runtime libraries of the pinned toolchain.
    pub fn get_rustlib_path(&self) -> (r: String)
        ensures
            r@ == toolchain_dir(self.rustup_dir(), self.host_name()) + "/lib/rustlib/"@
                + self.host_name() + "/lib"@,
    {
        proof {
            reveal_strlit("nightly-2023-12-12");
        }
        self.rustup_home.clone().concat("/toolchains/").concat("nightly-2023-12-12").concat(
            "-",
        ).concat(self.host.as_str()).concat("/lib/rustlib/").concat(self.host.as_str()).concat(
            "/lib",
        )
    }

    /// The compiler of the pinned toolchain.
    pub fn get_audit_rustc_path(&self) -> (r: String)
        ensures
            r@ == toolchain_dir(self.rustup_dir(), self.host_name()) + "/bin/rustc"@,
    {
        proof {
            reveal_strlit("nightly-2023-12-12");
        }
        self.rustup_home.clone().concat("/toolchains/").concat("nightly-2023-12-12").concat(
            "-",
        ).concat(self.host.as_str()).concat("/bin/rustc")
    }

    /// The arguments passed through to the build tool, if any were given.
    pub fn get_cargo_args(&self) -> (r: Option<&[String]>)
        ensures
            match r {
                Some(a) => self.cargo_arguments() == Some(views(a@)),
                None => self.cargo_arguments() is None,
            },
    {
        self.cargo_args
    }

    /// The configured compiler version.
    pub fn get_rust_version(&self) -> (r: u32)
        ensures
            r == self.version(),
    {
        self.rust_version
    }

    /// The cfg predicates recorded for a crate, looked up under its key.
    pub fn get_build_cfgs(&self, crate_name: &str) -> (r: Option<&Vec<String>>)
        requires
            self.wf(),
        ensures
            match r {
                Some(c) => self.cfgs(crate_key(crate_name@)) == Some(views(c@)),
                None => self.cfgs(crate_key(crate_name@)) is None,
            },
    {
        let key = replace_char(crate_name, '-', '_');
        proof {
            lemma_first_index(views(self.cfg_crates@), key@);
        }
        match position(&self.cfg_crates, key.as_str()) {
            Some(i) => Some(&self.cfg_sets[i]),
            None => None,
        }
    }

    /// Chooses whether the repair of the dependency tree is skipped.
    #[inline]
    pub fn set_quick_fix(&mut self, quick_fix: bool)
        ensures
            final(self).quick() == quick_fix,
            final(self).wf() == old(self).wf(),
            final(self).version() == old(self).version(),
            final(self).table() == old(self).table(),
            final(self).host_name() == old(self).host_name(),
            final(self).rustup_dir() == old(self).rustup_dir(),
            final(self).cargo_dir() == old(self).cargo_dir(),
            final(self).cargo_arguments() == old(self).cargo_arguments(),
            final(self).newer() == old(self).newer(),
            final(self).chatty() == old(self).chatty(),
            final(self).testing() == old(self).testing(),
            forall|key: Seq<char>| final(self).cfgs(key) == old(self).cfgs(key),
    {
        self.quick_fix = quick_fix
    }

    /// Whether the repair of the dependency tree is skipped.
    #[inline]
    pub fn is_quick_fix(&self) -> (r: bool)
        ensures
            r == self.quick(),
    {
        self.quick_fix
    }

    /// Chooses whether a repair takes the newest usable candidate (`true`) or
    /// the oldest.
    #[inline]
    pub fn set_newer_fix(&mut self, newer_fix: bool)
        ensures
            final(self).newer() == newer_fix,
            final(self).wf() == old(self).wf(),
            final(self).version() == old(self).version(),
            final(self).table() == old(self).table(),
            final(self).host_name() == old(self).host_name(),
            final(self).rustup_dir() == old(self).rustup_dir(),
            final(self).cargo_dir() == old(self).cargo_dir(),
            final(self).cargo_arguments() == old(self).cargo_arguments(),
            final(self).quick() == old(self).quick(),
            final(self).chatty() == old(self).chatty(),
            final(self).testing() == old(self).testing(),
            forall|key: Seq<char>| final(self).cfgs(key) == old(self).cfgs(key),
    {
        self.newer_fix = newer_fix
    }

    /// Whether a repair takes the newest usable candidate.
    #[inline]
    pub fn is_newer_fix(&self) -> (r: bool)
        ensures
            r == self.newer(),
    {
        self.newer_fix
    }

    /// Chooses whether the error output of child processes is shown.
    #[inline]
    pub fn set_verbose(&mut self, verbose: bool)
        ensures
            final(self).chatty() == verbose,
            final(self).wf() == old(self).wf(),
            final(self).version() == old(self).version(),
            final(self).table() == old(self).table(),
            final(self).host_name() == old(self).host_name(),
            final(self).rustup_dir() == old(self).rustup_dir(),
            final(self).cargo_dir() == old(self).cargo_dir(),
            final(self).cargo_arguments() == old(self).cargo_arguments(),
            final(self).quick() == old(self).quick(),
            final(self).newer() == old(self).newer(),
            final(self).testing() == old(self).testing(),
            forall|key: Seq<char>| final(self).cfgs(key) == old(self).cfgs(key),
    {
        self.verbose = verbose
    }

    /// Whether the error output of child processes is shown.
    #[inline]
    pub fn is_verbose(&self) -> (r: bool)
        ensures
            r == self.chatty(),
    {
        self.verbose
    }

    /// Records whether the diagnostic run was asked for.
    #[inline]
    pub fn set_test(&mut self, test: bool)
        ensures
            final(self).testing() == test,
            final(self).wf() == old(self).wf(),
            final(self).version() == old(self).version(),
            final(self).table() == old(self).table(),
            final(self).host_name() == old(self).host_name(),
            final(self).rustup_dir() == old(self).rustup_dir(),
            final(self).cargo_dir() == old(self).cargo_dir(),
            final(self).cargo_arguments() == old(self).cargo_arguments(),
            final(self).quick() == old(self).quick(),
            final(self).newer() == old(self).newer(),
            final(self).chatty() == old(self).chatty(),
            forall|key: Seq<char>| final(self).cfgs(key) == old(self).cfgs(key),
    {
        self.test = test
    }

    /// Splits the declarations of a candidate into the features that hold
    /// always and the source text that the scanner has to expand.
    pub fn plan_filter(rufs: &CondRufs) -> (r: FilterPlan)
        ensures
            r.used@ == unconditional(rufs@),
            r.content@ == snippet(rufs@),
    {
        let mut content = String::new();
        let mut used = UsedRufs::empty();
        let mut i: usize = 0;
        while i < rufs.len()
            invariant
                i <= rufs@.len(),
                used@ == unconditional(rufs@.take(i as int)),
                content@ == attribute_lines(rufs@.take(i as int)),
            decreases rufs@.len() - i,
        {
            let ruf = rufs.get(i);
            proof {
                assert(rufs@.take(i + 1).drop_last() =~= rufs@.take(i as int));
                assert(rufs@.take(i + 1).last() == rufs@[i as int]);
            }
            match &ruf.cond {
                Some(cond) => {
                    content.append("#![cfg_attr(");
                    content.append(cond.as_str());
                    content.append(", feature(");
                    content.append(ruf.feature.as_str());
                    content.append("))]\n");
                    assert(content@ =~= attribute_lines(rufs@.take(i as int)) + attribute_line(
                        cond@,
                        ruf.feature@,
                    ));
                },
                None => {
                    used.push(ruf.feature.clone());
                },
            }
            i += 1;
        }
        assert(rufs@.take(rufs@.len() as int) =~= rufs@);
        if content.as_str().unicode_len() != 0 {
            content.append("fn main(){}\n");
        }
        FilterPlan { used, content }
    }
}

/// The arguments that put the cfg predicates of a crate before the scanner:
/// `--`, then `--cfg` and the predicate for each, then `-` for the source
/// text on standard input. The predicates are recorded escaped; each is read
/// back as the JSON string between two quotes. `None` where one cannot be
/// read back.
pub open spec fn scanner_arguments(cfgs: Seq<Seq<char>>) -> Option<Seq<Seq<char>>> {
    match cfg_arguments(cfgs) {
        Some(args) => Some(seq!["--"@] + args + seq!["-"@]),
        None => None,
    }
}

/// `--cfg` and the predicate, for each predicate of the list.
pub open spec fn cfg_arguments(cfgs: Seq<Seq<char>>) -> Option<Seq<Seq<char>>>
    decreases cfgs.len(),
{
    if cfgs.len() == 0 {
        Some(Seq::empty())
    } else {
        match cfg_arguments(cfgs.drop_last()) {
            None => None,
            Some(args) => match text_of_json("\""@ + cfgs.last() + "\""@) {
                None => None,
                Some(cfg) => Some(args + seq!["--cfg"@, cfg]),
            },
        }
    }
}

/// The features of a candidate once the scanner has expanded its
/// conditional declarations: those declared always, then those the scanner
/// reports in the first list it prints. A failed scan, or a list that cannot
/// be read, is an error.
pub open spec fn filtered(used: Seq<Seq<char>>, output: CommandOutput) -> Result<
    Seq<Seq<char>>,
    Seq<char>,
> {
    if !output.success {
        Err("cannot check candidate rufs: "@ + output.stderr@)
    } else {
        match payloads(used_rufs_pattern(), output.stdout@) {
            None => Err("cannot filter ruf usage"@),
            Some(p) => if p.len() == 0 {
                Ok(used)
            } else {
                match list_of_json(p[0]) {
                    None => Err("cannot filter ruf usage"@),
                    Some(more) => Ok(used + more),
                }
            },
        }
    }
}

proof fn lemma_cfg_arguments_fail(cfgs: Seq<Seq<char>>, n: int)
    requires
        0 <= n <= cfgs.len(),
        cfg_arguments(cfgs.take(n)) is None,
    ensures
        cfg_arguments(cfgs) is None,
    decreases cfgs.len() - n,
{
    if n < cfgs.len() {
        assert(cfgs.take(n + 1).drop_last() =~= cfgs.take(n));
        lemma_cfg_arguments_fail(cfgs, n + 1);
    } else {
        assert(cfgs.take(n) =~= cfgs);
    }
}

/// Builds the arguments that put the cfg predicates of a crate before the
/// scanner.
pub fn scanner_args(cfgs: &Vec<String>) -> (r: Option<Vec<String>>)
    ensures
        match r {
            Some(args) => scanner_arguments(views(cfgs@)) == Some(views(args@)),
            None => scanner_arguments(views(cfgs@)) is None,
        },
{
    let ghost cv = views(cfgs@);
    let mut args: Vec<String> = Vec::new();
    args.push("--".to_owned());
    let ghost head = views(args@);
    assert(head =~= seq!["--"@]);
    let mut i: usize = 0;
    while i < cfgs.len()
        invariant
            i <= cfgs.len(),
            cv == views(cfgs@),
            head == seq!["--"@],
            cfg_arguments(cv.take(i as int)) is Some,
            views(args@) == head + cfg_arguments(cv.take(i as int))->0,
        decreases cfgs.len() - i,
    {
        proof {
            assert(cv.take(i + 1).drop_last() =~= cv.take(i as int));
            assert(cv.take(i + 1).last() == cfgs[i as int]@);
        }
        let quoted = join3("\"", cfgs[i].as_str(), "\"");
        match unquote_json(quoted.as_str()) {
            Some(cfg) => {
                let ghost before = views(args@);
                args.push("--cfg".to_owned());
                args.push(cfg);
                assert(views(args@) =~= before + seq!["--cfg"@, cfg@]);
            },
            None => {
                proof {
                    lemma_cfg_arguments_fail(cv, i + 1);
                }
                return None;
            },
        }
        i += 1;
    }
    assert(cv.take(cfgs.len() as int) =~= cv);
    let ghost before = views(args@);
    args.push("-".to_owned());
    assert(views(args@) =~= before + seq!["-"@]);
    Some(args)
}

impl<'c> BuildConfig<'c> {
    /// The features of a candidate, given those it declares always and what
    /// the scanner printed for the conditional ones.
    pub fn filter_rufs(used: UsedRufs, output: &CommandOutput) -> (r: Result<UsedRufs, AuditError>)
        ensures
            match r {
                Ok(rufs) => filtered(used@, *output) == Ok::<Seq<Seq<char>>, Seq<char>>(rufs@),
                Err(e) => e is Unexpected && filtered(used@, *output) == Err::<
                    Seq<Seq<char>>,
                    Seq<char>,
                >(e.message()),
            },
    {
        if !output.success {
            return Err(
                AuditError::Unexpected(join2("cannot check candidate rufs: ", output.stderr.as_str())),
            );
        }
        proof {
            reveal_strlit("FDelimiter::\\{(.*?)\\}::FDelimiter");
        }
        let found = match find_payloads(
            "FDelimiter::\\{(.*?)\\}::FDelimiter",
            output.stdout.as_str(),
        ) {
            Some(p) => p,
            None => {
                return Err(AuditError::unexpected("cannot filter ruf usage"));
            },
        };
        let mut used = used;
        if found.len() == 0 {
            return Ok(used);
        }
        assert(views(found@)[0] == found[0]@);
        match UsedRufs::from_json(found[0].as_str()) {
            Some(more) => {
                let mut list: Vec<String> = Vec::new();
                let mut k: usize = 0;
                while k < more.len()
                    invariant
                        k <= more@.len(),
                        list.len() == k,
                        forall|j: int| 0 <= j < k ==> list[j]@ == more@[j],
                    decreases more@.len() - k,
                {
                    list.push(more.get(k).clone());
                    k += 1;
                }
                assert(views(list@) =~= more@);
                used.extend(list);
                Ok(used)
            },
            None => Err(AuditError::unexpected("cannot filter ruf usage")),
        }
    }

    /// Whether every feature of `rufs` can be enabled under compiler version
    /// `version`.
    pub fn rufs_usable_under(&self, rufs: &UsedRufs, version: u32) -> (r: bool)
        requires
            self.wf(),
            version < RUSTC_VER_NUM,
        ensures
            r == self.table().all_usable(rufs@, version as int),
    {
        let mut i: usize = 0;
        while i < rufs.len()
            invariant
                self.wf(),
                version < RUSTC_VER_NUM,
                i <= rufs@.len(),
                forall|j: int|
                    0 <= j < i ==> self.lifetimes.status(#[trigger] rufs@[j], version as int).usable(),
            decreases rufs@.len() - i,
        {
            let status = get_ruf_status(&self.lifetimes, rufs.get(i).as_str(), version);
            if !status.is_usable() {
                return false;
            }
            i += 1;
        }
        true
    }
}

/// The pattern that finds the minor version of the active nightly compiler
/// in the report of the toolchain manager.
pub open spec fn rustc_version_pattern() -> Seq<char> {
    "rustc\\s+1\\.(\\d+)\\.\\d+-nightly"@
}

/// The value that a line of the report states after its label of 13
/// characters, without the white space around it; `None` for a shorter line.
pub open spec fn labelled(line: Seq<char>) -> Option<Seq<char>> {
    if line.len() < 13 {
        None
    } else {
        Some(trimmed(line.subrange(13, line.len() as int)))
    }
}

/// The home of the package manager: what the environment names as such, or
/// `.cargo` in the home directory of the user.
pub open spec fn cargo_home_of(cargo_home: Option<String>, home: Option<String>) -> Option<
    Seq<char>,
> {
    match cargo_home {
        Some(c) => Some(c@),
        None => match home {
            Some(h) => Some(h@ + "/.cargo"@),
            None => None,
        },
    }
}

/// What the probing of the toolchain yields, or the reason why no
/// configuration can be built: the host, the home of the toolchain manager,
/// the home of the package manager and the minor version of the compiler.
pub open spec fn probed(
    rustup: Result<CommandOutput, String>,
    cargo_home: Option<String>,
    home: Option<String>,
) -> Result<(Seq<char>, Seq<char>, Seq<char>, u32), Seq<char>> {
    match rustup {
        Err(e) => Err("cannot build BuildConfig, fail to run rustup: "@ + e@),
        Ok(output) => if !output.success {
            Err("cannot build BuildConfig, fail to fetch rustup profiles"@)
        } else {
            let lines = lines_of(output.stdout@);
            match first_with_prefix(lines, "Default host:"@, lines.len() as int) {
                None => Err("cannot build BuildConfig, fail to fetch rustup default host"@),
                Some(host_line) => match labelled(host_line) {
                    None => Err("cannot build BuildConfig, fail to fetch rustup default host"@),
                    Some(host) => match first_with_prefix(
                        lines,
                        "rustup home:"@,
                        lines.len() as int,
                    ) {
                        None => Err("cannot build BuildConfig, fail to fetch rustup home"@),
                        Some(home_line) => match labelled(home_line) {
                            None => Err("cannot build BuildConfig, fail to fetch rustup home"@),
                            Some(rustup_home) => match cargo_home_of(cargo_home, home) {
                                None => Err("cannot build BuildConfig, fail to fetch cargo home"@),
                                Some(cargo) => match first_payload(
                                    rustc_version_pattern(),
                                    output.stdout@,
                                ) {
                                    None => Err(
                                        "cannot build BuildConfig, fail to fetch rustc version"@,
                                    ),
                                    Some(digits) => match parsed_u32(digits) {
                                        None => Err(
                                            "cannot build BuildConfig, fail to fetch rustc version"@,
                                        ),
                                        Some(v) => if v < RUSTC_VER_NUM {
                                            Ok((host, rustup_home, cargo, v))
                                        } else {
                                            Err(
                                                "cannot build BuildConfig, rustc version not covered"@,
                                            )
                                        },
                                    },
                                },
                            },
                        },
                    },
                },
            }
        },
    }
}

/// Reads the value that a line of the report states after its label.
pub fn read_labelled(line: &str) -> (r: Option<String>)
    ensures
        match r {
            Some(v) => labelled(line@) == Some(v@),
            None => labelled(line@) is None,
        },
{
    let n: usize = line.unicode_len();
    if n < 13 {
        return None;
    }
    Some(String::from_str(trim(line.substring_char(13, n))))
}

impl<'c> BuildConfig<'c> {
    /// Builds the configuration from what probing the toolchain found: the
    /// report of the toolchain manager, and the two environment variables
    /// that may name the home of the package manager. The report must state
    /// the default host, the home of the toolchain manager and a nightly
    /// compiler whose minor version the table covers.
    pub fn default(
        rustup: Result<CommandOutput, String>,
        cargo_home: Option<String>,
        home: Option<String>,
        lifetimes: RufLifetimes,
    ) -> (r: Result<BuildConfig<'c>, AuditError>)
        requires
            lifetimes.wf(),
        ensures
            match r {
                Ok(c) => {
                    &&& probed(rustup, cargo_home, home) == Ok::<
                        (Seq<char>, Seq<char>, Seq<char>, u32),
                        Seq<char>,
                    >((c.host_name(), c.rustup_dir(), c.cargo_dir(), c.version() as u32))
                    &&& c.wf()
                    &&& c.table() == lifetimes
                    &&& c.cargo_arguments() is None
                    &&& forall|key: Seq<char>| c.cfgs(key) is None
                    &&& !c.quick()
                    &&& !c.newer()
                    &&& !c.chatty()
                    &&& !c.testing()
                },
                Err(e) => e is Unexpected && probed(rustup, cargo_home, home) == Err::<
                    (Seq<char>, Seq<char>, Seq<char>, u32),
                    Seq<char>,
                >(e.message()),
            },
    {
        let output = match rustup {
            Ok(o) => o,
            Err(e) => {
                return Err(
                    AuditError::Unexpected(
                        join2("cannot build BuildConfig, fail to run rustup: ", e.as_str()),
                    ),
                );
            },
        };
        if !output.success {
            return Err(
                AuditError::unexpected("cannot build BuildConfig, fail to fetch rustup profiles"),
            );
        }
        let lines = split_lines(output.stdout.as_str());
        let host = match find_line(&lines, "Default host:") {
            Some(line) => read_labelled(line.as_str()),
            None => None,
        };
        let host = match host {
            Some(h) => h,
            None => {
                return Err(
                    AuditError::unexpected(
                        "cannot build BuildConfig, fail to fetch rustup default host",
                    ),
                );
            },
        };
        let rustup_home = match find_line(&lines, "rustup home:") {
            Some(line) => read_labelled(line.as_str()),
            None => None,
        };
        let rustup_home = match rustup_home {
            Some(h) => h,
            None => {
                return Err(
                    AuditError::unexpected("cannot build BuildConfig, fail to fetch rustup home"),
                );
            },
        };
        let cargo = match cargo_home {
            Some(c) => c,
            None => match home {
                Some(h) => h.concat("/.cargo"),
                None => {
                    return Err(
                        AuditError::unexpected("cannot build BuildConfig, fail to fetch cargo home"),
                    );
                },
            },
        };
        proof {
            reveal_strlit("rustc\\s+1\\.(\\d+)\\.\\d+-nightly");
        }
        let digits = find_first("rustc\\s+1\\.(\\d+)\\.\\d+-nightly", output.stdout.as_str());
        let version = match digits {
            Some(d) => parse_u32(d.as_str()),
            None => None,
        };
        let version = match version {
            Some(v) => v,
            None => {
                return Err(
                    AuditError::unexpected("cannot build BuildConfig, fail to fetch rustc version"),
                );
            },
        };
        BuildConfig::new(host, rustup_home, cargo, version, lifetimes)
    }
}

} // verus!
