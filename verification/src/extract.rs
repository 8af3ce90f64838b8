//! What an extraction pass yields: for every crate that was compiled, the
//! unstable features it uses and the cfg predicates in force for it.

use vstd::prelude::*;
use crate::build_config::BuildConfig;
use crate::check_info::{CheckInfo, UsedRufs};
use crate::command::CommandOutput;
use crate::error::AuditError;
use crate::text::{first_index, join2, lemma_first_index, lines_of, position, split_lines,
    starts_with, trim_start, trimmed_start, union, union_into, views};
use crate::wire::{check_info_of_json, check_info_pattern, escape_default, escaped_default,
    find_payloads, payloads, CheckInfoView};

verus! {

/// What is known of one crate after an extraction pass.
pub struct RecordView {
    pub name: Seq<char>,
    pub rufs: Seq<Seq<char>>,
    pub cfgs: Seq<Seq<char>>,
}

/// The names of a list of records.
pub open spec fn record_names(records: Seq<RecordView>) -> Seq<Seq<char>> {
    Seq::new(records.len(), |i: int| records[i].name)
}

/// Each cfg predicate of a list, escaped.
pub open spec fn escaped_all(cfg: Seq<Seq<char>>) -> Seq<Seq<char>> {
    Seq::new(cfg.len(), |i: int| escaped_default(cfg[i]))
}

/// The records with one scan added: its features and cfg predicates join
/// those of the record of the same crate, or make a new record at the end.
pub open spec fn absorbed(records: Seq<RecordView>, info: CheckInfoView) -> Seq<RecordView> {
    match first_index(record_names(records), info.crate_name) {
        Some(i) => records.update(
            i,
            RecordView {
                name: info.crate_name,
                rufs: union(records[i].rufs, info.used_rufs),
                cfgs: union(records[i].cfgs, escaped_all(info.cfg)),
            },
        ),
        None => records.push(
            RecordView {
                name: info.crate_name,
                rufs: union(Seq::empty(), info.used_rufs),
                cfgs: union(Seq::empty(), escaped_all(info.cfg)),
            },
        ),
    }
}

/// The records that a list of payloads makes, one scan after the other;
/// `None` where a payload is not the JSON of a scan.
pub open spec fn merged(payloads: Seq<Seq<char>>) -> Option<Seq<RecordView>>
    decreases payloads.len(),
{
    if payloads.len() == 0 {
        Some(Seq::empty())
    } else {
        match merged(payloads.drop_last()) {
            None => None,
            Some(records) => match check_info_of_json(payloads.last()) {
                None => None,
                Some(info) => Some(absorbed(records, info)),
            },
        }
    }
}

/// The first of the first `n` lines that begins, after white space, with
/// `error`.
pub open spec fn first_error(lines: Seq<Seq<char>>, n: int) -> Option<Seq<char>>
    decreases n,
{
    if n <= 0 {
        None
    } else {
        match first_error(lines, n - 1) {
            Some(l) => Some(l),
            None => if "error"@.is_prefix_of(trimmed_start(lines[n - 1])) {
                Some(lines[n - 1])
            } else {
                None
            },
        }
    }
}

/// What is reported when the build tool fails: the first line of its error
/// output that begins with `error`, or that the error is unknown.
pub open spec fn failure_message(stderr: Seq<char>) -> Seq<char> {
    let lines = lines_of(stderr);
    "cargo failure: "@ + match first_error(lines, lines.len() as int) {
        Some(l) => l,
        None => "unknown error"@,
    }
}

/// What an extraction pass yields from the output of the build tool: the
/// failure where the tool failed or printed a record that cannot be read,
/// else the records merged by crate.
pub open spec fn extracted(output: CommandOutput) -> Result<Seq<RecordView>, Seq<char>> {
    if !output.success {
        Err(failure_message(output.stderr@))
    } else {
        match payloads(check_info_pattern(), output.stdout@) {
            None => Err("resolve check info fails"@),
            Some(p) => match merged(p) {
                None => Err("resolve check info fails"@),
                Some(records) => Ok(records),
            },
        }
    }
}

/// The crates seen by an extraction pass, each with the features it uses and
/// the cfg predicates in force for it. No crate is listed twice.
#[derive(Debug)]
pub struct Records {
    names: Vec<String>,
    rufs: Vec<UsedRufs>,
    cfgs: Vec<Vec<String>>,
}

impl View for Records {
    type V = Seq<RecordView>;

    closed spec fn view(&self) -> Seq<RecordView> {
        Seq::new(
            self.names.len() as nat,
            |i: int| RecordView { name: self.names[i]@, rufs: self.rufs[i]@, cfgs: views(self.cfgs[i]@) },
        )
    }
}

impl Records {
    /// Every crate has its features and its cfg predicates.
    pub closed spec fn wf(self) -> bool {
        self.names.len() == self.rufs.len() && self.names.len() == self.cfgs.len()
    }

    /// The features recorded for a crate, if the pass saw the crate.
    pub open spec fn rufs_of(self, name: Seq<char>) -> Option<Seq<Seq<char>>> {
        match first_index(record_names(self@), name) {
            Some(i) => Some(self@[i].rufs),
            None => None,
        }
    }

    /// No records.
    pub fn empty() -> (r: Records)
        ensures
            r.wf(),
            r@ == Seq::<RecordView>::empty(),
    {
        let r = Records { names: Vec::new(), rufs: Vec::new(), cfgs: Vec::new() };
        assert(r@ =~= Seq::<RecordView>::empty());
        r
    }

    /// How many crates were seen.
    pub fn len(&self) -> (r: usize)
        ensures
            r == self@.len(),
    {
        self.names.len()
    }

    /// The name of the crate at a position.
    pub fn name(&self, i: usize) -> (r: &String)
        requires
            i < self@.len(),
        ensures
            r@ == self@[i as int].name,
    {
        &self.names[i]
    }

    /// The features of the crate at a position.
    pub fn rufs(&self, i: usize) -> (r: &UsedRufs)
        requires
            self.wf(),
            i < self@.len(),
        ensures
            r@ == self@[i as int].rufs,
    {
        &self.rufs[i]
    }

    /// The cfg predicates of the crate at a position.
    pub fn cfgs(&self, i: usize) -> (r: &Vec<String>)
        requires
            self.wf(),
            i < self@.len(),
        ensures
            views(r@) == self@[i as int].cfgs,
    {
        &self.cfgs[i]
    }

    /// The features recorded for a crate.
    pub fn get(&self, name: &str) -> (r: Option<&UsedRufs>)
        requires
            self.wf(),
        ensures
            match r {
                Some(rufs) => self.rufs_of(name@) == Some(rufs@),
                None => self.rufs_of(name@) is None,
            },
    {
        assert(views(self.names@) =~= record_names(self@));
        proof {
            lemma_first_index(record_names(self@), name@);
        }
        match position(&self.names, name) {
            Some(i) => Some(&self.rufs[i]),
            None => None,
        }
    }

    /// Adds one scan to the records.
    pub fn absorb(&mut self, info: &CheckInfo)
        requires
            old(self).wf(),
        ensures
            final(self).wf(),
            final(self)@ == absorbed(old(self)@, info@),
    {
        assert(views(self.names@) =~= record_names(self@));
        proof {
            lemma_first_index(record_names(self@), info.crate_name@);
        }
        let mut escaped: Vec<String> = Vec::new();
        let mut k: usize = 0;
        while k < info.cfg.len()
            invariant
                k <= info.cfg.len(),
                escaped.len() == k,
                forall|j: int| 0 <= j < k ==> escaped[j]@ == escaped_default(info.cfg[j]@),
            decreases info.cfg.len() - k,
        {
            escaped.push(escape_default(info.cfg[k].as_str()));
            k += 1;
        }
        assert(views(escaped@) =~= escaped_all(views(info.cfg@)));
        match position(&self.names, info.crate_name.as_str()) {
            Some(i) => {
                let mut rufs = UsedRufs::empty();
                std::mem::swap(&mut rufs, &mut self.rufs[i]);
                rufs.absorb(info.used_rufs.as_slice());
                self.rufs.set(i, rufs);
                let mut cfgs: Vec<String> = Vec::new();
                std::mem::swap(&mut cfgs, &mut self.cfgs[i]);
                union_into(&mut cfgs, escaped.as_slice());
                self.cfgs.set(i, cfgs);
                self.names.set(i, info.crate_name.clone());
                assert(self@ =~= absorbed(old(self)@, info@));
            },
            None => {
                let mut rufs = UsedRufs::empty();
                rufs.absorb(info.used_rufs.as_slice());
                let mut cfgs: Vec<String> = Vec::new();
                assert(views(cfgs@) =~= Seq::<Seq<char>>::empty());
                union_into(&mut cfgs, escaped.as_slice());
                self.names.push(info.crate_name.clone());
                self.rufs.push(rufs);
                self.cfgs.push(cfgs);
                assert(self@ =~= absorbed(old(self)@, info@));
            },
        }
    }
}

/// Finds the first line of the error output that begins with `error`.
pub fn failure(stderr: &str) -> (r: AuditError)
    ensures
        r is Unexpected,
        r.message() == failure_message(stderr@),
{
    let lines = split_lines(stderr);
    let ghost ls = lines_of(stderr@);
    let mut i: usize = 0;
    while i < lines.len()
        invariant
            i <= lines.len(),
            ls == views(lines@),
            ls == lines_of(stderr@),
            first_error(ls, i as int) is None,
        decreases lines.len() - i,
    {
        assert(ls[i as int] == lines[i as int]@);
        if starts_with(trim_start(lines[i].as_str()), "error") {
            proof {
                lemma_first_error_found(ls, i as int, ls.len() as int);
            }
            return AuditError::Unexpected(join2("cargo failure: ", lines[i].as_str()));
        }
        i += 1;
    }
    AuditError::Unexpected(join2("cargo failure: ", "unknown error"))
}

proof fn lemma_first_error_found(lines: Seq<Seq<char>>, k: int, n: int)
    requires
        0 <= k < n <= lines.len(),
        first_error(lines, k) is None,
        "error"@.is_prefix_of(trimmed_start(lines[k])),
    ensures
        first_error(lines, n) == Some(lines[k]),
    decreases n - k,
{
    if n > k + 1 {
        lemma_first_error_found(lines, k, n - 1);
    }
}

proof fn lemma_merged_fails(payloads: Seq<Seq<char>>, n: int)
    requires
        0 <= n <= payloads.len(),
        merged(payloads.take(n)) is None,
    ensures
        merged(payloads) is None,
    decreases payloads.len() - n,
{
    if n < payloads.len() {
        assert(payloads.take(n + 1).drop_last() =~= payloads.take(n));
        lemma_merged_fails(payloads, n + 1);
    } else {
        assert(payloads.take(n) =~= payloads);
    }
}

/// Reads what the build tool printed during an extraction pass: collects the
/// records of every crate scan from its output and merges them by crate. A
/// failed run is an `Unexpected` error that carries the first error line.
pub fn read_records(output: &CommandOutput) -> (r: Result<Records, AuditError>)
    ensures
        match r {
            Ok(records) => records.wf() && extracted(*output) == Ok::<
                Seq<RecordView>,
                Seq<char>,
            >(records@),
            Err(e) => e is Unexpected && extracted(*output) == Err::<Seq<RecordView>, Seq<char>>(
                e.message(),
            ),
        },
{
    if !output.success {
        return Err(failure(output.stderr.as_str()));
    }
    proof {
        reveal_strlit("CDelimiter::\\{(.*?)\\}::CDelimiter");
    }
    let found = match find_payloads("CDelimiter::\\{(.*?)\\}::CDelimiter", output.stdout.as_str()) {
        Some(p) => p,
        None => {
            return Err(AuditError::unexpected("resolve check info fails"));
        },
    };
    let ghost ps = views(found@);
    let mut records = Records::empty();
    let mut i: usize = 0;
    while i < found.len()
        invariant
            i <= found.len(),
            ps == views(found@),
            output.success,
            payloads(check_info_pattern(), output.stdout@) == Some(ps),
            records.wf(),
            merged(ps.take(i as int)) == Some(records@),
        decreases found.len() - i,
    {
        proof {
            assert(ps.take(i + 1).drop_last() =~= ps.take(i as int));
            assert(ps.take(i + 1).last() == found[i as int]@);
        }
        match CheckInfo::from_json(found[i].as_str()) {
            Some(info) => {
                records.absorb(&info);
            },
            None => {
                proof {
                    lemma_merged_fails(ps, i + 1);
                }
                return Err(AuditError::unexpected("resolve check info fails"));
            },
        }
        i += 1;
    }
    assert(ps.take(found.len() as int) =~= ps);
    Ok(records)
}

/// Records in the configuration the cfg predicates that a pass saw for each
/// crate, in place of what was recorded for the crate before.
pub fn record_cfgs(config: &mut BuildConfig, records: &Records)
    requires
        old(config).wf(),
        records.wf(),
    ensures
        final(config).wf(),
        final(config).same_settings(*old(config)),
        forall|key: Seq<char>| #[trigger]
            final(config).cfgs(key) == cfgs_after(old(config).cfgs(key), records@, records@.len() as int, key),
        forall|i: int| 0 <= i < records@.len() ==> final(config).cfgs((#[trigger] records@[i]).name) is Some,
{
    let mut i: usize = 0;
    proof {
        config.lemma_same_settings_refl();
    }
    while i < records.len()
        invariant
            i <= records@.len(),
            records.wf(),
            config.wf(),
            config.same_settings(*old(config)),
            forall|key: Seq<char>| #[trigger]
                config.cfgs(key) == cfgs_after(old(config).cfgs(key), records@, i as int, key),
        decreases records@.len() - i,
    {
        let ghost before = *config;
        let mut cfgs: Vec<String> = Vec::new();
        let list = records.cfgs(i);
        let mut k: usize = 0;
        while k < list.len()
            invariant
                k <= list.len(),
                cfgs.len() == k,
                forall|j: int| 0 <= j < k ==> cfgs[j]@ == list[j]@,
            decreases list.len() - k,
        {
            cfgs.push(list[k].clone());
            k += 1;
        }
        assert(views(cfgs@) =~= views(list@));
        config.update_build_cfgs(records.name(i).clone(), cfgs);
        proof {
            before.lemma_same_settings_trans(*config, *old(config));
            assert forall|key: Seq<char>| #[trigger]
                config.cfgs(key) == cfgs_after(old(config).cfgs(key), records@, i + 1, key) by {
                if key != records@[i as int].name {
                    assert(config.cfgs(key) == before.cfgs(key));
                }
            }
        }
        i += 1;
    }
    proof {
        assert forall|i: int| 0 <= i < records@.len() implies config.cfgs(
            (#[trigger] records@[i]).name,
        ) is Some by {
            lemma_cfgs_after_listed(
                old(config).cfgs(records@[i].name),
                records@,
                records@.len() as int,
                i,
            );
        }
    }
}

/// A crate among the first `n` records has cfg predicates recorded after they
/// were taken in.
pub proof fn lemma_cfgs_after_listed(
    start: Option<Seq<Seq<char>>>,
    records: Seq<RecordView>,
    n: int,
    i: int,
)
    requires
        0 <= i < n <= records.len(),
    ensures
        cfgs_after(start, records, n, records[i].name) is Some,
    decreases n,
{
    if records[n - 1].name != records[i].name {
        lemma_cfgs_after_listed(start, records, n - 1, i);
    }
}

/// The cfg predicates recorded under a key after the first `n` records were
/// taken in: those of the last of them with that name, else what was there.
pub open spec fn cfgs_after(
    start: Option<Seq<Seq<char>>>,
    records: Seq<RecordView>,
    n: int,
    key: Seq<char>,
) -> Option<Seq<Seq<char>>>
    decreases n,
{
    if n <= 0 {
        start
    } else if records[n - 1].name == key {
        Some(records[n - 1].cfgs)
    } else {
        cfgs_after(start, records, n - 1, key)
    }
}

/// Takes in an extraction pass: reads the records that the build tool
/// printed, records in the configuration the cfg predicates seen for each
/// crate, and returns what each crate uses. Where the pass failed, the
/// configuration stays as it was.
pub fn extract(config: &mut BuildConfig, output: &CommandOutput) -> (r: Result<Records, AuditError>)
    requires
        old(config).wf(),
    ensures
        final(config).wf(),
        match r {
            Ok(records) => {
                &&& records.wf()
                &&& extracted(*output) == Ok::<Seq<RecordView>, Seq<char>>(records@)
                &&& final(config).same_settings(*old(config))
                &&& forall|key: Seq<char>| #[trigger]
                    final(config).cfgs(key) == cfgs_after(
                        old(config).cfgs(key),
                        records@,
                        records@.len() as int,
                        key,
                    )
                &&& forall|i: int|
                    0 <= i < records@.len() ==> final(config).cfgs(
                        (#[trigger] records@[i]).name,
                    ) is Some
            },
            Err(e) => e is Unexpected && extracted(*output) == Err::<Seq<RecordView>, Seq<char>>(
                e.message(),
            ) && *final(config) == *old(config),
        },
{
    let records = match read_records(output) {
        Ok(r) => r,
        Err(e) => {
            return Err(e);
        },
    };
    record_cfgs(config, &records);
    Ok(records)
}

} // verus!
