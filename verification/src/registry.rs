//! What the registry says of a crate: its published versions with the
//! features each declares, and the dependency requirements of a version.

use vstd::prelude::*;
use vstd::string::StrSliceExecFns;
use crate::check_info::{CondRuf, CondRufView, CondRufs};
use crate::text::{first_index, lemma_first_index};
use crate::version::{semver_req_valid, semver_valid, version_position, version_views, Version,
    VersionReq};

verus! {

/// One row of the metadata service: the text of a version, and one feature
/// that the version declares with its condition. A version that declares
/// nothing has a row without a feature.
#[derive(Debug)]
pub struct VersionRow {
    pub num: String,
    pub cond: Option<String>,
    pub feature: Option<String>,
}

/// A row as plain text.
pub struct RowView {
    pub num: Seq<char>,
    pub cond: Option<Seq<char>>,
    pub feature: Option<Seq<char>>,
}

impl View for VersionRow {
    type V = RowView;

    open spec fn view(&self) -> RowView {
        RowView {
            num: self.num@,
            cond: match self.cond {
                Some(c) => Some(c@),
                None => None,
            },
            feature: match self.feature {
                Some(f) => Some(f@),
                None => None,
            },
        }
    }
}

/// The views of a list of rows.
pub open spec fn row_views(rows: Seq<VersionRow>) -> Seq<RowView> {
    Seq::new(rows.len(), |i: int| rows[i]@)
}

/// A published version with the features it declares, as plain text.
pub type CandidateView = (Seq<char>, Seq<CondRufView>);

/// The versions of a list of candidates.
pub open spec fn versions_of(c: Seq<CandidateView>) -> Seq<Seq<char>> {
    Seq::new(c.len(), |i: int| c[i].0)
}

/// The declaration that a row with a feature and a condition stands for: an
/// empty condition means that the feature is declared always.
pub open spec fn row_ruf(cond: Seq<char>, feature: Seq<char>) -> CondRufView {
    CondRufView {
        cond: if cond.len() == 0 {
            None
        } else {
            Some(cond)
        },
        feature,
    }
}

/// Adds a declaration to the candidate with the given version, or a new
/// candidate at the end where the version is not yet listed.
pub open spec fn with_ruf(c: Seq<CandidateView>, version: Seq<char>, ruf: CondRufView) -> Seq<
    CandidateView,
> {
    match first_index(versions_of(c), version) {
        Some(i) => c.update(i, (version, c[i].1.push(ruf))),
        None => c.push((version, seq![ruf])),
    }
}

/// Lists a version, with no declaration, where it is not yet listed.
pub open spec fn with_version(c: Seq<CandidateView>, version: Seq<char>) -> Seq<CandidateView> {
    match first_index(versions_of(c), version) {
        Some(_) => c,
        None => c.push((version, Seq::empty())),
    }
}

/// The candidates that a list of rows describes, or `None` where a row
/// names a feature of a version that `semver` accepts but has no condition
/// column. A row without a feature lists its version; rows of a version that
/// `semver` refuses add nothing.
pub open spec fn grouped(rows: Seq<RowView>) -> Option<Seq<CandidateView>>
    decreases rows.len(),
{
    if rows.len() == 0 {
        Some(Seq::empty())
    } else {
        match grouped(rows.drop_last()) {
            None => None,
            Some(c) => {
                let row = rows.last();
                if !semver_valid(row.num) {
                    Some(c)
                } else {
                    match row.feature {
                        None => Some(with_version(c, row.num)),
                        Some(f) => match row.cond {
                            None => None,
                            Some(cond) => Some(with_ruf(c, row.num, row_ruf(cond, f))),
                        },
                    }
                }
            },
        }
    }
}

/// The published versions of a crate, each with the features it declares.
/// No version is listed twice.
#[derive(Debug)]
pub struct Candidates {
    versions: Vec<Version>,
    rufs: Vec<CondRufs>,
}

impl View for Candidates {
    type V = Seq<CandidateView>;

    closed spec fn view(&self) -> Seq<CandidateView> {
        Seq::new(self.versions.len() as nat, |i: int| (self.versions[i]@, self.rufs[i]@))
    }
}

impl Candidates {
    /// Every version has its list of features.
    pub closed spec fn wf(self) -> bool {
        self.versions.len() == self.rufs.len()
    }

    /// No candidates.
    pub fn empty() -> (r: Candidates)
        ensures
            r.wf(),
            r@ == Seq::<CandidateView>::empty(),
    {
        let r = Candidates { versions: Vec::new(), rufs: Vec::new() };
        assert(r@ =~= Seq::<CandidateView>::empty());
        r
    }

    /// How many candidates there are.
    pub fn len(&self) -> (r: usize)
        ensures
            r == self@.len(),
    {
        self.versions.len()
    }

    /// The version of the candidate at a position.
    pub fn version(&self, i: usize) -> (r: &Version)
        requires
            i < self@.len(),
        ensures
            r@ == self@[i as int].0,
    {
        &self.versions[i]
    }

    /// The features of the candidate at a position.
    pub fn rufs(&self, i: usize) -> (r: &CondRufs)
        requires
            self.wf(),
            i < self@.len(),
        ensures
            r@ == self@[i as int].1,
    {
        &self.rufs[i]
    }

    /// The versions of the candidates, in order.
    pub fn versions(&self) -> (r: &Vec<Version>)
        ensures
            version_views(r@) == versions_of(self@),
    {
        assert(version_views(self.versions@) =~= versions_of(self@));
        &self.versions
    }

    /// Adds a candidate at the end.
    pub fn push(&mut self, version: Version, rufs: CondRufs)
        requires
            old(self).wf(),
        ensures
            final(self).wf(),
            final(self)@ == old(self)@.push((version@, rufs@)),
    {
        self.versions.push(version);
        self.rufs.push(rufs);
        assert(self@ =~= old(self)@.push((version@, rufs@)));
    }

    /// Adds a declaration to the candidate with the given version, or a new
    /// candidate at the end where the version is not yet listed.
    pub fn add_ruf(&mut self, version: Version, ruf: CondRuf)
        requires
            old(self).wf(),
        ensures
            final(self).wf(),
            final(self)@ == with_ruf(old(self)@, version@, ruf@),
    {
        assert(version_views(self.versions@) =~= versions_of(self@));
        proof {
            lemma_first_index(versions_of(self@), version@);
        }
        match version_position(&self.versions, version.as_str()) {
            Some(i) => {
                let mut list = CondRufs::empty();
                std::mem::swap(&mut list, &mut self.rufs[i]);
                list.push(ruf);
                self.rufs.set(i, list);
                assert(self@ =~= with_ruf(old(self)@, version@, ruf@));
            },
            None => {
                let mut list = CondRufs::empty();
                list.push(ruf);
                self.versions.push(version);
                self.rufs.push(list);
                assert(list@ =~= seq![ruf@]);
                assert(self@ =~= with_ruf(old(self)@, version@, ruf@));
            },
        }
    }

    /// Lists a version, with no declaration, where it is not yet listed.
    pub fn add_version(&mut self, version: Version)
        requires
            old(self).wf(),
        ensures
            final(self).wf(),
            final(self)@ == with_version(old(self)@, version@),
    {
        assert(version_views(self.versions@) =~= versions_of(self@));
        proof {
            lemma_first_index(versions_of(self@), version@);
        }
        match version_position(&self.versions, version.as_str()) {
            Some(_) => {},
            None => {
                let list = CondRufs::empty();
                self.versions.push(version);
                self.rufs.push(list);
                assert(self@ =~= with_version(old(self)@, version@));
            },
        }
    }

    /// Groups the rows of the metadata service by version.
    pub fn group_rows(rows: &Vec<VersionRow>) -> (r: Option<Candidates>)
        ensures
            match r {
                Some(c) => c.wf() && grouped(row_views(rows@)) == Some(c@),
                None => grouped(row_views(rows@)) is None,
            },
    {
        let ghost all = row_views(rows@);
        let mut out = Candidates::empty();
        let mut i: usize = 0;
        while i < rows.len()
            invariant
                i <= rows.len(),
                all == row_views(rows@),
                out.wf(),
                grouped(all.take(i as int)) == Some(out@),
            decreases rows.len() - i,
        {
            proof {
                assert(all.take(i + 1).drop_last() =~= all.take(i as int));
                assert(all.take(i + 1).last() == rows[i as int]@);
            }
            let row = &rows[i];
            match Version::parse(row.num.as_str()) {
                Some(version) => {
                    match &row.feature {
                        Some(feature) => {
                            match &row.cond {
                                Some(cond) => {
                                    let c = if cond.as_str().unicode_len() == 0 {
                                        None
                                    } else {
                                        Some(cond.clone())
                                    };
                                    out.add_ruf(version, CondRuf::new(c, feature.clone()));
                                },
                                None => {
                                    proof {
                                        lemma_grouped_fails(all, i + 1);
                                    }
                                    return None;
                                },
                            }
                        },
                        None => {
                            out.add_version(version);
                        },
                    }
                },
                None => {},
            }
            i += 1;
        }
        assert(all.take(rows.len() as int) =~= all);
        Some(out)
    }
}

/// Once a prefix of the rows cannot be grouped, neither can the whole.
proof fn lemma_grouped_fails(rows: Seq<RowView>, n: int)
    requires
        0 <= n <= rows.len(),
        grouped(rows.take(n)) is None,
    ensures
        grouped(rows) is None,
    decreases rows.len() - n,
{
    if n < rows.len() {
        assert(rows.take(n + 1).drop_last() =~= rows.take(n));
        lemma_grouped_fails(rows, n + 1);
    } else {
        assert(rows.take(n) =~= rows);
    }
}

/// The requirement that a manifest states on one of its dependencies.
#[derive(Debug)]
pub struct DepReq {
    pub name: String,
    pub req: String,
}

/// The names of a list of requirements.
pub open spec fn req_names(reqs: Seq<DepReq>) -> Seq<Seq<char>> {
    Seq::new(reqs.len(), |i: int| reqs[i].name@)
}

/// The requirement that the first entry named `dep` states, where there is
/// such an entry.
pub open spec fn requirement_on(reqs: Seq<DepReq>, dep: Seq<char>) -> Option<Seq<char>> {
    match first_index(req_names(reqs), dep) {
        Some(i) => Some(reqs[i].req@),
        None => None,
    }
}

/// Finds what a manifest requires of the dependency `dep`: the requirement of
/// the first entry of that name. `Ok(None)` where no entry has the name,
/// `Err` where `semver` refuses the requirement's text.
pub fn find_requirement(reqs: &Vec<DepReq>, dep: &str) -> (r: Result<Option<VersionReq>, ()>)
    ensures
        match requirement_on(reqs@, dep@) {
            None => r == Ok::<Option<VersionReq>, ()>(None),
            Some(text) => if semver_req_valid(text) {
                r matches Ok(Some(req)) && req@ == text
            } else {
                r is Err
            },
        },
{
    let mut i: usize = 0;
    let wanted = dep.to_owned();
    while i < reqs.len()
        invariant
            i <= reqs.len(),
            wanted@ == dep@,
            forall|j: int| 0 <= j < i ==> req_names(reqs@)[j] != dep@,
        decreases reqs.len() - i,
    {
        if reqs[i].name == wanted {
            proof {
                crate::text::lemma_first_index_is(req_names(reqs@), dep@, i as int);
            }
            return match VersionReq::parse(reqs[i].req.as_str()) {
                Some(req) => Ok(Some(req)),
                None => Err(()),
            };
        }
        i += 1;
    }
    proof {
        crate::text::lemma_first_index_none(req_names(reqs@), dep@);
    }
    Ok(None)
}

/// What the index of the registry holds for one version of a crate.
#[derive(Debug)]
pub struct IndexVersion {
    pub version: String,
    pub dependencies: Vec<DepReq>,
}

/// The version texts of a list of index entries.
pub open spec fn index_versions(entries: Seq<IndexVersion>) -> Seq<Seq<char>> {
    Seq::new(entries.len(), |i: int| entries[i].version@)
}

/// The requirements that the index lists for a version of a crate: those of
/// the first entry with that version. `None` where the index does not know
/// the crate or lists no such version.
pub open spec fn listed(known: Option<Vec<IndexVersion>>, version: Seq<char>) -> Option<
    Seq<DepReq>,
> {
    match known {
        None => None,
        Some(entries) => match first_index(index_versions(entries@), version) {
            Some(i) => Some(entries[i].dependencies@),
            None => None,
        },
    }
}

/// Finds the entry of a version among what the index holds for a crate.
pub fn find_listed<'a>(known: &'a Option<Vec<IndexVersion>>, version: &str) -> (r: Option<
    &'a Vec<DepReq>,
>)
    ensures
        match r {
            Some(list) => listed(*known, version@) == Some(list@),
            None => listed(*known, version@) is None,
        },
{
    match known {
        None => None,
        Some(entries) => {
            let wanted = version.to_owned();
            let mut i: usize = 0;
            while i < entries.len()
                invariant
                    i <= entries.len(),
                    *known == Some(*entries),
                    wanted@ == version@,
                    forall|j: int| 0 <= j < i ==> index_versions(entries@)[j] != version@,
                decreases entries.len() - i,
            {
                if entries[i].version == wanted {
                    proof {
                        crate::text::lemma_first_index_is(
                            index_versions(entries@),
                            version@,
                            i as int,
                        );
                    }
                    return Some(&entries[i].dependencies);
                }
                i += 1;
            }
            proof {
                crate::text::lemma_first_index_none(index_versions(entries@), version@);
            }
            None
        },
    }
}

} // verus!
