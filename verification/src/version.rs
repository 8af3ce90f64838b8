//! Versions and version requirements, as the `semver` crate reads them.
//!
//! A version and a requirement are kept as the text they were parsed from.
//! What `semver` makes of a text is not restated here: each of its answers has
//! a name, and the functions of this module are specified over those names.

use vstd::prelude::*;
use vstd::string::StringExecFns;

verus! {

/// Whether `semver::Version::parse` accepts the text.
pub uninterp spec fn semver_valid(text: Seq<char>) -> bool;

/// How `semver` orders the versions that two texts parse to: negative where
/// the first comes before the second, zero where they are equal, positive
/// where it comes after.
pub uninterp spec fn semver_order(a: Seq<char>, b: Seq<char>) -> int;

/// Whether `semver::VersionReq::parse` accepts the text.
pub uninterp spec fn semver_req_valid(text: Seq<char>) -> bool;

/// Whether the requirement that `req` parses to admits the version that
/// `version` parses to, according to `semver::VersionReq::matches`.
pub uninterp spec fn semver_matches(req: Seq<char>, version: Seq<char>) -> bool;

/// Whether two requirement texts parse to equal requirements.
pub uninterp spec fn semver_req_same(a: Seq<char>, b: Seq<char>) -> bool;

/// Calls `semver::Version::parse` and reports whether it accepted the text.
#[verifier::external_body]
fn semver_parses(text: &str) -> (r: bool)
    ensures
        r == semver_valid(text@),
{
    semver::Version::parse(text).is_ok()
}

/// Parses both texts with `semver::Version::parse` and compares the versions
/// with the order that `semver::Version` derives. The contract names the
/// outcome and states, for the pair compared, what `Ord` promises of every
/// total order: comparing the other way round gives the opposite answer, and
/// the order is transitive.
#[verifier::external_body]
fn semver_compare(a: &str, b: &str) -> (r: i8)
    requires
        semver_valid(a@),
        semver_valid(b@),
    ensures
        r == semver_order(a@, b@),
        -1 <= r <= 1,
        r == -semver_order(b@, a@),
        a@ == b@ ==> r == 0,
        forall|c: Seq<char>|
            semver_valid(c) && r <= 0 && #[trigger] semver_order(b@, c) <= 0 ==> semver_order(
                a@,
                c,
            ) <= 0,
        forall|c: Seq<char>|
            semver_valid(c) && r >= 0 && #[trigger] semver_order(b@, c) >= 0 ==> semver_order(
                a@,
                c,
            ) >= 0,
{
    let x = semver::Version::parse(a).unwrap();
    let y = semver::Version::parse(b).unwrap();
    if x < y {
        -1
    } else if x == y {
        0
    } else {
        1
    }
}

/// Calls `semver::VersionReq::parse` and reports whether it accepted the text.
#[verifier::external_body]
fn semver_req_parses(text: &str) -> (r: bool)
    ensures
        r == semver_req_valid(text@),
{
    semver::VersionReq::parse(text).is_ok()
}

/// Parses the requirement and the version and calls
/// `semver::VersionReq::matches`.
#[verifier::external_body]
fn semver_req_admits(req: &str, version: &str) -> (r: bool)
    requires
        semver_req_valid(req@),
        semver_valid(version@),
    ensures
        r == semver_matches(req@, version@),
{
    semver::VersionReq::parse(req).unwrap().matches(&semver::Version::parse(version).unwrap())
}

/// Parses both requirements and compares them with the equality that
/// `semver::VersionReq` derives.
#[verifier::external_body]
fn semver_req_equal(a: &str, b: &str) -> (r: bool)
    requires
        semver_req_valid(a@),
        semver_req_valid(b@),
    ensures
        r == semver_req_same(a@, b@),
{
    semver::VersionReq::parse(a).unwrap() == semver::VersionReq::parse(b).unwrap()
}

/// The first version comes strictly before the second.
pub open spec fn version_lt(a: Seq<char>, b: Seq<char>) -> bool {
    semver_order(a, b) < 0
}

/// The first version does not come after the second.
pub open spec fn version_le(a: Seq<char>, b: Seq<char>) -> bool {
    semver_order(a, b) <= 0
}

/// A version that `semver` accepts.
#[derive(Debug)]
pub struct Version {
    text: String,
}

impl View for Version {
    type V = Seq<char>;

    /// The text of the version.
    closed spec fn view(&self) -> Seq<char> {
        self.text@
    }
}

impl Version {
    #[verifier::type_invariant]
    closed spec fn accepted(self) -> bool {
        semver_valid(self.text@)
    }

    /// Reads a version; `None` where `semver` refuses the text.
    pub fn parse(text: &str) -> (r: Option<Version>)
        ensures
            r is Some <==> semver_valid(text@),
            r is Some ==> r->0@ == text@,
    {
        if semver_parses(text) {
            Some(Version { text: String::from_str(text) })
        } else {
            None
        }
    }

    /// The text of the version.
    pub fn as_str(&self) -> (r: &str)
        ensures
            r@ == self@,
    {
        self.text.as_str()
    }

    /// The text of the version, owned.
    pub fn to_text(&self) -> (r: String)
        ensures
            r@ == self@,
    {
        self.text.clone()
    }

    /// A copy of the version.
    pub fn duplicate(&self) -> (r: Version)
        ensures
            r@ == self@,
    {
        proof {
            use_type_invariant(self);
        }
        Version { text: self.text.clone() }
    }

    /// Whether this version comes strictly before `other`.
    pub fn less_than(&self, other: &Version) -> (r: bool)
        ensures
            r == version_lt(self@, other@),
            semver_valid(self@),
            semver_valid(other@),
    {
        proof {
            use_type_invariant(self);
            use_type_invariant(other);
        }
        semver_compare(self.text.as_str(), other.text.as_str()) < 0
    }

    /// Whether the two versions have the same text.
    pub fn same(&self, other: &Version) -> (r: bool)
        ensures
            r == (self@ == other@),
    {
        self.text == other.text
    }

    /// Does nothing; tells the caller that `semver` accepts the version.
    pub fn check(&self)
        ensures
            semver_valid(self@),
    {
        proof {
            use_type_invariant(self);
        }
    }
}

/// The texts of a list of versions.
pub open spec fn version_views(v: Seq<Version>) -> Seq<Seq<char>> {
    Seq::new(v.len(), |i: int| v[i]@)
}

/// `m` is a least member of `s`: it occurs in `s` and no other member comes before it.
pub open spec fn is_least(s: Seq<Seq<char>>, m: Seq<char>) -> bool {
    s.contains(m) && forall|i: int|
        0 <= i < s.len() ==> #[trigger] s[i] == m || version_le(m, s[i])
}

/// The first version does not come before the second.
pub open spec fn version_ge(a: Seq<char>, b: Seq<char>) -> bool {
    semver_order(a, b) >= 0
}

/// `m` is a greatest member of `s`: it occurs in `s` and no other member comes after it.
pub open spec fn is_greatest(s: Seq<Seq<char>>, m: Seq<char>) -> bool {
    s.contains(m) && forall|i: int|
        0 <= i < s.len() ==> #[trigger] s[i] == m || version_ge(m, s[i])
}

/// The position of the first least version among the first `n` of `s`: the
/// scan keeps a position until a later version comes strictly before it.
pub open spec fn least_index(s: Seq<Seq<char>>, n: int) -> int
    decreases n,
{
    if n <= 1 {
        0
    } else {
        let best = least_index(s, n - 1);
        if semver_order(s[n - 1], s[best]) < 0 {
            n - 1
        } else {
            best
        }
    }
}

/// The position of the first greatest version among the first `n` of `s`.
pub open spec fn greatest_index(s: Seq<Seq<char>>, n: int) -> int
    decreases n,
{
    if n <= 1 {
        0
    } else {
        let best = greatest_index(s, n - 1);
        if semver_order(s[n - 1], s[best]) > 0 {
            n - 1
        } else {
            best
        }
    }
}

/// The position of a least version of the list; `None` for the empty list.
pub fn min_index(versions: &Vec<Version>) -> (r: Option<usize>)
    ensures
        r is None <==> versions.len() == 0,
        r matches Some(i) ==> i < versions.len() && i == least_index(
            version_views(versions@),
            versions.len() as int,
        ) && is_least(version_views(versions@), versions[i as int]@),
{
    if versions.len() == 0 {
        return None;
    }
    let ghost s = version_views(versions@);
    let mut best: usize = 0;
    let mut i: usize = 1;
    versions[0].check();
    assert(s[0] == versions[0]@);
    while i < versions.len()
        invariant
            1 <= i <= versions.len(),
            best < i,
            best == least_index(s, i as int),
            s == version_views(versions@),
            forall|j: int| 0 <= j < i ==> semver_valid(#[trigger] s[j]),
            forall|j: int|
                0 <= j < i ==> #[trigger] s[j] == s[best as int] || version_le(s[best as int], s[j]),
        decreases versions.len() - i,
    {
        versions[i].check();
        assert(s[best as int] == versions[best as int]@);
        assert(s[i as int] == versions[i as int]@);
        let c = semver_compare(versions[i].as_str(), versions[best].as_str());
        let ghost prev = best;
        if c < 0 {
            best = i;
        }
        proof {
            assert forall|j: int| 0 <= j < i + 1 implies #[trigger] s[j] == s[best as int] || version_le(
                s[best as int],
                s[j],
            ) by {
                if j < i && s[j] != s[prev as int] {
                    assert(version_le(s[prev as int], s[j]));
                }
            }
        }
        i += 1;
    }
    assert(s[best as int] == versions[best as int]@);
    Some(best)
}

/// The position of a greatest version of the list; `None` for the empty list.
pub fn max_index(versions: &Vec<Version>) -> (r: Option<usize>)
    ensures
        r is None <==> versions.len() == 0,
        r matches Some(i) ==> i < versions.len() && i == greatest_index(
            version_views(versions@),
            versions.len() as int,
        ) && is_greatest(version_views(versions@), versions[i as int]@),
{
    if versions.len() == 0 {
        return None;
    }
    let ghost s = version_views(versions@);
    let mut best: usize = 0;
    let mut i: usize = 1;
    versions[0].check();
    assert(s[0] == versions[0]@);
    while i < versions.len()
        invariant
            1 <= i <= versions.len(),
            best < i,
            best == greatest_index(s, i as int),
            s == version_views(versions@),
            forall|j: int| 0 <= j < i ==> semver_valid(#[trigger] s[j]),
            forall|j: int|
                0 <= j < i ==> #[trigger] s[j] == s[best as int] || version_ge(s[best as int], s[j]),
        decreases versions.len() - i,
    {
        versions[i].check();
        assert(s[best as int] == versions[best as int]@);
        assert(s[i as int] == versions[i as int]@);
        let c = semver_compare(versions[i].as_str(), versions[best].as_str());
        let ghost prev = best;
        if c > 0 {
            best = i;
        }
        proof {
            assert forall|j: int| 0 <= j < i + 1 implies #[trigger] s[j] == s[best as int] || version_ge(
                s[best as int],
                s[j],
            ) by {
                if j < i && s[j] != s[prev as int] {
                    assert(version_ge(s[prev as int], s[j]));
                }
            }
        }
        i += 1;
    }
    assert(s[best as int] == versions[best as int]@);
    Some(best)
}

/// Finds the first version of the list with the given text.
pub fn version_position(versions: &Vec<Version>, text: &str) -> (r: Option<usize>)
    ensures
        match r {
            Some(i) => crate::text::first_index(version_views(versions@), text@) == Some(i as int),
            None => crate::text::first_index(version_views(versions@), text@) is None,
        },
{
    let mut i: usize = 0;
    let wanted = String::from_str(text);
    while i < versions.len()
        invariant
            i <= versions.len(),
            wanted@ == text@,
            forall|j: int| 0 <= j < i ==> version_views(versions@)[j] != text@,
        decreases versions.len() - i,
    {
        if versions[i].text == wanted {
            proof {
                crate::text::lemma_first_index_is(version_views(versions@), text@, i as int);
            }
            return Some(i);
        }
        i += 1;
    }
    proof {
        crate::text::lemma_first_index_none(version_views(versions@), text@);
    }
    None
}

/// A version requirement that `semver` accepts.
#[derive(Debug)]
pub struct VersionReq {
    text: String,
}

impl View for VersionReq {
    type V = Seq<char>;

    /// The text of the requirement.
    closed spec fn view(&self) -> Seq<char> {
        self.text@
    }
}

impl VersionReq {
    #[verifier::type_invariant]
    closed spec fn accepted(self) -> bool {
        semver_req_valid(self.text@)
    }

    /// Reads a requirement; `None` where `semver` refuses the text.
    pub fn parse(text: &str) -> (r: Option<VersionReq>)
        ensures
            r is Some <==> semver_req_valid(text@),
            r is Some ==> r->0@ == text@,
    {
        if semver_req_parses(text) {
            Some(VersionReq { text: String::from_str(text) })
        } else {
            None
        }
    }

    /// The text of the requirement.
    pub fn as_str(&self) -> (r: &str)
        ensures
            r@ == self@,
    {
        self.text.as_str()
    }

    /// A copy of the requirement.
    pub fn duplicate(&self) -> (r: VersionReq)
        ensures
            r@ == self@,
    {
        proof {
            use_type_invariant(self);
        }
        VersionReq { text: self.text.clone() }
    }

    /// Whether the requirement admits the version.
    pub fn matches(&self, version: &Version) -> (r: bool)
        ensures
            r == semver_matches(self@, version@),
    {
        proof {
            use_type_invariant(self);
        }
        version.check();
        semver_req_admits(self.text.as_str(), version.as_str())
    }

    /// Whether the two requirements are equal.
    pub fn same(&self, other: &VersionReq) -> (r: bool)
        ensures
            r == semver_req_same(self@, other@),
    {
        proof {
            use_type_invariant(self);
            use_type_invariant(other);
        }
        semver_req_equal(self.text.as_str(), other.text.as_str())
    }
}

} // verus!
