//! The status of an unstable feature under each compiler version.

use vstd::prelude::*;
use crate::text::{first_index, lemma_first_index, lemma_first_index_push, position, views};

verus! {

/// How many compiler versions the table covers: the minor versions 0 to 63.
pub const RUSTC_VER_NUM: usize = 64;

/// What a compiler version makes of a feature name.
#[derive(Clone, Copy, Debug, PartialEq, Eq, Structural)]
pub enum RufStatus {
    Unknown,
    Active,
    Incomplete,
    Accepted,
    Removed,
}

impl RufStatus {
    /// A feature can be enabled where it is active, incomplete or accepted.
    pub open spec fn usable(self) -> bool {
        self is Active || self is Incomplete || self is Accepted
    }

    /// The status a table code stands for.
    pub open spec fn of_code(code: int) -> Option<RufStatus> {
        if code == 0 {
            Some(RufStatus::Unknown)
        } else if code == 1 {
            Some(RufStatus::Active)
        } else if code == 2 {
            Some(RufStatus::Incomplete)
        } else if code == 3 {
            Some(RufStatus::Accepted)
        } else if code == 4 {
            Some(RufStatus::Removed)
        } else {
            None
        }
    }

    /// The code that stands for a status in a table.
    pub open spec fn code_of(self) -> int {
        match self {
            RufStatus::Unknown => 0,
            RufStatus::Active => 1,
            RufStatus::Incomplete => 2,
            RufStatus::Accepted => 3,
            RufStatus::Removed => 4,
        }
    }

    /// Whether a feature of this status can be enabled.
    pub fn is_usable(&self) -> (r: bool)
        ensures
            r == self.usable(),
    {
        match self {
            RufStatus::Removed | RufStatus::Unknown => false,
            _ => true,
        }
    }

    /// Reads a table code; codes above 4 stand for nothing.
    pub fn from_code(code: u32) -> (r: Option<RufStatus>)
        ensures
            r == Self::of_code(code as int),
    {
        if code == 0 {
            Some(RufStatus::Unknown)
        } else if code == 1 {
            Some(RufStatus::Active)
        } else if code == 2 {
            Some(RufStatus::Incomplete)
        } else if code == 3 {
            Some(RufStatus::Accepted)
        } else if code == 4 {
            Some(RufStatus::Removed)
        } else {
            None
        }
    }

    /// The status that a word of the feature list stands for; the empty word
    /// stands for the unknown status.
    pub open spec fn of_name(name: Seq<char>) -> Option<RufStatus> {
        if name == "active"@ {
            Some(RufStatus::Active)
        } else if name == "incomplete"@ {
            Some(RufStatus::Incomplete)
        } else if name == "accepted"@ {
            Some(RufStatus::Accepted)
        } else if name == "removed"@ {
            Some(RufStatus::Removed)
        } else if name == ""@ {
            Some(RufStatus::Unknown)
        } else {
            None
        }
    }

    /// Reads a word of the feature list; other words stand for nothing.
    pub fn from_name(name: &str) -> (r: Option<RufStatus>)
        ensures
            r == Self::of_name(name@),
    {
        let word = name.to_owned();
        if word == "active".to_owned() {
            Some(RufStatus::Active)
        } else if word == "incomplete".to_owned() {
            Some(RufStatus::Incomplete)
        } else if word == "accepted".to_owned() {
            Some(RufStatus::Accepted)
        } else if word == "removed".to_owned() {
            Some(RufStatus::Removed)
        } else if word == "".to_owned() {
            Some(RufStatus::Unknown)
        } else {
            None
        }
    }

    /// The table code of a status.
    pub fn code(&self) -> (r: u8)
        ensures
            r == self.code_of(),
            Self::of_code(r as int) == Some(*self),
    {
        match self {
            RufStatus::Unknown => 0,
            RufStatus::Active => 1,
            RufStatus::Incomplete => 2,
            RufStatus::Accepted => 3,
            RufStatus::Removed => 4,
        }
    }
}

/// The status of one code of a table row; a code that stands for nothing
/// reads as unknown.
pub open spec fn status_of_code(code: u8) -> RufStatus {
    match RufStatus::of_code(code as int) {
        Some(s) => s,
        None => RufStatus::Unknown,
    }
}

/// The table of feature lifetimes: for each known feature name, its status
/// under each of the 64 compiler versions.
#[derive(Debug)]
pub struct RufLifetimes {
    names: Vec<String>,
    rows: Vec<Vec<u8>>,
}

impl RufLifetimes {
    /// Every name has a row, and every row one valid code per compiler version.
    pub closed spec fn wf(self) -> bool {
        &&& self.names.len() == self.rows.len()
        &&& forall|i: int|
            0 <= i < self.rows.len() ==> (#[trigger] self.rows[i]).len() == RUSTC_VER_NUM
        &&& forall|i: int, v: int|
            0 <= i < self.rows.len() && 0 <= v < RUSTC_VER_NUM ==> RufStatus::of_code(
                #[trigger] self.rows[i][v] as int,
            ) is Some
    }

    /// Whether the table knows the feature.
    pub closed spec fn knows(self, name: Seq<char>) -> bool {
        first_index(views(self.names@), name) is Some
    }

    /// The status of a feature under a compiler version: unknown for a name
    /// the table does not hold, whatever the version.
    pub closed spec fn status(self, name: Seq<char>, version: int) -> RufStatus {
        match first_index(views(self.names@), name) {
            Some(i) => status_of_code(self.rows[i][version]),
            None => RufStatus::Unknown,
        }
    }

    /// The compiler versions under which a feature can be enabled.
    pub open spec fn usable_versions(self, name: Seq<char>) -> Set<int> {
        Set::new(|v: int| 0 <= v < RUSTC_VER_NUM && self.status(name, v).usable())
    }

    /// The compiler versions under which every feature of a list can be enabled.
    pub open spec fn usable_versions_for(self, rufs: Seq<Seq<char>>) -> Set<int> {
        Set::new(
            |v: int|
                0 <= v < RUSTC_VER_NUM && forall|i: int|
                    0 <= i < rufs.len() ==> self.status(#[trigger] rufs[i], v).usable(),
        )
    }

    /// Whether every feature of a list can be enabled under a compiler version.
    pub open spec fn all_usable(self, rufs: Seq<Seq<char>>, version: int) -> bool {
        forall|i: int| 0 <= i < rufs.len() ==> self.status(#[trigger] rufs[i], version).usable()
    }

    /// A feature that the table does not hold is unknown under every
    /// compiler version, and can be enabled under none.
    pub proof fn lemma_unknown_feature(self, name: Seq<char>, version: int)
        requires
            !self.knows(name),
        ensures
            self.status(name, version) == RufStatus::Unknown,
            !self.status(name, version).usable(),
            !self.usable_versions(name).contains(version),
    {
    }

    /// The empty list of features can be enabled under every compiler
    /// version: the versions under which it can are 0 to 63.
    pub proof fn lemma_no_features(self)
        ensures
            forall|v: int| self.all_usable(Seq::<Seq<char>>::empty(), v),
            self.usable_versions_for(Seq::<Seq<char>>::empty()) == Set::new(
                |v: int| 0 <= v < RUSTC_VER_NUM,
            ),
    {
        assert(self.usable_versions_for(Seq::<Seq<char>>::empty()) =~= Set::new(
            |v: int| 0 <= v < RUSTC_VER_NUM,
        ));
    }

    /// A list of features can be enabled under a compiler version exactly
    /// where each of them can.
    pub proof fn lemma_usable_versions(self, rufs: Seq<Seq<char>>, version: int)
        ensures
            self.usable_versions_for(rufs).contains(version) <==> 0 <= version < RUSTC_VER_NUM
                && forall|i: int|
                0 <= i < rufs.len() ==> self.usable_versions(#[trigger] rufs[i]).contains(version),
    {
        if 0 <= version < RUSTC_VER_NUM {
            if self.usable_versions_for(rufs).contains(version) {
                assert forall|i: int| 0 <= i < rufs.len() implies self.usable_versions(
                    #[trigger] rufs[i],
                ).contains(version) by {
                    assert(self.status(rufs[i], version).usable());
                }
            }
            if forall|i: int|
                0 <= i < rufs.len() ==> self.usable_versions(#[trigger] rufs[i]).contains(version) {
                assert forall|i: int| 0 <= i < rufs.len() implies self.status(
                    #[trigger] rufs[i],
                    version,
                ).usable() by {
                    assert(self.usable_versions(rufs[i]).contains(version));
                }
            }
        }
    }

    /// A table that knows no feature.
    pub fn empty() -> (r: RufLifetimes)
        ensures
            r.wf(),
            forall|name: Seq<char>| !r.knows(name),
    {
        let r = RufLifetimes { names: Vec::new(), rows: Vec::new() };
        assert(views(r.names@) =~= Seq::<Seq<char>>::empty());
        r
    }

    /// Adds a feature with its 64 codes. A row of another length, a code above
    /// 4 or a name the table already knows is refused and changes nothing.
    pub fn insert(&mut self, name: String, codes: Vec<u8>) -> (r: bool)
        requires
            old(self).wf(),
        ensures
            final(self).wf(),
            r == (codes.len() == RUSTC_VER_NUM && !old(self).knows(name@) && forall|v: int|
                0 <= v < codes.len() ==> RufStatus::of_code(codes[v] as int) is Some),
            !r ==> *final(self) == *old(self),
            r ==> final(self).knows(name@) && forall|v: int|
                0 <= v < RUSTC_VER_NUM ==> final(self).status(name@, v) == status_of_code(
                    codes[v],
                ),
            r ==> forall|other: Seq<char>|
                other != name@ ==> #[trigger] final(self).knows(other) == old(self).knows(other),
            r ==> forall|other: Seq<char>, v: int|
                other != name@ ==> #[trigger] final(self).status(other, v) == old(self).status(
                    other,
                    v,
                ),
    {
        if codes.len() != RUSTC_VER_NUM {
            return false;
        }
        let mut v: usize = 0;
        while v < codes.len()
            invariant
                v <= codes.len(),
                *self == *old(self),
                self.wf(),
                forall|w: int| 0 <= w < v ==> RufStatus::of_code(codes[w] as int) is Some,
            decreases codes.len() - v,
        {
            if codes[v] > 4 {
                return false;
            }
            v += 1;
        }
        if position(&self.names, name.as_str()).is_some() {
            return false;
        }
        let ghost before = views(self.names@);
        let ghost old_rows = self.rows@;
        self.names.push(name);
        self.rows.push(codes);
        proof {
            let after = views(self.names@);
            assert(after =~= before.push(name@));
            lemma_first_index(before, name@);
            lemma_first_index_push(before, name@, name@);
            assert forall|i: int| 0 <= i < self.rows.len() implies (#[trigger] self.rows[i]).len()
                == RUSTC_VER_NUM by {
                if i < old_rows.len() {
                    assert(self.rows[i] == old_rows[i]);
                }
            }
            assert forall|i: int, w: int|
                0 <= i < self.rows.len() && 0 <= w < RUSTC_VER_NUM implies RufStatus::of_code(
                #[trigger] self.rows[i][w] as int,
            ) is Some by {
                if i < old_rows.len() {
                    assert(self.rows[i] == old_rows[i]);
                }
            }
            assert forall|other: Seq<char>| other != name@ implies #[trigger] self.knows(other)
                == old(self).knows(other) by {
                lemma_first_index_push(before, name@, other);
            }
            assert forall|other: Seq<char>, w: int| other != name@ implies #[trigger] self.status(
                other,
                w,
            ) == old(self).status(other, w) by {
                lemma_first_index_push(before, name@, other);
                lemma_first_index(before, other);
                match first_index(before, other) {
                    Some(i) => {
                        assert(self.rows[i] == old_rows[i]);
                    },
                    None => {},
                }
            }
        }
        true
    }
}

/// The status of feature `ruf_name` under compiler version `rustc_ver`.
pub fn get_ruf_status(table: &RufLifetimes, ruf_name: &str, rustc_ver: u32) -> (r: RufStatus)
    requires
        table.wf(),
        table.knows(ruf_name@) ==> rustc_ver < RUSTC_VER_NUM,
    ensures
        r == table.status(ruf_name@, rustc_ver as int),
        !table.knows(ruf_name@) ==> r == RufStatus::Unknown,
{
    match position(&table.names, ruf_name) {
        Some(i) => {
            proof {
                lemma_first_index(views(table.names@), ruf_name@);
            }
            let code: u8 = table.rows[i][rustc_ver as usize];
            match RufStatus::from_code(code as u32) {
                Some(s) => s,
                None => RufStatus::Unknown,
            }
        },
        None => RufStatus::Unknown,
    }
}

/// The status of feature `ruf_name` under every compiler version, in order;
/// empty where the table does not know the feature.
pub fn get_ruf_all_status(table: &RufLifetimes, ruf_name: &str) -> (r: Vec<RufStatus>)
    requires
        table.wf(),
    ensures
        table.knows(ruf_name@) ==> r.len() == RUSTC_VER_NUM && forall|v: int|
            0 <= v < RUSTC_VER_NUM ==> r[v] == table.status(ruf_name@, v),
        !table.knows(ruf_name@) ==> r.len() == 0,
{
    match position(&table.names, ruf_name) {
        Some(i) => {
            proof {
                lemma_first_index(views(table.names@), ruf_name@);
            }
            let mut res: Vec<RufStatus> = Vec::new();
            let mut v: usize = 0;
            while v < RUSTC_VER_NUM
                invariant
                    v <= RUSTC_VER_NUM,
                    table.wf(),
                    i < table.rows.len(),
                    first_index(views(table.names@), ruf_name@) == Some(i as int),
                    res.len() == v,
                    forall|w: int| 0 <= w < v ==> res[w] == table.status(ruf_name@, w),
                decreases RUSTC_VER_NUM - v,
            {
                let code: u8 = table.rows[i][v];
                let s = match RufStatus::from_code(code as u32) {
                    Some(s) => s,
                    None => RufStatus::Unknown,
                };
                res.push(s);
                v += 1;
            }
            res
        },
        None => Vec::new(),
    }
}

} // verus!
