//! What one crate declares: its unstable features, with or without a
//! condition, and the record a scan of the crate prints.

use vstd::prelude::*;
use vstd::std_specs::slice::{axiom_spec_slice_iter, into_iter_elts};
use crate::text::{copy_strings, views};

verus! {

/// An unstable feature that a crate declares, under a cfg predicate or always.
#[derive(Debug)]
pub struct CondRuf {
    pub cond: Option<String>,
    pub feature: String,
}

/// A conditional feature as plain text.
pub struct CondRufView {
    pub cond: Option<Seq<char>>,
    pub feature: Seq<char>,
}

impl View for CondRuf {
    type V = CondRufView;

    open spec fn view(&self) -> CondRufView {
        CondRufView {
            cond: match self.cond {
                Some(c) => Some(c@),
                None => None,
            },
            feature: self.feature@,
        }
    }
}

impl CondRuf {
    /// A feature declared under a condition, or always where there is none.
    pub fn new(cond: Option<String>, feature: String) -> (r: CondRuf)
        ensures
            r.cond == cond,
            r.feature == feature,
    {
        CondRuf { cond, feature }
    }

    /// A copy of the declaration.
    pub fn duplicate(&self) -> (r: CondRuf)
        ensures
            r@ == self@,
    {
        let cond = match &self.cond {
            Some(c) => Some(c.clone()),
            None => None,
        };
        CondRuf { cond, feature: self.feature.clone() }
    }
}

/// The views of a list of conditional features.
pub open spec fn cond_views(v: Seq<CondRuf>) -> Seq<CondRufView> {
    Seq::new(v.len(), |i: int| v[i]@)
}

/// The features that one version of a crate declares, in the order declared.
#[derive(Debug)]
pub struct CondRufs(Vec<CondRuf>);

impl View for CondRufs {
    type V = Seq<CondRufView>;

    closed spec fn view(&self) -> Seq<CondRufView> {
        cond_views(self.0@)
    }
}

impl CondRufs {
    /// The list of the given declarations.
    pub fn new(rufs: Vec<CondRuf>) -> (r: CondRufs)
        ensures
            r@ == cond_views(rufs@),
    {
        CondRufs(rufs)
    }

    /// The list without declarations.
    pub fn empty() -> (r: CondRufs)
        ensures
            r@ == Seq::<CondRufView>::empty(),
    {
        let r = CondRufs(Vec::new());
        assert(r@ =~= Seq::<CondRufView>::empty());
        r
    }

    /// Appends a declaration.
    pub fn push(&mut self, ruf: CondRuf)
        ensures
            final(self)@ == old(self)@.push(ruf@),
    {
        self.0.push(ruf);
        assert(self@ =~= old(self)@.push(ruf@));
    }

    /// Appends the declarations of `rufs`, in their order.
    pub fn extend(&mut self, rufs: Vec<CondRuf>)
        ensures
            final(self)@ == old(self)@ + cond_views(rufs@),
    {
        let mut rufs = rufs;
        let ghost added = cond_views(rufs@);
        self.0.append(&mut rufs);
        assert(self@ =~= old(self)@ + added);
    }

    /// The declarations, in order.
    pub fn iter(&self) -> (r: std::slice::Iter<'_, CondRuf>)
        ensures
            cond_views(into_iter_elts(r)) == self@,
    {
        broadcast use axiom_spec_slice_iter;

        let it = self.0.iter();
        assert(into_iter_elts(it) =~= self.0@);
        it
    }

    /// The declarations, in order.
    pub fn as_slice(&self) -> (r: &[CondRuf])
        ensures
            cond_views(r@) == self@,
    {
        self.0.as_slice()
    }

    /// How many declarations there are.
    pub fn len(&self) -> (r: usize)
        ensures
            r == self@.len(),
    {
        self.0.len()
    }

    /// The declaration at position `i`.
    pub fn get(&self, i: usize) -> (r: &CondRuf)
        requires
            i < self@.len(),
        ensures
            r@ == self@[i as int],
    {
        &self.0[i]
    }

    /// A copy of the list.
    pub fn duplicate(&self) -> (r: CondRufs)
        ensures
            r@ == self@,
    {
        let mut out: Vec<CondRuf> = Vec::new();
        let mut i: usize = 0;
        while i < self.0.len()
            invariant
                i <= self.0.len(),
                out.len() == i,
                forall|j: int| 0 <= j < i ==> out[j]@ == self.0[j]@,
            decreases self.0.len() - i,
        {
            out.push(self.0[i].duplicate());
            i += 1;
        }
        let r = CondRufs(out);
        assert(r@ =~= self@);
        r
    }
}

/// The unstable features that a crate uses: a list of names, read as a set.
#[derive(Debug)]
pub struct UsedRufs(Vec<String>);

impl View for UsedRufs {
    type V = Seq<Seq<char>>;

    closed spec fn view(&self) -> Seq<Seq<char>> {
        views(self.0@)
    }
}

impl UsedRufs {
    /// The list of the given names.
    pub fn new(rufs: Vec<String>) -> (r: UsedRufs)
        ensures
            r@ == views(rufs@),
    {
        UsedRufs(rufs)
    }

    /// The list without names.
    pub fn empty() -> (r: UsedRufs)
        ensures
            r@ == Seq::<Seq<char>>::empty(),
    {
        let r = UsedRufs(Vec::new());
        assert(r@ =~= Seq::<Seq<char>>::empty());
        r
    }

    /// Appends a name.
    pub fn push(&mut self, ruf: String)
        ensures
            final(self)@ == old(self)@.push(ruf@),
    {
        self.0.push(ruf);
        assert(self@ =~= old(self)@.push(ruf@));
    }

    /// Appends the names of `rufs`, in their order.
    pub fn extend(&mut self, rufs: Vec<String>)
        ensures
            final(self)@ == old(self)@ + views(rufs@),
    {
        let mut rufs = rufs;
        let ghost added = views(rufs@);
        self.0.append(&mut rufs);
        assert(self@ =~= old(self)@ + added);
    }

    /// The names, in order.
    pub fn iter(&self) -> (r: std::slice::Iter<'_, String>)
        ensures
            views(into_iter_elts(r)) == self@,
    {
        broadcast use axiom_spec_slice_iter;

        let it = self.0.iter();
        assert(into_iter_elts(it) =~= self.0@);
        it
    }

    /// The names, in order.
    pub fn as_slice(&self) -> (r: &[String])
        ensures
            views(r@) == self@,
    {
        self.0.as_slice()
    }

    /// How many names there are.
    pub fn len(&self) -> (r: usize)
        ensures
            r == self@.len(),
    {
        self.0.len()
    }

    /// The name at position `i`.
    pub fn get(&self, i: usize) -> (r: &String)
        requires
            i < self@.len(),
        ensures
            r@ == self@[i as int],
    {
        &self.0[i]
    }

    /// Adds every name of `more` that the list does not hold yet.
    pub fn absorb(&mut self, more: &[String])
        ensures
            final(self)@ == crate::text::union(old(self)@, views(more@)),
    {
        crate::text::union_into(&mut self.0, more);
    }

    /// A copy of the list.
    pub fn duplicate(&self) -> (r: UsedRufs)
        ensures
            r@ == self@,
    {
        UsedRufs(copy_strings(&self.0))
    }
}

/// What a scan of one crate reports: the crate's name, the unstable features
/// it declares and the cfg predicates in force for it.
#[derive(Debug)]
pub struct CheckInfo {
    pub crate_name: String,
    pub used_rufs: UsedRufs,
    pub cfg: Vec<String>,
}

} // verus!
