//! The accumulated output of an investigation: validator identities found
//! culpable, deduplicated and ordered by identity.

use vstd::prelude::*;
use crate::ordset::{strictly_sorted, insert_sorted, ids_contain};

verus! {

/// Accumulator with set semantics over validator identities.  The backing
/// vector is kept strictly increasing, so the set of members pins the whole
/// value down and iteration order is deterministic.
#[derive(Clone, Debug, PartialEq, Eq)]
pub struct CulpritSet {
    pub ids: Vec<u64>,
}

impl View for CulpritSet {
    type V = Seq<u64>;

    open spec fn view(&self) -> Seq<u64> {
        self.ids@
    }
}

impl CulpritSet {
    /// The backing vector is strictly increasing.
    pub open spec fn wf(self) -> bool {
        strictly_sorted(self@)
    }

    pub fn new() -> (c: CulpritSet)
        ensures
            c.wf(),
            c@ == Seq::<u64>::empty(),
    {
        CulpritSet { ids: Vec::new() }
    }

    /// Record one culprit; recording a known culprit changes nothing.
    pub fn insert(&mut self, validator: u64)
        requires
            old(self).wf(),
        ensures
            final(self).wf(),
            final(self)@.to_set() == old(self)@.to_set().insert(validator),
    {
        insert_sorted(&mut self.ids, validator);
    }

    /// Whether a validator has been recorded as culpable.
    pub fn contains(&self, validator: u64) -> (b: bool)
        ensures
            b == self@.contains(validator),
    {
        ids_contain(&self.ids, validator)
    }

    pub fn len(&self) -> (n: usize)
        ensures
            n == self@.len(),
    {
        self.ids.len()
    }

    /// An owned copy of the current set, taken when an investigation
    /// concludes and its output is archived.
    pub fn snapshot(&self) -> (c: CulpritSet)
        ensures
            c@ == self@,
    {
        CulpritSet { ids: self.finalize() }
    }

    /// The immutable, identity-ordered output handed to the punitive
    /// collaborator.
    pub fn finalize(&self) -> (out: Vec<u64>)
        ensures
            out@ == self@,
    {
        let mut out: Vec<u64> = Vec::new();
        let mut k: usize = 0;
        while k < self.ids.len()
            invariant
                k <= self.ids@.len(),
                out@ == self.ids@.take(k as int),
            decreases self.ids@.len() - k,
        {
            out.push(self.ids[k]);
            proof {
                assert(out@ =~= self.ids@.take(k as int + 1));
            }
            k += 1;
        }
        proof {
            assert(out@ =~= self.ids@);
        }
        out
    }
}

} // verus!
