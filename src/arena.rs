use vstd::prelude::*;

verus! {

/// The identity reserved for "not yet assigned".
pub const SENTINEL: usize = 1;

/// The first identity that an allocator hands out.
pub const FIRST_ID: usize = 2;

/// An opaque handle to one mounted tree position. Never zero.
#[derive(Clone, Copy, Debug, PartialEq, Eq, Structural, PartialOrd, Ord, Hash)]
pub struct ElementId(pub usize);

impl Default for ElementId {
    /// The unassigned identity.
    fn default() -> (r: ElementId)
        ensures
            r.0 == SENTINEL,
    {
        ElementId(SENTINEL)
    }
}

/// Monotonic identity allocator.
pub struct Arena {
    counter: usize,
}

impl Arena {
    #[verifier::type_invariant]
    spec fn inv(&self) -> bool {
        self.counter >= FIRST_ID
    }

    /// The identity that the next call of `next` returns.
    pub closed spec fn next_value(&self) -> nat {
        self.counter as nat
    }

    /// Hands out the current counter value and advances the counter by one.
    pub fn next(&mut self) -> (r: ElementId)
        requires
            old(self).next_value() < usize::MAX,
        ensures
            r.0 == old(self).next_value(),
            r.0 >= FIRST_ID,
            final(self).next_value() == old(self).next_value() + 1,
    {
        proof { use_type_invariant(&*self); }
        let id = self.counter;
        self.counter = self.counter + 1;
        ElementId(id)
    }
}

impl Default for Arena {
    /// A fresh allocator, whose first identity is the first non-sentinel value.
    fn default() -> (r: Arena)
        ensures
            r.next_value() == FIRST_ID,
    {
        Arena { counter: FIRST_ID }
    }
}

/// Consecutive calls of `next` on a fresh allocator: `states[k]` is the
/// allocator before call `k`, `ids[k]` what that call returned. The identities
/// are strictly increasing, hence distinct, and start at the first
/// non-sentinel value.
pub proof fn lemma_consecutive_ids(states: Seq<Arena>, ids: Seq<ElementId>)
    requires
        states.len() == ids.len() + 1,
        states[0].next_value() == FIRST_ID,
        forall|k: int|
            0 <= k < ids.len() ==> {
                &&& (#[trigger] ids[k]).0 == states[k].next_value()
                &&& states[k + 1].next_value() == states[k].next_value() + 1
            },
    ensures
        forall|k: int| 0 <= k < ids.len() ==> (#[trigger] ids[k]).0 == FIRST_ID + k,
        forall|a: int, b: int| 0 <= a < b < ids.len() ==> (#[trigger] ids[a]).0 < (#[trigger] ids[b]).0,
    decreases ids.len(),
{
    if ids.len() > 0 {
        let n = ids.len() - 1;
        lemma_consecutive_ids(states.take(n + 1), ids.take(n));
        assert forall|k: int| 0 <= k < ids.len() implies (#[trigger] ids[k]).0 == FIRST_ID + k by {
            if k < n {
                assert(ids.take(n)[k] == ids[k]);
            } else if n > 0 {
                assert(ids.take(n)[n - 1] == ids[n - 1]);
                assert(ids[n - 1].0 == states[n - 1].next_value());
            }
        }
    }
}

} // verus!
