//! One-time airdrop allocations: per-account flags consumed on use.

use vstd::prelude::*;

use crate::access_control::contains_address;
use crate::address::Address;
use crate::assoc::{distinct, lemma_distinct_remove};

verus! {

/// The accounts holding an unredeemed airdrop allocation.
#[derive(Clone, Debug, PartialEq, Eq)]
pub struct AirdropState {
    /// The allocation holders, pairwise distinct.
    pub airdrops: Vec<Address>,
}

impl AirdropState {
    /// Well-formedness: at most one allocation per account.
    pub open spec fn wf(self) -> bool {
        distinct(self.airdrops@)
    }

    /// Whether `a` holds an unredeemed allocation.
    pub open spec fn spec_has_airdrop(self, a: Address) -> bool {
        self.airdrops@.contains(a)
    }

    /// No allocations.
    pub fn new() -> (r: AirdropState)
        ensures
            r.wf(),
            forall|a: Address| !#[trigger] r.spec_has_airdrop(a),
    {
        AirdropState { airdrops: Vec::new() }
    }

    /// Whether `a` holds an unredeemed allocation.
    pub fn has_airdrop(&self, a: &Address) -> (r: bool)
        ensures
            r == self.spec_has_airdrop(*a),
    {
        contains_address(&self.airdrops, a)
    }

    /// Gives `a` an allocation.  Idempotent: an account holds at most one.
    pub fn add_airdrop(&mut self, a: &Address)
        requires
            old(self).wf(),
        ensures
            final(self).wf(),
            final(self).spec_has_airdrop(*a),
            forall|b: Address|
                b != *a ==> #[trigger] final(self).spec_has_airdrop(b) == old(
                    self,
                ).spec_has_airdrop(b),
    {
        let ghost s0 = self.airdrops@;
        if !contains_address(&self.airdrops, a) {
            self.airdrops.push(*a);
            proof {
                assert forall|b: Address| #[trigger] self.airdrops@.contains(b) <==> (s0.contains(
                    b,
                ) || b == *a) by {
                    vstd::seq_lib::lemma_seq_contains_after_push(s0, *a, b);
                }
                assert forall|i: int, j: int|
                    0 <= i < j < self.airdrops@.len() implies self.airdrops@[i]
                    != self.airdrops@[j] by {
                    if j == s0.len() {
                        if s0[i] == *a {
                            assert(s0.contains(*a));
                        }
                    }
                }
            }
        }
    }

    /// Consumes the allocation of `a`, if any.
    pub fn redeem_airdrop(&mut self, a: &Address)
        requires
            old(self).wf(),
        ensures
            final(self).wf(),
            !final(self).spec_has_airdrop(*a),
            forall|b: Address|
                b != *a ==> #[trigger] final(self).spec_has_airdrop(b) == old(
                    self,
                ).spec_has_airdrop(b),
    {
        let ghost s0 = self.airdrops@;
        let mut i: usize = 0;
        while i < self.airdrops.len()
            invariant
                self.airdrops@ == s0,
                s0 == old(self).airdrops@,
                distinct(s0),
                i <= s0.len(),
                forall|j: int| 0 <= j < i ==> s0[j] != *a,
            decreases s0.len() - i,
        {
            if self.airdrops[i] == *a {
                self.airdrops.remove(i);
                proof {
                    lemma_distinct_remove(s0, i as int);
                    assert(self.airdrops@ == s0.remove(i as int));
                    assert forall|b: Address|
                        b != *a implies #[trigger] self.airdrops@.contains(b) == s0.contains(
                        b,
                    ) by {
                        assert(s0.remove(i as int).contains(b) <==> (s0.contains(b) && b != s0[
                        i as int]));
                    }
                }
                return ;
            }
            i += 1;
        }
    }
}

} // verus!
