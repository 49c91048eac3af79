//! Contract configuration, user roles and per-account statistics.

use vstd::prelude::*;

use crate::address::Address;
use crate::assoc::{
    assoc_get, lemma_assoc_get_index, lemma_assoc_get_none_iff, lemma_assoc_get_push,
    lemma_assoc_get_update, lemma_unique_push, lemma_unique_update, unique_keys,
};
use crate::fees::MintFees;

verus! {

/// The roles the registry distinguishes.
#[derive(Clone, Copy, Debug, PartialEq, Eq, Structural)]
pub enum UserRole {
    /// May mint and renew without fees, manage roles and config.
    Admin,
    /// May mint when whitelist enforcement is on.
    Whitelist,
    /// May hand out airdrop allocations.
    Airdrop,
}

impl UserRole {
    /// The access-control tag of the role.
    pub open spec fn spec_role_id(self) -> u8 {
        match self {
            UserRole::Admin => 0,
            UserRole::Whitelist => 1,
            UserRole::Airdrop => 2,
        }
    }

    /// The access-control tag of the role.
    pub fn as_role_id(&self) -> (r: u8)
        ensures
            r == self.spec_role_id(),
    {
        match self {
            UserRole::Admin => 0,
            UserRole::Whitelist => 1,
            UserRole::Airdrop => 2,
        }
    }
}

/// A registered payment asset.  The token contract and receiver are
/// optional only so that an empty value exists; a usable configuration has
/// both set on every entry.
#[derive(Clone, Copy, Debug, PartialEq, Eq, Structural)]
pub struct PayableMintInfo {
    /// The asset id payment requests are keyed by.
    pub id: u64,
    /// The token contract of the asset.
    pub token: Option<Address>,
    /// The account collecting the fees.
    pub receiver: Option<Address>,
}

/// First-match lookup of a payment asset by id.
pub open spec fn spec_payinfo_lookup(s: Seq<PayableMintInfo>, id: u64) -> Option<PayableMintInfo>
    decreases s.len(),
{
    if s.len() == 0 {
        None
    } else if s[0].id == id {
        Some(s[0])
    } else {
        spec_payinfo_lookup(s.drop_first(), id)
    }
}

/// The feature toggles, fee schedule and payment assets of the registry.
#[derive(Clone, Debug, PartialEq, Eq)]
pub struct ContractConfig {
    /// Master switch: when off, every mutating operation is rejected.
    pub contract_enabled: bool,
    /// Whether minting requires the whitelist role.
    pub whitelist_enabled: bool,
    /// Whether the per-account mint cap is enforced.
    pub mint_count_limit_enabled: bool,
    /// The per-account mint cap.
    pub mint_count_limit: u32,
    /// Minimum name length an airdrop allocation can be redeemed for.
    pub airdrop_min_domain_length: u32,
    /// The registered payment assets.
    pub payable_mint_info: Vec<PayableMintInfo>,
    /// The fee schedule.
    pub mint_fees: MintFees,
}

impl ContractConfig {
    /// The registered payment asset with the given id, if any.
    pub open spec fn spec_payable_mint_info(self, id: u64) -> Option<PayableMintInfo> {
        spec_payinfo_lookup(self.payable_mint_info@, id)
    }

    /// A usable payment configuration: at least one asset, each with its
    /// token contract and receiver set.
    pub open spec fn spec_payment_config_valid(self) -> bool {
        &&& self.payable_mint_info@.len() > 0
        &&& forall|i: int|
            0 <= i < self.payable_mint_info@.len() ==> (#[trigger] self.payable_mint_info@[i]).token
                is Some && self.payable_mint_info@[i].receiver is Some
    }

    /// The registered payment asset with the given id, if any.
    pub fn get_payable_mint_info(&self, id: u64) -> (r: Option<PayableMintInfo>)
        ensures
            r == self.spec_payable_mint_info(id),
    {
        proof {
            assert(self.payable_mint_info@.skip(0) =~= self.payable_mint_info@);
        }
        let mut i: usize = 0;
        while i < self.payable_mint_info.len()
            invariant
                i <= self.payable_mint_info@.len(),
                forall|j: int| 0 <= j < i ==> (#[trigger] self.payable_mint_info@[j]).id != id,
                self.spec_payable_mint_info(id) == spec_payinfo_lookup(
                    self.payable_mint_info@.skip(i as int),
                    id,
                ),
            decreases self.payable_mint_info@.len() - i,
        {
            let info = self.payable_mint_info[i];
            proof {
                assert(self.payable_mint_info@.skip(i as int)[0] == self.payable_mint_info@[
                i as int]);
                assert(self.payable_mint_info@.skip(i as int).drop_first()
                    =~= self.payable_mint_info@.skip(i as int + 1));
            }
            if info.id == id {
                return Some(info);
            }
            i += 1;
        }
        proof {
            assert(self.payable_mint_info@.skip(self.payable_mint_info@.len() as int).len() == 0);
        }
        None
    }

    /// Whether the payment configuration is usable.
    pub fn payment_config_valid(&self) -> (r: bool)
        ensures
            r == self.spec_payment_config_valid(),
    {
        if self.payable_mint_info.len() == 0 {
            return false;
        }
        let mut i: usize = 0;
        while i < self.payable_mint_info.len()
            invariant
                i <= self.payable_mint_info@.len(),
                forall|j: int|
                    0 <= j < i ==> (#[trigger] self.payable_mint_info@[j]).token is Some
                        && self.payable_mint_info@[j].receiver is Some,
            decreases self.payable_mint_info@.len() - i,
        {
            let info = self.payable_mint_info[i];
            if info.token.is_none() || info.receiver.is_none() {
                return false;
            }
            i += 1;
        }
        true
    }
}

/// Per-account counters of fee-gated mints.
#[derive(Clone, Debug, PartialEq, Eq)]
pub struct ContractStats {
    /// Entries `(account, mints)` with pairwise-distinct accounts.
    pub mint_count: Vec<(Address, u32)>,
}

impl ContractStats {
    /// Well-formedness: one counter per account.
    pub open spec fn wf(self) -> bool {
        unique_keys(self.mint_count@)
    }

    /// The counter of `a`: zero when no entry exists.
    pub open spec fn spec_mint_count(self, a: Address) -> u32 {
        match assoc_get(self.mint_count@, a) {
            Some(c) => c,
            None => 0,
        }
    }

    /// Empty statistics.
    pub fn new() -> (r: ContractStats)
        ensures
            r.wf(),
            forall|a: Address| #[trigger] r.spec_mint_count(a) == 0,
    {
        ContractStats { mint_count: Vec::new() }
    }

    /// The stored counter of `a`, absent when the account never minted.
    pub fn get_mint_count(&self, a: &Address) -> (r: Option<u32>)
        ensures
            r == assoc_get(self.mint_count@, *a),
    {
        let mut i: usize = 0;
        while i < self.mint_count.len()
            invariant
                i <= self.mint_count@.len(),
                forall|j: int| 0 <= j < i ==> (#[trigger] self.mint_count@[j]).0 != *a,
            decreases self.mint_count@.len() - i,
        {
            if self.mint_count[i].0 == *a {
                proof {
                    lemma_assoc_get_index(self.mint_count@, *a, i as int);
                }
                return Some(self.mint_count[i].1);
            }
            i += 1;
        }
        proof {
            lemma_assoc_get_none_iff(self.mint_count@, *a);
        }
        None
    }

    /// Adds one to the counter of `address`, saturating at the counter
    /// type's maximum.
    pub fn increase_mint_count(&mut self, address: Address)
        requires
            old(self).wf(),
        ensures
            final(self).wf(),
            final(self).spec_mint_count(address) == (if old(self).spec_mint_count(address)
                < u32::MAX {
                old(self).spec_mint_count(address) + 1
            } else {
                u32::MAX as int
            }),
            forall|b: Address|
                b != address ==> #[trigger] final(self).spec_mint_count(b) == old(
                    self,
                ).spec_mint_count(b),
    {
        let ghost s0 = self.mint_count@;
        let current = match self.get_mint_count(&address) {
            Some(c) => c,
            None => 0,
        };
        let bumped = if current < u32::MAX {
            current + 1
        } else {
            current
        };
        let mut i: usize = 0;
        while i < self.mint_count.len()
            invariant
                self.mint_count@ == s0,
                s0 == old(self).mint_count@,
                unique_keys(s0),
                current == old(self).spec_mint_count(address),
                bumped == (if current < u32::MAX {
                    current as int + 1
                } else {
                    current as int
                }),
                i <= s0.len(),
                forall|j: int| 0 <= j < i ==> (#[trigger] s0[j]).0 != address,
            decreases s0.len() - i,
        {
            if self.mint_count[i].0 == address {
                proof {
                    lemma_assoc_get_index(s0, address, i as int);
                }
                let entry = &mut self.mint_count[i];
                entry.1 = bumped;
                proof {
                    let e2 = self.mint_count@[i as int];
                    assert(self.mint_count@ =~= s0.update(i as int, e2));
                    assert forall|b: Address| true implies #[trigger] assoc_get(
                        self.mint_count@,
                        b,
                    ) == (if b == address {
                        Some(bumped)
                    } else {
                        assoc_get(s0, b)
                    }) by {
                        lemma_assoc_get_update(s0, i as int, e2, b);
                    }
                    lemma_unique_update(s0, i as int, e2);
                }
                return ;
            }
            i += 1;
        }
        proof {
            lemma_assoc_get_none_iff(s0, address);
        }
        self.mint_count.push((address, bumped));
        proof {
            assert forall|b: Address| true implies #[trigger] assoc_get(self.mint_count@, b) == (
            if assoc_get(s0, b) is Some {
                assoc_get(s0, b)
            } else if b == address {
                Some(bumped)
            } else {
                None::<u32>
            }) by {
                lemma_assoc_get_push(s0, b, address, bumped);
            }
            lemma_unique_push(s0, address, bumped);
        }
    }
}

} // verus!
