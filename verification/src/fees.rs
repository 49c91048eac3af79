//! The fee schedule: a per-year fee keyed by domain-name length.
//!
//! The schedule is a list of `(length, fee)` pairs with a default for
//! lengths that match no entry; the total fee of an operation is the
//! per-year fee times the number of subscription years.  Both lookups are
//! pure functions of the schedule and the name, so the fee quoted when a
//! payment is requested can be re-derived bit-for-bit when the confirmation
//! arrives.

use vstd::prelude::*;

use vstd::string::StrSliceExecFns;

verus! {

/// One schedule entry: the per-year fee of names with this many characters.
#[derive(Clone, Copy, Debug, PartialEq, Eq, Structural)]
pub struct MintFee {
    /// The name length this entry applies to.
    pub chars_count: u32,
    /// The per-year fee.
    pub gas: u128,
}

/// The fee schedule.
#[derive(Clone, Debug, PartialEq, Eq)]
pub struct MintFees {
    /// The `(length, fee)` entries; the first match wins.
    pub mapping: Vec<MintFee>,
    /// The fee of names whose length matches no entry.
    pub default_fee: u128,
}

/// Lookup of a length in the schedule entries: the last matching entry
/// wins, the default when none matches.
pub open spec fn spec_fee_lookup(s: Seq<MintFee>, n: nat, default_fee: u128) -> u128
    decreases s.len(),
{
    if s.len() == 0 {
        default_fee
    } else if s.last().chars_count == n {
        s.last().gas
    } else {
        spec_fee_lookup(s.drop_last(), n, default_fee)
    }
}

impl MintFees {
    /// The per-year fee of a name with `n` characters.
    pub open spec fn spec_fee_for_len(self, n: nat) -> u128 {
        spec_fee_lookup(self.mapping@, n, self.default_fee)
    }

    /// The per-year fee of `domain`: the last schedule entry matching its
    /// character length, or the default when no entry matches.
    pub fn get_gas_fees(&self, domain: &str) -> (r: u128)
        ensures
            r == self.spec_fee_for_len(domain@.len()),
    {
        let n = domain.unicode_len();
        proof {
            assert(self.mapping@.take(self.mapping@.len() as int) =~= self.mapping@);
        }
        let mut i: usize = self.mapping.len();
        while i > 0
            invariant
                i <= self.mapping@.len(),
                n == domain@.len(),
                self.spec_fee_for_len(domain@.len()) == spec_fee_lookup(
                    self.mapping@.take(i as int),
                    n as nat,
                    self.default_fee,
                ),
            decreases i,
        {
            let fee = self.mapping[i - 1];
            proof {
                assert(self.mapping@.take(i as int).last() == self.mapping@[i as int - 1]);
                assert(self.mapping@.take(i as int).drop_last() =~= self.mapping@.take(
                    i as int - 1,
                ));
            }
            if fee.chars_count as usize == n {
                return fee.gas;
            }
            i -= 1;
        }
        self.default_fee
    }
}

/// The total fee of `years` subscription years for `domain` under the
/// schedule `fees`: the per-year fee times the years, or nothing when the
/// product does not fit the fee type.
pub open spec fn spec_compute_fee(fees: MintFees, name: Seq<char>, years: u32) -> Option<u128> {
    let per_year = fees.spec_fee_for_len(name.len());
    if per_year * years <= u128::MAX {
        Some((per_year * years) as u128)
    } else {
        None
    }
}

/// Computes the total fee.  Pure: two calls with identical inputs return
/// identical output, which is what lets the payment confirmation re-derive
/// the quoted amount.
pub fn compute_fee(fees: &MintFees, domain: &str, years: u32) -> (r: Option<u128>)
    ensures
        r == spec_compute_fee(*fees, domain@, years),
{
    let per_year = fees.get_gas_fees(domain);
    per_year.checked_mul(years as u128)
}

} // verus!
