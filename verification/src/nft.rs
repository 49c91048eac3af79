//! The token ownership and approval ledger.
//!
//! Every domain is backed by exactly one token.  The ledger tracks each
//! token's owner, an optional per-token approved spender (cleared on every
//! transfer), blanket operator approvals, per-owner balances and the total
//! supply.  Well-formedness ties every account's stored balance to the
//! number of tokens it actually owns.

use vstd::prelude::*;

use crate::address::Address;
use crate::assoc::{
    assoc_get, assoc_has, distinct, lemma_assoc_get_index, lemma_assoc_get_none_iff,
    lemma_assoc_get_push, lemma_assoc_get_remove, lemma_assoc_get_update, lemma_distinct_remove,
    lemma_unique_push, lemma_unique_remove, lemma_unique_update, unique_keys,
};
use crate::errors::ContractError;

verus! {

/// A blanket approval: `operator` may transfer every token of `owner`.
#[derive(Clone, Copy, Debug, PartialEq, Eq, Structural)]
pub struct OperatorApproval {
    /// The account whose tokens are covered.
    pub owner: Address,
    /// The account granted transfer rights.
    pub operator: Address,
}

/// Parameters of the ledger setup.
#[derive(Clone, Debug, PartialEq, Eq)]
pub struct NFTInitMsg {
    /// Token collection name.
    pub name: String,
    /// Token collection symbol.
    pub symbol: String,
    /// Template prepended to token URIs by off-chain consumers.
    pub uri_template: String,
}

/// Parameters of a token mint.
#[derive(Clone, Debug, PartialEq, Eq)]
pub struct NFTMintMsg {
    /// The token to create.
    pub token_id: u128,
    /// The owner of the new token.
    pub to: Address,
    /// Optional token URI.
    pub token_uri: Option<String>,
}

/// Parameters of a token transfer.
#[derive(Clone, Copy, Debug, PartialEq, Eq, Structural)]
pub struct NFTTransferFromMsg {
    /// Current owner of the token.
    pub from: Address,
    /// Receiver of the token.
    pub to: Address,
    /// The token to move.
    pub token_id: u128,
}

/// Parameters of a single-token approval update.
#[derive(Clone, Copy, Debug, PartialEq, Eq, Structural)]
pub struct NFTApproveMsg {
    /// The new approved spender, or none to clear the approval.
    pub approved: Option<Address>,
    /// The token whose approval is updated.
    pub token_id: u128,
}

/// Parameters of an operator approval update.
#[derive(Clone, Copy, Debug, PartialEq, Eq, Structural)]
pub struct NFTApproveForAllMsg {
    /// The operator whose blanket approval is granted or revoked.
    pub operator: Address,
    /// True to grant, false to revoke.
    pub approved: bool,
}

/// Parameters of a token burn.
#[derive(Clone, Copy, Debug, PartialEq, Eq, Structural)]
pub struct NFTBurnMsg {
    /// The token to destroy.
    pub token_id: u128,
}

/// How many entries of the owner map belong to `a`.
pub open spec fn owned_count(s: Seq<(u128, Address)>, a: Address) -> nat
    decreases s.len(),
{
    if s.len() == 0 {
        0
    } else {
        (if s[0].1 == a {
            1nat
        } else {
            0nat
        }) + owned_count(s.drop_first(), a)
    }
}

/// An account never owns more tokens than exist.
pub proof fn lemma_owned_count_le_len(s: Seq<(u128, Address)>, a: Address)
    ensures
        owned_count(s, a) <= s.len(),
    decreases s.len(),
{
    if s.len() > 0 {
        lemma_owned_count_le_len(s.drop_first(), a);
    }
}

/// The owner of any entry owns at least that entry.
pub proof fn lemma_owned_count_ge_one(s: Seq<(u128, Address)>, i: int)
    requires
        0 <= i < s.len(),
    ensures
        owned_count(s, s[i].1) >= 1,
    decreases s.len(),
{
    if i > 0 {
        lemma_owned_count_ge_one(s.drop_first(), i - 1);
    }
}

/// Appending an entry raises its owner's count by one.
pub proof fn lemma_owned_count_push(s: Seq<(u128, Address)>, e: (u128, Address), a: Address)
    ensures
        owned_count(s.push(e), a) == owned_count(s, a) + (if e.1 == a {
            1nat
        } else {
            0nat
        }),
    decreases s.len(),
{
    if s.len() == 0 {
        assert(s.push(e).drop_first() =~= s);
    } else {
        assert(s.push(e)[0] == s[0]);
        assert(s.push(e).drop_first() =~= s.drop_first().push(e));
        lemma_owned_count_push(s.drop_first(), e, a);
    }
}

/// Replacing the entry at `i` moves one unit of count from the old owner to
/// the new one.
pub proof fn lemma_owned_count_update(
    s: Seq<(u128, Address)>,
    i: int,
    e2: (u128, Address),
    a: Address,
)
    requires
        0 <= i < s.len(),
    ensures
        owned_count(s.update(i, e2), a) + (if s[i].1 == a {
            1nat
        } else {
            0nat
        }) == owned_count(s, a) + (if e2.1 == a {
            1nat
        } else {
            0nat
        }),
    decreases s.len(),
{
    let s2 = s.update(i, e2);
    if i == 0 {
        assert(s2.drop_first() =~= s.drop_first());
    } else {
        assert(s2[0] == s[0]);
        assert(s2.drop_first() =~= s.drop_first().update(i - 1, e2));
        lemma_owned_count_update(s.drop_first(), i - 1, e2, a);
    }
}

/// Removing the entry at `i` lowers its owner's count by one.
pub proof fn lemma_owned_count_remove(s: Seq<(u128, Address)>, i: int, a: Address)
    requires
        0 <= i < s.len(),
    ensures
        owned_count(s.remove(i), a) + (if s[i].1 == a {
            1nat
        } else {
            0nat
        }) == owned_count(s, a),
    decreases s.len(),
{
    let s2 = s.remove(i);
    if i == 0 {
        assert(s2 =~= s.drop_first());
    } else {
        assert(s2[0] == s[0]);
        assert(s2.drop_first() =~= s.drop_first().remove(i - 1));
        lemma_owned_count_remove(s.drop_first(), i - 1, a);
    }
}

/// The ownership ledger.
#[derive(Clone, Debug, PartialEq, Eq)]
pub struct NFTContractState {
    /// Token collection name.
    pub name: String,
    /// Token collection symbol.
    pub symbol: String,
    /// Template prepended to token URIs by off-chain consumers.
    pub uri_template: String,
    /// Number of existing tokens.
    pub supply: u128,
    /// The next token id the ledger hands out; strictly above every minted id.
    pub next_token_id: u128,
    /// Entries `(token id, owner)`, one per existing token.
    pub owners: Vec<(u128, Address)>,
    /// Entries `(account, balance)`; the balance equals the number of
    /// entries of `owners` held by the account.
    pub owners_balance: Vec<(Address, u128)>,
    /// Entries `(token id, approved spender)`, at most one per token.
    pub token_approvals: Vec<(u128, Address)>,
    /// The set of standing operator approvals.
    pub operator_approvals: Vec<OperatorApproval>,
    /// Entries `(token id, token URI)`.
    pub token_uri_details: Vec<(u128, String)>,
}

impl NFTContractState {
    /// The stored balance of `a`, as a count.
    pub open spec fn spec_balance_nat(self, a: Address) -> nat {
        match assoc_get(self.owners_balance@, a) {
            Some(b) => b as nat,
            None => 0,
        }
    }

    /// Well-formedness of the ledger.
    pub open spec fn wf(self) -> bool {
        &&& unique_keys(self.owners@)
        &&& unique_keys(self.owners_balance@)
        &&& unique_keys(self.token_approvals@)
        &&& unique_keys(self.token_uri_details@)
        &&& distinct(self.operator_approvals@)
        &&& self.supply == self.owners@.len()
        &&& forall|id: u128|
            #[trigger] assoc_has(self.token_approvals@, id) ==> assoc_has(self.owners@, id)
        &&& forall|id: u128|
            #[trigger] assoc_has(self.token_uri_details@, id) ==> assoc_has(self.owners@, id)
        &&& forall|a: Address| #[trigger] self.spec_balance_nat(a) == owned_count(self.owners@, a)
        &&& forall|i: int|
            0 <= i < self.owners@.len() ==> (#[trigger] self.owners@[i]).0 < self.next_token_id
    }

    /// The owner of a token, if the token exists.
    pub open spec fn spec_owner_of(self, id: u128) -> Option<Address> {
        assoc_get(self.owners@, id)
    }

    /// Whether the token exists.
    pub open spec fn spec_exists(self, id: u128) -> bool {
        assoc_get(self.owners@, id) is Some
    }

    /// The approved spender of a token, if any.
    pub open spec fn spec_approved(self, id: u128) -> Option<Address> {
        assoc_get(self.token_approvals@, id)
    }

    /// Whether `operator` holds a blanket approval from `owner`.
    pub open spec fn spec_is_operator(self, owner: Address, operator: Address) -> bool {
        self.operator_approvals@.contains(OperatorApproval { owner, operator })
    }

    /// The stored URI of a token, if any.
    pub open spec fn spec_token_uri(self, id: u128) -> Option<String> {
        assoc_get(self.token_uri_details@, id)
    }

    /// Whether `a` may move the token: it is the owner, the approved
    /// spender, or an operator of the owner.
    pub open spec fn spec_is_approved_or_owner(self, a: Address, id: u128) -> bool {
        match self.spec_owner_of(id) {
            Some(o) => a == o || self.spec_approved(id) == Some(a) || self.spec_is_operator(o, a),
            None => false,
        }
    }

    /// Whether the token exists.
    pub fn is_minted(&self, token_id: u128) -> (r: bool)
        ensures
            r == self.spec_exists(token_id),
    {
        find_key_u128(&self.owners, token_id).is_some()
    }

    /// The owner of a token.
    pub fn owner_of(&self, token_id: u128) -> (r: Option<Address>)
        ensures
            r == self.spec_owner_of(token_id),
    {
        match find_key_u128(&self.owners, token_id) {
            Some(i) => Some(self.owners[i].1),
            None => None,
        }
    }

    /// The stored balance of an account: absent when the account never
    /// owned a token.
    pub fn balance_of(&self, account: &Address) -> (r: Option<u128>)
        ensures
            r == assoc_get(self.owners_balance@, *account),
    {
        match find_key_address(&self.owners_balance, account) {
            Some(i) => Some(self.owners_balance[i].1),
            None => None,
        }
    }

    /// The approved spender of a token, if any.
    pub fn get_approved(&self, token_id: u128) -> (r: Option<Address>)
        ensures
            r == self.spec_approved(token_id),
    {
        match find_key_u128(&self.token_approvals, token_id) {
            Some(i) => Some(self.token_approvals[i].1),
            None => None,
        }
    }

    /// The stored URI of a token, if any.
    pub fn token_uri(&self, token_id: u128) -> (r: Option<&String>)
        ensures
            match r {
                Some(u) => self.spec_token_uri(token_id) == Some(*u),
                None => self.spec_token_uri(token_id) is None,
            },
    {
        match find_key_u128(&self.token_uri_details, token_id) {
            Some(i) => Some(&self.token_uri_details[i].1),
            None => None,
        }
    }

    /// Whether `operator` holds a blanket approval from `owner`.
    pub fn is_approved_for_all(&self, owner: &Address, operator: &Address) -> (r: bool)
        ensures
            r == self.spec_is_operator(*owner, *operator),
    {
        find_operator(&self.operator_approvals, owner, operator).is_some()
    }

    /// Whether `account` may move the token.
    pub fn is_approved_or_owner(&self, account: &Address, token_id: u128) -> (r: bool)
        ensures
            r == self.spec_is_approved_or_owner(*account, token_id),
    {
        match self.owner_of(token_id) {
            Some(owner) => {
                if *account == owner {
                    true
                } else {
                    match self.get_approved(token_id) {
                        Some(a) if a == *account => true,
                        _ => self.is_approved_for_all(&owner, account),
                    }
                }
            },
            None => false,
        }
    }

    /// The id the ledger will assign to the next freshly minted token.
    pub fn get_next_token_id(&self) -> (r: u128)
        ensures
            r == self.next_token_id,
            self.wf() ==> !self.spec_exists(r),
    {
        proof {
            if self.wf() {
                lemma_assoc_get_none_iff(self.owners@, self.next_token_id);
            }
        }
        self.next_token_id
    }
}

/// Initializes an empty ledger.
pub fn execute_init(msg: &NFTInitMsg) -> (r: NFTContractState)
    ensures
        r.wf(),
        r.name@ == msg.name@,
        r.symbol@ == msg.symbol@,
        r.uri_template@ == msg.uri_template@,
        r.supply == 0,
        r.next_token_id == 1,
        forall|id: u128| !#[trigger] r.spec_exists(id),
        forall|id: u128| #[trigger] r.spec_approved(id) is None,
        forall|o: Address, p: Address| !#[trigger] r.spec_is_operator(o, p),
        forall|a: Address| #[trigger] assoc_get(r.owners_balance@, a) is None,
{
    NFTContractState {
        name: msg.name.clone(),
        symbol: msg.symbol.clone(),
        uri_template: msg.uri_template.clone(),
        supply: 0,
        next_token_id: 1,
        owners: Vec::new(),
        owners_balance: Vec::new(),
        token_approvals: Vec::new(),
        operator_approvals: Vec::new(),
        token_uri_details: Vec::new(),
    }
}

/// Index of the entry with the given id, if present.
fn find_key_u128<V>(v: &Vec<(u128, V)>, k: u128) -> (r: Option<usize>)
    ensures
        match r {
            Some(i) => i < v@.len() && v@[i as int].0 == k && assoc_get(v@, k) == Some(
                v@[i as int].1,
            ),
            None => assoc_get(v@, k) is None,
        },
{
    let mut i: usize = 0;
    while i < v.len()
        invariant
            i <= v@.len(),
            forall|j: int| 0 <= j < i ==> (#[trigger] v@[j]).0 != k,
        decreases v@.len() - i,
    {
        if v[i].0 == k {
            proof {
                lemma_assoc_get_index(v@, k, i as int);
            }
            return Some(i);
        }
        i += 1;
    }
    proof {
        lemma_assoc_get_none_iff(v@, k);
    }
    None
}

/// Index of the entry for the given account, if present.
fn find_key_address<V>(v: &Vec<(Address, V)>, k: &Address) -> (r: Option<usize>)
    ensures
        match r {
            Some(i) => i < v@.len() && v@[i as int].0 == *k && assoc_get(v@, *k) == Some(
                v@[i as int].1,
            ),
            None => assoc_get(v@, *k) is None,
        },
{
    let mut i: usize = 0;
    while i < v.len()
        invariant
            i <= v@.len(),
            forall|j: int| 0 <= j < i ==> (#[trigger] v@[j]).0 != *k,
        decreases v@.len() - i,
    {
        if v[i].0 == *k {
            proof {
                lemma_assoc_get_index(v@, *k, i as int);
            }
            return Some(i);
        }
        i += 1;
    }
    proof {
        lemma_assoc_get_none_iff(v@, *k);
    }
    None
}

/// Index of the given operator-approval pair, if present.
fn find_operator(v: &Vec<OperatorApproval>, owner: &Address, operator: &Address) -> (r: Option<
    usize,
>)
    ensures
        match r {
            Some(i) => i < v@.len() && v@[i as int] == (OperatorApproval {
                owner: *owner,
                operator: *operator,
            }),
            None => !v@.contains(
                OperatorApproval { owner: *owner, operator: *operator },
            ),
        },
{
    let mut i: usize = 0;
    while i < v.len()
        invariant
            i <= v@.len(),
            forall|j: int|
                0 <= j < i ==> #[trigger] v@[j] != (OperatorApproval {
                    owner: *owner,
                    operator: *operator,
                }),
        decreases v@.len() - i,
    {
        if v[i].owner == *owner && v[i].operator == *operator {
            return Some(i);
        }
        i += 1;
    }
    None
}

/// Stores `val` as the balance of `a`, creating the entry when absent.
fn set_balance(balances: &mut Vec<(Address, u128)>, a: &Address, val: u128)
    requires
        unique_keys(old(balances)@),
    ensures
        unique_keys(final(balances)@),
        assoc_get(final(balances)@, *a) == Some(val),
        forall|b: Address|
            b != *a ==> #[trigger] assoc_get(final(balances)@, b) == assoc_get(old(balances)@, b),
{
    let ghost s0 = balances@;
    match find_key_address(balances, a) {
        Some(i) => {
            let entry = &mut balances[i];
            entry.1 = val;
            proof {
                let e2 = balances@[i as int];
                assert(balances@ =~= s0.update(i as int, e2));
                assert forall|b: Address| true implies #[trigger] assoc_get(balances@, b) == (
                if b == *a {
                    Some(val)
                } else {
                    assoc_get(s0, b)
                }) by {
                    lemma_assoc_get_update(s0, i as int, e2, b);
                }
                lemma_unique_update(s0, i as int, e2);
            }
        },
        None => {
            balances.push((*a, val));
            proof {
                assert forall|b: Address| true implies #[trigger] assoc_get(balances@, b) == (
                if assoc_get(s0, b) is Some {
                    assoc_get(s0, b)
                } else if b == *a {
                    Some(val)
                } else {
                    None::<u128>
                }) by {
                    lemma_assoc_get_push(s0, b, *a, val);
                }
                lemma_unique_push(s0, *a, val);
            }
        },
    }
}

/// Removes the entry of `k`, if any.
fn clear_key_u128<V>(v: &mut Vec<(u128, V)>, k: u128)
    requires
        unique_keys(old(v)@),
    ensures
        unique_keys(final(v)@),
        assoc_get(final(v)@, k) is None,
        forall|id: u128|
            id != k ==> #[trigger] assoc_get(final(v)@, id) == assoc_get(old(v)@, id),
{
    let ghost s0 = v@;
    match find_key_u128(v, k) {
        Some(i) => {
            v.remove(i);
            proof {
                assert forall|id: u128| true implies #[trigger] assoc_get(v@, id) == (
                if id == k {
                    None::<V>
                } else {
                    assoc_get(s0, id)
                }) by {
                    lemma_assoc_get_remove(s0, i as int, id);
                }
                lemma_unique_remove(s0, i as int);
            }
        },
        None => {},
    }
}

/// Stores `val` under `k`, creating the entry when absent.
fn set_key_u128<V>(v: &mut Vec<(u128, V)>, k: u128, val: V)
    requires
        unique_keys(old(v)@),
    ensures
        unique_keys(final(v)@),
        assoc_get(final(v)@, k) == Some(val),
        forall|id: u128|
            id != k ==> #[trigger] assoc_get(final(v)@, id) == assoc_get(old(v)@, id),
{
    let ghost s0 = v@;
    match find_key_u128(v, k) {
        Some(i) => {
            let entry = &mut v[i];
            entry.1 = val;
            proof {
                let e2 = v@[i as int];
                assert(v@ =~= s0.update(i as int, e2));
                assert forall|id: u128| true implies #[trigger] assoc_get(v@, id) == (
                if id == k {
                    Some(e2.1)
                } else {
                    assoc_get(s0, id)
                }) by {
                    lemma_assoc_get_update(s0, i as int, e2, id);
                }
                lemma_unique_update(s0, i as int, e2);
            }
        },
        None => {
            v.push((k, val));
            proof {
                let e2 = v@.last();
                assert(v@ =~= s0.push(e2));
                assert forall|id: u128| true implies #[trigger] assoc_get(v@, id) == (
                if assoc_get(s0, id) is Some {
                    assoc_get(s0, id)
                } else if id == k {
                    Some(e2.1)
                } else {
                    None::<V>
                }) by {
                    lemma_assoc_get_push(s0, id, k, e2.1);
                    assert(s0.push((k, e2.1)) =~= s0.push(e2));
                }
                lemma_unique_push(s0, k, e2.1);
                assert(s0.push((k, e2.1)) =~= s0.push(e2));
            }
        },
    }
}

/// Moves the token at entry `i` of the owner map to `to` and fixes both
/// accounts' balances.
///
/// Every other part of the ledger is untouched: approvals and URIs are the
/// caller's business.
fn move_ownership(state: &mut NFTContractState, i: usize, to: Address)
    requires
        old(state).wf(),
        i < old(state).owners@.len(),
    ensures
        final(state).wf(),
        final(state).spec_owner_of(old(state).owners@[i as int].0) == Some(to),
        forall|id: u128|
            id != old(state).owners@[i as int].0 ==> #[trigger] final(state).spec_owner_of(id)
                == old(state).spec_owner_of(id),
        forall|a: Address|
            #[trigger] final(state).spec_balance_nat(a) == owned_count(final(state).owners@, a),
        forall|id2: u128|
            #[trigger] assoc_has(final(state).token_uri_details@, id2) ==> assoc_has(
                final(state).owners@,
                id2,
            ),
        forall|j: int|
            0 <= j < final(state).owners@.len() ==> (#[trigger] final(state).owners@[j]).0
                < final(state).next_token_id,
        final(state).owners@.len() == old(state).owners@.len(),
        final(state).token_approvals@ == old(state).token_approvals@,
        final(state).operator_approvals@ == old(state).operator_approvals@,
        final(state).token_uri_details@ == old(state).token_uri_details@,
        final(state).supply == old(state).supply,
        final(state).next_token_id == old(state).next_token_id,
        final(state).name == old(state).name,
        final(state).symbol == old(state).symbol,
        final(state).uri_template == old(state).uri_template,
{
    let ghost owners0 = state.owners@;
    let from = state.owners[i].1;
    let ghost token_id = owners0[i as int].0;
    let entry = &mut state.owners[i];
    entry.1 = to;
    proof {
        let e2 = state.owners@[i as int];
        assert(state.owners@ =~= owners0.update(i as int, e2));
        assert forall|id: u128| true implies #[trigger] assoc_get(state.owners@, id) == (
        if id == token_id {
            Some(to)
        } else {
            assoc_get(owners0, id)
        }) by {
            lemma_assoc_get_update(owners0, i as int, e2, id);
        }
        lemma_unique_update(owners0, i as int, e2);
        assert forall|a: Address| true implies owned_count(state.owners@, a) + (if from == a {
            1nat
        } else {
            0nat
        }) == owned_count(owners0, a) + (if to == a {
            1nat
        } else {
            0nat
        }) by {
            lemma_owned_count_update(owners0, i as int, e2, a);
        }
        lemma_owned_count_ge_one(owners0, i as int);
        lemma_owned_count_le_len(owners0, to);
        assert forall|j: int| 0 <= j < state.owners@.len() implies (#[trigger] state.owners@[j]).0
            < state.next_token_id by {
            assert(state.owners@[j].0 == owners0[j].0);
            assert(owners0[j].0 < old(state).next_token_id);
        }
    }
    if from != to {
        let owners_now = state.owners.len();
        proof {
            assert(owners_now == owners0.len());
            assert(old(state).spec_balance_nat(from) == owned_count(owners0, from));
            assert(old(state).spec_balance_nat(to) == owned_count(owners0, to));
        }
        let from_balance = match state.balance_of(&from) {
            Some(b) => b,
            None => 0,
        };
        set_balance(&mut state.owners_balance, &from, from_balance - 1);
        let to_balance = match state.balance_of(&to) {
            Some(b) => b,
            None => 0,
        };
        set_balance(&mut state.owners_balance, &to, to_balance + 1);
        proof {
            assert forall|a: Address| #[trigger] state.spec_balance_nat(a) == owned_count(
                state.owners@,
                a,
            ) by {
                assert(old(state).spec_balance_nat(a) == owned_count(owners0, a));
            }
        }
    } else {
        proof {
            assert forall|a: Address| #[trigger] state.spec_balance_nat(a) == owned_count(
                state.owners@,
                a,
            ) by {
                assert(old(state).spec_balance_nat(a) == owned_count(owners0, a));
            }
        }
    }
    proof {
        assert forall|id2: u128| #[trigger] assoc_has(state.token_uri_details@, id2) implies
        assoc_has(state.owners@, id2) by {
            assert(assoc_has(old(state).token_uri_details@, id2));
            assert(assoc_has(owners0, id2));
        }
        assert forall|id2: u128| #[trigger] assoc_has(state.token_approvals@, id2) implies
        assoc_has(state.owners@, id2) by {
            assert(assoc_has(old(state).token_approvals@, id2));
            assert(assoc_has(owners0, id2));
        }
    }
}

/// Moves a token.
///
/// Fails with `NotFound` exactly when the token does not exist, and with
/// `Unauthorized` exactly when it exists but `from` is not its owner or the
/// sender is neither owner, approved spender, nor operator of the owner.
/// On success the token belongs to `to` and its single-token approval is
/// cleared; balances follow the ownership change and nothing else moves.
pub fn execute_transfer_from(
    state: &mut NFTContractState,
    sender: &Address,
    msg: &NFTTransferFromMsg,
) -> (r: Result<(), ContractError>)
    requires
        old(state).wf(),
    ensures
        final(state).wf(),
        r is Err ==> *final(state) == *old(state),
        r == Err::<(), ContractError>(ContractError::NotFound) <==> !old(state).spec_exists(
            msg.token_id,
        ),
        r == Err::<(), ContractError>(ContractError::Unauthorized) <==> (old(state).spec_exists(
            msg.token_id,
        ) && !(old(state).spec_owner_of(msg.token_id) == Some(msg.from) && old(
            state,
        ).spec_is_approved_or_owner(*sender, msg.token_id))),
        r is Ok <==> (old(state).spec_owner_of(msg.token_id) == Some(msg.from) && old(
            state,
        ).spec_is_approved_or_owner(*sender, msg.token_id)),
        r is Ok ==> {
            &&& final(state).spec_owner_of(msg.token_id) == Some(msg.to)
            &&& forall|id: u128|
                id != msg.token_id ==> #[trigger] final(state).spec_owner_of(id) == old(
                    state,
                ).spec_owner_of(id)
            &&& final(state).spec_approved(msg.token_id) is None
            &&& forall|id: u128|
                id != msg.token_id ==> #[trigger] final(state).spec_approved(id) == old(
                    state,
                ).spec_approved(id)
            &&& final(state).operator_approvals@ == old(state).operator_approvals@
            &&& final(state).token_uri_details@ == old(state).token_uri_details@
            &&& final(state).supply == old(state).supply
            &&& final(state).next_token_id == old(state).next_token_id
            &&& final(state).name == old(state).name
            &&& final(state).symbol == old(state).symbol
            &&& final(state).uri_template == old(state).uri_template
        },
{
    let i = match find_key_u128(&state.owners, msg.token_id) {
        Some(i) => i,
        None => {
            return Err(ContractError::NotFound);
        },
    };
    let owner = state.owners[i].1;
    if !(owner == msg.from && state.is_approved_or_owner(sender, msg.token_id)) {
        return Err(ContractError::Unauthorized);
    }
    move_ownership(state, i, msg.to);
    let ghost mid = *state;
    clear_key_u128(&mut state.token_approvals, msg.token_id);
    proof {
        assert forall|id2: u128| #[trigger] assoc_has(state.token_approvals@, id2) implies
        assoc_has(state.owners@, id2) by {
            assert(assoc_has(mid.token_approvals@, id2));
            assert(assoc_has(mid.owners@, id2));
        }
        assert forall|id2: u128| #[trigger] assoc_has(state.token_uri_details@, id2) implies
        assoc_has(state.owners@, id2) by {
            assert(assoc_has(mid.token_uri_details@, id2));
            assert(assoc_has(mid.owners@, id2));
        }
        assert forall|a2: Address| #[trigger] state.spec_balance_nat(a2) == owned_count(
            state.owners@,
            a2,
        ) by {
            assert(mid.spec_balance_nat(a2) == owned_count(mid.owners@, a2));
        }
        assert forall|id: u128| id != msg.token_id implies #[trigger] state.spec_owner_of(id)
            == old(state).spec_owner_of(id) by {
            assert(mid.spec_owner_of(id) == old(state).spec_owner_of(id));
        }
        assert forall|j: int| 0 <= j < state.owners@.len() implies (#[trigger] state.owners@[j]).0
            < state.next_token_id by {
            assert((mid.owners@[j]).0 < mid.next_token_id);
        }
        assert(state.spec_owner_of(msg.token_id) == mid.spec_owner_of(msg.token_id));
    }
    Ok(())
}

/// Sets or clears the approved spender of a token.
///
/// Fails with `NotFound` exactly when the token does not exist, and with
/// `Unauthorized` exactly when the sender is neither the owner nor an
/// operator of the owner.
pub fn execute_approve(state: &mut NFTContractState, sender: &Address, msg: &NFTApproveMsg) -> (r:
    Result<(), ContractError>)
    requires
        old(state).wf(),
    ensures
        final(state).wf(),
        r is Err ==> *final(state) == *old(state),
        r == Err::<(), ContractError>(ContractError::NotFound) <==> !old(state).spec_exists(
            msg.token_id,
        ),
        r == Err::<(), ContractError>(ContractError::Unauthorized) <==> (old(state).spec_exists(
            msg.token_id,
        ) && !(old(state).spec_owner_of(msg.token_id) == Some(*sender) || old(
            state,
        ).spec_is_operator(old(state).spec_owner_of(msg.token_id).unwrap(), *sender))),
        r is Ok <==> (old(state).spec_exists(msg.token_id) && (old(state).spec_owner_of(
            msg.token_id,
        ) == Some(*sender) || old(state).spec_is_operator(
            old(state).spec_owner_of(msg.token_id).unwrap(),
            *sender,
        ))),
        r is Ok ==> {
            &&& final(state).spec_approved(msg.token_id) == msg.approved
            &&& forall|id: u128|
                id != msg.token_id ==> #[trigger] final(state).spec_approved(id) == old(
                    state,
                ).spec_approved(id)
            &&& final(state).owners@ == old(state).owners@
            &&& final(state).owners_balance@ == old(state).owners_balance@
            &&& final(state).operator_approvals@ == old(state).operator_approvals@
            &&& final(state).token_uri_details@ == old(state).token_uri_details@
            &&& final(state).supply == old(state).supply
            &&& final(state).next_token_id == old(state).next_token_id
            &&& final(state).name == old(state).name
            &&& final(state).symbol == old(state).symbol
            &&& final(state).uri_template == old(state).uri_template
        },
{
    let owner = match state.owner_of(msg.token_id) {
        Some(o) => o,
        None => {
            return Err(ContractError::NotFound);
        },
    };
    if !(*sender == owner || state.is_approved_for_all(&owner, sender)) {
        return Err(ContractError::Unauthorized);
    }
    match msg.approved {
        Some(a) => {
            set_key_u128(&mut state.token_approvals, msg.token_id, a);
        },
        None => {
            clear_key_u128(&mut state.token_approvals, msg.token_id);
        },
    }
    proof {
        assert forall|id2: u128| #[trigger] assoc_has(state.token_approvals@, id2) implies
        assoc_has(state.owners@, id2) by {
            if id2 != msg.token_id {
                assert(assoc_has(old(state).token_approvals@, id2));
            }
        }
        assert forall|a2: Address| #[trigger] state.spec_balance_nat(a2) == owned_count(
            state.owners@,
            a2,
        ) by {
            assert(old(state).spec_balance_nat(a2) == owned_count(state.owners@, a2));
        }
    }
    Ok(())
}

/// Grants or revokes a blanket operator approval for the sender's tokens.
///
/// Fails with `Unauthorized` exactly on self-approval; both granting twice
/// and revoking a non-existent approval are no-ops.
pub fn execute_set_approval_for_all(
    state: &mut NFTContractState,
    sender: &Address,
    msg: &NFTApproveForAllMsg,
) -> (r: Result<(), ContractError>)
    requires
        old(state).wf(),
    ensures
        final(state).wf(),
        r is Err ==> *final(state) == *old(state),
        r is Err <==> msg.operator == *sender,
        r is Err ==> r == Err::<(), ContractError>(ContractError::Unauthorized),
        r is Ok ==> {
            &&& final(state).spec_is_operator(*sender, msg.operator) == msg.approved
            &&& forall|o: Address, p: Address|
                !(o == *sender && p == msg.operator) ==> #[trigger] final(state).spec_is_operator(
                    o,
                    p,
                ) == old(state).spec_is_operator(o, p)
            &&& final(state).owners@ == old(state).owners@
            &&& final(state).owners_balance@ == old(state).owners_balance@
            &&& final(state).token_approvals@ == old(state).token_approvals@
            &&& final(state).token_uri_details@ == old(state).token_uri_details@
            &&& final(state).supply == old(state).supply
            &&& final(state).next_token_id == old(state).next_token_id
            &&& final(state).name == old(state).name
            &&& final(state).symbol == old(state).symbol
            &&& final(state).uri_template == old(state).uri_template
        },
{
    if msg.operator == *sender {
        return Err(ContractError::Unauthorized);
    }
    let ghost ops0 = state.operator_approvals@;
    let pair = OperatorApproval { owner: *sender, operator: msg.operator };
    if msg.approved {
        match find_operator(&state.operator_approvals, sender, &msg.operator) {
            Some(_) => {},
            None => {
                state.operator_approvals.push(pair);
                proof {
                    assert forall|x: OperatorApproval| #[trigger] state.operator_approvals@
                        .contains(x) <==> (ops0.contains(x) || x == pair) by {
                        vstd::seq_lib::lemma_seq_contains_after_push(ops0, pair, x);
                    }
                    assert forall|a: int, b: int|
                        0 <= a < b < state.operator_approvals@.len() implies state
                        .operator_approvals@[a] != state.operator_approvals@[b] by {
                        if b == ops0.len() {
                            if ops0[a] == pair {
                                assert(ops0.contains(pair));
                            }
                        }
                    }
                }
            },
        }
    } else {
        match find_operator(&state.operator_approvals, sender, &msg.operator) {
            Some(i) => {
                state.operator_approvals.remove(i);
                proof {
                    lemma_distinct_remove(ops0, i as int);
                }
            },
            None => {},
        }
    }
    proof {
        assert forall|a2: Address| #[trigger] state.spec_balance_nat(a2) == owned_count(
            state.owners@,
            a2,
        ) by {
            assert(old(state).spec_balance_nat(a2) == owned_count(state.owners@, a2));
        }
    }
    Ok(())
}

/// Destroys a token.
///
/// Fails with `NotFound` exactly when the token does not exist, and with
/// `Unauthorized` exactly when the sender is neither owner, approved
/// spender, nor operator of the owner.  On success the token, its approval,
/// its URI and one unit of the owner's balance and of the supply are gone.
pub fn execute_burn(state: &mut NFTContractState, sender: &Address, msg: &NFTBurnMsg) -> (r: Result<
    (),
    ContractError,
>)
    requires
        old(state).wf(),
    ensures
        final(state).wf(),
        r is Err ==> *final(state) == *old(state),
        r == Err::<(), ContractError>(ContractError::NotFound) <==> !old(state).spec_exists(
            msg.token_id,
        ),
        r == Err::<(), ContractError>(ContractError::Unauthorized) <==> (old(state).spec_exists(
            msg.token_id,
        ) && !old(state).spec_is_approved_or_owner(*sender, msg.token_id)),
        r is Ok <==> (old(state).spec_exists(msg.token_id) && old(
            state,
        ).spec_is_approved_or_owner(*sender, msg.token_id)),
        r is Ok ==> {
            &&& final(state).spec_owner_of(msg.token_id) is None
            &&& forall|id: u128|
                id != msg.token_id ==> #[trigger] final(state).spec_owner_of(id) == old(
                    state,
                ).spec_owner_of(id)
            &&& final(state).spec_approved(msg.token_id) is None
            &&& forall|id: u128|
                id != msg.token_id ==> #[trigger] final(state).spec_approved(id) == old(
                    state,
                ).spec_approved(id)
            &&& final(state).supply == old(state).supply - 1
            &&& final(state).operator_approvals@ == old(state).operator_approvals@
            &&& final(state).name == old(state).name
            &&& final(state).symbol == old(state).symbol
            &&& final(state).uri_template == old(state).uri_template
        },
{
    let i = match find_key_u128(&state.owners, msg.token_id) {
        Some(i) => i,
        None => {
            return Err(ContractError::NotFound);
        },
    };
    if !state.is_approved_or_owner(sender, msg.token_id) {
        return Err(ContractError::Unauthorized);
    }
    let ghost owners0 = state.owners@;
    let owner = state.owners[i].1;
    state.owners.remove(i);
    proof {
        assert forall|id: u128| true implies #[trigger] assoc_get(state.owners@, id) == (
        if id == msg.token_id {
            None::<Address>
        } else {
            assoc_get(owners0, id)
        }) by {
            lemma_assoc_get_remove(owners0, i as int, id);
        }
        lemma_unique_remove(owners0, i as int);
        assert forall|a: Address| true implies owned_count(state.owners@, a) + (if owner == a {
            1nat
        } else {
            0nat
        }) == owned_count(owners0, a) by {
            lemma_owned_count_remove(owners0, i as int, a);
        }
        lemma_owned_count_ge_one(owners0, i as int);
        assert(old(state).spec_balance_nat(owner) == owned_count(owners0, owner));
        assert forall|j: int| 0 <= j < state.owners@.len() implies (#[trigger] state.owners@[j]).0
            < state.next_token_id by {
            let j0: int = if j < i as int {
                j
            } else {
                j + 1
            };
            assert(state.owners@[j] == owners0[j0]);
            assert(owners0[j0].0 < old(state).next_token_id);
        }
    }
    let owner_balance = match state.balance_of(&owner) {
        Some(b) => b,
        None => 0,
    };
    set_balance(&mut state.owners_balance, &owner, owner_balance - 1);
    state.supply = state.supply - 1;
    clear_key_u128(&mut state.token_approvals, msg.token_id);
    clear_key_u128(&mut state.token_uri_details, msg.token_id);
    proof {
        assert forall|a2: Address| #[trigger] state.spec_balance_nat(a2) == owned_count(
            state.owners@,
            a2,
        ) by {
            assert(old(state).spec_balance_nat(a2) == owned_count(owners0, a2));
        }
        assert forall|id2: u128| #[trigger] assoc_has(state.token_approvals@, id2) implies
        assoc_has(state.owners@, id2) by {
            assert(assoc_has(old(state).token_approvals@, id2));
        }
        assert forall|id2: u128| #[trigger] assoc_has(state.token_uri_details@, id2) implies
        assoc_has(state.owners@, id2) by {
            assert(assoc_has(old(state).token_uri_details@, id2));
        }
    }
    Ok(())
}

/// Creates a token.
///
/// Fails with `AlreadyMinted` exactly when a token with this id exists or
/// the id is the unusable top of the id space (the ledger keeps
/// `next_token_id` strictly above every minted id).
pub fn execute_mint(state: &mut NFTContractState, msg: &NFTMintMsg) -> (r: Result<
    (),
    ContractError,
>)
    requires
        old(state).wf(),
    ensures
        final(state).wf(),
        match r {
            Ok(()) => {
                &&& !old(state).spec_exists(msg.token_id)
                &&& final(state).spec_owner_of(msg.token_id) == Some(msg.to)
                &&& forall|id: u128|
                    id != msg.token_id ==> #[trigger] final(state).spec_owner_of(id) == old(
                        state,
                    ).spec_owner_of(id)
                &&& final(state).supply == old(state).supply + 1
                &&& forall|id: u128|
                    #[trigger] final(state).spec_approved(id) == old(state).spec_approved(id)
                &&& final(state).operator_approvals@ == old(state).operator_approvals@
                &&& final(state).spec_token_uri(msg.token_id) == msg.token_uri
                &&& forall|id: u128|
                    id != msg.token_id ==> #[trigger] final(state).spec_token_uri(id) == old(
                        state,
                    ).spec_token_uri(id)
                &&& final(state).name == old(state).name
                &&& final(state).symbol == old(state).symbol
                &&& final(state).uri_template == old(state).uri_template
            },
            Err(e) => {
                &&& *final(state) == *old(state)
                &&& e == ContractError::AlreadyMinted
                &&& (old(state).spec_exists(msg.token_id) || msg.token_id == u128::MAX)
            },
        },
        r is Err <==> (old(state).spec_exists(msg.token_id) || msg.token_id == u128::MAX),
{
    if msg.token_id == u128::MAX {
        return Err(ContractError::AlreadyMinted);
    }
    if state.is_minted(msg.token_id) {
        return Err(ContractError::AlreadyMinted);
    }
    let ghost owners0 = state.owners@;
    state.owners.push((msg.token_id, msg.to));
    proof {
        assert forall|id: u128| true implies #[trigger] assoc_get(state.owners@, id) == (
        if assoc_get(owners0, id) is Some {
            assoc_get(owners0, id)
        } else if id == msg.token_id {
            Some(msg.to)
        } else {
            None::<Address>
        }) by {
            lemma_assoc_get_push(owners0, id, msg.token_id, msg.to);
        }
        lemma_unique_push(owners0, msg.token_id, msg.to);
        assert forall|a: Address| true implies owned_count(state.owners@, a) == owned_count(
            owners0,
            a,
        ) + (if msg.to == a {
            1nat
        } else {
            0nat
        }) by {
            lemma_owned_count_push(owners0, (msg.token_id, msg.to), a);
        }
        lemma_owned_count_le_len(owners0, msg.to);
    }
    let old_balance = match state.balance_of(&msg.to) {
        Some(b) => b,
        None => 0,
    };
    let owners_now = state.owners.len();
    proof {
        assert(owners_now == state.owners@.len());
        assert(owners0.len() < u128::MAX);
        assert(old(state).spec_balance_nat(msg.to) == owned_count(owners0, msg.to));
        assert(old_balance <= owners0.len());
    }
    set_balance(&mut state.owners_balance, &msg.to, old_balance + 1);
    state.supply = state.supply + 1;
    state.next_token_id = if msg.token_id >= state.next_token_id {
        msg.token_id + 1
    } else {
        state.next_token_id
    };
    match &msg.token_uri {
        Some(u) => {
            let ghost uris0 = state.token_uri_details@;
            proof {
                assert(!assoc_has(uris0, msg.token_id));
            }
            state.token_uri_details.push((msg.token_id, u.clone()));
            proof {
                assert forall|id: u128| true implies #[trigger] assoc_get(
                    state.token_uri_details@,
                    id,
                ) == (if assoc_get(uris0, id) is Some {
                    assoc_get(uris0, id)
                } else if id == msg.token_id {
                    Some(state.token_uri_details@.last().1)
                } else {
                    None::<String>
                }) by {
                    lemma_assoc_get_push(
                        uris0,
                        id,
                        msg.token_id,
                        state.token_uri_details@.last().1,
                    );
                    assert(uris0.push((msg.token_id, state.token_uri_details@.last().1))
                        =~= state.token_uri_details@);
                }
                lemma_unique_push(uris0, msg.token_id, state.token_uri_details@.last().1);
                assert(uris0.push((msg.token_id, state.token_uri_details@.last().1))
                    =~= state.token_uri_details@);
            }
        },
        None => {
            proof {
                assert(!assoc_has(old(state).token_uri_details@, msg.token_id));
            }
        },
    }
    proof {
        assert forall|a: Address| #[trigger] state.spec_balance_nat(a) == owned_count(
            state.owners@,
            a,
        ) by {
            assert(old(state).spec_balance_nat(a) == owned_count(owners0, a));
        }
        assert forall|id2: u128| #[trigger] assoc_has(state.token_uri_details@, id2) implies
        assoc_has(state.owners@, id2) by {
            if assoc_has(old(state).token_uri_details@, id2) {
                assert(assoc_has(owners0, id2));
            }
        }
        assert forall|id2: u128| #[trigger] assoc_has(state.token_approvals@, id2) implies
        assoc_has(state.owners@, id2) by {
            assert(assoc_has(old(state).token_approvals@, id2));
        }
        assert forall|i: int| 0 <= i < state.owners@.len() implies (#[trigger] state.owners@[i]).0
            < state.next_token_id by {
            if i < owners0.len() {
                assert(state.owners@[i] == owners0[i]);
                assert(owners0[i].0 < old(state).next_token_id);
            }
        }
    }
    Ok(())
}

} // verus!
