//! Role-based access control.
//!
//! Roles are small integer tags.  Each role carries the set of accounts
//! holding it and the tag of the role whose holders may grant or revoke it.
//! A role that was never configured implicitly has the bootstrap admin role
//! as its admin.

use vstd::prelude::*;

use crate::address::Address;
use crate::assoc::{
    assoc_get, distinct, lemma_assoc_get_index, lemma_assoc_get_none_iff, lemma_assoc_get_push,
    lemma_assoc_get_update, lemma_distinct_remove, lemma_unique_push, lemma_unique_update,
    unique_keys,
};
use crate::errors::ContractError;

verus! {

/// The bootstrap admin role: it administers itself and every role that was
/// never explicitly configured.
pub const DEFAULT_ADMIN_ROLE: u8 = 0;

/// A configured role: its admin role and its members.
#[derive(Clone, Debug, PartialEq, Eq)]
pub struct Role {
    /// The role whose holders may grant and revoke this one.
    pub admin_role: u8,
    /// The accounts holding this role, pairwise distinct.
    pub members: Vec<Address>,
}

/// The access-control component: the configured roles, keyed by role tag.
#[derive(Clone, Debug, PartialEq, Eq)]
pub struct AccessControlState {
    /// Entries `(role tag, role)` with pairwise-distinct tags.
    pub roles: Vec<(u8, Role)>,
}

/// Bootstrap parameters of the access-control component.
#[derive(Clone, Debug, PartialEq, Eq)]
pub struct ACInitMsg {
    /// Accounts granted the bootstrap admin role.
    pub admin_addresses: Vec<Address>,
    /// Role tags materialized at setup, administered by the bootstrap role.
    pub additional_roles: Vec<u8>,
}

impl AccessControlState {
    /// Well-formedness: role tags are unique and each member set is
    /// duplicate-free.
    pub open spec fn wf(self) -> bool {
        &&& unique_keys(self.roles@)
        &&& forall|i: int|
            0 <= i < self.roles@.len() ==> distinct((#[trigger] self.roles@[i]).1.members@)
    }

    /// The configured role entry for a tag, if any.
    pub open spec fn spec_role(self, role: u8) -> Option<Role> {
        assoc_get(self.roles@, role)
    }

    /// Whether `account` holds `role`.
    pub open spec fn spec_has_role(self, role: u8, account: Address) -> bool {
        match assoc_get(self.roles@, role) {
            Some(r) => r.members@.contains(account),
            None => false,
        }
    }

    /// The explicitly configured admin role of `role`, if any.
    pub open spec fn spec_role_admin(self, role: u8) -> Option<u8> {
        match assoc_get(self.roles@, role) {
            Some(r) => Some(r.admin_role),
            None => None,
        }
    }

    /// The effective admin role of `role`: the configured one, or the
    /// bootstrap admin role when none was ever set.
    pub open spec fn spec_admin_of(self, role: u8) -> u8 {
        match self.spec_role_admin(role) {
            Some(a) => a,
            None => DEFAULT_ADMIN_ROLE,
        }
    }

    /// An empty access-control state: no roles, no members.
    pub fn new() -> (r: AccessControlState)
        ensures
            r.wf(),
            forall|role: u8, a: Address| !r.spec_has_role(role, a),
            forall|role: u8| r.spec_role_admin(role) is None,
    {
        AccessControlState { roles: Vec::new() }
    }

    /// Index of the entry for `role` in the backing vector, if present.
    fn find_role(&self, role: u8) -> (r: Option<usize>)
        ensures
            match r {
                Some(i) => i < self.roles@.len() && self.roles@[i as int].0 == role
                    && self.spec_role(role) == Some(self.roles@[i as int].1),
                None => self.spec_role(role) is None,
            },
    {
        let mut i: usize = 0;
        while i < self.roles.len()
            invariant
                i <= self.roles@.len(),
                forall|j: int| 0 <= j < i ==> (#[trigger] self.roles@[j]).0 != role,
            decreases self.roles@.len() - i,
        {
            if self.roles[i].0 == role {
                proof {
                    lemma_assoc_get_index(self.roles@, role, i as int);
                }
                return Some(i);
            }
            i += 1;
        }
        proof {
            lemma_assoc_get_none_iff(self.roles@, role);
        }
        None
    }

    /// Whether `account` holds `role`.
    pub fn has_role(&self, role: u8, account: &Address) -> (r: bool)
        ensures
            r == self.spec_has_role(role, *account),
    {
        match self.find_role(role) {
            Some(i) => contains_address(&self.roles[i].1.members, account),
            None => false,
        }
    }

    /// The effective admin role of `role`: the configured one, or the
    /// bootstrap admin role for a role that was never configured — every
    /// role has exactly one admin role, even if never explicitly set.
    pub fn get_role_admin(&self, role: u8) -> (r: u8)
        ensures
            r == self.spec_admin_of(role),
    {
        match self.find_role(role) {
            Some(i) => self.roles[i].1.admin_role,
            None => DEFAULT_ADMIN_ROLE,
        }
    }

    /// Succeeds exactly when `sender` holds `role`.
    pub fn assert_only_role(&self, role: u8, sender: &Address) -> (r: Result<(), ContractError>)
        ensures
            r is Ok <==> self.spec_has_role(role, *sender),
            r is Err ==> r == Err::<(), ContractError>(ContractError::MissingRole),
    {
        if self.has_role(role, sender) {
            Ok(())
        } else {
            Err(ContractError::MissingRole)
        }
    }

    /// Grants `role` to `account` unconditionally, materializing the role
    /// with the bootstrap admin if it was never configured.  Idempotent.
    fn set_role(&mut self, role: u8, account: &Address)
        requires
            old(self).wf(),
        ensures
            final(self).wf(),
            final(self).spec_has_role(role, *account),
            forall|r2: u8, a2: Address|
                !(r2 == role && a2 == *account) ==> #[trigger] final(self).spec_has_role(r2, a2)
                    == old(self).spec_has_role(r2, a2),
            forall|r2: u8|
                #[trigger] final(self).spec_role_admin(r2) == (if r2 == role && old(
                    self,
                ).spec_role(role) is None {
                    Some(DEFAULT_ADMIN_ROLE)
                } else {
                    old(self).spec_role_admin(r2)
                }),
    {
        let ghost s0 = self.roles@;
        match self.find_role(role) {
            Some(i) => {
                if !contains_address(&self.roles[i].1.members, account) {
                    let entry = &mut self.roles[i];
                    entry.1.members.push(*account);
                    proof {
                        let e2 = self.roles@[i as int];
                        assert(self.roles@ =~= s0.update(i as int, e2));
                        assert forall|k: u8| true implies #[trigger] assoc_get(self.roles@, k)
                            == (if k == role {
                            Some(e2.1)
                        } else {
                            assoc_get(s0, k)
                        }) by {
                            lemma_assoc_get_update(s0, i as int, e2, k);
                        }
                        lemma_unique_update(s0, i as int, e2);
                        let m0 = s0[i as int].1.members@;
                        assert(e2.1.members@ == m0.push(*account));
                        assert forall|a2: Address| #[trigger] e2.1.members@.contains(a2) <==> (
                        m0.contains(a2) || a2 == *account) by {
                            vstd::seq_lib::lemma_seq_contains_after_push(m0, *account, a2);
                        }
                        assert forall|a: int, b: int|
                            0 <= a < b < e2.1.members@.len() implies e2.1.members@[a]
                            != e2.1.members@[b] by {
                            if b == m0.len() {
                                if m0[a] == *account {
                                    assert(m0.contains(*account));
                                }
                            }
                        }
                    }
                }
            },
            None => {
                let new_role = Role { admin_role: DEFAULT_ADMIN_ROLE, members: Vec::new() };
                self.roles.push((role, new_role));
                let n = self.roles.len() - 1;
                let entry = &mut self.roles[n];
                entry.1.members.push(*account);
                proof {
                    let e2 = self.roles@[n as int];
                    assert(self.roles@ =~= s0.push(e2));
                    assert forall|k: u8| true implies #[trigger] assoc_get(self.roles@, k) == (
                    if assoc_get(s0, k) is Some {
                        assoc_get(s0, k)
                    } else if k == role {
                        Some(e2.1)
                    } else {
                        None::<Role>
                    }) by {
                        lemma_assoc_get_push(s0, k, role, e2.1);
                        assert(s0.push((role, e2.1)) =~= s0.push(e2));
                    }
                    lemma_unique_push(s0, role, e2.1);
                    assert(s0.push((role, e2.1)) =~= s0.push(e2));
                    let m0 = Seq::<Address>::empty();
                    assert(e2.1.members@ == m0.push(*account));
                    assert forall|a2: Address| #[trigger] e2.1.members@.contains(a2) <==> a2
                        == *account by {
                        vstd::seq_lib::lemma_seq_contains_after_push(m0, *account, a2);
                    }
                }
            },
        }
    }

    /// Removes `account` from `role` unconditionally.  Idempotent; never
    /// removes the role entry itself.
    fn unset_role(&mut self, role: u8, account: &Address)
        requires
            old(self).wf(),
        ensures
            final(self).wf(),
            !final(self).spec_has_role(role, *account),
            forall|r2: u8, a2: Address|
                !(r2 == role && a2 == *account) ==> #[trigger] final(self).spec_has_role(r2, a2)
                    == old(self).spec_has_role(r2, a2),
            forall|r2: u8|
                #[trigger] final(self).spec_role_admin(r2) == old(self).spec_role_admin(r2),
    {
        let ghost s0 = self.roles@;
        match self.find_role(role) {
            Some(i) => {
                match find_address(&self.roles[i].1.members, account) {
                    Some(j) => {
                        let entry = &mut self.roles[i];
                        entry.1.members.remove(j);
                        proof {
                            let e2 = self.roles@[i as int];
                            assert(self.roles@ =~= s0.update(i as int, e2));
                            assert forall|k: u8| true implies #[trigger] assoc_get(self.roles@, k)
                                == (if k == role {
                                Some(e2.1)
                            } else {
                                assoc_get(s0, k)
                            }) by {
                                lemma_assoc_get_update(s0, i as int, e2, k);
                            }
                            lemma_unique_update(s0, i as int, e2);
                            lemma_distinct_remove(s0[i as int].1.members@, j as int);
                            assert(e2.1.members@ == s0[i as int].1.members@.remove(j as int));
                        }
                    },
                    None => {},
                }
            },
            None => {},
        }
    }

    /// Bootstrap grant: gives `account` the role without any admin check.
    pub fn setup_role(&mut self, role: u8, account: &Address)
        requires
            old(self).wf(),
        ensures
            final(self).wf(),
            final(self).spec_has_role(role, *account),
            forall|r2: u8, a2: Address|
                !(r2 == role && a2 == *account) ==> #[trigger] final(self).spec_has_role(r2, a2)
                    == old(self).spec_has_role(r2, a2),
            forall|r2: u8|
                #[trigger] final(self).spec_role_admin(r2) == (if r2 == role && old(
                    self,
                ).spec_role(role) is None {
                    Some(DEFAULT_ADMIN_ROLE)
                } else {
                    old(self).spec_role_admin(r2)
                }),
    {
        self.set_role(role, account);
    }

    /// Grants `role` to `account`.  Succeeds exactly when `sender` holds the
    /// effective admin role of `role`; granting an already-held role is a
    /// no-op, not an error.
    pub fn grant_role(&mut self, role: u8, account: &Address, sender: &Address) -> (r: Result<
        (),
        ContractError,
    >)
        requires
            old(self).wf(),
        ensures
            final(self).wf(),
            r is Ok <==> old(self).spec_has_role(old(self).spec_admin_of(role), *sender),
            r is Ok ==> final(self).spec_has_role(role, *account) && (forall|r2: u8, a2: Address|
                !(r2 == role && a2 == *account) ==> #[trigger] final(self).spec_has_role(r2, a2)
                    == old(self).spec_has_role(r2, a2)) && (forall|r2: u8|
                #[trigger] final(self).spec_role_admin(r2) == (if r2 == role && old(
                    self,
                ).spec_role(role) is None {
                    Some(DEFAULT_ADMIN_ROLE)
                } else {
                    old(self).spec_role_admin(r2)
                })),
            r is Err ==> *final(self) == *old(self) && r == Err::<(), ContractError>(
                ContractError::MissingRole,
            ),
    {
        let admin = self.get_role_admin(role);
        if !self.has_role(admin, sender) {
            return Err(ContractError::MissingRole);
        }
        self.set_role(role, account);
        Ok(())
    }

    /// Revokes `role` from `account`.  Succeeds exactly when `sender` holds
    /// the effective admin role of `role`; revoking a role the account does
    /// not hold is a no-op, not an error.
    pub fn revoke_role(&mut self, role: u8, account: &Address, sender: &Address) -> (r: Result<
        (),
        ContractError,
    >)
        requires
            old(self).wf(),
        ensures
            final(self).wf(),
            r is Ok <==> old(self).spec_has_role(old(self).spec_admin_of(role), *sender),
            r is Ok ==> !final(self).spec_has_role(role, *account) && (forall|r2: u8, a2: Address|
                !(r2 == role && a2 == *account) ==> #[trigger] final(self).spec_has_role(r2, a2)
                    == old(self).spec_has_role(r2, a2)) && (forall|r2: u8|
                #[trigger] final(self).spec_role_admin(r2) == old(self).spec_role_admin(r2)),
            r is Err ==> *final(self) == *old(self) && r == Err::<(), ContractError>(
                ContractError::MissingRole,
            ),
    {
        let admin = self.get_role_admin(role);
        if !self.has_role(admin, sender) {
            return Err(ContractError::MissingRole);
        }
        self.unset_role(role, account);
        Ok(())
    }

    /// Self-service: the sender drops its own membership, no admin check.
    pub fn renounce_role(&mut self, role: u8, sender: &Address)
        requires
            old(self).wf(),
        ensures
            final(self).wf(),
            !final(self).spec_has_role(role, *sender),
            forall|r2: u8, a2: Address|
                !(r2 == role && a2 == *sender) ==> #[trigger] final(self).spec_has_role(r2, a2)
                    == old(self).spec_has_role(r2, a2),
            forall|r2: u8|
                #[trigger] final(self).spec_role_admin(r2) == old(self).spec_role_admin(r2),
    {
        self.unset_role(role, sender);
    }

    /// Sets the admin role of `role`, materializing an empty role entry when
    /// `role` was never configured.  Membership is untouched.
    pub fn set_role_admin(&mut self, role: u8, admin_role: u8)
        requires
            old(self).wf(),
        ensures
            final(self).wf(),
            final(self).spec_role_admin(role) == Some(admin_role),
            forall|r2: u8|
                r2 != role ==> #[trigger] final(self).spec_role_admin(r2) == old(
                    self,
                ).spec_role_admin(r2),
            forall|r2: u8, a2: Address|
                #[trigger] final(self).spec_has_role(r2, a2) == old(self).spec_has_role(r2, a2),
    {
        let ghost s0 = self.roles@;
        match self.find_role(role) {
            Some(i) => {
                let entry = &mut self.roles[i];
                entry.1.admin_role = admin_role;
                proof {
                    let e2 = self.roles@[i as int];
                    assert(self.roles@ =~= s0.update(i as int, e2));
                    assert forall|k: u8| true implies #[trigger] assoc_get(self.roles@, k) == (
                    if k == role {
                        Some(e2.1)
                    } else {
                        assoc_get(s0, k)
                    }) by {
                        lemma_assoc_get_update(s0, i as int, e2, k);
                    }
                    lemma_unique_update(s0, i as int, e2);
                }
            },
            None => {
                let new_role = Role { admin_role, members: Vec::new() };
                self.roles.push((role, new_role));
                proof {
                    let e2 = self.roles@[s0.len() as int];
                    assert(self.roles@ =~= s0.push(e2));
                    assert forall|k: u8| true implies #[trigger] assoc_get(self.roles@, k) == (
                    if assoc_get(s0, k) is Some {
                        assoc_get(s0, k)
                    } else if k == role {
                        Some(e2.1)
                    } else {
                        None::<Role>
                    }) by {
                        lemma_assoc_get_push(s0, k, role, e2.1);
                        assert(s0.push((role, e2.1)) =~= s0.push(e2));
                    }
                    lemma_unique_push(s0, role, e2.1);
                    assert(s0.push((role, e2.1)) =~= s0.push(e2));
                }
            },
        }
    }
}

/// Sets the admin role of `role` on behalf of a caller.
///
/// Succeeds exactly when `sender` holds the effective admin role of
/// `role`; membership is untouched either way.
pub fn execute_set_role_admin(
    state: &mut AccessControlState,
    role: u8,
    new_admin_role: u8,
    sender: &Address,
) -> (r: Result<(), ContractError>)
    requires
        old(state).wf(),
    ensures
        final(state).wf(),
        r is Ok <==> old(state).spec_has_role(old(state).spec_admin_of(role), *sender),
        r is Err ==> *final(state) == *old(state) && r == Err::<(), ContractError>(
            ContractError::MissingRole,
        ),
        r is Ok ==> final(state).spec_role_admin(role) == Some(new_admin_role) && (forall|r2: u8|
            r2 != role ==> #[trigger] final(state).spec_role_admin(r2) == old(
                state,
            ).spec_role_admin(r2)) && (forall|r2: u8, a2: Address|
            #[trigger] final(state).spec_has_role(r2, a2) == old(state).spec_has_role(r2, a2)),
{
    let admin = state.get_role_admin(role);
    if !state.has_role(admin, sender) {
        return Err(ContractError::MissingRole);
    }
    state.set_role_admin(role, new_admin_role);
    Ok(())
}

/// Initializes the component: every listed admin receives the bootstrap
/// admin role and every additional role is materialized under it.
pub fn execute_init(msg: &ACInitMsg) -> (r: AccessControlState)
    ensures
        r.wf(),
        forall|a: Address|
            #[trigger] r.spec_has_role(DEFAULT_ADMIN_ROLE, a) <==> msg.admin_addresses@.contains(
                a,
            ),
        forall|role: u8, a: Address|
            role != DEFAULT_ADMIN_ROLE ==> !#[trigger] r.spec_has_role(role, a),
        forall|role: u8| #[trigger] r.spec_admin_of(role) == DEFAULT_ADMIN_ROLE,
{
    let mut state = AccessControlState::new();
    let mut i: usize = 0;
    while i < msg.admin_addresses.len()
        invariant
            i <= msg.admin_addresses@.len(),
            state.wf(),
            forall|a: Address|
                #[trigger] state.spec_has_role(DEFAULT_ADMIN_ROLE, a)
                    <==> msg.admin_addresses@.take(i as int).contains(a),
            forall|role: u8, a: Address|
                role != DEFAULT_ADMIN_ROLE ==> !#[trigger] state.spec_has_role(role, a),
            forall|role: u8| #[trigger] state.spec_admin_of(role) == DEFAULT_ADMIN_ROLE,
        decreases msg.admin_addresses@.len() - i,
    {
        let ghost prev = state;
        state.setup_role(DEFAULT_ADMIN_ROLE, &msg.admin_addresses[i]);
        proof {
            assert forall|role: u8| #[trigger] state.spec_admin_of(role) == DEFAULT_ADMIN_ROLE by {
                assert(prev.spec_admin_of(role) == DEFAULT_ADMIN_ROLE);
            }
            assert forall|a: Address| #[trigger] state.spec_has_role(DEFAULT_ADMIN_ROLE, a)
                <==> msg.admin_addresses@.take(i as int + 1).contains(a) by {
                let t0 = msg.admin_addresses@.take(i as int);
                let t1 = msg.admin_addresses@.take(i as int + 1);
                assert(t1 =~= t0.push(msg.admin_addresses@[i as int]));
                vstd::seq_lib::lemma_seq_contains_after_push(
                    t0,
                    msg.admin_addresses@[i as int],
                    a,
                );
            }
        }
        i += 1;
    }
    proof {
        assert(msg.admin_addresses@.take(msg.admin_addresses@.len() as int)
            =~= msg.admin_addresses@);
    }
    let mut j: usize = 0;
    while j < msg.additional_roles.len()
        invariant
            state.wf(),
            forall|a: Address|
                #[trigger] state.spec_has_role(DEFAULT_ADMIN_ROLE, a)
                    <==> msg.admin_addresses@.contains(a),
            forall|role: u8, a: Address|
                role != DEFAULT_ADMIN_ROLE ==> !#[trigger] state.spec_has_role(role, a),
            forall|role: u8| #[trigger] state.spec_admin_of(role) == DEFAULT_ADMIN_ROLE,
        decreases msg.additional_roles@.len() - j,
    {
        let ghost prev = state;
        state.set_role_admin(msg.additional_roles[j], DEFAULT_ADMIN_ROLE);
        proof {
            assert forall|role: u8| #[trigger] state.spec_admin_of(role) == DEFAULT_ADMIN_ROLE by {
                assert(prev.spec_admin_of(role) == DEFAULT_ADMIN_ROLE);
            }
        }
        j += 1;
    }
    state
}

/// Whether the vector holds the given address.
pub fn contains_address(v: &Vec<Address>, a: &Address) -> (r: bool)
    ensures
        r == v@.contains(*a),
{
    let mut i: usize = 0;
    while i < v.len()
        invariant
            i <= v@.len(),
            forall|j: int| 0 <= j < i ==> v@[j] != *a,
        decreases v@.len() - i,
    {
        if v[i] == *a {
            return true;
        }
        i += 1;
    }
    false
}

/// Index of the first occurrence of the given address, if any.
fn find_address(v: &Vec<Address>, a: &Address) -> (r: Option<usize>)
    ensures
        match r {
            Some(i) => i < v@.len() && v@[i as int] == *a,
            None => !v@.contains(*a),
        },
{
    let mut i: usize = 0;
    while i < v.len()
        invariant
            i <= v@.len(),
            forall|j: int| 0 <= j < i ==> v@[j] != *a,
        decreases v@.len() - i,
    {
        if v[i] == *a {
            return Some(i);
        }
        i += 1;
    }
    None
}

} // verus!
