//! The entry-point state machine of the registry.
//!
//! Every operation takes the aggregate state by value together with the
//! caller's context, and returns either the updated state with the
//! outbound payment requests it produced, or a named failure.  A failing
//! operation returns no state: the caller keeps working with the value it
//! passed in (or a copy of it), so a failure is indistinguishable from a
//! call that never happened.
//!
//! Minting and renewal run in up to two phases.  A privileged caller — an
//! admin, a child-domain mint, or an airdrop redemption — finalizes
//! immediately with no outbound message.  A fee-gated caller gets back one
//! [`PaymentRequest`] and an unchanged state; the environment performs the
//! transfer and later delivers the request's callback token together with
//! the ledger's verdict to [`on_mint_callback`] or
//! [`on_renew_subscription_callback`], which re-derive the fee, hold it
//! against the quoted intent, and only then finalize.
//!
//! Record mutation deliberately requires no domain-owner authorization;
//! callers wanting owner-gated records put [`is_domain_owner`] in front.

use vstd::prelude::*;

use crate::access_control::{ACInitMsg, AccessControlState};
use crate::address::{Address, CallContext, CallbackContext};
use crate::airdrop::AirdropState;
use crate::assoc::assoc_get;
use crate::config::{ContractConfig, ContractStats, UserRole};
use crate::errors::ContractError;
use crate::fees::{compute_fee, spec_compute_fee};
use crate::msgs::{
    CallbackMsg, InitMsg, MintMsg, MPC20TransferFromMsg, OwnerInfoEvent, PaymentIntent,
    PaymentRequest, RenewDomainMsg,
};
use crate::nft::{
    NFTApproveForAllMsg, NFTApproveMsg, NFTContractState, NFTInitMsg, NFTMintMsg,
    NFTTransferFromMsg,
};
use crate::registry::{
    clone_opt_string, spec_new_expiration, spec_valid_name, PartisiaNameSystemState,
    PnsDomainUpdateExpirationMsg, PnsMintMsg, PnsRecordDeleteAllMsg, PnsRecordDeleteMsg,
    PnsRecordMintMsg, PnsRecordUpdateMsg, RecordClass,
};
use crate::utils::MILLIS_PER_YEAR;
use crate::version::ContractVersionBase;
use crate::access_control;
use crate::nft;
use crate::registry;

verus! {

/// The aggregate state of the registry contract.
#[derive(Clone, Debug, PartialEq, Eq)]
pub struct ContractState {
    /// Role membership and role-admin relationships.
    pub access_control: AccessControlState,
    /// Unredeemed airdrop allocations.
    pub airdrop: AirdropState,
    /// Feature toggles, fee schedule and payment assets.
    pub config: ContractConfig,
    /// The token ownership ledger.
    pub nft: NFTContractState,
    /// The domain registry.
    pub pns: PartisiaNameSystemState,
    /// Per-account mint counters.
    pub stats: ContractStats,
    /// Version metadata.
    pub version: ContractVersionBase,
}

impl ContractState {
    /// The components' coupling: every minted domain is backed by a token
    /// that exists in the ledger.
    pub open spec fn tokens_backed(self) -> bool {
        forall|n: Seq<char>|
            #[trigger] self.pns.spec_is_minted(n) ==> self.nft.spec_exists(
                self.pns.spec_get_domain(n).unwrap().token_id,
            )
    }

    /// Well-formedness of every component, plus their coupling.
    pub open spec fn wf(self) -> bool {
        &&& self.access_control.wf()
        &&& self.airdrop.wf()
        &&& self.nft.wf()
        &&& self.pns.wf()
        &&& self.stats.wf()
        &&& self.tokens_backed()
    }

    /// Whether `a` holds the admin role.
    pub open spec fn spec_is_admin(self, a: Address) -> bool {
        self.access_control.spec_has_role(UserRole::Admin.spec_role_id(), a)
    }

    /// Whether `a` holds the whitelist role.
    pub open spec fn spec_is_whitelisted(self, a: Address) -> bool {
        self.access_control.spec_has_role(UserRole::Whitelist.spec_role_id(), a)
    }
}

/// The coupling is untouched by an operation that moves neither the
/// domain map nor the owner map.
proof fn lemma_tokens_backed_unchanged(s0: ContractState, s1: ContractState)
    requires
        s0.tokens_backed(),
        s1.pns == s0.pns,
        s1.nft.owners@ == s0.nft.owners@,
    ensures
        s1.tokens_backed(),
{
    assert forall|n: Seq<char>| #[trigger] s1.pns.spec_is_minted(n) implies s1.nft.spec_exists(
        s1.pns.spec_get_domain(n).unwrap().token_id,
    ) by {
        assert(s0.pns.spec_is_minted(n));
    }
}

/// The coupling survives a change that touches one domain's records or
/// expiration but neither its backing token, the set of minted names, nor
/// the owner map.
proof fn lemma_tokens_backed_record_change(s0: ContractState, s1: ContractState, dv: Seq<char>)
    requires
        s0.tokens_backed(),
        s1.nft.owners@ == s0.nft.owners@,
        forall|n: Seq<char>|
            n != dv ==> #[trigger] s1.pns.spec_get_domain(n) == s0.pns.spec_get_domain(n),
        s1.pns.spec_is_minted(dv) ==> s0.pns.spec_is_minted(dv)
            && s1.pns.spec_get_domain(dv).unwrap().token_id == s0.pns.spec_get_domain(
            dv,
        ).unwrap().token_id,
    ensures
        s1.tokens_backed(),
{
    assert forall|n: Seq<char>| #[trigger] s1.pns.spec_is_minted(n) implies s1.nft.spec_exists(
        s1.pns.spec_get_domain(n).unwrap().token_id,
    ) by {
        assert(s0.pns.spec_is_minted(n));
    }
}

/// One-time setup: rejects an empty or incomplete payment-asset
/// configuration with `PaymentInfoNotValid`, and otherwise produces the
/// initial state — the listed admins hold the admin role, every other
/// role is empty, and no token, domain, counter or allocation exists.
pub fn initialize(ctx: &CallContext, msg: InitMsg) -> (r: Result<
    (ContractState, Vec<PaymentRequest>),
    ContractError,
>)
    ensures
        r is Err <==> !msg.config.spec_payment_config_valid(),
        r is Err ==> r == Err::<(ContractState, Vec<PaymentRequest>), ContractError>(
            ContractError::PaymentInfoNotValid,
        ),
        r is Ok ==> ({
            let st = r.unwrap().0;
            &&& r.unwrap().1@.len() == 0
            &&& st.wf()
            &&& st.config == msg.config
            &&& (forall|a: Address|
                #[trigger] st.spec_is_admin(a) <==> msg.admin_addresses@.contains(a))
            &&& (forall|role: u8, a: Address|
                role != UserRole::Admin.spec_role_id() ==> !#[trigger] st
                    .access_control.spec_has_role(role, a))
            &&& (forall|n: Seq<char>| #[trigger] st.pns.spec_get_domain(n) is None)
            &&& st.nft.supply == 0
            &&& st.nft.next_token_id == 1
            &&& (forall|id: u128| !#[trigger] st.nft.spec_exists(id))
            &&& (forall|a: Address| #[trigger] st.stats.spec_mint_count(a) == 0)
            &&& (forall|a: Address| !#[trigger] st.airdrop.spec_has_airdrop(a))
            &&& st.nft.name@ == msg.name@
            &&& st.nft.symbol@ == msg.symbol@
            &&& st.nft.uri_template@ == msg.uri_template@
        }),
{
    if !msg.config.payment_config_valid() {
        return Err(ContractError::PaymentInfoNotValid);
    }
    let mut additional_roles: Vec<u8> = Vec::new();
    additional_roles.push(UserRole::Whitelist.as_role_id());
    additional_roles.push(UserRole::Airdrop.as_role_id());
    let ac = access_control::execute_init(
        &ACInitMsg { admin_addresses: msg.admin_addresses, additional_roles },
    );
    let nft_state = nft::execute_init(
        &NFTInitMsg { name: msg.name, symbol: msg.symbol, uri_template: msg.uri_template },
    );
    let pns = registry::execute_init(ContractVersionBase::new("meta-names", "1.0.0"));
    let state = ContractState {
        access_control: ac,
        airdrop: AirdropState::new(),
        config: msg.config,
        nft: nft_state,
        pns,
        stats: ContractStats::new(),
        version: ContractVersionBase::new("meta-names", "1.0.0"),
    };
    Ok((state, Vec::new()))
}

/// What transferring `token_id` leaves of the domain map: the domain tied
/// to the token — if any — keeps everything but its records, which are
/// gone; every other domain is untouched.
pub open spec fn spec_domains_after_transfer(
    pns0: PartisiaNameSystemState,
    pns1: PartisiaNameSystemState,
    token_id: u128,
) -> bool {
    forall|n: Seq<char>|
        #![trigger pns1.spec_get_domain(n)]
        match pns0.spec_get_domain(n) {
            None => pns1.spec_get_domain(n) is None,
            Some(d) => if d.token_id == token_id {
                ({
                    let g = pns1.spec_get_domain(n);
                    &&& g is Some
                    &&& g.unwrap().records@.len() == 0
                    &&& g.unwrap().token_id == d.token_id
                    &&& g.unwrap().parent_id == d.parent_id
                    &&& g.unwrap().minted_at == d.minted_at
                    &&& g.unwrap().expires_at == d.expires_at
                })
            } else {
                pns1.spec_get_domain(n) == Some(d)
            },
        }
}

/// Moves a token and, with it, the domain it backs.
///
/// Rejected with `ContractDisabled` when the registry is off; `NotFound`
/// when the token does not exist; `Unauthorized` unless `from` owns it and
/// the sender is owner, approved spender or operator.  On success the
/// token belongs to `to`, its single-token approval is cleared, and every
/// record of the domain tied to the token is deleted: a change of hands
/// invalidates prior attestations.
pub fn transfer_from(
    ctx: &CallContext,
    state: ContractState,
    from: Address,
    to: Address,
    token_id: u128,
) -> (r: Result<(ContractState, Vec<PaymentRequest>), ContractError>)
    requires
        state.wf(),
    ensures
        r == Err::<(ContractState, Vec<PaymentRequest>), ContractError>(
            ContractError::ContractDisabled,
        ) <==> !state.config.contract_enabled,
        r == Err::<(ContractState, Vec<PaymentRequest>), ContractError>(ContractError::NotFound)
            <==> (state.config.contract_enabled && !state.nft.spec_exists(token_id)),
        r == Err::<(ContractState, Vec<PaymentRequest>), ContractError>(
            ContractError::Unauthorized,
        ) <==> (state.config.contract_enabled && state.nft.spec_exists(token_id) && !(
        state.nft.spec_owner_of(token_id) == Some(from) && state.nft.spec_is_approved_or_owner(
            ctx.sender,
            token_id,
        ))),
        r is Ok <==> (state.config.contract_enabled && state.nft.spec_owner_of(token_id) == Some(
            from,
        ) && state.nft.spec_is_approved_or_owner(ctx.sender, token_id)),
        r is Ok ==> ({
            let st = r.unwrap().0;
            &&& r.unwrap().1@.len() == 0
            &&& st.wf()
            &&& st.nft.spec_owner_of(token_id) == Some(to)
            &&& (forall|id: u128|
                id != token_id ==> #[trigger] st.nft.spec_owner_of(id) == state.nft.spec_owner_of(
                    id,
                ))
            &&& st.nft.spec_approved(token_id) is None
            &&& (forall|id: u128|
                id != token_id ==> #[trigger] st.nft.spec_approved(id) == state.nft.spec_approved(
                    id,
                ))
            &&& st.nft.operator_approvals@ == state.nft.operator_approvals@
            &&& st.nft.supply == state.nft.supply
            &&& spec_domains_after_transfer(state.pns, st.pns, token_id)
            &&& st.access_control == state.access_control
            &&& st.config == state.config
            &&& st.stats == state.stats
            &&& st.airdrop == state.airdrop
        }),
{
    if !state.config.contract_enabled {
        return Err(ContractError::ContractDisabled);
    }
    let mut st = state;
    match nft::execute_transfer_from(
        &mut st.nft,
        &ctx.sender,
        &NFTTransferFromMsg { from, to, token_id },
    ) {
        Ok(()) => {},
        Err(e) => {
            return Err(e);
        },
    }
    let name_opt: Option<String> = match st.pns.get_domain_by_token_id(token_id) {
        Some((n, _d)) => Some(n.clone()),
        None => None,
    };
    let ghost nmo = name_opt;
    match name_opt {
        Some(nm) => {
            let ghost nm_view = nm@;
            let res = st.pns.execute_record_delete_all(&PnsRecordDeleteAllMsg { domain: nm });
            proof {
                assert(res is Ok);
            }
        },
        None => {},
    }
    proof {
        assert forall|n: Seq<char>| #[trigger] st.pns.spec_is_minted(n) implies st.nft.spec_exists(
            st.pns.spec_get_domain(n).unwrap().token_id,
        ) by {
            assert(state.pns.spec_is_minted(n));
            let tid2 = state.pns.spec_get_domain(n).unwrap().token_id;
            assert(state.nft.spec_exists(tid2));
            assert(st.pns.spec_get_domain(n).unwrap().token_id == tid2);
            if tid2 != token_id {
                assert(st.nft.spec_owner_of(tid2) == state.nft.spec_owner_of(tid2));
            }
        }
        assert(spec_domains_after_transfer(state.pns, st.pns, token_id)) by {
            assert forall|n: Seq<char>|
                #![trigger st.pns.spec_get_domain(n)]
                true implies (match state.pns.spec_get_domain(n) {
                None => st.pns.spec_get_domain(n) is None,
                Some(d) => if d.token_id == token_id {
                    ({
                        let g = st.pns.spec_get_domain(n);
                        &&& g is Some
                        &&& g.unwrap().records@.len() == 0
                        &&& g.unwrap().token_id == d.token_id
                        &&& g.unwrap().parent_id == d.parent_id
                        &&& g.unwrap().minted_at == d.minted_at
                        &&& g.unwrap().expires_at == d.expires_at
                    })
                } else {
                    st.pns.spec_get_domain(n) == Some(d)
                },
            }) by {
                if state.pns.spec_get_domain(n) is Some {
                    let d = state.pns.spec_get_domain(n).unwrap();
                    if d.token_id == token_id {
                        match nmo {
                            Some(nm) => {
                                state.pns.lemma_token_unique(n, nm@);
                            },
                            None => {
                                state.pns.lemma_minted_token_used(n);
                                assert(false);
                            },
                        }
                    } else {
                        match nmo {
                            Some(nm) => {
                                if n == nm@ {
                                    assert(false);
                                }
                            },
                            None => {},
                        }
                    }
                }
            }
        }
    }
    Ok((st, Vec::new()))
}

/// [`transfer_from`] addressed by domain name: `NotFound` when the name
/// is not minted.
pub fn transfer_domain(
    ctx: &CallContext,
    state: ContractState,
    from: Address,
    to: Address,
    domain: String,
) -> (r: Result<(ContractState, Vec<PaymentRequest>), ContractError>)
    requires
        state.wf(),
    ensures
        r == Err::<(ContractState, Vec<PaymentRequest>), ContractError>(
            ContractError::ContractDisabled,
        ) <==> !state.config.contract_enabled,
        r == Err::<(ContractState, Vec<PaymentRequest>), ContractError>(ContractError::NotFound)
            <==> (state.config.contract_enabled && !state.pns.spec_is_minted(domain@)),
        r is Ok <==> (state.config.contract_enabled && state.pns.spec_is_minted(domain@) && ({
            let tid = state.pns.spec_get_domain(domain@).unwrap().token_id;
            state.nft.spec_owner_of(tid) == Some(from) && state.nft.spec_is_approved_or_owner(
                ctx.sender,
                tid,
            )
        })),
        r == Err::<(ContractState, Vec<PaymentRequest>), ContractError>(
            ContractError::Unauthorized,
        ) <==> (state.config.contract_enabled && state.pns.spec_is_minted(domain@) && !({
            let tid = state.pns.spec_get_domain(domain@).unwrap().token_id;
            state.nft.spec_owner_of(tid) == Some(from) && state.nft.spec_is_approved_or_owner(
                ctx.sender,
                tid,
            )
        })),
        r is Ok ==> ({
            let st = r.unwrap().0;
            let tid = state.pns.spec_get_domain(domain@).unwrap().token_id;
            &&& state.pns.spec_is_minted(domain@)
            &&& state.nft.spec_owner_of(tid) == Some(from)
            &&& state.nft.spec_is_approved_or_owner(ctx.sender, tid)
            &&& r.unwrap().1@.len() == 0
            &&& st.wf()
            &&& st.nft.spec_owner_of(tid) == Some(to)
            &&& st.nft.spec_approved(tid) is None
            &&& spec_domains_after_transfer(state.pns, st.pns, tid)
            &&& st.stats == state.stats
            &&& st.config == state.config
        }),
{
    if !state.config.contract_enabled {
        return Err(ContractError::ContractDisabled);
    }
    let token_id = match state.pns.get_token_id(&domain) {
        Some(id) => id,
        None => {
            return Err(ContractError::NotFound);
        },
    };
    transfer_from(ctx, state, from, to, token_id)
}

/// Attaches a record to a domain; see the registry rules for the errors.
/// Rejected with `ContractDisabled` when the registry is off.
pub fn mint_record(
    ctx: &CallContext,
    state: ContractState,
    domain: String,
    class: RecordClass,
    data: Vec<u8>,
) -> (r: Result<(ContractState, Vec<PaymentRequest>), ContractError>)
    requires
        state.wf(),
    ensures
        r == Err::<(ContractState, Vec<PaymentRequest>), ContractError>(
            ContractError::ContractDisabled,
        ) <==> !state.config.contract_enabled,
        r == Err::<(ContractState, Vec<PaymentRequest>), ContractError>(ContractError::NotFound)
            <==> (state.config.contract_enabled && !state.pns.spec_is_minted(domain@)),
        r == Err::<(ContractState, Vec<PaymentRequest>), ContractError>(
            ContractError::RecordAlreadyMinted,
        ) <==> (state.config.contract_enabled && state.pns.spec_is_minted(domain@) && assoc_get(
            state.pns.spec_get_domain(domain@).unwrap().records@,
            class,
        ) is Some),
        r is Ok <==> (state.config.contract_enabled && state.pns.spec_is_minted(domain@)
            && assoc_get(state.pns.spec_get_domain(domain@).unwrap().records@, class) is None),
        r is Ok ==> ({
            let st = r.unwrap().0;
            let g = st.pns.spec_get_domain(domain@);
            &&& r.unwrap().1@.len() == 0
            &&& st.wf()
            &&& g is Some
            &&& ({
                let rec = assoc_get(g.unwrap().records@, class);
                rec is Some && rec.unwrap().data@ == data@
            })
            &&& (forall|c: RecordClass|
                c != class ==> #[trigger] assoc_get(g.unwrap().records@, c) == assoc_get(
                    state.pns.spec_get_domain(domain@).unwrap().records@,
                    c,
                ))
            &&& (forall|n: Seq<char>|
                n != domain@ ==> #[trigger] st.pns.spec_get_domain(n) == state.pns.spec_get_domain(
                    n,
                ))
            &&& st.nft == state.nft
            &&& st.stats == state.stats
            &&& st.config == state.config
            &&& st.access_control == state.access_control
            &&& st.airdrop == state.airdrop
        }),
{
    if !state.config.contract_enabled {
        return Err(ContractError::ContractDisabled);
    }
    let mut st = state;
    let ghost dv = domain@;
    match st.pns.execute_record_mint(&PnsRecordMintMsg { domain, class, data }) {
        Ok(()) => {
            proof {
                lemma_tokens_backed_record_change(state, st, dv);
            }
            Ok((st, Vec::new()))
        },
        Err(e) => Err(e),
    }
}

/// Whether the `k`-th record mint of a batch can go through once the ones
/// before it have: its domain is minted, no record of its class is
/// attached initially, and no earlier entry of the batch claims the same
/// domain and class.  Record mints neither mint nor unmint domains, so
/// this depends on the initial state alone.
pub open spec fn spec_record_mintable_at(
    s0: ContractState,
    msgs: Seq<PnsRecordMintMsg>,
    k: int,
) -> bool {
    let m = msgs[k];
    &&& s0.pns.spec_is_minted(m.domain@)
    &&& assoc_get(s0.pns.spec_get_domain(m.domain@).unwrap().records@, m.class) is None
    &&& forall|j: int|
        0 <= j < k ==> !((#[trigger] msgs[j]).domain@ == m.domain@ && msgs[j].class == m.class)
}

/// Whether an entry before index `i` of the batch claims the same domain
/// and class as entry `k`.
pub open spec fn spec_record_seen_before(msgs: Seq<PnsRecordMintMsg>, k: int, i: int) -> bool {
    exists|j: int|
        0 <= j < i && (#[trigger] msgs[j]).domain@ == msgs[k].domain@ && msgs[j].class
            == msgs[k].class
}

/// Attaches several records in one request, stopping at the first
/// failure.  Rejected with `ContractDisabled` when the registry is off;
/// succeeds exactly when every entry is mintable in sequence, and then
/// every listed record is attached with its listed payload.
#[verifier::rlimit(80)]
pub fn mint_record_batch(
    ctx: &CallContext,
    state: ContractState,
    mint_msgs: Vec<PnsRecordMintMsg>,
) -> (r: Result<(ContractState, Vec<PaymentRequest>), ContractError>)
    requires
        state.wf(),
    ensures
        r == Err::<(ContractState, Vec<PaymentRequest>), ContractError>(
            ContractError::ContractDisabled,
        ) <==> !state.config.contract_enabled,
        r is Ok <==> (state.config.contract_enabled && (forall|k: int|
            0 <= k < mint_msgs@.len() ==> #[trigger] spec_record_mintable_at(
                state,
                mint_msgs@,
                k,
            ))),
        r is Ok ==> ({
            let st = r.unwrap().0;
            &&& r.unwrap().1@.len() == 0
            &&& st.wf()
            &&& (forall|k: int|
                0 <= k < mint_msgs@.len() ==> ({
                    let m = #[trigger] mint_msgs@[k];
                    let g = st.pns.spec_get_domain(m.domain@);
                    &&& g is Some
                    &&& ({
                        let rec = assoc_get(g.unwrap().records@, m.class);
                        rec is Some && rec.unwrap().data@ == m.data@
                    })
                }))
            &&& st.nft == state.nft
            &&& st.stats == state.stats
            &&& st.config == state.config
        }),
{
    if !state.config.contract_enabled {
        return Err(ContractError::ContractDisabled);
    }
    let mut st = state;
    let mut i: usize = 0;
    while i < mint_msgs.len()
        invariant
            st.wf(),
            state.wf(),
            state.config.contract_enabled,
            i <= mint_msgs@.len(),
            forall|n: Seq<char>|
                #[trigger] st.pns.spec_is_minted(n) == state.pns.spec_is_minted(n),
            forall|k: int|
                #![trigger mint_msgs@[k]]
                0 <= k < mint_msgs@.len() && state.pns.spec_is_minted(mint_msgs@[k].domain@)
                    ==> (assoc_get(
                    st.pns.spec_get_domain(mint_msgs@[k].domain@).unwrap().records@,
                    mint_msgs@[k].class,
                ) is Some <==> (assoc_get(
                    state.pns.spec_get_domain(mint_msgs@[k].domain@).unwrap().records@,
                    mint_msgs@[k].class,
                ) is Some || spec_record_seen_before(mint_msgs@, k, i as int))),
            forall|k: int|
                0 <= k < i ==> #[trigger] spec_record_mintable_at(state, mint_msgs@, k),
            forall|k: int|
                0 <= k < i ==> ({
                    let m = #[trigger] mint_msgs@[k];
                    let g = st.pns.spec_get_domain(m.domain@);
                    &&& g is Some
                    &&& ({
                        let rec = assoc_get(g.unwrap().records@, m.class);
                        rec is Some && rec.unwrap().data@ == m.data@
                    })
                }),
            st.nft == state.nft,
            st.stats == state.stats,
            st.config == state.config,
            st.access_control == state.access_control,
            st.airdrop == state.airdrop,
        decreases mint_msgs@.len() - i,
    {
        let ghost prev = st;
        let res = st.pns.execute_record_mint(&mint_msgs[i]);
        match res {
            Ok(()) => {},
            Err(e) => {
                proof {
                    let mi = mint_msgs@[i as int];
                    // the failing entry was not mintable: either its domain
                    // was never minted, or its class was already taken —
                    // initially or by an earlier entry of the batch
                    assert(!spec_record_mintable_at(state, mint_msgs@, i as int)) by {
                        if prev.pns.spec_is_minted(mi.domain@) {
                            assert(assoc_get(
                                prev.pns.spec_get_domain(mi.domain@).unwrap().records@,
                                mi.class,
                            ) is Some);
                            if !(assoc_get(
                                state.pns.spec_get_domain(mi.domain@).unwrap().records@,
                                mi.class,
                            ) is Some) {
                                assert(spec_record_seen_before(mint_msgs@, i as int, i as int));
                                let j = choose|j: int|
                                    0 <= j < i as int && (#[trigger] mint_msgs@[j]).domain@
                                        == mi.domain@ && mint_msgs@[j].class == mi.class;
                                assert(!spec_record_mintable_at(state, mint_msgs@, i as int));
                            }
                        }
                    }
                }
                return Err(e);
            },
        }
        proof {
            lemma_tokens_backed_record_change(prev, st, mint_msgs@[i as int].domain@);
            let mi = mint_msgs@[i as int];
            assert forall|n: Seq<char>| #[trigger] st.pns.spec_is_minted(n)
                == state.pns.spec_is_minted(n) by {
                assert(prev.pns.spec_is_minted(n) == state.pns.spec_is_minted(n));
                if n != mi.domain@ {
                    assert(st.pns.spec_get_domain(n) == prev.pns.spec_get_domain(n));
                }
            }
            assert(spec_record_mintable_at(state, mint_msgs@, i as int)) by {
                assert(assoc_get(prev.pns.spec_get_domain(mi.domain@).unwrap().records@, mi.class)
                    is None);
                if spec_record_seen_before(mint_msgs@, i as int, i as int) {
                    let j = choose|j: int|
                        0 <= j < i as int && (#[trigger] mint_msgs@[j]).domain@ == mi.domain@
                            && mint_msgs@[j].class == mi.class;
                    assert(assoc_get(
                        prev.pns.spec_get_domain(mi.domain@).unwrap().records@,
                        mi.class,
                    ) is Some);
                }
            }
            assert forall|k: int|
                0 <= k < mint_msgs@.len() && state.pns.spec_is_minted(
                    (#[trigger] mint_msgs@[k]).domain@,
                ) implies (assoc_get(
                st.pns.spec_get_domain(mint_msgs@[k].domain@).unwrap().records@,
                mint_msgs@[k].class,
            ) is Some <==> (assoc_get(
                state.pns.spec_get_domain(mint_msgs@[k].domain@).unwrap().records@,
                mint_msgs@[k].class,
            ) is Some || spec_record_seen_before(mint_msgs@, k, i as int + 1))) by {
                let mk = mint_msgs@[k];
                if mk.domain@ == mi.domain@ && mk.class == mi.class {
                    assert(assoc_get(
                        st.pns.spec_get_domain(mk.domain@).unwrap().records@,
                        mk.class,
                    ) is Some);
                    assert(mint_msgs@[i as int].domain@ == mk.domain@ && mint_msgs@[
                    i as int].class == mk.class);
                    assert(spec_record_seen_before(mint_msgs@, k, i as int + 1));
                } else {
                    assert(assoc_get(
                        st.pns.spec_get_domain(mk.domain@).unwrap().records@,
                        mk.class,
                    ) == assoc_get(
                        prev.pns.spec_get_domain(mk.domain@).unwrap().records@,
                        mk.class,
                    ));
                    assert(spec_record_seen_before(mint_msgs@, k, i as int + 1)
                        == spec_record_seen_before(mint_msgs@, k, i as int)) by {
                        if spec_record_seen_before(mint_msgs@, k, i as int + 1) {
                            let j = choose|j: int|
                                0 <= j < i as int + 1 && (#[trigger] mint_msgs@[j]).domain@
                                    == mk.domain@ && mint_msgs@[j].class == mk.class;
                            assert(j < i as int);
                        }
                    }
                }
            }
            assert forall|k: int| 0 <= k < i as int + 1 implies ({
                let m = #[trigger] mint_msgs@[k];
                let g = st.pns.spec_get_domain(m.domain@);
                &&& g is Some
                &&& ({
                    let rec = assoc_get(g.unwrap().records@, m.class);
                    rec is Some && rec.unwrap().data@ == m.data@
                })
            }) by {
                let m = mint_msgs@[k];
                if k < i as int {
                    if m.domain@ == mi.domain@ && m.class == mi.class {
                        // the record already existed, so the mint would
                        // have been rejected
                        assert(res is Err);
                    }
                }
            }
        }
        i += 1;
    }
    Ok((st, Vec::new()))
}

/// Replaces the payload of a record; see the registry rules for the
/// errors.  Rejected with `ContractDisabled` when the registry is off.
pub fn update_record(
    ctx: &CallContext,
    state: ContractState,
    domain: String,
    class: RecordClass,
    data: Vec<u8>,
) -> (r: Result<(ContractState, Vec<PaymentRequest>), ContractError>)
    requires
        state.wf(),
    ensures
        r == Err::<(ContractState, Vec<PaymentRequest>), ContractError>(
            ContractError::ContractDisabled,
        ) <==> !state.config.contract_enabled,
        r == Err::<(ContractState, Vec<PaymentRequest>), ContractError>(ContractError::NotFound)
            <==> (state.config.contract_enabled && !state.pns.spec_is_minted(domain@)),
        r == Err::<(ContractState, Vec<PaymentRequest>), ContractError>(
            ContractError::RecordNotFound,
        ) <==> (state.config.contract_enabled && state.pns.spec_is_minted(domain@) && assoc_get(
            state.pns.spec_get_domain(domain@).unwrap().records@,
            class,
        ) is None),
        r is Ok <==> (state.config.contract_enabled && state.pns.spec_is_minted(domain@)
            && assoc_get(state.pns.spec_get_domain(domain@).unwrap().records@, class) is Some),
        r is Ok ==> ({
            let st = r.unwrap().0;
            let g = st.pns.spec_get_domain(domain@);
            &&& r.unwrap().1@.len() == 0
            &&& st.wf()
            &&& g is Some
            &&& ({
                let rec = assoc_get(g.unwrap().records@, class);
                rec is Some && rec.unwrap().data@ == data@
            })
            &&& (forall|c: RecordClass|
                c != class ==> #[trigger] assoc_get(g.unwrap().records@, c) == assoc_get(
                    state.pns.spec_get_domain(domain@).unwrap().records@,
                    c,
                ))
            &&& (forall|n: Seq<char>|
                n != domain@ ==> #[trigger] st.pns.spec_get_domain(n) == state.pns.spec_get_domain(
                    n,
                ))
            &&& st.nft == state.nft
            &&& st.stats == state.stats
        }),
{
    if !state.config.contract_enabled {
        return Err(ContractError::ContractDisabled);
    }
    let mut st = state;
    let ghost dv = domain@;
    match st.pns.execute_record_update(&PnsRecordUpdateMsg { domain, class, data }) {
        Ok(()) => {
            proof {
                lemma_tokens_backed_record_change(state, st, dv);
            }
            Ok((st, Vec::new()))
        },
        Err(e) => Err(e),
    }
}

/// Detaches a record; see the registry rules for the errors.  Rejected
/// with `ContractDisabled` when the registry is off.
pub fn delete_record(
    ctx: &CallContext,
    state: ContractState,
    domain: String,
    class: RecordClass,
) -> (r: Result<(ContractState, Vec<PaymentRequest>), ContractError>)
    requires
        state.wf(),
    ensures
        r == Err::<(ContractState, Vec<PaymentRequest>), ContractError>(
            ContractError::ContractDisabled,
        ) <==> !state.config.contract_enabled,
        r == Err::<(ContractState, Vec<PaymentRequest>), ContractError>(ContractError::NotFound)
            <==> (state.config.contract_enabled && !state.pns.spec_is_minted(domain@)),
        r == Err::<(ContractState, Vec<PaymentRequest>), ContractError>(
            ContractError::RecordNotFound,
        ) <==> (state.config.contract_enabled && state.pns.spec_is_minted(domain@) && assoc_get(
            state.pns.spec_get_domain(domain@).unwrap().records@,
            class,
        ) is None),
        r is Ok <==> (state.config.contract_enabled && state.pns.spec_is_minted(domain@)
            && assoc_get(state.pns.spec_get_domain(domain@).unwrap().records@, class) is Some),
        r is Ok ==> ({
            let st = r.unwrap().0;
            let g = st.pns.spec_get_domain(domain@);
            &&& r.unwrap().1@.len() == 0
            &&& st.wf()
            &&& g is Some
            &&& assoc_get(g.unwrap().records@, class) is None
            &&& (forall|c: RecordClass|
                c != class ==> #[trigger] assoc_get(g.unwrap().records@, c) == assoc_get(
                    state.pns.spec_get_domain(domain@).unwrap().records@,
                    c,
                ))
            &&& (forall|n: Seq<char>|
                n != domain@ ==> #[trigger] st.pns.spec_get_domain(n) == state.pns.spec_get_domain(
                    n,
                ))
            &&& st.nft == state.nft
            &&& st.stats == state.stats
        }),
{
    if !state.config.contract_enabled {
        return Err(ContractError::ContractDisabled);
    }
    let mut st = state;
    let ghost dv = domain@;
    match st.pns.execute_record_delete(&PnsRecordDeleteMsg { domain, class }) {
        Ok(()) => {
            proof {
                lemma_tokens_backed_record_change(state, st, dv);
            }
            Ok((st, Vec::new()))
        },
        Err(e) => Err(e),
    }
}

/// Sets or clears the approved spender of a token.
///
/// Rejected with `ContractDisabled` when the registry is off; otherwise
/// the ledger rules apply: `NotFound` for an unknown token, `Unauthorized`
/// unless the sender owns the token or operates for its owner.
pub fn approve(
    ctx: &CallContext,
    state: ContractState,
    approved: Option<Address>,
    token_id: u128,
) -> (r: Result<(ContractState, Vec<PaymentRequest>), ContractError>)
    requires
        state.wf(),
    ensures
        r == Err::<(ContractState, Vec<PaymentRequest>), ContractError>(
            ContractError::ContractDisabled,
        ) <==> !state.config.contract_enabled,
        r == Err::<(ContractState, Vec<PaymentRequest>), ContractError>(ContractError::NotFound)
            <==> (state.config.contract_enabled && !state.nft.spec_exists(token_id)),
        r == Err::<(ContractState, Vec<PaymentRequest>), ContractError>(
            ContractError::Unauthorized,
        ) <==> (state.config.contract_enabled && state.nft.spec_exists(token_id) && !(
        state.nft.spec_owner_of(token_id) == Some(ctx.sender) || state.nft.spec_is_operator(
            state.nft.spec_owner_of(token_id).unwrap(),
            ctx.sender,
        ))),
        r is Ok <==> (state.config.contract_enabled && state.nft.spec_exists(token_id) && (
        state.nft.spec_owner_of(token_id) == Some(ctx.sender) || state.nft.spec_is_operator(
            state.nft.spec_owner_of(token_id).unwrap(),
            ctx.sender,
        ))),
        r is Ok ==> ({
            let st = r.unwrap().0;
            &&& r.unwrap().1@.len() == 0
            &&& st.wf()
            &&& st.nft.spec_approved(token_id) == approved
            &&& (forall|id: u128|
                id != token_id ==> #[trigger] st.nft.spec_approved(id) == state.nft.spec_approved(
                    id,
                ))
            &&& st.nft.owners@ == state.nft.owners@
            &&& st.nft.operator_approvals@ == state.nft.operator_approvals@
            &&& st.pns == state.pns
            &&& st.access_control == state.access_control
            &&& st.airdrop == state.airdrop
            &&& st.config == state.config
            &&& st.stats == state.stats
        }),
{
    if !state.config.contract_enabled {
        return Err(ContractError::ContractDisabled);
    }
    let mut st = state;
    match nft::execute_approve(&mut st.nft, &ctx.sender, &NFTApproveMsg { approved, token_id }) {
        Ok(()) => Ok((st, Vec::new())),
        Err(e) => Err(e),
    }
}

/// [`approve`] addressed by domain name: `NotFound` when the name is not
/// minted.
pub fn approve_domain(
    ctx: &CallContext,
    state: ContractState,
    approved: Option<Address>,
    domain: String,
) -> (r: Result<(ContractState, Vec<PaymentRequest>), ContractError>)
    requires
        state.wf(),
    ensures
        r == Err::<(ContractState, Vec<PaymentRequest>), ContractError>(
            ContractError::ContractDisabled,
        ) <==> !state.config.contract_enabled,
        r == Err::<(ContractState, Vec<PaymentRequest>), ContractError>(ContractError::NotFound)
            <==> (state.config.contract_enabled && !state.pns.spec_is_minted(domain@)),
        r is Ok <==> (state.config.contract_enabled && state.pns.spec_is_minted(domain@) && ({
            let tid = state.pns.spec_get_domain(domain@).unwrap().token_id;
            state.nft.spec_owner_of(tid) == Some(ctx.sender) || state.nft.spec_is_operator(
                state.nft.spec_owner_of(tid).unwrap(),
                ctx.sender,
            )
        })),
        r == Err::<(ContractState, Vec<PaymentRequest>), ContractError>(
            ContractError::Unauthorized,
        ) <==> (state.config.contract_enabled && state.pns.spec_is_minted(domain@) && !({
            let tid = state.pns.spec_get_domain(domain@).unwrap().token_id;
            state.nft.spec_owner_of(tid) == Some(ctx.sender) || state.nft.spec_is_operator(
                state.nft.spec_owner_of(tid).unwrap(),
                ctx.sender,
            )
        })),
        r is Ok ==> ({
            let st = r.unwrap().0;
            let tid = state.pns.spec_get_domain(domain@).unwrap().token_id;
            &&& state.pns.spec_is_minted(domain@)
            &&& r.unwrap().1@.len() == 0
            &&& st.wf()
            &&& st.nft.spec_approved(tid) == approved
            &&& (forall|id: u128|
                id != tid ==> #[trigger] st.nft.spec_approved(id) == state.nft.spec_approved(id))
            &&& st.nft.owners@ == state.nft.owners@
            &&& st.pns == state.pns
            &&& st.stats == state.stats
        }),
{
    if !state.config.contract_enabled {
        return Err(ContractError::ContractDisabled);
    }
    let token_id = match state.pns.get_token_id(&domain) {
        Some(id) => id,
        None => {
            return Err(ContractError::NotFound);
        },
    };
    proof {
        // the coupling invariant: a minted domain's token exists
        assert(state.pns.spec_is_minted(domain@));
        assert(state.nft.spec_exists(token_id));
    }
    approve(ctx, state, approved, token_id)
}

/// Grants or revokes a blanket operator approval for the sender's tokens.
///
/// Rejected with `ContractDisabled` when the registry is off and with
/// `Unauthorized` on self-approval; granting twice or revoking a
/// non-existent approval is a no-op.
pub fn set_approval_for_all(
    ctx: &CallContext,
    state: ContractState,
    operator: Address,
    approved: bool,
) -> (r: Result<(ContractState, Vec<PaymentRequest>), ContractError>)
    requires
        state.wf(),
    ensures
        r == Err::<(ContractState, Vec<PaymentRequest>), ContractError>(
            ContractError::ContractDisabled,
        ) <==> !state.config.contract_enabled,
        r == Err::<(ContractState, Vec<PaymentRequest>), ContractError>(
            ContractError::Unauthorized,
        ) <==> (state.config.contract_enabled && operator == ctx.sender),
        r is Ok <==> (state.config.contract_enabled && operator != ctx.sender),
        r is Ok ==> ({
            let st = r.unwrap().0;
            &&& r.unwrap().1@.len() == 0
            &&& st.wf()
            &&& st.nft.spec_is_operator(ctx.sender, operator) == approved
            &&& (forall|o: Address, p: Address|
                !(o == ctx.sender && p == operator) ==> #[trigger] st.nft.spec_is_operator(o, p)
                    == state.nft.spec_is_operator(o, p))
            &&& st.nft.owners@ == state.nft.owners@
            &&& st.nft.token_approvals@ == state.nft.token_approvals@
            &&& st.pns == state.pns
            &&& st.stats == state.stats
        }),
{
    if !state.config.contract_enabled {
        return Err(ContractError::ContractDisabled);
    }
    let mut st = state;
    match nft::execute_set_approval_for_all(
        &mut st.nft,
        &ctx.sender,
        &NFTApproveForAllMsg { operator, approved },
    ) {
        Ok(()) => Ok((st, Vec::new())),
        Err(e) => Err(e),
    }
}

/// How many domain tokens `address` holds, and the total supply.
pub fn owner_info(state: &ContractState, address: Address) -> (r: OwnerInfoEvent)
    ensures
        r.owner == address,
        r.domain_count == (match assoc_get(state.nft.owners_balance@, address) {
            Some(b) => b,
            None => 0,
        }),
        r.total_supply == state.nft.supply,
{
    let domain_count = match state.nft.balance_of(&address) {
        Some(b) => b,
        None => 0,
    };
    OwnerInfoEvent { owner: address, domain_count, total_supply: state.nft.supply }
}

/// Succeeds exactly when the domain is minted and its backing token is
/// owned by `address`; `NotFound` for an unminted name, `Unauthorized`
/// otherwise.
pub fn is_domain_owner(state: &ContractState, domain: &String, address: Address) -> (r: Result<
    (),
    ContractError,
>)
    ensures
        r == Err::<(), ContractError>(ContractError::NotFound) <==> !state.pns.spec_is_minted(
            domain@,
        ),
        r is Ok <==> (state.pns.spec_is_minted(domain@) && state.nft.spec_owner_of(
            state.pns.spec_get_domain(domain@).unwrap().token_id,
        ) == Some(address)),
        r is Err ==> (r == Err::<(), ContractError>(ContractError::NotFound) || r == Err::<
            (),
            ContractError,
        >(ContractError::Unauthorized)),
{
    let token_id = match state.pns.get_token_id(domain) {
        Some(id) => id,
        None => {
            return Err(ContractError::NotFound);
        },
    };
    match state.nft.owner_of(token_id) {
        Some(o) => {
            if o == address {
                Ok(())
            } else {
                Err(ContractError::Unauthorized)
            }
        },
        None => Err(ContractError::Unauthorized),
    }
}

/// Whether `account` may manage the domain: the name is minted and the
/// account owns the backing token, is its approved spender, or operates
/// for the owner.
pub fn allowed_to_manage(state: &ContractState, account: &Address, domain: &String) -> (r: bool)
    ensures
        r == (state.pns.spec_is_minted(domain@) && state.nft.spec_is_approved_or_owner(
            *account,
            state.pns.spec_get_domain(domain@).unwrap().token_id,
        )),
{
    match state.pns.get_token_id(domain) {
        Some(token_id) => state.nft.is_approved_or_owner(account, token_id),
        None => false,
    }
}

/// Grants (`active`) or revokes (`!active`) one of the named roles.
///
/// Fails with `MissingRole` exactly when the sender does not hold the
/// admin role of the target role.
pub fn update_user_role(
    ctx: &CallContext,
    state: ContractState,
    role: UserRole,
    address: Address,
    active: bool,
) -> (r: Result<(ContractState, Vec<PaymentRequest>), ContractError>)
    requires
        state.wf(),
    ensures
        r is Err <==> !state.access_control.spec_has_role(
            state.access_control.spec_admin_of(role.spec_role_id()),
            ctx.sender,
        ),
        r is Err ==> r == Err::<(ContractState, Vec<PaymentRequest>), ContractError>(
            ContractError::MissingRole,
        ),
        r is Ok ==> ({
            let st = r.unwrap().0;
            &&& r.unwrap().1@.len() == 0
            &&& st.wf()
            &&& st.access_control.spec_has_role(role.spec_role_id(), address) == active
            &&& (forall|r2: u8, a2: Address|
                !(r2 == role.spec_role_id() && a2 == address) ==> #[trigger] st
                    .access_control.spec_has_role(r2, a2) == state.access_control.spec_has_role(
                    r2,
                    a2,
                ))
            &&& st.nft == state.nft
            &&& st.pns == state.pns
            &&& st.config == state.config
            &&& st.stats == state.stats
            &&& st.airdrop == state.airdrop
        }),
{
    let mut st = state;
    let role_id = role.as_role_id();
    let res = if active {
        st.access_control.grant_role(role_id, &address, &ctx.sender)
    } else {
        st.access_control.revoke_role(role_id, &address, &ctx.sender)
    };
    match res {
        Ok(()) => Ok((st, Vec::new())),
        Err(e) => Err(e),
    }
}

/// Replaces the whole configuration atomically.
///
/// Fails with `Unauthorized` exactly when the sender is not an admin.
pub fn update_config(ctx: &CallContext, state: ContractState, config: ContractConfig) -> (r:
    Result<(ContractState, Vec<PaymentRequest>), ContractError>)
    requires
        state.wf(),
    ensures
        r is Err <==> !state.spec_is_admin(ctx.sender),
        r is Err ==> r == Err::<(ContractState, Vec<PaymentRequest>), ContractError>(
            ContractError::Unauthorized,
        ),
        r is Ok ==> ({
            let st = r.unwrap().0;
            &&& r.unwrap().1@.len() == 0
            &&& st.wf()
            &&& st.config == config
            &&& st.nft == state.nft
            &&& st.pns == state.pns
            &&& st.access_control == state.access_control
            &&& st.stats == state.stats
            &&& st.airdrop == state.airdrop
        }),
{
    if !state.access_control.has_role(UserRole::Admin.as_role_id(), &ctx.sender) {
        return Err(ContractError::Unauthorized);
    }
    let mut st = state;
    st.config = config;
    Ok((st, Vec::new()))
}

/// Hands one airdrop allocation to each listed account.
///
/// Fails with `Unauthorized` exactly when the sender does not hold the
/// airdrop role.
pub fn add_airdrop(ctx: &CallContext, state: ContractState, addresses: Vec<Address>) -> (r: Result<
    (ContractState, Vec<PaymentRequest>),
    ContractError,
>)
    requires
        state.wf(),
    ensures
        r is Err <==> !state.access_control.spec_has_role(
            UserRole::Airdrop.spec_role_id(),
            ctx.sender,
        ),
        r is Err ==> r == Err::<(ContractState, Vec<PaymentRequest>), ContractError>(
            ContractError::Unauthorized,
        ),
        r is Ok ==> ({
            let st = r.unwrap().0;
            &&& r.unwrap().1@.len() == 0
            &&& st.wf()
            &&& (forall|a: Address|
                #[trigger] st.airdrop.spec_has_airdrop(a) == (state.airdrop.spec_has_airdrop(a)
                    || addresses@.contains(a)))
            &&& st.nft == state.nft
            &&& st.pns == state.pns
            &&& st.access_control == state.access_control
            &&& st.config == state.config
            &&& st.stats == state.stats
        }),
{
    if !state.access_control.has_role(UserRole::Airdrop.as_role_id(), &ctx.sender) {
        return Err(ContractError::Unauthorized);
    }
    let mut st = state;
    let ghost airdrop0 = st.airdrop;
    let mut i: usize = 0;
    while i < addresses.len()
        invariant
            st.airdrop.wf(),
            i <= addresses@.len(),
            forall|a: Address|
                #[trigger] st.airdrop.spec_has_airdrop(a) == (airdrop0.spec_has_airdrop(a)
                    || addresses@.take(i as int).contains(a)),
            airdrop0 == state.airdrop,
            st.nft == state.nft,
            st.pns == state.pns,
            st.access_control == state.access_control,
            st.config == state.config,
            st.stats == state.stats,
        decreases addresses@.len() - i,
    {
        let ghost prev = st.airdrop;
        st.airdrop.add_airdrop(&addresses[i]);
        proof {
            assert forall|a: Address| #[trigger] st.airdrop.spec_has_airdrop(a) == (
            airdrop0.spec_has_airdrop(a) || addresses@.take(i as int + 1).contains(a)) by {
                let t0 = addresses@.take(i as int);
                let t1 = addresses@.take(i as int + 1);
                assert(t1 =~= t0.push(addresses@[i as int]));
                vstd::seq_lib::lemma_seq_contains_after_push(t0, addresses@[i as int], a);
                if a != addresses@[i as int] {
                    assert(st.airdrop.spec_has_airdrop(a) == prev.spec_has_airdrop(a));
                }
            }
        }
        i += 1;
    }
    proof {
        assert(addresses@.take(addresses@.len() as int) =~= addresses@);
    }
    Ok((st, Vec::new()))
}

/// The subscription years a mint request asks for: one when unspecified.
pub open spec fn spec_years_of(years: Option<u32>) -> u32 {
    match years {
        Some(y) => y,
        None => 1,
    }
}

/// The outcome of the finalization checks of a mint: which error it is
/// rejected with, in the order the checks run, or that it goes through.
///
/// The last clause covers the edge of the id space: the ledger's next
/// token id must be usable and not already back a domain.
pub open spec fn spec_mint_check(
    s: ContractState,
    sender: Address,
    domain: Seq<char>,
    parent_id: Option<String>,
    years: Option<u32>,
    now: i64,
) -> Result<(), ContractError> {
    if s.pns.spec_is_minted(domain) {
        Err(ContractError::AlreadyMinted)
    } else if !spec_valid_name(domain) {
        Err(ContractError::InvalidDomain)
    } else if parent_id is Some && !s.pns.spec_is_minted(parent_id.unwrap()@) {
        Err(ContractError::ParentNotFound)
    } else if parent_id is Some && !s.pns.spec_is_active(parent_id.unwrap()@, now) {
        Err(ContractError::ParentNotActive)
    } else if parent_id is Some && !s.nft.spec_is_approved_or_owner(
        sender,
        s.pns.spec_get_domain(parent_id.unwrap()@).unwrap().token_id,
    ) {
        Err(ContractError::Unauthorized)
    } else if parent_id is None && years is Some && now + years.unwrap() * MILLIS_PER_YEAR
        > i64::MAX {
        Err(ContractError::InvalidSubscriptionYears)
    } else if s.nft.next_token_id == u128::MAX || s.pns.spec_token_used(s.nft.next_token_id) {
        Err(ContractError::AlreadyMinted)
    } else {
        Ok(())
    }
}

/// What a successful finalization leaves behind: the domain minted under
/// a fresh token owned by `to`, everything else untouched but the
/// caller's mint counter when `count_stat` is set.
pub open spec fn spec_minted_state(
    s0: ContractState,
    s1: ContractState,
    sender: Address,
    domain: Seq<char>,
    to: Address,
    token_uri: Option<String>,
    parent_id: Option<String>,
    years: Option<u32>,
    now: i64,
    count_stat: bool,
) -> bool {
    let tid = s0.nft.next_token_id;
    let g = s1.pns.spec_get_domain(domain);
    &&& s1.wf()
    &&& g is Some
    &&& g.unwrap().token_id == tid
    &&& g.unwrap().parent_id == parent_id
    &&& g.unwrap().minted_at == now
    &&& g.unwrap().expires_at == (if parent_id is Some {
        None::<i64>
    } else {
        match years {
            Some(y) => Some((now + y * MILLIS_PER_YEAR) as i64),
            None => None,
        }
    })
    &&& g.unwrap().records@.len() == 0
    &&& (forall|n: Seq<char>|
        n != domain ==> #[trigger] s1.pns.spec_get_domain(n) == s0.pns.spec_get_domain(n))
    &&& s1.nft.spec_owner_of(tid) == Some(to)
    &&& (forall|id: u128|
        id != tid ==> #[trigger] s1.nft.spec_owner_of(id) == s0.nft.spec_owner_of(id))
    &&& s1.nft.supply == s0.nft.supply + 1
    &&& (forall|id: u128| #[trigger] s1.nft.spec_approved(id) == s0.nft.spec_approved(id))
    &&& s1.nft.operator_approvals@ == s0.nft.operator_approvals@
    &&& s1.nft.spec_token_uri(tid) == token_uri
    &&& (if count_stat {
        s1.stats.spec_mint_count(sender) == (if s0.stats.spec_mint_count(sender) < u32::MAX {
            s0.stats.spec_mint_count(sender) + 1
        } else {
            u32::MAX as int
        }) && (forall|b: Address|
            b != sender ==> #[trigger] s1.stats.spec_mint_count(b) == s0.stats.spec_mint_count(b))
    } else {
        s1.stats == s0.stats
    })
    &&& s1.nft.name == s0.nft.name
    &&& s1.nft.symbol == s0.nft.symbol
    &&& s1.nft.uri_template == s0.nft.uri_template
    &&& s1.access_control == s0.access_control
    &&& s1.config == s0.config
    &&& s1.version == s0.version
}

/// Finalizes a mint: creates the backing token and the domain, and — on
/// the fee-gated path — counts the mint against the caller.
///
/// The outcome is exactly [`spec_mint_check`]; on success the state is
/// exactly [`spec_minted_state`] but for the airdrop component, which this
/// step never touches.
pub fn action_mint(
    ctx: &CallContext,
    state: &mut ContractState,
    domain: &String,
    to: Address,
    token_uri: &Option<String>,
    parent_id: &Option<String>,
    subscription_years: Option<u32>,
    count_stat: bool,
) -> (r: Result<(), ContractError>)
    requires
        old(state).wf(),
    ensures
        final(state).wf(),
        r == spec_mint_check(
            *old(state),
            ctx.sender,
            domain@,
            *parent_id,
            subscription_years,
            ctx.block_production_time,
        ),
        r is Err ==> *final(state) == *old(state),
        r != Err::<(), ContractError>(ContractError::ContractDisabled),
        r is Ok ==> spec_minted_state(
            *old(state),
            *final(state),
            ctx.sender,
            domain@,
            to,
            *token_uri,
            *parent_id,
            subscription_years,
            ctx.block_production_time,
            count_stat,
        ),
        final(state).airdrop == old(state).airdrop,
{
    let now = ctx.block_production_time;
    if state.pns.is_minted(domain) {
        return Err(ContractError::AlreadyMinted);
    }
    if !registry::validate_domain(domain) {
        return Err(ContractError::InvalidDomain);
    }
    let expires_at: Option<i64> = match parent_id {
        Some(p) => {
            if !state.pns.is_minted(p) {
                return Err(ContractError::ParentNotFound);
            }
            if !state.pns.is_active(p, now) {
                return Err(ContractError::ParentNotActive);
            }
            let parent_token = match state.pns.get_token_id(p) {
                Some(id) => id,
                None => {
                    proof {
                        assert(false);
                    }
                    0
                },
            };
            if !state.nft.is_approved_or_owner(&ctx.sender, parent_token) {
                return Err(ContractError::Unauthorized);
            }
            None
        },
        None => {
            match subscription_years {
                Some(y) => {
                    let total: i128 = (now as i128) + (y as i128) * (MILLIS_PER_YEAR as i128);
                    if total > i64::MAX as i128 {
                        return Err(ContractError::InvalidSubscriptionYears);
                    }
                    Some(total as i64)
                },
                None => None,
            }
        },
    };
    let token_id = state.nft.get_next_token_id();
    if token_id == u128::MAX {
        return Err(ContractError::AlreadyMinted);
    }
    if state.pns.token_used(token_id) {
        return Err(ContractError::AlreadyMinted);
    }
    let res_nft = nft::execute_mint(
        &mut state.nft,
        &NFTMintMsg { token_id, to, token_uri: clone_opt_string(token_uri) },
    );
    proof {
        assert(res_nft is Ok);
    }
    match res_nft {
        Ok(()) => {},
        Err(e) => {
            return Err(e);
        },
    }
    let res_pns = state.pns.execute_mint(
        &PnsMintMsg {
            domain: domain.clone(),
            token_id,
            parent_id: clone_opt_string(parent_id),
            expires_at,
        },
        now,
    );
    proof {
        assert(res_pns is Ok);
    }
    match res_pns {
        Ok(()) => {},
        Err(e) => {
            return Err(e);
        },
    }
    if count_stat {
        state.stats.increase_mint_count(ctx.sender);
    }
    proof {
        assert forall|n: Seq<char>| #[trigger] state.pns.spec_is_minted(n) implies state
            .nft.spec_exists(state.pns.spec_get_domain(n).unwrap().token_id) by {
            if n == domain@ {
                assert(state.nft.spec_owner_of(token_id) == Some(to));
            } else {
                assert(old(state).pns.spec_is_minted(n));
                let tid2 = old(state).pns.spec_get_domain(n).unwrap().token_id;
                assert(old(state).nft.spec_exists(tid2));
                if tid2 != token_id {
                    assert(state.nft.spec_owner_of(tid2) == old(state).nft.spec_owner_of(tid2));
                }
            }
        }
    }
    Ok(())
}

/// Builds the outbound payment request of a fee-gated mint: the fee
/// transfer from the mint target, the quoted intent, and the callback
/// token resuming the mint.
pub fn action_build_mint_callback(intent: &PaymentIntent, msg: MintMsg) -> (r: Vec<PaymentRequest>)
    requires
        intent.id == msg.payment_coin_id,
    ensures
        r@.len() == 1,
        r@[0] == (PaymentRequest {
            intent: *intent,
            transfer: MPC20TransferFromMsg {
                from: msg.to,
                to: intent.receiver,
                amount: intent.total_fees,
            },
            callback: CallbackMsg::OnMint(msg),
        }),
{
    let transfer = MPC20TransferFromMsg {
        from: msg.to,
        to: intent.receiver,
        amount: intent.total_fees,
    };
    let mut out: Vec<PaymentRequest> = Vec::new();
    out.push(PaymentRequest { intent: *intent, transfer, callback: CallbackMsg::OnMint(msg) });
    out
}

/// Builds the outbound payment request of a fee-gated renewal: the fee
/// transfer from the payer, the quoted intent, and the callback token
/// resuming the renewal.
pub fn action_build_renew_callback(intent: &PaymentIntent, msg: RenewDomainMsg) -> (r: Vec<
    PaymentRequest,
>)
    requires
        intent.id == msg.payment_coin_id,
    ensures
        r@.len() == 1,
        r@[0] == (PaymentRequest {
            intent: *intent,
            transfer: MPC20TransferFromMsg {
                from: msg.payer,
                to: intent.receiver,
                amount: intent.total_fees,
            },
            callback: CallbackMsg::OnRenew(msg),
        }),
{
    let transfer = MPC20TransferFromMsg {
        from: msg.payer,
        to: intent.receiver,
        amount: intent.total_fees,
    };
    let mut out: Vec<PaymentRequest> = Vec::new();
    out.push(PaymentRequest { intent: *intent, transfer, callback: CallbackMsg::OnRenew(msg) });
    out
}

/// The outcome of the renewal checks: `NotFound` for an unminted name,
/// `NotRenewable` for a child domain, `InvalidSubscriptionYears` when the
/// new expiration would not be representable.
pub open spec fn spec_renew_check(
    s: ContractState,
    domain: Seq<char>,
    years: u32,
    now: i64,
) -> Result<(), ContractError> {
    if !s.pns.spec_is_minted(domain) {
        Err(ContractError::NotFound)
    } else if s.pns.spec_get_domain(domain).unwrap().parent_id is Some {
        Err(ContractError::NotRenewable)
    } else if spec_new_expiration(
        s.pns.spec_get_domain(domain).unwrap().expires_at,
        now,
        years * MILLIS_PER_YEAR,
    ) > i64::MAX {
        Err(ContractError::InvalidSubscriptionYears)
    } else {
        Ok(())
    }
}

/// Finalizes a renewal: moves the domain's expiration to
/// [`spec_new_expiration`] — counting from the old expiration while the
/// domain is alive and from `now` once it expired.
pub fn action_renew_subscription(
    ctx: &CallContext,
    state: &mut ContractState,
    domain: &String,
    subscription_years: u32,
) -> (r: Result<(), ContractError>)
    requires
        old(state).wf(),
    ensures
        final(state).wf(),
        r == spec_renew_check(
            *old(state),
            domain@,
            subscription_years,
            ctx.block_production_time,
        ),
        r is Err ==> *final(state) == *old(state),
        r is Ok ==> ({
            let d0 = old(state).pns.spec_get_domain(domain@).unwrap();
            let g = final(state).pns.spec_get_domain(domain@);
            &&& g is Some
            &&& g.unwrap().expires_at == Some(
                spec_new_expiration(
                    d0.expires_at,
                    ctx.block_production_time,
                    subscription_years * MILLIS_PER_YEAR,
                ) as i64,
            )
            &&& g.unwrap().token_id == d0.token_id
            &&& g.unwrap().parent_id == d0.parent_id
            &&& g.unwrap().records@ == d0.records@
            &&& (forall|n: Seq<char>|
                n != domain@ ==> #[trigger] final(state).pns.spec_get_domain(n) == old(
                    state,
                ).pns.spec_get_domain(n))
            &&& final(state).nft == old(state).nft
            &&& final(state).stats == old(state).stats
            &&& final(state).config == old(state).config
            &&& final(state).access_control == old(state).access_control
            &&& final(state).airdrop == old(state).airdrop
        }),
{
    let now = ctx.block_production_time;
    let d = match state.pns.get_domain(domain) {
        Some(d) => d,
        None => {
            return Err(ContractError::NotFound);
        },
    };
    if d.parent_id.is_some() {
        return Err(ContractError::NotRenewable);
    }
    let base: i64 = match d.expires_at {
        Some(e) => if e >= now {
            e
        } else {
            now
        },
        None => now,
    };
    proof {
        assert((subscription_years as int) * (MILLIS_PER_YEAR as int) <= (u32::MAX as int) * (
        MILLIS_PER_YEAR as int)) by (nonlinear_arith)
            requires
                subscription_years <= u32::MAX,
        ;
    }
    let total: i128 = (base as i128) + (subscription_years as i128) * (MILLIS_PER_YEAR as i128);
    if total > i64::MAX as i128 {
        return Err(ContractError::InvalidSubscriptionYears);
    }
    let new_expiration = total as i64;
    let res = state.pns.execute_update_expiration(
        &PnsDomainUpdateExpirationMsg { domain: domain.clone(), expires_at: Some(new_expiration) },
    );
    proof {
        assert(res is Ok);
        lemma_tokens_backed_record_change(*old(state), *state, domain@);
    }
    match res {
        Ok(()) => Ok(()),
        Err(e) => Err(e),
    }
}

/// Which path a mint or renewal request takes when it is not rejected.
pub ghost enum MintPath {
    /// Finalize immediately, consuming an airdrop allocation when set.
    Finalize { redeem_airdrop: bool },
    /// Issue a payment request and wait for its confirmation.
    RequestPayment,
}

/// The tier decision of a mint request, in the order of spec priority:
/// taken or invalid names are rejected outright; a child-domain mint or an
/// admin finalizes at once; an unredeemed airdrop allocation together with
/// a long enough name finalizes without fee, consuming the allocation;
/// everyone else — including an allocation holder whose name is too short
/// to redeem it — passes the whitelist and mint-count-cap gates and is
/// sent through the payment protocol against a registered, complete
/// payment asset.
pub open spec fn spec_mint_path(
    s: ContractState,
    sender: Address,
    domain: Seq<char>,
    parent_id: Option<String>,
    years: Option<u32>,
    coin: u64,
    now: i64,
) -> Result<MintPath, ContractError> {
    if s.pns.spec_is_minted(domain) {
        Err(ContractError::AlreadyMinted)
    } else if !spec_valid_name(domain) {
        Err(ContractError::InvalidDomain)
    } else if parent_id is Some || s.spec_is_admin(sender) {
        match spec_mint_check(s, sender, domain, parent_id, years, now) {
            Ok(()) => Ok(MintPath::Finalize { redeem_airdrop: false }),
            Err(e) => Err(e),
        }
    } else if s.airdrop.spec_has_airdrop(sender) && domain.len()
        >= s.config.airdrop_min_domain_length {
        match spec_mint_check(s, sender, domain, parent_id, years, now) {
            Ok(()) => Ok(MintPath::Finalize { redeem_airdrop: true }),
            Err(e) => Err(e),
        }
    } else if s.config.whitelist_enabled && !s.spec_is_whitelisted(sender) {
        Err(ContractError::UserNotWhitelisted)
    } else if s.config.mint_count_limit_enabled && s.stats.spec_mint_count(sender)
        >= s.config.mint_count_limit {
        Err(ContractError::MintCountLimitReached)
    } else {
        match s.config.spec_payable_mint_info(coin) {
            None => Err(ContractError::PaymentAssetNotConfigured),
            Some(info) => if info.token is None || info.receiver is None {
                Err(ContractError::PaymentInfoNotValid)
            } else {
                match spec_compute_fee(s.config.mint_fees, domain, spec_years_of(years)) {
                    None => Err(ContractError::InvalidSubscriptionYears),
                    Some(fee) => Ok(MintPath::RequestPayment),
                }
            },
        }
    }
}

/// The payment request a fee-gated mint emits.
pub open spec fn spec_mint_payment_request(
    s: ContractState,
    msg: MintMsg,
) -> PaymentRequest {
    let info = s.config.spec_payable_mint_info(msg.payment_coin_id).unwrap();
    let fee = spec_compute_fee(
        s.config.mint_fees,
        msg.domain@,
        spec_years_of(msg.subscription_years),
    ).unwrap();
    let intent = PaymentIntent {
        id: msg.payment_coin_id,
        receiver: info.receiver.unwrap(),
        token: info.token.unwrap(),
        total_fees: fee,
    };
    PaymentRequest {
        intent,
        transfer: MPC20TransferFromMsg { from: msg.to, to: intent.receiver, amount: fee },
        callback: CallbackMsg::OnMint(
            MintMsg {
                domain: msg.domain,
                to: msg.to,
                payment_coin_id: msg.payment_coin_id,
                token_uri: msg.token_uri,
                parent_id: msg.parent_id,
                subscription_years: Some(spec_years_of(msg.subscription_years)),
            },
        ),
    }
}

/// Runs one mint request through the tier decision [`spec_mint_path`]:
/// privileged paths finalize via [`action_mint`] (never counting the mint
/// against the caller), the airdrop path additionally consumes the
/// allocation, and the fee-gated path leaves the state untouched and
/// emits the payment request.
fn mint_domain(ctx: &CallContext, state: ContractState, msg: MintMsg) -> (r: Result<
    (ContractState, Vec<PaymentRequest>),
    ContractError,
>)
    requires
        state.wf(),
    ensures
        ({
            let path = spec_mint_path(
                state,
                ctx.sender,
                msg.domain@,
                msg.parent_id,
                msg.subscription_years,
                msg.payment_coin_id,
                ctx.block_production_time,
            );
            &&& (r is Err <==> path is Err)
            &&& (r is Err ==> r == Err::<(ContractState, Vec<PaymentRequest>), ContractError>(
                path->Err_0,
            ))
            &&& r != Err::<(ContractState, Vec<PaymentRequest>), ContractError>(
                ContractError::ContractDisabled,
            )
            &&& (r is Ok ==> ({
                let st = r.unwrap().0;
                let ev = r.unwrap().1;
                &&& st.wf()
                &&& match path.unwrap() {
                    MintPath::Finalize { redeem_airdrop } => {
                        &&& ev@.len() == 0
                        &&& spec_minted_state(
                            state,
                            st,
                            ctx.sender,
                            msg.domain@,
                            msg.to,
                            msg.token_uri,
                            msg.parent_id,
                            msg.subscription_years,
                            ctx.block_production_time,
                            false,
                        )
                        &&& if redeem_airdrop {
                            !st.airdrop.spec_has_airdrop(ctx.sender) && (forall|b: Address|
                                b != ctx.sender ==> #[trigger] st.airdrop.spec_has_airdrop(b)
                                    == state.airdrop.spec_has_airdrop(b))
                        } else {
                            st.airdrop == state.airdrop
                        }
                    },
                    MintPath::RequestPayment => {
                        &&& st == state
                        &&& ev@.len() == 1
                        &&& ev@[0] == spec_mint_payment_request(state, msg)
                    },
                }
            }))
        }),
{
    if state.pns.is_minted(&msg.domain) {
        return Err(ContractError::AlreadyMinted);
    }
    if !registry::validate_domain(&msg.domain) {
        return Err(ContractError::InvalidDomain);
    }
    let is_admin = state.access_control.has_role(UserRole::Admin.as_role_id(), &ctx.sender);
    let mut st = state;
    if msg.parent_id.is_some() || is_admin {
        let res = action_mint(
            ctx,
            &mut st,
            &msg.domain,
            msg.to,
            &msg.token_uri,
            &msg.parent_id,
            msg.subscription_years,
            false,
        );
        match res {
            Ok(()) => Ok((st, Vec::new())),
            Err(e) => Err(e),
        }
    } else {
        let len = msg.domain.as_str().unicode_len();
        if st.airdrop.has_airdrop(&ctx.sender) && len
            >= st.config.airdrop_min_domain_length as usize {
            let res = action_mint(
                ctx,
                &mut st,
                &msg.domain,
                msg.to,
                &msg.token_uri,
                &msg.parent_id,
                msg.subscription_years,
                false,
            );
            match res {
                Ok(()) => {
                    st.airdrop.redeem_airdrop(&ctx.sender);
                    Ok((st, Vec::new()))
                },
                Err(e) => Err(e),
            }
        } else {
            if st.config.whitelist_enabled && !st.access_control.has_role(
                UserRole::Whitelist.as_role_id(),
                &ctx.sender,
            ) {
                return Err(ContractError::UserNotWhitelisted);
            }
            if st.config.mint_count_limit_enabled {
                let count = match st.stats.get_mint_count(&ctx.sender) {
                    Some(c) => c,
                    None => 0,
                };
                if count >= st.config.mint_count_limit {
                    return Err(ContractError::MintCountLimitReached);
                }
            }
            let info = match st.config.get_payable_mint_info(msg.payment_coin_id) {
                Some(i) => i,
                None => {
                    return Err(ContractError::PaymentAssetNotConfigured);
                },
            };
            let receiver = match info.receiver {
                Some(rcv) => rcv,
                None => {
                    return Err(ContractError::PaymentInfoNotValid);
                },
            };
            let token = match info.token {
                Some(t) => t,
                None => {
                    return Err(ContractError::PaymentInfoNotValid);
                },
            };
            let years = match msg.subscription_years {
                Some(y) => y,
                None => 1,
            };
            let fee = match compute_fee(&st.config.mint_fees, msg.domain.as_str(), years) {
                Some(f) => f,
                None => {
                    return Err(ContractError::InvalidSubscriptionYears);
                },
            };
            let intent = PaymentIntent {
                id: msg.payment_coin_id,
                receiver,
                token,
                total_fees: fee,
            };
            let callback_msg = MintMsg {
                domain: msg.domain,
                to: msg.to,
                payment_coin_id: msg.payment_coin_id,
                token_uri: msg.token_uri,
                parent_id: msg.parent_id,
                subscription_years: Some(years),
            };
            let events = action_build_mint_callback(&intent, callback_msg);
            Ok((st, events))
        }
    }
}

/// Mints a domain; rejected with `ContractDisabled` when the registry is
/// off, and otherwise decided by the tier rules of [`spec_mint_path`].
pub fn mint(
    ctx: &CallContext,
    state: ContractState,
    domain: String,
    to: Address,
    payment_coin_id: u64,
    token_uri: Option<String>,
    parent_id: Option<String>,
    subscription_years: Option<u32>,
) -> (r: Result<(ContractState, Vec<PaymentRequest>), ContractError>)
    requires
        state.wf(),
    ensures
        r == Err::<(ContractState, Vec<PaymentRequest>), ContractError>(
            ContractError::ContractDisabled,
        ) <==> !state.config.contract_enabled,
        state.config.contract_enabled ==> ({
            let path = spec_mint_path(
                state,
                ctx.sender,
                domain@,
                parent_id,
                subscription_years,
                payment_coin_id,
                ctx.block_production_time,
            );
            &&& (r is Err <==> path is Err)
            &&& (r is Err ==> r == Err::<(ContractState, Vec<PaymentRequest>), ContractError>(
                path->Err_0,
            ))
            &&& (r is Ok ==> ({
                let st = r.unwrap().0;
                let ev = r.unwrap().1;
                &&& st.wf()
                &&& match path.unwrap() {
                    MintPath::Finalize { redeem_airdrop } => {
                        &&& ev@.len() == 0
                        &&& spec_minted_state(
                            state,
                            st,
                            ctx.sender,
                            domain@,
                            to,
                            token_uri,
                            parent_id,
                            subscription_years,
                            ctx.block_production_time,
                            false,
                        )
                        &&& (redeem_airdrop ==> !st.airdrop.spec_has_airdrop(ctx.sender))
                        &&& (!redeem_airdrop ==> st.airdrop == state.airdrop)
                    },
                    MintPath::RequestPayment => {
                        &&& st == state
                        &&& ev@.len() == 1
                        &&& ev@[0] == spec_mint_payment_request(
                            state,
                            MintMsg {
                                domain,
                                to,
                                payment_coin_id,
                                token_uri,
                                parent_id,
                                subscription_years,
                            },
                        )
                    },
                }
            }))
        }),
{
    if !state.config.contract_enabled {
        return Err(ContractError::ContractDisabled);
    }
    mint_domain(
        ctx,
        state,
        MintMsg { domain, to, payment_coin_id, token_uri, parent_id, subscription_years },
    )
}

/// How one mint of a batch relates the state after it to the state before
/// it, given the path the request took: a finalized mint leaves
/// [`spec_minted_state`] (never counting statistics) with the airdrop
/// allocation consumed exactly on the airdrop tier, and a fee-gated mint
/// leaves the state untouched and emits its payment request.
pub open spec fn spec_mint_step(
    s0: ContractState,
    s1: ContractState,
    ev: Seq<PaymentRequest>,
    sender: Address,
    msg: MintMsg,
    now: i64,
    path: MintPath,
) -> bool {
    match path {
        MintPath::Finalize { redeem_airdrop } => {
            &&& ev.len() == 0
            &&& spec_minted_state(
                s0,
                s1,
                sender,
                msg.domain@,
                msg.to,
                msg.token_uri,
                msg.parent_id,
                msg.subscription_years,
                now,
                false,
            )
            &&& (redeem_airdrop ==> !s1.airdrop.spec_has_airdrop(sender) && (forall|b: Address|
                b != sender ==> #[trigger] s1.airdrop.spec_has_airdrop(b)
                    == s0.airdrop.spec_has_airdrop(b)))
            &&& (!redeem_airdrop ==> s1.airdrop == s0.airdrop)
        },
        MintPath::RequestPayment => {
            &&& s1 == s0
            &&& ev.len() == 1
            &&& ev[0] == spec_mint_payment_request(s0, msg)
        },
    }
}

/// Concatenation of per-request payment-request lists, in order.
pub open spec fn spec_concat_requests(evs: Seq<Seq<PaymentRequest>>) -> Seq<PaymentRequest>
    decreases evs.len(),
{
    if evs.len() == 0 {
        Seq::empty()
    } else {
        spec_concat_requests(evs.drop_last()) + evs.last()
    }
}

/// A chain of successful mints: `states` are the intermediate states —
/// `states[k]` before the `k`-th request, `states[k + 1]` after it — and
/// `evs[k]` the payment requests the `k`-th request emitted.  Every
/// request takes an accepted path of [`spec_mint_path`] and steps by
/// [`spec_mint_step`].
pub open spec fn spec_mint_chain(
    sender: Address,
    now: i64,
    msgs: Seq<MintMsg>,
    states: Seq<ContractState>,
    evs: Seq<Seq<PaymentRequest>>,
) -> bool {
    &&& states.len() == msgs.len() + 1
    &&& evs.len() == msgs.len()
    &&& forall|k: int|
        0 <= k < msgs.len() ==> {
            let path = #[trigger] spec_mint_path(
                states[k],
                sender,
                msgs[k].domain@,
                msgs[k].parent_id,
                msgs[k].subscription_years,
                msgs[k].payment_coin_id,
                now,
            );
            &&& path is Ok
            &&& spec_mint_step(states[k], states[k + 1], evs[k], sender, msgs[k], now, path.unwrap())
        }
}

/// A copy of a mint request.
fn clone_mint_msg(m: &MintMsg) -> (r: MintMsg)
    ensures
        r == *m,
{
    MintMsg {
        domain: m.domain.clone(),
        to: m.to,
        payment_coin_id: m.payment_coin_id,
        token_uri: clone_opt_string(&m.token_uri),
        parent_id: clone_opt_string(&m.parent_id),
        subscription_years: m.subscription_years,
    }
}

/// Mints several domains in one request, stopping at the first failure.
/// Rejected with `ContractDisabled` when the registry is off.  On success
/// the requests form a [`spec_mint_chain`] from the given state to the
/// returned one: every entry went down an accepted path and the payment
/// requests of the fee-gated entries come out concatenated in order.  On
/// any other failure some prefix of the entries chains through and the
/// next entry's path is rejected with exactly the returned error.
pub fn mint_batch(ctx: &CallContext, state: ContractState, mint_msgs: Vec<MintMsg>) -> (r: Result<
    (ContractState, Vec<PaymentRequest>),
    ContractError,
>)
    requires
        state.wf(),
    ensures
        r == Err::<(ContractState, Vec<PaymentRequest>), ContractError>(
            ContractError::ContractDisabled,
        ) <==> !state.config.contract_enabled,
        r is Ok ==> r.unwrap().0.wf() && (exists|
            states: Seq<ContractState>,
            evs: Seq<Seq<PaymentRequest>>,
        |
            #![trigger spec_mint_chain(ctx.sender, ctx.block_production_time, mint_msgs@, states, evs)]
            {
                &&& spec_mint_chain(ctx.sender, ctx.block_production_time, mint_msgs@, states, evs)
                &&& states[0] == state
                &&& states[mint_msgs@.len() as int] == r.unwrap().0
                &&& spec_concat_requests(evs) == r.unwrap().1@
            }),
        state.config.contract_enabled && r is Err ==> exists|
            i: int,
            states: Seq<ContractState>,
            evs: Seq<Seq<PaymentRequest>>,
        |
            #![trigger spec_mint_chain(ctx.sender, ctx.block_production_time, mint_msgs@.take(i), states, evs)]
            {
                &&& 0 <= i < mint_msgs@.len()
                &&& spec_mint_chain(
                    ctx.sender,
                    ctx.block_production_time,
                    mint_msgs@.take(i),
                    states,
                    evs,
                )
                &&& states[0] == state
                &&& spec_mint_path(
                    states[i],
                    ctx.sender,
                    mint_msgs@[i].domain@,
                    mint_msgs@[i].parent_id,
                    mint_msgs@[i].subscription_years,
                    mint_msgs@[i].payment_coin_id,
                    ctx.block_production_time,
                ) == Err::<MintPath, ContractError>(r->Err_0)
            },
{
    if !state.config.contract_enabled {
        return Err(ContractError::ContractDisabled);
    }
    let mut st = state;
    let mut events: Vec<PaymentRequest> = Vec::new();
    let ghost mut gstates: Seq<ContractState> = seq![state];
    let ghost mut gevs: Seq<Seq<PaymentRequest>> = Seq::empty();
    let mut i: usize = 0;
    while i < mint_msgs.len()
        invariant
            st.wf(),
            state.config.contract_enabled,
            i <= mint_msgs@.len(),
            gstates.len() == i + 1,
            gevs.len() == i,
            gstates[0] == state,
            gstates.last() == st,
            events@ == spec_concat_requests(gevs),
            spec_mint_chain(
                ctx.sender,
                ctx.block_production_time,
                mint_msgs@.take(i as int),
                gstates,
                gevs,
            ),
        decreases mint_msgs@.len() - i,
    {
        let m = clone_mint_msg(&mint_msgs[i]);
        let ghost gprev = st;
        let ghost gev_old = events@;
        match mint_domain(ctx, st, m) {
            Ok((s2, mut ev2)) => {
                let ghost gnext = s2;
                let ghost gev2 = ev2@;
                proof {
                    let pm = mint_msgs@[i as int];
                    let gstates0 = gstates;
                    let gevs0 = gevs;
                    gstates = gstates.push(gnext);
                    gevs = gevs.push(gev2);
                    let path = spec_mint_path(
                        gprev,
                        ctx.sender,
                        pm.domain@,
                        pm.parent_id,
                        pm.subscription_years,
                        pm.payment_coin_id,
                        ctx.block_production_time,
                    );
                    assert(path is Ok);
                    assert(spec_mint_step(
                        gprev,
                        gnext,
                        gev2,
                        ctx.sender,
                        pm,
                        ctx.block_production_time,
                        path.unwrap(),
                    ));
                    assert(gevs.drop_last() =~= gevs0);
                    assert(spec_concat_requests(gevs) == spec_concat_requests(gevs0) + gev2);
                    assert(spec_mint_chain(
                        ctx.sender,
                        ctx.block_production_time,
                        mint_msgs@.take(i as int + 1),
                        gstates,
                        gevs,
                    )) by {
                        let msgs1 = mint_msgs@.take(i as int + 1);
                        assert forall|k: int| 0 <= k < msgs1.len() implies {
                            let p = #[trigger] spec_mint_path(
                                gstates[k],
                                ctx.sender,
                                msgs1[k].domain@,
                                msgs1[k].parent_id,
                                msgs1[k].subscription_years,
                                msgs1[k].payment_coin_id,
                                ctx.block_production_time,
                            );
                            &&& p is Ok
                            &&& spec_mint_step(
                                gstates[k],
                                gstates[k + 1],
                                gevs[k],
                                ctx.sender,
                                msgs1[k],
                                ctx.block_production_time,
                                p.unwrap(),
                            )
                        } by {
                            assert(msgs1[k] == mint_msgs@[k]);
                            if k < i as int {
                                let msgs0 = mint_msgs@.take(i as int);
                                assert(msgs0[k] == mint_msgs@[k]);
                                assert(spec_mint_path(
                                    gstates0[k],
                                    ctx.sender,
                                    msgs0[k].domain@,
                                    msgs0[k].parent_id,
                                    msgs0[k].subscription_years,
                                    msgs0[k].payment_coin_id,
                                    ctx.block_production_time,
                                ) is Ok);
                                assert(gstates[k] == gstates0[k] && gstates[k + 1] == gstates0[k
                                    + 1] && gevs[k] == gevs0[k]);
                            } else {
                                assert(gstates[k] == gprev && gstates[k + 1] == gnext && gevs[k]
                                    == gev2);
                            }
                        }
                    }
                }
                st = s2;
                events.append(&mut ev2);
            },
            Err(e) => {
                proof {
                    let pm = mint_msgs@[i as int];
                    assert(spec_mint_chain(
                        ctx.sender,
                        ctx.block_production_time,
                        mint_msgs@.take(i as int),
                        gstates,
                        gevs,
                    ));
                    assert(gstates[i as int] == gprev);
                    assert(spec_mint_path(
                        gprev,
                        ctx.sender,
                        pm.domain@,
                        pm.parent_id,
                        pm.subscription_years,
                        pm.payment_coin_id,
                        ctx.block_production_time,
                    ) == Err::<MintPath, ContractError>(e));
                }
                return Err(e);
            },
        }
        i += 1;
    }
    proof {
        assert(mint_msgs@.take(mint_msgs@.len() as int) =~= mint_msgs@);
        assert(gstates[mint_msgs@.len() as int] == st);
    }
    Ok((st, events))
}

/// The validity of a payment confirmation against the originally quoted
/// intent: the external ledger must report success, the asset must still
/// be registered and match the quote, and the re-derived fee must equal
/// the quoted fee bit-for-bit.
pub open spec fn spec_payment_check(
    s: ContractState,
    success: bool,
    intent: PaymentIntent,
    coin: u64,
    fee: Option<u128>,
) -> Result<(), ContractError> {
    if !success {
        Err(ContractError::PaymentFailed)
    } else {
        match s.config.spec_payable_mint_info(coin) {
            None => Err(ContractError::PaymentAssetNotConfigured),
            Some(info) => if !(intent.id == coin && info.token == Some(intent.token)
                && info.receiver == Some(intent.receiver)) {
                Err(ContractError::PaymentInfoNotValid)
            } else {
                match fee {
                    None => Err(ContractError::PaymentMismatch),
                    Some(f) => if f != intent.total_fees {
                        Err(ContractError::PaymentMismatch)
                    } else {
                        Ok(())
                    },
                }
            },
        }
    }
}

/// Validates a payment confirmation against the quoted `intent` per
/// [`spec_payment_check`], re-deriving the fee from the embedded
/// parameters.
fn check_payment_confirmation(
    state: &ContractState,
    callback_ctx: &CallbackContext,
    intent: &PaymentIntent,
    coin: u64,
    domain: &String,
    years: u32,
) -> (r: Result<(), ContractError>)
    ensures
        r == spec_payment_check(
            *state,
            callback_ctx.success,
            *intent,
            coin,
            spec_compute_fee(state.config.mint_fees, domain@, years),
        ),
{
    if !callback_ctx.success {
        return Err(ContractError::PaymentFailed);
    }
    let info = match state.config.get_payable_mint_info(coin) {
        Some(i) => i,
        None => {
            return Err(ContractError::PaymentAssetNotConfigured);
        },
    };
    let token_ok = match info.token {
        Some(t) => t == intent.token,
        None => false,
    };
    let receiver_ok = match info.receiver {
        Some(rv) => rv == intent.receiver,
        None => false,
    };
    if !(intent.id == coin && token_ok && receiver_ok) {
        return Err(ContractError::PaymentInfoNotValid);
    }
    match compute_fee(&state.config.mint_fees, domain.as_str(), years) {
        None => Err(ContractError::PaymentMismatch),
        Some(f) => {
            if f != intent.total_fees {
                Err(ContractError::PaymentMismatch)
            } else {
                Ok(())
            }
        },
    }
}

/// Resumes a mint whose payment the external ledger settled.
///
/// Rejected with `ContractDisabled` when the registry is off; the
/// confirmation is then held against the quoted intent per
/// [`spec_payment_check`] — a reported failure, a vanished or diverging
/// asset, or a re-derived fee different from the quote abort with no state
/// change.  Only then does the mint finalize, counting against the
/// caller's mint statistics.
pub fn on_mint_callback(
    ctx: &CallContext,
    callback_ctx: &CallbackContext,
    state: ContractState,
    intent: PaymentIntent,
    msg: MintMsg,
) -> (r: Result<(ContractState, Vec<PaymentRequest>), ContractError>)
    requires
        state.wf(),
    ensures
        r == Err::<(ContractState, Vec<PaymentRequest>), ContractError>(
            ContractError::ContractDisabled,
        ) <==> !state.config.contract_enabled,
        state.config.contract_enabled ==> ({
            let pay = spec_payment_check(
                state,
                callback_ctx.success,
                intent,
                msg.payment_coin_id,
                spec_compute_fee(
                    state.config.mint_fees,
                    msg.domain@,
                    spec_years_of(msg.subscription_years),
                ),
            );
            let check = spec_mint_check(
                state,
                ctx.sender,
                msg.domain@,
                msg.parent_id,
                msg.subscription_years,
                ctx.block_production_time,
            );
            &&& (pay is Err ==> r == Err::<(ContractState, Vec<PaymentRequest>), ContractError>(
                pay.unwrap_err(),
            ))
            &&& (pay is Ok && check is Err ==> r == Err::<
                (ContractState, Vec<PaymentRequest>),
                ContractError,
            >(check.unwrap_err()))
            &&& (pay is Ok && check is Ok ==> r is Ok && r.unwrap().1@.len() == 0
                && spec_minted_state(
                state,
                r.unwrap().0,
                ctx.sender,
                msg.domain@,
                msg.to,
                msg.token_uri,
                msg.parent_id,
                msg.subscription_years,
                ctx.block_production_time,
                true,
            ) && r.unwrap().0.airdrop == state.airdrop)
        }),
{
    if !state.config.contract_enabled {
        return Err(ContractError::ContractDisabled);
    }
    let years = match msg.subscription_years {
        Some(y) => y,
        None => 1,
    };
    match check_payment_confirmation(
        &state,
        callback_ctx,
        &intent,
        msg.payment_coin_id,
        &msg.domain,
        years,
    ) {
        Ok(()) => {},
        Err(e) => {
            return Err(e);
        },
    }
    let mut st = state;
    let res = action_mint(
        ctx,
        &mut st,
        &msg.domain,
        msg.to,
        &msg.token_uri,
        &msg.parent_id,
        msg.subscription_years,
        true,
    );
    match res {
        Ok(()) => Ok((st, Vec::new())),
        Err(e) => Err(e),
    }
}

/// The tier decision of a renewal request: a zero duration is invalid; an
/// admin finalizes at once; everyone else must name a minted root domain
/// and a registered, complete payment asset, and is sent through the
/// payment protocol.
pub open spec fn spec_renew_path(
    s: ContractState,
    sender: Address,
    domain: Seq<char>,
    coin: u64,
    years: u32,
    now: i64,
) -> Result<MintPath, ContractError> {
    if years == 0 {
        Err(ContractError::InvalidSubscriptionYears)
    } else if s.spec_is_admin(sender) {
        match spec_renew_check(s, domain, years, now) {
            Ok(()) => Ok(MintPath::Finalize { redeem_airdrop: false }),
            Err(e) => Err(e),
        }
    } else if !s.pns.spec_is_minted(domain) {
        Err(ContractError::NotFound)
    } else if s.pns.spec_get_domain(domain).unwrap().parent_id is Some {
        Err(ContractError::NotRenewable)
    } else {
        match s.config.spec_payable_mint_info(coin) {
            None => Err(ContractError::PaymentAssetNotConfigured),
            Some(info) => if info.token is None || info.receiver is None {
                Err(ContractError::PaymentInfoNotValid)
            } else {
                match spec_compute_fee(s.config.mint_fees, domain, years) {
                    None => Err(ContractError::InvalidSubscriptionYears),
                    Some(fee) => Ok(MintPath::RequestPayment),
                }
            },
        }
    }
}

/// The payment request a fee-gated renewal emits.
pub open spec fn spec_renew_payment_request(s: ContractState, msg: RenewDomainMsg)
    -> PaymentRequest {
    let info = s.config.spec_payable_mint_info(msg.payment_coin_id).unwrap();
    let fee = spec_compute_fee(
        s.config.mint_fees,
        msg.domain@,
        msg.subscription_years,
    ).unwrap();
    let intent = PaymentIntent {
        id: msg.payment_coin_id,
        receiver: info.receiver.unwrap(),
        token: info.token.unwrap(),
        total_fees: fee,
    };
    PaymentRequest {
        intent,
        transfer: MPC20TransferFromMsg { from: msg.payer, to: intent.receiver, amount: fee },
        callback: CallbackMsg::OnRenew(msg),
    }
}

/// Renews a domain's subscription.
///
/// Rejected with `ContractDisabled` when the registry is off, and
/// otherwise decided by [`spec_renew_path`]: an admin extends the
/// expiration immediately and without fee; everyone else gets a payment
/// request for a fee derived from the name's length and the years, and
/// the renewal itself waits for the confirmation.
pub fn renew_subscription(
    ctx: &CallContext,
    state: ContractState,
    domain: String,
    payment_coin_id: u64,
    payer: Address,
    subscription_years: u32,
) -> (r: Result<(ContractState, Vec<PaymentRequest>), ContractError>)
    requires
        state.wf(),
    ensures
        r == Err::<(ContractState, Vec<PaymentRequest>), ContractError>(
            ContractError::ContractDisabled,
        ) <==> !state.config.contract_enabled,
        state.config.contract_enabled ==> ({
            let path = spec_renew_path(
                state,
                ctx.sender,
                domain@,
                payment_coin_id,
                subscription_years,
                ctx.block_production_time,
            );
            &&& (r is Err <==> path is Err)
            &&& (r is Err ==> r == Err::<(ContractState, Vec<PaymentRequest>), ContractError>(
                path->Err_0,
            ))
            &&& (r is Ok ==> ({
                let st = r.unwrap().0;
                let ev = r.unwrap().1;
                &&& st.wf()
                &&& match path.unwrap() {
                    MintPath::Finalize { redeem_airdrop } => {
                        let d0 = state.pns.spec_get_domain(domain@).unwrap();
                        &&& ev@.len() == 0
                        &&& ({
                            let g = st.pns.spec_get_domain(domain@);
                            g is Some && g.unwrap().expires_at == Some(
                                spec_new_expiration(
                                    d0.expires_at,
                                    ctx.block_production_time,
                                    subscription_years * MILLIS_PER_YEAR,
                                ) as i64,
                            ) && g.unwrap().token_id == d0.token_id && g.unwrap().parent_id
                                == d0.parent_id && g.unwrap().records@ == d0.records@
                        })
                        &&& (forall|n: Seq<char>|
                            n != domain@ ==> #[trigger] st.pns.spec_get_domain(n)
                                == state.pns.spec_get_domain(n))
                        &&& st.nft == state.nft
                        &&& st.stats == state.stats
                    },
                    MintPath::RequestPayment => {
                        &&& st == state
                        &&& ev@.len() == 1
                        &&& ev@[0] == spec_renew_payment_request(
                            state,
                            RenewDomainMsg {
                                domain,
                                payer,
                                payment_coin_id,
                                subscription_years,
                            },
                        )
                    },
                }
            }))
        }),
{
    if !state.config.contract_enabled {
        return Err(ContractError::ContractDisabled);
    }
    if subscription_years == 0 {
        return Err(ContractError::InvalidSubscriptionYears);
    }
    let mut st = state;
    if st.access_control.has_role(UserRole::Admin.as_role_id(), &ctx.sender) {
        let res = action_renew_subscription(ctx, &mut st, &domain, subscription_years);
        match res {
            Ok(()) => Ok((st, Vec::new())),
            Err(e) => Err(e),
        }
    } else {
        match st.pns.get_domain(&domain) {
            Some(d) => {
                if d.parent_id.is_some() {
                    return Err(ContractError::NotRenewable);
                }
            },
            None => {
                return Err(ContractError::NotFound);
            },
        }
        let info = match st.config.get_payable_mint_info(payment_coin_id) {
            Some(i) => i,
            None => {
                return Err(ContractError::PaymentAssetNotConfigured);
            },
        };
        let receiver = match info.receiver {
            Some(rcv) => rcv,
            None => {
                return Err(ContractError::PaymentInfoNotValid);
            },
        };
        let token = match info.token {
            Some(t) => t,
            None => {
                return Err(ContractError::PaymentInfoNotValid);
            },
        };
        let fee = match compute_fee(&st.config.mint_fees, domain.as_str(), subscription_years) {
            Some(f) => f,
            None => {
                return Err(ContractError::InvalidSubscriptionYears);
            },
        };
        let intent = PaymentIntent { id: payment_coin_id, receiver, token, total_fees: fee };
        let callback_msg = RenewDomainMsg {
            domain,
            payer,
            payment_coin_id,
            subscription_years,
        };
        let events = action_build_renew_callback(&intent, callback_msg);
        Ok((st, events))
    }
}

/// Resumes a renewal whose payment the external ledger settled.
///
/// Rejected with `ContractDisabled` when the registry is off; the
/// confirmation is then held against the quoted intent per
/// [`spec_payment_check`], and only a fully matching confirmation lets
/// the renewal finalize.
pub fn on_renew_subscription_callback(
    ctx: &CallContext,
    callback_ctx: &CallbackContext,
    state: ContractState,
    intent: PaymentIntent,
    msg: RenewDomainMsg,
) -> (r: Result<(ContractState, Vec<PaymentRequest>), ContractError>)
    requires
        state.wf(),
    ensures
        r == Err::<(ContractState, Vec<PaymentRequest>), ContractError>(
            ContractError::ContractDisabled,
        ) <==> !state.config.contract_enabled,
        state.config.contract_enabled ==> ({
            let pay = spec_payment_check(
                state,
                callback_ctx.success,
                intent,
                msg.payment_coin_id,
                spec_compute_fee(state.config.mint_fees, msg.domain@, msg.subscription_years),
            );
            let check = spec_renew_check(
                state,
                msg.domain@,
                msg.subscription_years,
                ctx.block_production_time,
            );
            &&& (pay is Err ==> r == Err::<(ContractState, Vec<PaymentRequest>), ContractError>(
                pay.unwrap_err(),
            ))
            &&& (pay is Ok && check is Err ==> r == Err::<
                (ContractState, Vec<PaymentRequest>),
                ContractError,
            >(check.unwrap_err()))
            &&& (pay is Ok && check is Ok ==> r is Ok && r.unwrap().1@.len() == 0 && ({
                let st = r.unwrap().0;
                let d0 = state.pns.spec_get_domain(msg.domain@).unwrap();
                let g = st.pns.spec_get_domain(msg.domain@);
                &&& st.wf()
                &&& g is Some
                &&& g.unwrap().expires_at == Some(
                    spec_new_expiration(
                        d0.expires_at,
                        ctx.block_production_time,
                        msg.subscription_years * MILLIS_PER_YEAR,
                    ) as i64,
                )
                &&& (forall|n: Seq<char>|
                    n != msg.domain@ ==> #[trigger] st.pns.spec_get_domain(n)
                        == state.pns.spec_get_domain(n))
                &&& st.nft == state.nft
                &&& st.stats == state.stats
            }))
        }),
{
    if !state.config.contract_enabled {
        return Err(ContractError::ContractDisabled);
    }
    match check_payment_confirmation(
        &state,
        callback_ctx,
        &intent,
        msg.payment_coin_id,
        &msg.domain,
        msg.subscription_years,
    ) {
        Ok(()) => {},
        Err(e) => {
            return Err(e);
        },
    }
    let mut st = state;
    let res = action_renew_subscription(ctx, &mut st, &msg.domain, msg.subscription_years);
    match res {
        Ok(()) => Ok((st, Vec::new())),
        Err(e) => Err(e),
    }
}

} // verus!
