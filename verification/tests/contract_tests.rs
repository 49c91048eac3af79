use meta_names::address::{Address, CallbackContext, CallContext};
use meta_names::config::{ContractConfig, PayableMintInfo, UserRole};
use meta_names::contract::{
    add_airdrop, allowed_to_manage, approve, approve_domain, initialize, is_domain_owner, mint,
    mint_batch, mint_record, mint_record_batch, on_mint_callback, on_renew_subscription_callback,
    owner_info, renew_subscription, set_approval_for_all, transfer_domain, update_config,
    update_user_role, ContractState,
};
use meta_names::errors::ContractError;
use meta_names::fees::{MintFee, MintFees};
use meta_names::msgs::{CallbackMsg, InitMsg, MintMsg, PaymentIntent, RenewDomainMsg};
use meta_names::registry::{PnsRecordMintMsg, RecordClass};
use meta_names::utils::MILLIS_PER_YEAR;

const ADMIN: u8 = 0;
const ALICE: u8 = 1;
const BOB: u8 = 2;
const PAYMENT_TOKEN: u8 = 10;
const RECEIVER: u8 = 11;
const COIN: u64 = 1;
const NOW: i64 = 100;

fn addr(n: u8) -> Address {
    Address::new(n as u128)
}

fn ctx(sender: u8) -> CallContext {
    CallContext::new(addr(sender), NOW)
}

fn ctx_at(sender: u8, now: i64) -> CallContext {
    CallContext::new(addr(sender), now)
}

fn ok_callback() -> CallbackContext {
    CallbackContext { success: true }
}

fn failed_callback() -> CallbackContext {
    CallbackContext { success: false }
}

fn base_config() -> ContractConfig {
    ContractConfig {
        contract_enabled: true,
        whitelist_enabled: false,
        mint_count_limit_enabled: false,
        mint_count_limit: 0,
        airdrop_min_domain_length: 0,
        payable_mint_info: vec![PayableMintInfo {
            id: COIN,
            token: Some(addr(PAYMENT_TOKEN)),
            receiver: Some(addr(RECEIVER)),
        }],
        mint_fees: MintFees {
            mapping: vec![
                MintFee { chars_count: 1, gas: 200 },
                MintFee { chars_count: 2, gas: 150 },
                MintFee { chars_count: 3, gas: 100 },
                MintFee { chars_count: 4, gas: 50 },
            ],
            default_fee: 5,
        },
    }
}

fn setup_with(config: ContractConfig) -> ContractState {
    let msg = InitMsg {
        name: "Meta Names".to_string(),
        symbol: "META".to_string(),
        uri_template: "metanames.io".to_string(),
        admin_addresses: vec![addr(ADMIN)],
        config,
    };
    let (state, events) = initialize(&ctx(ALICE), msg).unwrap();
    assert!(events.is_empty());
    state
}

fn setup() -> ContractState {
    setup_with(base_config())
}

fn admin_mint(state: ContractState, domain: &str, to: u8, years: Option<u32>) -> ContractState {
    let (state, events) = mint(
        &ctx(ADMIN),
        state,
        domain.to_string(),
        addr(to),
        COIN,
        None,
        None,
        years,
    )
    .unwrap();
    assert!(events.is_empty());
    state
}

#[test]
fn initialize_rejects_empty_payment_config() {
    let mut config = base_config();
    config.payable_mint_info = vec![];
    let msg = InitMsg {
        name: "Meta Names".to_string(),
        symbol: "META".to_string(),
        uri_template: "metanames.io".to_string(),
        admin_addresses: vec![addr(ADMIN)],
        config,
    };
    let res = initialize(&ctx(ALICE), msg);
    assert_eq!(res.err(), Some(ContractError::PaymentInfoNotValid));
}

#[test]
fn initialize_rejects_incomplete_payment_config() {
    let mut config = base_config();
    config.payable_mint_info = vec![PayableMintInfo {
        id: COIN,
        token: Some(addr(PAYMENT_TOKEN)),
        receiver: None,
    }];
    let msg = InitMsg {
        name: "Meta Names".to_string(),
        symbol: "META".to_string(),
        uri_template: "metanames.io".to_string(),
        admin_addresses: vec![addr(ADMIN)],
        config,
    };
    let res = initialize(&ctx(ALICE), msg);
    assert_eq!(res.err(), Some(ContractError::PaymentInfoNotValid));
}

#[test]
fn admin_mints_immediately_without_stats() {
    let state = setup();
    let (state, events) = mint(
        &ctx(ADMIN),
        state,
        "name".to_string(),
        addr(ADMIN),
        COIN,
        None,
        None,
        None,
    )
    .unwrap();

    assert!(events.is_empty());
    assert!(state.pns.is_minted(&"name".to_string()));
    // the admin path is exempt from statistics
    assert_eq!(state.stats.get_mint_count(&addr(ADMIN)), None);
}

#[test]
fn non_whitelisted_mint_is_rejected() {
    let mut config = base_config();
    config.whitelist_enabled = true;
    let state = setup_with(config);

    let res = mint(
        &ctx(ALICE),
        state.clone(),
        "name".to_string(),
        addr(ALICE),
        COIN,
        None,
        None,
        None,
    );
    assert_eq!(res.err(), Some(ContractError::UserNotWhitelisted));
    // nothing happened: no mint, no counter
    assert!(!state.pns.is_minted(&"name".to_string()));
    assert_eq!(state.stats.get_mint_count(&addr(ALICE)), None);
}

#[test]
fn whitelisted_mint_goes_through_payment() {
    let mut config = base_config();
    config.whitelist_enabled = true;
    let state = setup_with(config);
    let (state, _) = update_user_role(&ctx(ADMIN), state, UserRole::Whitelist, addr(ALICE), true)
        .unwrap();

    let (state, events) = mint(
        &ctx(ALICE),
        state,
        "ab".to_string(),
        addr(ALICE),
        COIN,
        None,
        None,
        Some(3),
    )
    .unwrap();
    assert_eq!(events.len(), 1);
    assert!(!state.pns.is_minted(&"ab".to_string()));
}

#[test]
fn fee_gated_mint_quotes_and_finalizes() {
    let state = setup();

    // "ab" has length 2, so three years cost 3 * 150 = 450
    let (state, events) = mint(
        &ctx(ALICE),
        state,
        "ab".to_string(),
        addr(ALICE),
        COIN,
        None,
        None,
        Some(3),
    )
    .unwrap();
    assert_eq!(events.len(), 1);
    let request = &events[0];
    assert_eq!(request.intent.total_fees, 450);
    assert_eq!(request.intent.id, COIN);
    assert_eq!(request.intent.token, addr(PAYMENT_TOKEN));
    assert_eq!(request.intent.receiver, addr(RECEIVER));
    assert_eq!(request.transfer.from, addr(ALICE));
    assert_eq!(request.transfer.to, addr(RECEIVER));
    assert_eq!(request.transfer.amount, 450);
    // the state is untouched while the payment is pending
    assert!(!state.pns.is_minted(&"ab".to_string()));
    assert_eq!(state.stats.get_mint_count(&addr(ALICE)), None);

    let msg = match &request.callback {
        CallbackMsg::OnMint(m) => m.clone(),
        _ => panic!("expected a mint callback"),
    };
    let (state, events) =
        on_mint_callback(&ctx(ALICE), &ok_callback(), state, request.intent, msg).unwrap();
    assert!(events.is_empty());
    assert!(state.pns.is_minted(&"ab".to_string()));
    assert_eq!(state.stats.get_mint_count(&addr(ALICE)), Some(1));
    assert!(is_domain_owner(&state, &"ab".to_string(), addr(ALICE)).is_ok());
}

#[test]
fn failed_payment_aborts_mint() {
    let state = setup();
    let intent = PaymentIntent {
        id: COIN,
        receiver: addr(RECEIVER),
        token: addr(PAYMENT_TOKEN),
        total_fees: 450,
    };
    let msg = MintMsg {
        domain: "ab".to_string(),
        to: addr(ALICE),
        payment_coin_id: COIN,
        token_uri: None,
        parent_id: None,
        subscription_years: Some(3),
    };
    let res = on_mint_callback(&ctx(ALICE), &failed_callback(), state.clone(), intent, msg);
    assert_eq!(res.err(), Some(ContractError::PaymentFailed));
    assert!(!state.pns.is_minted(&"ab".to_string()));
}

#[test]
fn mismatched_fee_aborts_mint() {
    let state = setup();
    // quoted 449 but the re-derived fee is 450
    let intent = PaymentIntent {
        id: COIN,
        receiver: addr(RECEIVER),
        token: addr(PAYMENT_TOKEN),
        total_fees: 449,
    };
    let msg = MintMsg {
        domain: "ab".to_string(),
        to: addr(ALICE),
        payment_coin_id: COIN,
        token_uri: None,
        parent_id: None,
        subscription_years: Some(3),
    };
    let res = on_mint_callback(&ctx(ALICE), &ok_callback(), state, intent, msg);
    assert_eq!(res.err(), Some(ContractError::PaymentMismatch));
}

#[test]
fn unknown_payment_asset_is_rejected() {
    let state = setup();
    let res = mint(
        &ctx(ALICE),
        state,
        "ab".to_string(),
        addr(ALICE),
        99,
        None,
        None,
        None,
    );
    assert_eq!(res.err(), Some(ContractError::PaymentAssetNotConfigured));
}

#[test]
fn mint_count_limit_is_enforced() {
    let mut config = base_config();
    config.mint_count_limit_enabled = true;
    config.mint_count_limit = 1;
    let state = setup_with(config);

    // first fee-gated mint settles and counts
    let (state, events) = mint(
        &ctx(ALICE),
        state,
        "one".to_string(),
        addr(ALICE),
        COIN,
        None,
        None,
        None,
    )
    .unwrap();
    let request = &events[0];
    let msg = match &request.callback {
        CallbackMsg::OnMint(m) => m.clone(),
        _ => panic!("expected a mint callback"),
    };
    let (state, _) =
        on_mint_callback(&ctx(ALICE), &ok_callback(), state, request.intent, msg).unwrap();
    assert_eq!(state.stats.get_mint_count(&addr(ALICE)), Some(1));

    // the second request is rejected at the cap
    let res = mint(
        &ctx(ALICE),
        state,
        "two".to_string(),
        addr(ALICE),
        COIN,
        None,
        None,
        None,
    );
    assert_eq!(res.err(), Some(ContractError::MintCountLimitReached));
}

#[test]
fn airdrop_mint_is_free_and_consumed() {
    let mut config = base_config();
    config.airdrop_min_domain_length = 3;
    let state = setup_with(config);

    let (state, _) = update_user_role(&ctx(ADMIN), state, UserRole::Airdrop, addr(ADMIN), true)
        .unwrap();
    let (state, events) = add_airdrop(&ctx(ADMIN), state, vec![addr(ALICE)]).unwrap();
    assert!(events.is_empty());
    assert!(state.airdrop.has_airdrop(&addr(ALICE)));

    // a too-short name cannot redeem the allocation: the request falls
    // through to the fee-gated path, leaving the allocation unredeemed
    let (after, events) = mint(
        &ctx(ALICE),
        state.clone(),
        "ab".to_string(),
        addr(ALICE),
        COIN,
        None,
        None,
        None,
    )
    .unwrap();
    assert_eq!(events.len(), 1);
    assert!(!after.pns.is_minted(&"ab".to_string()));
    assert!(after.airdrop.has_airdrop(&addr(ALICE)));

    // a long enough name finalizes at once, consuming the allocation
    let (state, events) = mint(
        &ctx(ALICE),
        state,
        "abc".to_string(),
        addr(ALICE),
        COIN,
        None,
        None,
        None,
    )
    .unwrap();
    assert!(events.is_empty());
    assert!(state.pns.is_minted(&"abc".to_string()));
    assert!(!state.airdrop.has_airdrop(&addr(ALICE)));
    assert_eq!(state.stats.get_mint_count(&addr(ALICE)), None);
}

#[test]
fn add_airdrop_requires_airdrop_role() {
    let state = setup();
    let res = add_airdrop(&ctx(ALICE), state, vec![addr(ALICE)]);
    assert_eq!(res.err(), Some(ContractError::Unauthorized));
}

#[test]
fn transfer_clears_approval_and_records() {
    let state = setup();
    let state = admin_mint(state, "name", ALICE, None);

    let (state, _) = approve_domain(
        &ctx(ALICE),
        state,
        Some(addr(BOB)),
        "name".to_string(),
    )
    .unwrap();
    let (state, _) = mint_record(
        &ctx(ALICE),
        state,
        "name".to_string(),
        RecordClass::Wallet,
        b"wallet-of-alice".to_vec(),
    )
    .unwrap();

    let token_id = state.pns.get_token_id(&"name".to_string()).unwrap();
    assert_eq!(state.nft.get_approved(token_id), Some(addr(BOB)));

    let (state, events) = transfer_domain(
        &ctx(ALICE),
        state,
        addr(ALICE),
        addr(BOB),
        "name".to_string(),
    )
    .unwrap();
    assert!(events.is_empty());
    assert_eq!(state.nft.owner_of(token_id), Some(addr(BOB)));
    assert_eq!(state.nft.get_approved(token_id), None);
    let d = state.pns.get_domain(&"name".to_string()).unwrap();
    assert!(d.get_record(RecordClass::Wallet).is_none());
}

#[test]
fn renewal_extends_and_restarts() {
    let state = setup();
    let state = admin_mint(state, "name", ALICE, Some(1));

    let first_expiry = state
        .pns
        .get_domain(&"name".to_string())
        .unwrap()
        .expires_at
        .unwrap();
    assert_eq!(first_expiry, NOW + MILLIS_PER_YEAR);

    // renewing before expiry extends from the current expiration
    let (state, events) = renew_subscription(
        &ctx_at(ADMIN, NOW + 50),
        state,
        "name".to_string(),
        COIN,
        addr(ALICE),
        2,
    )
    .unwrap();
    assert!(events.is_empty());
    let second_expiry = state
        .pns
        .get_domain(&"name".to_string())
        .unwrap()
        .expires_at
        .unwrap();
    assert_eq!(second_expiry, first_expiry + 2 * MILLIS_PER_YEAR);

    // renewing after expiry restarts the clock from now
    let late = second_expiry + 500;
    let (state, _) = renew_subscription(
        &ctx_at(ADMIN, late),
        state,
        "name".to_string(),
        COIN,
        addr(ALICE),
        1,
    )
    .unwrap();
    let third_expiry = state
        .pns
        .get_domain(&"name".to_string())
        .unwrap()
        .expires_at
        .unwrap();
    assert_eq!(third_expiry, late + MILLIS_PER_YEAR);
    assert!(third_expiry >= second_expiry + MILLIS_PER_YEAR);
}

#[test]
fn renewal_with_zero_years_is_rejected() {
    let state = setup();
    let state = admin_mint(state, "name", ALICE, Some(1));
    let res = renew_subscription(&ctx(ADMIN), state, "name".to_string(), COIN, addr(ALICE), 0);
    assert_eq!(res.err(), Some(ContractError::InvalidSubscriptionYears));
}

#[test]
fn fee_gated_renewal_quotes_and_finalizes() {
    let state = setup();
    let state = admin_mint(state, "name", ALICE, Some(1));

    let (state, events) = renew_subscription(
        &ctx(ALICE),
        state,
        "name".to_string(),
        COIN,
        addr(ALICE),
        2,
    )
    .unwrap();
    assert_eq!(events.len(), 1);
    let request = &events[0];
    // "name" has length 4, so two years cost 2 * 50 = 100
    assert_eq!(request.intent.total_fees, 100);
    assert_eq!(request.transfer.from, addr(ALICE));

    let msg = match &request.callback {
        CallbackMsg::OnRenew(m) => m.clone(),
        _ => panic!("expected a renew callback"),
    };
    let before = state
        .pns
        .get_domain(&"name".to_string())
        .unwrap()
        .expires_at
        .unwrap();
    let (state, _) = on_renew_subscription_callback(
        &ctx(ALICE),
        &ok_callback(),
        state,
        request.intent,
        msg,
    )
    .unwrap();
    let after = state
        .pns
        .get_domain(&"name".to_string())
        .unwrap()
        .expires_at
        .unwrap();
    assert_eq!(after, before + 2 * MILLIS_PER_YEAR);
}

#[test]
fn failed_payment_aborts_renewal() {
    let state = setup();
    let state = admin_mint(state, "name", ALICE, Some(1));
    let intent = PaymentIntent {
        id: COIN,
        receiver: addr(RECEIVER),
        token: addr(PAYMENT_TOKEN),
        total_fees: 100,
    };
    let msg = RenewDomainMsg {
        domain: "name".to_string(),
        payer: addr(ALICE),
        payment_coin_id: COIN,
        subscription_years: 2,
    };
    let res =
        on_renew_subscription_callback(&ctx(ALICE), &failed_callback(), state, intent, msg);
    assert_eq!(res.err(), Some(ContractError::PaymentFailed));
}

#[test]
fn child_mint_requires_parent_ownership() {
    let state = setup();
    let state = admin_mint(state, "parent", ALICE, None);

    // bob neither owns nor operates for the parent's owner
    let res = mint(
        &ctx(BOB),
        state.clone(),
        "child".to_string(),
        addr(BOB),
        COIN,
        None,
        Some("parent".to_string()),
        None,
    );
    assert_eq!(res.err(), Some(ContractError::Unauthorized));

    // the parent's owner may hang a child under it, without fee
    let (state, events) = mint(
        &ctx(ALICE),
        state,
        "child".to_string(),
        addr(ALICE),
        COIN,
        None,
        Some("parent".to_string()),
        None,
    )
    .unwrap();
    assert!(events.is_empty());
    assert!(state.pns.is_minted(&"child".to_string()));
}

#[test]
fn disabled_contract_rejects_operations() {
    let state = setup();
    let mut config = base_config();
    config.contract_enabled = false;
    let (state, _) = update_config(&ctx(ADMIN), state, config).unwrap();

    let res = mint(
        &ctx(ADMIN),
        state.clone(),
        "name".to_string(),
        addr(ADMIN),
        COIN,
        None,
        None,
        None,
    );
    assert_eq!(res.err(), Some(ContractError::ContractDisabled));

    let res = renew_subscription(&ctx(ADMIN), state, "name".to_string(), COIN, addr(ADMIN), 1);
    assert_eq!(res.err(), Some(ContractError::ContractDisabled));
}

#[test]
fn update_config_requires_admin() {
    let state = setup();
    let res = update_config(&ctx(ALICE), state, base_config());
    assert_eq!(res.err(), Some(ContractError::Unauthorized));
}

#[test]
fn owner_info_counts_domains() {
    let state = setup();
    let info = owner_info(&state, addr(ALICE));
    assert_eq!(info.domain_count, 0);
    assert_eq!(info.total_supply, 0);

    let state = admin_mint(state, "one", ALICE, None);
    let state = admin_mint(state, "two", ALICE, None);
    let info = owner_info(&state, addr(ALICE));
    assert_eq!(info.domain_count, 2);
    assert_eq!(info.total_supply, 2);

    assert!(is_domain_owner(&state, &"one".to_string(), addr(ALICE)).is_ok());
    assert_eq!(
        is_domain_owner(&state, &"one".to_string(), addr(BOB)),
        Err(ContractError::Unauthorized)
    );
    assert_eq!(
        is_domain_owner(&state, &"missing".to_string(), addr(BOB)),
        Err(ContractError::NotFound)
    );
}

#[test]
fn record_batch_attaches_all() {
    let state = setup();
    let state = admin_mint(state, "name", ALICE, None);

    let msgs = vec![
        PnsRecordMintMsg {
            domain: "name".to_string(),
            class: RecordClass::Wallet,
            data: b"w".to_vec(),
        },
        PnsRecordMintMsg {
            domain: "name".to_string(),
            class: RecordClass::Uri,
            data: b"u".to_vec(),
        },
    ];
    let (state, events) = mint_record_batch(&ctx(ALICE), state, msgs).unwrap();
    assert!(events.is_empty());
    let d = state.pns.get_domain(&"name".to_string()).unwrap();
    assert_eq!(d.get_record(RecordClass::Wallet).unwrap().data, b"w".to_vec());
    assert_eq!(d.get_record(RecordClass::Uri).unwrap().data, b"u".to_vec());

    // a duplicate class inside one batch fails as a whole
    let msgs = vec![
        PnsRecordMintMsg {
            domain: "name".to_string(),
            class: RecordClass::Bio,
            data: b"a".to_vec(),
        },
        PnsRecordMintMsg {
            domain: "name".to_string(),
            class: RecordClass::Bio,
            data: b"b".to_vec(),
        },
    ];
    let res = mint_record_batch(&ctx(ALICE), state, msgs);
    assert_eq!(res.err(), Some(ContractError::RecordAlreadyMinted));
}

#[test]
fn mint_batch_mints_every_domain() {
    let state = setup();
    let msgs = vec![
        MintMsg {
            domain: "one".to_string(),
            to: addr(ADMIN),
            payment_coin_id: COIN,
            token_uri: None,
            parent_id: None,
            subscription_years: None,
        },
        MintMsg {
            domain: "two".to_string(),
            to: addr(ADMIN),
            payment_coin_id: COIN,
            token_uri: None,
            parent_id: None,
            subscription_years: None,
        },
    ];
    let (state, events) = mint_batch(&ctx(ADMIN), state, msgs).unwrap();
    assert!(events.is_empty());
    assert!(state.pns.is_minted(&"one".to_string()));
    assert!(state.pns.is_minted(&"two".to_string()));
}

#[test]
fn management_rights_cover_owner_approved_and_operator() {
    let state = setup();
    let state = admin_mint(state, "name", ALICE, None);
    let token_id = state.pns.get_token_id(&"name".to_string()).unwrap();

    assert!(allowed_to_manage(&state, &addr(ALICE), &"name".to_string()));
    assert!(!allowed_to_manage(&state, &addr(BOB), &"name".to_string()));
    assert!(!allowed_to_manage(&state, &addr(ALICE), &"missing".to_string()));

    let (state, _) = approve(&ctx(ALICE), state, Some(addr(BOB)), token_id).unwrap();
    assert!(allowed_to_manage(&state, &addr(BOB), &"name".to_string()));

    let (state, _) = set_approval_for_all(&ctx(ALICE), state, addr(RECEIVER), true).unwrap();
    assert!(allowed_to_manage(&state, &addr(RECEIVER), &"name".to_string()));
}

#[test]
fn airdrop_tier_bypasses_whitelist_and_cap() {
    let mut config = base_config();
    config.whitelist_enabled = true;
    config.mint_count_limit_enabled = true;
    config.mint_count_limit = 0;
    config.airdrop_min_domain_length = 3;
    let state = setup_with(config);

    let (state, _) = update_user_role(&ctx(ADMIN), state, UserRole::Airdrop, addr(ADMIN), true)
        .unwrap();
    let (state, _) = add_airdrop(&ctx(ADMIN), state, vec![addr(ALICE)]).unwrap();

    // the allocation outranks the whitelist gate and the mint cap
    let (state, events) = mint(
        &ctx(ALICE),
        state,
        "abc".to_string(),
        addr(ALICE),
        COIN,
        None,
        None,
        None,
    )
    .unwrap();
    assert!(events.is_empty());
    assert!(state.pns.is_minted(&"abc".to_string()));
    assert!(!state.airdrop.has_airdrop(&addr(ALICE)));

    // with the allocation gone, the gates apply again
    let res = mint(
        &ctx(ALICE),
        state,
        "abcd".to_string(),
        addr(ALICE),
        COIN,
        None,
        None,
        None,
    );
    assert_eq!(res.err(), Some(ContractError::UserNotWhitelisted));
}
