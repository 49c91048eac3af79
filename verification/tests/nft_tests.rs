use meta_names::address::Address;
use meta_names::errors::ContractError;
use meta_names::nft::{
    execute_approve, execute_burn, execute_init, execute_mint, execute_set_approval_for_all,
    execute_transfer_from, NFTApproveForAllMsg, NFTApproveMsg, NFTBurnMsg, NFTInitMsg, NFTMintMsg,
    NFTTransferFromMsg,
};

fn mock_address(le: u8) -> Address {
    Address::new(le as u128)
}

fn init_msg(uri_template: &str) -> NFTInitMsg {
    NFTInitMsg {
        name: "Cool Token".to_string(),
        symbol: "CTC".to_string(),
        uri_template: uri_template.to_string(),
    }
}

#[test]
fn proper_mint() {
    let alice = 10u8;

    let msg = init_msg("ipfs://some.some/");
    let mut state = execute_init(&msg);

    let mint_msg = NFTMintMsg {
        token_id: 1,
        to: mock_address(alice),
        token_uri: Some("token".to_string()),
    };

    execute_mint(&mut state, &mint_msg).unwrap();
    assert_eq!(state.supply, 1);

    assert_eq!(state.owner_of(1), Some(mock_address(alice)));

    assert_eq!(state.balance_of(&mock_address(alice)), Some(1));

    assert_eq!(state.token_uri(1), Some(&"token".to_string()));
}

#[test]
fn token_already_minted_on_mint() {
    let alice = 10u8;

    let msg = init_msg("ipfs://some.some");
    let mut state = execute_init(&msg);

    let mint_msg = NFTMintMsg { token_id: 1, to: mock_address(alice), token_uri: None };

    execute_mint(&mut state, &mint_msg).unwrap();

    let mint_msg = NFTMintMsg { token_id: 1, to: mock_address(alice), token_uri: None };

    let res = execute_mint(&mut state, &mint_msg);
    assert_eq!(res, Err(ContractError::AlreadyMinted));
}

#[test]
fn proper_set_approve_for_all() {
    let alice = 10u8;
    let bob = 11u8;

    let msg = init_msg("ipfs://some.some");
    let mut state = execute_init(&msg);

    let approve_all_msg = NFTApproveForAllMsg { operator: mock_address(bob), approved: true };
    execute_set_approval_for_all(&mut state, &mock_address(alice), &approve_all_msg).unwrap();
    assert!(state.is_approved_for_all(&mock_address(alice), &mock_address(bob)));

    let approve_all_msg = NFTApproveForAllMsg { operator: mock_address(alice), approved: true };
    execute_set_approval_for_all(&mut state, &mock_address(bob), &approve_all_msg).unwrap();
    assert!(state.is_approved_for_all(&mock_address(alice), &mock_address(bob)));
    assert!(state.is_approved_for_all(&mock_address(bob), &mock_address(alice)));
}

#[test]
fn proper_token_operator_approve() {
    let alice = 10u8;
    let jack = 12u8;

    let msg = init_msg("ipfs://some.some");
    let mut state = execute_init(&msg);

    let mint_msg = NFTMintMsg { token_id: 1, to: mock_address(alice), token_uri: None };

    execute_mint(&mut state, &mint_msg).unwrap();
    assert_eq!(state.owner_of(1), Some(mock_address(alice)));

    let approve_msg = NFTApproveMsg { approved: Some(mock_address(jack)), token_id: 1 };

    execute_approve(&mut state, &mock_address(alice), &approve_msg).unwrap();
    assert_eq!(state.get_approved(1), Some(mock_address(jack)));
}

#[test]
fn approve_not_minted_token() {
    let bob = 11u8;
    let jack = 12u8;

    let msg = init_msg("ipfs://some.some");
    let mut state = execute_init(&msg);

    let approve_msg = NFTApproveMsg { approved: Some(mock_address(jack)), token_id: 1 };

    let res = execute_approve(&mut state, &mock_address(bob), &approve_msg);
    assert_eq!(res, Err(ContractError::NotFound));
}

#[test]
fn not_owner_or_operator_approve() {
    let alice = 10u8;
    let bob = 11u8;

    let msg = init_msg("ipfs://some.some");
    let mut state = execute_init(&msg);

    let mint_msg = NFTMintMsg { token_id: 1, to: mock_address(alice), token_uri: None };

    execute_mint(&mut state, &mint_msg).unwrap();

    let approve_msg = NFTApproveMsg { approved: Some(mock_address(bob)), token_id: 1 };

    let res = execute_approve(&mut state, &mock_address(bob), &approve_msg);
    assert_eq!(res, Err(ContractError::Unauthorized));
}

#[test]
fn proper_owner_transfer_from() {
    let alice = 10u8;
    let bob = 11u8;

    let msg = init_msg("ipfs://some.some");
    let mut state = execute_init(&msg);

    let mint_msg = NFTMintMsg { token_id: 1, to: mock_address(alice), token_uri: None };

    execute_mint(&mut state, &mint_msg).unwrap();

    let transfer_msg = NFTTransferFromMsg {
        from: mock_address(alice),
        to: mock_address(bob),
        token_id: 1,
    };

    execute_transfer_from(&mut state, &mock_address(alice), &transfer_msg).unwrap();
    assert_eq!(state.owner_of(1), Some(mock_address(bob)));
    assert_eq!(state.balance_of(&mock_address(alice)), Some(0));
    assert_eq!(state.balance_of(&mock_address(bob)), Some(1));
}

#[test]
fn proper_approved_transfer_from() {
    let alice = 10u8;
    let bob = 11u8;

    let msg = init_msg("ipfs://some.some");
    let mut state = execute_init(&msg);

    let mint_msg = NFTMintMsg { token_id: 1, to: mock_address(alice), token_uri: None };

    execute_mint(&mut state, &mint_msg).unwrap();

    let approve_msg = NFTApproveMsg { approved: Some(mock_address(bob)), token_id: 1 };

    execute_approve(&mut state, &mock_address(alice), &approve_msg).unwrap();

    let transfer_msg = NFTTransferFromMsg {
        from: mock_address(alice),
        to: mock_address(bob),
        token_id: 1,
    };

    execute_transfer_from(&mut state, &mock_address(bob), &transfer_msg).unwrap();
    assert_eq!(state.owner_of(1), Some(mock_address(bob)));
    assert_eq!(state.get_approved(1), None);
    assert_eq!(state.balance_of(&mock_address(alice)), Some(0));
    assert_eq!(state.balance_of(&mock_address(bob)), Some(1));
}

#[test]
fn proper_operator_transfer_from() {
    let alice = 10u8;
    let bob = 11u8;

    let msg = init_msg("ipfs://some.some");
    let mut state = execute_init(&msg);

    let mint_msg = NFTMintMsg { token_id: 1, to: mock_address(alice), token_uri: None };

    execute_mint(&mut state, &mint_msg).unwrap();

    let approve_all_msg = NFTApproveForAllMsg { operator: mock_address(bob), approved: true };
    execute_set_approval_for_all(&mut state, &mock_address(alice), &approve_all_msg).unwrap();

    let transfer_msg = NFTTransferFromMsg {
        from: mock_address(alice),
        to: mock_address(bob),
        token_id: 1,
    };

    execute_transfer_from(&mut state, &mock_address(bob), &transfer_msg).unwrap();
    assert_eq!(state.owner_of(1), Some(mock_address(bob)));
    assert_eq!(state.balance_of(&mock_address(alice)), Some(0));
    assert_eq!(state.balance_of(&mock_address(bob)), Some(1));
    assert_eq!(state.get_approved(1), None);
    assert!(state.is_approved_for_all(&mock_address(alice), &mock_address(bob)));
}

#[test]
fn transfer_from_not_minted_token() {
    let alice = 10u8;
    let bob = 11u8;

    let msg = init_msg("ipfs://some.some");
    let mut state = execute_init(&msg);

    let transfer_msg = NFTTransferFromMsg {
        from: mock_address(alice),
        to: mock_address(bob),
        token_id: 1,
    };

    let res = execute_transfer_from(&mut state, &mock_address(bob), &transfer_msg);
    assert_eq!(res, Err(ContractError::NotFound));
}

#[test]
fn transfer_from_not_owner_or_approved_token() {
    let alice = 10u8;
    let jack = 12u8;

    let msg = init_msg("ipfs://some.some");
    let mut state = execute_init(&msg);

    let mint_msg = NFTMintMsg { token_id: 1, to: mock_address(alice), token_uri: None };

    execute_mint(&mut state, &mint_msg).unwrap();

    let transfer_msg = NFTTransferFromMsg {
        from: mock_address(alice),
        to: mock_address(jack),
        token_id: 1,
    };

    let res = execute_transfer_from(&mut state, &mock_address(jack), &transfer_msg);
    assert_eq!(res, Err(ContractError::Unauthorized));
}

#[test]
fn proper_burn() {
    let alice = 10u8;

    let msg = init_msg("ipfs://some.some");
    let mut state = execute_init(&msg);

    let mint_msg = NFTMintMsg { token_id: 1, to: mock_address(alice), token_uri: None };

    execute_mint(&mut state, &mint_msg).unwrap();

    let burn_msg = NFTBurnMsg { token_id: 1 };

    execute_burn(&mut state, &mock_address(alice), &burn_msg).unwrap();
    assert_eq!(state.supply, 0);
    assert!(!state.is_minted(1));
    assert_eq!(state.balance_of(&mock_address(alice)), Some(0));
}

#[test]
fn burn_not_minted_token() {
    let alice = 10u8;

    let msg = init_msg("ipfs://some.some");
    let mut state = execute_init(&msg);

    let burn_msg = NFTBurnMsg { token_id: 1 };
    let res = execute_burn(&mut state, &mock_address(alice), &burn_msg);
    assert_eq!(res, Err(ContractError::NotFound));
}
