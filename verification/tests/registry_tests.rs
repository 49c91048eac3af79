use meta_names::errors::ContractError;
use meta_names::registry::{
    execute_init, validate_domain, PnsDomainUpdateExpirationMsg, PnsMintMsg, PnsRecordDeleteAllMsg,
    PnsRecordDeleteMsg, PnsRecordMintMsg, PnsRecordUpdateMsg, PartisiaNameSystemState, RecordClass,
};
use meta_names::version::ContractVersionBase;

const NOW: i64 = 1_000_000;
const TOMORROW: i64 = NOW + 86_400_000;
const YESTERDAY: i64 = NOW - 86_400_000;

fn fresh() -> PartisiaNameSystemState {
    execute_init(ContractVersionBase::new("meta-names", "1.0.0"))
}

fn mint_msg(domain: &str, token_id: u128, parent: Option<&str>, expires_at: Option<i64>) -> PnsMintMsg {
    PnsMintMsg {
        domain: domain.to_string(),
        token_id,
        parent_id: parent.map(|p| p.to_string()),
        expires_at,
    }
}

#[test]
fn unminted_name_is_absent_and_mintable() {
    let mut state = fresh();
    assert!(state.get_domain(&"name".to_string()).is_none());
    assert!(!state.is_minted(&"name".to_string()));

    let res = state.execute_mint(&mint_msg("name", 1, None, Some(TOMORROW)), NOW);
    assert_eq!(res, Ok(()));
    assert!(state.is_minted(&"name".to_string()));
    assert_eq!(state.get_token_id(&"name".to_string()), Some(1));
}

#[test]
fn second_mint_of_same_name_fails() {
    let mut state = fresh();
    state
        .execute_mint(&mint_msg("name", 1, None, Some(TOMORROW)), NOW)
        .unwrap();
    let res = state.execute_mint(&mint_msg("name", 2, None, None), NOW);
    assert_eq!(res, Err(ContractError::AlreadyMinted));
}

#[test]
fn reused_token_id_fails() {
    let mut state = fresh();
    state
        .execute_mint(&mint_msg("first", 1, None, None), NOW)
        .unwrap();
    let res = state.execute_mint(&mint_msg("second", 1, None, None), NOW);
    assert_eq!(res, Err(ContractError::AlreadyMinted));
}

#[test]
fn invalid_names_are_rejected() {
    let mut state = fresh();
    for bad in ["", "UPPER", "with.dot", "with space", "aaaaaaaaaaaaaaaaaaaaaaaaaaaaaaaaa"] {
        let res = state.execute_mint(&mint_msg(bad, 1, None, None), NOW);
        assert_eq!(res, Err(ContractError::InvalidDomain), "name {:?}", bad);
    }
    assert!(validate_domain(&"a-z09".to_string()));
    assert!(validate_domain(&"a".to_string()));
    assert!(validate_domain(&"aaaaaaaaaaaaaaaaaaaaaaaaaaaaaaaa".to_string()));
    assert!(!validate_domain(&"".to_string()));
}

#[test]
fn child_of_missing_parent_fails() {
    let mut state = fresh();
    let res = state.execute_mint(&mint_msg("child", 1, Some("parent"), None), NOW);
    assert_eq!(res, Err(ContractError::ParentNotFound));
}

#[test]
fn child_of_expired_parent_fails() {
    let mut state = fresh();
    state
        .execute_mint(&mint_msg("parent", 1, None, Some(YESTERDAY)), NOW - 200_000_000)
        .unwrap();
    let res = state.execute_mint(&mint_msg("child", 2, Some("parent"), None), NOW);
    assert_eq!(res, Err(ContractError::ParentNotActive));
}

#[test]
fn child_activity_follows_root() {
    let mut state = fresh();
    state
        .execute_mint(&mint_msg("root", 1, None, Some(TOMORROW)), NOW)
        .unwrap();
    state
        .execute_mint(&mint_msg("child", 2, Some("root"), None), NOW)
        .unwrap();
    state
        .execute_mint(&mint_msg("grandchild", 3, Some("child"), None), NOW)
        .unwrap();

    for name in ["root", "child", "grandchild"] {
        assert!(state.is_active(&name.to_string(), NOW), "{} should be active", name);
    }

    // expire the root: every descendant follows
    state
        .execute_update_expiration(&PnsDomainUpdateExpirationMsg {
            domain: "root".to_string(),
            expires_at: Some(YESTERDAY),
        })
        .unwrap();
    for name in ["root", "child", "grandchild"] {
        assert_eq!(
            state.is_active(&name.to_string(), NOW),
            state.is_active(&"root".to_string(), NOW),
            "{} should follow the root",
            name
        );
        assert!(!state.is_active(&name.to_string(), NOW));
    }
}

#[test]
fn root_parent_is_chain_end() {
    let mut state = fresh();
    state
        .execute_mint(&mint_msg("root", 1, None, None), NOW)
        .unwrap();
    state
        .execute_mint(&mint_msg("child", 2, Some("root"), None), NOW)
        .unwrap();
    state
        .execute_mint(&mint_msg("grandchild", 3, Some("child"), None), NOW)
        .unwrap();

    assert!(state.get_root_parent(&"root".to_string()).is_none());
    let root_of_child = state.get_root_parent(&"child".to_string()).unwrap();
    assert_eq!(root_of_child.token_id, 1);
    let root_of_grandchild = state.get_root_parent(&"grandchild".to_string()).unwrap();
    assert_eq!(root_of_grandchild.token_id, 1);

    let parent_of_grandchild = state.get_parent(&"grandchild".to_string()).unwrap();
    assert_eq!(parent_of_grandchild.token_id, 2);
}

#[test]
fn child_never_renewable() {
    let mut state = fresh();
    state
        .execute_mint(&mint_msg("root", 1, None, Some(TOMORROW)), NOW)
        .unwrap();
    state
        .execute_mint(&mint_msg("child", 2, Some("root"), None), NOW)
        .unwrap();
    let res = state.execute_update_expiration(&PnsDomainUpdateExpirationMsg {
        domain: "child".to_string(),
        expires_at: Some(TOMORROW),
    });
    assert_eq!(res, Err(ContractError::NotRenewable));
}

#[test]
fn record_lifecycle() {
    let mut state = fresh();
    state
        .execute_mint(&mint_msg("name", 1, None, None), NOW)
        .unwrap();

    let res = state.execute_record_update(&PnsRecordUpdateMsg {
        domain: "name".to_string(),
        class: RecordClass::Wallet,
        data: b"w1".to_vec(),
    });
    assert_eq!(res, Err(ContractError::RecordNotFound));

    state
        .execute_record_mint(&PnsRecordMintMsg {
            domain: "name".to_string(),
            class: RecordClass::Wallet,
            data: b"w1".to_vec(),
        })
        .unwrap();

    let res = state.execute_record_mint(&PnsRecordMintMsg {
        domain: "name".to_string(),
        class: RecordClass::Wallet,
        data: b"w2".to_vec(),
    });
    assert_eq!(res, Err(ContractError::RecordAlreadyMinted));

    let d = state.get_domain(&"name".to_string()).unwrap();
    assert_eq!(d.get_record(RecordClass::Wallet).unwrap().data, b"w1".to_vec());
    assert!(d.get_record(RecordClass::Uri).is_none());

    state
        .execute_record_update(&PnsRecordUpdateMsg {
            domain: "name".to_string(),
            class: RecordClass::Wallet,
            data: b"w2".to_vec(),
        })
        .unwrap();
    let d = state.get_domain(&"name".to_string()).unwrap();
    assert_eq!(d.get_record(RecordClass::Wallet).unwrap().data, b"w2".to_vec());

    state
        .execute_record_delete(&PnsRecordDeleteMsg {
            domain: "name".to_string(),
            class: RecordClass::Wallet,
        })
        .unwrap();
    let d = state.get_domain(&"name".to_string()).unwrap();
    assert!(d.get_record(RecordClass::Wallet).is_none());

    let res = state.execute_record_delete(&PnsRecordDeleteMsg {
        domain: "name".to_string(),
        class: RecordClass::Wallet,
    });
    assert_eq!(res, Err(ContractError::RecordNotFound));
}

#[test]
fn delete_all_records_tolerates_empty() {
    let mut state = fresh();
    state
        .execute_mint(&mint_msg("name", 1, None, None), NOW)
        .unwrap();
    let res = state.execute_record_delete_all(&PnsRecordDeleteAllMsg {
        domain: "name".to_string(),
    });
    assert_eq!(res, Ok(()));
}

#[test]
fn record_on_unminted_domain_fails() {
    let mut state = fresh();
    let res = state.execute_record_mint(&PnsRecordMintMsg {
        domain: "name".to_string(),
        class: RecordClass::Bio,
        data: b"hi".to_vec(),
    });
    assert_eq!(res, Err(ContractError::NotFound));
}

#[test]
fn domain_lookup_by_token() {
    let mut state = fresh();
    state
        .execute_mint(&mint_msg("name", 7, None, None), NOW)
        .unwrap();
    let (n, d) = state.get_domain_by_token_id(7).unwrap();
    assert_eq!(n, &"name".to_string());
    assert_eq!(d.token_id, 7);
    assert!(state.get_domain_by_token_id(8).is_none());
}

#[test]
fn parent_chain_ends_at_root() {
    let mut state = fresh();
    state
        .execute_mint(&mint_msg("root", 1, None, None), NOW)
        .unwrap();
    state
        .execute_mint(&mint_msg("child", 2, Some("root"), None), NOW)
        .unwrap();
    state
        .execute_mint(&mint_msg("grandchild", 3, Some("child"), None), NOW)
        .unwrap();

    assert!(state.get_parents(&"root".to_string()).is_empty());
    assert!(state.get_parents(&"missing".to_string()).is_empty());

    let chain = state.get_parents(&"grandchild".to_string());
    let ids: Vec<u128> = chain.iter().map(|d| d.token_id).collect();
    assert_eq!(ids, vec![2, 1]);
}
