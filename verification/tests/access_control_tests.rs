use meta_names::access_control::{AccessControlState, DEFAULT_ADMIN_ROLE};
use meta_names::address::Address;

const ROLE_A: u8 = 0x02;
const ROLE_B: u8 = 0x03;

fn mock_address(le: u8) -> Address {
    Address::new(le as u128)
}

#[test]
fn proper_access_control() {
    let alice = mock_address(1u8);
    let bob = mock_address(2u8);
    let jack = mock_address(3u8);

    let mut access_control = AccessControlState::new();

    assert!(!access_control.has_role(ROLE_A, &alice));
    // an unconfigured role is administered by the bootstrap admin role
    assert_eq!(access_control.get_role_admin(ROLE_A), DEFAULT_ADMIN_ROLE);

    access_control.setup_role(DEFAULT_ADMIN_ROLE, &alice);
    assert!(!access_control.has_role(ROLE_A, &alice));
    assert!(access_control.has_role(DEFAULT_ADMIN_ROLE, &alice));

    assert!(!access_control.has_role(ROLE_B, &bob));
    access_control.setup_role(ROLE_B, &bob);
    assert!(access_control.has_role(ROLE_B, &bob));

    assert!(!access_control.has_role(ROLE_B, &jack));
    access_control
        .grant_role(ROLE_B, &jack, &mock_address(1u8))
        .unwrap();
    assert!(access_control.has_role(ROLE_B, &jack));

    assert_eq!(access_control.get_role_admin(ROLE_B), 0x00);

    assert!(access_control.assert_only_role(ROLE_B, &mock_address(3u8)).is_ok());

    assert!(access_control.has_role(ROLE_B, &jack));
    access_control
        .revoke_role(ROLE_B, &jack, &mock_address(1u8))
        .unwrap();
    assert!(!access_control.has_role(ROLE_B, &jack));

    access_control.setup_role(ROLE_A, &bob);
    access_control.set_role_admin(ROLE_A, ROLE_B);

    assert_eq!(access_control.get_role_admin(ROLE_A), 0x03);

    access_control.renounce_role(DEFAULT_ADMIN_ROLE, &mock_address(1u8));
    assert!(!access_control.has_role(DEFAULT_ADMIN_ROLE, &alice));
}

#[test]
fn test_role_mismatch() {
    let jack = mock_address(3u8);

    let mut access_control = AccessControlState::new();

    access_control.setup_role(DEFAULT_ADMIN_ROLE, &jack);

    let res = access_control.assert_only_role(ROLE_A, &mock_address(3u8));
    assert!(res.is_err());
}

#[test]
fn granting_twice_keeps_one_membership() {
    let alice = mock_address(1u8);
    let bob = mock_address(2u8);

    let mut access_control = AccessControlState::new();
    access_control.setup_role(DEFAULT_ADMIN_ROLE, &alice);

    access_control.grant_role(ROLE_A, &bob, &alice).unwrap();
    access_control.grant_role(ROLE_A, &bob, &alice).unwrap();
    assert!(access_control.has_role(ROLE_A, &bob));

    // one revoke suffices: the double grant stored a single membership
    access_control.revoke_role(ROLE_A, &bob, &alice).unwrap();
    assert!(!access_control.has_role(ROLE_A, &bob));
}

#[test]
fn revoking_unheld_role_is_noop() {
    let alice = mock_address(1u8);
    let bob = mock_address(2u8);

    let mut access_control = AccessControlState::new();
    access_control.setup_role(DEFAULT_ADMIN_ROLE, &alice);

    assert!(access_control.revoke_role(ROLE_A, &bob, &alice).is_ok());
    assert!(!access_control.has_role(ROLE_A, &bob));
}

#[test]
fn grant_without_admin_role_fails() {
    let alice = mock_address(1u8);
    let bob = mock_address(2u8);

    let mut access_control = AccessControlState::new();
    access_control.setup_role(DEFAULT_ADMIN_ROLE, &alice);

    let res = access_control.grant_role(ROLE_A, &bob, &bob);
    assert!(res.is_err());
    assert!(!access_control.has_role(ROLE_A, &bob));
}

#[test]
fn set_role_admin_requires_admin_of_role() {
    let alice = mock_address(1u8);
    let bob = mock_address(2u8);

    let mut access_control = AccessControlState::new();
    access_control.setup_role(DEFAULT_ADMIN_ROLE, &alice);

    let res =
        meta_names::access_control::execute_set_role_admin(&mut access_control, ROLE_A, ROLE_B, &bob);
    assert!(res.is_err());
    assert_eq!(access_control.get_role_admin(ROLE_A), DEFAULT_ADMIN_ROLE);

    let res =
        meta_names::access_control::execute_set_role_admin(&mut access_control, ROLE_A, ROLE_B, &alice);
    assert!(res.is_ok());
    assert_eq!(access_control.get_role_admin(ROLE_A), ROLE_B);
}
