use meta_names::fees::{compute_fee, MintFee, MintFees};

fn schedule(entries: &[(u32, u128)], default_fee: u128) -> MintFees {
    let mapping = entries
        .iter()
        .map(|&(chars_count, gas)| MintFee { chars_count, gas })
        .collect();
    MintFees { mapping, default_fee }
}

#[test]
fn test_mint_fees() {
    let mint_fees = schedule(&[(1, 200), (2, 150), (3, 100), (4, 50), (5, 5)], 1);

    let fees_tuples = [
        ("n", 200),
        ("na", 150),
        ("nam", 100),
        ("name", 50),
        ("names", 5),
        ("verylongname", 1),
    ];

    for (name, fee) in fees_tuples {
        let fees = mint_fees.get_gas_fees(name);
        assert_eq!(fees, fee);
    }
}

#[test]
fn compute_fee_length_two_three_years() {
    let fees = schedule(&[(1, 200), (2, 150), (3, 100), (4, 50)], 5);
    assert_eq!(compute_fee(&fees, "ab", 3), Some(450));
}

#[test]
fn compute_fee_default_for_long_name() {
    let fees = schedule(&[(1, 200), (2, 150), (3, 100), (4, 50)], 5);
    assert_eq!(compute_fee(&fees, "toolong", 2), Some(10));
}

#[test]
fn compute_fee_is_deterministic() {
    let fees = schedule(&[(1, 200), (2, 150), (3, 100), (4, 50)], 5);
    let first = compute_fee(&fees, "name", 7);
    let second = compute_fee(&fees, "name", 7);
    assert_eq!(first, second);
    assert_eq!(first, Some(350));
}

#[test]
fn duplicate_length_entries_last_wins() {
    let fees = schedule(&[(2, 100), (2, 70)], 5);
    assert_eq!(fees.get_gas_fees("ab"), 70);
}

#[test]
fn compute_fee_overflow_is_rejected() {
    let fees = schedule(&[(1, u128::MAX)], u128::MAX);
    assert_eq!(compute_fee(&fees, "a", 2), None);
}
