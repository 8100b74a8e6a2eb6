use ft::contract::Contract;
use ft::fee::{fee_amount, BPS_DENOMINATOR, TRANSFER_FEE_BPS};

#[test]
fn fee_example_ten_percent() {
    let contract = Contract::new_default_config(1, 3);
    let (net, fee) = contract.calculate_fee(1, 2, 100_000);
    assert_eq!(net, 90_000);
    assert_eq!(fee, Some(10_000));
}

#[test]
fn fee_rounds_down_and_stays_additive() {
    let contract = Contract::new_default_config(1, 3);
    let (net, fee) = contract.calculate_fee(1, 2, 12_345);
    assert_eq!(fee, Some(1_234));
    assert_eq!(net, 11_111);
    assert_eq!(net + fee.unwrap(), 12_345);

    let (net, fee) = contract.calculate_fee(1, 2, 9);
    assert_eq!(fee, Some(0));
    assert_eq!(net, 9);
}

#[test]
fn fee_exempt_when_fee_receiver_is_a_party() {
    let contract = Contract::new_default_config(1, 3);
    assert_eq!(contract.calculate_fee(3, 2, 100_000), (100_000, None));
    assert_eq!(contract.calculate_fee(1, 3, 100_000), (100_000, None));
    assert_eq!(contract.calculate_fee(3, 3, 100_000), (100_000, None));
}

#[test]
fn fee_amount_handles_values_near_the_limit() {
    // the split computation must not overflow even where a direct
    // `amount * rate` product would
    let amount = u128::MAX;
    let expected = (amount / BPS_DENOMINATOR) * TRANSFER_FEE_BPS
        + (amount % BPS_DENOMINATOR) * TRANSFER_FEE_BPS / BPS_DENOMINATOR;
    assert_eq!(fee_amount(amount), expected);
    assert_eq!(fee_amount(0), 0);
}
