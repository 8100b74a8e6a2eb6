use ft::contract::{Contract, DEFAULT_TOTAL_SUPPLY, GAS_FOR_FT_TRANSFER_CALL};
use ft::error::Error;
use ft::fee::TRANSFER_FEE_BPS;
use ft::pending::NotificationOutcome;

const TOTAL_SUPPLY: u128 = DEFAULT_TOTAL_SUPPLY;

fn enough_gas() -> u64 {
    GAS_FOR_FT_TRANSFER_CALL + 1
}

#[test]
fn test_new() {
    let contract = Contract::new_default_config(1, 2);
    assert_eq!(contract.ft_total_supply(), TOTAL_SUPPLY);
    assert_eq!(contract.ft_balance_of(1), TOTAL_SUPPLY);
}

#[test]
fn test_transfer() {
    let mut contract = Contract::new_default_config(1, 3);
    contract.register(2).unwrap();

    let transfer_amount = TOTAL_SUPPLY / 3;
    contract.ft_transfer(1, 2, transfer_amount, None).unwrap();

    let expected_fee = transfer_amount * TRANSFER_FEE_BPS / 10_000;
    assert_eq!(contract.ft_balance_of(1), TOTAL_SUPPLY - transfer_amount);
    assert_eq!(contract.ft_balance_of(2), transfer_amount - expected_fee);
    assert_eq!(contract.ft_balance_of(3), expected_fee);
}

#[test]
fn direct_transfer_moves_gross_net_and_fee() {
    let mut contract = Contract::new_default_config(1, 3);
    contract.register(2).unwrap();
    contract.ft_transfer(1, 2, 100_000, Some("memo".to_string())).unwrap();
    assert_eq!(contract.ft_balance_of(1), TOTAL_SUPPLY - 100_000);
    assert_eq!(contract.ft_balance_of(2), 90_000);
    assert_eq!(contract.ft_balance_of(3), 10_000);
    assert_eq!(contract.ft_total_supply(), TOTAL_SUPPLY);
}

#[test]
fn direct_transfer_to_fee_receiver_is_exempt() {
    let mut contract = Contract::new_default_config(1, 3);
    contract.ft_transfer(1, 3, 100_000, None).unwrap();
    assert_eq!(contract.ft_balance_of(1), TOTAL_SUPPLY - 100_000);
    assert_eq!(contract.ft_balance_of(3), 100_000);
}

#[test]
fn direct_self_transfer_charges_only_the_fee() {
    let mut contract = Contract::new_default_config(1, 3);
    contract.ft_transfer(1, 1, 1_000, None).unwrap();
    assert_eq!(contract.ft_balance_of(1), TOTAL_SUPPLY - 100);
    assert_eq!(contract.ft_balance_of(3), 100);
    assert_eq!(contract.ft_total_supply(), TOTAL_SUPPLY);
}

#[test]
fn direct_transfer_rejects_insufficient_balance() {
    let mut contract = Contract::new_default_config(1, 3);
    contract.register(2).unwrap();
    let r = contract.ft_transfer(2, 1, 1, None);
    assert_eq!(r, Err(Error::InsufficientBalance));
    assert_eq!(contract.ft_balance_of(1), TOTAL_SUPPLY);
    assert_eq!(contract.ft_balance_of(2), 0);
}

#[test]
fn direct_transfer_rejects_unregistered_receiver() {
    let mut contract = Contract::new_default_config(1, 3);
    let r = contract.ft_transfer(1, 7, 100, None);
    assert_eq!(r, Err(Error::NotRegistered));
    assert_eq!(contract.ft_balance_of(1), TOTAL_SUPPLY);
}

#[test]
fn transfer_call_rejects_insufficient_budget() {
    let mut contract = Contract::new_default_config(1, 3);
    contract.register(2).unwrap();
    let r = contract.ft_transfer_call(1, 2, 100, None, "m".to_string(), GAS_FOR_FT_TRANSFER_CALL);
    assert_eq!(r, Err(Error::InsufficientBudget));
    assert_eq!(contract.ft_balance_of(1), TOTAL_SUPPLY);
}

#[test]
fn transfer_call_moves_only_the_net_optimistically() {
    let mut contract = Contract::new_default_config(1, 3);
    contract.register(2).unwrap();
    let handle = contract
        .ft_transfer_call(1, 2, 100_000, None, "pay".to_string(), enough_gas())
        .unwrap();
    assert_eq!(handle, 0);
    assert_eq!(contract.ft_balance_of(1), TOTAL_SUPPLY - 90_000);
    assert_eq!(contract.ft_balance_of(2), 90_000);
    // the fee is not collected before resolution
    assert_eq!(contract.ft_balance_of(3), 0);
}

#[test]
fn full_acceptance_uses_everything_and_charges_the_fee_once() {
    let mut contract = Contract::new_default_config(1, 3);
    contract.register(2).unwrap();
    let handle = contract
        .ft_transfer_call(1, 2, 100_000, None, "pay".to_string(), enough_gas())
        .unwrap();
    let used = contract
        .ft_resolve_transfer(handle, NotificationOutcome::Responded(0))
        .unwrap();
    assert_eq!(used, 100_000);
    assert_eq!(contract.ft_balance_of(1), TOTAL_SUPPLY - 100_000);
    assert_eq!(contract.ft_balance_of(2), 90_000);
    assert_eq!(contract.ft_balance_of(3), 10_000);
    assert_eq!(contract.ft_total_supply(), TOTAL_SUPPLY);
}

#[test]
fn full_decline_after_failed_notification_charges_no_fee() {
    let mut contract = Contract::new_default_config(1, 3);
    contract.register(2).unwrap();
    let handle = contract
        .ft_transfer_call(1, 2, 100_000, None, "pay".to_string(), enough_gas())
        .unwrap();
    let used = contract
        .ft_resolve_transfer(handle, NotificationOutcome::Failed)
        .unwrap();
    assert_eq!(used, 10_000);
    // the whole net amount came back; the fee was never collected
    assert_eq!(contract.ft_balance_of(1), TOTAL_SUPPLY);
    assert_eq!(contract.ft_balance_of(2), 0);
    assert_eq!(contract.ft_balance_of(3), 0);
    assert_eq!(contract.ft_total_supply(), TOTAL_SUPPLY);
}

#[test]
fn full_decline_after_successful_notification_still_charges_the_fee() {
    let mut contract = Contract::new_default_config(1, 3);
    contract.register(2).unwrap();
    let handle = contract
        .ft_transfer_call(1, 2, 100_000, None, "pay".to_string(), enough_gas())
        .unwrap();
    let used = contract
        .ft_resolve_transfer(handle, NotificationOutcome::Responded(90_000))
        .unwrap();
    assert_eq!(used, 10_000);
    // the sender regained the net but still paid the fee
    assert_eq!(contract.ft_balance_of(1), TOTAL_SUPPLY - 10_000);
    assert_eq!(contract.ft_balance_of(2), 0);
    assert_eq!(contract.ft_balance_of(3), 10_000);
    assert_eq!(contract.ft_total_supply(), TOTAL_SUPPLY);
}

#[test]
fn declined_amount_above_net_is_clamped() {
    let mut contract = Contract::new_default_config(1, 3);
    contract.register(2).unwrap();
    let handle = contract
        .ft_transfer_call(1, 2, 100_000, None, "pay".to_string(), enough_gas())
        .unwrap();
    let used = contract
        .ft_resolve_transfer(handle, NotificationOutcome::Responded(u128::MAX))
        .unwrap();
    assert_eq!(used, 10_000);
    assert_eq!(contract.ft_balance_of(1), TOTAL_SUPPLY - 10_000);
    assert_eq!(contract.ft_balance_of(2), 0);
}

#[test]
fn shortfall_is_not_credited_to_the_sender() {
    let mut contract = Contract::new_default_config(1, 3);
    contract.register(2).unwrap();
    let handle = contract
        .ft_transfer_call(1, 2, 100_000, None, "pay".to_string(), enough_gas())
        .unwrap();
    // the receiver moves 10 away (to the fee receiver: an exempt transfer)
    // before declining everything it was notified of
    contract.ft_transfer(2, 3, 10, None).unwrap();
    assert_eq!(contract.ft_balance_of(2), 89_990);
    let used = contract
        .ft_resolve_transfer(handle, NotificationOutcome::Responded(90_000))
        .unwrap();
    // only the receiver's remaining balance could be recovered
    assert_eq!(used, 10_010);
    assert_eq!(contract.ft_balance_of(1), TOTAL_SUPPLY - 10_010);
    assert_eq!(contract.ft_balance_of(2), 0);
    assert_eq!(contract.ft_balance_of(3), 10_010);
    assert_eq!(contract.ft_total_supply(), TOTAL_SUPPLY);
}

#[test]
fn partial_decline_refunds_only_the_declined_part() {
    let mut contract = Contract::new_default_config(1, 3);
    contract.register(2).unwrap();
    let handle = contract
        .ft_transfer_call(1, 2, 100_000, None, "pay".to_string(), enough_gas())
        .unwrap();
    // the receiver keeps 50_000 of the net and declines the other 40_000
    let used = contract
        .ft_resolve_transfer(handle, NotificationOutcome::Responded(40_000))
        .unwrap();
    assert_eq!(used, 60_000);
    assert_eq!(contract.ft_balance_of(1), TOTAL_SUPPLY - 60_000);
    assert_eq!(contract.ft_balance_of(2), 50_000);
    assert_eq!(contract.ft_balance_of(3), 10_000);
    assert_eq!(contract.ft_total_supply(), TOTAL_SUPPLY);
}

#[test]
fn transfer_call_rejects_unregistered_receiver_before_any_mutation() {
    let mut contract = Contract::new_default_config(1, 3);
    let r = contract.ft_transfer_call(1, 9, 100_000, None, "pay".to_string(), enough_gas());
    assert_eq!(r, Err(Error::NotRegistered));
    assert_eq!(contract.ft_balance_of(1), TOTAL_SUPPLY);
    assert_eq!(contract.ft_total_supply(), TOTAL_SUPPLY);
}

#[test]
fn resolution_replay_is_rejected_without_effect() {
    let mut contract = Contract::new_default_config(1, 3);
    contract.register(2).unwrap();
    let handle = contract
        .ft_transfer_call(1, 2, 100_000, None, "pay".to_string(), enough_gas())
        .unwrap();
    contract
        .ft_resolve_transfer(handle, NotificationOutcome::Responded(90_000))
        .unwrap();
    let balance_after = contract.ft_balance_of(1);
    let supply_after = contract.ft_total_supply();
    let again = contract.ft_resolve_transfer(handle, NotificationOutcome::Responded(90_000));
    assert_eq!(again, Err(Error::ReplayedIntent));
    assert_eq!(contract.ft_balance_of(1), balance_after);
    assert_eq!(contract.ft_total_supply(), supply_after);
}

#[test]
fn unknown_handle_is_rejected_as_replayed() {
    let mut contract = Contract::new_default_config(1, 3);
    let r = contract.ft_resolve_transfer(42, NotificationOutcome::Failed);
    assert_eq!(r, Err(Error::ReplayedIntent));
}

#[test]
fn refund_to_an_unregistered_sender_is_burned() {
    let mut contract = Contract::new_default_config(1, 3);
    contract.register(2).unwrap();
    let handle = contract
        .ft_transfer_call(1, 2, 100_000, None, "pay".to_string(), enough_gas())
        .unwrap();
    // the sender's account is force-closed while the transfer is in flight;
    // its remaining balance burns with it
    assert!(contract.unregister(1, true));
    assert_eq!(contract.ft_total_supply(), 90_000);
    let used = contract
        .ft_resolve_transfer(handle, NotificationOutcome::Responded(90_000))
        .unwrap();
    // nothing could be returned: the declined amount burned as well
    assert_eq!(used, 100_000);
    assert_eq!(contract.ft_balance_of(1), 0);
    assert_eq!(contract.ft_balance_of(2), 0);
    assert_eq!(contract.ft_balance_of(3), 0);
    assert_eq!(contract.ft_total_supply(), 0);
}

#[test]
fn handles_are_issued_fresh_per_call() {
    let mut contract = Contract::new_default_config(1, 3);
    contract.register(2).unwrap();
    let h0 = contract
        .ft_transfer_call(1, 2, 10_000, None, "a".to_string(), enough_gas())
        .unwrap();
    let h1 = contract
        .ft_transfer_call(1, 2, 20_000, None, "b".to_string(), enough_gas())
        .unwrap();
    assert_ne!(h0, h1);
    // resolving one leaves the other outstanding
    contract.ft_resolve_transfer(h0, NotificationOutcome::Responded(0)).unwrap();
    let used = contract
        .ft_resolve_transfer(h1, NotificationOutcome::Failed)
        .unwrap();
    assert_eq!(used, 2_000);
}

#[test]
fn close_account_with_empty_balance() {
    let mut contract = Contract::new_default_config(1, 3);
    contract.register(2).unwrap();
    assert!(contract.unregister(2, false));
    assert!(!contract.is_registered(2));
    assert_eq!(contract.ft_total_supply(), TOTAL_SUPPLY);
    // closing an account that never existed reports nothing removed
    assert!(!contract.unregister(7, false));
}

#[test]
fn force_close_burns_the_remaining_balance() {
    let mut contract = Contract::new_default_config(1, 3);
    contract.register(2).unwrap();
    contract.ft_transfer(1, 2, 100_000, None).unwrap();
    assert!(contract.unregister(2, true));
    assert_eq!(contract.ft_total_supply(), TOTAL_SUPPLY - 90_000);
    assert_eq!(contract.ft_balance_of(2), 0);
}

#[test]
fn register_twice_is_rejected() {
    let mut contract = Contract::new_default_config(1, 3);
    contract.register(2).unwrap();
    assert_eq!(contract.register(2), Err(Error::AlreadyRegistered));
    assert_eq!(contract.register(1), Err(Error::AlreadyRegistered));
}
