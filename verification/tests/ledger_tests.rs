use ft::error::Error;
use ft::ledger::Ledger;
use ft::metadata::{default_metadata, DEFAULT_DECIMALS};

#[test]
fn ledger_primitives_keep_the_books() {
    let mut ledger = Ledger::new();
    ledger.register(1).unwrap();
    ledger.register(2).unwrap();
    ledger.mint(1, 1_000).unwrap();
    assert_eq!(ledger.total_supply(), 1_000);
    assert_eq!(ledger.balance_of(1), 1_000);

    ledger.transfer(1, 2, 400).unwrap();
    assert_eq!(ledger.balance_of(1), 600);
    assert_eq!(ledger.balance_of(2), 400);
    assert_eq!(ledger.total_supply(), 1_000);

    ledger.burn(2, 150).unwrap();
    assert_eq!(ledger.balance_of(2), 250);
    assert_eq!(ledger.total_supply(), 850);
}

#[test]
fn ledger_debit_and_credit_move_one_balance() {
    let mut ledger = Ledger::new();
    ledger.register(1).unwrap();
    ledger.mint(1, 500).unwrap();
    ledger.debit(1, 200).unwrap();
    assert_eq!(ledger.balance_of(1), 300);
    ledger.credit(1, 200).unwrap();
    assert_eq!(ledger.balance_of(1), 500);
    assert_eq!(ledger.debit(1, 501), Err(Error::InsufficientBalance));
    assert_eq!(ledger.debit(9, 0), Err(Error::NotRegistered));
    assert_eq!(ledger.credit(9, 1), Err(Error::NotRegistered));
}

#[test]
fn unregistered_party_reads_as_zero() {
    let ledger = Ledger::new();
    assert_eq!(ledger.balance_of(42), 0);
    assert!(!ledger.is_registered(42));
}

#[test]
fn self_transfer_requires_funds_but_moves_nothing() {
    let mut ledger = Ledger::new();
    ledger.register(1).unwrap();
    ledger.mint(1, 100).unwrap();
    ledger.transfer(1, 1, 100).unwrap();
    assert_eq!(ledger.balance_of(1), 100);
    assert_eq!(ledger.transfer(1, 1, 101), Err(Error::InsufficientBalance));
}

#[test]
fn default_metadata_is_valid() {
    let metadata = default_metadata();
    assert!(metadata.is_valid());
    assert_eq!(metadata.standard, "ft-1.0.0");
    assert_eq!(metadata.name, "Mute DAO Token");
    assert_eq!(metadata.symbol, "MUTE");
    assert!(metadata.icon.is_some());
    assert_eq!(metadata.decimals, DEFAULT_DECIMALS);
}

#[test]
fn metadata_with_unpaired_reference_is_invalid() {
    let mut metadata = default_metadata();
    metadata.reference = Some("ipfs://somewhere".to_string());
    assert!(!metadata.is_valid());
    metadata.reference_hash = Some(vec![0u8; 32]);
    assert!(metadata.is_valid());
    metadata.reference_hash = Some(vec![0u8; 31]);
    assert!(!metadata.is_valid());
}
