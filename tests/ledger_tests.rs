use rust_blockchain::block::{has_difficulty, Block};
use rust_blockchain::blockchain::{Blockchain, EmptyLedgerError};

#[test]
fn fresh_ledger_holds_genesis() {
    let ledger = Blockchain::new();
    assert_eq!(ledger.chain.len(), 1);
    assert_eq!(ledger.chain[0].index, 0);
    assert_eq!(ledger.chain[0].data, "Genesis Block");
    assert_eq!(ledger.chain[0].previous_hash, "0");
    assert_eq!(ledger.chain[0].calculate_hash(), ledger.chain[0].hash);
    assert!(has_difficulty(&ledger.chain[0].hash));
}

#[test]
fn genesis_only_ledger_is_valid() {
    assert!(Blockchain::new().is_valid());
}

#[test]
fn append_alice_block() {
    let mut ledger = Blockchain::new();
    let prev = ledger.chain[0].hash.clone();
    ledger
        .add_block(Block::new(1, "Alice sends 5 BTC to Bob".to_string(), prev))
        .unwrap();
    assert_eq!(ledger.chain.len(), 2);
    assert!(ledger.is_valid());
    assert_eq!(ledger.chain[1].previous_hash, ledger.chain[0].hash);
}

#[test]
fn overwritten_payload_invalidates() {
    let mut ledger = Blockchain::new();
    let prev = ledger.chain[0].hash.clone();
    ledger.add_block(Block::new(1, "Pay".to_string(), prev)).unwrap();
    assert!(ledger.is_valid());
    ledger.chain[1].data = "Pay twice".to_string();
    assert!(!ledger.is_valid());
}

#[test]
fn repeated_appends_stay_valid() {
    let mut ledger = Blockchain::new();
    for k in 1..4u64 {
        let prev = ledger.latest_block().unwrap().hash.clone();
        ledger.add_block(Block::new(k, format!("tx {}", k), prev)).unwrap();
        assert_eq!(ledger.chain.len() as u64, 1 + k);
        assert!(ledger.is_valid());
    }
}

#[test]
fn add_block_relinks_and_rehashes() {
    let mut ledger = Blockchain::new();
    let candidate = Block::with_timestamp(1, 100, "c".to_string(), "wrong".to_string());
    let nonce = candidate.nonce;
    ledger.add_block(candidate).unwrap();
    let placed = &ledger.chain[1];
    assert_eq!(placed.previous_hash, ledger.chain[0].hash);
    assert_eq!(placed.nonce, nonce);
    assert_eq!(placed.timestamp, 100);
    assert_eq!(placed.hash, placed.calculate_hash());
    assert!(ledger.is_valid());
}

#[test]
fn tampered_link_invalidates() {
    let mut ledger = Blockchain::new();
    ledger.append_data("one".to_string()).unwrap();
    ledger.append_data("two".to_string()).unwrap();
    ledger.chain[1].previous_hash = "1234".to_string();
    assert!(!ledger.is_valid());
}

#[test]
fn tampered_hash_invalidates() {
    let mut ledger = Blockchain::new();
    ledger.append_data("one".to_string()).unwrap();
    ledger.chain[1].hash = "0000beef".to_string();
    assert!(!ledger.is_valid());
}

#[test]
fn tampered_genesis_data_is_not_checked() {
    let mut ledger = Blockchain::new();
    ledger.chain[0].data = "Changed".to_string();
    assert!(ledger.is_valid());
}

#[test]
fn empty_ledger_reports_error() {
    let mut ledger = Blockchain { chain: Vec::new() };
    assert_eq!(ledger.latest_block().unwrap_err(), EmptyLedgerError);
    let b = Block::with_timestamp(0, 0, "x".to_string(), "0".to_string());
    assert_eq!(ledger.add_block(b), Err(EmptyLedgerError));
    assert!(ledger.chain.is_empty());
    assert_eq!(ledger.append_data("y".to_string()), Err(EmptyLedgerError));
    assert!(ledger.chain.is_empty());
}

#[test]
fn latest_block_is_tail() {
    let mut ledger = Blockchain::new();
    ledger.append_data("tail".to_string()).unwrap();
    assert_eq!(ledger.latest_block().unwrap().data, "tail");
    assert_eq!(ledger.latest_block().unwrap().index, 1);
}

#[test]
fn append_data_numbers_and_links() {
    let mut ledger = Blockchain::new();
    ledger.append_data("first".to_string()).unwrap();
    ledger.append_data("second".to_string()).unwrap();
    assert_eq!(ledger.chain.len(), 3);
    assert_eq!(ledger.chain[2].index, 2);
    assert_eq!(ledger.chain[2].data, "second");
    assert_eq!(ledger.chain[2].previous_hash, ledger.chain[1].hash);
    assert!(ledger.is_valid());
}

#[test]
fn appended_data_is_mined_and_accepted() {
    let mut ledger = Blockchain::new();
    ledger.append_data("payment".to_string()).unwrap();
    let tail = &ledger.chain[1];
    assert!(has_difficulty(&tail.hash));
    assert_eq!(tail.hash, tail.calculate_hash());
    assert!(rust_blockchain::pow::validate_block(&ledger.chain[0], &ledger.chain[1]));
    assert!(ledger.is_valid());
}
