use sha2::{Digest, Sha256};
use verdyce::blockchain::{
    decimal_string, Block, Blockchain, Node, Transaction, TransactionPool, Wallet,
};

fn sha256_hex(payload: &str) -> String {
    let mut hasher = Sha256::new();
    hasher.update(payload.as_bytes());
    let digest = hasher.finalize();
    let mut out = String::new();
    for byte in digest.iter() {
        out.push_str(&format!("{:02x}", byte));
    }
    out
}

#[test]
fn test_decimal_string() {
    assert_eq!(decimal_string(0), "0");
    assert_eq!(decimal_string(7), "7");
    assert_eq!(decimal_string(10), "10");
    assert_eq!(decimal_string(120534), "120534");
    assert_eq!(decimal_string(u64::MAX), "18446744073709551615");
}

#[test]
fn test_transaction_display() {
    let t = Transaction::new("Alice".into(), "Bob".into(), 10, 2);
    assert_eq!(t.display(), "Transaction: Alice -> Bob | Amount: 10 | Fee: 2");
}

#[test]
fn test_block_hash_matches_sha256_of_payload() {
    // The genesis payload is the empty transaction list, the placeholder
    // previous hash "0" and block number 0.
    let chain = Blockchain::new();
    assert_eq!(chain.blocks.len(), 1);
    assert_eq!(chain.blocks[0].hash, sha256_hex("00"));

    let block = Block::new(
        vec![Transaction::new("Alice".into(), "Bob".into(), 10, 2)],
        "prev".into(),
        3,
    );
    assert_eq!(block.hash, sha256_hex("AliceBob102prev3"));
}

#[test]
fn test_wallet_initial_balances() {
    let wallet = Wallet::new();
    assert_eq!(wallet.get_balance("Alice"), 100);
    assert_eq!(wallet.get_balance("Bob"), 50);
    assert_eq!(wallet.get_balance("Charlie"), 20);
    assert_eq!(wallet.get_balance("Dave"), 10);
    assert_eq!(wallet.get_balance("Mallory"), 0);
}

#[test]
fn test_wallet_validate_and_process() {
    let mut wallet = Wallet::new();
    let ok = Transaction::new("Alice".into(), "Bob".into(), 90, 10);
    let too_much = Transaction::new("Alice".into(), "Bob".into(), 95, 10);
    let unknown = Transaction::new("Mallory".into(), "Bob".into(), 1, 0);
    assert!(wallet.validate_transaction(&ok));
    assert!(!wallet.validate_transaction(&too_much));
    assert!(!wallet.validate_transaction(&unknown));

    wallet.process_transaction(&ok);
    assert_eq!(wallet.get_balance("Alice"), 0);
    assert_eq!(wallet.get_balance("Bob"), 140);
}

#[test]
fn test_wallet_process_creates_recipient() {
    let mut wallet = Wallet::new();
    let t = Transaction::new("Bob".into(), "Erin".into(), 30, 5);
    assert!(wallet.validate_transaction(&t));
    wallet.process_transaction(&t);
    assert_eq!(wallet.get_balance("Bob"), 15);
    assert_eq!(wallet.get_balance("Erin"), 30);
}

#[test]
fn test_add_block_success_and_validation() {
    let mut chain = Blockchain::new();
    let added = chain.add_block(vec![Transaction::new("Alice".into(), "Bob".into(), 10, 2)]);
    assert!(added);
    assert_eq!(chain.blocks.len(), 2);
    assert_eq!(chain.blocks[1].block_number, 1);
    assert_eq!(chain.blocks[1].previous_hash, chain.blocks[0].hash);
    assert_eq!(chain.wallet.get_balance("Alice"), 88);
    assert_eq!(chain.wallet.get_balance("Bob"), 60);
    assert!(chain.is_valid());
}

#[test]
fn test_add_block_rejects_empty_and_uncovered() {
    let mut chain = Blockchain::new();
    assert!(!chain.add_block(Vec::new()));
    assert!(!chain.add_block(vec![Transaction::new("Dave".into(), "Bob".into(), 100, 0)]));
    assert_eq!(chain.blocks.len(), 1);
    assert_eq!(chain.wallet.get_balance("Dave"), 10);
}

#[test]
fn test_is_valid_detects_tampering() {
    let mut chain = Blockchain::new();
    assert!(chain.add_block(vec![Transaction::new("Alice".into(), "Bob".into(), 10, 2)]));
    assert!(chain.is_valid());
    chain.blocks[1].transactions[0].amount = 99;
    assert!(!chain.is_valid());
}

#[test]
fn test_transaction_pool_orders_by_fee() {
    let wallet = Wallet::new();
    let mut pool = TransactionPool::new();
    assert!(pool.is_empty());
    assert!(pool.add_transaction(Transaction::new("Alice".into(), "Bob".into(), 5, 1), &wallet));
    assert!(pool.add_transaction(Transaction::new("Bob".into(), "Dave".into(), 5, 9), &wallet));
    assert!(pool.add_transaction(Transaction::new("Charlie".into(), "Bob".into(), 5, 4), &wallet));
    assert!(!pool.add_transaction(
        Transaction::new("Dave".into(), "Bob".into(), 100, 1),
        &wallet
    ));
    assert_eq!(pool.size(), 3);

    let best = pool.get_best_transactions(2);
    assert_eq!(best.len(), 2);
    assert_eq!(best[0].fee, 9);
    assert_eq!(best[1].fee, 4);
    assert_eq!(pool.size(), 1);
    assert_eq!(pool.transactions[0].fee, 1);
}

#[test]
fn test_node_votes() {
    let honest = Node::new_honest("h");
    let malicious = Node::new_malicious("m");
    let txs = vec![Transaction::new("Alice".into(), "Bob".into(), 1, 1)];
    assert!(honest.vote(&txs));
    assert!(!malicious.vote(&txs));
    assert_eq!(honest.name, "h");
    assert!(malicious.is_malicious);
}
