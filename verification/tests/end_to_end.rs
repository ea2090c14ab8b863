use my_rust_blockchain::blockchain::produce_block;
use my_rust_blockchain::blockchain::Blockchain;
use my_rust_blockchain::transactions::Ledger;
use my_rust_blockchain::utils::verify_db_state_streaming;
use sha2::Digest;
use sha2::Sha256;

fn sha_hex(parts: &[&str]) -> String {
    let mut hasher = Sha256::new();
    for p in parts {
        hasher.update(p.as_bytes());
    }
    format!("{:x}", hasher.finalize())
}

#[test]
fn producer_builds_a_block_over_three_submitted_transactions() {
    let mut chain = Blockchain::new(1700000000).expect("genesis must mine");
    assert_eq!(chain.get_height(), 1);

    let mut ledger = Ledger::new();
    assert!(ledger.add_wallet(String::from("alice"), 100, String::from("pk-a")));
    assert!(ledger.add_wallet(String::from("bob"), 50, String::from("pk-b")));
    assert!(ledger.add_wallet(String::from("carol"), 10, String::from("pk-c")));

    ledger.create_transaction("alice", "bob", 30, 1).unwrap();
    ledger.create_transaction("bob", "carol", 20, 2).unwrap();
    ledger.create_transaction("carol", "alice", 5, 3).unwrap();

    // the batch exactly as the producer will see it
    let pending = ledger.pending_transactions();
    assert_eq!(pending.len(), 3);
    let leaves: Vec<String> = pending.iter().map(|t| sha_hex(&[&t.to_json()])).collect();
    let p0 = sha_hex(&[&leaves[0], &leaves[1]]);
    let p1 = sha_hex(&[&leaves[2], &leaves[2]]);
    let expected_root = sha_hex(&[&p0, &p1]);
    let expected_json = format!(
        "[{},{},{}]",
        pending[0].to_json(),
        pending[1].to_json(),
        pending[2].to_json()
    );

    let block = produce_block(&mut chain, &mut ledger, 1700000100).expect("mining must succeed");

    assert_eq!(chain.get_height(), 2);
    assert_eq!(block.index, 1);
    assert_eq!(block.timestamp, 1700000100);
    assert_eq!(block.previous_hash, chain.blocks[0].hash);
    assert!(block.hash.starts_with("000"));
    assert_eq!(block.hash, block.calculate_hash());

    // the payload commits to exactly those three transactions
    assert_eq!(block.data, format!("{}{}", expected_root, expected_json));

    // every included transaction now carries the new block's index
    assert_eq!(ledger.transactions.len(), 3);
    for t in &ledger.transactions {
        assert_eq!(t.block_id, Some(1));
    }
    assert!(ledger.pending_transactions().is_empty());

    // and the grown chain still verifies
    assert_eq!(verify_db_state_streaming(&chain.blocks, true), Ok(()));
}

#[test]
fn producer_on_an_empty_pool_commits_the_empty_batch() {
    let mut chain = Blockchain::new(1).expect("genesis must mine");
    let mut ledger = Ledger::new();
    let block = produce_block(&mut chain, &mut ledger, 2).expect("mining must succeed");
    assert_eq!(block.index, 1);
    let empty_root = sha_hex(&[""]);
    assert_eq!(block.data, format!("{}[]", empty_root));
    assert_eq!(verify_db_state_streaming(&chain.blocks, true), Ok(()));
}
