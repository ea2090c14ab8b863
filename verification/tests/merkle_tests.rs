use my_rust_blockchain::blockchain::Block;
use my_rust_blockchain::transactions::Transaction;
use sha2::Digest;
use sha2::Sha256;

fn sha_hex(parts: &[&str]) -> String {
    let mut hasher = Sha256::new();
    for p in parts {
        hasher.update(p.as_bytes());
    }
    format!("{:x}", hasher.finalize())
}

fn tx(from: &str, to: &str, amount: i64) -> Transaction {
    Transaction {
        from_address: String::from(from),
        to_address: String::from(to),
        amount,
        sig: None,
        added_to_block: None,
        created_at: None,
        block_id: None,
    }
}

fn probe_block() -> Block {
    Block {
        index: 0,
        timestamp: 0,
        data: String::new(),
        previous_hash: String::new(),
        hash: String::new(),
        nonce: 0,
    }
}

#[test]
fn to_json_is_canonical() {
    let t = tx("alice", "bob", 30);
    assert_eq!(
        t.to_json(),
        "{\"from_address\":\"alice\",\"to_address\":\"bob\",\"amount\":30,\"sig\":null,\"added_to_block\":null,\"created_at\":null,\"block_id\":null}"
    );
    let full = Transaction {
        from_address: String::from("a"),
        to_address: String::from("b"),
        amount: -5,
        sig: Some(String::from("f00d")),
        added_to_block: Some(false),
        created_at: Some(1234),
        block_id: Some(2),
    };
    assert_eq!(
        full.to_json(),
        "{\"from_address\":\"a\",\"to_address\":\"b\",\"amount\":-5,\"sig\":\"f00d\",\"added_to_block\":false,\"created_at\":1234,\"block_id\":2}"
    );
}

#[test]
fn to_json_escapes_special_characters() {
    let t = tx("say \"hi\"", "back\\slash\nnewline", 0);
    assert_eq!(
        t.to_json(),
        "{\"from_address\":\"say \\\"hi\\\"\",\"to_address\":\"back\\\\slash\\u000anewline\",\"amount\":0,\"sig\":null,\"added_to_block\":null,\"created_at\":null,\"block_id\":null}"
    );
}

#[test]
fn to_json_renders_numeric_extremes() {
    let t = Transaction {
        from_address: String::from("a"),
        to_address: String::from("b"),
        amount: i64::MIN,
        sig: None,
        added_to_block: Some(true),
        created_at: Some(u64::MAX),
        block_id: Some(0),
    };
    assert_eq!(
        t.to_json(),
        "{\"from_address\":\"a\",\"to_address\":\"b\",\"amount\":-9223372036854775808,\"sig\":null,\"added_to_block\":true,\"created_at\":18446744073709551615,\"block_id\":0}"
    );
    let u = Transaction {
        amount: i64::MAX,
        ..t
    };
    assert!(u.to_json().contains("\"amount\":9223372036854775807"));
}

#[test]
fn merkle_root_of_empty_batch_is_hash_of_empty_string() {
    let b = probe_block();
    let root = b.merkle_root(&Vec::new());
    assert_eq!(root, sha_hex(&[""]));
    assert_eq!(
        root,
        "e3b0c44298fc1c149afbf4c8996fb92427ae41e4649b934ca495991b7852b855"
    );
}

#[test]
fn merkle_root_of_single_transaction_is_its_leaf() {
    let b = probe_block();
    let t = tx("alice", "bob", 1);
    let leaf = sha_hex(&[&t.to_json()]);
    let root = b.merkle_root(&vec![tx("alice", "bob", 1)]);
    assert_eq!(root, leaf);
}

#[test]
fn merkle_root_of_three_transactions_duplicates_last_leaf() {
    let b = probe_block();
    let batch = vec![tx("a", "b", 1), tx("b", "c", 2), tx("c", "a", 3)];
    let l0 = sha_hex(&[&batch[0].to_json()]);
    let l1 = sha_hex(&[&batch[1].to_json()]);
    let l2 = sha_hex(&[&batch[2].to_json()]);
    // odd level: duplicate the last leaf, then pair left to right
    let p0 = sha_hex(&[&l0, &l1]);
    let p1 = sha_hex(&[&l2, &l2]);
    let expected = sha_hex(&[&p0, &p1]);
    assert_eq!(b.merkle_root(&batch), expected);
}

#[test]
fn merkle_root_of_five_transactions_duplicates_at_both_levels() {
    let b = probe_block();
    let batch = vec![
        tx("a", "b", 1),
        tx("b", "c", 2),
        tx("c", "d", 3),
        tx("d", "e", 4),
        tx("e", "a", 5),
    ];
    let leaves: Vec<String> = batch.iter().map(|t| sha_hex(&[&t.to_json()])).collect();
    // level 0 has 5 digests: duplicate the last, pair into 3
    let p0 = sha_hex(&[&leaves[0], &leaves[1]]);
    let p1 = sha_hex(&[&leaves[2], &leaves[3]]);
    let p2 = sha_hex(&[&leaves[4], &leaves[4]]);
    // level 1 has 3 digests: duplicate the last, pair into 2
    let q0 = sha_hex(&[&p0, &p1]);
    let q1 = sha_hex(&[&p2, &p2]);
    let expected = sha_hex(&[&q0, &q1]);
    assert_eq!(b.merkle_root(&batch), expected);
}

#[test]
fn merkle_root_is_stable_for_identical_batches() {
    let b = probe_block();
    let batch1 = vec![tx("a", "b", 1), tx("b", "c", 2), tx("c", "a", 3)];
    let batch2 = vec![tx("a", "b", 1), tx("b", "c", 2), tx("c", "a", 3)];
    assert_eq!(b.merkle_root(&batch1), b.merkle_root(&batch2));
}

#[test]
fn merkle_root_depends_on_order() {
    let b = probe_block();
    let batch1 = vec![tx("a", "b", 1), tx("b", "c", 2)];
    let batch2 = vec![tx("b", "c", 2), tx("a", "b", 1)];
    assert_ne!(b.merkle_root(&batch1), b.merkle_root(&batch2));
}
