use my_rust_blockchain::blockchain::Block;
use sha2::Digest;
use sha2::Sha256;

fn sha_hex(parts: &[&str]) -> String {
    let mut hasher = Sha256::new();
    for p in parts {
        hasher.update(p.as_bytes());
    }
    format!("{:x}", hasher.finalize())
}

#[test]
fn calculate_hash_matches_reference_digest() {
    let block = Block {
        index: 1,
        timestamp: 1234,
        data: String::from("abc"),
        previous_hash: String::from("def"),
        hash: String::new(),
        nonce: 42,
    };
    let expected = sha_hex(&["1", "1234", "abc", "def", "42"]);
    assert_eq!(block.calculate_hash(), expected);
}

#[test]
fn calculate_hash_is_deterministic_across_calls() {
    let block = Block {
        index: 7,
        timestamp: 99,
        data: String::from("payload"),
        previous_hash: String::from("000abc"),
        hash: String::new(),
        nonce: 0,
    };
    let first = block.calculate_hash();
    let second = block.calculate_hash();
    assert_eq!(first, second);

    let same_fields = Block {
        index: 7,
        timestamp: 99,
        data: String::from("payload"),
        previous_hash: String::from("000abc"),
        hash: String::from("something else entirely"),
        nonce: 0,
    };
    assert_eq!(same_fields.calculate_hash(), first);
}

#[test]
fn calculate_hash_depends_on_each_field() {
    let base = Block {
        index: 1,
        timestamp: 2,
        data: String::from("d"),
        previous_hash: String::from("p"),
        hash: String::new(),
        nonce: 3,
    };
    let h = base.calculate_hash();
    let mut other = Block {
        index: 9,
        timestamp: 2,
        data: String::from("d"),
        previous_hash: String::from("p"),
        hash: String::new(),
        nonce: 3,
    };
    assert_ne!(other.calculate_hash(), h);
    other.index = 1;
    other.nonce = 8;
    assert_ne!(other.calculate_hash(), h);
}

#[test]
fn mine_finds_difficulty_prefix_and_consistent_hash() {
    let mut block = Block {
        index: 0,
        timestamp: 1700000000,
        data: String::from("genesis"),
        previous_hash: String::new(),
        hash: String::new(),
        nonce: 0,
    };
    let found = block.mine();
    assert!(found);
    assert!(block.hash.starts_with("000"));
    assert_eq!(block.hash, block.calculate_hash());
    let expected = sha_hex(&[
        "0",
        "1700000000",
        "genesis",
        "",
        &block.nonce.to_string(),
    ]);
    assert_eq!(block.hash, expected);
}
