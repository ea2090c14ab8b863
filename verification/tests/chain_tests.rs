use my_rust_blockchain::blockchain::routes;
use my_rust_blockchain::blockchain::Block;
use my_rust_blockchain::blockchain::Blockchain;
use my_rust_blockchain::utils::healthcheck;
use my_rust_blockchain::utils::verify_step;
use my_rust_blockchain::utils::VerifierState;
use my_rust_blockchain::utils::verify_db_state_streaming;
use my_rust_blockchain::utils::IntegrityError;

fn chain_of(n: usize) -> Blockchain {
    let mut chain = Blockchain::new(1700000000).expect("genesis must mine");
    while chain.get_height() < n {
        let height = chain.get_height() as u64;
        let mut candidate = Block::new(height, 1700000000 + height, String::new());
        candidate.data = format!("payload {}", height);
        assert!(chain.add_block(candidate));
    }
    chain
}

#[test]
fn genesis_block_has_sentinel_previous_hash() {
    let chain = Blockchain::new(42).expect("genesis must mine");
    assert_eq!(chain.get_height(), 1);
    let genesis = &chain.blocks[0];
    assert_eq!(genesis.index, 0);
    assert_eq!(genesis.previous_hash, "");
    assert_eq!(genesis.timestamp, 42);
    assert!(genesis.hash.starts_with("000"));
    assert_eq!(genesis.hash, genesis.calculate_hash());
}

#[test]
fn appended_blocks_link_to_the_previous_hash() {
    let chain = chain_of(4);
    for i in 1..4 {
        assert_eq!(chain.blocks[i].previous_hash, chain.blocks[i - 1].hash);
        assert_eq!(chain.blocks[i].index as usize, i);
        assert!(chain.blocks[i].hash.starts_with("000"));
        assert_eq!(chain.blocks[i].hash, chain.blocks[i].calculate_hash());
    }
}

#[test]
fn head_and_block_at_follow_the_chain() {
    let chain = chain_of(3);
    let head = chain.head().expect("non-empty chain has a head");
    assert_eq!(head.index, 2);
    assert_eq!(chain.block_at(1).expect("present").index, 1);
    assert!(chain.block_at(3).is_none());
}

#[test]
fn verifier_accepts_a_well_formed_chain() {
    let chain = chain_of(4);
    assert_eq!(verify_db_state_streaming(&chain.blocks, true), Ok(()));
    assert!(healthcheck(&chain.blocks, true));
}

#[test]
fn verifier_reports_storage_corruption_first() {
    let chain = chain_of(2);
    assert_eq!(
        verify_db_state_streaming(&chain.blocks, false),
        Err(IntegrityError::StorageCorrupt)
    );
    assert!(!healthcheck(&chain.blocks, false));
}

#[test]
fn verifier_reports_the_first_broken_link_with_both_hashes() {
    let mut chain = chain_of(4);
    let expected_hash = chain.blocks[1].hash.clone();
    chain.blocks[2].previous_hash = String::from("forged");
    // a second, later violation must not be the one reported
    chain.blocks[3].previous_hash = String::from("also forged");
    assert_eq!(
        verify_db_state_streaming(&chain.blocks, true),
        Err(IntegrityError::LinkBroken {
            index: 2,
            expected_hash,
            actual_hash: String::from("forged"),
        })
    );
    assert!(!healthcheck(&chain.blocks, true));
}

#[test]
fn verifier_reports_an_index_gap() {
    let mut chain = chain_of(3);
    chain.blocks[1].index = 5;
    assert_eq!(
        verify_db_state_streaming(&chain.blocks, true),
        Err(IntegrityError::IndexMismatch { found: 5, expected: 1 })
    );
}

#[test]
fn verifier_reports_a_broken_genesis_sentinel() {
    let mut chain = chain_of(2);
    chain.blocks[0].previous_hash = String::from("not empty");
    assert_eq!(
        verify_db_state_streaming(&chain.blocks, true),
        Err(IntegrityError::GenesisLinkBroken)
    );
}

#[test]
fn verify_step_streams_with_constant_state() {
    let chain = chain_of(3);
    let mut state = VerifierState { expected_index: 0, last_hash: String::new() };
    for b in &chain.blocks {
        state = verify_step(state, b).expect("a well-formed chain streams clean");
    }
    assert_eq!(state.expected_index, 3);
    assert_eq!(state.last_hash, chain.blocks[2].hash);

    // a tampered block stops the stream at its own position
    let state = VerifierState { expected_index: 0, last_hash: String::new() };
    let state = verify_step(state, &chain.blocks[0]).unwrap();
    let mut forged = chain.blocks[1].clone();
    forged.previous_hash = String::from("forged");
    let err = verify_step(state, &forged).unwrap_err();
    assert_eq!(
        err,
        IntegrityError::LinkBroken {
            index: 1,
            expected_hash: chain.blocks[0].hash.clone(),
            actual_hash: String::from("forged"),
        }
    );
}

#[test]
fn verifier_accepts_an_empty_store() {
    let blocks: Vec<Block> = Vec::new();
    assert_eq!(verify_db_state_streaming(&blocks, true), Ok(()));
}

#[test]
fn route_tables_list_the_endpoints() {
    let chain_routes = routes();
    assert_eq!(chain_routes.len(), 5);
    assert_eq!(chain_routes[0], "/chain/height");
    assert_eq!(chain_routes[4], "/health");
    let tx_routes = my_rust_blockchain::transactions::routes();
    assert_eq!(tx_routes.len(), 2);
    assert_eq!(tx_routes[0], "/tx");
}
