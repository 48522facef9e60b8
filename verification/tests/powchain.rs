use powchain::{
    calculate_hash, canonical_json, check_block, hash_to_binary_representation, mine_block,
    meets_difficulty, App, Block, BlockFault, ChainError, DIFFICULTY_BITS,
};

const MINING_LIMIT: u64 = 1_000_000;

fn seeded_app() -> App {
    let mut app = App::new();
    app.genesis();
    app
}

fn mined_next(prev: &Block, timestamp: i64, data: &str) -> Block {
    Block::new(
        prev.id + 1,
        timestamp,
        prev.hash.clone(),
        data.to_string(),
        MINING_LIMIT,
    )
    .expect("a nonce below the limit should solve the puzzle")
}

fn valid_chain(len: usize, tag: &str) -> Vec<Block> {
    let app = seeded_app();
    let mut chain = app.blocks;
    while chain.len() < len {
        let next = mined_next(
            chain.last().unwrap(),
            1_700_000_000 + chain.len() as i64,
            &format!("{}-{}", tag, chain.len()),
        );
        chain.push(next);
    }
    chain
}

#[test]
fn digest_is_deterministic() {
    let first = calculate_hash(7, 42, "prev", "payload", 9);
    let second = calculate_hash(7, 42, "prev", "payload", 9);
    assert_eq!(first, second);
    assert_eq!(first.len(), 32);
}

#[test]
fn digest_matches_reference_sha256() {
    let text = canonical_json(7, -42, "prev", "payload", 9);
    let reference = <sha2::Sha256 as sha2::Digest>::digest(text.as_bytes()).to_vec();
    assert_eq!(calculate_hash(7, -42, "prev", "payload", 9), reference);
}

#[test]
fn canonical_rendering_is_exact() {
    assert_eq!(
        canonical_json(1, -2, "ab", "x\"y\n", 7),
        "{\"data\":\"x\\\"y\\n\",\"id\":1,\"nonce\":7,\"previous_hash\":\"ab\",\"timestamp\":-2}"
    );
}

#[test]
fn canonical_rendering_escapes_control_characters() {
    assert_eq!(
        canonical_json(0, 0, "", "\u{1}\\", 0),
        "{\"data\":\"\\u0001\\\\\",\"id\":0,\"nonce\":0,\"previous_hash\":\"\",\"timestamp\":0}"
    );
}

#[test]
fn binary_representation_is_exact() {
    assert_eq!(
        hash_to_binary_representation(&vec![0u8, 255]),
        "0000000011111111"
    );
    assert_eq!(hash_to_binary_representation(&vec![1u8]), "00000001");
    assert_eq!(hash_to_binary_representation(&vec![]), "");
}

#[test]
fn difficulty_prefix_checks() {
    assert!(meets_difficulty(&vec![0u8], 8));
    assert!(!meets_difficulty(&vec![0u8], 9));
    assert!(meets_difficulty(&vec![63u8], 2));
    assert!(!meets_difficulty(&vec![64u8], 2));
    assert!(meets_difficulty(&vec![64u8], 1));
    assert!(meets_difficulty(&vec![255u8], 0));
}

#[test]
fn mining_agrees_with_validation() {
    let mut app = seeded_app();
    let genesis = app.blocks[0].clone();
    let block = mined_next(&genesis, 1_700_000_000, "payload");
    assert_eq!(app.is_block_valid(&block, &genesis), Ok(true));
    assert_eq!(app.try_add_block(block), Ok(true));
    assert_eq!(app.blocks.len(), 2);
}

#[test]
fn mined_hash_is_hex_of_digest() {
    let app = seeded_app();
    let block = mined_next(&app.blocks[0], 1_700_000_000, "payload");
    let digest = calculate_hash(
        block.id,
        block.timestamp,
        &block.previous_hash,
        &block.data,
        block.nonce,
    );
    assert_eq!(block.hash, hex::encode(&digest));
    assert!(meets_difficulty(&digest, DIFFICULTY_BITS));
}

#[test]
fn mining_finds_the_first_solving_nonce() {
    let app = seeded_app();
    let block = mined_next(&app.blocks[0], 1_700_000_000, "payload");
    for earlier in 0..block.nonce {
        let digest = calculate_hash(
            block.id,
            block.timestamp,
            &block.previous_hash,
            &block.data,
            earlier,
        );
        assert!(!meets_difficulty(&digest, DIFFICULTY_BITS));
    }
}

#[test]
fn mining_with_zero_limit_finds_nothing() {
    assert!(mine_block(1, 0, "x", "y", 0).is_none());
}

#[test]
fn tampered_data_is_rejected() {
    let mut app = seeded_app();
    let genesis = app.blocks[0].clone();
    let block = mined_next(&genesis, 1_700_000_000, "payload");
    let mut tampered = block.clone();
    tampered.data.push('x');
    assert_eq!(check_block(&tampered, &genesis), Err(BlockFault::HashMismatch));
    assert_eq!(app.is_block_valid(&tampered, &genesis), Ok(false));
    assert_eq!(app.try_add_block(tampered), Ok(false));
    assert_eq!(app.blocks.len(), 1);
}

#[test]
fn tampered_nonce_is_rejected() {
    let app = seeded_app();
    let genesis = app.blocks[0].clone();
    let block = mined_next(&genesis, 1_700_000_000, "payload");
    let mut tampered = block.clone();
    tampered.nonce = tampered.nonce.wrapping_add(1);
    assert_eq!(check_block(&tampered, &genesis), Err(BlockFault::HashMismatch));
}

#[test]
fn genesis_alone_is_a_valid_chain() {
    let app = seeded_app();
    assert_eq!(app.is_chain_valid(&app.blocks), Ok(true));
}

#[test]
fn appending_a_bad_block_invalidates_only_the_longer_chain() {
    let app = seeded_app();
    let original = valid_chain(2, "good");
    assert_eq!(app.is_chain_valid(&original), Ok(true));
    let mut longer = original.clone();
    let mut bad = mined_next(longer.last().unwrap(), 1_700_000_002, "late");
    bad.id += 1; // breaks the sequence check
    longer.push(bad);
    assert_eq!(app.is_chain_valid(&longer), Ok(false));
    assert_eq!(app.is_chain_valid(&original), Ok(true));
}

#[test]
fn fork_choice_prefers_the_longer_chain() {
    let app = App::new();
    let local = valid_chain(3, "local");
    let remote = valid_chain(5, "remote");
    let expected = remote.last().unwrap().hash.clone();
    let chosen = app.choose_chain(local, remote).unwrap();
    assert_eq!(chosen.len(), 5);
    assert_eq!(chosen.last().unwrap().hash, expected);
}

#[test]
fn fork_choice_tie_goes_to_remote() {
    let app = App::new();
    let local = valid_chain(4, "local");
    let remote = valid_chain(4, "remote");
    let expected = remote.last().unwrap().hash.clone();
    let chosen = app.choose_chain(local, remote).unwrap();
    assert_eq!(chosen.len(), 4);
    assert_eq!(chosen.last().unwrap().hash, expected);
}

#[test]
fn fork_choice_drops_the_invalid_chain() {
    let app = App::new();
    let local = valid_chain(2, "local");
    let mut remote = valid_chain(4, "remote");
    remote[2].id = 99; // breaks the sequence check
    let expected = local.last().unwrap().hash.clone();
    let chosen = app.choose_chain(local, remote).unwrap();
    assert_eq!(chosen.len(), 2);
    assert_eq!(chosen.last().unwrap().hash, expected);
}

#[test]
fn fork_choice_on_two_invalid_chains_is_a_conflict() {
    let app = App::new();
    let mut local = valid_chain(2, "local");
    let mut remote = valid_chain(2, "remote");
    local[1].id = 7;
    remote[1].id = 7;
    assert_eq!(app.choose_chain(local, remote), Err(ChainError::Conflict));
}

#[test]
fn malformed_hex_is_a_decode_error() {
    let mut app = seeded_app();
    let genesis = app.blocks[0].clone();
    let mut candidate = mined_next(&genesis, 1_700_000_000, "payload");
    candidate.hash = "zz".to_string();
    assert_eq!(check_block(&candidate, &genesis), Err(BlockFault::NotHex));
    assert_eq!(
        app.is_block_valid(&candidate, &genesis),
        Err(ChainError::Decode)
    );
    assert_eq!(app.try_add_block(candidate.clone()), Err(ChainError::Decode));
    assert_eq!(app.blocks.len(), 1);
    let mut chain = app.blocks.clone();
    chain.push(candidate);
    assert_eq!(app.is_chain_valid(&chain), Err(ChainError::Decode));
}

#[test]
fn unseeded_ledger_refuses_to_append() {
    let mut app = App::new();
    let block = valid_chain(2, "x").pop().unwrap();
    assert_eq!(app.try_add_block(block), Err(ChainError::Empty));
    assert_eq!(app.blocks.len(), 0);
}

#[test]
fn each_fault_kind_is_distinguished() {
    let app = seeded_app();
    let genesis = app.blocks[0].clone();

    let mut unlinked = mined_next(&genesis, 1_700_000_000, "payload");
    unlinked.previous_hash = "elsewhere".to_string();
    assert_eq!(check_block(&unlinked, &genesis), Err(BlockFault::Linkage));

    let weak = Block {
        id: 1,
        hash: "ff".to_string(),
        previous_hash: genesis.hash.clone(),
        timestamp: 0,
        data: "d".to_string(),
        nonce: 0,
    };
    assert_eq!(check_block(&weak, &genesis), Err(BlockFault::Difficulty));

    let skipped = Block {
        id: 5,
        hash: "00".to_string(),
        previous_hash: genesis.hash.clone(),
        timestamp: 0,
        data: "d".to_string(),
        nonce: 0,
    };
    assert_eq!(check_block(&skipped, &genesis), Err(BlockFault::Sequence));

    let forged = Block {
        id: 1,
        hash: "00".to_string(),
        previous_hash: genesis.hash.clone(),
        timestamp: 0,
        data: "d".to_string(),
        nonce: 0,
    };
    assert_eq!(check_block(&forged, &genesis), Err(BlockFault::HashMismatch));
}

#[test]
fn difficulty_is_monotone_on_a_fixed_digest() {
    let digest = calculate_hash(3, 4, "p", "d", 5);
    for shorter in 0..256usize {
        if meets_difficulty(&digest, shorter + 1) {
            assert!(meets_difficulty(&digest, shorter));
        }
    }
    assert!(!meets_difficulty(&digest, 64));
}

#[test]
fn genesis_is_idempotent() {
    let mut app = App::new();
    app.genesis();
    let hash = app.blocks[0].hash.clone();
    app.genesis();
    assert_eq!(app.blocks.len(), 1);
    assert_eq!(app.blocks[0].hash, hash);
    assert_eq!(app.blocks[0].id, 0);
}

#[test]
fn genesis_rejects_a_candidate_that_skips_it() {
    let mut app = seeded_app();
    let mut candidate = mined_next(&app.blocks[0].clone(), 1_700_000_000, "payload");
    candidate.previous_hash = "bogus".to_string();
    assert_eq!(app.try_add_block(candidate), Ok(false));
    assert_eq!(app.blocks.len(), 1);
}
