use rustblockchain::clock::timestamp_from;
use rustblockchain::transaction::{from_records, to_records};
use rustblockchain::{
    create_block, create_block_at, create_genesis_block, current_timestamp, Block, LedgerError,
    Transaction,
};
use sha2::Digest;

fn tx(from: u8, to: u8, amount: u64) -> Transaction {
    Transaction { from: [from; 32], to: [to; 32], amount }
}

fn sample_block() -> Block {
    let mut block = Block {
        index: 1,
        timestamp: 1700000000,
        transactions: vec![tx(1, 2, 10)],
        previous_hash: [2u8; 32],
        hash: [0u8; 32],
    };
    block.hash = block.calculate_hash();
    block
}

#[test]
fn digest_of_a_known_block() {
    let block = sample_block();
    assert_eq!(
        hex::encode(block.hash),
        "4b6f18f5e5b03ea42d895bbcfbedd41de688993ed490c6c4406142d216b0f3b3"
    );
}

#[test]
fn digest_is_sha256_of_the_content_bytes() {
    let block = sample_block();
    let mut content: Vec<u8> = Vec::new();
    content.extend_from_slice(&[1, 0, 0, 0, 0, 0, 0, 0]);
    content.extend_from_slice(&1700000000u64.to_le_bytes());
    content.extend_from_slice(&[1, 0, 0, 0, 0, 0, 0, 0]);
    content.extend_from_slice(&[1u8; 32]);
    content.extend_from_slice(&[2u8; 32]);
    content.extend_from_slice(&[10, 0, 0, 0, 0, 0, 0, 0]);
    content.extend_from_slice(&[2u8; 32]);
    assert_eq!(content.len(), 128);
    let expected: [u8; 32] = sha2::Sha256::digest(&content).into();
    assert_eq!(block.calculate_hash(), expected);
}

#[test]
fn digest_ignores_the_stored_digest() {
    let mut block = sample_block();
    let before = block.calculate_hash();
    block.hash = [9u8; 32];
    assert_eq!(block.calculate_hash(), before);
}

#[test]
fn digest_depends_on_every_content_field() {
    let base = sample_block().calculate_hash();

    let mut block = sample_block();
    block.index = 2;
    assert_ne!(block.calculate_hash(), base);

    let mut block = sample_block();
    block.timestamp += 1;
    assert_ne!(block.calculate_hash(), base);

    let mut block = sample_block();
    block.transactions[0].amount = 11;
    assert_ne!(block.calculate_hash(), base);

    let mut block = sample_block();
    block.transactions[0].from[31] = 0;
    assert_ne!(block.calculate_hash(), base);

    let mut block = sample_block();
    block.transactions[0].to[0] = 0;
    assert_ne!(block.calculate_hash(), base);

    let mut block = sample_block();
    block.transactions.push(tx(1, 2, 10));
    assert_ne!(block.calculate_hash(), base);

    let mut block = sample_block();
    block.transactions.clear();
    assert_ne!(block.calculate_hash(), base);

    let mut block = sample_block();
    block.previous_hash[5] = 0;
    assert_ne!(block.calculate_hash(), base);
}

#[test]
fn genesis_at_a_given_time() {
    let genesis = Block::genesis(0);
    assert_eq!(genesis.index, 0);
    assert_eq!(genesis.timestamp, 0);
    assert!(genesis.transactions.is_empty());
    assert_eq!(genesis.previous_hash, [0u8; 32]);
    assert_eq!(genesis.hash, genesis.calculate_hash());
    assert_eq!(
        hex::encode(genesis.hash),
        "d4817aa5497628e7c77e6b606107042bbba3130888c5f47a375e6179be789fbb"
    );
    let later = Block::genesis(1_700_000_000_000_000_000);
    assert_eq!(later.timestamp, 1_700_000_000_000_000_000);
    assert_eq!(
        hex::encode(later.hash),
        "3bd8ecefe9c4c4c7451cea349758b62717a849a7e2a7b4cf4525045ec70e643b"
    );
}

#[test]
fn genesis_stamped_by_the_clock() {
    let genesis = create_genesis_block();
    assert_eq!(genesis.index, 0);
    assert!(genesis.transactions.is_empty());
    assert_eq!(genesis.previous_hash, [0u8; 32]);
    assert_eq!(genesis.hash, genesis.calculate_hash());
    assert!(genesis.timestamp > 0);
}

#[test]
fn successor_at_a_given_time() {
    let genesis = Block::genesis(0);
    let next = create_block_at(vec![tx(1, 2, 100)], &genesis, 5).unwrap();
    assert_eq!(next.index, 1);
    assert_eq!(next.timestamp, 5);
    assert_eq!(next.transactions, vec![tx(1, 2, 100)]);
    assert_eq!(next.previous_hash, genesis.hash);
    assert_eq!(next.hash, next.calculate_hash());
    assert_eq!(
        hex::encode(next.hash),
        "b3f4d9cb4331df69308d44826ebae1f1de1a8820454cb54bd19aaee8677d5294"
    );
}

#[test]
fn successor_needs_a_later_timestamp() {
    let genesis = Block::genesis(100);
    assert_eq!(
        create_block_at(vec![], &genesis, 100).unwrap_err(),
        LedgerError::StaleTimestamp
    );
    assert_eq!(create_block_at(vec![], &genesis, 0).unwrap_err(), LedgerError::StaleTimestamp);
    assert!(create_block_at(vec![], &genesis, 101).is_ok());
}

#[test]
fn successor_needs_room_for_its_index() {
    let mut last = Block::genesis(100);
    last.index = u64::MAX;
    assert_eq!(create_block_at(vec![], &last, 101).unwrap_err(), LedgerError::IndexOverflow);
    assert_eq!(create_block_at(vec![], &last, 1).unwrap_err(), LedgerError::IndexOverflow);
    assert_eq!(create_block(vec![], &last).unwrap_err(), LedgerError::IndexOverflow);
    last.index = u64::MAX - 1;
    assert_eq!(create_block_at(vec![], &last, 101).unwrap().index, u64::MAX);
}

#[test]
fn builder_does_not_cap_the_batch() {
    let genesis = Block::genesis(0);
    let many: Vec<Transaction> = (0..40).map(|i| tx(i as u8, 1, i)).collect();
    let next = create_block_at(many, &genesis, 1).unwrap();
    assert_eq!(next.transactions.len(), 40);
    assert_eq!(next.hash, next.calculate_hash());
}

#[test]
fn successor_stamped_by_the_clock() {
    let genesis = Block::genesis(0);
    let next = create_block(vec![tx(3, 4, 50)], &genesis).unwrap();
    assert_eq!(next.index, 1);
    assert!(next.timestamp > 0);
    assert_eq!(next.previous_hash, genesis.hash);
    assert_eq!(next.hash, next.calculate_hash());

    let mut future = Block::genesis(0);
    future.timestamp = u64::MAX;
    assert_eq!(create_block(vec![], &future).unwrap_err(), LedgerError::StaleTimestamp);
}

#[test]
fn clock_reads_a_time_after_the_epoch() {
    let first = current_timestamp();
    assert!(first > 1_000_000_000_000_000_000);
}

#[test]
fn reading_of_the_clock_becomes_a_timestamp() {
    assert_eq!(timestamp_from(None), 0);
    assert_eq!(timestamp_from(Some(0)), 0);
    assert_eq!(timestamp_from(Some(1_700_000_000_000_000_000)), 1_700_000_000_000_000_000);
    assert_eq!(timestamp_from(Some(u64::MAX as u128)), u64::MAX);
    assert_eq!(timestamp_from(Some(u64::MAX as u128 + 1)), 0);
    assert_eq!(timestamp_from(Some((1u128 << 64) + 7)), 7);
    assert_eq!(timestamp_from(Some(u128::MAX)), u64::MAX);
}

#[test]
fn records_carry_the_transactions_over() {
    let batch = vec![tx(1, 2, 3), tx(4, 5, u64::MAX), tx(0, 255, 0)];
    let records = to_records(&batch);
    assert_eq!(records.len(), 3);
    assert_eq!(records[1], ([4u8; 32], [5u8; 32], u64::MAX));
    assert_eq!(batch[2].to_record(), ([0u8; 32], [255u8; 32], 0));
    assert_eq!(Transaction::from_record(&([7u8; 32], [8u8; 32], 9)), tx(7, 8, 9));
    assert_eq!(from_records(&records), batch);
}
