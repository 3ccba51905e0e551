use rustblockchain::{
    deserialize_block, deserialize_blockchain, serialize_block, serialize_blockchain, Block,
    Blockchain, CodecError, Transaction,
};

fn dummy_tx(from: [u8; 32], to: [u8; 32], amount: u64) -> Transaction {
    Transaction { from, to, amount }
}

fn sample_block() -> Block {
    let mut block = Block {
        index: 1,
        timestamp: 1700000000,
        transactions: vec![dummy_tx([1; 32], [2; 32], 10)],
        previous_hash: [2u8; 32],
        hash: [0u8; 32],
    };
    block.hash = block.calculate_hash();
    block
}

fn block_bytes(block: &Block) -> Vec<u8> {
    let mut bytes: Vec<u8> = Vec::new();
    bytes.extend_from_slice(&block.index.to_le_bytes());
    bytes.extend_from_slice(&block.timestamp.to_le_bytes());
    bytes.extend_from_slice(&(block.transactions.len() as u64).to_le_bytes());
    for transaction in &block.transactions {
        bytes.extend_from_slice(&transaction.from);
        bytes.extend_from_slice(&transaction.to);
        bytes.extend_from_slice(&transaction.amount.to_le_bytes());
    }
    bytes.extend_from_slice(&block.previous_hash);
    bytes.extend_from_slice(&block.hash);
    bytes
}

fn sample_chain() -> Blockchain {
    let mut chain = Blockchain { blocks: vec![Block::genesis(7)] };
    chain.add_block_at(vec![dummy_tx([5; 32], [6; 32], 42)], 8).unwrap();
    chain.add_block_at(vec![], 9).unwrap();
    chain
        .add_block_at(vec![dummy_tx([1; 32], [2; 32], 3), dummy_tx([4; 32], [5; 32], u64::MAX)], 10)
        .unwrap();
    chain
}

fn same_block(a: &Block, b: &Block) -> bool {
    a.index == b.index
        && a.timestamp == b.timestamp
        && a.transactions == b.transactions
        && a.previous_hash == b.previous_hash
        && a.hash == b.hash
}

#[test]
fn test_block_serialization_roundtrip() {
    let mut block = Block {
        index: 1,
        timestamp: 1700000000,
        transactions: vec![dummy_tx([1; 32], [2; 32], 10)],
        previous_hash: [2u8; 32],
        hash: [0u8; 32],
    };
    block.hash = block.calculate_hash();

    let serialized = serialize_block(&block).unwrap();
    let deserialized: Block = deserialize_block(&serialized).unwrap();
    assert_eq!(block.hash, deserialized.hash);
    assert_eq!(block.transactions, deserialized.transactions);
    assert_eq!(deserialized.hash, deserialized.calculate_hash());
}

#[test]
fn test_blockchain_serialization_roundtrip() {
    let mut chain = Blockchain::new();
    chain.add_block(vec![dummy_tx([5; 32], [6; 32], 42)]).unwrap();
    let serialized = serialize_blockchain(&chain).unwrap();
    let deserialized: Blockchain = deserialize_blockchain(&serialized).unwrap();
    assert_eq!(chain.blocks.len(), deserialized.blocks.len());
    assert!(deserialized.is_valid());
    assert_eq!(chain.blocks[1].hash, deserialized.blocks[1].hash);
}

#[test]
fn block_is_written_field_by_field() {
    let block = sample_block();
    let bytes = serialize_block(&block).unwrap();
    assert_eq!(bytes.len(), 88 + 72);
    assert_eq!(bytes, block_bytes(&block));
    assert_eq!(&bytes[0..8], &[1, 0, 0, 0, 0, 0, 0, 0]);
    assert_eq!(&bytes[8..16], &[0x00, 0xf1, 0x53, 0x65, 0, 0, 0, 0]);
    assert_eq!(&bytes[16..24], &[1, 0, 0, 0, 0, 0, 0, 0]);
    assert_eq!(&bytes[24..56], &[1u8; 32]);
    assert_eq!(&bytes[56..88], &[2u8; 32]);
    assert_eq!(&bytes[88..96], &[10, 0, 0, 0, 0, 0, 0, 0]);
    assert_eq!(&bytes[96..128], &[2u8; 32]);
    assert_eq!(&bytes[128..160], &block.hash);
}

#[test]
fn block_without_transactions_takes_88_bytes() {
    let genesis = Block::genesis(3);
    let bytes = serialize_block(&genesis).unwrap();
    assert_eq!(bytes.len(), 88);
    assert_eq!(bytes, block_bytes(&genesis));
}

#[test]
fn ledger_is_written_as_count_and_blocks() {
    let chain = sample_chain();
    let bytes = serialize_blockchain(&chain).unwrap();
    let mut expected: Vec<u8> = vec![4, 0, 0, 0, 0, 0, 0, 0];
    for block in &chain.blocks {
        expected.extend_from_slice(&block_bytes(block));
    }
    assert_eq!(bytes, expected);

    let empty = Blockchain { blocks: vec![] };
    assert_eq!(serialize_blockchain(&empty).unwrap(), vec![0u8; 8]);
}

#[test]
fn block_round_trip_keeps_every_field() {
    let block = sample_block();
    let decoded = deserialize_block(&serialize_block(&block).unwrap()).unwrap();
    assert!(same_block(&block, &decoded));

    let genesis = Block::genesis(0);
    let decoded = deserialize_block(&serialize_block(&genesis).unwrap()).unwrap();
    assert!(same_block(&genesis, &decoded));

    let mut full = sample_block();
    full.transactions = (0..10).map(|i| dummy_tx([i; 32], [255 - i; 32], i as u64 * 1000)).collect();
    full.index = u64::MAX;
    full.timestamp = u64::MAX;
    let decoded = deserialize_block(&serialize_block(&full).unwrap()).unwrap();
    assert!(same_block(&full, &decoded));
}

#[test]
fn ledger_round_trip_keeps_every_block() {
    let chain = sample_chain();
    let decoded = deserialize_blockchain(&serialize_blockchain(&chain).unwrap()).unwrap();
    assert_eq!(decoded.blocks.len(), chain.blocks.len());
    for (a, b) in chain.blocks.iter().zip(decoded.blocks.iter()) {
        assert!(same_block(a, b));
    }
    assert!(decoded.is_valid());
}

#[test]
fn tampered_ledger_round_trips_as_tampered() {
    let mut chain = sample_chain();
    chain.blocks[1].transactions.clear();
    let decoded = deserialize_blockchain(&serialize_blockchain(&chain).unwrap()).unwrap();
    assert_eq!(decoded.blocks.len(), 4);
    assert!(decoded.blocks[1].transactions.is_empty());
    assert!(!decoded.is_valid());
}

#[test]
fn bytes_after_the_value_are_ignored() {
    let block = sample_block();
    let mut bytes = serialize_block(&block).unwrap();
    bytes.extend_from_slice(&[1, 2, 3]);
    let decoded = deserialize_block(&bytes).unwrap();
    assert!(same_block(&block, &decoded));

    let chain = sample_chain();
    let mut bytes = serialize_blockchain(&chain).unwrap();
    bytes.push(0);
    let decoded = deserialize_blockchain(&bytes).unwrap();
    assert_eq!(decoded.blocks.len(), 4);
}

#[test]
fn truncated_bytes_are_not_a_block() {
    let bytes = serialize_block(&sample_block()).unwrap();
    for len in [0usize, 7, 8, 23, 24, 87, 88, 159] {
        assert_eq!(deserialize_block(&bytes[..len]).unwrap_err(), CodecError::Decoding);
    }
    assert!(deserialize_block(&bytes[..160]).is_ok());
}

#[test]
fn truncated_bytes_are_not_a_ledger() {
    let bytes = serialize_blockchain(&sample_chain()).unwrap();
    assert_eq!(deserialize_blockchain(&[]).unwrap_err(), CodecError::Decoding);
    assert_eq!(deserialize_blockchain(&bytes[..7]).unwrap_err(), CodecError::Decoding);
    assert_eq!(
        deserialize_blockchain(&bytes[..bytes.len() - 1]).unwrap_err(),
        CodecError::Decoding
    );
    assert_eq!(deserialize_blockchain(&[0u8; 8]).unwrap().blocks.len(), 0);
}

#[test]
fn announced_length_must_be_backed_by_bytes() {
    let mut bytes = serialize_block(&Block::genesis(0)).unwrap();
    bytes[16] = 1;
    assert_eq!(deserialize_block(&bytes).unwrap_err(), CodecError::Decoding);
    let mut bytes = vec![0u8; 8];
    bytes[0] = 1;
    assert_eq!(deserialize_blockchain(&bytes).unwrap_err(), CodecError::Decoding);
}

#[test]
fn records_stand_for_blocks() {
    let block = sample_block();
    let record = block.to_record();
    assert_eq!(record.0, 1);
    assert_eq!(record.1, 1700000000);
    assert_eq!(record.2, vec![([1u8; 32], [2u8; 32], 10u64)]);
    assert_eq!(record.3, [2u8; 32]);
    assert_eq!(record.4, block.hash);
    assert!(same_block(&Block::from_record(&record), &block));
}
