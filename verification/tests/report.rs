use rustblockchain::report::decimal;
use rustblockchain::{Block, Blockchain, Transaction};

fn chain_at(timestamp: u64) -> Blockchain {
    Blockchain { blocks: vec![Block::genesis(timestamp)] }
}

#[test]
fn decimal_numerals() {
    assert_eq!(decimal(0), "0");
    assert_eq!(decimal(7), "7");
    assert_eq!(decimal(9), "9");
    assert_eq!(decimal(10), "10");
    assert_eq!(decimal(109), "109");
    assert_eq!(decimal(1700000000), "1700000000");
    assert_eq!(decimal(u64::MAX), "18446744073709551615");
}

#[test]
fn summary_of_a_fresh_ledger() {
    let chain = chain_at(0);
    assert_eq!(chain.get_chain_info(), "Блоков: 1, Валидно: true, Последний хеш: d4817aa549");
}

#[test]
fn summary_follows_the_tail_and_the_validity() {
    let mut chain = chain_at(0);
    chain
        .add_block_at(vec![Transaction { from: [1; 32], to: [2; 32], amount: 100 }], 5)
        .unwrap();
    assert_eq!(chain.get_chain_info(), "Блоков: 2, Валидно: true, Последний хеш: b3f4d9cb43");
    chain.blocks[1].transactions.clear();
    assert_eq!(chain.get_chain_info(), "Блоков: 2, Валидно: false, Последний хеш: b3f4d9cb43");
    for round in 0..10u64 {
        chain.add_block_at(vec![], 6 + round).unwrap();
    }
    assert!(chain.get_chain_info().starts_with("Блоков: 12, Валидно: false, Последний хеш: "));
}

#[test]
fn summary_of_a_clock_stamped_ledger() {
    let chain = Blockchain::new();
    let expected = format!(
        "Блоков: {}, Валидно: {}, Последний хеш: {}",
        1,
        true,
        &hex::encode(chain.blocks[0].hash)[..10]
    );
    assert_eq!(chain.get_chain_info(), expected);
}

#[test]
fn listing_of_a_chain() {
    let mut chain = chain_at(0);
    chain
        .add_block_at(
            vec![
                Transaction { from: [1; 32], to: [2; 32], amount: 100 },
                Transaction { from: [0xab; 32], to: [0; 32], amount: 0 },
            ],
            5,
        )
        .unwrap();
    let genesis_hash = hex::encode(chain.blocks[0].hash);
    let block_hash = hex::encode(chain.blocks[1].hash);
    let mut expected = String::new();
    expected.push_str("--- Block 0 ---\n");
    expected.push_str("Timestamp: 0\n");
    expected.push_str(&format!("Hash: {}\n", genesis_hash));
    expected.push_str("Transactions:\n");
    expected.push_str("  (нет транзакций)\n");
    expected.push_str(&format!("Prev: {}\n", "00".repeat(32)));
    expected.push_str("\n");
    expected.push_str("--- Block 1 ---\n");
    expected.push_str("Timestamp: 5\n");
    expected.push_str(&format!("Hash: {}\n", block_hash));
    expected.push_str("Transactions:\n");
    expected.push_str(&format!("  {} → {} : 100\n", "01".repeat(32), "02".repeat(32)));
    expected.push_str(&format!("  {} → {} : 0\n", "ab".repeat(32), "00".repeat(32)));
    expected.push_str(&format!("Prev: {}\n", genesis_hash));
    expected.push_str("\n");
    assert_eq!(chain.chain_listing(), expected);
}

#[test]
fn listing_of_an_empty_ledger_is_empty() {
    let chain = Blockchain { blocks: vec![] };
    assert_eq!(chain.chain_listing(), "");
}
