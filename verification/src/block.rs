//! Blocks and the block builder.
//!
//! A block is sealed when its stored digest is the digest of its content:
//! index, timestamp, transactions and the digest of its predecessor.

use crate::clock::current_timestamp;
use crate::digest::{sha256, sha256_of, zero_digest, zero_sentinel};
use crate::error::LedgerError;
use crate::layout::{content_of, encode_content, BlockContent};
use crate::transaction::{to_records, transactions_view, Transaction, TransactionView};
use vstd::prelude::*;

verus! {

/// One entry of the ledger.
#[derive(Debug, Clone)]
pub struct Block {
    /// Position of the block in the ledger, from 0.
    pub index: u64,
    /// Creation time, in nanoseconds since the Unix epoch.
    pub timestamp: u64,
    /// The batch that the block records.
    pub transactions: Vec<Transaction>,
    /// Digest stored in the block before this one; the zero sentinel in the
    /// genesis block.
    pub previous_hash: [u8; 32],
    /// Digest of the four fields above.
    pub hash: [u8; 32],
}

/// The mathematical value of a block.
pub struct BlockView {
    pub index: u64,
    pub timestamp: u64,
    pub transactions: Seq<TransactionView>,
    pub previous_hash: Seq<u8>,
    pub hash: Seq<u8>,
}

impl View for Block {
    type V = BlockView;

    open spec fn view(&self) -> BlockView {
        BlockView {
            index: self.index,
            timestamp: self.timestamp,
            transactions: transactions_view(self.transactions@),
            previous_hash: self.previous_hash@,
            hash: self.hash@,
        }
    }
}

/// The digest of block content: SHA-256 over its canonical bytes.
pub open spec fn content_digest(content: BlockContent) -> Seq<u8> {
    sha256(content.layout())
}

impl BlockView {
    /// The content of the block: every field but the stored digest.
    pub open spec fn content(self) -> BlockContent {
        content_of(self.index, self.timestamp, self.transactions, self.previous_hash)
    }

    /// The digest recomputed from the block's content; the stored digest
    /// plays no part in it.
    pub open spec fn digest(self) -> Seq<u8> {
        content_digest(self.content())
    }

    /// The stored digest is the digest of the content.
    pub open spec fn sealed(self) -> bool {
        self.hash == self.digest()
    }

    /// The genesis block created at `timestamp`.
    pub open spec fn genesis(timestamp: u64) -> BlockView {
        BlockView {
            index: 0,
            timestamp,
            transactions: Seq::empty(),
            previous_hash: zero_digest(),
            hash: content_digest(content_of(0, timestamp, Seq::empty(), zero_digest())),
        }
    }

    /// The block that follows `self`, holding `transactions` and created at
    /// `timestamp`.
    pub open spec fn successor(
        self,
        transactions: Seq<TransactionView>,
        timestamp: u64,
    ) -> BlockView
        recommends
            self.index < u64::MAX,
    {
        let index = (self.index + 1) as u64;
        BlockView {
            index,
            timestamp,
            transactions,
            previous_hash: self.hash,
            hash: content_digest(content_of(index, timestamp, transactions, self.hash)),
        }
    }
}

/// What building the successor of `previous` at `timestamp` comes to: the
/// block, or the reason for which none is built.
pub open spec fn successor_outcome(
    previous: BlockView,
    transactions: Seq<TransactionView>,
    timestamp: u64,
) -> Result<BlockView, LedgerError> {
    if previous.index == u64::MAX {
        Err(LedgerError::IndexOverflow)
    } else if timestamp <= previous.timestamp {
        Err(LedgerError::StaleTimestamp)
    } else {
        Ok(previous.successor(transactions, timestamp))
    }
}

/// Building the successor of `previous` at `timestamp` gave `built`.
pub open spec fn built_at(
    previous: BlockView,
    transactions: Seq<TransactionView>,
    timestamp: u64,
    built: Result<Block, LedgerError>,
) -> bool {
    match successor_outcome(previous, transactions, timestamp) {
        Ok(next) => built matches Ok(block) && block@ == next,
        Err(reason) => built == Err::<Block, LedgerError>(reason),
    }
}

impl Block {
    /// Recomputes the digest of the block's content. The stored `hash` is
    /// not part of the content.
    pub fn calculate_hash(&self) -> (digest: [u8; 32])
        ensures
            digest@ == self@.digest(),
    {
        let records = to_records(&self.transactions);
        let encoded = encode_content(self.index, self.timestamp, &records, &self.previous_hash);
        let bytes = encoded.expect("block content is always encodable");
        sha256_of(bytes.as_slice())
    }

    /// Builds the genesis block for a given creation time.
    pub fn genesis(timestamp: u64) -> (block: Block)
        ensures
            block@ == BlockView::genesis(timestamp),
            block@.sealed(),
    {
        let mut block = Block {
            index: 0,
            timestamp,
            transactions: Vec::new(),
            previous_hash: zero_sentinel(),
            hash: zero_sentinel(),
        };
        block.hash = block.calculate_hash();
        assert(block@.transactions =~= Seq::empty());
        block
    }
}

/// Builds the block that follows `previous_block` for a given creation time.
///
/// No block is built when the index would overflow or when `timestamp` is
/// not strictly later than the predecessor's.
pub fn create_block_at(
    transactions: Vec<Transaction>,
    previous_block: &Block,
    timestamp: u64,
) -> (built: Result<Block, LedgerError>)
    ensures
        built_at(previous_block@, transactions_view(transactions@), timestamp, built),
{
    if previous_block.index == u64::MAX {
        return Err(LedgerError::IndexOverflow);
    }
    let index = previous_block.index + 1;
    if timestamp <= previous_block.timestamp {
        return Err(LedgerError::StaleTimestamp);
    }
    let mut block = Block {
        index,
        timestamp,
        transactions,
        previous_hash: previous_block.hash,
        hash: zero_sentinel(),
    };
    block.hash = block.calculate_hash();
    Ok(block)
}

/// Builds the block that follows `previous_block`, stamped with the current
/// time.
///
/// Whatever the clock reads, the outcome is that of `create_block_at` for
/// some timestamp; an index that would overflow is refused whatever the
/// time.
pub fn create_block(transactions: Vec<Transaction>, previous_block: &Block) -> (built: Result<
    Block,
    LedgerError,
>)
    ensures
        exists|timestamp: u64| #[trigger]
            built_at(previous_block@, transactions_view(transactions@), timestamp, built),
        previous_block.index == u64::MAX ==> built == Err::<Block, LedgerError>(
            LedgerError::IndexOverflow,
        ),
{
    let timestamp = current_timestamp();
    create_block_at(transactions, previous_block, timestamp)
}

/// Builds a genesis block stamped with the current time: index 0, no
/// transactions, the zero sentinel as previous digest.
pub fn create_genesis_block() -> (block: Block)
    ensures
        block@ == BlockView::genesis(block.timestamp),
        block@.sealed(),
{
    Block::genesis(current_timestamp())
}

} // verus!
