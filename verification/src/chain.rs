//! The ledger: an ordered sequence of blocks that starts with a genesis
//! block and grows only by appending.

use crate::block::{create_block_at, create_genesis_block, Block, BlockView};
use crate::clock::current_timestamp;
use crate::digest::{digest_eq, zero_digest, zero_sentinel};
use crate::error::LedgerError;
use crate::transaction::{
    transactions_view, Transaction, TransactionView, MAX_TRANSACTIONS_PER_BLOCK,
};
use vstd::prelude::*;

verus! {

/// The ledger. Its blocks are open to inspection, and to tampering, which
/// `is_valid` detects.
#[derive(Debug)]
pub struct Blockchain {
    pub blocks: Vec<Block>,
}

impl View for Blockchain {
    type V = Seq<BlockView>;

    open spec fn view(&self) -> Seq<BlockView> {
        self.blocks@.map_values(|b: Block| b@)
    }
}

/// The first block is a sealed genesis block: index 0 and the zero sentinel
/// as previous digest.
pub open spec fn genesis_holds(blocks: Seq<BlockView>) -> bool {
    &&& blocks.len() > 0
    &&& blocks[0].index == 0
    &&& blocks[0].previous_hash == zero_digest()
    &&& blocks[0].sealed()
}

/// The block at position `i > 0` is sealed, carries the next index and
/// refers to the digest stored in the block before it.
pub open spec fn link_holds(blocks: Seq<BlockView>, i: int) -> bool {
    &&& blocks[i].index == blocks[i - 1].index + 1
    &&& blocks[i].previous_hash == blocks[i - 1].hash
    &&& blocks[i].sealed()
}

/// The integrity of a whole chain: a genesis block followed by linked blocks.
pub open spec fn valid_chain(blocks: Seq<BlockView>) -> bool {
    &&& genesis_holds(blocks)
    &&& forall|i: int| 1 <= i < blocks.len() ==> #[trigger] link_holds(blocks, i)
}

/// The reason for which an append is refused whatever the time, if there is
/// one: a batch over the limit, no block to link to, or no index left.
pub open spec fn refusal(
    blocks: Seq<BlockView>,
    transactions: Seq<TransactionView>,
) -> Option<LedgerError> {
    if transactions.len() > MAX_TRANSACTIONS_PER_BLOCK {
        Some(LedgerError::TooManyTransactions)
    } else if blocks.len() == 0 {
        Some(LedgerError::EmptyChain)
    } else if blocks.last().index == u64::MAX {
        Some(LedgerError::IndexOverflow)
    } else {
        None
    }
}

/// What appending `transactions` at `timestamp` comes to: the longer chain,
/// or the reason for which the chain stays as it is.
pub open spec fn append_outcome(
    blocks: Seq<BlockView>,
    transactions: Seq<TransactionView>,
    timestamp: u64,
) -> Result<Seq<BlockView>, LedgerError> {
    match refusal(blocks, transactions) {
        Some(reason) => Err(reason),
        None => if timestamp <= blocks.last().timestamp {
            Err(LedgerError::StaleTimestamp)
        } else {
            Ok(blocks.push(blocks.last().successor(transactions, timestamp)))
        },
    }
}

/// An append at `timestamp` that reported `outcome` took `before` to `after`.
pub open spec fn appended_at(
    before: Seq<BlockView>,
    transactions: Seq<TransactionView>,
    timestamp: u64,
    outcome: Result<(), LedgerError>,
    after: Seq<BlockView>,
) -> bool {
    match append_outcome(before, transactions, timestamp) {
        Ok(longer) => outcome is Ok && after == longer,
        Err(reason) => outcome == Err::<(), LedgerError>(reason) && after == before,
    }
}

impl Blockchain {
    /// Creates a ledger that holds the genesis block and nothing else.
    pub fn new() -> (chain: Blockchain)
        ensures
            chain@.len() == 1,
            chain@[0] == BlockView::genesis(chain@[0].timestamp),
            chain@[0].index == 0,
            chain@[0].transactions.len() == 0,
            chain@[0].previous_hash == zero_digest(),
            chain@[0].sealed(),
            valid_chain(chain@),
    {
        let mut blocks: Vec<Block> = Vec::new();
        blocks.push(create_genesis_block());
        Blockchain { blocks }
    }

    /// Appends a block that holds `transactions` and was created at
    /// `timestamp`.
    ///
    /// The append is refused, and the ledger left as it is, when the batch is
    /// over the limit, when there is no block to link to, when the index
    /// would overflow, or when `timestamp` is not later than the tail's.
    pub fn add_block_at(&mut self, transactions: Vec<Transaction>, timestamp: u64) -> (outcome:
        Result<(), LedgerError>)
        ensures
            appended_at(
                old(self)@,
                transactions_view(transactions@),
                timestamp,
                outcome,
                final(self)@,
            ),
            valid_chain(old(self)@) ==> valid_chain(final(self)@),
    {
        if transactions.len() > MAX_TRANSACTIONS_PER_BLOCK {
            return Err(LedgerError::TooManyTransactions);
        }
        if self.blocks.len() == 0 {
            return Err(LedgerError::EmptyChain);
        }
        let last_block = &self.blocks[self.blocks.len() - 1];
        assert(last_block@ == self@.last());
        match create_block_at(transactions, last_block, timestamp) {
            Ok(new_block) => {
                self.blocks.push(new_block);
                proof {
                    let before = old(self)@;
                    let longer = before.push(before.last().successor(
                        transactions_view(transactions@),
                        timestamp,
                    ));
                    assert(self@ =~= longer);
                    if valid_chain(before) {
                        lemma_append_keeps_valid(
                            before,
                            transactions_view(transactions@),
                            timestamp,
                        );
                    }
                }
                Ok(())
            },
            Err(reason) => Err(reason),
        }
    }

    /// Appends a block that holds `transactions`, stamped with the current
    /// time.
    ///
    /// Whatever the clock reads, the outcome is that of `add_block_at` for
    /// some timestamp. A batch over the limit is refused whatever the time,
    /// and so is an append to a ledger that has no block or no index left.
    pub fn add_block(&mut self, transactions: Vec<Transaction>) -> (outcome: Result<
        (),
        LedgerError,
    >)
        ensures
            exists|timestamp: u64| #[trigger]
                appended_at(
                    old(self)@,
                    transactions_view(transactions@),
                    timestamp,
                    outcome,
                    final(self)@,
                ),
            refusal(old(self)@, transactions_view(transactions@)) matches Some(reason)
                ==> outcome == Err::<(), LedgerError>(reason) && final(self)@ == old(self)@,
            valid_chain(old(self)@) ==> valid_chain(final(self)@),
    {
        let timestamp = current_timestamp();
        self.add_block_at(transactions, timestamp)
    }

    /// The block at position `index`, if there is one.
    pub fn get_block(&self, index: usize) -> (found: Option<&Block>)
        ensures
            index < self.blocks.len() ==> found == Some(&self.blocks@[index as int]),
            index >= self.blocks.len() ==> found is None,
    {
        if index < self.blocks.len() {
            Some(&self.blocks[index])
        } else {
            None
        }
    }

    /// Checks the integrity of the whole chain from scratch: every digest is
    /// recomputed and every link compared.
    pub fn is_valid(&self) -> (valid: bool)
        ensures
            valid == valid_chain(self@),
    {
        if self.blocks.len() == 0 {
            return false;
        }
        let genesis = &self.blocks[0];
        assert(genesis@ == self@[0]);
        if genesis.index != 0 {
            return false;
        }
        let zero = zero_sentinel();
        if !digest_eq(&genesis.previous_hash, &zero) {
            return false;
        }
        let recomputed = genesis.calculate_hash();
        if !digest_eq(&genesis.hash, &recomputed) {
            return false;
        }
        let mut i: usize = 1;
        while i < self.blocks.len()
            invariant
                1 <= i <= self.blocks.len(),
                genesis_holds(self@),
                forall|j: int| 1 <= j < i ==> #[trigger] link_holds(self@, j),
            decreases self.blocks.len() - i,
        {
            let current = &self.blocks[i];
            let previous = &self.blocks[i - 1];
            assert(current@ == self@[i as int]);
            assert(previous@ == self@[i - 1]);
            if previous.index == u64::MAX || current.index != previous.index + 1 {
                assert(!link_holds(self@, i as int));
                return false;
            }
            if !digest_eq(&current.previous_hash, &previous.hash) {
                assert(!link_holds(self@, i as int));
                return false;
            }
            let recomputed = current.calculate_hash();
            if !digest_eq(&current.hash, &recomputed) {
                assert(!link_holds(self@, i as int));
                return false;
            }
            i += 1;
        }
        true
    }
}

impl Default for Blockchain {
    /// The default ledger is a fresh one: the genesis block alone.
    fn default() -> (chain: Blockchain)
        ensures
            chain@.len() == 1,
            chain@[0] == BlockView::genesis(chain@[0].timestamp),
            valid_chain(chain@),
    {
        Blockchain::new()
    }
}

/// Appending to a valid chain gives a valid chain, whether the append is
/// carried out or refused.
pub proof fn lemma_append_keeps_valid(
    blocks: Seq<BlockView>,
    transactions: Seq<TransactionView>,
    timestamp: u64,
)
    requires
        valid_chain(blocks),
    ensures
        match append_outcome(blocks, transactions, timestamp) {
            Ok(longer) => valid_chain(longer),
            Err(_) => true,
        },
{
    match append_outcome(blocks, transactions, timestamp) {
        Ok(longer) => {
            assert forall|i: int| 1 <= i < longer.len() implies #[trigger] link_holds(
                longer,
                i,
            ) by {
                if i < blocks.len() {
                    assert(link_holds(blocks, i));
                }
            }
        },
        Err(_) => {},
    }
}

} // verus!
