//! What holds of every ledger: a fresh ledger is valid, appends keep it
//! valid and orderly, the blocks of a valid chain are linked one to the
//! next, and tampering with the content of a block shows.

use crate::block::BlockView;
use crate::chain::{append_outcome, lemma_append_keeps_valid, link_holds, valid_chain};
use crate::digest::{sha256, zero_digest};
use crate::layout::lemma_content_layout_injective;
use crate::transaction::{TransactionView, MAX_TRANSACTIONS_PER_BLOCK};
use vstd::prelude::*;

verus! {

/// A batch and the time at which it is appended.
pub struct Append {
    pub transactions: Seq<TransactionView>,
    pub timestamp: u64,
}

/// The chain that results from a sequence of appends, made in order. A
/// refused append leaves the chain as it is.
pub open spec fn append_all(blocks: Seq<BlockView>, appends: Seq<Append>) -> Seq<BlockView>
    decreases appends.len(),
{
    if appends.len() == 0 {
        blocks
    } else {
        let earlier = append_all(blocks, appends.drop_last());
        match append_outcome(earlier, appends.last().transactions, appends.last().timestamp) {
            Ok(longer) => longer,
            Err(_) => earlier,
        }
    }
}

/// Every batch is within the size limit and every timestamp is later than
/// the one before it, the first later than `start`.
pub open spec fn in_order(start: u64, appends: Seq<Append>) -> bool {
    &&& forall|k: int|
        0 <= k < appends.len() ==> (#[trigger] appends[k]).transactions.len()
            <= MAX_TRANSACTIONS_PER_BLOCK
    &&& forall|k: int| 0 <= k < appends.len() ==> time_before(start, appends, k) < appends[k].timestamp
}

/// The timestamp that the append at position `k` has to exceed: that of the
/// append before it, or `start` for the first.
pub open spec fn time_before(start: u64, appends: Seq<Append>, k: int) -> u64 {
    if k == 0 {
        start
    } else {
        appends[k - 1].timestamp
    }
}

/// Timestamps strictly increase along the chain, and no block holds more
/// than `MAX_TRANSACTIONS_PER_BLOCK` transactions.
pub open spec fn orderly(blocks: Seq<BlockView>) -> bool {
    &&& forall|i: int, j: int|
        0 <= i < j < blocks.len() ==> (#[trigger] blocks[i]).timestamp < (
        #[trigger] blocks[j]).timestamp
    &&& forall|i: int|
        0 <= i < blocks.len() ==> (#[trigger] blocks[i]).transactions.len()
            <= MAX_TRANSACTIONS_PER_BLOCK
}

/// The chain in which the transactions of the block at position `i` have
/// been replaced, the stored digest left as it was.
pub open spec fn with_transactions(
    blocks: Seq<BlockView>,
    i: int,
    replacement: Seq<TransactionView>,
) -> Seq<BlockView> {
    blocks.update(
        i,
        BlockView {
            index: blocks[i].index,
            timestamp: blocks[i].timestamp,
            transactions: replacement,
            previous_hash: blocks[i].previous_hash,
            hash: blocks[i].hash,
        },
    )
}

/// A fresh ledger is valid and orderly: its one block has index 0, no
/// transactions, the zero sentinel as previous digest, and a stored digest
/// that is the digest of its content.
pub proof fn lemma_fresh_ledger_valid(timestamp: u64)
    ensures
        BlockView::genesis(timestamp).index == 0,
        BlockView::genesis(timestamp).transactions.len() == 0,
        BlockView::genesis(timestamp).previous_hash == zero_digest(),
        BlockView::genesis(timestamp).sealed(),
        valid_chain(seq![BlockView::genesis(timestamp)]),
        orderly(seq![BlockView::genesis(timestamp)]),
{
}

/// Any number of appends to a valid chain leaves it valid.
pub proof fn lemma_appends_keep_valid(blocks: Seq<BlockView>, appends: Seq<Append>)
    requires
        valid_chain(blocks),
    ensures
        valid_chain(append_all(blocks, appends)),
    decreases appends.len(),
{
    if appends.len() > 0 {
        lemma_appends_keep_valid(blocks, appends.drop_last());
        lemma_append_keeps_valid(
            append_all(blocks, appends.drop_last()),
            appends.last().transactions,
            appends.last().timestamp,
        );
    }
}

/// Any number of appends to an orderly chain leaves it orderly.
pub proof fn lemma_appends_keep_orderly(blocks: Seq<BlockView>, appends: Seq<Append>)
    requires
        orderly(blocks),
    ensures
        orderly(append_all(blocks, appends)),
    decreases appends.len(),
{
    if appends.len() > 0 {
        lemma_appends_keep_orderly(blocks, appends.drop_last());
        let earlier = append_all(blocks, appends.drop_last());
        let longer = append_all(blocks, appends);
        if longer != earlier {
            assert forall|i: int, j: int| 0 <= i < j < longer.len() implies (
            #[trigger] longer[i]).timestamp < (#[trigger] longer[j]).timestamp by {
                if j == earlier.len() && i < earlier.len() - 1 {
                    assert(earlier[i].timestamp < earlier[earlier.len() - 1].timestamp);
                }
            }
        }
    }
}

/// In a valid chain each block's index is its position.
pub proof fn lemma_index_is_position(blocks: Seq<BlockView>, i: int)
    requires
        valid_chain(blocks),
        0 <= i < blocks.len(),
    ensures
        blocks[i].index == i,
    decreases i,
{
    if i > 0 {
        lemma_index_is_position(blocks, i - 1);
        assert(link_holds(blocks, i));
    }
}

/// Appends that are in order, made to a fresh ledger, are all carried out:
/// the ledger holds one block for each after the genesis block, with the
/// transactions and the timestamp of the append, and it is valid.
pub proof fn lemma_honest_appends(start: u64, appends: Seq<Append>)
    requires
        in_order(start, appends),
        appends.len() < u64::MAX,
    ensures
        ({
            let ledger = append_all(seq![BlockView::genesis(start)], appends);
            &&& ledger.len() == appends.len() + 1
            &&& forall|k: int|
                0 <= k < appends.len() ==> (#[trigger] ledger[k + 1]).transactions
                    == appends[k].transactions && ledger[k + 1].timestamp == appends[k].timestamp
            &&& valid_chain(ledger)
            &&& orderly(ledger)
        }),
    decreases appends.len(),
{
    let fresh = seq![BlockView::genesis(start)];
    lemma_fresh_ledger_valid(start);
    lemma_appends_keep_valid(fresh, appends);
    lemma_appends_keep_orderly(fresh, appends);
    if appends.len() > 0 {
        let last = appends.len() - 1;
        let shorter = appends.drop_last();
        assert(in_order(start, shorter)) by {
            assert forall|k: int| 0 <= k < shorter.len() implies time_before(start, shorter, k)
                < shorter[k].timestamp by {
                assert(time_before(start, appends, k) < appends[k].timestamp);
            }
        }
        lemma_honest_appends(start, shorter);
        let earlier = append_all(fresh, shorter);
        lemma_index_is_position(earlier, last);
        assert(appends[last].transactions.len() <= MAX_TRANSACTIONS_PER_BLOCK);
        assert(earlier[last].timestamp == time_before(start, appends, last)) by {
            if last > 0 {
                assert(earlier[(last - 1) + 1].timestamp == shorter[last - 1].timestamp);
            }
        }
        assert(time_before(start, appends, last) < appends[last].timestamp);
        let ledger = append_all(fresh, appends);
        assert(ledger == earlier.push(
            earlier.last().successor(appends[last].transactions, appends[last].timestamp),
        ));
        assert forall|k: int| 0 <= k < appends.len() implies (#[trigger] ledger[k
            + 1]).transactions == appends[k].transactions && ledger[k + 1].timestamp
            == appends[k].timestamp by {
            if k < last {
                assert(ledger[k + 1] == earlier[k + 1]);
                assert(shorter[k] == appends[k]);
            }
        }
    }
}

/// In a valid chain every block follows the one before it: its index is one
/// more, and its previous digest is the digest stored in that block.
pub proof fn lemma_adjacent_blocks_linked(blocks: Seq<BlockView>, i: int)
    requires
        valid_chain(blocks),
        0 <= i,
        i + 1 < blocks.len(),
    ensures
        blocks[i + 1].index == blocks[i].index + 1,
        blocks[i + 1].previous_hash == blocks[i].hash,
{
    assert(link_holds(blocks, i + 1));
}

/// Replacing the transactions of any block of a valid chain, without
/// recomputing its digest, leaves a chain that is valid only if the new
/// content has the very digest that the block stores. A change of content
/// that changes the digest is therefore always detected.
pub proof fn lemma_tampering_detected(
    blocks: Seq<BlockView>,
    i: int,
    replacement: Seq<TransactionView>,
)
    requires
        valid_chain(blocks),
        0 <= i < blocks.len(),
    ensures
        valid_chain(with_transactions(blocks, i, replacement)) <==> with_transactions(
            blocks,
            i,
            replacement,
        )[i].digest() == blocks[i].digest(),
{
    let tampered = with_transactions(blocks, i, replacement);
    if i > 0 {
        assert(link_holds(blocks, i));
    }
    if tampered[i].digest() == blocks[i].digest() {
        assert forall|j: int| 1 <= j < tampered.len() implies #[trigger] link_holds(
            tampered,
            j,
        ) by {
            assert(link_holds(blocks, j));
        }
    } else {
        if i > 0 {
            assert(!link_holds(tampered, i));
        }
    }
}

/// A change of transactions that goes undetected exhibits a collision of
/// SHA-256: the bytes of the content as it was and those of the altered
/// content differ and have the same digest.
pub proof fn lemma_undetected_tampering_collides(
    blocks: Seq<BlockView>,
    i: int,
    replacement: Seq<TransactionView>,
)
    requires
        valid_chain(blocks),
        0 <= i < blocks.len(),
        blocks[i].content().well_formed(),
        with_transactions(blocks, i, replacement)[i].content().well_formed(),
        replacement != blocks[i].transactions,
        valid_chain(with_transactions(blocks, i, replacement)),
    ensures
        ({
            let stored = blocks[i].content().layout();
            let altered = with_transactions(blocks, i, replacement)[i].content().layout();
            stored != altered && sha256(stored) == sha256(altered)
        }),
{
    lemma_tampering_detected(blocks, i, replacement);
    let stored = blocks[i].content();
    let altered = with_transactions(blocks, i, replacement)[i].content();
    if stored.layout() == altered.layout() {
        lemma_content_layout_injective(stored, altered);
    }
}

} // verus!
