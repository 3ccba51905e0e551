//! Blocks and ledgers as bytes, and back.
//!
//! A block is written as its content followed by its stored digest, a ledger
//! as the number of its blocks followed by the blocks. Reading takes a value
//! from the start of the bytes and ignores what follows it.

use crate::block::{Block, BlockView};
use crate::chain::Blockchain;
use crate::error::CodecError;
use crate::layout::{
    integer_layout, lemma_content_layout_unique, lemma_integer_bytes_injective,
    lemma_integer_bytes_len, lemma_prefix_split, lemma_prefixes_of_equal_len,
};
use crate::transaction::{
    from_records, lemma_transactions_well_formed, records_view, to_records, TransactionRecord,
};
use vstd::prelude::*;

verus! {

/// A block as plain values: the form in which it is handed to the encoder
/// and taken from the decoder.
pub type BlockRecord = (u64, u64, Vec<TransactionRecord>, [u8; 32], [u8; 32]);

/// The value of a block given as a record.
pub open spec fn block_record_view(record: BlockRecord) -> BlockView {
    BlockView {
        index: record.0,
        timestamp: record.1,
        transactions: records_view(record.2@),
        previous_hash: record.3@,
        hash: record.4@,
    }
}

/// The values of a sequence of block records.
pub open spec fn block_records_view(records: Seq<BlockRecord>) -> Seq<BlockView> {
    records.map_values(|r: BlockRecord| block_record_view(r))
}

/// The block's content is well formed and its digest has thirty-two bytes,
/// as is the case of the value of every `Block`.
pub open spec fn block_well_formed(block: BlockView) -> bool {
    block.content().well_formed() && block.hash.len() == 32
}

/// Every block of the sequence is well formed, and their number fits in a
/// length.
pub open spec fn blocks_well_formed(blocks: Seq<BlockView>) -> bool {
    &&& blocks.len() <= usize::MAX
    &&& forall|i: int| 0 <= i < blocks.len() ==> block_well_formed(#[trigger] blocks[i])
}

/// Bytes of a block: its content, then its stored digest.
pub open spec fn block_layout(block: BlockView) -> Seq<u8> {
    block.content().layout() + block.hash
}

/// Bytes of the blocks of a sequence, one after another, without a length.
pub open spec fn blocks_layout(blocks: Seq<BlockView>) -> Seq<u8>
    decreases blocks.len(),
{
    if blocks.len() == 0 {
        Seq::empty()
    } else {
        blocks_layout(blocks.drop_last()) + block_layout(blocks.last())
    }
}

/// Bytes of a ledger: the number of blocks, then the blocks.
pub open spec fn chain_layout(blocks: Seq<BlockView>) -> Seq<u8> {
    integer_layout(blocks.len() as u64) + blocks_layout(blocks)
}

/// `bytes` start with the encoding of the well-formed `block`.
pub open spec fn decodes_block(bytes: Seq<u8>, block: BlockView) -> bool {
    block_well_formed(block) && block_layout(block).is_prefix_of(bytes)
}

/// `bytes` start with the encoding of the ledger made of the well-formed
/// `blocks`.
pub open spec fn decodes_chain(bytes: Seq<u8>, blocks: Seq<BlockView>) -> bool {
    blocks_well_formed(blocks) && chain_layout(blocks).is_prefix_of(bytes)
}

/// Encodes a block with `bincode::serialize`, applied to the tuple of its
/// fields.
///
/// Trusted: the call succeeds, as it does in `encode_content`, and the bytes
/// are the fields in order, each written as `encode_content` writes it, the
/// stored digest last.
#[verifier::external_body]
fn encode_block(record: &BlockRecord) -> (encoded: Result<Vec<u8>, Box<bincode::ErrorKind>>)
    ensures
        encoded is Ok,
        encoded matches Ok(bytes) ==> bytes@ == block_layout(block_record_view(*record)),
{
    bincode::serialize(record)
}

/// Encodes a ledger with `bincode::serialize`, applied to the `Vec` of its
/// blocks' tuples.
///
/// Trusted: the call succeeds, as it does in `encode_content`, and the bytes
/// are the number of blocks in eight little-endian bytes, then each block as
/// `encode_block` writes it.
#[verifier::external_body]
fn encode_chain(records: &Vec<BlockRecord>) -> (encoded: Result<Vec<u8>, Box<bincode::ErrorKind>>)
    ensures
        encoded is Ok,
        encoded matches Ok(bytes) ==> bytes@ == chain_layout(block_records_view(records@)),
{
    bincode::serialize(records)
}

/// Decodes a block with `bincode::deserialize`, which reads the tuple of its
/// fields from the start of `bytes` and allows bytes to follow.
///
/// Trusted: the decoder reads what the encoder writes. When it succeeds,
/// the encoding of the block that it returns is the start of `bytes`; it
/// fails only if it runs out of bytes, so that `bytes` start with the
/// encoding of no block at all.
#[verifier::external_body]
fn decode_block(bytes: &[u8]) -> (decoded: Result<BlockRecord, Box<bincode::ErrorKind>>)
    ensures
        decoded matches Ok(record) ==> block_layout(block_record_view(record)).is_prefix_of(
            bytes@,
        ),
        decoded is Err ==> forall|block: BlockView| !decodes_block(bytes@, block),
{
    bincode::deserialize(bytes)
}

/// Decodes a ledger with `bincode::deserialize`, which reads the `Vec` of
/// its blocks' tuples from the start of `bytes` and allows bytes to follow.
///
/// Trusted: as for `decode_block`, with the number of blocks read first.
#[verifier::external_body]
fn decode_chain(bytes: &[u8]) -> (decoded: Result<Vec<BlockRecord>, Box<bincode::ErrorKind>>)
    ensures
        decoded matches Ok(records) ==> chain_layout(block_records_view(records@)).is_prefix_of(
            bytes@,
        ),
        decoded is Err ==> forall|blocks: Seq<BlockView>| !decodes_chain(bytes@, blocks),
{
    bincode::deserialize(bytes)
}

impl Block {
    /// The block as a record of plain values.
    pub fn to_record(&self) -> (record: BlockRecord)
        ensures
            block_record_view(record) == self@,
    {
        (
            self.index,
            self.timestamp,
            to_records(&self.transactions),
            self.previous_hash,
            self.hash,
        )
    }

    /// The block that a record of plain values stands for.
    pub fn from_record(record: &BlockRecord) -> (block: Block)
        ensures
            block@ == block_record_view(*record),
    {
        Block {
            index: record.0,
            timestamp: record.1,
            transactions: from_records(&record.2),
            previous_hash: record.3,
            hash: record.4,
        }
    }
}

/// The value of every block is well formed.
pub proof fn lemma_block_view_well_formed(block: Block)
    ensures
        block_well_formed(block@),
{
    lemma_transactions_well_formed(block.transactions@);
    assert(block.transactions@.len() == block.transactions.len());
}

/// The value of every ledger is made of well-formed blocks.
pub proof fn lemma_chain_view_well_formed(chain: Blockchain)
    ensures
        blocks_well_formed(chain@),
{
    assert forall|i: int| 0 <= i < chain@.len() implies block_well_formed(#[trigger] chain@[i]) by {
        lemma_block_view_well_formed(chain.blocks@[i]);
    }
    assert(chain.blocks@.len() == chain.blocks.len());
}

/// Writes a block as bytes. Every block can be written.
pub fn serialize_block(block: &Block) -> (encoded: Result<Vec<u8>, CodecError>)
    ensures
        encoded matches Ok(bytes) && bytes@ == block_layout(block@),
{
    let record = block.to_record();
    match encode_block(&record) {
        Ok(bytes) => Ok(bytes),
        Err(_) => Err(CodecError::Encoding),
    }
}

/// Reads a block from the start of `bytes`.
///
/// The block is the one whose encoding the bytes start with; there is at
/// most one. Without one, reading fails.
pub fn deserialize_block(bytes: &[u8]) -> (decoded: Result<Block, CodecError>)
    ensures
        match decoded {
            Ok(block) => decodes_block(bytes@, block@),
            Err(reason) => reason == CodecError::Decoding && forall|block: BlockView|
                !decodes_block(bytes@, block),
        },
{
    match decode_block(bytes) {
        Ok(record) => {
            let block = Block::from_record(&record);
            proof {
                lemma_block_view_well_formed(block);
            }
            Ok(block)
        },
        Err(_) => Err(CodecError::Decoding),
    }
}

/// Writes a ledger as bytes. Every ledger can be written, valid or not.
pub fn serialize_blockchain(chain: &Blockchain) -> (encoded: Result<Vec<u8>, CodecError>)
    ensures
        encoded matches Ok(bytes) && bytes@ == chain_layout(chain@),
{
    let mut records: Vec<BlockRecord> = Vec::new();
    let mut i: usize = 0;
    while i < chain.blocks.len()
        invariant
            i <= chain.blocks.len(),
            records.len() == i,
            forall|j: int| 0 <= j < i ==> block_record_view(#[trigger] records@[j]) == chain@[j],
        decreases chain.blocks.len() - i,
    {
        records.push(chain.blocks[i].to_record());
        i += 1;
    }
    assert(block_records_view(records@) =~= chain@);
    match encode_chain(&records) {
        Ok(bytes) => Ok(bytes),
        Err(_) => Err(CodecError::Encoding),
    }
}

/// Reads a ledger from the start of `bytes`.
///
/// The ledger is the one whose encoding the bytes start with; there is at
/// most one. Without one, reading fails. What is read is not checked for
/// integrity: that is what `is_valid` is for.
pub fn deserialize_blockchain(bytes: &[u8]) -> (decoded: Result<Blockchain, CodecError>)
    ensures
        match decoded {
            Ok(chain) => decodes_chain(bytes@, chain@),
            Err(reason) => reason == CodecError::Decoding && forall|blocks: Seq<BlockView>|
                !decodes_chain(bytes@, blocks),
        },
{
    match decode_chain(bytes) {
        Ok(records) => {
            let mut blocks: Vec<Block> = Vec::new();
            let mut i: usize = 0;
            while i < records.len()
                invariant
                    i <= records.len(),
                    blocks.len() == i,
                    forall|j: int|
                        0 <= j < i ==> (#[trigger] blocks@[j])@ == block_record_view(records@[j]),
                decreases records.len() - i,
            {
                blocks.push(Block::from_record(&records[i]));
                i += 1;
            }
            let chain = Blockchain { blocks };
            assert(chain@ =~= block_records_view(records@));
            proof {
                lemma_chain_view_well_formed(chain);
            }
            Ok(chain)
        },
        Err(_) => Err(CodecError::Decoding),
    }
}

/// A block can be read from the start of a text in one way only.
pub proof fn lemma_block_decoding_unique(text: Seq<u8>, a: BlockView, b: BlockView)
    requires
        decodes_block(text, a),
        decodes_block(text, b),
    ensures
        a == b,
{
    lemma_prefix_split(a.content().layout(), a.hash, text);
    lemma_prefix_split(b.content().layout(), b.hash, text);
    lemma_content_layout_unique(a.content(), b.content(), text);
    lemma_prefixes_of_equal_len(a.hash, b.hash, text.skip(a.content().layout().len() as int));
}

/// The blocks of a sequence of known length can be read from the start of a
/// text in one way only.
pub proof fn lemma_blocks_layout_unique(text: Seq<u8>, a: Seq<BlockView>, b: Seq<BlockView>)
    requires
        blocks_well_formed(a),
        blocks_well_formed(b),
        a.len() == b.len(),
        blocks_layout(a).is_prefix_of(text),
        blocks_layout(b).is_prefix_of(text),
    ensures
        a == b,
    decreases a.len(),
{
    if a.len() > 0 {
        lemma_prefix_split(blocks_layout(a.drop_last()), block_layout(a.last()), text);
        lemma_prefix_split(blocks_layout(b.drop_last()), block_layout(b.last()), text);
        lemma_blocks_layout_unique(text, a.drop_last(), b.drop_last());
        lemma_block_decoding_unique(
            text.skip(blocks_layout(a.drop_last()).len() as int),
            a.last(),
            b.last(),
        );
        assert(a =~= a.drop_last().push(a.last()));
        assert(b =~= b.drop_last().push(b.last()));
    } else {
        assert(a =~= b);
    }
}

/// A ledger can be read from the start of a text in one way only.
pub proof fn lemma_chain_decoding_unique(text: Seq<u8>, a: Seq<BlockView>, b: Seq<BlockView>)
    requires
        decodes_chain(text, a),
        decodes_chain(text, b),
    ensures
        a == b,
{
    let count_a = integer_layout(a.len() as u64);
    let count_b = integer_layout(b.len() as u64);
    lemma_integer_bytes_len(a.len() as u64);
    lemma_integer_bytes_len(b.len() as u64);
    lemma_prefix_split(count_a, blocks_layout(a), text);
    lemma_prefix_split(count_b, blocks_layout(b), text);
    lemma_prefixes_of_equal_len(count_a, count_b, text);
    lemma_integer_bytes_injective(a.len() as u64, b.len() as u64);
    lemma_blocks_layout_unique(text.skip(8), a, b);
}

/// Writing a block and reading the bytes back gives the block: its bytes
/// decode, and they decode to nothing else. Bytes that follow change
/// nothing.
pub proof fn lemma_block_round_trip(block: BlockView, trailing: Seq<u8>, decoded: BlockView)
    requires
        block_well_formed(block),
    ensures
        decodes_block(block_layout(block) + trailing, block),
        decodes_block(block_layout(block) + trailing, decoded) ==> decoded == block,
{
    let text = block_layout(block) + trailing;
    assert(block_layout(block) =~= text.subrange(0, block_layout(block).len() as int));
    if decodes_block(text, decoded) {
        lemma_block_decoding_unique(text, block, decoded);
    }
}

/// Writing a ledger and reading the bytes back gives the ledger, block for
/// block: its bytes decode, and they decode to nothing else. Bytes that
/// follow change nothing.
pub proof fn lemma_chain_round_trip(
    blocks: Seq<BlockView>,
    trailing: Seq<u8>,
    decoded: Seq<BlockView>,
)
    requires
        blocks_well_formed(blocks),
    ensures
        decodes_chain(chain_layout(blocks) + trailing, blocks),
        decodes_chain(chain_layout(blocks) + trailing, decoded) ==> decoded == blocks,
{
    let text = chain_layout(blocks) + trailing;
    assert(chain_layout(blocks) =~= text.subrange(0, chain_layout(blocks).len() as int));
    if decodes_chain(text, decoded) {
        lemma_chain_decoding_unique(text, blocks, decoded);
    }
}

} // verus!
