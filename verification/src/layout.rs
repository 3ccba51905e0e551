//! The canonical byte layout of block content, blocks and chains.
//!
//! Integers are written as eight little-endian bytes, identifiers and digests
//! as their thirty-two bytes, a sequence as its length (eight bytes) followed
//! by its elements, and the fields of a record one after another. The spec
//! functions of this module say so; the encoder itself is `bincode`.

use crate::transaction::{all_well_formed, records_view, TransactionRecord, TransactionView};
use vstd::bytes::{
    lemma_auto_spec_u64_to_from_le_bytes, spec_u64_from_le_bytes, spec_u64_to_le_bytes,
};
use vstd::prelude::*;

verus! {

/// Bytes of an integer: eight of them, the least significant first.
pub open spec fn integer_layout(value: u64) -> Seq<u8> {
    spec_u64_to_le_bytes(value)
}

/// Number of bytes that one transaction takes.
pub open spec fn transaction_width() -> nat {
    72
}

/// Bytes of one transaction: sender, recipient, amount.
pub open spec fn transaction_layout(transaction: TransactionView) -> Seq<u8> {
    transaction.from + transaction.to + integer_layout(transaction.amount)
}

/// Bytes of the transactions of a batch, one after another, without a length.
pub open spec fn transactions_layout(transactions: Seq<TransactionView>) -> Seq<u8>
    decreases transactions.len(),
{
    if transactions.len() == 0 {
        Seq::empty()
    } else {
        transactions_layout(transactions.drop_last()) + transaction_layout(transactions.last())
    }
}

/// What the digest of a block covers: every field of the block but the
/// digest itself.
pub struct BlockContent {
    pub index: u64,
    pub timestamp: u64,
    pub transactions: Seq<TransactionView>,
    pub previous_hash: Seq<u8>,
}

impl BlockContent {
    /// The previous digest has thirty-two bytes, every identifier too, and
    /// the number of transactions fits in a length.
    pub open spec fn well_formed(self) -> bool {
        &&& all_well_formed(self.transactions)
        &&& self.transactions.len() <= usize::MAX
        &&& self.previous_hash.len() == 32
    }

    /// The canonical bytes of the content: index, timestamp, the number of
    /// transactions, the transactions, the previous digest.
    pub open spec fn layout(self) -> Seq<u8> {
        integer_layout(self.index) + integer_layout(self.timestamp) + integer_layout(
            self.transactions.len() as u64,
        ) + transactions_layout(self.transactions) + self.previous_hash
    }
}

/// The content made of the given fields.
pub open spec fn content_of(
    index: u64,
    timestamp: u64,
    transactions: Seq<TransactionView>,
    previous_hash: Seq<u8>,
) -> BlockContent {
    BlockContent { index, timestamp, transactions, previous_hash }
}

#[verifier::external_type_specification]
#[verifier::external_body]
pub struct ExErrorKind(bincode::ErrorKind);

/// Encodes block content with `bincode::serialize`, applied to the tuple
/// `(index, timestamp, transactions, previous_hash)`.
///
/// Trusted: in the configuration of `bincode::serialize` (fixed-width
/// little-endian integers) a tuple is written field by field, a `u64` as
/// eight little-endian bytes, a byte array as its bytes, and a `Vec` as its
/// length in eight bytes followed by its elements. The call succeeds: the
/// encoder reports an error only for a size limit, a sequence of unknown
/// length or a failing writer, and here no limit is set, a `Vec` knows its
/// length and the bytes are written into a `Vec`.
#[verifier::external_body]
pub(crate) fn encode_content(
    index: u64,
    timestamp: u64,
    transactions: &Vec<TransactionRecord>,
    previous_hash: &[u8; 32],
) -> (encoded: Result<Vec<u8>, Box<bincode::ErrorKind>>)
    ensures
        encoded is Ok,
        encoded matches Ok(bytes) ==> bytes@ == content_of(
            index,
            timestamp,
            records_view(transactions@),
            previous_hash@,
        ).layout(),
{
    bincode::serialize(&(index, timestamp, transactions, previous_hash))
}

/// Eight little-endian bytes determine the integer.
pub proof fn lemma_integer_bytes_injective(a: u64, b: u64)
    requires
        integer_layout(a) == integer_layout(b),
    ensures
        a == b,
{
    lemma_auto_spec_u64_to_from_le_bytes();
    assert(spec_u64_from_le_bytes(spec_u64_to_le_bytes(a)) == a);
    assert(spec_u64_from_le_bytes(spec_u64_to_le_bytes(b)) == b);
}

/// An integer takes eight bytes.
pub proof fn lemma_integer_bytes_len(a: u64)
    ensures
        integer_layout(a).len() == 8,
{
    lemma_auto_spec_u64_to_from_le_bytes();
}

/// Two byte strings that start the same text and have the same length are
/// the same.
pub proof fn lemma_prefixes_of_equal_len(a: Seq<u8>, b: Seq<u8>, text: Seq<u8>)
    requires
        a.is_prefix_of(text),
        b.is_prefix_of(text),
        a.len() == b.len(),
    ensures
        a == b,
{
    assert(a =~= b);
}

/// If a concatenation starts a text, its first part starts the text and its
/// second part starts what follows.
pub proof fn lemma_prefix_split(a: Seq<u8>, b: Seq<u8>, text: Seq<u8>)
    requires
        (a + b).is_prefix_of(text),
    ensures
        a.is_prefix_of(text),
        b.is_prefix_of(text.skip(a.len() as int)),
{
    let joined = a + b;
    assert forall|i: int| 0 <= i < a.len() implies a[i] == text[i] by {
        assert(joined[i] == text.subrange(0, joined.len() as int)[i]);
    }
    assert(a =~= text.subrange(0, a.len() as int));
    assert forall|i: int| 0 <= i < b.len() implies b[i] == text.skip(a.len() as int)[i] by {
        assert(joined[a.len() + i] == text.subrange(0, joined.len() as int)[a.len() + i]);
    }
    assert(b =~= text.skip(a.len() as int).subrange(0, b.len() as int));
}

/// A well-formed transaction takes seventy-two bytes.
pub proof fn lemma_transaction_layout_len(transaction: TransactionView)
    requires
        transaction.well_formed(),
    ensures
        transaction_layout(transaction).len() == transaction_width(),
{
    lemma_integer_bytes_len(transaction.amount);
}

/// The bytes of a well-formed transaction determine it.
pub proof fn lemma_transaction_layout_injective(a: TransactionView, b: TransactionView)
    requires
        a.well_formed(),
        b.well_formed(),
        transaction_layout(a) == transaction_layout(b),
    ensures
        a == b,
{
    lemma_integer_bytes_len(a.amount);
    lemma_integer_bytes_len(b.amount);
    let text = transaction_layout(a);
    lemma_prefix_split(a.from + a.to, integer_layout(a.amount), text);
    lemma_prefix_split(b.from + b.to, integer_layout(b.amount), text);
    lemma_prefixes_of_equal_len(
        integer_layout(a.amount),
        integer_layout(b.amount),
        text.skip(64),
    );
    lemma_integer_bytes_injective(a.amount, b.amount);
    lemma_prefixes_of_equal_len(a.from + a.to, b.from + b.to, text);
    let both = a.from + a.to;
    lemma_prefix_split(a.from, a.to, both);
    lemma_prefix_split(b.from, b.to, both);
    lemma_prefixes_of_equal_len(a.from, b.from, both);
    lemma_prefixes_of_equal_len(a.to, b.to, both.skip(32));
}

/// A batch of well-formed transactions takes seventy-two bytes for each.
pub proof fn lemma_transactions_layout_len(transactions: Seq<TransactionView>)
    requires
        all_well_formed(transactions),
    ensures
        transactions_layout(transactions).len() == transaction_width() * transactions.len(),
    decreases transactions.len(),
{
    if transactions.len() > 0 {
        lemma_transactions_layout_len(transactions.drop_last());
        lemma_transaction_layout_len(transactions.last());
    }
}

/// The bytes of a batch of well-formed transactions, together with their
/// number, determine the batch.
pub proof fn lemma_transactions_layout_injective(
    a: Seq<TransactionView>,
    b: Seq<TransactionView>,
)
    requires
        all_well_formed(a),
        all_well_formed(b),
        a.len() == b.len(),
        transactions_layout(a) == transactions_layout(b),
    ensures
        a == b,
    decreases a.len(),
{
    if a.len() > 0 {
        let text = transactions_layout(a);
        lemma_transactions_layout_len(a.drop_last());
        lemma_transactions_layout_len(b.drop_last());
        lemma_prefix_split(transactions_layout(a.drop_last()), transaction_layout(a.last()), text);
        lemma_prefix_split(transactions_layout(b.drop_last()), transaction_layout(b.last()), text);
        lemma_prefixes_of_equal_len(
            transactions_layout(a.drop_last()),
            transactions_layout(b.drop_last()),
            text,
        );
        lemma_transactions_layout_injective(a.drop_last(), b.drop_last());
        lemma_transaction_layout_len(a.last());
        lemma_transaction_layout_len(b.last());
        lemma_prefixes_of_equal_len(
            transaction_layout(a.last()),
            transaction_layout(b.last()),
            text.skip(transactions_layout(a.drop_last()).len() as int),
        );
        lemma_transaction_layout_injective(a.last(), b.last());
        assert(a =~= a.drop_last().push(a.last()));
        assert(b =~= b.drop_last().push(b.last()));
    } else {
        assert(a =~= b);
    }
}

/// Block content can be read back from the start of a text in one way only:
/// if the bytes of two well-formed contents both start the same text, the
/// contents are the same.
pub proof fn lemma_content_layout_unique(a: BlockContent, b: BlockContent, text: Seq<u8>)
    requires
        a.well_formed(),
        b.well_formed(),
        a.layout().is_prefix_of(text),
        b.layout().is_prefix_of(text),
    ensures
        a == b,
{
    let count_a = a.transactions.len() as u64;
    let count_b = b.transactions.len() as u64;
    lemma_integer_bytes_len(a.index);
    lemma_integer_bytes_len(b.index);
    lemma_integer_bytes_len(a.timestamp);
    lemma_integer_bytes_len(b.timestamp);
    lemma_integer_bytes_len(count_a);
    lemma_integer_bytes_len(count_b);
    let stamps_a = integer_layout(a.index) + integer_layout(a.timestamp);
    let stamps_b = integer_layout(b.index) + integer_layout(b.timestamp);
    let head_a = stamps_a + integer_layout(count_a);
    let head_b = stamps_b + integer_layout(count_b);
    let body_a = head_a + transactions_layout(a.transactions);
    let body_b = head_b + transactions_layout(b.transactions);
    lemma_prefix_split(body_a, a.previous_hash, text);
    lemma_prefix_split(body_b, b.previous_hash, text);
    lemma_prefix_split(head_a, transactions_layout(a.transactions), text);
    lemma_prefix_split(head_b, transactions_layout(b.transactions), text);
    lemma_prefixes_of_equal_len(head_a, head_b, text);
    lemma_prefix_split(stamps_a, integer_layout(count_a), head_a);
    lemma_prefix_split(stamps_b, integer_layout(count_b), head_a);
    lemma_prefixes_of_equal_len(integer_layout(count_a), integer_layout(count_b), head_a.skip(16));
    lemma_integer_bytes_injective(count_a, count_b);
    lemma_prefixes_of_equal_len(stamps_a, stamps_b, head_a);
    lemma_prefix_split(integer_layout(a.index), integer_layout(a.timestamp), stamps_a);
    lemma_prefix_split(integer_layout(b.index), integer_layout(b.timestamp), stamps_a);
    lemma_prefixes_of_equal_len(integer_layout(a.index), integer_layout(b.index), stamps_a);
    lemma_prefixes_of_equal_len(
        integer_layout(a.timestamp),
        integer_layout(b.timestamp),
        stamps_a.skip(8),
    );
    lemma_integer_bytes_injective(a.index, b.index);
    lemma_integer_bytes_injective(a.timestamp, b.timestamp);
    lemma_transactions_layout_len(a.transactions);
    lemma_transactions_layout_len(b.transactions);
    lemma_prefixes_of_equal_len(
        transactions_layout(a.transactions),
        transactions_layout(b.transactions),
        text.skip(24),
    );
    lemma_transactions_layout_injective(a.transactions, b.transactions);
    lemma_prefixes_of_equal_len(a.previous_hash, b.previous_hash, text.skip(body_a.len() as int));
}

/// The canonical encoding is injective: well-formed contents with the same
/// bytes are the same content.
pub proof fn lemma_content_layout_injective(a: BlockContent, b: BlockContent)
    requires
        a.well_formed(),
        b.well_formed(),
        a.layout() == b.layout(),
    ensures
        a == b,
{
    let text = a.layout();
    assert(text.is_prefix_of(text)) by {
        assert(text =~= text.subrange(0, text.len() as int));
    }
    lemma_content_layout_unique(a, b, text);
}

} // verus!
