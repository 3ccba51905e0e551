//! Why an append is refused, and why bytes are not written or read.

use vstd::prelude::*;

verus! {

/// The reasons for which a block is not built or not appended.
#[derive(Debug, Clone, Copy, PartialEq, Eq, Structural)]
pub enum LedgerError {
    /// The batch holds more than `MAX_TRANSACTIONS_PER_BLOCK` transactions.
    TooManyTransactions,
    /// The ledger holds no block to link the new one to.
    EmptyChain,
    /// The index of the new block would not fit in 64 bits.
    IndexOverflow,
    /// The timestamp of the new block is not later than that of its predecessor.
    StaleTimestamp,
}

/// The reasons for which bytes are not produced from a value, or a value
/// not read from bytes.
#[derive(Debug, Clone, Copy, PartialEq, Eq, Structural)]
pub enum CodecError {
    /// The encoder reported an error. It reports none for blocks and
    /// ledgers, which can always be written.
    Encoding,
    /// The bytes do not start with the encoding of a value.
    Decoding,
}

} // verus!
