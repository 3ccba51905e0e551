//! Human-readable views of the ledger: a one-line summary and a listing of
//! every block. They describe the ledger and are no part of its integrity.

use crate::block::{Block, BlockView};
use crate::chain::{valid_chain, Blockchain};
use crate::transaction::{Transaction, TransactionView};
use vstd::prelude::*;
use vstd::string::*;

verus! {

/// The decimal digit for `d`, as a text of one character.
pub open spec fn decimal_digit(d: int) -> Seq<char> {
    "0123456789"@.subrange(d, d + 1)
}

/// The lower-case hexadecimal digit for `d`.
pub open spec fn hex_digit(d: int) -> char {
    "0123456789abcdef"@[d]
}

/// The decimal numeral of `n`, without sign or leading zeros.
pub open spec fn decimal_text(n: nat) -> Seq<char>
    decreases n,
{
    if n < 10 {
        decimal_digit(n as int)
    } else {
        decimal_text(n / 10) + decimal_digit((n % 10) as int)
    }
}

/// Two lower-case hexadecimal digits for each byte, the high half first.
pub open spec fn hex_text(bytes: Seq<u8>) -> Seq<char>
    decreases bytes.len(),
{
    if bytes.len() == 0 {
        Seq::empty()
    } else {
        hex_text(bytes.drop_last()).push(hex_digit(bytes.last() as int / 16)).push(
            hex_digit(bytes.last() as int % 16),
        )
    }
}

/// The word for a truth value.
pub open spec fn bool_text(b: bool) -> Seq<char> {
    if b {
        "true"@
    } else {
        "false"@
    }
}

/// The summary of a ledger: the number of blocks, whether the chain is
/// valid, and the first ten hexadecimal digits of the last block's digest.
pub open spec fn chain_info_text(blocks: Seq<BlockView>) -> Seq<char> {
    "Блоков: "@ + decimal_text(blocks.len()) + ", Валидно: "@ + bool_text(valid_chain(blocks))
        + ", Последний хеш: "@ + hex_text(blocks.last().hash).take(10)
}

/// The line that lists one transaction.
pub open spec fn transaction_line(transaction: TransactionView) -> Seq<char> {
    "  "@ + hex_text(transaction.from) + " → "@ + hex_text(transaction.to) + " : "@
        + decimal_text(transaction.amount as nat) + "\n"@
}

/// The lines that list the transactions of a batch, in order.
pub open spec fn transaction_lines(transactions: Seq<TransactionView>) -> Seq<char>
    decreases transactions.len(),
{
    if transactions.len() == 0 {
        Seq::empty()
    } else {
        transaction_lines(transactions.drop_last()) + transaction_line(transactions.last())
    }
}

/// The lines that list the transactions of a block, or a line that says
/// that it has none.
pub open spec fn batch_text(transactions: Seq<TransactionView>) -> Seq<char> {
    if transactions.len() == 0 {
        "  (нет транзакций)\n"@
    } else {
        transaction_lines(transactions)
    }
}

/// The lines that list one block, closed by an empty line.
pub open spec fn block_text(block: BlockView) -> Seq<char> {
    "--- Block "@ + decimal_text(block.index as nat) + " ---\n"@
        + "Timestamp: "@ + decimal_text(block.timestamp as nat) + "\n"@
        + "Hash: "@ + hex_text(block.hash) + "\n"@
        + "Transactions:\n"@
        + batch_text(block.transactions)
        + "Prev: "@ + hex_text(block.previous_hash) + "\n"@
        + "\n"@
}

/// The listing of a whole chain, block after block.
pub open spec fn chain_text(blocks: Seq<BlockView>) -> Seq<char>
    decreases blocks.len(),
{
    if blocks.len() == 0 {
        Seq::empty()
    } else {
        chain_text(blocks.drop_last()) + block_text(blocks.last())
    }
}

/// Encodes bytes in hexadecimal with `hex::encode`.
///
/// Trusted: the text holds two digits for each byte, the high half first,
/// taken from `0123456789abcdef`.
#[verifier::external_body]
fn hex_encode(bytes: &[u8]) -> (text: String)
    ensures
        text@ == hex_text(bytes@),
{
    hex::encode(bytes)
}

/// The hexadecimal text of `n` bytes has `2 * n` digits.
pub proof fn lemma_hex_text_len(bytes: Seq<u8>)
    ensures
        hex_text(bytes).len() == 2 * bytes.len(),
    decreases bytes.len(),
{
    if bytes.len() > 0 {
        lemma_hex_text_len(bytes.drop_last());
    }
}

/// Writes a number in decimal.
pub fn decimal(n: u64) -> (text: String)
    ensures
        text@ == decimal_text(n as nat),
    decreases n,
{
    let digits = "0123456789";
    proof {
        reveal_strlit("0123456789");
    }
    let last = (n % 10) as usize;
    if n < 10 {
        String::from_str(digits.substring_char(last, last + 1))
    } else {
        let mut text = decimal(n / 10);
        text.append(digits.substring_char(last, last + 1));
        text
    }
}

/// Writes the line that lists one transaction.
fn transaction_listing(transaction: &Transaction) -> (text: String)
    ensures
        text@ == transaction_line(transaction@),
{
    let mut text = String::from_str("  ");
    text.append(hex_encode(transaction.from.as_slice()).as_str());
    text.append(" → ");
    text.append(hex_encode(transaction.to.as_slice()).as_str());
    text.append(" : ");
    text.append(decimal(transaction.amount).as_str());
    text.append("\n");
    text
}

/// Writes the lines that list one block.
fn block_listing(block: &Block) -> (text: String)
    ensures
        text@ == block_text(block@),
{
    let mut text = String::from_str("--- Block ");
    text.append(decimal(block.index).as_str());
    text.append(" ---\n");
    text.append("Timestamp: ");
    text.append(decimal(block.timestamp).as_str());
    text.append("\n");
    text.append("Hash: ");
    text.append(hex_encode(block.hash.as_slice()).as_str());
    text.append("\n");
    text.append("Transactions:\n");
    if block.transactions.len() == 0 {
        text.append("  (нет транзакций)\n");
    } else {
        let mut lines = String::new();
        let mut i: usize = 0;
        while i < block.transactions.len()
            invariant
                i <= block.transactions.len(),
                lines@ == transaction_lines(block@.transactions.take(i as int)),
            decreases block.transactions.len() - i,
        {
            assert(block@.transactions.take(i + 1).drop_last() =~= block@.transactions.take(
                i as int,
            ));
            lines.append(transaction_listing(&block.transactions[i]).as_str());
            i += 1;
        }
        assert(block@.transactions.take(i as int) =~= block@.transactions);
        text.append(lines.as_str());
    }
    text.append("Prev: ");
    text.append(hex_encode(block.previous_hash.as_slice()).as_str());
    text.append("\n");
    text.append("\n");
    text
}

impl Blockchain {
    /// The summary of the ledger in one line.
    ///
    /// The ledger must hold a block: the summary shows the digest of the
    /// last one.
    pub fn get_chain_info(&self) -> (info: String)
        requires
            self.blocks.len() > 0,
        ensures
            info@ == chain_info_text(self@),
    {
        let last_block = &self.blocks[self.blocks.len() - 1];
        assert(last_block@ == self@.last());
        let mut info = String::from_str("Блоков: ");
        info.append(decimal(self.blocks.len() as u64).as_str());
        info.append(", Валидно: ");
        info.append(
            if self.is_valid() {
                "true"
            } else {
                "false"
            },
        );
        info.append(", Последний хеш: ");
        let digest = hex_encode(last_block.hash.as_slice());
        proof {
            lemma_hex_text_len(last_block.hash@);
        }
        info.append(digest.as_str().substring_char(0, 10));
        info
    }

    /// The listing of every block of the ledger: index, timestamp, digest,
    /// transactions and previous digest, one per line.
    pub fn chain_listing(&self) -> (text: String)
        ensures
            text@ == chain_text(self@),
    {
        let mut text = String::new();
        let mut i: usize = 0;
        while i < self.blocks.len()
            invariant
                i <= self.blocks.len(),
                text@ == chain_text(self@.take(i as int)),
            decreases self.blocks.len() - i,
        {
            assert(self@.take(i + 1).drop_last() =~= self@.take(i as int));
            text.append(block_listing(&self.blocks[i]).as_str());
            i += 1;
        }
        assert(self@.take(i as int) =~= self@);
        text
    }
}

} // verus!
