//! Transactions: records of transfer intent. The ledger keeps no account
//! state, so a transaction has no validity rule of its own.

use vstd::prelude::*;

verus! {

/// Upper bound on the number of transactions in one block.
pub const MAX_TRANSACTIONS_PER_BLOCK: usize = 10;

/// A transfer of `amount` units from one 32-byte identifier to another.
#[derive(Debug, Clone, PartialEq, Eq)]
pub struct Transaction {
    /// Identifier of the sender.
    pub from: [u8; 32],
    /// Identifier of the recipient.
    pub to: [u8; 32],
    /// Amount, in the smallest unit.
    pub amount: u64,
}

/// A transaction as plain values: the form in which it is handed to the encoder.
pub type TransactionRecord = ([u8; 32], [u8; 32], u64);

/// The mathematical value of a transaction.
pub struct TransactionView {
    pub from: Seq<u8>,
    pub to: Seq<u8>,
    pub amount: u64,
}

impl TransactionView {
    /// Both identifiers are 32 bytes long, as they are in every `Transaction`.
    pub open spec fn well_formed(self) -> bool {
        self.from.len() == 32 && self.to.len() == 32
    }
}

impl View for Transaction {
    type V = TransactionView;

    open spec fn view(&self) -> TransactionView {
        TransactionView { from: self.from@, to: self.to@, amount: self.amount }
    }
}

/// The value of a transaction given as a record.
pub open spec fn record_view(record: TransactionRecord) -> TransactionView {
    TransactionView { from: record.0@, to: record.1@, amount: record.2 }
}

/// The values of a sequence of transactions.
pub open spec fn transactions_view(transactions: Seq<Transaction>) -> Seq<TransactionView> {
    transactions.map_values(|t: Transaction| t@)
}

/// The values of a sequence of records.
pub open spec fn records_view(records: Seq<TransactionRecord>) -> Seq<TransactionView> {
    records.map_values(|r: TransactionRecord| record_view(r))
}

/// Every transaction of the sequence is well formed.
pub open spec fn all_well_formed(transactions: Seq<TransactionView>) -> bool {
    forall|i: int| 0 <= i < transactions.len() ==> (#[trigger] transactions[i]).well_formed()
}

impl Transaction {
    /// The transaction as a record of plain values.
    pub fn to_record(&self) -> (record: TransactionRecord)
        ensures
            record_view(record) == self@,
    {
        (self.from, self.to, self.amount)
    }

    /// The transaction that a record of plain values stands for.
    pub fn from_record(record: &TransactionRecord) -> (transaction: Transaction)
        ensures
            transaction@ == record_view(*record),
    {
        Transaction { from: record.0, to: record.1, amount: record.2 }
    }
}

/// Converts a batch of transactions to records, in order.
pub fn to_records(transactions: &Vec<Transaction>) -> (records: Vec<TransactionRecord>)
    ensures
        records_view(records@) == transactions_view(transactions@),
{
    let mut records: Vec<TransactionRecord> = Vec::new();
    let mut i: usize = 0;
    while i < transactions.len()
        invariant
            i <= transactions.len(),
            records.len() == i,
            forall|j: int| 0 <= j < i ==> record_view(#[trigger] records@[j]) == transactions@[j]@,
        decreases transactions.len() - i,
    {
        records.push(transactions[i].to_record());
        i += 1;
    }
    assert(records_view(records@) =~= transactions_view(transactions@));
    records
}

/// Converts records back to transactions, in order.
pub fn from_records(records: &Vec<TransactionRecord>) -> (transactions: Vec<Transaction>)
    ensures
        transactions_view(transactions@) == records_view(records@),
{
    let mut transactions: Vec<Transaction> = Vec::new();
    let mut i: usize = 0;
    while i < records.len()
        invariant
            i <= records.len(),
            transactions.len() == i,
            forall|j: int| 0 <= j < i ==> (#[trigger] transactions@[j])@ == record_view(records@[j]),
        decreases records.len() - i,
    {
        transactions.push(Transaction::from_record(&records[i]));
        i += 1;
    }
    assert(transactions_view(transactions@) =~= records_view(records@));
    transactions
}

/// The values of a batch of transactions are all well formed.
pub proof fn lemma_transactions_well_formed(transactions: Seq<Transaction>)
    ensures
        all_well_formed(transactions_view(transactions)),
{
}

} // verus!
