//! The admission rule: a single round of voting among a fixed set of peers.
//! A batch is appended only if the approvals strictly exceed half of the
//! peers, rounded up.

use crate::block::BlockView;
use crate::chain::{append_outcome, appended_at, refusal, valid_chain, Blockchain};
use crate::error::LedgerError;
use crate::transaction::{transactions_view, Transaction, TransactionView};
use vstd::prelude::*;

verus! {

/// Identifier of a peer.
pub type PeerId = u32;

/// A voting participant. The honesty flag is recorded and has no effect on
/// the vote.
#[derive(Debug, Clone)]
pub struct Peer {
    pub id: PeerId,
    pub is_honest: bool,
}

impl Peer {
    /// A peer with the given identifier, marked honest.
    pub fn new(id: PeerId) -> (peer: Peer)
        ensures
            peer.id == id,
            peer.is_honest,
    {
        Peer { id, is_honest: true }
    }

    /// The vote of this peer on a batch: every peer approves every batch.
    pub open spec fn approves(self, transactions: Seq<TransactionView>) -> bool {
        true
    }

    /// Casts this peer's vote on a batch.
    pub fn vote_for_transaction(&self, _transactions: &[Transaction]) -> (vote: bool)
        ensures
            vote == self.approves(transactions_view(_transactions@)),
    {
        true
    }
}

/// The number of peers, among `peers`, that approve the batch.
pub open spec fn approvals(peers: Seq<Peer>, transactions: Seq<TransactionView>) -> nat
    decreases peers.len(),
{
    if peers.len() == 0 {
        0
    } else {
        approvals(peers.drop_last(), transactions) + if peers.last().approves(transactions) {
            1nat
        } else {
            0nat
        }
    }
}

/// Half of the peers, rounded up.
pub open spec fn majority_threshold(peer_count: nat) -> nat {
    (peer_count + 1) / 2
}

/// The batch is admitted: there is at least one peer, and the approvals
/// strictly exceed the threshold.
pub open spec fn admitted(peers: Seq<Peer>, transactions: Seq<TransactionView>) -> bool {
    peers.len() > 0 && approvals(peers, transactions) > majority_threshold(peers.len())
}

/// A proposal made at `timestamp` that reported `outcome` took the ledger
/// from `before` to `after`: a rejected batch changes nothing, an admitted
/// one is appended as the ledger's rules allow.
pub open spec fn proposed_at(
    peers: Seq<Peer>,
    before: Seq<BlockView>,
    transactions: Seq<TransactionView>,
    timestamp: u64,
    outcome: Result<bool, LedgerError>,
    after: Seq<BlockView>,
) -> bool {
    if !admitted(peers, transactions) {
        outcome == Ok::<bool, LedgerError>(false) && after == before
    } else {
        match append_outcome(before, transactions, timestamp) {
            Ok(longer) => outcome == Ok::<bool, LedgerError>(true) && after == longer,
            Err(reason) => outcome == Err::<bool, LedgerError>(reason) && after == before,
        }
    }
}

/// The admission rule over a peer set that is fixed at construction.
pub struct FixedPeerConsensus {
    pub peers: Vec<Peer>,
}

impl FixedPeerConsensus {
    /// An admission rule over the given peers.
    pub fn new(peers: Vec<Peer>) -> (consensus: FixedPeerConsensus)
        ensures
            consensus.peers == peers,
    {
        FixedPeerConsensus { peers }
    }

    /// The number of registered peers.
    pub fn peer_count(&self) -> (count: usize)
        ensures
            count == self.peers@.len(),
    {
        self.peers.len()
    }

    /// The threshold that the approvals have to exceed: half of the peers,
    /// rounded up.
    pub fn majority_threshold(&self) -> (threshold: usize)
        ensures
            threshold == majority_threshold(self.peers@.len()),
    {
        let count = self.peers.len();
        count / 2 + count % 2
    }

    /// Polls every peer and counts the approvals.
    pub fn count_approvals(&self, transactions: &Vec<Transaction>) -> (count: usize)
        ensures
            count == approvals(self.peers@, transactions_view(transactions@)),
    {
        let mut count: usize = 0;
        let mut i: usize = 0;
        while i < self.peers.len()
            invariant
                i <= self.peers.len(),
                count <= i,
                count == approvals(self.peers@.take(i as int), transactions_view(transactions@)),
            decreases self.peers.len() - i,
        {
            assert(self.peers@.take(i + 1).drop_last() =~= self.peers@.take(i as int));
            if self.peers[i].vote_for_transaction(transactions.as_slice()) {
                count += 1;
            }
            i += 1;
        }
        assert(self.peers@.take(i as int) =~= self.peers@);
        count
    }

    /// Runs the vote on a batch: polls every peer and compares the approvals
    /// with the threshold. With no peers there is no quorum.
    pub fn admits(&self, transactions: &Vec<Transaction>) -> (admitted: bool)
        ensures
            admitted == self::admitted(self.peers@, transactions_view(transactions@)),
    {
        if self.peers.len() == 0 {
            return false;
        }
        let approvals = self.count_approvals(transactions);
        let threshold = self.majority_threshold();
        approvals > threshold
    }

    /// Proposes a batch to be appended with `timestamp` as its creation time.
    ///
    /// `Ok(true)` reports an append and `Ok(false)` a rejection by the vote,
    /// which leaves the ledger as it is. An admitted batch that the ledger
    /// refuses is reported with the ledger's reason.
    pub fn propose_block_at(
        &self,
        transactions: Vec<Transaction>,
        blockchain: &mut Blockchain,
        timestamp: u64,
    ) -> (outcome: Result<bool, LedgerError>)
        ensures
            proposed_at(
                self.peers@,
                old(blockchain)@,
                transactions_view(transactions@),
                timestamp,
                outcome,
                final(blockchain)@,
            ),
            valid_chain(old(blockchain)@) ==> valid_chain(final(blockchain)@),
    {
        if self.admits(&transactions) {
            match blockchain.add_block_at(transactions, timestamp) {
                Ok(()) => Ok(true),
                Err(reason) => Err(reason),
            }
        } else {
            Ok(false)
        }
    }

    /// Proposes a batch: if the peers admit it, it is appended to the ledger
    /// with the current time as its timestamp.
    ///
    /// Whatever the clock reads, the outcome is that of `propose_block_at`
    /// for some timestamp. A batch that the vote rejects is rejected
    /// whatever the time, and an admitted batch that the ledger refuses
    /// whatever the time is refused.
    pub fn propose_block(
        &self,
        transactions: Vec<Transaction>,
        blockchain: &mut Blockchain,
    ) -> (outcome: Result<bool, LedgerError>)
        ensures
            exists|timestamp: u64| #[trigger]
                proposed_at(
                    self.peers@,
                    old(blockchain)@,
                    transactions_view(transactions@),
                    timestamp,
                    outcome,
                    final(blockchain)@,
                ),
            !admitted(self.peers@, transactions_view(transactions@)) ==> outcome == Ok::<
                bool,
                LedgerError,
            >(false) && final(blockchain)@ == old(blockchain)@,
            admitted(self.peers@, transactions_view(transactions@)) ==> (refusal(
                old(blockchain)@,
                transactions_view(transactions@),
            ) matches Some(reason) ==> outcome == Err::<bool, LedgerError>(reason)
                && final(blockchain)@ == old(blockchain)@),
            valid_chain(old(blockchain)@) ==> valid_chain(final(blockchain)@),
    {
        if self.admits(&transactions) {
            let ghost before = blockchain@;
            let appended = blockchain.add_block(transactions);
            proof {
                let timestamp = choose|timestamp: u64| #[trigger]
                    appended_at(
                        before,
                        transactions_view(transactions@),
                        timestamp,
                        appended,
                        blockchain@,
                    );
                let outcome: Result<bool, LedgerError> = match appended {
                    Ok(()) => Ok(true),
                    Err(reason) => Err(reason),
                };
                assert(proposed_at(
                    self.peers@,
                    before,
                    transactions_view(transactions@),
                    timestamp,
                    outcome,
                    blockchain@,
                ));
            }
            match appended {
                Ok(()) => Ok(true),
                Err(reason) => Err(reason),
            }
        } else {
            assert(proposed_at(
                self.peers@,
                blockchain@,
                transactions_view(transactions@),
                0,
                Ok(false),
                blockchain@,
            ));
            Ok(false)
        }
    }
}

/// Every peer approves, so the approvals are as many as the peers.
pub proof fn lemma_all_peers_approve(peers: Seq<Peer>, transactions: Seq<TransactionView>)
    ensures
        approvals(peers, transactions) == peers.len(),
    decreases peers.len(),
{
    if peers.len() > 0 {
        lemma_all_peers_approve(peers.drop_last(), transactions);
    }
}

/// With every peer approving, a batch is admitted exactly when there are at
/// least two peers: a lone peer ties with the threshold and never exceeds it.
pub proof fn lemma_admitted_from_two_peers(peers: Seq<Peer>, transactions: Seq<TransactionView>)
    ensures
        admitted(peers, transactions) <==> peers.len() >= 2,
{
    lemma_all_peers_approve(peers, transactions);
    lemma_strict_majority(peers.len());
}

/// A count strictly exceeds half of itself, rounded up, exactly from two on.
pub proof fn lemma_strict_majority(peer_count: nat)
    ensures
        peer_count > majority_threshold(peer_count) <==> peer_count >= 2,
{
}

} // verus!
