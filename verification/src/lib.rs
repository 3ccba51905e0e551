//! An append-only, hash-linked ledger of transaction batches, with a
//! fixed-peer majority vote that gates what is appended.
//!
//! A [`Blockchain`] starts with a genesis block and grows by
//! [`Blockchain::add_block`]. Every block stores the SHA-256 digest of its
//! content and the digest of the block before it, so that
//! [`Blockchain::is_valid`] can recompute every digest and compare every
//! link. A [`FixedPeerConsensus`] polls a fixed set of peers and appends a
//! batch only if the approvals strictly exceed half of the peers, rounded up.
//!
//! The contracts are stated over the values of the types: a ledger is a
//! sequence of [`block::BlockView`], and [`chain::valid_chain`] says what its
//! integrity is. The module [`integrity`] proves what holds of every ledger,
//! [`layout`] and [`codec`] that the byte encoding can be read back in one
//! way only.
//!
//! Three things are taken on trust, each behind a private function whose
//! documentation says what is assumed: the SHA-256 function of `sha2`, the
//! byte layout that `bincode` writes and reads, and the hexadecimal text of
//! `hex`. The system clock is read, and nothing is assumed of its reading.

pub mod block;
pub mod chain;
pub mod clock;
pub mod codec;
pub mod consensus;
pub mod digest;
pub mod error;
pub mod integrity;
pub mod layout;
pub mod report;
pub mod transaction;

pub use block::{create_block, create_block_at, create_genesis_block, Block};
pub use chain::Blockchain;
pub use clock::current_timestamp;
pub use codec::{deserialize_block, deserialize_blockchain, serialize_block, serialize_blockchain};
pub use consensus::{FixedPeerConsensus, Peer, PeerId};
pub use error::{CodecError, LedgerError};
pub use transaction::{Transaction, MAX_TRANSACTIONS_PER_BLOCK};
