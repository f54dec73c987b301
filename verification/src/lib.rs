//! Wire-level data model shared by a BFT consensus engine and its execution
//! layer: digests and references that name blocks and commits, transaction and
//! block envelopes, and the committed sub-DAG that consensus hands over.

pub mod api;
pub mod types;

pub use api::rawtx::Bytes;
pub use types::block::{Block, BlockDigest, SignedBlock};
pub use types::primitives::{
    AuthorityIndex, BlockRef, BlockTimestampMs, CommitRef, Transaction, DIGEST_LENGTH,
};
pub use types::subdag::{CommittedSubDag, VerifiedBlock};
pub use types::transaction::{serialize_transactions, MysticetiCommittedSubdag, SerializeError};
