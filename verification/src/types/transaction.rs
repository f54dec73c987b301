//! A sub-DAG over the consumer's own transaction type, and the JSON text of a
//! batch of raw transactions.

use crate::types::primitives::{byte_rows, AuthorityIndex, BlockRef, CommitRef};
use vstd::prelude::*;

verus! {

/// A committed sub-DAG whose transactions are of the consumer's own type
/// `T`, as one flat list. It carries the same leader, timestamp, commit
/// reference and reputation scores as `CommittedSubDag`.
///
/// This type never goes on the wire: converting to and from
/// `CommittedSubDag` is up to the consumer.
#[derive(Debug, Clone)]
pub struct MysticetiCommittedSubdag<T> {
    pub leader: BlockRef,
    pub transactions: Vec<T>,
    pub timestamp_ms: u64,
    pub commit_ref: CommitRef,
    pub reputation_scores_desc: Vec<(AuthorityIndex, u64)>,
}

/// `serde_json::Error`, carried as an opaque value: nothing inside it is
/// visible to the proofs.
#[verifier::external_type_specification]
#[verifier::external_body]
pub struct ExJsonError(serde_json::Error);

/// Why a batch has no JSON text.
#[derive(Debug, Clone, PartialEq, Eq)]
pub struct SerializeError {
    /// What the encoder reported.
    pub message: String,
}

/// The JSON text of a batch of byte sequences, where the encoder gives one.
pub uninterp spec fn batch_json(batch: Seq<Seq<u8>>) -> Option<Seq<char>>;

/// Calls `serde_json::to_string` on a batch of byte vectors.
///
/// Unproved: the outcome depends on the bytes of the batch alone. It is the
/// text `batch_json` names, or an error where `batch_json` names none.
#[verifier::external_body]
fn to_json_text(batch: &Vec<Vec<u8>>) -> (outcome: Result<String, serde_json::Error>)
    ensures
        outcome is Ok <==> batch_json(byte_rows(batch@)) is Some,
        outcome is Ok ==> batch_json(byte_rows(batch@)) == Some(outcome.unwrap()@),
{
    serde_json::to_string(batch)
}

/// Turns the encoder's outcome into the library's: the text as it is, an
/// error as its message.
pub fn encoded_or_error(outcome: Result<String, serde_json::Error>) -> (r: Result<
    String,
    SerializeError,
>)
    ensures
        outcome is Ok ==> r == Ok::<String, SerializeError>(outcome.unwrap()),
        outcome is Err ==> r is Err && vstd::string::to_string_from_display_ensures(
            &outcome->Err_0,
            r->Err_0.message,
        ),
{
    match outcome {
        Ok(text) => Ok(text),
        Err(error) => Err(SerializeError { message: error.to_string() }),
    }
}

/// The JSON text of a batch of raw transactions: an array with one array of
/// numbers per transaction. A consumer wraps it into its own subscription
/// message.
pub fn serialize_transactions(batch: Vec<Vec<u8>>) -> (r: Result<String, SerializeError>)
    ensures
        r is Ok <==> batch_json(byte_rows(batch@)) is Some,
        r is Ok ==> batch_json(byte_rows(batch@)) == Some(r.unwrap()@),
{
    encoded_or_error(to_json_text(&batch))
}

} // verus!
