//! Primitive identifiers and the opaque transaction payload.

use vstd::prelude::*;

verus! {

/// Length of a digest in bytes.
pub const DIGEST_LENGTH: usize = 32;

/// Index of an authority in the committee.
pub type AuthorityIndex = u32;

/// Milliseconds since the Unix epoch.
pub type BlockTimestampMs = u64;

/// The digest whose bytes are all zero, as a sequence.
pub open spec fn zero_digest() -> Seq<u8> {
    Seq::new(DIGEST_LENGTH as nat, |i: int| 0u8)
}

/// What a list of byte vectors holds: the bytes of each, in the same order.
pub open spec fn byte_rows(rows: Seq<Vec<u8>>) -> Seq<Seq<u8>> {
    rows.map_values(|row: Vec<u8>| row@)
}

/// Whether two byte slices hold the same bytes.
pub fn bytes_equal(a: &[u8], b: &[u8]) -> (same: bool)
    ensures
        same <==> a@ == b@,
{
    if a.len() != b.len() {
        return false;
    }
    let mut i: usize = 0;
    while i < a.len()
        invariant
            a@.len() == b@.len(),
            i <= a@.len(),
            forall|k: int| 0 <= k < i ==> a@[k] == b@[k],
        decreases a@.len() - i,
    {
        if a[i] != b[i] {
            return false;
        }
        i += 1;
    }
    assert(a@ =~= b@);
    true
}

/// What a block reference holds.
pub struct BlockRefView {
    pub leader_address: Seq<char>,
    pub digest: Seq<u8>,
    pub round: u64,
}

impl BlockRefView {
    /// The reference with an empty address, the zero digest and round 0.
    pub open spec fn initial() -> BlockRefView {
        BlockRefView { leader_address: Seq::<char>::empty(), digest: zero_digest(), round: 0 }
    }
}

/// Names a block independently of its contents.
///
/// `round` counts rounds of the consensus DAG. `leader_address` is the
/// hex-encoded address of the validator that proposed the block; it is not
/// part of what the digest covers.
#[derive(Debug, Hash)]
pub struct BlockRef {
    pub leader_address: String,
    pub digest: [u8; DIGEST_LENGTH],
    pub round: u64,
}

impl View for BlockRef {
    type V = BlockRefView;

    open spec fn view(&self) -> BlockRefView {
        BlockRefView {
            leader_address: self.leader_address@,
            digest: self.digest@,
            round: self.round,
        }
    }
}

impl Clone for BlockRef {
    fn clone(&self) -> (copy: Self)
        ensures
            copy@ == self@,
    {
        BlockRef {
            leader_address: self.leader_address.clone(),
            digest: self.digest,
            round: self.round,
        }
    }
}

impl Default for BlockRef {
    /// The reference with an empty address, the zero digest and round 0.
    fn default() -> (r: Self)
        ensures
            r@ == BlockRefView::initial(),
    {
        let r = BlockRef { leader_address: String::new(), digest: [0u8; DIGEST_LENGTH], round: 0 };
        assert(r.digest@ =~= zero_digest());
        r
    }
}

impl PartialEq for BlockRef {
    /// Two references are equal when every field agrees.
    fn eq(&self, other: &Self) -> (same: bool) {
        self.leader_address == other.leader_address && bytes_equal(
            self.digest.as_slice(),
            other.digest.as_slice(),
        ) && self.round == other.round
    }
}

impl Eq for BlockRef {}

impl vstd::std_specs::cmp::PartialEqSpecImpl for BlockRef {
    open spec fn obeys_eq_spec() -> bool {
        true
    }

    open spec fn eq_spec(&self, other: &Self) -> bool {
        self@ == other@
    }
}

/// What a commit reference holds.
pub struct CommitRefView {
    pub digest: Seq<u8>,
    pub round: usize,
}

impl CommitRefView {
    /// The reference with the zero digest and round 0.
    pub open spec fn initial() -> CommitRefView {
        CommitRefView { digest: zero_digest(), round: 0 }
    }
}

/// Names a commit decision independently of the sub-DAG it carries.
///
/// `round` is the commit's sequence number, a counter of its own: it is not a
/// round of the consensus DAG.
#[derive(Debug, Clone, Copy, Hash)]
pub struct CommitRef {
    pub digest: [u8; DIGEST_LENGTH],
    pub round: usize,
}

impl View for CommitRef {
    type V = CommitRefView;

    open spec fn view(&self) -> CommitRefView {
        CommitRefView { digest: self.digest@, round: self.round }
    }
}

impl Default for CommitRef {
    /// The reference with the zero digest and round 0.
    fn default() -> (r: Self)
        ensures
            r@ == CommitRefView::initial(),
    {
        let r = CommitRef { digest: [0u8; DIGEST_LENGTH], round: 0 };
        assert(r.digest@ =~= zero_digest());
        r
    }
}

impl PartialEq for CommitRef {
    /// Two references are equal when both fields agree.
    fn eq(&self, other: &Self) -> (same: bool) {
        bytes_equal(self.digest.as_slice(), other.digest.as_slice()) && self.round == other.round
    }
}

impl Eq for CommitRef {}

impl vstd::std_specs::cmp::PartialEqSpecImpl for CommitRef {
    open spec fn obeys_eq_spec() -> bool {
        true
    }

    open spec fn eq_spec(&self, other: &Self) -> bool {
        self@ == other@
    }
}

/// An opaque transaction payload. No structure is imposed on the bytes.
#[derive(Debug)]
pub struct Transaction {
    inner: Vec<u8>,
}

impl View for Transaction {
    type V = Seq<u8>;

    closed spec fn view(&self) -> Seq<u8> {
        self.inner@
    }
}

impl Transaction {
    /// Wraps raw bytes. Every byte sequence is accepted, the empty one too.
    pub fn new(data: Vec<u8>) -> (tx: Self)
        ensures
            tx@ == data@,
    {
        Transaction { inner: data }
    }

    /// The payload, borrowed.
    pub fn data(&self) -> (bytes: &[u8])
        ensures
            bytes@ == self@,
    {
        self.inner.as_slice()
    }

    /// The payload, by value.
    pub fn into_data(self) -> (bytes: Vec<u8>)
        ensures
            bytes@ == self@,
    {
        self.inner
    }
}

impl AsRef<[u8]> for Transaction {
    /// The payload, borrowed.
    fn as_ref(&self) -> (bytes: &[u8])
        ensures
            bytes@ == self@,
    {
        self.inner.as_slice()
    }
}

impl Clone for Transaction {
    fn clone(&self) -> (copy: Self)
        ensures
            copy@ == self@,
    {
        Transaction { inner: self.inner.clone() }
    }
}

impl PartialEq for Transaction {
    /// Two transactions are equal when their payloads agree byte for byte.
    fn eq(&self, other: &Self) -> (same: bool) {
        bytes_equal(self.inner.as_slice(), other.inner.as_slice())
    }
}

impl Eq for Transaction {}

impl vstd::std_specs::cmp::PartialEqSpecImpl for Transaction {
    open spec fn obeys_eq_spec() -> bool {
        true
    }

    open spec fn eq_spec(&self, other: &Self) -> bool {
        self@ == other@
    }
}

} // verus!
