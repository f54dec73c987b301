//! Blocks as they travel: the signed envelope and the digest that names it.

use crate::types::primitives::{bytes_equal, zero_digest, Transaction, DIGEST_LENGTH};
use core::cmp::Ordering;
use core::hash::{Hash, Hasher};
use vstd::prelude::*;
use vstd::std_specs::cmp::{PartialEqSpec, PartialOrdSpec};
use vstd::string::StrSliceExecFns;

verus! {

/// The body of a block: its transactions, in order.
pub type Block = Vec<Transaction>;

/// The payloads of a run of transactions, in the same order.
pub open spec fn payloads(txs: Seq<Transaction>) -> Seq<Seq<u8>> {
    txs.map_values(|tx: Transaction| tx@)
}

/// What a signed block holds: the payloads of its body and its signature.
pub struct SignedBlockView {
    pub body: Seq<Seq<u8>>,
    pub signature: Seq<u8>,
}

/// A block together with its signature, before verification.
///
/// A block's digest covers this whole value, so any field added here changes
/// the digest of every block.
#[derive(Debug)]
pub struct SignedBlock {
    inner: Block,
    signature: Vec<u8>,
}

impl View for SignedBlock {
    type V = SignedBlockView;

    closed spec fn view(&self) -> SignedBlockView {
        SignedBlockView { body: payloads(self.inner@), signature: self.signature@ }
    }
}

impl SignedBlock {
    /// An envelope around `block` with an empty signature. The signature is
    /// to be filled in elsewhere before the block is sent.
    pub fn new(block: Block) -> (signed: Self)
        ensures
            signed@.body == payloads(block@),
            signed@.signature == Seq::<u8>::empty(),
    {
        SignedBlock { inner: block, signature: Vec::new() }
    }

    /// An envelope around `block` that carries `signature`.
    pub fn with_signature(block: Block, signature: Vec<u8>) -> (signed: Self)
        ensures
            signed@.body == payloads(block@),
            signed@.signature == signature@,
    {
        SignedBlock { inner: block, signature }
    }

    /// The signature, which is empty until one has been filled in.
    pub fn signature(&self) -> (bytes: &[u8])
        ensures
            bytes@ == self@.signature,
    {
        self.signature.as_slice()
    }

    /// The transactions of this block, in order.
    pub fn transactions(&self) -> (txs: &Block)
        ensures
            payloads(txs@) == self@.body,
    {
        &self.inner
    }

    /// Empties the signature and leaves the body as it is.
    pub fn clear_signature(&mut self)
        ensures
            final(self)@.body == old(self)@.body,
            final(self)@.signature == Seq::<u8>::empty(),
    {
        self.signature = Vec::new();
    }
}

/// A copy of a run of transactions, payload for payload.
pub fn clone_transactions(txs: &Vec<Transaction>) -> (copy: Vec<Transaction>)
    ensures
        payloads(copy@) == payloads(txs@),
{
    let mut copy: Vec<Transaction> = Vec::new();
    let mut i: usize = 0;
    while i < txs.len()
        invariant
            i <= txs@.len(),
            payloads(copy@) == payloads(txs@).take(i as int),
        decreases txs@.len() - i,
    {
        let tx = txs[i].clone();
        let ghost before = payloads(copy@);
        copy.push(tx);
        assert(payloads(copy@) =~= before.push(payloads(txs@)[i as int]));
        assert(payloads(txs@).take(i + 1) =~= payloads(txs@).take(i as int).push(
            payloads(txs@)[i as int],
        ));
        i += 1;
    }
    assert(payloads(txs@).take(i as int) =~= payloads(txs@));
    copy
}

impl Clone for SignedBlock {
    fn clone(&self) -> (copy: Self)
        ensures
            copy@ == self@,
    {
        SignedBlock { inner: clone_transactions(&self.inner), signature: self.signature.clone() }
    }
}

impl Default for SignedBlock {
    fn default() -> (signed: Self)
        ensures
            signed@.body == Seq::<Seq<u8>>::empty(),
            signed@.signature == Seq::<u8>::empty(),
    {
        let signed = SignedBlock { inner: Vec::new(), signature: Vec::new() };
        assert(signed@.body =~= Seq::<Seq<u8>>::empty());
        signed
    }
}

/// The digest whose bytes are all `0xFF`, as a sequence.
pub open spec fn full_digest() -> Seq<u8> {
    Seq::new(DIGEST_LENGTH as nat, |i: int| 255u8)
}

/// How many leading bytes of a digest feed a hasher.
pub const HASH_PREFIX_LENGTH: usize = 8;

/// Whether `a` and `b` hold the same bytes at every position before `k`.
pub open spec fn agree_before(a: Seq<u8>, b: Seq<u8>, k: int) -> bool {
    forall|j: int| 0 <= j < k ==> a[j] == b[j]
}

/// Byte-wise lexicographic order on sequences of one length: `a` comes first
/// when, at the first position where the two differ, `a` holds the smaller
/// byte.
pub open spec fn lex_less(a: Seq<u8>, b: Seq<u8>) -> bool {
    exists|k: int|
        0 <= k < a.len() && k < b.len() && #[trigger] agree_before(a, b, k) && a[k] < b[k]
}

/// The first position at which two digests differ, if they differ at all.
pub fn first_difference(a: &[u8; DIGEST_LENGTH], b: &[u8; DIGEST_LENGTH]) -> (at: Option<usize>)
    ensures
        at is None <==> a@ == b@,
        at matches Some(k) ==> k < DIGEST_LENGTH && agree_before(a@, b@, k as int) && a@[k as int]
            != b@[k as int],
{
    let mut i: usize = 0;
    while i < DIGEST_LENGTH
        invariant
            i <= DIGEST_LENGTH,
            agree_before(a@, b@, i as int),
        decreases DIGEST_LENGTH - i,
    {
        if a[i] != b[i] {
            return Some(i);
        }
        i += 1;
    }
    assert(a@ =~= b@);
    None
}

/// Where `a` holds the greater byte at the first difference, `a` does not
/// come before `b`.
pub proof fn lemma_greater_is_not_less(a: Seq<u8>, b: Seq<u8>, k: usize)
    requires
        k < a.len(),
        k < b.len(),
        agree_before(a, b, k as int),
        a[k as int] > b[k as int],
    ensures
        !lex_less(a, b),
{
    assert forall|j: int|
        0 <= j < a.len() && j < b.len() && #[trigger] agree_before(a, b, j) implies !(a[j]
        < b[j]) by {
        if j > k {
            assert(a[k as int] == b[k as int]);
        }
    }
}

/// Two sequences of one length that differ have a first position at which
/// they differ.
pub proof fn lemma_first_difference(a: Seq<u8>, b: Seq<u8>, n: int) -> (k: int)
    requires
        a.len() == b.len(),
        0 <= n <= a.len(),
        !agree_before(a, b, n),
    ensures
        0 <= k < n,
        agree_before(a, b, k),
        a[k] != b[k],
    decreases n,
{
    if agree_before(a, b, n - 1) {
        n - 1
    } else {
        lemma_first_difference(a, b, n - 1)
    }
}

/// How many characters the short form of a digest has.
pub const SHORT_FORM_LENGTH: usize = 4;

/// How many characters the full form of a digest has.
pub const FULL_FORM_LENGTH: usize = 44;

/// The standard base64 text of a byte sequence: the alphabet of RFC 4648
/// with `=` padding.
pub uninterp spec fn base64_standard(bytes: Seq<u8>) -> Seq<char>;

/// Calls `base64::Engine::encode` on the engine
/// `base64::engine::general_purpose::STANDARD`.
///
/// Unproved: the text returned is the standard base64 encoding of `bytes`,
/// and for the 32 bytes of a digest it has 44 characters (ten groups of four
/// for the first 30 bytes, one padded group of four for the last two).
#[verifier::external_body]
fn encode_standard(bytes: &[u8; DIGEST_LENGTH]) -> (text: String)
    ensures
        text@ == base64_standard(bytes@),
        text@.len() == FULL_FORM_LENGTH,
{
    base64::Engine::encode(&base64::engine::general_purpose::STANDARD, bytes)
}

/// The short form of an encoded digest: its first `SHORT_FORM_LENGTH`
/// characters. A text with fewer characters has no short form.
pub fn short_form(encoded: &str) -> (short: Option<String>)
    ensures
        encoded@.len() < SHORT_FORM_LENGTH ==> short is None,
        encoded@.len() >= SHORT_FORM_LENGTH ==> short is Some && short.unwrap()@
            == encoded@.subrange(0, SHORT_FORM_LENGTH as int),
{
    if encoded.unicode_len() >= SHORT_FORM_LENGTH {
        Some(encoded.substring_char(0, SHORT_FORM_LENGTH).to_owned())
    } else {
        None
    }
}

/// Hands `bytes` to `core::hash::Hasher::write`.
///
/// Nothing is claimed of the hasher's state afterwards.
#[verifier::external_body]
fn feed<H: Hasher>(state: &mut H, bytes: &[u8]) {
    state.write(bytes);
}

/// The digest of a verified block. It covers the block's body and signature.
///
/// The signature scheme is assumed to be non-malleable: nobody can make a
/// second valid signature for a block, so a block has one digest.
///
/// Digests are ordered byte by byte. A hasher is fed the first
/// `HASH_PREFIX_LENGTH` bytes only; equality always compares all of them.
#[derive(Debug, Clone, Copy, Ord)]
pub struct BlockDigest(pub [u8; DIGEST_LENGTH]);

impl View for BlockDigest {
    type V = Seq<u8>;

    open spec fn view(&self) -> Seq<u8> {
        self.0@
    }
}

impl BlockDigest {
    /// The least digest: every byte is zero.
    pub fn min_value() -> (d: Self)
        ensures
            d@ == zero_digest(),
    {
        let d = BlockDigest([u8::MIN; DIGEST_LENGTH]);
        assert(d@ =~= zero_digest());
        d
    }

    /// The greatest digest: every byte is `0xFF`.
    pub fn max_value() -> (d: Self)
        ensures
            d@ == full_digest(),
    {
        let d = BlockDigest([u8::MAX; DIGEST_LENGTH]);
        assert(d@ =~= full_digest());
        d
    }

    /// `self` comes before `other`, or is the same digest.
    pub open spec fn precedes_or_equals(&self, other: &BlockDigest) -> bool {
        self@ == other@ || lex_less(self@, other@)
    }

    /// What a hasher is fed for this digest.
    pub open spec fn hashed(&self) -> Seq<u8> {
        self@.subrange(0, HASH_PREFIX_LENGTH as int)
    }

    /// The bytes that a hasher is fed: the leading `HASH_PREFIX_LENGTH`.
    pub fn hash_prefix(&self) -> (prefix: &[u8])
        ensures
            prefix@ == self.hashed(),
    {
        vstd::slice::slice_subrange(self.0.as_slice(), 0, HASH_PREFIX_LENGTH)
    }

    /// The short form, for logs: the first four characters of the standard
    /// base64 text of the digest.
    pub fn to_string(&self) -> (text: String)
        ensures
            text@ == base64_standard(self@).subrange(0, SHORT_FORM_LENGTH as int),
            text@.len() == SHORT_FORM_LENGTH,
    {
        let encoded = encode_standard(&self.0);
        // The full form is long enough to have a short form.
        match short_form(encoded.as_str()) {
            Some(short) => short,
            None => encoded,
        }
    }

    /// The full form, for debugging: the standard base64 text of the digest.
    pub fn to_full_string(&self) -> (text: String)
        ensures
            text@ == base64_standard(self@),
            text@.len() == FULL_FORM_LENGTH,
    {
        encode_standard(&self.0)
    }
}

impl AsRef<[u8]> for BlockDigest {
    /// All the bytes of the digest.
    fn as_ref(&self) -> (bytes: &[u8])
        ensures
            bytes@ == self@,
    {
        self.0.as_slice()
    }
}

impl Default for BlockDigest {
    fn default() -> (d: Self)
        ensures
            d@ == zero_digest(),
    {
        let d = BlockDigest([0u8; DIGEST_LENGTH]);
        assert(d@ =~= zero_digest());
        d
    }
}

impl PartialEq for BlockDigest {
    fn eq(&self, other: &Self) -> (same: bool) {
        bytes_equal(self.0.as_slice(), other.0.as_slice())
    }
}

impl Eq for BlockDigest {}

impl vstd::std_specs::cmp::PartialEqSpecImpl for BlockDigest {
    open spec fn obeys_eq_spec() -> bool {
        true
    }

    open spec fn eq_spec(&self, other: &Self) -> bool {
        self@ == other@
    }
}

impl Hash for BlockDigest {
    /// Feeds the hasher the first `HASH_PREFIX_LENGTH` bytes only.
    fn hash<H: Hasher>(&self, state: &mut H) {
        feed(state, self.hash_prefix());
    }
}

impl PartialOrd for BlockDigest {
    fn partial_cmp(&self, other: &Self) -> (order: Option<Ordering>) {
        match first_difference(&self.0, &other.0) {
            None => Some(Ordering::Equal),
            Some(k) => {
                if self.0[k] < other.0[k] {
                    Some(Ordering::Less)
                } else {
                    proof {
                        lemma_greater_is_not_less(self@, other@, k);
                    }
                    Some(Ordering::Greater)
                }
            },
        }
    }
}

impl vstd::std_specs::cmp::PartialOrdSpecImpl for BlockDigest {
    open spec fn obeys_partial_cmp_spec() -> bool {
        true
    }

    open spec fn partial_cmp_spec(&self, other: &Self) -> Option<Ordering> {
        if self@ == other@ {
            Some(Ordering::Equal)
        } else if lex_less(self@, other@) {
            Some(Ordering::Less)
        } else {
            Some(Ordering::Greater)
        }
    }
}

/// Of two different sequences of one length, one comes before the other.
pub proof fn lemma_lex_total(a: Seq<u8>, b: Seq<u8>)
    requires
        a.len() == b.len(),
        a != b,
    ensures
        lex_less(a, b) || lex_less(b, a),
{
    assert(!agree_before(a, b, a.len() as int)) by {
        if agree_before(a, b, a.len() as int) {
            assert(a =~= b);
        }
    }
    let k = lemma_first_difference(a, b, a.len() as int);
    if a[k] < b[k] {
        assert(agree_before(a, b, k) && a[k] < b[k]);
    } else {
        assert(agree_before(b, a, k) && b[k] < a[k]);
    }
}

/// No sequence comes before one that comes before it, nor before itself.
pub proof fn lemma_lex_asymmetric(a: Seq<u8>, b: Seq<u8>)
    ensures
        !(lex_less(a, b) && lex_less(b, a)),
{
    if lex_less(a, b) && lex_less(b, a) {
        let k = choose|k: int|
            0 <= k < a.len() && k < b.len() && #[trigger] agree_before(a, b, k) && a[k] < b[k];
        let m = choose|m: int|
            0 <= m < b.len() && m < a.len() && #[trigger] agree_before(b, a, m) && b[m] < a[m];
        if k < m {
            assert(b[k] == a[k]);
        } else if m < k {
            assert(a[m] == b[m]);
        }
    }
}

/// What comes before a sequence that comes before a third comes before the
/// third.
pub proof fn lemma_lex_transitive(a: Seq<u8>, b: Seq<u8>, c: Seq<u8>)
    requires
        lex_less(a, b),
        lex_less(b, c),
    ensures
        lex_less(a, c),
{
    let k = choose|k: int|
        0 <= k < a.len() && k < b.len() && #[trigger] agree_before(a, b, k) && a[k] < b[k];
    let m = choose|m: int|
        0 <= m < b.len() && m < c.len() && #[trigger] agree_before(b, c, m) && b[m] < c[m];
    let first = if k <= m {
        k
    } else {
        m
    };
    assert(agree_before(a, c, first)) by {
        assert forall|j: int| 0 <= j < first implies a[j] == c[j] by {
            assert(a[j] == b[j]);
            assert(b[j] == c[j]);
        }
    }
    if k < m {
        assert(b[k] == c[k]);
    } else if m < k {
        assert(a[m] == b[m]);
    }
    assert(agree_before(a, c, first) && a[first] < c[first]);
}

/// The all-zero digest comes before every other digest.
pub proof fn lemma_zero_is_least(d: Seq<u8>)
    requires
        d.len() == DIGEST_LENGTH,
    ensures
        d == zero_digest() || lex_less(zero_digest(), d),
{
    if d != zero_digest() {
        lemma_lex_total(zero_digest(), d);
        if lex_less(d, zero_digest()) {
            let k = choose|k: int|
                0 <= k < DIGEST_LENGTH && #[trigger] agree_before(d, zero_digest(), k) && d[k]
                    < zero_digest()[k];
            assert(false);
        }
    }
}

/// Every other digest comes before the all-`0xFF` digest.
pub proof fn lemma_full_is_greatest(d: Seq<u8>)
    requires
        d.len() == DIGEST_LENGTH,
    ensures
        d == full_digest() || lex_less(d, full_digest()),
{
    if d != full_digest() {
        lemma_lex_total(d, full_digest());
        if lex_less(full_digest(), d) {
            let k = choose|k: int|
                0 <= k < DIGEST_LENGTH && #[trigger] agree_before(full_digest(), d, k)
                    && full_digest()[k] < d[k];
            assert(false);
        }
    }
}

/// Every digest lies between the least and the greatest one, and `<=`
/// judges so.
pub proof fn law_digest_bounds(d: BlockDigest, least: BlockDigest, greatest: BlockDigest)
    requires
        least@ == zero_digest(),
        greatest@ == full_digest(),
    ensures
        least.precedes_or_equals(&d),
        d.precedes_or_equals(&greatest),
        least.partial_cmp_spec(&d) != Some(Ordering::Greater),
        d.partial_cmp_spec(&greatest) != Some(Ordering::Greater),
{
    lemma_zero_is_least(d@);
    lemma_full_is_greatest(d@);
}

/// The order of digests is the byte-wise lexicographic one and is total:
/// of two digests exactly one of "before", "same" and "after" holds, and
/// comparing them the other way round gives the mirrored answer.
pub proof fn law_digest_order_is_total(a: BlockDigest, b: BlockDigest)
    ensures
        a.partial_cmp_spec(&b) == Some(Ordering::Equal) <==> a@ == b@,
        a.partial_cmp_spec(&b) == Some(Ordering::Less) <==> lex_less(a@, b@),
        a.partial_cmp_spec(&b) == Some(Ordering::Greater) <==> lex_less(b@, a@),
{
    lemma_lex_asymmetric(a@, b@);
    lemma_lex_asymmetric(a@, a@);
    if a@ != b@ {
        lemma_lex_total(a@, b@);
    }
}

/// The order of digests is transitive.
pub proof fn law_digest_order_is_transitive(a: BlockDigest, b: BlockDigest, c: BlockDigest)
    requires
        a.precedes_or_equals(&b),
        b.precedes_or_equals(&c),
    ensures
        a.precedes_or_equals(&c),
{
    if a@ != b@ && b@ != c@ {
        lemma_lex_transitive(a@, b@, c@);
    }
}

/// Digests made of the same bytes are equal and feed a hasher the same
/// bytes. Digests that differ anywhere are unequal, also where they agree in
/// all that a hasher is fed.
pub proof fn law_digest_equality_and_hash(a: BlockDigest, b: BlockDigest)
    ensures
        a@ == b@ ==> a.eq_spec(&b) && a.hashed() == b.hashed(),
        a@ != b@ ==> !a.eq_spec(&b),
        a.hashed() == b.hashed() <==> forall|i: int|
            0 <= i < HASH_PREFIX_LENGTH ==> a@[i] == b@[i],
{
    if forall|i: int| 0 <= i < HASH_PREFIX_LENGTH ==> a@[i] == b@[i] {
        assert(a.hashed() =~= b.hashed());
    }
    if a.hashed() == b.hashed() {
        assert forall|i: int| 0 <= i < HASH_PREFIX_LENGTH implies a@[i] == b@[i] by {
            assert(a.hashed()[i] == a@[i]);
            assert(b.hashed()[i] == b@[i]);
        }
    }
}

} // verus!
