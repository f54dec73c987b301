//! The committed sub-DAG: what consensus hands to execution for one commit.

use crate::types::block::{payloads, BlockDigest, SignedBlock, SignedBlockView};
use crate::types::primitives::{
    byte_rows, AuthorityIndex, BlockRef, BlockRefView, BlockTimestampMs, CommitRef, CommitRefView,
};
use vstd::prelude::*;
use vstd::slice::slice_to_vec;

verus! {

/// A signed block whose signature has been checked, with the digest that
/// names it from then on.
#[derive(Debug)]
pub struct VerifiedBlock {
    pub block: SignedBlock,
    pub digest: BlockDigest,
}

/// What a verified block holds.
pub struct VerifiedBlockView {
    pub block: SignedBlockView,
    pub digest: Seq<u8>,
}

impl View for VerifiedBlock {
    type V = VerifiedBlockView;

    open spec fn view(&self) -> VerifiedBlockView {
        VerifiedBlockView { block: self.block@, digest: self.digest@ }
    }
}

impl Clone for VerifiedBlock {
    fn clone(&self) -> (copy: Self)
        ensures
            copy@ == self@,
    {
        VerifiedBlock { block: self.block.clone(), digest: self.digest }
    }
}

/// What each of a run of blocks holds, block by block.
pub open spec fn block_views(blocks: Seq<VerifiedBlock>) -> Seq<VerifiedBlockView> {
    blocks.map_values(|b: VerifiedBlock| b@)
}

/// How many transactions a run of bodies holds in all.
pub open spec fn count_all(parts: Seq<Seq<Seq<u8>>>) -> nat
    decreases parts.len(),
{
    if parts.len() == 0 {
        0
    } else {
        count_all(parts.drop_last()) + parts.last().len()
    }
}

/// Flattening keeps every transaction: the flattened stream is as long as the
/// bodies are together.
pub proof fn lemma_count_is_flattened_length(parts: Seq<Seq<Seq<u8>>>)
    ensures
        count_all(parts) == parts.flatten().len(),
    decreases parts.len(),
{
    if parts.len() > 0 {
        lemma_count_is_flattened_length(parts.drop_last());
        parts.drop_last().lemma_flatten_push(parts.last());
        assert(parts.drop_last().push(parts.last()) =~= parts);
    }
}

/// Flattening keeps the order: transaction `j` of body `i` stands in the
/// flattened stream after all transactions of the bodies before `i` and after
/// the first `j` of its own body.
pub proof fn lemma_flattened_position(parts: Seq<Seq<Seq<u8>>>, i: int, j: int)
    requires
        0 <= i < parts.len(),
        0 <= j < parts[i].len(),
    ensures
        count_all(parts.take(i)) + j < parts.flatten().len(),
        parts.flatten()[count_all(parts.take(i)) + j] == parts[i][j],
    decreases parts.len(),
{
    let front = parts.drop_last();
    front.lemma_flatten_push(parts.last());
    assert(front.push(parts.last()) =~= parts);
    lemma_count_is_flattened_length(front);
    if i == parts.len() - 1 {
        assert(parts.take(i) =~= front);
    } else {
        assert(parts.take(i) =~= front.take(i));
        lemma_flattened_position(front, i, j);
    }
}

/// Whether a list of reputation scores runs from the highest score to the
/// lowest. Equal scores may stand in any order.
pub open spec fn scores_descending(scores: Seq<(AuthorityIndex, u64)>) -> bool {
    forall|i: int, j: int|
        #![trigger scores[i], scores[j]]
        0 <= i <= j < scores.len() ==> scores[i].1 >= scores[j].1
}

/// The blocks that one commit decision finalises, in execution order.
///
/// `blocks` is in the order that consensus fixed and is not to be reordered.
/// `reputation_scores_desc` is sorted by score, highest first; whoever builds
/// the value sees to that. `timestamp_ms` is the time at which the commit was
/// finalised.
#[derive(Debug)]
pub struct CommittedSubDag {
    pub leader: BlockRef,
    pub blocks: Vec<VerifiedBlock>,
    pub timestamp_ms: BlockTimestampMs,
    pub commit_ref: CommitRef,
    pub reputation_scores_desc: Vec<(AuthorityIndex, u64)>,
}

/// What a committed sub-DAG holds.
pub struct CommittedSubDagView {
    pub leader: BlockRefView,
    pub blocks: Seq<VerifiedBlockView>,
    pub timestamp_ms: BlockTimestampMs,
    pub commit_ref: CommitRefView,
    pub reputation_scores_desc: Seq<(AuthorityIndex, u64)>,
}

impl CommittedSubDagView {
    /// The bodies of the blocks, block by block.
    pub open spec fn bodies(&self) -> Seq<Seq<Seq<u8>>> {
        self.blocks.map_values(|b: VerifiedBlockView| b.block.body)
    }

    /// Every transaction of the sub-DAG: the bodies of the blocks, one after
    /// another in block order, each in its stored order.
    pub open spec fn transactions(&self) -> Seq<Seq<u8>> {
        self.bodies().flatten()
    }

    /// The number of transactions over all blocks.
    pub open spec fn count(&self) -> nat {
        count_all(self.bodies())
    }

    /// Where the transactions of block `i` begin in the flattened stream:
    /// after those of all blocks before it.
    pub open spec fn offset(&self, i: int) -> nat {
        count_all(self.bodies().take(i))
    }
}

impl View for CommittedSubDag {
    type V = CommittedSubDagView;

    open spec fn view(&self) -> CommittedSubDagView {
        CommittedSubDagView {
            leader: self.leader@,
            blocks: block_views(self.blocks@),
            timestamp_ms: self.timestamp_ms,
            commit_ref: self.commit_ref@,
            reputation_scores_desc: self.reputation_scores_desc@,
        }
    }
}

/// A copy of a run of verified blocks, block for block.
pub fn clone_blocks(blocks: &Vec<VerifiedBlock>) -> (copy: Vec<VerifiedBlock>)
    ensures
        block_views(copy@) == block_views(blocks@),
{
    let mut copy: Vec<VerifiedBlock> = Vec::new();
    let mut i: usize = 0;
    while i < blocks.len()
        invariant
            i <= blocks@.len(),
            block_views(copy@) == block_views(blocks@).take(i as int),
        decreases blocks@.len() - i,
    {
        let block = blocks[i].clone();
        let ghost before = block_views(copy@);
        copy.push(block);
        assert(block_views(copy@) =~= before.push(block_views(blocks@)[i as int]));
        assert(block_views(blocks@).take(i + 1) =~= block_views(blocks@).take(i as int).push(
            block_views(blocks@)[i as int],
        ));
        i += 1;
    }
    assert(block_views(blocks@).take(i as int) =~= block_views(blocks@));
    copy
}

/// A copy of a list of reputation scores, in the same order.
pub fn clone_scores(scores: &Vec<(AuthorityIndex, u64)>) -> (copy: Vec<(AuthorityIndex, u64)>)
    ensures
        copy@ == scores@,
{
    let mut copy: Vec<(AuthorityIndex, u64)> = Vec::new();
    let mut i: usize = 0;
    while i < scores.len()
        invariant
            i <= scores@.len(),
            copy@ == scores@.take(i as int),
        decreases scores@.len() - i,
    {
        let score = scores[i];
        copy.push(score);
        assert(scores@.take(i + 1) =~= scores@.take(i as int).push(scores@[i as int]));
        i += 1;
    }
    assert(scores@.take(i as int) =~= scores@);
    copy
}

impl Clone for CommittedSubDag {
    fn clone(&self) -> (copy: Self)
        ensures
            copy@ == self@,
    {
        CommittedSubDag {
            leader: self.leader.clone(),
            blocks: clone_blocks(&self.blocks),
            timestamp_ms: self.timestamp_ms,
            commit_ref: self.commit_ref,
            reputation_scores_desc: clone_scores(&self.reputation_scores_desc),
        }
    }
}

impl CommittedSubDag {
    /// The payloads of all transactions, block after block.
    pub fn flatten_transactions(&self) -> (all: Vec<Vec<u8>>)
        ensures
            byte_rows(all@) == self@.transactions(),
            all@.len() == self@.count(),
            self@.count() <= usize::MAX,
    {
        proof {
            lemma_count_is_flattened_length(self@.bodies());
        }
        let mut all: Vec<Vec<u8>> = Vec::new();
        let mut i: usize = 0;
        assert(self@.bodies().take(0) =~= Seq::<Seq<Seq<u8>>>::empty());
        assert(byte_rows(all@) =~= Seq::<Seq<u8>>::empty());
        while i < self.blocks.len()
            invariant
                i <= self.blocks@.len(),
                byte_rows(all@) == self@.bodies().take(i as int).flatten(),
            decreases self.blocks@.len() - i,
        {
            let txs = self.blocks[i].block.transactions();
            let ghost before = byte_rows(all@);
            let ghost body = self@.bodies()[i as int];
            let mut j: usize = 0;
            assert(byte_rows(all@) =~= before + body.take(0));
            while j < txs.len()
                invariant
                    j <= txs@.len(),
                    payloads(txs@) == body,
                    byte_rows(all@) == before + body.take(j as int),
                decreases txs@.len() - j,
            {
                let bytes = slice_to_vec(txs[j].data());
                assert(bytes@ == body[j as int]);
                let ghost prev = byte_rows(all@);
                all.push(bytes);
                assert(byte_rows(all@) =~= prev.push(body[j as int]));
                assert(body.take(j + 1) =~= body.take(j as int).push(body[j as int]));
                j += 1;
            }
            assert(body.take(j as int) =~= body);
            assert(self@.bodies().take(i + 1) =~= self@.bodies().take(i as int).push(
                body,
            ));
            proof {
                self@.bodies().take(i as int).lemma_flatten_push(body);
            }
            i += 1;
        }
        assert(self@.bodies().take(i as int) =~= self@.bodies());
        assert(all@.len() == all.len());
        all
    }

    /// Whether the reputation scores are in the order that their name
    /// promises: highest first.
    pub fn has_descending_scores(&self) -> (sorted: bool)
        ensures
            sorted == scores_descending(self.reputation_scores_desc@),
    {
        let scores = &self.reputation_scores_desc;
        if scores.len() < 2 {
            return true;
        }
        let mut k: usize = 1;
        while k < scores.len()
            invariant
                1 <= k <= scores@.len(),
                scores@ == self.reputation_scores_desc@,
                scores_descending(scores@.take(k as int)),
            decreases scores@.len() - k,
        {
            if scores[k - 1].1 < scores[k].1 {
                assert(scores@[k - 1].1 < scores@[k as int].1);
                return false;
            }
            let ghost seen = scores@.take(k as int);
            let ghost next = scores@.take(k + 1);
            assert forall|i: int, j: int|
                #![trigger next[i], next[j]]
                0 <= i <= j < next.len() implies next[i].1 >= next[j].1 by {
                if j < k {
                    assert(seen[i].1 >= seen[j].1);
                } else if i < k {
                    assert(seen[i].1 >= seen[k - 1].1);
                }
            }
            k += 1;
        }
        assert(scores@.take(k as int) =~= scores@);
        true
    }

    /// The number of transactions over all blocks.
    ///
    /// The count stops at `usize::MAX`, which no sub-DAG that fits in memory
    /// reaches.
    pub fn len(&self) -> (n: usize)
        ensures
            n == if self@.count() <= usize::MAX {
                self@.count()
            } else {
                usize::MAX as nat
            },
    {
        let mut n: usize = 0;
        let mut i: usize = 0;
        assert(self@.bodies().take(0) =~= Seq::<Seq<Seq<u8>>>::empty());
        while i < self.blocks.len()
            invariant
                i <= self.blocks@.len(),
                n == if self@.offset(i as int) <= usize::MAX {
                    self@.offset(i as int)
                } else {
                    usize::MAX as nat
                },
            decreases self.blocks@.len() - i,
        {
            let txs = self.blocks[i].block.transactions();
            assert(self@.bodies().take(i + 1).drop_last() =~= self@.bodies().take(
                i as int,
            ));
            assert(payloads(txs@).len() == txs@.len());
            n = n.saturating_add(txs.len());
            i += 1;
        }
        assert(self@.bodies().take(i as int) =~= self@.bodies());
        n
    }
}

impl Default for CommittedSubDag {
    fn default() -> (subdag: Self)
        ensures
            subdag@ == (CommittedSubDagView {
                leader: BlockRefView::initial(),
                blocks: Seq::<VerifiedBlockView>::empty(),
                timestamp_ms: 0,
                commit_ref: CommitRefView::initial(),
                reputation_scores_desc: Seq::<(AuthorityIndex, u64)>::empty(),
            }),
    {
        let subdag = CommittedSubDag {
            leader: BlockRef::default(),
            blocks: Vec::new(),
            timestamp_ms: 0,
            commit_ref: CommitRef::default(),
            reputation_scores_desc: Vec::new(),
        };
        assert(subdag@.blocks =~= Seq::<VerifiedBlockView>::empty());
        subdag
    }
}

/// The transaction count and the flattened stream agree: a sub-DAG counts as
/// many transactions as its flattened stream holds.
pub proof fn law_len_is_flattened_length(subdag: CommittedSubDag)
    ensures
        subdag@.count() == subdag@.transactions().len(),
{
    lemma_count_is_flattened_length(subdag@.bodies());
}

/// The flattened stream is the blocks' transactions in block order and,
/// within a block, in stored order: transaction `j` of block `i` is found at
/// position `offset(i) + j`.
pub proof fn law_flattened_order(subdag: CommittedSubDag, i: int, j: int)
    requires
        0 <= i < subdag@.blocks.len(),
        0 <= j < subdag@.blocks[i].block.body.len(),
    ensures
        subdag@.offset(i) + j < subdag@.transactions().len(),
        subdag@.transactions()[subdag@.offset(i) + j] == subdag@.blocks[i].block.body[j],
{
    lemma_flattened_position(subdag@.bodies(), i, j);
}

} // verus!
