use consensus_api::{
    BlockDigest, BlockRef, CommitRef, CommittedSubDag, SignedBlock, Transaction, VerifiedBlock,
};

fn create_test_block_ref(round: u64) -> BlockRef {
    let mut digest = [0u8; 32];
    digest[0] = round as u8;
    BlockRef {
        digest,
        round,
        leader_address: String::new(),
    }
}

fn create_test_commit_ref(round: usize) -> CommitRef {
    let mut digest = [0u8; 32];
    digest[0] = round as u8;
    CommitRef { digest, round }
}

fn create_test_signed_block(transactions: Vec<Transaction>) -> SignedBlock {
    SignedBlock::new(transactions)
}

fn create_test_verified_block(transactions: Vec<Transaction>) -> VerifiedBlock {
    let block = create_test_signed_block(transactions);
    let mut digest = [0u8; 32];
    digest[0] = 1;
    VerifiedBlock {
        block,
        digest: BlockDigest(digest),
    }
}

fn subdag_of(bodies: Vec<Vec<Vec<u8>>>) -> CommittedSubDag {
    CommittedSubDag {
        leader: create_test_block_ref(1),
        blocks: bodies
            .into_iter()
            .map(|body| create_test_verified_block(body.into_iter().map(Transaction::new).collect()))
            .collect(),
        timestamp_ms: 1000,
        commit_ref: create_test_commit_ref(1),
        reputation_scores_desc: vec![],
    }
}

#[test]
fn test_committed_subdag_default() {
    let subdag = CommittedSubDag::default();
    assert_eq!(subdag.blocks.len(), 0);
    assert_eq!(subdag.timestamp_ms, 0);
    assert_eq!(subdag.reputation_scores_desc.len(), 0);
}

#[test]
fn test_committed_subdag_flatten_transactions() {
    let block1 = create_test_verified_block(vec![
        Transaction::new(vec![1, 2, 3]),
        Transaction::new(vec![4, 5, 6]),
    ]);
    let block2 = create_test_verified_block(vec![Transaction::new(vec![7, 8, 9])]);
    let subdag = CommittedSubDag {
        leader: create_test_block_ref(1),
        blocks: vec![block1, block2],
        timestamp_ms: 1000,
        commit_ref: create_test_commit_ref(1),
        reputation_scores_desc: vec![],
    };
    let flattened = subdag.flatten_transactions();
    assert_eq!(flattened.len(), 3);
    assert_eq!(flattened[0], vec![1, 2, 3]);
    assert_eq!(flattened[1], vec![4, 5, 6]);
    assert_eq!(flattened[2], vec![7, 8, 9]);
}

#[test]
fn test_committed_subdag_len() {
    let block1 = create_test_verified_block(vec![
        Transaction::new(vec![1, 2, 3]),
        Transaction::new(vec![4, 5, 6]),
    ]);
    let block2 = create_test_verified_block(vec![Transaction::new(vec![7, 8, 9])]);
    let subdag = CommittedSubDag {
        leader: create_test_block_ref(1),
        blocks: vec![block1, block2],
        timestamp_ms: 1000,
        commit_ref: create_test_commit_ref(1),
        reputation_scores_desc: vec![],
    };
    assert_eq!(subdag.len(), 3);
}

#[test]
fn test_committed_subdag_empty() {
    let subdag = CommittedSubDag {
        leader: create_test_block_ref(1),
        blocks: vec![],
        timestamp_ms: 1000,
        commit_ref: create_test_commit_ref(1),
        reputation_scores_desc: vec![],
    };
    assert_eq!(subdag.len(), 0);
    assert_eq!(subdag.flatten_transactions().len(), 0);
}

#[test]
fn test_committed_subdag_clone() {
    let subdag = CommittedSubDag {
        leader: create_test_block_ref(1),
        blocks: vec![create_test_verified_block(vec![Transaction::new(vec![
            1, 2, 3,
        ])])],
        timestamp_ms: 1000,
        commit_ref: create_test_commit_ref(1),
        reputation_scores_desc: vec![(0, 100)],
    };
    let cloned = subdag.clone();
    assert_eq!(subdag.leader, cloned.leader);
    assert_eq!(subdag.timestamp_ms, cloned.timestamp_ms);
    assert_eq!(subdag.commit_ref, cloned.commit_ref);
    assert_eq!(subdag.blocks.len(), cloned.blocks.len());
    assert_eq!(subdag.reputation_scores_desc, cloned.reputation_scores_desc);
}

#[test]
fn test_verified_block_creation() {
    let transactions = vec![Transaction::new(vec![1, 2, 3])];
    let verified_block = create_test_verified_block(transactions.clone());
    assert_eq!(verified_block.block.transactions().len(), 1);
}

#[test]
fn test_verified_block_clone() {
    let verified_block = create_test_verified_block(vec![Transaction::new(vec![1, 2, 3])]);
    let cloned = verified_block.clone();
    assert_eq!(verified_block.digest, cloned.digest);
    assert_eq!(
        verified_block.block.transactions(),
        cloned.block.transactions()
    );
}

#[test]
fn committed_subdag_default_has_default_references() {
    let subdag = CommittedSubDag::default();
    assert_eq!(subdag.leader, BlockRef::default());
    assert_eq!(subdag.commit_ref, CommitRef::default());
    assert_eq!(subdag.len(), 0);
    assert!(subdag.flatten_transactions().is_empty());
}

#[test]
fn delivered_subdag_shows_its_two_transactions() {
    let block = create_test_verified_block(vec![
        Transaction::new(vec![1, 2, 3]),
        Transaction::new(vec![4, 5, 6]),
    ]);
    let subdag = CommittedSubDag {
        leader: create_test_block_ref(1),
        blocks: vec![block],
        timestamp_ms: 1000,
        commit_ref: create_test_commit_ref(1),
        reputation_scores_desc: vec![],
    };
    assert_eq!(subdag.leader.round, 1);
    assert_eq!(subdag.commit_ref.round, 1);
    assert_eq!(subdag.len(), 2);
    assert_eq!(
        subdag.flatten_transactions(),
        vec![vec![1u8, 2, 3], vec![4, 5, 6]]
    );
}

#[test]
fn len_equals_length_of_flattened_stream() {
    let shapes: Vec<Vec<Vec<Vec<u8>>>> = vec![
        vec![],
        vec![vec![]],
        vec![vec![], vec![], vec![]],
        vec![vec![vec![1]]],
        vec![vec![vec![1], vec![]], vec![], vec![vec![2, 3], vec![4], vec![5, 6, 7]]],
        vec![vec![vec![9; 10]; 7], vec![vec![8; 3]; 5]],
    ];
    for bodies in shapes {
        let subdag = subdag_of(bodies);
        assert_eq!(subdag.len(), subdag.flatten_transactions().len());
    }
}

#[test]
fn flattened_stream_is_the_concatenation_of_the_bodies() {
    let bodies: Vec<Vec<Vec<u8>>> = vec![
        vec![vec![1], vec![]],
        vec![],
        vec![vec![2, 3], vec![4], vec![5, 6, 7]],
        vec![vec![1]],
    ];
    let subdag = subdag_of(bodies.clone());
    let expected: Vec<Vec<u8>> = bodies.concat();
    assert_eq!(subdag.flatten_transactions(), expected);
    assert_eq!(
        subdag.flatten_transactions(),
        vec![vec![1u8], vec![], vec![2, 3], vec![4], vec![5, 6, 7], vec![1]]
    );
    assert_eq!(subdag.len(), 6);
}

#[test]
fn flattening_twice_gives_the_same_stream() {
    let subdag = subdag_of(vec![vec![vec![1, 2], vec![3]], vec![vec![4]]]);
    let first = subdag.flatten_transactions();
    let second = subdag.flatten_transactions();
    assert_eq!(first, second);
    assert_eq!(subdag.blocks.len(), 2);
}

#[test]
fn reputation_scores_keep_their_order() {
    let mut subdag = subdag_of(vec![]);
    subdag.reputation_scores_desc = vec![(2, 300), (0, 100), (1, 90)];
    let cloned = subdag.clone();
    assert_eq!(cloned.reputation_scores_desc, vec![(2, 300), (0, 100), (1, 90)]);
}

#[test]
fn descending_scores_are_recognised() {
    let mut subdag = subdag_of(vec![]);
    assert!(subdag.has_descending_scores());
    subdag.reputation_scores_desc = vec![(4, 7)];
    assert!(subdag.has_descending_scores());
    subdag.reputation_scores_desc = vec![(0, 100), (1, 90), (2, 90), (3, 0)];
    assert!(subdag.has_descending_scores());
    subdag.reputation_scores_desc = vec![(0, 100), (1, 90), (2, 91)];
    assert!(!subdag.has_descending_scores());
    subdag.reputation_scores_desc = vec![(0, 1), (1, 2)];
    assert!(!subdag.has_descending_scores());
}
