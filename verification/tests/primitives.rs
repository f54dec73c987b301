use consensus_api::{BlockRef, CommitRef, Transaction, DIGEST_LENGTH};

#[test]
fn test_block_ref_default() {
    let block_ref = BlockRef::default();
    assert_eq!(block_ref.digest, [0u8; DIGEST_LENGTH]);
    assert_eq!(block_ref.round, 0);
}

#[test]
fn test_block_ref_equality() {
    let mut digest1 = [0u8; DIGEST_LENGTH];
    digest1[0] = 1;
    let block_ref1 = BlockRef {
        digest: digest1,
        round: 10,
        leader_address: String::new(),
        ..Default::default()
    };
    let block_ref2 = BlockRef {
        digest: digest1,
        round: 10,
        leader_address: String::new(),
        ..Default::default()
    };
    let block_ref3 = BlockRef {
        digest: digest1,
        round: 11,
        leader_address: String::new(),
        ..Default::default()
    };
    assert_eq!(block_ref1, block_ref2);
    assert_ne!(block_ref1, block_ref3);
}

#[test]
fn test_commit_ref_default() {
    let commit_ref = CommitRef::default();
    assert_eq!(commit_ref.digest, [0u8; DIGEST_LENGTH]);
    assert_eq!(commit_ref.round, 0);
}

#[test]
fn test_commit_ref_equality() {
    let mut digest1 = [0u8; DIGEST_LENGTH];
    digest1[0] = 2;
    let commit_ref1 = CommitRef {
        digest: digest1,
        round: 20,
    };
    let commit_ref2 = CommitRef {
        digest: digest1,
        round: 20,
    };
    let commit_ref3 = CommitRef {
        digest: digest1,
        round: 21,
    };
    assert_eq!(commit_ref1, commit_ref2);
    assert_ne!(commit_ref1, commit_ref3);
}

#[test]
fn test_transaction_new() {
    let data = vec![1, 2, 3, 4, 5];
    let tx = Transaction::new(data.clone());
    assert_eq!(tx.data(), &data);
}

#[test]
fn test_transaction_data() {
    let data = vec![10, 20, 30];
    let tx = Transaction::new(data.clone());
    assert_eq!(tx.data(), &data);
}

#[test]
fn test_transaction_into_data() {
    let data = vec![100, 200, 255];
    let tx = Transaction::new(data.clone());
    let extracted = tx.into_data();
    assert_eq!(extracted, data);
}

#[test]
fn test_transaction_as_ref() {
    let data = vec![5, 10, 15, 20];
    let tx = Transaction::new(data.clone());
    assert_eq!(tx.as_ref(), &data);
}

#[test]
fn test_transaction_equality() {
    let data1 = vec![1, 2, 3];
    let data2 = vec![1, 2, 3];
    let data3 = vec![1, 2, 4];
    let tx1 = Transaction::new(data1);
    let tx2 = Transaction::new(data2);
    let tx3 = Transaction::new(data3);
    assert_eq!(tx1, tx2);
    assert_ne!(tx1, tx3);
}

#[test]
fn test_transaction_clone() {
    let data = vec![42, 43, 44];
    let tx1 = Transaction::new(data);
    let tx2 = tx1.clone();
    assert_eq!(tx1.data(), tx2.data());
}

#[test]
fn transaction_accepts_empty_payload() {
    let tx = Transaction::new(Vec::new());
    assert!(tx.data().is_empty());
    assert_eq!(tx.into_data(), Vec::<u8>::new());
}

#[test]
fn transaction_equality_is_byte_exact() {
    assert_ne!(Transaction::new(vec![1, 2, 3]), Transaction::new(vec![1, 2]));
    assert_ne!(Transaction::new(vec![]), Transaction::new(vec![0]));
    assert_eq!(Transaction::new(vec![]), Transaction::new(vec![]));
}

#[test]
fn block_ref_equality_covers_every_field() {
    let base = BlockRef {
        leader_address: String::from("0xabc"),
        digest: [7u8; DIGEST_LENGTH],
        round: 3,
    };
    let mut other_address = base.clone();
    other_address.leader_address = String::from("0xabd");
    let mut other_digest = base.clone();
    other_digest.digest[DIGEST_LENGTH - 1] = 8;
    let mut other_round = base.clone();
    other_round.round = 4;
    assert_eq!(base, base.clone());
    assert_ne!(base, other_address);
    assert_ne!(base, other_digest);
    assert_ne!(base, other_round);
}

#[test]
fn block_ref_default_has_empty_address() {
    assert_eq!(BlockRef::default().leader_address, "");
}

#[test]
fn commit_ref_equality_covers_the_whole_digest() {
    let a = CommitRef {
        digest: [0u8; DIGEST_LENGTH],
        round: 5,
    };
    let mut b = a;
    b.digest[DIGEST_LENGTH - 1] = 1;
    assert_ne!(a, b);
    b.digest[DIGEST_LENGTH - 1] = 0;
    assert_eq!(a, b);
}

#[test]
fn block_and_commit_rounds_are_separate_counters() {
    let block_ref = BlockRef {
        leader_address: String::new(),
        digest: [1u8; DIGEST_LENGTH],
        round: 9,
    };
    let commit_ref = CommitRef {
        digest: [1u8; DIGEST_LENGTH],
        round: 2,
    };
    assert_eq!(block_ref.round, 9u64);
    assert_eq!(commit_ref.round, 2usize);
}
