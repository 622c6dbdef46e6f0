use albatross_validator::block::{
    Block, ForkProof, MacroBlock, MacroHeader, MicroBlock, MicroExtrinsics, MicroHeader,
};
use albatross_validator::crypto::Signature;
use albatross_validator::slash::ForkProofPool;

fn evidence(n: u8, header_len: usize) -> ForkProof {
    ForkProof {
        header1: vec![n; header_len],
        header2: vec![n.wrapping_add(1); header_len],
        justification1: Signature { bytes: [n; 95] },
        justification2: Signature { bytes: [n; 95] },
    }
}

fn micro(number: u32, proofs: Vec<ForkProof>) -> Block {
    Block::Micro(MicroBlock {
        header: MicroHeader { block_number: number, view_number: 0, timestamp: 0 },
        extrinsics: Some(MicroExtrinsics { fork_proofs: proofs }),
    })
}

fn holds(pool: &ForkProofPool, proofs: &[ForkProof]) -> Vec<bool> {
    proofs.iter().map(|p| pool.contains(p)).collect()
}

#[test]
fn insert_holds_each_proof_once() {
    let mut pool = ForkProofPool::new();
    assert_eq!(pool.len(), 0);
    assert!(pool.insert(evidence(1, 10)));
    assert!(!pool.insert(evidence(1, 10)));
    assert!(pool.insert(evidence(2, 10)));
    assert_eq!(pool.len(), 2);
    assert!(pool.contains(&evidence(1, 10)));
    assert!(!pool.contains(&evidence(1, 11)));
    pool.remove(&evidence(1, 10));
    assert_eq!(pool.len(), 1);
    pool.remove(&evidence(1, 10));
    assert_eq!(pool.len(), 1);
}

#[test]
fn serialized_size() {
    assert_eq!(evidence(1, 0).serialized_size(), Some(194));
    assert_eq!(evidence(1, 10).serialized_size(), Some(214));
}

#[test]
fn apply_removes_and_revert_restores() {
    let a = evidence(1, 10);
    let b = evidence(2, 10);
    let c = evidence(3, 10);
    let mut pool = ForkProofPool::new();
    pool.insert(a.clone());
    pool.insert(b.clone());
    pool.insert(c.clone());
    let block = micro(5, vec![b.clone(), evidence(9, 10)]);
    pool.apply_block(&block);
    assert_eq!(holds(&pool, &[a.clone(), b.clone(), c.clone()]), vec![true, false, true]);
    assert_eq!(pool.len(), 2);
    pool.revert_block(&block);
    assert_eq!(holds(&pool, &[a, b, c, evidence(9, 10)]), vec![true, true, true, true]);
    assert_eq!(pool.len(), 4);
}

#[test]
fn blocks_without_fork_proofs_change_nothing() {
    let mut pool = ForkProofPool::new();
    pool.insert(evidence(1, 10));
    let macro_block = Block::Macro(MacroBlock {
        header: MacroHeader { block_number: 8, view_number: 0, timestamp: 0 },
        extrinsics: None,
        is_election: false,
    });
    let bare = Block::Micro(MicroBlock {
        header: MicroHeader { block_number: 9, view_number: 0, timestamp: 0 },
        extrinsics: None,
    });
    for block in [&macro_block, &bare, &micro(10, vec![])] {
        pool.apply_block(block);
        pool.revert_block(block);
        assert_eq!(pool.len(), 1);
    }
}

#[test]
fn fork_proofs_for_a_block_fit_the_budget() {
    let mut pool = ForkProofPool::new();
    for n in 0..6u8 {
        pool.insert(evidence(n, 3));
    }
    // Each proof takes 200 bytes.
    assert_eq!(pool.get_fork_proofs_for_block(1000).len(), 5);
    assert_eq!(pool.get_fork_proofs_for_block(999).len(), 4);
    assert_eq!(pool.get_fork_proofs_for_block(200).len(), 1);
    assert_eq!(pool.get_fork_proofs_for_block(199).len(), 0);
    assert_eq!(pool.get_fork_proofs_for_block(0).len(), 0);
    assert_eq!(pool.get_fork_proofs_for_block(usize::MAX).len(), 6);
    let first = pool.get_fork_proofs_for_block(400);
    assert_eq!(first, vec![evidence(0, 3), evidence(1, 3)]);
}

#[test]
fn a_proof_that_does_not_fit_ends_the_batch() {
    let mut pool = ForkProofPool::new();
    pool.insert(evidence(0, 3));
    pool.insert(evidence(1, 500));
    pool.insert(evidence(2, 3));
    assert_eq!(pool.get_fork_proofs_for_block(1000), vec![evidence(0, 3)]);
    assert!(ForkProofPool::new().get_fork_proofs_for_block(1000).is_empty());
}
