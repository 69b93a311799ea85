use rollup_program::chain::submit_state_commitment;
use rollup_program::fraud::process_fraud_proof;
use rollup_program::merkle::{hash_pair, lt_bytes, verify_merkle_proof};
use rollup_program::state::{RollupProgramError, RollupState};

fn root_of(byte: u8) -> Vec<u8> {
    vec![byte; 32]
}

fn validator() -> Vec<u8> {
    vec![7u8; 32]
}

fn append_chain(n: u64) -> Vec<RollupState> {
    let mut chain: Vec<RollupState> = Vec::new();
    for i in 0..=n {
        let prev = chain.last();
        let c = submit_state_commitment(prev, i, root_of(i as u8), validator(), 1000 + i as i64)
            .expect("in-order append must succeed");
        chain.push(c);
    }
    chain
}

#[test]
fn first_batch_must_be_zero() {
    let r = submit_state_commitment(None, 1, root_of(0), validator(), 5);
    assert!(matches!(r, Err(RollupProgramError::InvalidBatchNumber)));
    let ok = submit_state_commitment(None, 0, root_of(0), validator(), 5).unwrap();
    assert_eq!(ok.batch_number, 0);
    assert_eq!(ok.root, root_of(0));
    assert_eq!(ok.validator, validator());
    assert_eq!(ok.timestamp, 5);
    assert!(!ok.finalized);
    assert!(ok.previous_roots.is_empty());
}

#[test]
fn in_order_appends_succeed_and_skips_fail() {
    let chain = append_chain(3);
    let last = chain.last().unwrap();
    // Skipping ahead fails.
    let r = submit_state_commitment(Some(last), 5, root_of(9), validator(), 9);
    assert!(matches!(r, Err(RollupProgramError::InvalidBatchNumber)));
    // Repeating the same batch number fails.
    let r = submit_state_commitment(Some(last), 3, root_of(9), validator(), 9);
    assert!(matches!(r, Err(RollupProgramError::InvalidBatchNumber)));
    // Batch number 0 with a predecessor fails rather than wrapping.
    let r = submit_state_commitment(Some(last), 0, root_of(9), validator(), 9);
    assert!(matches!(r, Err(RollupProgramError::InvalidBatchNumber)));
    // The correct next number succeeds.
    let r = submit_state_commitment(Some(last), 4, root_of(4), validator(), 9);
    assert!(r.is_ok());
}

#[test]
fn history_small_n() {
    let chain = append_chain(2);
    assert!(chain[0].previous_roots.is_empty());
    assert_eq!(chain[1].previous_roots, vec![root_of(0)]);
    assert_eq!(chain[2].previous_roots, vec![root_of(0), root_of(1)]);
}

#[test]
fn history_bounded_to_five() {
    let chain = append_chain(7);
    let last = chain.last().unwrap();
    assert_eq!(last.previous_roots.len(), 5);
    // Roots of batches 2..=6, oldest first.
    assert_eq!(
        last.previous_roots,
        vec![root_of(2), root_of(3), root_of(4), root_of(5), root_of(6)]
    );
}

#[test]
fn lexicographic_comparison_matches_slices() {
    let cases: [(&[u8], &[u8]); 6] = [
        (&[], &[]),
        (&[], &[1]),
        (&[1, 2], &[1, 2, 3]),
        (&[1, 2, 3], &[1, 3]),
        (&[2], &[1, 9]),
        (&[5, 5], &[5, 5]),
    ];
    for (a, b) in cases {
        let av = a.to_vec();
        let bv = b.to_vec();
        assert_eq!(lt_bytes(&av, &bv), av < bv, "compare {:?} {:?}", av, bv);
        assert_eq!(lt_bytes(&bv, &av), bv < av, "compare {:?} {:?}", bv, av);
    }
}

#[test]
fn pair_hash_is_order_independent() {
    let a = vec![1u8, 2, 3];
    let b = vec![9u8, 9];
    assert_eq!(hash_pair(&a, &b), hash_pair(&b, &a));
}

#[test]
fn pair_hash_is_a_real_digest() {
    let a = vec![1u8, 2];
    let b = vec![3u8, 4];
    let h = hash_pair(&a, &b);
    assert_eq!(h.len(), 32);
    assert_ne!(h, a);
    assert_ne!(h, b);
    let concat = vec![1u8, 2, 3, 4];
    assert_ne!(h, concat);
}

#[test]
fn pair_hash_matches_sha256_of_canonical_concatenation() {
    let a = vec![1u8, 2];
    let b = vec![3u8, 4];
    let expected = anchor_lang::solana_program::hash::hash(&[1u8, 2, 3, 4])
        .to_bytes()
        .to_vec();
    assert_eq!(hash_pair(&a, &b), expected);
    // The canonical smaller-first rule, not the argument order, decides.
    assert_eq!(hash_pair(&b, &a), expected);
}

#[test]
fn verify_inclusion_on_a_real_tree() {
    // Four leaves; the root hashes the two inner nodes.
    let leaves: Vec<Vec<u8>> = (0u8..4).map(|i| vec![i; 8]).collect();
    let n01 = hash_pair(&leaves[0], &leaves[1]);
    let n23 = hash_pair(&leaves[2], &leaves[3]);
    let root = hash_pair(&n01, &n23);
    // Proof for leaf 0: its sibling leaf 1, then the other inner node.
    let proof = vec![leaves[1].clone(), n23.clone()];
    assert!(verify_merkle_proof(leaves[0].clone(), proof.clone(), root.clone()));
    // Proof for leaf 3.
    let proof3 = vec![leaves[2].clone(), n01.clone()];
    assert!(verify_merkle_proof(leaves[3].clone(), proof3, root.clone()));
    // A leaf outside the tree is not included.
    assert!(!verify_merkle_proof(vec![9u8; 8], proof.clone(), root.clone()));
    // A tampered proof fails.
    let mut tampered = proof.clone();
    tampered[0][0] ^= 1;
    assert!(!verify_merkle_proof(leaves[0].clone(), tampered, root.clone()));
    // An empty proof only accepts the root itself.
    assert!(verify_merkle_proof(root.clone(), Vec::new(), root.clone()));
    assert!(!verify_merkle_proof(leaves[0].clone(), Vec::new(), root));
}

#[test]
fn verify_inclusion_is_deterministic() {
    let a = vec![1u8, 2, 3];
    let b = vec![4u8, 5];
    let root = hash_pair(&a, &b);
    let r1 = verify_merkle_proof(a.clone(), vec![b.clone()], root.clone());
    let r2 = verify_merkle_proof(a.clone(), vec![b.clone()], root.clone());
    assert_eq!(r1, r2);
    assert!(r1);
}

#[test]
fn included_leaf_rejects_the_fraud_claim() {
    let leaf = vec![1u8, 1, 1];
    let sibling = vec![2u8, 2];
    let root = hash_pair(&leaf, &sibling);
    let commitment =
        submit_state_commitment(None, 0, root, validator(), 42).unwrap();
    let r = process_fraud_proof(&commitment, leaf, vec![sibling]);
    assert!(matches!(r, Err(RollupProgramError::InvalidFraudProofClaim)));
}

#[test]
fn excluded_leaf_substantiates_the_fraud_claim() {
    let leaf = vec![1u8, 1, 1];
    let sibling = vec![2u8, 2];
    let root = hash_pair(&leaf, &sibling);
    let commitment =
        submit_state_commitment(None, 0, root.clone(), validator(), 42).unwrap();
    let other_leaf = vec![8u8, 8];
    let ev = process_fraud_proof(&commitment, other_leaf, vec![sibling]).unwrap();
    assert_eq!(ev.validator, commitment.validator);
    assert_eq!(ev.root, commitment.root);
    assert_eq!(ev.batch_number, commitment.batch_number);
    assert_eq!(ev.timestamp, commitment.timestamp);
}

#[test]
fn example_scenario_two_batches_and_a_dispute() {
    // Batch 0 commits R0; batch 1 commits R1 with batch 0 as predecessor.
    let leaf = vec![5u8, 6, 7];
    let sibling = vec![10u8, 11];
    let r0 = root_of(0);
    let r1 = hash_pair(&leaf, &sibling);
    let c0 = submit_state_commitment(None, 0, r0.clone(), validator(), 100).unwrap();
    let c1 = submit_state_commitment(Some(&c0), 1, r1.clone(), validator(), 101).unwrap();
    assert_eq!(c1.previous_roots, vec![r0]);
    // A claim with a valid proof for R1 is rejected.
    let r = process_fraud_proof(&c1, leaf.clone(), vec![sibling.clone()]);
    assert!(matches!(r, Err(RollupProgramError::InvalidFraudProofClaim)));
    // The same claim with one proof byte flipped is accepted.
    let mut flipped = sibling.clone();
    flipped[0] ^= 1;
    let ev = process_fraud_proof(&c1, leaf, vec![flipped]).unwrap();
    assert_eq!(ev.batch_number, 1);
    assert_eq!(ev.root, r1);
    assert_eq!(ev.validator, validator());
    assert_eq!(ev.timestamp, 101);
}
