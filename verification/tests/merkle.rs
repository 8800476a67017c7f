use soroban_sdk::Env;
use soroban_templates::crypto::{commit_hash, entropy_hash};
use soroban_templates::merkle::{hash_pair_sorted, verify_merkle_multi_proof, verify_merkle_proof};

fn node(b: u8) -> [u8; 32] {
    [b; 32]
}

#[test]
fn commit_hash_is_sha256_of_secret_then_salt() {
    let env = Env::default();
    let h = commit_hash(&env, &[1u8; 32], &[2u8; 32]);
    let expected: [u8; 32] = [
        248, 24, 175, 211, 122, 109, 195, 188, 146, 251, 68, 115, 16, 17, 39, 112, 6, 219, 78, 250,
        110, 144, 35, 205, 116, 104, 192, 35, 53, 210, 42, 77,
    ];
    assert_eq!(h, expected);
}

#[test]
fn entropy_hash_appends_extra_bytes() {
    let env = Env::default();
    let with_extra = entropy_hash(&env, &[1u8; 32], &[2u8; 32], &[0, 0, 0, 42]);
    let without_extra = entropy_hash(&env, &[1u8; 32], &[2u8; 32], &[]);
    assert_eq!(without_extra, commit_hash(&env, &[1u8; 32], &[2u8; 32]));
    assert_ne!(with_extra, without_extra);
}

#[test]
fn hash_pair_sorted_is_commutative() {
    let env = Env::default();
    let a = node(3);
    let b = node(9);
    assert_eq!(hash_pair_sorted(&env, &a, &b), hash_pair_sorted(&env, &b, &a));
    assert_eq!(hash_pair_sorted(&env, &a, &b), commit_hash(&env, &a, &b));
    assert_ne!(hash_pair_sorted(&env, &a, &b), commit_hash(&env, &b, &a));
}

#[test]
fn hash_pair_sorted_orders_lexicographically() {
    let env = Env::default();
    let mut a = [0u8; 32];
    let mut b = [0u8; 32];
    a[0] = 1;
    b[31] = 200;
    // a > b lexicographically, so b comes first.
    assert_eq!(hash_pair_sorted(&env, &a, &b), commit_hash(&env, &b, &a));
}

#[test]
fn single_proof_two_leaf_tree() {
    let env = Env::default();
    let l0 = node(1);
    let l1 = node(2);
    let root = hash_pair_sorted(&env, &l0, &l1);
    assert!(verify_merkle_proof(&env, &l0, &vec![l1], &root));
    assert!(verify_merkle_proof(&env, &l1, &vec![l0], &root));
    assert!(!verify_merkle_proof(&env, &l0, &vec![l0], &root));
    assert!(verify_merkle_proof(&env, &root, &vec![], &root));
    assert!(!verify_merkle_proof(&env, &l0, &vec![], &root));
}

fn four_leaf_tree(env: &Env) -> ([[u8; 32]; 4], [u8; 32], [u8; 32], [u8; 32]) {
    let leaves = [node(10), node(20), node(30), node(40)];
    let left = hash_pair_sorted(env, &leaves[0], &leaves[1]);
    let right = hash_pair_sorted(env, &leaves[2], &leaves[3]);
    let root = hash_pair_sorted(env, &left, &right);
    (leaves, left, right, root)
}

#[test]
fn multi_proof_of_two_leaves_in_different_subtrees() {
    let env = Env::default();
    let (leaves, _left, _right, root) = four_leaf_tree(&env);
    // Prove leaves 0 and 2: hash(l0, p1), hash(l2, p3), then hash of both.
    let multi_leaves = vec![leaves[0], leaves[2]];
    let proof = vec![leaves[1], leaves[3]];
    let flags = vec![false, false, true];
    assert!(verify_merkle_multi_proof(&env, &multi_leaves, &proof, &flags, &root));
    // A proof hash left unconsumed is rejected.
    let proof_extra = vec![leaves[1], leaves[3], leaves[3]];
    assert!(!verify_merkle_multi_proof(&env, &multi_leaves, &proof_extra, &vec![false, false, true, true], &root));
}

#[test]
fn multi_proof_of_all_leaves() {
    let env = Env::default();
    let (leaves, _left, _right, root) = four_leaf_tree(&env);
    let all = leaves.to_vec();
    assert!(verify_merkle_multi_proof(&env, &all, &vec![], &vec![true, true, true], &root));
    let wrong_root = node(99);
    assert!(!verify_merkle_multi_proof(&env, &all, &vec![], &vec![true, true, true], &wrong_root));
}

#[test]
fn multi_proof_single_leaf_matches_single_proof() {
    let env = Env::default();
    let (leaves, _left, right, root) = four_leaf_tree(&env);
    let proof = vec![leaves[1], right];
    assert!(verify_merkle_proof(&env, &leaves[0], &proof, &root));
    assert!(verify_merkle_multi_proof(&env, &vec![leaves[0]], &proof, &vec![false, false], &root));
    assert!(!verify_merkle_multi_proof(&env, &vec![leaves[2]], &proof, &vec![false, false], &root));
}

#[test]
fn multi_proof_rejects_malformed_input() {
    let env = Env::default();
    let (leaves, _left, right, root) = four_leaf_tree(&env);
    // No leaves.
    assert!(!verify_merkle_multi_proof(&env, &vec![], &vec![root], &vec![], &root));
    // Inconsistent lengths.
    assert!(!verify_merkle_multi_proof(&env, &vec![leaves[0]], &vec![leaves[1], right], &vec![false], &root));
    // A flag that reads a node before it exists.
    assert!(!verify_merkle_multi_proof(&env, &vec![leaves[0]], &vec![leaves[1]], &vec![true], &root));
    // Single leaf, no flags: the leaf must be the root.
    assert!(verify_merkle_multi_proof(&env, &vec![root], &vec![], &vec![], &root));
    assert!(!verify_merkle_multi_proof(&env, &vec![leaves[0]], &vec![], &vec![], &root));
}
