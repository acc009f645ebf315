use cairo_m_prover::field::{M31, QM31};
use cairo_m_prover::merkle::{build_partial_merkle_tree, MerkleHasher, PublicAddressRanges, TreeType};
use cairo_m_prover::poseidon::PoseidonHash;
use std::collections::HashMap;

#[test]
fn test_poseidon_hash_basic() {
    // Basic test to ensure hash function works
    let left = M31::from_u32(42);
    let right = M31::from_u32(123);
    let hash1 = PoseidonHash::hash(left, right);

    // Hash should be deterministic
    let hash2 = PoseidonHash::hash(left, right);
    assert_eq!(hash1, hash2);

    // Different inputs should produce different outputs
    let hash3 = PoseidonHash::hash(right, left);
    assert_ne!(hash1, hash3);
}

#[test]
fn test_poseidon_default_hashes() {
    let defaults = PoseidonHash::default_hashes();

    // Should have correct length
    assert_eq!(defaults.len(), 31); // TREE_HEIGHT + 1

    // Leaf default should be zero
    assert_eq!(defaults[30], M31::zero());

    // Each level should be hash of two children from level below
    for depth in (0..30).rev() {
        let child_default = defaults[depth + 1];
        let expected = PoseidonHash::hash(child_default, child_default);
        assert_eq!(defaults[depth as usize], expected);
    }
}

#[test]
fn test_sbox() {
    // Test S-box function
    let x = M31::from_u32(7);
    let result = PoseidonHash::sbox(x);

    // Should be x^5
    let expected = x.mul(x).mul(x).mul(x).mul(x);
    assert_eq!(result, expected);
}

#[test]
fn test_poseidon_merkle_tree() {
    // Test building a merkle tree with Poseidon hash
    let mut memory = HashMap::new();
    memory.insert(0u32, (QM31::from_m31(M31::from_u32(42)), M31::zero(), M31::zero()));
    memory.insert(1u32, (QM31::from_m31(M31::from_u32(123)), M31::zero(), M31::zero()));

    let memory_clone = memory.clone();
    let ranges = PublicAddressRanges::default();
    let (tree, root) = build_partial_merkle_tree::<PoseidonHash>(&memory, TreeType::Initial, &ranges);

    // Should have a tree and root
    assert!(!tree.is_empty());
    assert!(root.is_some());

    // Root should be deterministic when building from same initial memory
    let (_, root2) = build_partial_merkle_tree::<PoseidonHash>(&memory_clone, TreeType::Initial, &ranges);
    assert_eq!(root, root2);
}
