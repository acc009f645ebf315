use cairo_m_prover::field::{M31, QM31};
use cairo_m_prover::merkle::MemoryWord;
use cairo_m_prover::partial_merkle::{
    build_partial_merkle_tree, MockHasher, NodeData, MAX_MEMORY_LOG_SIZE, TREE_HEIGHT,
};
use std::collections::HashMap;

fn word(x: u32) -> MemoryWord {
    (QM31::from_m31(M31::from_u32(x)), M31::zero(), M31::zero())
}

fn find_plain_node(tree: &[NodeData], index: u32, depth: u32) -> Option<&NodeData> {
    tree.iter().find(|node| node.index == index && node.depth == depth)
}

#[test]
fn partial_merkle_test_empty_tree() {
    let memory = HashMap::new();
    let (tree, root) = build_partial_merkle_tree::<MockHasher>(&memory);
    assert!(tree.is_empty());
    assert!(root.is_none());
}

#[test]
fn partial_merkle_test_single_element_tree() {
    let mut memory = HashMap::new();
    memory.insert(5u32, word(42));

    let (tree, root) = build_partial_merkle_tree::<MockHasher>(&memory);
    // Should have nodes up to the root
    assert!(!tree.is_empty());
    assert!(root.is_some());
}

#[test]
fn partial_merkle_test_multiple_elements_tree() {
    let mut memory = HashMap::new();
    // Create QM31 values with specific M31 components for testing
    memory.insert(
        0u32,
        (
            QM31::from_m31_array([M31::from_u32(10), M31::from_u32(11), M31::from_u32(12), M31::from_u32(13)]),
            M31::zero(),
            M31::zero(),
        ),
    );
    memory.insert(
        1u32,
        (
            QM31::from_m31_array([M31::from_u32(20), M31::from_u32(21), M31::from_u32(22), M31::from_u32(23)]),
            M31::zero(),
            M31::zero(),
        ),
    );

    let (tree, root) = build_partial_merkle_tree::<MockHasher>(&memory);

    // Verify the tree exists
    assert!(!tree.is_empty());
    assert!(root.is_some());

    // Check depth 30 nodes (leaves) - each QM31 value creates 4 consecutive leaves
    // Address 0 -> leaves 0,1,2,3
    // Address 1 -> leaves 4,5,6,7

    // First pair of M31 values from address 0
    let node = find_plain_node(&tree, 0, 30).expect("Should find node at index 0, depth 30");
    assert_eq!(node.value_left, M31::from_u32(10));
    assert_eq!(node.value_right, M31::from_u32(11));

    // Second pair of M31 values from address 0
    let node = find_plain_node(&tree, 2, 30).expect("Should find node at index 2, depth 30");
    assert_eq!(node.value_left, M31::from_u32(12));
    assert_eq!(node.value_right, M31::from_u32(13));

    // First pair of M31 values from address 1
    let node = find_plain_node(&tree, 4, 30).expect("Should find node at index 4, depth 30");
    assert_eq!(node.value_left, M31::from_u32(20));
    assert_eq!(node.value_right, M31::from_u32(21));
}

#[test]
fn partial_merkle_test_tree_builds_to_root() {
    // Test with addresses at extremes to force full tree height
    let mut memory = HashMap::new();
    memory.insert(0u32, word(1));
    // Use a high address within bounds (2^28 - 1)
    memory.insert((1u32 << MAX_MEMORY_LOG_SIZE) - 1, word(2));

    let (tree, root) = build_partial_merkle_tree::<MockHasher>(&memory);
    assert!(root.is_some());

    let min_depth = tree.iter().map(|node| node.depth).min().unwrap_or(1);

    // We should build down to depth 1 (not 0, since root is excluded from nodes)
    assert_eq!(min_depth, 1, "Tree should build down to depth 1 (parent of root)");

    // Also check we have leaves at depth 30
    let max_depth = tree.iter().map(|node| node.depth).max().unwrap_or(0);
    assert_eq!(max_depth, TREE_HEIGHT, "Tree should have leaves at depth {}", TREE_HEIGHT);
}
