//! The plain partial Merkle tree: the same tree as [`crate::merkle`], with
//! nodes recorded as indices and child values only, and a mock XOR hasher.
use crate::field::{M31, P};
pub use crate::merkle::{MerkleHasher, MAX_MEMORY_LOG_SIZE, QM31_LOG_SIZE, TREE_HEIGHT};
use crate::merkle::{
    addresses_fit, build_partial_merkle_tree as build_committed_tree, is_partial_tree,
    node_value, MemoryWord, PublicAddressRanges, TreeType,
};
use std::collections::HashMap;
use std::ops::Range;
use vstd::prelude::*;

verus! {

/// A node of the plain partial tree: the left child's index and depth, and
/// the two child values.
#[derive(Debug, Clone, Copy, PartialEq, Eq, Structural)]
pub struct NodeData {
    /// Index of the left child.
    pub index: u32,
    /// Depth of the children (30 for leaves).
    pub depth: u32,
    /// Value of the left child.
    pub value_left: M31,
    /// Value of the right child.
    pub value_right: M31,
}

/// The plain view of a committed node.
pub open spec fn plain_node(node: crate::merkle::NodeData) -> NodeData {
    NodeData {
        index: node.index.0,
        depth: node.depth as u32,
        value_left: node.left_value.value,
        value_right: node.right_value.value,
    }
}

/// Address ranges with no public address.
pub open spec fn no_public_ranges() -> PublicAddressRanges {
    PublicAddressRanges {
        program: Range { start: 0, end: 0 },
        input: Range { start: 0, end: 0 },
        output: Range { start: 0, end: 0 },
    }
}

/// Mock hash for testing: the XOR of the two children, reduced into the field.
#[derive(Clone, Copy, Debug)]
pub struct MockHasher;

impl MerkleHasher for MockHasher {
    open spec fn spec_hash(left: M31, right: M31) -> M31 {
        M31((left.0 ^ right.0) % P)
    }

    fn hash(left: M31, right: M31) -> (r: M31) {
        M31::from_u32(left.0 ^ right.0)
    }

    fn default_hashes() -> (r: Vec<M31>) {
        let mut defaults: Vec<M31> = Vec::new();
        let mut k: usize = 0;
        while k < 31
            invariant
                k <= 31,
                defaults@.len() == k,
                forall|d: int| 0 <= d < k ==> defaults@[d] == M31(0),
            decreases 31 - k,
        {
            defaults.push(M31::zero());
            k = k + 1;
        }
        let mut depth: usize = 30;
        while depth > 0
            invariant
                depth <= 30,
                defaults@.len() == 31,
                defaults@[30] == M31(0),
                forall|d: int| depth <= d < 30 ==> defaults@[d] == #[trigger] Self::spec_hash(defaults@[d + 1], defaults@[d + 1]),
            decreases depth,
        {
            let child = defaults[depth];
            let h = Self::hash(child, child);
            defaults.set(depth - 1, h);
            depth = depth - 1;
        }
        defaults
    }
}

/// Builds the plain partial Merkle tree of `memory`: the nodes of the
/// committed tree (leaves first, each depth by increasing index) without
/// multiplicities, and the root; an empty memory gives no nodes and no root.
pub fn build_partial_merkle_tree<H: MerkleHasher>(memory: &HashMap<u32, MemoryWord>) -> (r: (
    Vec<NodeData>,
    Option<M31>,
))
    requires
        addresses_fit(memory@),
    ensures
        memory@.len() == 0 ==> r.0@.len() == 0 && r.1 is None,
        memory@.len() > 0 ==> r.1 == Some(node_value::<H>(memory@, 0, 0)),
        exists|full: Seq<crate::merkle::NodeData>|
            #![trigger is_partial_tree::<H>(memory@, TreeType::Initial, no_public_ranges(), full)]
            is_partial_tree::<H>(memory@, TreeType::Initial, no_public_ranges(), full) && r.0@
                == full.map_values(|n: crate::merkle::NodeData| plain_node(n)),
{
    let ranges = PublicAddressRanges {
        program: Range { start: 0, end: 0 },
        input: Range { start: 0, end: 0 },
        output: Range { start: 0, end: 0 },
    };
    let (full, root) = build_committed_tree::<H>(memory, TreeType::Initial, &ranges);
    let mut nodes: Vec<NodeData> = Vec::new();
    let mut i: usize = 0;
    while i < full.len()
        invariant
            i <= full@.len(),
            nodes@ == full@.subrange(0, i as int).map_values(|n: crate::merkle::NodeData| plain_node(n)),
        decreases full@.len() - i,
    {
        let n = full[i];
        nodes.push(
            NodeData {
                index: n.index.0,
                depth: n.depth as u32,
                value_left: n.left_value.value,
                value_right: n.right_value.value,
            },
        );
        proof {
            assert(full@.subrange(0, i + 1).map_values(|n: crate::merkle::NodeData| plain_node(n))
                =~= full@.subrange(0, i as int).map_values(|n: crate::merkle::NodeData| plain_node(n)).push(
                plain_node(n),
            ));
        }
        i = i + 1;
    }
    proof {
        assert(full@.subrange(0, full@.len() as int) =~= full@);
        assert(ranges == no_public_ranges());
    }
    (nodes, root)
}

} // verus!
