//! Partial Merkle commitments of memory.
//!
//! The memory is committed as a binary tree of height 30 whose leaves are M31
//! elements: the QM31 word at address `a` gives the four leaves `4a..4a+4`.
//! Only the paths above present leaves are built; a missing sibling takes the
//! default hash of its depth, the root of an all-zero subtree. The nodes
//! recorded are exactly the hash operations on those paths, leaves first.
use crate::field::{M31, QM31, P};
use std::collections::HashMap;
use std::ops::Range;
use vstd::arithmetic::power2::pow2;
use vstd::std_specs::iter::IteratorSpec;
use vstd::prelude::*;

verus! {

broadcast use vstd::std_specs::hash::group_hash_axioms;

/// Maximum memory size, as a log of the number of QM31 words.
pub const MAX_MEMORY_LOG_SIZE: u32 = 28;

/// Number of M31 leaves per QM31 word, as a log.
pub const QM31_LOG_SIZE: u32 = 2;

/// Height of the tree: depth 0 is the root, depth 30 the leaves.
pub const TREE_HEIGHT: u32 = 30;

/// Width of the hash state fed by one node.
pub const HASH_INPUT_SIZE: usize = 16;

/// The input of one hash computation: left and right child, then zeros.
pub type HashInput = [M31; 16];

/// A memory word with its clock and multiplicity, as committed.
pub type MemoryWord = (QM31, M31, M31);

/// A tree value with the multiplicity of its emission.
#[derive(Debug, Clone, Copy, PartialEq, Eq, Structural)]
pub struct MerkleValue {
    /// The node's hash, or the leaf's value.
    pub value: M31,
    /// 1 for a built node or private leaf, 2 for a public leaf, 0 for a default node.
    pub multiplicity: M31,
}

impl MerkleValue {
    /// A built node or private leaf.
    pub fn new_node(value: M31) -> (r: Self)
        ensures
            r == (MerkleValue { value, multiplicity: M31(1) }),
    {
        Self { value, multiplicity: M31::one() }
    }

    /// A leaf whose address is public.
    pub fn new_public_node(value: M31) -> (r: Self)
        ensures
            r == (MerkleValue { value, multiplicity: M31(2) }),
    {
        Self { value, multiplicity: M31::from_u32(2) }
    }

    /// A default node standing for a missing subtree.
    pub fn new_intermediate(value: M31) -> (r: Self)
        ensures
            r == (MerkleValue { value, multiplicity: M31(0) }),
    {
        Self { value, multiplicity: M31::zero() }
    }
}

/// Whether the tree commits the initial or the final memory.
#[derive(Debug, Clone, Copy, PartialEq, Eq, Structural)]
pub enum TreeType {
    /// The memory before execution.
    Initial,
    /// The memory after execution.
    Final,
}

/// The public address ranges of a program run.
#[derive(Debug, Default)]
pub struct PublicAddressRanges {
    /// Addresses of the program.
    pub program: Range<u32>,
    /// Addresses of the inputs.
    pub input: Range<u32>,
    /// Addresses of the outputs.
    pub output: Range<u32>,
}

/// One hash operation of the tree: `parent = hash(left, right)`.
#[derive(Debug, Clone, Copy, PartialEq, Eq, Structural)]
pub struct NodeData {
    /// Index of the left child at its depth.
    pub index: M31,
    /// Depth of the children (30 for leaves).
    pub depth: u8,
    /// The left child.
    pub left_value: MerkleValue,
    /// The right child.
    pub right_value: MerkleValue,
    /// The parent, `hash(left, right)`.
    pub parent_value: MerkleValue,
}

impl NodeData {
    /// The node as the eight columns of its trace row:
    /// index, depth, the three values, the three multiplicities.
    pub fn to_m31_array(&self) -> (r: [M31; 8])
        ensures
            r@ == seq![
                self.index,
                M31(self.depth as u32),
                self.left_value.value,
                self.right_value.value,
                self.parent_value.value,
                self.left_value.multiplicity,
                self.right_value.multiplicity,
                self.parent_value.multiplicity,
            ],
    {
        let r = [
            self.index,
            M31::from_u32_unchecked(self.depth as u32),
            self.left_value.value,
            self.right_value.value,
            self.parent_value.value,
            self.left_value.multiplicity,
            self.right_value.multiplicity,
            self.parent_value.multiplicity,
        ];
        assert(r@ =~= seq![
            self.index,
            M31(self.depth as u32),
            self.left_value.value,
            self.right_value.value,
            self.parent_value.value,
            self.left_value.multiplicity,
            self.right_value.multiplicity,
            self.parent_value.multiplicity,
        ]);
        r
    }

    /// The input of the node's hash: left and right child, zeros after.
    pub fn to_hash_input(&self) -> (r: HashInput)
        ensures
            r[0] == self.left_value.value,
            r[1] == self.right_value.value,
            forall|i: int| 2 <= i < 16 ==> r[i] == M31(0),
    {
        let mut input: HashInput = [M31(0); 16];
        input[0] = self.left_value.value;
        input[1] = self.right_value.value;
        input
    }
}

/// A hash of two field elements, with the default hashes of each depth.
pub trait MerkleHasher: Sized {
    /// The hash function.
    spec fn spec_hash(left: M31, right: M31) -> M31;

    /// Hashes two children into their parent.
    fn hash(left: M31, right: M31) -> (r: M31)
        ensures
            r == Self::spec_hash(left, right),
    ;

    /// The default hash of each depth `0..=30`: zero at the leaves, and at each
    /// depth above, the hash of two copies of the default below.
    fn default_hashes() -> (r: Vec<M31>)
        ensures
            r@.len() == 31,
            r@[30] == M31(0),
            forall|d: int| 0 <= d < 30 ==> r@[d] == #[trigger] Self::spec_hash(r@[d + 1], r@[d + 1]),
    ;
}

/// The root of an all-zero subtree whose top is at `depth`.
pub open spec fn default_hash<H: MerkleHasher>(depth: int) -> M31
    decreases 30 - depth,
{
    if depth >= 30 {
        M31(0)
    } else {
        let child = default_hash::<H>(depth + 1);
        H::spec_hash(child, child)
    }
}

/// The default hashes of depths `0..=30`.
pub open spec fn default_hash_seq<H: MerkleHasher>() -> Seq<M31> {
    Seq::new(31, |d: int| default_hash::<H>(d))
}

/// Whether leaf `l` holds a memory value.
pub open spec fn leaf_present(memory: Map<u32, MemoryWord>, l: int) -> bool {
    0 <= l < pow2(30) && memory.contains_key((l / 4) as u32)
}

/// The value of a present leaf: coordinate `l % 4` of the word at `l / 4`.
pub open spec fn leaf_value(memory: Map<u32, MemoryWord>, l: int) -> M31 {
    memory[(l / 4) as u32].0.coords()[l % 4]
}

/// The value of the node at `(depth, index)` of the full tree over `memory`.
pub open spec fn node_value<H: MerkleHasher>(memory: Map<u32, MemoryWord>, depth: int, index: int) -> M31
    decreases 30 - depth,
{
    if depth >= 30 {
        if leaf_present(memory, index) {
            leaf_value(memory, index)
        } else {
            M31(0)
        }
    } else {
        H::spec_hash(
            node_value::<H>(memory, depth + 1, 2 * index),
            node_value::<H>(memory, depth + 1, 2 * index + 1),
        )
    }
}

/// Whether the subtree at `(depth, index)` contains a present leaf.
pub open spec fn occupied(memory: Map<u32, MemoryWord>, depth: int, index: int) -> bool
    decreases 30 - depth,
{
    if depth >= 30 {
        leaf_present(memory, index)
    } else {
        occupied(memory, depth + 1, 2 * index) || occupied(memory, depth + 1, 2 * index + 1)
    }
}

/// Whether `address` is public for the given tree.
pub open spec fn is_public_address(tree_type: TreeType, ranges: PublicAddressRanges, address: u32) -> bool {
    match tree_type {
        TreeType::Initial => (ranges.program.start <= address && address < ranges.program.end) || (
        ranges.input.start <= address && address < ranges.input.end),
        TreeType::Final => ranges.output.start <= address && address < ranges.output.end,
    }
}

/// The emitted value of a present node: leaves carry multiplicity 2 when
/// public and 1 otherwise; built nodes carry 1.
pub open spec fn present_value<H: MerkleHasher>(
    memory: Map<u32, MemoryWord>,
    tree_type: TreeType,
    ranges: PublicAddressRanges,
    depth: int,
    index: int,
) -> MerkleValue {
    MerkleValue {
        value: node_value::<H>(memory, depth, index),
        multiplicity: if depth >= 30 && is_public_address(tree_type, ranges, (index / 4) as u32) {
            M31(2)
        } else {
            M31(1)
        },
    }
}

/// A child as it appears in a node: its emitted value when its subtree is
/// occupied, the default hash of its depth with multiplicity 0 otherwise.
pub open spec fn child_value<H: MerkleHasher>(
    memory: Map<u32, MemoryWord>,
    tree_type: TreeType,
    ranges: PublicAddressRanges,
    depth: int,
    index: int,
) -> MerkleValue {
    if occupied(memory, depth, index) {
        present_value::<H>(memory, tree_type, ranges, depth, index)
    } else {
        MerkleValue { value: default_hash::<H>(depth), multiplicity: M31(0) }
    }
}

/// The node hashing the children of `parent` at `depth - 1` (children at `depth`).
pub open spec fn expected_node<H: MerkleHasher>(
    memory: Map<u32, MemoryWord>,
    tree_type: TreeType,
    ranges: PublicAddressRanges,
    depth: int,
    parent: int,
) -> NodeData {
    NodeData {
        index: M31((2 * parent) as u32),
        depth: depth as u8,
        left_value: child_value::<H>(memory, tree_type, ranges, depth, 2 * parent),
        right_value: child_value::<H>(memory, tree_type, ranges, depth, 2 * parent + 1),
        parent_value: MerkleValue { value: node_value::<H>(memory, depth - 1, parent), multiplicity: M31(1) },
    }
}

/// Node `a` comes before node `b`: deeper first, then by index.
pub open spec fn node_before(a: NodeData, b: NodeData) -> bool {
    a.depth > b.depth || (a.depth == b.depth && a.index.0 < b.index.0)
}

/// The nodes of the partial tree over `memory`, in order: for each depth from
/// 30 up to 1, one node per occupied parent, by increasing index.
pub open spec fn is_partial_tree<H: MerkleHasher>(
    memory: Map<u32, MemoryWord>,
    tree_type: TreeType,
    ranges: PublicAddressRanges,
    nodes: Seq<NodeData>,
) -> bool {
    is_partial_tree_below::<H>(memory, tree_type, ranges, 0, nodes)
}

// ---------------------------------------------------------------------------
// Lemmas on the full tree.

/// The defaults a hasher reports are the roots of all-zero subtrees.
pub proof fn lemma_default_hashes<H: MerkleHasher>(defaults: Seq<M31>)
    requires
        defaults.len() == 31,
        defaults[30] == M31(0),
        forall|d: int| 0 <= d < 30 ==> defaults[d] == #[trigger] H::spec_hash(defaults[d + 1], defaults[d + 1]),
    ensures
        defaults == default_hash_seq::<H>(),
{
    assert forall|d: int| 0 <= d <= 30 implies defaults[d] == default_hash::<H>(d) by {
        lemma_default_hash_at::<H>(defaults, d);
    }
    assert(defaults =~= default_hash_seq::<H>());
}

proof fn lemma_default_hash_at<H: MerkleHasher>(defaults: Seq<M31>, d: int)
    requires
        0 <= d <= 30,
        defaults.len() == 31,
        defaults[30] == M31(0),
        forall|d: int| 0 <= d < 30 ==> defaults[d] == #[trigger] H::spec_hash(defaults[d + 1], defaults[d + 1]),
    ensures
        defaults[d] == default_hash::<H>(d),
    decreases 30 - d,
{
    if d < 30 {
        lemma_default_hash_at::<H>(defaults, d + 1);
        assert(defaults[d] == H::spec_hash(defaults[d + 1], defaults[d + 1]));
    }
}

/// An occupied node at `depth` has an index below `2^depth`.
pub proof fn lemma_occupied_index_bound(memory: Map<u32, MemoryWord>, depth: int, index: int)
    requires
        0 <= depth <= 30,
        occupied(memory, depth, index),
    ensures
        0 <= index < pow2(depth as nat),
    decreases 30 - depth,
{
    if depth < 30 {
        if occupied(memory, depth + 1, 2 * index) {
            lemma_occupied_index_bound(memory, depth + 1, 2 * index);
        } else {
            lemma_occupied_index_bound(memory, depth + 1, 2 * index + 1);
        }
        vstd::arithmetic::power2::lemma_pow2_unfold((depth + 1) as nat);
    }
}

/// An unoccupied subtree has the default hash of its depth.
pub proof fn lemma_unoccupied_is_default<H: MerkleHasher>(memory: Map<u32, MemoryWord>, depth: int, index: int)
    requires
        depth <= 30,
        !occupied(memory, depth, index),
    ensures
        node_value::<H>(memory, depth, index) == default_hash::<H>(depth),
    decreases 30 - depth,
{
    if depth < 30 {
        lemma_unoccupied_is_default::<H>(memory, depth + 1, 2 * index);
        lemma_unoccupied_is_default::<H>(memory, depth + 1, 2 * index + 1);
    }
}

/// The parent of an occupied node is occupied.
pub proof fn lemma_occupied_parent(memory: Map<u32, MemoryWord>, depth: int, index: int)
    requires
        1 <= depth <= 30,
        index >= 0,
        occupied(memory, depth, index),
    ensures
        occupied(memory, depth - 1, index / 2),
{
    assert(index == 2 * (index / 2) || index == 2 * (index / 2) + 1);
}

// ---------------------------------------------------------------------------
// Building the tree.

/// Whether a sequence of addresses is strictly increasing.
pub open spec fn strictly_increasing(s: Seq<u32>) -> bool {
    forall|i: int, j: int| 0 <= i < j < s.len() ==> s[i] < s[j]
}

/// Sorts addresses increasingly with the standard library's unstable sort.
/// Trusted: `slice::sort_unstable` is documented to sort the slice in
/// ascending order; the contract claims the result is a nondecreasing
/// permutation of the input.
#[verifier::external_body]
fn sort_u32(v: &mut Vec<u32>)
    ensures
        final(v)@.to_multiset() == old(v)@.to_multiset(),
        forall|i: int, j: int| 0 <= i <= j < final(v)@.len() ==> final(v)@[i] <= final(v)@[j],
{
    v.sort_unstable();
}

/// The addresses of `memory`, increasing.
fn sorted_addresses(memory: &HashMap<u32, MemoryWord>) -> (r: Vec<u32>)
    ensures
        strictly_increasing(r@),
        forall|a: u32| memory@.contains_key(a) <==> r@.contains(a),
{
    let mut addrs: Vec<u32> = Vec::new();
    for a in it: memory.keys()
        invariant
            addrs@.len() == it.index(),
            forall|i: int| 0 <= i < it.index() ==> addrs@[i] == *it.seq()[i],
    {
        addrs.push(*a);
    }
    let ghost keys = vstd::std_specs::hash::spec_keys_iter(memory).remaining().map_values(|k: &u32| *k);
    assert(addrs@ =~= keys);
    proof {
        keys.lemma_multiset_has_no_duplicates();
    }
    let ghost before = addrs@;
    sort_u32(&mut addrs);
    proof {
        assert forall|x: u32| addrs@.to_multiset().contains(x) implies addrs@.to_multiset().count(x) == 1 by {
        }
        addrs@.lemma_multiset_has_no_duplicates_conv();
        assert forall|i: int, j: int| 0 <= i < j < addrs@.len() implies addrs@[i] < addrs@[j] by {
            assert(addrs@[i] <= addrs@[j]);
            assert(addrs@[i] != addrs@[j]);
        }
        let rem = vstd::std_specs::hash::spec_keys_iter(memory).remaining();
        assert(rem.unref() =~= keys);
        assert(keys.to_set() == memory@.dom());
        assert forall|a: u32| memory@.contains_key(a) <==> addrs@.contains(a) by {
            assert(keys.to_set().contains(a) <==> keys.contains(a));
            vstd::seq_lib::to_multiset_contains(before, a);
            vstd::seq_lib::to_multiset_contains(addrs@, a);
        }
    }
    addrs
}


/// A level of the tree: the occupied nodes of `depth`, by increasing index,
/// each with its emitted value.
pub open spec fn level_ok<H: MerkleHasher>(
    memory: Map<u32, MemoryWord>,
    tree_type: TreeType,
    ranges: PublicAddressRanges,
    depth: int,
    level: Seq<(u32, MerkleValue)>,
) -> bool {
    &&& forall|a: int, b: int| 0 <= a < b < level.len() ==> level[a].0 < level[b].0
    &&& forall|a: int|
        #![trigger level[a]]
        0 <= a < level.len() ==> occupied(memory, depth, level[a].0 as int) && level[a].1
            == present_value::<H>(memory, tree_type, ranges, depth, level[a].0 as int)
    &&& forall|j: int|
        #![trigger occupied(memory, depth, j)]
        occupied(memory, depth, j) ==> exists|a: int| 0 <= a < level.len() && level[a].0 == j
}

/// All addresses of `memory` fit the tree.
pub open spec fn addresses_fit(memory: Map<u32, MemoryWord>) -> bool {
    forall|a: u32| #[trigger] memory.contains_key(a) ==> a < 0x1000_0000
}

proof fn lemma_leaf_index(a: int, i: int)
    requires
        0 <= a,
        0 <= i < 4,
    ensures
        (4 * a + i) / 4 == a,
        (4 * a + i) % 4 == i,
{
    vstd::arithmetic::div_mod::lemma_fundamental_div_mod_converse(4 * a + i, 4, a, i);
}

/// Whether `address` is public for the given tree.
fn address_is_public(tree_type: TreeType, ranges: &PublicAddressRanges, address: u32) -> (r: bool)
    ensures
        r == is_public_address(tree_type, *ranges, address),
{
    match tree_type {
        TreeType::Initial => (ranges.program.start <= address && address < ranges.program.end) || (
        ranges.input.start <= address && address < ranges.input.end),
        TreeType::Final => ranges.output.start <= address && address < ranges.output.end,
    }
}

/// The leaves of the tree: four per memory word, by increasing index.
fn build_leaves<H: MerkleHasher>(
    memory: &HashMap<u32, MemoryWord>,
    addrs: &Vec<u32>,
    tree_type: TreeType,
    ranges: &PublicAddressRanges,
) -> (r: Vec<(u32, MerkleValue)>)
    requires
        addresses_fit(memory@),
        strictly_increasing(addrs@),
        forall|a: u32| memory@.contains_key(a) <==> addrs@.contains(a),
    ensures
        level_ok::<H>(memory@, tree_type, *ranges, 30, r@),
        r@.len() == 4 * addrs@.len(),
{
    let mut leaves: Vec<(u32, MerkleValue)> = Vec::new();
    let n = addrs.len();
    let mut p: usize = 0;
    while p < n
        invariant
            n == addrs@.len(),
            p <= n,
            addresses_fit(memory@),
            strictly_increasing(addrs@),
            forall|a: u32| memory@.contains_key(a) <==> addrs@.contains(a),
            leaves@.len() == 4 * p,
            forall|k: int|
                #![trigger leaves@[k]]
                0 <= k < leaves@.len() ==> leaves@[k].0 == 4 * addrs@[k / 4] + k % 4 && leaves@[k].1
                    == present_value::<H>(memory@, tree_type, *ranges, 30, leaves@[k].0 as int),
        decreases n - p,
    {
        let a = addrs[p];
        assert(addrs@.contains(a));
        assert(memory@.contains_key(a));
        assert(a < 0x1000_0000);
        let word = match memory.get(&a) {
            Some(w) => w.0,
            None => QM31::from_u32_unchecked(0, 0, 0, 0),
        };
        let values = word.to_m31_array();
        let public = address_is_public(tree_type, ranges, a);
        let base: u32 = a * 4;
        let mut i: u32 = 0;
        while i < 4
            invariant
                i <= 4,
                p < n,
                n == addrs@.len(),
                a == addrs@[p as int],
                a < 0x1000_0000,
                base == 4 * a,
                memory@.contains_key(a),
                values@ == memory@[a].0.coords(),
                public == is_public_address(tree_type, *ranges, a),
                leaves@.len() == 4 * p + i,
                forall|k: int|
                    #![trigger leaves@[k]]
                    0 <= k < leaves@.len() ==> leaves@[k].0 == 4 * addrs@[k / 4] + k % 4 && leaves@[k].1
                        == present_value::<H>(memory@, tree_type, *ranges, 30, leaves@[k].0 as int),
            decreases 4 - i,
        {
            let index = base + i;
            let value = values[i as usize];
            let mv = if public {
                MerkleValue::new_public_node(value)
            } else {
                MerkleValue::new_node(value)
            };
            proof {
                lemma_leaf_index(a as int, i as int);
                lemma_leaf_index(p as int, i as int);
                assert(pow2(30) == 0x4000_0000) by {
                    vstd::arithmetic::power2::lemma2_to64();
                }
                assert(leaf_present(memory@, index as int));
                assert(mv == present_value::<H>(memory@, tree_type, *ranges, 30, index as int));
            }
            leaves.push((index, mv));
            i = i + 1;
        }
        p = p + 1;
    }
    proof {
        assert forall|x: int, y: int| 0 <= x < y < leaves@.len() implies leaves@[x].0 < leaves@[y].0 by {
            let qx = x / 4;
            let qy = y / 4;
            vstd::arithmetic::div_mod::lemma_fundamental_div_mod(x, 4);
            vstd::arithmetic::div_mod::lemma_fundamental_div_mod(y, 4);
            if qx == qy {
            } else {
                assert(qx < qy);
                assert(addrs@[qx] < addrs@[qy]);
            }
        }
        assert forall|j: int| #![trigger occupied(memory@, 30, j)] occupied(memory@, 30, j) implies exists|k: int|
            0 <= k < leaves@.len() && leaves@[k].0 == j by {
            assert(pow2(30) == 0x4000_0000) by {
                vstd::arithmetic::power2::lemma2_to64();
            }
            assert(0 <= j < 0x4000_0000);
            let a = (j / 4) as u32;
            assert(a as int == j / 4);
            assert(memory@.contains_key(a));
            assert(addrs@.contains(a));
            let q = choose|q: int| 0 <= q < addrs@.len() && addrs@[q] == a;
            let i = j % 4;
            vstd::arithmetic::div_mod::lemma_fundamental_div_mod(j, 4);
            lemma_leaf_index(q, i);
            let k = 4 * q + i;
            assert(leaves@[k].0 == 4 * addrs@[q] + i);
            assert(leaves@[k].0 == j);
        }
        assert forall|k: int| #![trigger leaves@[k]] 0 <= k < leaves@.len() implies occupied(
            memory@,
            30,
            leaves@[k].0 as int,
        ) by {
            let q = k / 4;
            let i = k % 4;
            vstd::arithmetic::div_mod::lemma_fundamental_div_mod(k, 4);
            let a = addrs@[q];
            assert(addrs@.contains(a));
            lemma_leaf_index(a as int, i);
            assert(pow2(30) == 0x4000_0000) by {
                vstd::arithmetic::power2::lemma2_to64();
            }
        }
    }
    leaves
}

/// Hashes one level into the level above, appending one node per parent.
fn hash_level<H: MerkleHasher>(
    level: &Vec<(u32, MerkleValue)>,
    depth: u32,
    default_value: M31,
    nodes: &mut Vec<NodeData>,
    Ghost(memory): Ghost<Map<u32, MemoryWord>>,
    Ghost(tree_type): Ghost<TreeType>,
    Ghost(ranges): Ghost<PublicAddressRanges>,
) -> (parents: Vec<(u32, MerkleValue)>)
    requires
        1 <= depth <= 30,
        default_value == default_hash::<H>(depth as int),
        level_ok::<H>(memory, tree_type, ranges, depth as int, level@),
        level@.len() > 0,
    ensures
        level_ok::<H>(memory, tree_type, ranges, depth - 1, parents@),
        parents@.len() > 0,
        final(nodes)@.len() == old(nodes)@.len() + parents@.len(),
        forall|i: int| 0 <= i < old(nodes)@.len() ==> final(nodes)@[i] == old(nodes)@[i],
        forall|m: int|
            #![trigger parents@[m]]
            0 <= m < parents@.len() ==> final(nodes)@[old(nodes)@.len() + m] == expected_node::<H>(
                memory,
                tree_type,
                ranges,
                depth as int,
                parents@[m].0 as int,
            ),
{
    let ghost d = depth as int;
    let ghost old_nodes = nodes@;
    let n = level.len();
    let mut parents: Vec<(u32, MerkleValue)> = Vec::new();
    let mut i: usize = 0;
    proof {
        lemma_occupied_index_bound(memory, d, level@[0].0 as int);
    }
    while i < n
        invariant
            n == level@.len(),
            n > 0,
            1 <= d <= 30,
            d == depth,
            default_value == default_hash::<H>(d),
            level_ok::<H>(memory, tree_type, ranges, d, level@),
            0 <= i <= n,
            forall|a: int, b: int| 0 <= a < b < parents@.len() ==> parents@[a].0 < parents@[b].0,
            i == 0 ==> parents@.len() == 0,
            i > 0 ==> parents@.len() > 0 && parents@.last().0 == level@[i - 1].0 / 2,
            0 < i < n ==> level@[i as int].0 / 2 > level@[i - 1].0 / 2,
            forall|m: int|
                #![trigger parents@[m]]
                0 <= m < parents@.len() ==> occupied(memory, d - 1, parents@[m].0 as int)
                    && parents@[m].1 == present_value::<H>(memory, tree_type, ranges, d - 1, parents@[m].0 as int),
            forall|k: int|
                #![trigger level@[k]]
                0 <= k < i ==> exists|m: int| 0 <= m < parents@.len() && parents@[m].0 == level@[k].0 / 2,
            nodes@.len() == old_nodes.len() + parents@.len(),
            forall|x: int| 0 <= x < old_nodes.len() ==> nodes@[x] == old_nodes[x],
            forall|m: int|
                #![trigger parents@[m]]
                0 <= m < parents@.len() ==> nodes@[old_nodes.len() + m] == expected_node::<H>(
                    memory,
                    tree_type,
                    ranges,
                    d,
                    parents@[m].0 as int,
                ),
        decreases n - i,
    {
        let (idx, here) = level[i];
        let ghost j = (idx / 2) as int;
        proof {
            lemma_occupied_index_bound(memory, d, idx as int);
            vstd::arithmetic::power2::lemma_pow2_pos(d as nat);
            assert(pow2(30) == 0x4000_0000) by {
                vstd::arithmetic::power2::lemma2_to64();
            }
            if d < 30 {
                vstd::arithmetic::power2::lemma_pow2_strictly_increases(d as nat, 30);
            }
        }
        let left_index: u32;
        let left: MerkleValue;
        let right: MerkleValue;
        let mut take_two = false;
        if idx % 2 == 0 {
            left_index = idx;
            left = here;
            if i + 1 < n && level[i + 1].0 == idx + 1 {
                right = level[i + 1].1;
                take_two = true;
            } else {
                right = MerkleValue::new_intermediate(default_value);
                proof {
                    if occupied(memory, d, 2 * j + 1) {
                        let a = choose|a: int| 0 <= a < level@.len() && level@[a].0 == 2 * j + 1;
                        if a <= i {
                            assert(level@[a].0 <= level@[i as int].0);
                        } else {
                            assert(level@[i + 1].0 <= level@[a].0);
                        }
                    }
                    lemma_unoccupied_is_default::<H>(memory, d, 2 * j + 1);
                }
            }
        } else {
            left_index = idx - 1;
            left = MerkleValue::new_intermediate(default_value);
            right = here;
            proof {
                if occupied(memory, d, 2 * j) {
                    let a = choose|a: int| 0 <= a < level@.len() && level@[a].0 == 2 * j;
                    assert(a < i);
                    assert(level@[a].0 <= level@[i - 1].0);
                }
                lemma_unoccupied_is_default::<H>(memory, d, 2 * j);
            }
        }
        let parent_hash = H::hash(left.value, right.value);
        let parent = MerkleValue::new_node(parent_hash);
        let node = NodeData {
            index: M31::from_u32(left_index),
            depth: depth as u8,
            left_value: left,
            right_value: right,
            parent_value: parent,
        };
        proof {
            assert(left_index == 2 * j);
            assert(left_index < P);
            assert(left == child_value::<H>(memory, tree_type, ranges, d, 2 * j));
            assert(right == child_value::<H>(memory, tree_type, ranges, d, 2 * j + 1));
            assert(occupied(memory, d - 1, j));
            assert(node == expected_node::<H>(memory, tree_type, ranges, d, j));
        }
        let ghost old_parents = parents@;
        nodes.push(node);
        parents.push((idx / 2, parent));
        let ghost prev_i = i;
        if take_two {
            i = i + 2;
        } else {
            i = i + 1;
        }
        proof {
            assert forall|k: int| #![trigger level@[k]] 0 <= k < i implies exists|m: int|
                0 <= m < parents@.len() && parents@[m].0 == level@[k].0 / 2 by {
                if k >= prev_i {
                    assert(parents@[parents@.len() - 1].0 == level@[k].0 / 2);
                } else {
                    let m = choose|m: int| 0 <= m < old_parents.len() && old_parents[m].0 == level@[k].0 / 2;
                    assert(parents@[m] == old_parents[m]);
                }
            }
            if 0 < i < n {
                assert(level@[i as int].0 > level@[i - 1].0);
            }
        }
    }
    proof {
        assert forall|jj: int| #![trigger occupied(memory, d - 1, jj)] occupied(memory, d - 1, jj) implies exists|m: int|
            0 <= m < parents@.len() && parents@[m].0 == jj by {
            let c = if occupied(memory, d, 2 * jj) { 2 * jj } else { 2 * jj + 1 };
            assert(occupied(memory, d, c));
            let a = choose|a: int| 0 <= a < level@.len() && level@[a].0 == c;
            assert(level@[a].0 / 2 == jj);
        }
    }
    parents
}

/// `node` hashes the children of an occupied parent, at a depth above `depth`.
pub open spec fn is_tree_node<H: MerkleHasher>(
    memory: Map<u32, MemoryWord>,
    tree_type: TreeType,
    ranges: PublicAddressRanges,
    depth: int,
    node: NodeData,
) -> bool {
    exists|d: int, j: int|
        #![trigger expected_node::<H>(memory, tree_type, ranges, d, j)]
        depth < d <= 30 && occupied(memory, d - 1, j) && node == expected_node::<H>(
            memory,
            tree_type,
            ranges,
            d,
            j,
        )
}

/// The nodes of depths above `depth` (up to 30) of the partial tree, in order.
pub open spec fn is_partial_tree_below<H: MerkleHasher>(
    memory: Map<u32, MemoryWord>,
    tree_type: TreeType,
    ranges: PublicAddressRanges,
    depth: int,
    nodes: Seq<NodeData>,
) -> bool {
    &&& forall|i: int, k: int| 0 <= i < k < nodes.len() ==> node_before(nodes[i], nodes[k])
    &&& forall|i: int|
        #![trigger nodes[i]]
        0 <= i < nodes.len() ==> is_tree_node::<H>(memory, tree_type, ranges, depth, nodes[i])
    &&& forall|d: int, j: int|
        #![trigger occupied(memory, d - 1, j)]
        depth < d <= 30 && occupied(memory, d - 1, j) ==> exists|i: int|
            0 <= i < nodes.len() && nodes[i] == expected_node::<H>(memory, tree_type, ranges, d, j)
}

/// Every coordinate of a stored word is a leaf of the partial tree: the node
/// at depth 30 holding leaf `4 * address + k` among its two children gives
/// it the word's coordinate `k`, with multiplicity 2 when the address is
/// public and 1 otherwise. An address is public in the initial tree when it
/// lies in the program or the input range, in the final tree when it lies in
/// the output range.
pub proof fn lemma_leaf_of_address<H: MerkleHasher>(
    memory: Map<u32, MemoryWord>,
    tree_type: TreeType,
    ranges: PublicAddressRanges,
    nodes: Seq<NodeData>,
    address: u32,
    k: int,
)
    requires
        is_partial_tree::<H>(memory, tree_type, ranges, nodes),
        memory.contains_key(address),
        address < 0x1000_0000,
        0 <= k < 4,
    ensures
        exists|i: int|
            0 <= i < nodes.len() && (#[trigger] nodes[i]).depth == 30 && nodes[i].index.0 == 4 * address + k - k
                % 2 && ({
                let leaf = if k % 2 == 0 {
                    nodes[i].left_value
                } else {
                    nodes[i].right_value
                };
                let public = match tree_type {
                    TreeType::Initial => (ranges.program.start <= address && address < ranges.program.end)
                        || (ranges.input.start <= address && address < ranges.input.end),
                    TreeType::Final => ranges.output.start <= address && address < ranges.output.end,
                };
                &&& leaf.value == memory[address].0.coords()[k]
                &&& leaf.multiplicity == if public {
                    M31(2)
                } else {
                    M31(1)
                }
            }),
{
    let l = 4 * address + k;
    lemma_leaf_index(address as int, k);
    assert(pow2(30) == 0x4000_0000) by {
        vstd::arithmetic::power2::lemma2_to64();
    }
    assert(leaf_present(memory, l));
    assert(occupied(memory, 30, l));
    lemma_occupied_parent(memory, 30, l);
    let parent = l / 2;
    assert(occupied(memory, 29, parent));
    assert(occupied(memory, 30 - 1, parent));
    let i = choose|i: int|
        0 <= i < nodes.len() && nodes[i] == expected_node::<H>(memory, tree_type, ranges, 30, parent);
    assert(0 <= i < nodes.len() && nodes[i] == expected_node::<H>(memory, tree_type, ranges, 30, parent));
    assert(2 * parent == l - k % 2);
    assert(k % 2 == 0 ==> 2 * parent == l);
    assert(k % 2 == 1 ==> 2 * parent + 1 == l);
    assert(((l / 4) as u32) == address);
}

/// Builds the partial Merkle tree of `memory`.
///
/// Returns the hash operations of the tree, from the leaves (depth 30) up to
/// the children of the root (depth 1), each depth by increasing index, and
/// the root; an empty memory gives no nodes and no root. Leaves of public
/// addresses carry multiplicity 2, other present nodes 1, and missing
/// siblings the default hash of their depth with multiplicity 0.
pub fn build_partial_merkle_tree<H: MerkleHasher>(
    memory: &HashMap<u32, MemoryWord>,
    tree_type: TreeType,
    public_address_ranges: &PublicAddressRanges,
) -> (r: (Vec<NodeData>, Option<M31>))
    requires
        addresses_fit(memory@),
    ensures
        memory@.len() == 0 ==> r.0@.len() == 0 && r.1 is None,
        memory@.len() > 0 ==> r.1 == Some(node_value::<H>(memory@, 0, 0)),
        is_partial_tree::<H>(memory@, tree_type, *public_address_ranges, r.0@),
{
    let ghost mem = memory@;
    let ghost ranges = *public_address_ranges;
    if memory.is_empty() {
        proof {
            assert forall|d: int, j: int| #![trigger occupied(mem, d - 1, j)] 1 <= d <= 30 && occupied(mem, d - 1, j) implies false by {
                lemma_empty_memory_unoccupied(mem, d - 1, j);
            }
        }
        return (Vec::new(), None);
    }
    let addrs = sorted_addresses(memory);
    proof {
        let a = mem.dom().choose();
        assert(mem.dom().contains(a));
        assert(addrs@.contains(a));
    }
    let mut level = build_leaves::<H>(memory, &addrs, tree_type, public_address_ranges);
    let defaults = H::default_hashes();
    proof {
        lemma_default_hashes::<H>(defaults@);
    }
    let mut nodes: Vec<NodeData> = Vec::new();
    let mut depth: u32 = TREE_HEIGHT;
    while depth > 0
        invariant
            depth <= 30,
            level_ok::<H>(mem, tree_type, ranges, depth as int, level@),
            level@.len() > 0,
            defaults@ == default_hash_seq::<H>(),
            mem == memory@,
            ranges == *public_address_ranges,
            is_partial_tree_below::<H>(mem, tree_type, ranges, depth as int, nodes@),
        decreases depth,
    {
        let ghost old_nodes = nodes@;
        let default_value = defaults[depth as usize];
        let parents = hash_level::<H>(
            &level,
            depth,
            default_value,
            &mut nodes,
            Ghost(mem),
            Ghost(tree_type),
            Ghost(ranges),
        );
        proof {
            lemma_append_level::<H>(mem, tree_type, ranges, depth as int, old_nodes, parents@, nodes@);
        }
        level = parents;
        depth = depth - 1;
    }
    proof {
        assert forall|a: int| 0 <= a < level@.len() implies level@[a].0 == 0 by {
            lemma_occupied_index_bound(mem, 0, level@[a].0 as int);
            vstd::arithmetic::power2::lemma2_to64();
        }
        if level@.len() > 1 {
            assert(level@[0].0 < level@[1].0);
        }
        assert(occupied(mem, 0, level@[0].0 as int));
    }
    let root = level[0].1.value;
    (nodes, Some(root))
}

/// An empty memory occupies no subtree.
proof fn lemma_empty_memory_unoccupied(memory: Map<u32, MemoryWord>, depth: int, index: int)
    requires
        memory.dom() =~= Set::empty(),
    ensures
        !occupied(memory, depth, index),
    decreases 30 - depth,
{
    if depth < 30 {
        lemma_empty_memory_unoccupied(memory, depth + 1, 2 * index);
        lemma_empty_memory_unoccupied(memory, depth + 1, 2 * index + 1);
    }
}

/// Appending the nodes of one more depth extends the ordered partial tree.
proof fn lemma_append_level<H: MerkleHasher>(
    memory: Map<u32, MemoryWord>,
    tree_type: TreeType,
    ranges: PublicAddressRanges,
    depth: int,
    old_nodes: Seq<NodeData>,
    parents: Seq<(u32, MerkleValue)>,
    nodes: Seq<NodeData>,
)
    requires
        1 <= depth <= 30,
        is_partial_tree_below::<H>(memory, tree_type, ranges, depth, old_nodes),
        level_ok::<H>(memory, tree_type, ranges, depth - 1, parents),
        nodes.len() == old_nodes.len() + parents.len(),
        forall|i: int| 0 <= i < old_nodes.len() ==> nodes[i] == old_nodes[i],
        forall|m: int|
            #![trigger parents[m]]
            0 <= m < parents.len() ==> nodes[old_nodes.len() + m] == expected_node::<H>(
                memory,
                tree_type,
                ranges,
                depth,
                parents[m].0 as int,
            ),
    ensures
        is_partial_tree_below::<H>(memory, tree_type, ranges, depth - 1, nodes),
{
    let o = old_nodes.len();
    assert forall|m: int| 0 <= m < parents.len() implies (#[trigger] parents[m]).0 < 0x2000_0000 by {
        lemma_occupied_index_bound(memory, depth - 1, parents[m].0 as int);
        vstd::arithmetic::power2::lemma2_to64();
        if depth - 1 < 29 {
            vstd::arithmetic::power2::lemma_pow2_strictly_increases((depth - 1) as nat, 29);
        }
    }
    assert forall|i: int| 0 <= i < o implies (#[trigger] old_nodes[i]).depth > depth by {
        assert(is_tree_node::<H>(memory, tree_type, ranges, depth, old_nodes[i]));
        let (dd, j) = choose|dd: int, j: int|
            #![trigger expected_node::<H>(memory, tree_type, ranges, dd, j)]
            depth < dd <= 30 && occupied(memory, dd - 1, j) && old_nodes[i] == expected_node::<H>(
                memory,
                tree_type,
                ranges,
                dd,
                j,
            );
    }
    assert forall|i: int, k: int| 0 <= i < k < nodes.len() implies node_before(nodes[i], nodes[k]) by {
        if k < o {
            assert(nodes[i] == old_nodes[i]);
            assert(nodes[k] == old_nodes[k]);
        } else if i < o {
            assert(nodes[i] == old_nodes[i]);
            assert(old_nodes[i].depth > depth);
            assert(nodes[k] == expected_node::<H>(memory, tree_type, ranges, depth, parents[k - o].0 as int));
        } else {
            assert(parents[i - o].0 < parents[k - o].0);
            assert(nodes[i] == expected_node::<H>(memory, tree_type, ranges, depth, parents[i - o].0 as int));
            assert(nodes[k] == expected_node::<H>(memory, tree_type, ranges, depth, parents[k - o].0 as int));
        }
    }
    assert forall|i: int| #![trigger nodes[i]] 0 <= i < nodes.len() implies is_tree_node::<H>(
        memory,
        tree_type,
        ranges,
        depth - 1,
        nodes[i],
    ) by {
        if i < o {
            assert(nodes[i] == old_nodes[i]);
            assert(is_tree_node::<H>(memory, tree_type, ranges, depth, old_nodes[i]));
            let (dd, j) = choose|dd: int, j: int|
                #![trigger expected_node::<H>(memory, tree_type, ranges, dd, j)]
                depth < dd <= 30 && occupied(memory, dd - 1, j) && old_nodes[i] == expected_node::<H>(
                    memory,
                    tree_type,
                    ranges,
                    dd,
                    j,
                );
            assert(depth - 1 < dd <= 30 && occupied(memory, dd - 1, j) && nodes[i] == expected_node::<H>(
                memory,
                tree_type,
                ranges,
                dd,
                j,
            ));
        } else {
            let j = parents[i - o].0 as int;
            assert(occupied(memory, depth - 1, j));
            assert(nodes[i] == expected_node::<H>(memory, tree_type, ranges, depth, j));
        }
    }
    assert forall|d: int, j: int| #![trigger occupied(memory, d - 1, j)] depth - 1 < d <= 30 && occupied(memory, d - 1, j) implies exists|i: int|
        0 <= i < nodes.len() && nodes[i] == expected_node::<H>(memory, tree_type, ranges, d, j) by {
        if d > depth {
            let i = choose|i: int|
                0 <= i < old_nodes.len() && old_nodes[i] == expected_node::<H>(memory, tree_type, ranges, d, j);
            assert(nodes[i] == old_nodes[i]);
        } else {
            assert(d == depth);
            let m = choose|m: int| 0 <= m < parents.len() && parents[m].0 == j;
            assert(nodes[o + m] == expected_node::<H>(memory, tree_type, ranges, depth, parents[m].0 as int));
        }
    }
}

} // verus!
