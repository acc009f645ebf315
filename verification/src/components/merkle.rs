//! Component proving the partial Merkle trees of the memory: one row per node,
//! with the node's index and depth, its two children and its parent.
//!
//! Columns: enabler, index, depth, left value, right value, parent value,
//! the three multiplicities, and the root of the node's tree. The
//! constraints check that the enabler is a boolean and that each
//! multiplicity is 0, 1 or 2.
use crate::adapter::{is_import_of, MerkleTrees, ProverInput};
use crate::io::State;
use crate::memory::{BundleView, IteratorView};
use crate::components::{
    component_log_sizes, is_component_log_sizes, is_trace_log_size, rows_of, trace_log_size,
    SECURE_EXTENSION_DEGREE,
};
use crate::field::{fmod, fmul, fsub, M31};
use crate::merkle::{
    expected_node, is_partial_tree, is_tree_node, MemoryWord, MerkleHasher, NodeData,
    PublicAddressRanges, TreeType,
};
use vstd::prelude::*;

verus! {

/// Number of trace columns.
pub const N_TRACE_COLUMNS: usize = 10;
/// Number of lookups into the Merkle relation per row.
pub const N_MERKLE_LOOKUPS: usize = 3;
/// Number of lookups into the Poseidon2 relation per row.
pub const N_POSEIDON2_LOOKUPS: usize = 2;
/// Number of interaction columns: four per pair of lookups.
pub const N_INTERACTION_COLUMNS: usize = SECURE_EXTENSION_DEGREE * ((N_MERKLE_LOOKUPS + N_POSEIDON2_LOOKUPS + 1) / 2);

/// The claim of the component: the log size of its trace.
#[derive(Clone, Copy, Debug, Default, PartialEq, Eq, Structural)]
pub struct Claim {
    /// Log2 of the number of rows.
    pub log_size: u32,
}

impl Claim {
    /// The log sizes of the component's columns, tree by tree.
    pub fn log_sizes(&self) -> (r: Vec<Vec<u32>>)
        ensures
            is_component_log_sizes(r@, self.log_size, N_TRACE_COLUMNS as nat, N_INTERACTION_COLUMNS as nat),
    {
        component_log_sizes(self.log_size, N_TRACE_COLUMNS, N_INTERACTION_COLUMNS)
    }
}

/// The constraint evaluator of the component.
#[derive(Clone, Copy, Debug, PartialEq, Eq, Structural)]
pub struct Eval {
    /// The claim the evaluator checks.
    pub claim: Claim,
}

impl Eval {
    /// Log2 of the number of rows of the evaluated trace.
    pub fn log_size(&self) -> (r: u32)
        ensures
            r == self.claim.log_size,
    {
        self.claim.log_size
    }

    /// Bound on the log degree of the constraints: one more than the log size.
    pub fn max_constraint_log_degree_bound(&self) -> (r: u32)
        requires
            self.claim.log_size < u32::MAX,
        ensures
            r == self.claim.log_size + 1,
    {
        self.claim.log_size + 1
    }
}


// ---------------------------------------------------------------------------
// The trace and its constraints.

/// The trace row of a node of a tree with the given root.
pub open spec fn spec_node_row(node: NodeData, root: M31) -> Seq<M31> {
    seq![
        M31(1),
        node.index,
        M31(node.depth as u32),
        node.left_value.value,
        node.right_value.value,
        node.parent_value.value,
        node.left_value.multiplicity,
        node.right_value.multiplicity,
        node.parent_value.multiplicity,
        root
    ]
}

/// The trace written for the trees at `log_size`: a row per node of the
/// initial tree with its root, then per node of the final tree with its
/// root, then rows of zeros up to `2^log_size` rows.
pub open spec fn spec_trace(
    initial: Seq<NodeData>,
    initial_root: M31,
    last: Seq<NodeData>,
    final_root: M31,
    log_size: u32,
) -> Seq<Seq<M31>> {
    Seq::new(
        rows_of(log_size as nat),
        |i: int|
            if i < initial.len() {
                spec_node_row(initial[i], initial_root)
            } else if i < initial.len() + last.len() {
                spec_node_row(last[i - initial.len()], final_root)
            } else {
                Seq::new(10, |_k: int| M31(0))
            },
    )
}

/// The root a written row carries: that of a non-empty tree, or zero.
pub open spec fn root_or_zero(root: Option<M31>) -> M31 {
    match root {
        Some(r) => r,
        None => M31(0),
    }
}

/// Writes the row of a node.
fn node_row(node: &NodeData, root: M31) -> (r: [M31; 10])
    ensures
        r@ == spec_node_row(*node, root),
{
    let a = node.to_m31_array();
    let r = [M31::one(), a[0], a[1], a[2], a[3], a[4], a[5], a[6], a[7], root];
    assert(r@ =~= spec_node_row(*node, root));
    r
}

impl Claim {
    /// Writes the trace of the component for the Merkle trees: the nodes of
    /// the initial tree, then of the final tree, padded with zero rows to a
    /// power of two of at least `2^LOG_N_LANES` rows, and its claim.
    pub fn write_trace(merkle_trees: &MerkleTrees) -> (r: (Claim, Vec<[M31; 10]>))
        requires
            merkle_trees.initial_tree@.len() + merkle_trees.final_tree@.len() <= 0x8000_0000,
            merkle_trees.initial_tree@.len() > 0 ==> merkle_trees.initial_root is Some,
            merkle_trees.final_tree@.len() > 0 ==> merkle_trees.final_root is Some,
        ensures
            is_trace_log_size(merkle_trees.initial_tree@.len() + merkle_trees.final_tree@.len(), r.0.log_size),
            r.1@.len() == rows_of(r.0.log_size as nat),
            forall|i: int|
                0 <= i < r.1@.len() ==> (#[trigger] r.1@[i])@ == spec_trace(
                    merkle_trees.initial_tree@,
                    root_or_zero(merkle_trees.initial_root),
                    merkle_trees.final_tree@,
                    root_or_zero(merkle_trees.final_root),
                    r.0.log_size,
                )[i],
    {
        let n_initial = merkle_trees.initial_tree.len();
        let n_final = merkle_trees.final_tree.len();
        let (log_size, n_rows) = trace_log_size(n_initial + n_final);
        let initial_root = match merkle_trees.initial_root {
            Some(r) => r,
            None => M31(0),
        };
        let final_root = match merkle_trees.final_root {
            Some(r) => r,
            None => M31(0),
        };
        let ghost trace = spec_trace(
            merkle_trees.initial_tree@,
            initial_root,
            merkle_trees.final_tree@,
            final_root,
            log_size,
        );
        let mut rows: Vec<[M31; 10]> = Vec::new();
        let mut i: usize = 0;
        while i < n_rows
            invariant
                i <= n_rows,
                n_rows == rows_of(log_size as nat),
                n_initial == merkle_trees.initial_tree@.len(),
                n_final == merkle_trees.final_tree@.len(),
                n_initial + n_final <= 0x8000_0000,
                trace == spec_trace(merkle_trees.initial_tree@, initial_root, merkle_trees.final_tree@, final_root, log_size),
                rows@.len() == i,
                forall|j: int| 0 <= j < i ==> (#[trigger] rows@[j])@ == trace[j],
            decreases n_rows - i,
        {
            let row = if i < n_initial {
                node_row(&merkle_trees.initial_tree[i], initial_root)
            } else if i < n_initial + n_final {
                node_row(&merkle_trees.final_tree[i - n_initial], final_root)
            } else {
                let z = [M31(0); 10];
                assert(z@ =~= Seq::new(10, |_k: int| M31(0)));
                z
            };
            rows.push(row);
            i = i + 1;
        }
        (Claim { log_size }, rows)
    }
}

/// `m` is a multiplicity of the Merkle relation: `m * (m - 1) * (m - 2)`.
pub open spec fn multiplicity_check(m: M31) -> M31 {
    fmul(fmul(m, fsub(m, M31(1))), fsub(m, fmul(M31(1), M31(2))))
}

/// The polynomial constraints of a row, each of which must vanish: the
/// enabler is a boolean and each of the three multiplicities is 0, 1 or 2.
pub open spec fn spec_constraints(row: Seq<M31>) -> Seq<M31> {
    seq![
        fmul(row[0], fsub(M31(1), row[0])),
        multiplicity_check(row[6]),
        multiplicity_check(row[7]),
        multiplicity_check(row[8])
    ]
}

/// The multiplicity check of a value.
fn eval_multiplicity_check(m: M31) -> (r: M31)
    ensures
        r == multiplicity_check(m),
{
    let one = M31::one();
    m.mul(m.sub(one)).mul(m.sub(one.mul(M31(2))))
}

impl Eval {
    /// Evaluates the polynomial constraints of the component on one row of
    /// its trace, in the order [`spec_constraints`] lists them.
    pub fn evaluate(&self, row: &[M31; 10]) -> (r: Vec<M31>)
        ensures
            r@ == spec_constraints(row@),
    {
        let e = row[0];
        let c = vec![
            e.mul(M31::one().sub(e)),
            eval_multiplicity_check(row[6]),
            eval_multiplicity_check(row[7]),
            eval_multiplicity_check(row[8]),
        ];
        assert(c@ =~= spec_constraints(row@));
        c
    }
}

/// The multiplicities of a node are each 0, 1 or 2.
pub open spec fn multiplicities_ok(node: NodeData) -> bool {
    let ok = |m: M31| m == M31(0) || m == M31(1) || m == M31(2);
    ok(node.left_value.multiplicity) && ok(node.right_value.multiplicity) && ok(node.parent_value.multiplicity)
}

/// A multiplicity of 0, 1 or 2 passes its check.
proof fn lemma_multiplicity_check(m: M31)
    requires
        m == M31(0) || m == M31(1) || m == M31(2),
    ensures
        multiplicity_check(m) == M31(0),
{
    assert(fmod(0) == 0);
    assert forall|x: M31| #[trigger] fmul(M31(0), x) == M31(0) by {
        assert(0 * x.0 == 0);
    }
    assert forall|x: M31| #[trigger] fmul(x, M31(0)) == M31(0) by {
        assert(x.0 * 0 == 0);
    }
    assert(fmul(M31(1), M31(2)) == M31(2)) by {
        vstd::arithmetic::div_mod::lemma_small_mod(2, crate::field::P as nat);
    }
    assert(fsub(M31(1), M31(1)) == M31(0));
    assert(fsub(M31(2), M31(2)) == M31(0));
}

/// Every node of a partial Merkle tree has multiplicities 0, 1 or 2: a
/// default child 0, a built node or private leaf 1, a public leaf 2.
pub proof fn lemma_tree_multiplicities<H: MerkleHasher>(
    memory: Map<u32, MemoryWord>,
    tree_type: TreeType,
    ranges: PublicAddressRanges,
    nodes: Seq<NodeData>,
)
    requires
        is_partial_tree::<H>(memory, tree_type, ranges, nodes),
    ensures
        forall|i: int| 0 <= i < nodes.len() ==> multiplicities_ok(#[trigger] nodes[i]),
{
    assert forall|i: int| 0 <= i < nodes.len() implies multiplicities_ok(#[trigger] nodes[i]) by {
        assert(is_tree_node::<H>(memory, tree_type, ranges, 0, nodes[i]));
        let (d, j) = choose|d: int, j: int|
            #![trigger expected_node::<H>(memory, tree_type, ranges, d, j)]
            0 < d <= 30 && crate::merkle::occupied(memory, d - 1, j) && nodes[i] == expected_node::<H>(
                memory,
                tree_type,
                ranges,
                d,
                j,
            );
    }
}

/// Every row of the trace written for two trees satisfies every polynomial
/// constraint of the component when every node's multiplicities are 0, 1
/// or 2, as they are for partial Merkle trees ([`lemma_tree_multiplicities`]).
pub proof fn lemma_trace_satisfies_constraints(
    initial: Seq<NodeData>,
    initial_root: M31,
    last: Seq<NodeData>,
    final_root: M31,
    log_size: u32,
)
    requires
        forall|i: int| 0 <= i < initial.len() ==> multiplicities_ok(#[trigger] initial[i]),
        forall|i: int| 0 <= i < last.len() ==> multiplicities_ok(#[trigger] last[i]),
    ensures
        forall|i: int|
            0 <= i < rows_of(log_size as nat) ==> spec_constraints(
                #[trigger] spec_trace(initial, initial_root, last, final_root, log_size)[i],
            ) == Seq::new(4, |_k: int| M31(0)),
{
    let trace = spec_trace(initial, initial_root, last, final_root, log_size);
    assert(fmod(0) == 0);
    assert(fmul(M31(1), fsub(M31(1), M31(1))) == M31(0)) by {
        assert(fsub(M31(1), M31(1)) == M31(0));
        assert(1 * 0 == 0);
    }
    assert(fmul(M31(0), fsub(M31(1), M31(0))) == M31(0)) by {
        assert(0 * fsub(M31(1), M31(0)).0 == 0);
    }
    assert forall|i: int| 0 <= i < rows_of(log_size as nat) implies spec_constraints(#[trigger] trace[i])
        == Seq::new(4, |_k: int| M31(0)) by {
        let row = trace[i];
        if i < initial.len() + last.len() {
            let node = if i < initial.len() {
                initial[i]
            } else {
                last[i - initial.len()]
            };
            lemma_multiplicity_check(node.left_value.multiplicity);
            lemma_multiplicity_check(node.right_value.multiplicity);
            lemma_multiplicity_check(node.parent_value.multiplicity);
        } else {
            lemma_multiplicity_check(M31(0));
        }
        assert(spec_constraints(row) =~= Seq::new(4, |_k: int| M31(0)));
    }
}


/// The Merkle component's trace of an imported prover input satisfies every
/// polynomial constraint of the component.
pub proof fn lemma_import_merkle_trace<H: MerkleHasher>(
    p: ProverInput,
    trace: Seq<State>,
    run: IteratorView,
    bundles: Seq<BundleView>,
    public_addresses: Seq<M31>,
    log_size: u32,
)
    requires
        is_import_of::<H>(p, trace, run, bundles, public_addresses),
    ensures
        forall|i: int|
            0 <= i < rows_of(log_size as nat) ==> spec_constraints(
                #[trigger] spec_trace(
                    p.merkle_trees.initial_tree@,
                    root_or_zero(p.merkle_trees.initial_root),
                    p.merkle_trees.final_tree@,
                    root_or_zero(p.merkle_trees.final_root),
                    log_size,
                )[i],
            ) == Seq::new(4, |_k: int| M31(0)),
{
    let initial = run.memory.0;
    let adjusted = crate::adapter::spec_adjust_public(run.memory.1, public_addresses);
    lemma_tree_multiplicities::<H>(
        crate::adapter::merkle_memory(initial),
        TreeType::Initial,
        crate::adapter::empty_ranges(),
        p.merkle_trees.initial_tree@,
    );
    lemma_tree_multiplicities::<H>(
        crate::adapter::merkle_memory(adjusted),
        TreeType::Final,
        crate::adapter::empty_ranges(),
        p.merkle_trees.final_tree@,
    );
    lemma_trace_satisfies_constraints(
        p.merkle_trees.initial_tree@,
        root_or_zero(p.merkle_trees.initial_root),
        p.merkle_trees.final_tree@,
        root_or_zero(p.merkle_trees.final_root),
        log_size,
    );
}

} // verus!
