//! Conversion of a runner's execution segment into the prover's input: the
//! execution bundles grouped by opcode, the boundary memories with the public
//! addresses' multiplicities adjusted, their partial Merkle trees, and the
//! hash inputs of the trees' nodes.
use crate::field::{M31, QM31};
use crate::merkle::{
    addresses_fit, build_partial_merkle_tree, is_partial_tree, node_value, HashInput, MemoryWord,
    MerkleHasher, NodeData, PublicAddressRanges, TreeType,
};
use crate::io::{State, VmImportError};
use crate::poseidon::PoseidonHash;
use crate::memory::{
    cells_fit, initial_memory_map, is_small_leaf, leaf_key, leaf_key_at, memory_key, TREE_HEIGHT, lemma_initial_memory_map_cells,
    lemma_leaf_key_small, lemma_next_fits, lemma_operands_width_monotone, spec_next, format_of, operands_width, operand_count, BundleView, ExecutionBundle,
    ExecutionBundleIterator, IteratorView, LoggedAccess, Memory, MemoryCell,
    OpcodeFormat, format_ok,
};
use std::collections::HashMap;
use vstd::std_specs::iter::IteratorSpec;
use vstd::prelude::*;

verus! {

broadcast use vstd::std_specs::hash::group_hash_axioms;

/// Runs the iterator from state `s` until it yields nothing or an error,
/// collecting the bundles after `bundles`: the final state, and the bundles
/// or the first error.
pub open spec fn spec_run(s: IteratorView, bundles: Seq<BundleView>) -> (IteratorView, Result<
    Seq<BundleView>,
    VmImportError,
>)
    decreases s.trace.len() - s.trace_pos,
{
    let step = spec_next(s);
    match step.1 {
        None => (step.0, Ok(bundles)),
        Some(Err(e)) => (step.0, Err(e)),
        Some(Ok(b)) => if s.trace_pos < step.0.trace_pos <= s.trace.len() && step.0.trace == s.trace {
            spec_run(step.0, bundles.push(b))
        } else {
            (step.0, Ok(bundles.push(b)))
        },
    }
}

/// A step that yields a bundle takes one trace entry and advances the clock.
proof fn lemma_next_progress(s: IteratorView)
    requires
        s.clock < u32::MAX,
        s.trace_pos <= s.trace.len(),
        s.memory_pos <= s.memory_log.len(),
    ensures
        spec_next(s).0.trace == s.trace,
        spec_next(s).1 matches Some(Ok(_)) ==> s.trace_pos < s.trace.len() && spec_next(s).0.trace_pos
            == s.trace_pos + 1 && spec_next(s).0.clock == s.clock + 1,
{
    reveal(spec_next);
}

/// The bundles grouped by opcode, each group in order.
pub open spec fn group_by_opcode(bundles: Seq<BundleView>) -> Map<u32, Seq<BundleView>>
    decreases bundles.len(),
{
    if bundles.len() == 0 {
        Map::empty()
    } else {
        let groups = group_by_opcode(bundles.drop_last());
        let b = bundles.last();
        let group = if groups.contains_key(b.opcode) {
            groups[b.opcode]
        } else {
            Seq::empty()
        };
        groups.insert(b.opcode, group.push(b))
    }
}

/// The groups of bundles held by a map of vectors, by their views.
pub open spec fn groups_view(m: Map<u32, Vec<ExecutionBundle>>) -> Map<u32, Seq<BundleView>> {
    m.map_values(|v: Vec<ExecutionBundle>| v@.map_values(|b: ExecutionBundle| b@))
}

/// The registers of the last bundle, or `initial` if there is none.
pub open spec fn last_registers(bundles: Seq<BundleView>, initial: State) -> State {
    if bundles.len() == 0 {
        initial
    } else {
        bundles.last().registers
    }
}

/// Runs the iterator to its end, grouping the bundles by opcode.
fn collect_bundles(it: &mut ExecutionBundleIterator, initial_registers: State) -> (r: Result<
    (State, HashMap<u32, Vec<ExecutionBundle>>),
    VmImportError,
>)
    requires
        old(it).wf(),
        old(it)@.clock + (old(it)@.trace.len() - old(it)@.trace_pos) < u32::MAX,
    ensures
        final(it).wf(),
        final(it)@ == spec_run(old(it)@, Seq::empty()).0,
        match (r, spec_run(old(it)@, Seq::empty()).1) {
            (Ok((regs, groups)), Ok(bundles)) => regs == last_registers(bundles, initial_registers)
                && groups_view(groups@) == group_by_opcode(bundles),
            (Err(e), Err(f)) => e == f,
            _ => false,
        },
{
    let ghost s0 = it@;
    assert(s0 == old(it)@);
    let mut final_registers = initial_registers;
    let mut states_by_opcodes: HashMap<u32, Vec<ExecutionBundle>> = HashMap::new();
    let ghost mut bundles: Seq<BundleView> = Seq::empty();
    proof {
        it.lemma_wf_view();
        assert(groups_view(states_by_opcodes@) =~= group_by_opcode(bundles));
    }
    loop
        invariant
            s0 == old(it)@,
            it.wf(),
            it@.trace == s0.trace,
            it@.trace_pos <= it@.trace.len(),
            it@.clock + (it@.trace.len() - it@.trace_pos) < u32::MAX,
            spec_run(s0, Seq::empty()) == spec_run(it@, bundles),
            final_registers == last_registers(bundles, initial_registers),
            groups_view(states_by_opcodes@) == group_by_opcode(bundles),
        decreases it@.trace.len() - it@.trace_pos,
    {
        let ghost before = it@;
        proof {
            it.lemma_wf_view();
            lemma_next_progress(before);
        }
        match it.next() {
            None => {
                assert(spec_next(before).1 is None);
                assert(spec_run(before, bundles) == (it@, Ok::<Seq<BundleView>, VmImportError>(bundles)));
                assert(spec_run(s0, Seq::empty()).0 == it@);
                assert(spec_run(s0, Seq::empty()).1 == Ok::<Seq<BundleView>, VmImportError>(bundles));
                return Ok((final_registers, states_by_opcodes));
            },
            Some(Err(e)) => {
                assert(spec_next(before).1 == Some(Err::<BundleView, VmImportError>(e)));
                assert(spec_run(before, bundles) == (it@, Err::<Seq<BundleView>, VmImportError>(e)));
                assert(spec_run(s0, Seq::empty()).0 == it@);
                assert(spec_run(s0, Seq::empty()).1 == Err::<Seq<BundleView>, VmImportError>(e));
                return Err(e);
            },
            Some(Ok(bundle)) => {
                final_registers = bundle.registers;
                let opcode = bundle.instruction.instruction.opcode_value();
                let ghost view = bundle@;
                let ghost old_map = states_by_opcodes@;
                let mut group = match states_by_opcodes.remove(&opcode) {
                    Some(g) => g,
                    None => Vec::new(),
                };
                let ghost old_group = group@;
                assert(old_map.contains_key(opcode) ==> old_group == old_map[opcode]@);
                assert(!old_map.contains_key(opcode) ==> old_group == Seq::<ExecutionBundle>::empty());
                group.push(bundle);
                states_by_opcodes.insert(opcode, group);
                proof {
                    let old_groups = group_by_opcode(bundles);
                    assert(spec_next(before).1 == Some(Ok::<BundleView, VmImportError>(view)));
                    assert(spec_run(before, bundles) == spec_run(it@, bundles.push(view)));
                    let new_bundles = bundles.push(view);
                    assert(new_bundles.drop_last() =~= bundles);
                    assert(new_bundles.last() == view);
                    assert(view.opcode == opcode);
                    assert(states_by_opcodes@ == old_map.remove(opcode).insert(opcode, group));
                    assert(old_groups.contains_key(opcode) == old_map.contains_key(opcode));
                    assert(group@.map_values(|b: ExecutionBundle| b@) =~= (if old_groups.contains_key(opcode) {
                        old_groups[opcode]
                    } else {
                        Seq::empty()
                    }).push(view));
                    assert(groups_view(states_by_opcodes@) =~= group_by_opcode(new_bundles));
                    bundles = new_bundles;
                }
            },
        }
    }
}

/// Running the iterator over a log of small addresses keeps the cells
/// fitting, with one more cell allowed per logged access.
pub proof fn lemma_run_fits(s: IteratorView, bundles: Seq<BundleView>, base: nat)
    requires
        0 <= s.memory_pos <= s.memory_log.len(),
        s.trace_pos <= s.trace.len(),
        cells_fit(s.memory, (base + s.memory_pos) as nat),
        forall|i: int| 0 <= i < s.memory_log.len() ==> (#[trigger] s.memory_log[i]).addr.0 < 0x1000_0000,
    ensures
        cells_fit(spec_run(s, bundles).0.memory, base + s.memory_log.len()),
    decreases s.trace.len() - s.trace_pos,
{
    lemma_next_fits(s, base);
    let step = spec_next(s);
    match step.1 {
        Some(Ok(b)) => {
            if s.trace_pos < step.0.trace_pos <= s.trace.len() && step.0.trace == s.trace {
                lemma_run_fits(step.0, bundles.push(b), base);
            }
        },
        _ => {},
    }
}

/// The number of cells of the memory built from a list of values is at most
/// the number of values.
proof fn lemma_initial_map_len(values: Seq<M31>)
    ensures
        initial_memory_map(values).dom().finite(),
        initial_memory_map(values).dom().len() <= values.len(),
    decreases values.len(),
{
    if values.len() > 0 {
        lemma_initial_map_len(values.drop_last());
    }
}

/// The memory built from at most `2^28` values fits, with one cell per value.
pub proof fn lemma_initial_fits(values: Seq<M31>)
    requires
        values.len() <= 0x1000_0000,
    ensures
        cells_fit(
            (initial_memory_map(values), initial_memory_map(values), Seq::<MemoryCell>::empty()),
            values.len(),
        ),
{
    lemma_initial_map_len(values);
    lemma_initial_memory_map_cells(values);
    let m = initial_memory_map(values);
    assert forall|k: u64| #[trigger] m.contains_key(k) implies is_small_leaf(k) by {
        let i = choose|i: int| 0 <= i < values.len() && k == leaf_key_at(i);
        lemma_leaf_key_small(M31(i as u32));
    }
}

/// A cell with its multiplicity switched for the public data: an unused cell
/// (multiplicity 0) gets 1, a used one gets 0.
pub open spec fn adjusted_cell(c: MemoryCell) -> MemoryCell {
    (c.0, c.1, if c.2 == M31(0) {
        M31(1)
    } else {
        M31(0)
    })
}

/// The final memory after the public addresses, in order, had the
/// multiplicities of their cells switched.
pub open spec fn spec_adjust_public(m: Map<u64, MemoryCell>, addrs: Seq<M31>) -> Map<u64, MemoryCell>
    decreases addrs.len(),
{
    if addrs.len() == 0 {
        m
    } else {
        let prev = spec_adjust_public(m, addrs.drop_last());
        let k = leaf_key(addrs.last());
        if prev.contains_key(k) {
            prev.insert(k, adjusted_cell(prev[k]))
        } else {
            prev
        }
    }
}

/// Switching multiplicities keeps the cells.
pub proof fn lemma_adjust_keeps_cells(m: Map<u64, MemoryCell>, addrs: Seq<M31>)
    ensures
        spec_adjust_public(m, addrs).dom() == m.dom(),
    decreases addrs.len(),
{
    if addrs.len() > 0 {
        lemma_adjust_keeps_cells(m, addrs.drop_last());
        let prev = spec_adjust_public(m, addrs.drop_last());
        let k = leaf_key(addrs.last());
        if prev.contains_key(k) {
            assert(prev.insert(k, adjusted_cell(prev[k])).dom() =~= prev.dom());
        }
    }
}

/// Switches the multiplicities of the public addresses' cells: the public
/// data always consumes them, so a used cell (-1) is consumed there instead
/// (0) and an unused one (0) must be emitted once (1).
fn adjust_public_multiplicities(final_memory: &mut HashMap<u64, MemoryCell>, public_addresses: &Vec<M31>)
    ensures
        final(final_memory)@ == spec_adjust_public(old(final_memory)@, public_addresses@),
{
    let ghost m0 = final_memory@;
    let depth = M31::from_u32(TREE_HEIGHT);
    let mut i: usize = 0;
    while i < public_addresses.len()
        invariant
            i <= public_addresses@.len(),
            depth == M31(TREE_HEIGHT),
            final_memory@ == spec_adjust_public(m0, public_addresses@.subrange(0, i as int)),
        decreases public_addresses@.len() - i,
    {
        let addr = public_addresses[i];
        let key = memory_key(addr, depth);
        let current = match final_memory.get(&key) {
            Some(cell) => Some(*cell),
            None => None,
        };
        proof {
            let s = public_addresses@.subrange(0, i + 1);
            assert(s.drop_last() =~= public_addresses@.subrange(0, i as int));
            assert(s.last() == addr);
        }
        match current {
            Some(cell) => {
                let new_multiplicity = if cell.2 == M31::zero() {
                    M31::one()
                } else {
                    M31::zero()
                };
                final_memory.insert(key, (cell.0, cell.1, new_multiplicity));
            },
            None => {},
        }
        i = i + 1;
    }
    proof {
        assert(public_addresses@.subrange(0, public_addresses@.len() as int) =~= public_addresses@);
    }
}

/// A memory cell as a Merkle memory word: its value embedded in the
/// extension field, with its clock and multiplicity.
pub open spec fn word_of(c: MemoryCell) -> MemoryWord {
    (QM31(c.0, M31(0), M31(0), M31(0)), c.1, c.2)
}

/// A memory map keyed by leaf keys, as a Merkle memory keyed by address.
pub open spec fn merkle_memory(m: Map<u64, MemoryCell>) -> Map<u32, MemoryWord> {
    Map::new(
        |a: u32| m.contains_key(leaf_key(M31(a))),
        |a: u32| word_of(m[leaf_key(M31(a))]),
    )
}

/// The keys of a map, each once.
fn map_keys(m: &HashMap<u64, MemoryCell>) -> (r: Vec<u64>)
    ensures
        r@.no_duplicates(),
        forall|k: u64| m@.contains_key(k) <==> r@.contains(k),
        r@.len() == m@.len(),
{
    let mut keys: Vec<u64> = Vec::new();
    for k in it: m.keys()
        invariant
            keys@.len() == it.index(),
            forall|i: int| 0 <= i < it.index() ==> keys@[i] == *it.seq()[i],
    {
        keys.push(*k);
    }
    let ghost expected = vstd::std_specs::hash::spec_keys_iter(m).remaining().map_values(|k: &u64| *k);
    assert(keys@ =~= expected);
    proof {
        expected.lemma_multiset_has_no_duplicates();
        let rem = vstd::std_specs::hash::spec_keys_iter(m).remaining();
        assert(rem.unref() =~= expected);
        assert(expected.to_set() == m@.dom());
        assert forall|k: u64| m@.contains_key(k) <==> keys@.contains(k) by {
            assert(expected.to_set().contains(k) <==> expected.contains(k));
        }
        expected.unique_seq_to_set();
    }
    keys
}

/// The Merkle memory of a memory map whose cells are leaves of small
/// addresses.
fn to_merkle_memory(m: &HashMap<u64, MemoryCell>) -> (r: HashMap<u32, MemoryWord>)
    requires
        forall|k: u64| #[trigger] m@.contains_key(k) ==> is_small_leaf(k),
    ensures
        r@ == merkle_memory(m@),
        addresses_fit(r@),
        r@.len() <= m@.len(),
{
    let keys = map_keys(m);
    let mut r: HashMap<u32, MemoryWord> = HashMap::new();
    let mut i: usize = 0;
    while i < keys.len()
        invariant
            i <= keys@.len(),
            keys@.len() == m@.len(),
            forall|k: u64| m@.contains_key(k) <==> keys@.contains(k),
            forall|k: u64| #[trigger] m@.contains_key(k) ==> is_small_leaf(k),
            forall|a: u32| #[trigger] r@.contains_key(a) ==> m@.contains_key(leaf_key(M31(a))) && r@[a]
                == word_of(m@[leaf_key(M31(a))]) && a < 0x1000_0000,
            forall|j: int| 0 <= j < i ==> r@.contains_key((#[trigger] keys@[j] / 0x1_0000_0000) as u32),
            r@.len() <= i,
        decreases keys@.len() - i,
    {
        let k = keys[i];
        assert(keys@.contains(k));
        let a = (k / 0x1_0000_0000) as u32;
        proof {
            assert(is_small_leaf(k));
            lemma_leaf_key_small(M31(a));
            vstd::arithmetic::div_mod::lemma_fundamental_div_mod(k as int, 0x1_0000_0000);
            assert(leaf_key(M31(a)) == k);
        }
        let cell = match m.get(&k) {
            Some(c) => *c,
            None => (M31::zero(), M31::zero(), M31::zero()),
        };
        r.insert(a, (QM31::from_m31(cell.0), cell.1, cell.2));
        i = i + 1;
    }
    proof {
        assert forall|a: u32| m@.contains_key(leaf_key(M31(a))) implies r@.contains_key(a) by {
            let k = leaf_key(M31(a));
            assert(keys@.contains(k));
            let j = choose|j: int| 0 <= j < keys@.len() && keys@[j] == k;
            assert(keys@[j] == k);
            assert(is_small_leaf(k));
            vstd::arithmetic::div_mod::lemma_fundamental_div_mod(k as int, 0x1_0000_0000);
            lemma_key_high_half(a);
        }
        assert(r@ =~= merkle_memory(m@));
    }
    r
}

/// The high half of the leaf key of `a` is `a`.
proof fn lemma_key_high_half(a: u32)
    ensures
        leaf_key(M31(a)) / 0x1_0000_0000 == a,
{
    let k = a as int * 0x1_0000_0000 + TREE_HEIGHT as int;
    assert(k < 0x1_0000_0000_0000_0000) by (nonlinear_arith)
        requires
            k == a as int * 0x1_0000_0000 + TREE_HEIGHT as int,
            a < 0x1_0000_0000,
    ;
    assert(leaf_key(M31(a)) == k);
    vstd::arithmetic::div_mod::lemma_fundamental_div_mod_converse(k, 0x1_0000_0000, a as int, TREE_HEIGHT as int);
}

/// The Merkle commitments of the initial and final memories.
#[derive(Debug, Clone, Default, PartialEq, Eq)]
pub struct MerkleTrees {
    /// Nodes of the initial memory's tree.
    pub initial_tree: Vec<NodeData>,
    /// Root of the initial memory's tree, if the memory is not empty.
    pub initial_root: Option<M31>,
    /// Nodes of the final memory's tree.
    pub final_tree: Vec<NodeData>,
    /// Root of the final memory's tree, if the memory is not empty.
    pub final_root: Option<M31>,
}

/// What the opcode components and the public data need of the execution.
#[derive(Debug, Clone, Default, PartialEq, Eq)]
pub struct Instructions {
    /// Registers at the start of the execution.
    pub initial_registers: State,
    /// Registers at the end of the execution.
    pub final_registers: State,
    /// The execution bundles, grouped by opcode.
    pub states_by_opcodes: HashMap<u32, Vec<ExecutionBundle>>,
}

/// All the prover needs: Merkle trees, boundary memories, bundles, public
/// addresses and hash inputs.
#[derive(Debug, Clone, PartialEq, Eq)]
pub struct ProverInput {
    /// Commitments of the initial and final memories.
    pub merkle_trees: MerkleTrees,
    /// Boundary memories and clock updates.
    pub memory: Memory,
    /// Execution bundles and boundary registers.
    pub instructions: Instructions,
    /// The public memory addresses.
    pub public_addresses: Vec<M31>,
    /// The inputs of the hashes of both trees' nodes, initial tree first.
    pub poseidon2_inputs: Vec<HashInput>,
}

/// An execution segment of the runner: its register trace, its memory log
/// and its initial memory.
#[derive(Debug, Clone)]
pub struct Segment {
    /// Registers at each step, the final state last.
    pub trace: Vec<State>,
    /// Every memory access, in order.
    pub memory_trace: Vec<LoggedAccess>,
    /// Memory values at addresses `0, 1, ...` before the segment.
    pub initial_memory: Vec<M31>,
}

/// Public address ranges with no public address.
pub open spec fn empty_ranges() -> PublicAddressRanges {
    PublicAddressRanges {
        program: core::ops::Range { start: 0, end: 0 },
        input: core::ops::Range { start: 0, end: 0 },
        output: core::ops::Range { start: 0, end: 0 },
    }
}

/// The hash input of a node: its two children, then zeros.
pub open spec fn is_hash_input_of(h: HashInput, n: NodeData) -> bool {
    &&& h[0] == n.left_value.value
    &&& h[1] == n.right_value.value
    &&& forall|i: int| 2 <= i < 16 ==> h[i] == M31(0)
}

/// The state an import starts from.
pub open spec fn start_view(
    trace: Seq<State>,
    memory_log: Seq<LoggedAccess>,
    initial_memory: Seq<M31>,
    formats: Seq<Option<OpcodeFormat>>,
) -> IteratorView {
    IteratorView {
        trace,
        trace_pos: 0,
        memory_log,
        memory_pos: 0,
        memory: (initial_memory_map(initial_memory), initial_memory_map(initial_memory), Seq::empty()),
        clock: 1,
        final_registers: None,
        formats,
    }
}

/// A tree and root as the builder gives them for a memory.
pub open spec fn is_commitment<H: MerkleHasher>(
    memory: Map<u32, MemoryWord>,
    tree_type: TreeType,
    tree: Seq<NodeData>,
    root: Option<M31>,
) -> bool {
    &&& is_partial_tree::<H>(memory, tree_type, empty_ranges(), tree)
    &&& root == if memory.len() == 0 {
        None
    } else {
        Some(node_value::<H>(memory, 0, 0))
    }
}

/// What a successful import holds, given the run of the iterator.
pub open spec fn is_import_of<H: MerkleHasher>(
    p: ProverInput,
    trace: Seq<State>,
    run: IteratorView,
    bundles: Seq<BundleView>,
    public_addresses: Seq<M31>,
) -> bool {
    let initial = run.memory.0;
    let adjusted = spec_adjust_public(run.memory.1, public_addresses);
    let a = p.merkle_trees.initial_tree@.len();
    &&& p.instructions.initial_registers == trace[0]
    &&& p.instructions.final_registers == match run.final_registers {
        Some(regs) => regs,
        None => last_registers(bundles, trace[0]),
    }
    &&& groups_view(p.instructions.states_by_opcodes@) == group_by_opcode(bundles)
    &&& p.memory.initial() == initial
    &&& p.memory.final_map() == adjusted
    &&& p.memory.initial().dom() == p.memory.final_map().dom()
    &&& p.memory.clock_update_data@ == run.memory.2
    &&& p.public_addresses@ == public_addresses
    &&& is_commitment::<H>(
        merkle_memory(initial),
        TreeType::Initial,
        p.merkle_trees.initial_tree@,
        p.merkle_trees.initial_root,
    )
    &&& is_commitment::<H>(
        merkle_memory(adjusted),
        TreeType::Final,
        p.merkle_trees.final_tree@,
        p.merkle_trees.final_root,
    )
    &&& p.poseidon2_inputs@.len() == a + p.merkle_trees.final_tree@.len()
    &&& forall|i: int|
        0 <= i < a ==> is_hash_input_of(p.poseidon2_inputs@[i], #[trigger] p.merkle_trees.initial_tree@[i])
    &&& forall|i: int|
        0 <= i < p.merkle_trees.final_tree@.len() ==> is_hash_input_of(
            p.poseidon2_inputs@[a + i],
            #[trigger] p.merkle_trees.final_tree@[i],
        )
}

/// Appends the hash input of every node of a tree.
fn push_hash_inputs(inputs: &mut Vec<HashInput>, tree: &Vec<NodeData>)
    ensures
        final(inputs)@.len() == old(inputs)@.len() + tree@.len(),
        forall|i: int| 0 <= i < old(inputs)@.len() ==> final(inputs)@[i] == old(inputs)@[i],
        forall|i: int|
            0 <= i < tree@.len() ==> is_hash_input_of(final(inputs)@[old(inputs)@.len() + i], #[trigger] tree@[i]),
{
    let ghost start = inputs@;
    let mut i: usize = 0;
    while i < tree.len()
        invariant
            i <= tree@.len(),
            inputs@.len() == start.len() + i,
            forall|j: int| 0 <= j < start.len() ==> inputs@[j] == start[j],
            forall|j: int| 0 <= j < i ==> is_hash_input_of(inputs@[start.len() + j], #[trigger] tree@[j]),
        decreases tree@.len() - i,
    {
        inputs.push(tree[i].to_hash_input());
        i = i + 1;
    }
}

/// Converts a register trace, a memory log and an initial memory into the
/// prover's input, hashing the Merkle trees with `H`.
///
/// The trace yields the bundles (see [`spec_run`]); the first error stops
/// the import. The final memory's public cells get their multiplicities
/// switched, and each memory is committed as a partial Merkle tree of its
/// cells, each cell's value embedded in the extension field.
pub fn import_internal<H: MerkleHasher>(
    trace: Vec<State>,
    memory_log: Vec<LoggedAccess>,
    initial_memory: Vec<M31>,
    public_addresses: Vec<M31>,
    formats: Vec<Option<OpcodeFormat>>,
) -> (r: Result<ProverInput, VmImportError>)
    requires
        forall|i: int| 0 <= i < formats@.len() && (#[trigger] formats@[i]) is Some ==> format_ok(formats@[i]->0),
        trace@.len() < u32::MAX - 1,
        initial_memory@.len() <= 0x1000_0000,
        forall|i: int| 0 <= i < memory_log@.len() ==> (#[trigger] memory_log@[i]).addr.0 < 0x1000_0000,
    ensures
        trace@.len() == 0 ==> r == Err::<ProverInput, VmImportError>(VmImportError::EmptyTrace),
        trace@.len() > 0 ==> match spec_run(
            start_view(trace@, memory_log@, initial_memory@, formats@),
            Seq::empty(),
        ) {
            (run, Ok(bundles)) => r matches Ok(p) && is_import_of::<H>(p, trace@, run, bundles, public_addresses@),
            (_, Err(e)) => r == Err::<ProverInput, VmImportError>(e),
        },
{
    let ghost s0 = start_view(trace@, memory_log@, initial_memory@, formats@);
    let ghost init_values = initial_memory@;
    let ghost log = memory_log@;
    let mut it = ExecutionBundleIterator::new(trace, memory_log, initial_memory, formats);
    assert(it@ == s0);
    let initial_registers = match it.peek_initial_registers() {
        Some(regs) => regs,
        None => {
            return Err(VmImportError::EmptyTrace);
        },
    };
    proof {
        it.lemma_wf_view();
    }
    let (last_regs, states_by_opcodes) = match collect_bundles(&mut it, initial_registers) {
        Ok(collected) => collected,
        Err(e) => {
            return Err(e);
        },
    };
    let ghost run = it@;
    let final_registers = match it.get_final_registers() {
        Some(regs) => regs,
        None => last_regs,
    };
    proof {
        lemma_initial_fits(init_values);
        lemma_run_fits(s0, Seq::empty(), init_values.len());
    }
    let mut memory = it.into_memory();
    adjust_public_multiplicities(&mut memory.final_memory, &public_addresses);
    proof {
        lemma_adjust_keeps_cells(run.memory.1, public_addresses@);
        assert forall|k: u64| #[trigger] memory.initial_memory@.contains_key(k) implies is_small_leaf(k) by {
            assert(run.memory.1.contains_key(k));
        }
        assert forall|k: u64| #[trigger] memory.final_memory@.contains_key(k) implies is_small_leaf(k) by {
            assert(run.memory.1.contains_key(k));
        }
    }
    let initial_merkle = to_merkle_memory(&memory.initial_memory);
    let final_merkle = to_merkle_memory(&memory.final_memory);
    let ranges = PublicAddressRanges {
        program: core::ops::Range { start: 0, end: 0 },
        input: core::ops::Range { start: 0, end: 0 },
        output: core::ops::Range { start: 0, end: 0 },
    };
    assert(ranges == empty_ranges());
    let (initial_tree, initial_root) = build_partial_merkle_tree::<H>(&initial_merkle, TreeType::Initial, &ranges);
    let (final_tree, final_root) = build_partial_merkle_tree::<H>(&final_merkle, TreeType::Final, &ranges);
    let mut poseidon2_inputs: Vec<HashInput> = Vec::new();
    push_hash_inputs(&mut poseidon2_inputs, &initial_tree);
    push_hash_inputs(&mut poseidon2_inputs, &final_tree);
    let input = ProverInput {
        merkle_trees: MerkleTrees { initial_tree, initial_root, final_tree, final_root },
        memory,
        instructions: Instructions { initial_registers, final_registers, states_by_opcodes },
        public_addresses,
        poseidon2_inputs,
    };
    Ok(input)
}


/// Converts an execution segment into the prover's input, the Merkle trees
/// hashed with Poseidon: [`import_internal`] on the segment's trace, memory
/// log and initial memory.
pub fn import_from_runner_output(
    segment: Segment,
    public_addresses: Vec<M31>,
    formats: Vec<Option<OpcodeFormat>>,
) -> (r: Result<ProverInput, VmImportError>)
    requires
        forall|i: int| 0 <= i < formats@.len() && (#[trigger] formats@[i]) is Some ==> format_ok(formats@[i]->0),
        segment.trace@.len() < u32::MAX - 1,
        segment.initial_memory@.len() <= 0x1000_0000,
        forall|i: int|
            0 <= i < segment.memory_trace@.len() ==> (#[trigger] segment.memory_trace@[i]).addr.0 < 0x1000_0000,
    ensures
        segment.trace@.len() == 0 ==> r == Err::<ProverInput, VmImportError>(VmImportError::EmptyTrace),
        segment.trace@.len() > 0 ==> match spec_run(
            start_view(segment.trace@, segment.memory_trace@, segment.initial_memory@, formats@),
            Seq::empty(),
        ) {
            (run, Ok(bundles)) => r matches Ok(p) && is_import_of::<PoseidonHash>(
                p,
                segment.trace@,
                run,
                bundles,
                public_addresses@,
            ),
            (_, Err(e)) => r == Err::<ProverInput, VmImportError>(e),
        },
{
    import_internal::<PoseidonHash>(
        segment.trace,
        segment.memory_trace,
        segment.initial_memory,
        public_addresses,
        formats,
    )
}

/// Every format of a table is usable.
pub open spec fn formats_ok(formats: Seq<Option<OpcodeFormat>>) -> bool {
    forall|i: int| 0 <= i < formats.len() && (#[trigger] formats[i]) is Some ==> format_ok(formats[i]->0)
}

/// The first word of a bundle's instruction is its opcode number.
pub open spec fn opcode_first(b: BundleView) -> bool {
    b.words.len() >= 1 && b.words[0] == M31(b.opcode)
}

/// A step keeps the trace, the log and the formats, stays within the log,
/// and yields only bundles whose first word is their opcode.
proof fn lemma_next_opcode_first(s: IteratorView)
    requires
        formats_ok(s.formats),
        0 <= s.memory_pos <= s.memory_log.len(),
    ensures
        spec_next(s).0.formats == s.formats,
        spec_next(s).0.trace == s.trace,
        spec_next(s).0.memory_log == s.memory_log,
        0 <= spec_next(s).0.memory_pos <= s.memory_log.len(),
        spec_next(s).1 matches Some(Ok(b)) ==> opcode_first(b),
{
    reveal(spec_next);
    if s.trace_pos < s.trace.len() && s.trace_pos + 1 < s.trace.len() && s.memory_pos < s.memory_log.len() {
        let first = s.memory_log[s.memory_pos];
        match format_of(s.formats, first.value.0) {
            Some(f) => {
                assert(s.formats[first.value.0 as int] is Some);
                assert(format_ok(f));
                lemma_operands_width_monotone(f.operand_types@, 0, operand_count(f));
                let end = s.memory_pos + crate::memory::step_width(f);
                if end <= s.memory_log.len() {
                    let step = s.memory_log.subrange(s.memory_pos as int, end);
                    assert(step.len() >= f.size);
                    assert(step[0] == first);
                    let words = step.subrange(0, f.size as int).map_values(|e: LoggedAccess| e.value);
                    assert(words.len() == f.size);
                    assert(words[0] == first.value);
                    assert(M31(first.value.0) == first.value);
                }
            },
            None => {},
        }
    }
}

/// Running the iterator keeps the first word of every bundle its opcode.
proof fn lemma_run_opcode_first(s: IteratorView, bundles: Seq<BundleView>)
    requires
        formats_ok(s.formats),
        0 <= s.memory_pos <= s.memory_log.len(),
        forall|i: int| 0 <= i < bundles.len() ==> opcode_first(#[trigger] bundles[i]),
    ensures
        spec_run(s, bundles).1 matches Ok(all) ==> forall|i: int| 0 <= i < all.len() ==> opcode_first(
            #[trigger] all[i],
        ),
    decreases s.trace.len() - s.trace_pos,
{
    let step = spec_next(s);
    lemma_next_opcode_first(s);
    if let Some(Ok(b)) = step.1 {
        let more = bundles.push(b);
        assert forall|i: int| 0 <= i < more.len() implies opcode_first(#[trigger] more[i]) by {
            if i < bundles.len() {
                assert(more[i] == bundles[i]);
            }
        }
        if s.trace_pos < step.0.trace_pos <= s.trace.len() && step.0.trace == s.trace {
            lemma_run_opcode_first(step.0, more);
        }
    }
}

/// Grouping files each bundle under its own opcode.
proof fn lemma_groups_by_opcode(bundles: Seq<BundleView>)
    requires
        forall|i: int| 0 <= i < bundles.len() ==> opcode_first(#[trigger] bundles[i]),
    ensures
        forall|k: u32, i: int|
            group_by_opcode(bundles).contains_key(k) && 0 <= i < group_by_opcode(bundles)[k].len() ==> (
            #[trigger] group_by_opcode(bundles)[k][i]).opcode == k && opcode_first(group_by_opcode(bundles)[k][i]),
    decreases bundles.len(),
{
    if bundles.len() > 0 {
        let rest = bundles.drop_last();
        assert forall|i: int| 0 <= i < rest.len() implies opcode_first(#[trigger] rest[i]) by {
            assert(rest[i] == bundles[i]);
        }
        lemma_groups_by_opcode(rest);
        let b = bundles.last();
        assert(opcode_first(b));
        let groups = group_by_opcode(rest);
        let group = if groups.contains_key(b.opcode) {
            groups[b.opcode]
        } else {
            Seq::empty()
        };
        let all = group_by_opcode(bundles);
        assert(all == groups.insert(b.opcode, group.push(b)));
        assert forall|k: u32, i: int| all.contains_key(k) && 0 <= i < all[k].len() implies (#[trigger] all[k][i]).opcode
            == k && opcode_first(all[k][i]) by {
            if k == b.opcode {
                if i < group.len() {
                    assert(all[k][i] == groups[k][i]);
                }
            } else {
                assert(all[k] == groups[k]);
            }
        }
    }
}

/// Every bundle of an import is filed under its opcode number, which is the
/// first word of its instruction.
pub proof fn lemma_import_groups(
    trace: Seq<State>,
    memory_log: Seq<LoggedAccess>,
    initial_memory: Seq<M31>,
    formats: Seq<Option<OpcodeFormat>>,
)
    requires
        formats_ok(formats),
    ensures
        spec_run(start_view(trace, memory_log, initial_memory, formats), Seq::empty()).1 matches Ok(bundles)
            ==> forall|k: u32, i: int|
            group_by_opcode(bundles).contains_key(k) && 0 <= i < group_by_opcode(bundles)[k].len() ==> (
            #[trigger] group_by_opcode(bundles)[k][i]).opcode == k && opcode_first(group_by_opcode(bundles)[k][i]),
{
    let s0 = start_view(trace, memory_log, initial_memory, formats);
    lemma_run_opcode_first(s0, Seq::empty());
    if let Ok(bundles) = spec_run(s0, Seq::empty()).1 {
        lemma_groups_by_opcode(bundles);
    }
}

} // verus!
