use cairo_m_prover::adapter::{import_from_runner_output, Segment};
use cairo_m_prover::field::{M31, P};
use cairo_m_prover::io::{State, VmImportError};
use cairo_m_prover::memory::{memory_key, DataType, LoggedAccess, OpcodeFormat, TREE_HEIGHT};

fn state(pc: u32, fp: u32) -> State {
    State { pc: M31(pc), fp: M31(fp) }
}

fn access(addr: u32, value: u32) -> LoggedAccess {
    LoggedAccess { addr: M31(addr), value: M31(value) }
}

fn formats() -> Vec<Option<OpcodeFormat>> {
    vec![Some(OpcodeFormat { size: 1, memory_accesses: 1, operand_types: vec![DataType::Felt] })]
}

fn leaf(address: u32) -> u64 {
    memory_key(M31(address), M31(TREE_HEIGHT))
}

#[test]
fn import_groups_bundles_and_commits_memory() {
    let segment = Segment {
        trace: vec![state(0, 10), state(1, 10), state(2, 10)],
        memory_trace: vec![access(0, 0), access(10, 3), access(1, 0), access(11, 4)],
        initial_memory: vec![M31(0), M31(0), M31(0)],
    };
    // Address 2 is public and never used; address 10 is public and used.
    let input = import_from_runner_output(segment, vec![M31(2), M31(10)], formats()).unwrap();

    assert_eq!(input.instructions.initial_registers, state(0, 10));
    assert_eq!(input.instructions.final_registers, state(2, 10));
    assert_eq!(input.instructions.states_by_opcodes.len(), 1);
    assert_eq!(input.instructions.states_by_opcodes[&0].len(), 2);

    // Used public cell: consumed by the public data instead (0).
    assert_eq!(input.memory.final_memory[&leaf(10)].2, M31(0));
    // Unused public cell: emitted once for the public data (1).
    assert_eq!(input.memory.final_memory[&leaf(2)].2, M31(1));
    // A used private cell keeps -1.
    assert_eq!(input.memory.final_memory[&leaf(11)].2, M31(P - 1));
    assert_eq!(input.memory.initial_memory.len(), input.memory.final_memory.len());

    assert!(input.merkle_trees.initial_root.is_some());
    assert!(input.merkle_trees.final_root.is_some());
    assert_eq!(
        input.poseidon2_inputs.len(),
        input.merkle_trees.initial_tree.len() + input.merkle_trees.final_tree.len()
    );
    let first = &input.merkle_trees.initial_tree[0];
    assert_eq!(input.poseidon2_inputs[0][0], first.left_value.value);
    assert_eq!(input.poseidon2_inputs[0][1], first.right_value.value);
    assert_eq!(input.public_addresses, vec![M31(2), M31(10)]);
}

#[test]
fn import_of_an_empty_trace_fails() {
    let segment = Segment { trace: vec![], memory_trace: vec![], initial_memory: vec![] };
    assert_eq!(import_from_runner_output(segment, vec![], formats()).unwrap_err(), VmImportError::EmptyTrace);
}

#[test]
fn import_stops_at_the_first_error() {
    let segment = Segment {
        trace: vec![state(0, 10), state(1, 10)],
        memory_trace: vec![access(0, 5)],
        initial_memory: vec![],
    };
    assert_eq!(
        import_from_runner_output(segment, vec![], formats()).unwrap_err(),
        VmImportError::InvalidOpcode(M31(5))
    );
}

#[test]
fn import_is_deterministic() {
    let segment = Segment {
        trace: vec![state(0, 10), state(1, 10), state(2, 10)],
        memory_trace: vec![access(0, 0), access(10, 3), access(1, 0), access(11, 4)],
        initial_memory: vec![M31(0), M31(0), M31(0)],
    };
    let first = import_from_runner_output(segment.clone(), vec![M31(2)], formats()).unwrap();
    let second = import_from_runner_output(segment, vec![M31(2)], formats()).unwrap();
    assert_eq!(first, second);
}
