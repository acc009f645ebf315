use cairo_m_prover::field::M31;
use cairo_m_prover::io::{State, VmImportError};
use cairo_m_prover::memory::{DataType, ExecutionBundleIterator, LoggedAccess, OpcodeFormat};

fn state(pc: u32, fp: u32) -> State {
    State { pc: M31(pc), fp: M31(fp) }
}

fn access(addr: u32, value: u32) -> LoggedAccess {
    LoggedAccess { addr: M31(addr), value: M31(value) }
}

/// Opcode 0: one word, one field operand. Opcode 1: two words, a `u32` then
/// a field operand.
fn formats() -> Vec<Option<OpcodeFormat>> {
    vec![
        Some(OpcodeFormat { size: 1, memory_accesses: 1, operand_types: vec![DataType::Felt] }),
        Some(OpcodeFormat { size: 2, memory_accesses: 2, operand_types: vec![DataType::U32, DataType::Felt] }),
    ]
}

#[test]
fn iterator_builds_bundles_step_by_step() {
    let trace = vec![state(0, 100), state(1, 100), state(3, 100)];
    let log = vec![
        // step 1: opcode 0 at pc 0, operand at 100
        access(0, 0),
        access(100, 7),
        // step 2: opcode 1 at pc 1..2, u32 at 101..102, field at 100
        access(1, 1),
        access(2, 42),
        access(101, 5),
        access(102, 6),
        access(100, 8),
    ];
    let mut it = ExecutionBundleIterator::new(trace, log, vec![M31(0), M31(1), M31(42)], formats());
    assert_eq!(it.peek_initial_registers(), Some(state(0, 100)));

    let first = it.next().unwrap().unwrap();
    assert_eq!(first.registers, state(0, 100));
    assert_eq!(first.clock, M31(1));
    assert_eq!(first.instruction.instruction.opcode, 0);
    assert_eq!(first.instruction.instruction.words, vec![M31(0)]);
    let op = first.operands[0].unwrap();
    assert_eq!(op.address, M31(100));
    assert_eq!(op.value.limb0, M31(7));
    assert_eq!(op.prev_value.limb0, M31(7));
    assert_eq!(op.prev_clock, M32_ZERO);
    assert!(first.operands[1].is_none() && first.operands[2].is_none());

    let second = it.next().unwrap().unwrap();
    assert_eq!(second.clock, M31(2));
    assert_eq!(second.instruction.instruction.opcode_value(), 1);
    assert_eq!(second.instruction.instruction.words, vec![M31(1), M31(42)]);
    let wide = second.operands[0].unwrap();
    assert_eq!(wide.address, M31(101));
    assert_eq!((wide.value.limb0, wide.value.limb1), (M31(5), M31(6)));
    let felt = second.operands[1].unwrap();
    assert_eq!(felt.address, M31(100));
    assert_eq!(felt.prev_clock, M31(1));
    assert_eq!((felt.prev_value.limb0, felt.value.limb0), (M31(7), M31(8)));

    // The last trace entry only sets the final registers.
    assert!(it.next().is_none());
    assert_eq!(it.get_final_registers(), Some(state(3, 100)));
    assert!(it.next().is_none());

    let memory = it.into_memory();
    assert_eq!(memory.clock_update_data.len(), 0);
}

const M32_ZERO: M31 = M31(0);

#[test]
fn iterator_reports_an_empty_log() {
    let mut it = ExecutionBundleIterator::new(vec![state(0, 0), state(1, 0)], vec![], vec![], formats());
    assert_eq!(it.next(), Some(Err(VmImportError::EmptyTrace)));
}

#[test]
fn iterator_reports_an_unknown_opcode() {
    let log = vec![access(0, 9)];
    let mut it = ExecutionBundleIterator::new(vec![state(0, 0), state(1, 0)], log, vec![], formats());
    assert_eq!(it.next(), Some(Err(VmImportError::InvalidOpcode(M31(9)))));
}

#[test]
fn iterator_reports_a_truncated_step() {
    let log = vec![access(0, 1), access(1, 4), access(50, 1)];
    let mut it = ExecutionBundleIterator::new(vec![state(0, 0), state(2, 0)], log, vec![], formats());
    assert_eq!(it.next(), Some(Err(VmImportError::UnexpectedEndOfTrace)));
}

#[test]
fn iterator_on_an_empty_trace() {
    let mut it = ExecutionBundleIterator::new(vec![], vec![], vec![], formats());
    assert_eq!(it.peek_initial_registers(), None);
    assert!(it.next().is_none());
    assert_eq!(it.get_final_registers(), None);
}

#[test]
fn default_bundle_is_a_ret_at_clock_zero() {
    let bundle = cairo_m_prover::memory::ExecutionBundle::default();
    assert_eq!(bundle.clock, M31(0));
    assert_eq!(bundle.registers, State { pc: M31(0), fp: M31(0) });
    assert_eq!(bundle.instruction.instruction.opcode, 0x0F);
    assert_eq!(bundle.instruction.instruction.words, vec![M31(0x0F)]);
    assert!(bundle.operands.iter().all(|o| o.is_none()));
}

#[test]
fn iterator_run_numbers_steps_from_one_and_ends_on_the_last_entry() {
    let n = 6u32;
    let trace: Vec<State> = (0..n).map(|i| state(i, 100)).collect();
    let log: Vec<LoggedAccess> = (0..n - 1).flat_map(|i| [access(i, 0), access(100, i)]).collect();
    let mut it = ExecutionBundleIterator::new(trace.clone(), log, vec![], formats());
    for j in 0..n - 1 {
        let bundle = it.next().unwrap().unwrap();
        assert_eq!(bundle.registers, trace[j as usize]);
        assert_eq!(bundle.clock, M31(j + 1));
    }
    assert!(it.next().is_none());
    assert_eq!(it.get_final_registers(), Some(trace[n as usize - 1]));
}
