use std::collections::HashMap;

use cairo_m_prover::components::opcodes::take_states;
use cairo_m_prover::field::M31;
use cairo_m_prover::io::State;
use cairo_m_prover::memory::{ExecutionBundle, Instruction, InstructionAccess};

fn step(opcode: u32, clock: u32) -> ExecutionBundle {
    ExecutionBundle {
        registers: State { pc: M31(clock), fp: M31(0) },
        clock: M31(clock),
        instruction: InstructionAccess {
            instruction: Instruction { opcode, words: vec![M31(opcode)] },
            prev_clock: M31(0),
        },
        operands: [None, None, None],
    }
}

#[test]
fn take_states_gathers_the_groups_of_a_component_in_order() {
    let mut groups: HashMap<u32, Vec<ExecutionBundle>> = HashMap::new();
    groups.insert(1, vec![step(1, 1), step(1, 4)]);
    groups.insert(3, vec![step(3, 2)]);
    groups.insert(8, vec![step(8, 3)]);
    let taken = take_states(&mut groups, &[3, 1, 5, 3]);
    let clocks: Vec<u32> = taken.iter().map(|b| b.clock.0).collect();
    assert_eq!(clocks, vec![2, 1, 4]);
    assert_eq!(groups.len(), 4);
    assert!(groups[&1].is_empty() && groups[&3].is_empty() && groups[&5].is_empty());
    assert_eq!(groups[&8], vec![step(8, 3)]);
}
