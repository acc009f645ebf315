use cairo_m_prover::components::opcodes::jmp_abs_add_fp_imm;
use cairo_m_prover::components::store_deref_fp;
use cairo_m_prover::field::M31;
use cairo_m_prover::io::State;
use cairo_m_prover::memory::{DataAccess, ExecutionBundle, Instruction, InstructionAccess, MemoryValue};

fn felt(x: u32) -> MemoryValue {
    MemoryValue { limb0: M31(x), limb1: M31(0) }
}

fn bundle(opcode: u32, operands: usize) -> ExecutionBundle {
    let access = |addr: u32, prev: u32, value: u32| DataAccess {
        address: M31(addr),
        prev_clock: M31(1),
        prev_value: felt(prev),
        value: felt(value),
    };
    ExecutionBundle {
        registers: State { pc: M31(5), fp: M31(100) },
        clock: M31(9),
        instruction: InstructionAccess {
            instruction: Instruction { opcode, words: vec![M31(opcode), M31(1), M31(2), M31(3)] },
            prev_clock: M31(2),
        },
        operands: [
            Some(access(101, 7, 7)),
            if operands > 1 { Some(access(103, 0, 7)) } else { None },
            None,
        ],
    }
}

#[test]
fn store_deref_rows_satisfy_their_constraints() {
    let input = store_deref_fp::row_input(&bundle(0x04, 2)).unwrap();
    assert_eq!(input.src_value, M31(7));
    assert_eq!(input.dst_prev_value, M31(0));
    assert_eq!(input.off2, M31(3));
    let eval = store_deref_fp::Eval { claim: store_deref_fp::Claim { log_size: 4 } };
    let row = store_deref_fp::trace_row(M31(1), &input);
    assert_eq!(eval.evaluate(&row), vec![M31(0), M31(0)]);
    // Another opcode in an enabled row is caught.
    let other = store_deref_fp::row_input(&bundle(0x05, 2)).unwrap();
    assert_ne!(eval.evaluate(&store_deref_fp::trace_row(M31(1), &other))[1], M31(0));
    assert_eq!(store_deref_fp::row_input(&bundle(0x04, 1)), None);
    let mut inputs = vec![input; 3];
    let (claim, rows, data) = store_deref_fp::Claim::write_trace(&mut inputs);
    assert_eq!((claim.log_size, rows.len()), (4, 16));
    assert!(rows.iter().all(|r| eval.evaluate(r).iter().all(|c| *c == M31(0))));
    assert_eq!((inputs.len(), data.non_padded_length), (16, 3));
    // The source value is written at fp + off2.
    let l = store_deref_fp::row_lookups(M31(1), &input);
    assert_eq!(l.memory[3], [101, 9, 7, 0, 0, 0].map(M31));
    assert_eq!(l.memory[5], [103, 9, 7, 0, 0, 0].map(M31));
    assert_eq!(l.range_check_20, [M31(6), M31(7), M31(7)]);
    assert_eq!(data.lookup_data[3].range_check_20, [M31(0); 3]);
}

#[test]
fn jmp_abs_add_rows_satisfy_their_constraints() {
    let input = jmp_abs_add_fp_imm::row_input(&bundle(0x11, 1)).unwrap();
    assert_eq!(input.op0_val, M31(7));
    let eval = jmp_abs_add_fp_imm::Eval { claim: jmp_abs_add_fp_imm::Claim { log_size: 4 } };
    let row = jmp_abs_add_fp_imm::trace_row(M31(1), &input);
    assert_eq!(eval.evaluate(&row), vec![M31(0), M31(0)]);
    let mut inputs = vec![input; 20];
    let (_, rows, data) = jmp_abs_add_fp_imm::Claim::write_trace(&mut inputs);
    assert_eq!(rows.len(), 32);
    assert!(rows.iter().all(|r| eval.evaluate(r).iter().all(|c| *c == M31(0))));
    // The inputs are padded in place to the trace's rows.
    assert_eq!(inputs.len(), 32);
    assert_eq!(inputs[19], input);
    assert_eq!(inputs[20].pc, M31(0));
    assert_eq!(data.non_padded_length, 20);
    // The jump lands on op0 + off1 = 7 + 2.
    let l = jmp_abs_add_fp_imm::row_lookups(&input);
    assert_eq!(l.registers, [[M31(5), M31(100)], [M31(9), M31(100)]]);
    assert_eq!(l.memory[3], [101, 9, 7, 0, 0, 0].map(M31));
    assert_eq!(l.range_check_20, [M31(6), M31(7)]);
}
