use cairo_m_prover::components::opcodes::double_deref_fp_imm::{
    row_input, row_lookups, trace_row, Claim, Eval, RowInput, PADDING_OPCODE,
};
use cairo_m_prover::field::M31;
use cairo_m_prover::io::State;
use cairo_m_prover::memory::{DataAccess, ExecutionBundle, Instruction, InstructionAccess, MemoryValue};

const LOAD: u32 = 20;
const STORE: u32 = 23;

fn delta_inv() -> M31 {
    M31(STORE - LOAD).inverse().unwrap()
}

fn input(opcode: u32) -> RowInput {
    RowInput {
        pc: M31(3),
        fp: M31(100),
        clock: M31(30),
        inst_prev_clock: M31(1),
        opcode: M31(opcode),
        off0: M31(1),
        off1: M31(5),
        off2: M31(2),
        val0: M31(500),
        prev_clock0: M31(10),
        val1: M31(9),
        prev_clock1: M31(11),
        prev_val2: M31(4),
        prev_clock2: M31(12),
    }
}

#[test]
fn store_to_double_deref_reads_fp_and_writes_through_the_base() {
    let eval = Eval { claim: Claim { log_size: 4 } };
    let row = trace_row(M31(1), &input(STORE), M31(LOAD), delta_inv());
    assert_eq!(eval.evaluate(&row, M31(LOAD), delta_inv()), vec![M31(0); 4]);
    // Read at fp + off2, written at val0 + off1.
    assert_eq!((row[11], row[14]), (M31(102), M31(505)));
    let l = row_lookups(M31(1), &input(STORE), M31(LOAD), delta_inv());
    assert_eq!(l.memory[3], [101, 30, 500, 0, 0, 0].map(M31));
    assert_eq!(l.memory[7], [505, 30, 9, 0, 0, 0].map(M31));
    assert_eq!(l.range_check_20, [28, 19, 18, 17].map(M31));
}

#[test]
fn load_through_a_double_deref_writes_at_fp() {
    let eval = Eval { claim: Claim { log_size: 4 } };
    let row = trace_row(M31(1), &input(LOAD), M31(LOAD), delta_inv());
    assert_eq!(eval.evaluate(&row, M31(LOAD), delta_inv()), vec![M31(0); 4]);
    assert_eq!((row[11], row[14]), (M31(505), M31(102)));
    // Any other opcode breaks the selector's booleanity.
    let bad = trace_row(M31(1), &input(LOAD + 1), M31(LOAD), delta_inv());
    assert_ne!(eval.evaluate(&bad, M31(LOAD), delta_inv())[1], M31(0));
}

#[test]
fn double_deref_padding_rows_hold_the_load_opcode() {
    let mut inputs = vec![input(STORE), input(LOAD)];
    let (claim, rows, data) = Claim::write_trace(&mut inputs, M31(LOAD), M31(STORE));
    assert!(inputs.is_empty());
    assert_eq!((claim.log_size, rows.len(), data.non_padded_length), (4, 16, 2));
    assert_eq!(rows[2][5], M31(LOAD));
    assert_ne!(PADDING_OPCODE, LOAD);
    let eval = Eval { claim };
    assert!(rows.iter().all(|r| eval.evaluate(r, M31(LOAD), delta_inv()).iter().all(|c| *c == M31(0))));
    assert_eq!(data.lookup_data[0].memory[1][2], M31(STORE));
}

fn felt(x: u32) -> MemoryValue {
    MemoryValue { limb0: M31(x), limb1: M31(0) }
}

#[test]
fn row_input_of_a_double_deref_bundle() {
    let bundle = ExecutionBundle {
        registers: State { pc: M31(3), fp: M31(100) },
        clock: M31(30),
        instruction: InstructionAccess {
            instruction: Instruction { opcode: STORE, words: vec![M31(STORE), M31(1), M31(5), M31(2)] },
            prev_clock: M31(1),
        },
        operands: [
            Some(DataAccess { address: M31(101), prev_clock: M31(10), prev_value: felt(500), value: felt(500) }),
            Some(DataAccess { address: M31(102), prev_clock: M31(11), prev_value: felt(9), value: felt(9) }),
            Some(DataAccess { address: M31(505), prev_clock: M31(12), prev_value: felt(4), value: felt(9) }),
        ],
    };
    let i = row_input(&bundle).unwrap();
    assert_eq!(i, input(STORE));
    let eval = Eval { claim: Claim { log_size: 4 } };
    let row = trace_row(M31(1), &i, M31(LOAD), delta_inv());
    assert_eq!(eval.evaluate(&row, M31(LOAD), delta_inv()), vec![M31(0); 4]);
    let mut missing = bundle;
    missing.operands[2] = None;
    assert_eq!(row_input(&missing), None);
}
