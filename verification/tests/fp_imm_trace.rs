use cairo_m_prover::components::opcodes::store_fp_imm::{
    row_input, row_lookups, trace_row, Claim, Eval, FpImmOp, RowInput,
};
use cairo_m_prover::instructions::Opcode;
use cairo_m_prover::io::State;
use cairo_m_prover::memory::{DataAccess, ExecutionBundle, Instruction, InstructionAccess, MemoryValue};
use cairo_m_prover::field::{M31, P};

fn input(op: FpImmOp, src: u32, imm: u32, dst: u32) -> RowInput {
    RowInput {
        op,
        pc: M31(8),
        fp: M31(30),
        clock: M31(4),
        inst_prev_clock: M31(1),
        src_off: M31(1),
        imm: M31(imm),
        dst_off: M31(2),
        src_prev_clock: M31(2),
        src_val: M31(src),
        dst_prev_clock: M31(0),
        dst_prev_val: M31(0),
        dst_val: M31(dst),
    }
}

fn eval() -> Eval {
    Eval { claim: Claim { log_size: 4 } }
}

fn holds(row: &[M31; 18]) -> bool {
    eval().evaluate(row).iter().all(|c| *c == M31(0))
}

#[test]
fn correct_executions_satisfy_every_constraint() {
    // 9 / 2 in the field is 9 * (P + 1) / 2.
    let half_of_9 = ((9u64 * ((P as u64 + 1) / 2)) % P as u64) as u32;
    let cases = [
        input(FpImmOp::Add, 5, 7, 12),
        input(FpImmOp::Add, P - 1, 2, 1),
        input(FpImmOp::Sub, 5, 7, P - 2),
        input(FpImmOp::Mul, 6, 7, 42),
        input(FpImmOp::Mul, 6, 0, 0),
        input(FpImmOp::Div, 42, 7, 6),
        input(FpImmOp::Div, 9, 2, half_of_9),
    ];
    for case in cases {
        let row = trace_row(M31(1), &case);
        assert_eq!(eval().evaluate(&row).len(), 8);
        assert!(holds(&row), "{case:?}");
    }
}

#[test]
fn wrong_results_are_caught() {
    assert!(!holds(&trace_row(M31(1), &input(FpImmOp::Add, 5, 7, 13))));
    assert!(!holds(&trace_row(M31(1), &input(FpImmOp::Mul, 6, 7, 13))));
    assert!(!holds(&trace_row(M31(1), &input(FpImmOp::Div, 42, 7, 7))));
    // A division by zero has no result the row accepts but zero.
    assert!(!holds(&trace_row(M31(1), &input(FpImmOp::Div, 42, 0, 5))));
}

#[test]
fn immediate_inverse_and_flags_are_written() {
    let row = trace_row(M31(1), &input(FpImmOp::Sub, 1, 2, P));
    assert_eq!(row[10], M31((P + 1) / 2));
    assert_eq!((row[14], row[15]), (M31(0), M31(1)));
    let row = trace_row(M31(1), &input(FpImmOp::Div, 0, 0, 0));
    assert_eq!(row[10], M31(0));
    assert_eq!((row[14], row[15]), (M31(1), M31(1)));
}

#[test]
fn fp_imm_trace_is_padded() {
    let mut inputs = vec![input(FpImmOp::Add, 1, 2, 3), input(FpImmOp::Mul, 3, 3, 9)];
    let (claim, rows, data) = Claim::write_trace(&mut inputs);
    assert!(inputs.is_empty());
    assert_eq!(claim.log_size, 4);
    assert_eq!(rows.len(), 16);
    assert!(rows.iter().all(holds));
    assert_eq!(data.non_padded_length, 2);
    // The product is written at fp + dst_off.
    assert_eq!(data.lookup_data[1].memory[5], [32, 4, 9, 0, 0, 0].map(M31));
}

#[test]
fn fp_imm_lookups_carry_the_opcode_of_the_operation() {
    let l = row_lookups(M31(1), &input(FpImmOp::Mul, 3, 3, 9));
    let mul = Opcode::StoreMulFpImm.id();
    assert_eq!(l.memory[1], [8, 4, mul, 1, 3, 2].map(M31));
    assert_eq!(l.memory[3], [31, 4, 3, 0, 0, 0].map(M31));
    assert_eq!(l.registers, [[M31(8), M31(30)], [M31(9), M31(30)]]);
    assert_eq!(l.range_check_20, [2, 1, 3].map(M31));
}

fn felt(x: u32) -> MemoryValue {
    MemoryValue { limb0: M31(x), limb1: M31(0) }
}

fn bundle(opcode: u32) -> ExecutionBundle {
    ExecutionBundle {
        registers: State { pc: M31(8), fp: M31(30) },
        clock: M31(4),
        instruction: InstructionAccess {
            instruction: Instruction { opcode, words: vec![M31(opcode), M31(1), M31(7), M31(2)] },
            prev_clock: M31(1),
        },
        operands: [
            Some(DataAccess { address: M31(31), prev_clock: M31(2), prev_value: felt(6), value: felt(6) }),
            Some(DataAccess { address: M31(32), prev_clock: M31(0), prev_value: felt(0), value: felt(42) }),
            None,
        ],
    }
}

#[test]
fn row_input_of_a_bundle() {
    let input = row_input(&bundle(0x08)).unwrap();
    assert_eq!(input, self::input(FpImmOp::Mul, 6, 7, 42));
    assert!(holds(&trace_row(M31(1), &input)));
    assert_eq!(row_input(&bundle(0x01)).unwrap().op, FpImmOp::Add);
    assert_eq!(row_input(&bundle(0x03)).unwrap().op, FpImmOp::Sub);
    assert_eq!(row_input(&bundle(0x0A)).unwrap().op, FpImmOp::Div);
    assert_eq!(row_input(&bundle(0x00)), None);
    let mut short = bundle(0x08);
    short.instruction.instruction.words.truncate(3);
    assert_eq!(row_input(&short), None);
    let mut missing = bundle(0x08);
    missing.operands[1] = None;
    assert_eq!(row_input(&missing), None);
}
