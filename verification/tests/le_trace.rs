use cairo_m_prover::components::opcodes::store_le_fp_imm::{
    row_input, row_lookups, trace_row, Claim, Eval, RowInput,
};
use cairo_m_prover::field::{M31, P};
use cairo_m_prover::io::State;
use cairo_m_prover::memory::{DataAccess, ExecutionBundle, Instruction, InstructionAccess, MemoryValue};

fn input(src: u32, imm: u32) -> RowInput {
    RowInput {
        pc: M31(3),
        fp: M31(40),
        clock: M31(12),
        inst_prev_clock: M31(1),
        src_off: M31(2),
        imm: M31(imm),
        dst_off: M31(5),
        src_val: M31(src),
        src_prev_clock: M31(4),
        dst_prev_val: M31(0),
        dst_prev_clock: M31(0),
    }
}

#[test]
fn comparison_rows_satisfy_every_constraint() {
    let eval = Eval { claim: Claim { log_size: 4 } };
    for (src, imm) in [(3, 5), (5, 3), (7, 7), (0, P - 1), (P - 1, 0), (P / 2, P / 3), (1, P / 2 + 10)] {
        let row = trace_row(M31(1), &input(src, imm));
        let constraints = eval.evaluate(&row);
        assert_eq!(constraints.len(), 14);
        assert!(constraints.iter().all(|c| *c == M31(0)), "src = {src}, imm = {imm}");
        assert_eq!(row[21], M31((src <= imm) as u32));
        assert_eq!(row[14].0 + row[15].0 + row[16].0, 1);
    }
}

#[test]
fn comparison_with_a_wrong_result_is_caught() {
    let eval = Eval { claim: Claim { log_size: 4 } };
    let mut row = trace_row(M31(1), &input(3, 5));
    // Claim `3 <= 5` is false: a and b must then be swapped, which breaks the last two checks.
    row[21] = M31(0);
    let constraints = eval.evaluate(&row);
    assert!(constraints[12] != M31(0) || constraints[13] != M31(0));
}

#[test]
fn comparison_trace_is_padded() {
    let eval = Eval { claim: Claim { log_size: 4 } };
    let mut inputs: Vec<RowInput> = (0..5).map(|k| input(k * 1000, 2500)).collect();
    let (claim, rows, data) = Claim::write_trace(&mut inputs, M31(21));
    assert!(inputs.is_empty());
    assert_eq!(data.non_padded_length, 5);
    // Rows 0 to 2 compare 0, 1000, 2000 with 2500; rows 3 and 4 do not hold.
    for k in 0..5 {
        assert_eq!(data.lookup_data[k].memory[5][2], M31((k < 3) as u32));
    }
    assert_eq!(claim.log_size, 4);
    assert_eq!(rows.len(), 16);
    assert_eq!(rows[5][0], M31(0));
    assert!(rows.iter().all(|r| eval.evaluate(r).iter().all(|c| *c == M31(0))));
}

#[test]
fn comparison_lookups_read_the_source_and_write_the_result() {
    let l = row_lookups(M31(1), M31(21), &input(3, 5));
    assert_eq!(l.registers, [[M31(3), M31(40), M31(12)], [M31(4), M31(40), M31(13)]]);
    assert_eq!(l.memory[1], [3, 12, 21, 2, 5, 5].map(M31));
    assert_eq!(l.memory[3], [42, 12, 3, 0, 0, 0].map(M31));
    assert_eq!(l.memory[5], [45, 12, 1, 0, 0, 0].map(M31));
    assert_eq!(l.range_check_20, [10, 7, 11].map(M31));
    assert!(l.range_check_16.iter().all(|v| v.0 < 65536));
}

fn felt(x: u32) -> MemoryValue {
    MemoryValue { limb0: M31(x), limb1: M31(0) }
}

#[test]
fn row_input_of_a_le_bundle() {
    let bundle = ExecutionBundle {
        registers: State { pc: M31(3), fp: M31(40) },
        clock: M31(12),
        instruction: InstructionAccess {
            instruction: Instruction { opcode: 9, words: vec![M31(9), M31(2), M31(5), M31(5)] },
            prev_clock: M31(1),
        },
        operands: [
            Some(DataAccess { address: M31(42), prev_clock: M31(4), prev_value: felt(3), value: felt(3) }),
            Some(DataAccess { address: M31(45), prev_clock: M31(0), prev_value: felt(0), value: felt(1) }),
            None,
        ],
    };
    let i = row_input(&bundle).unwrap();
    assert_eq!(i, input(3, 5));
    let eval = Eval { claim: Claim { log_size: 4 } };
    assert!(eval.evaluate(&trace_row(M31(1), &i)).iter().all(|c| *c == M31(0)));
    let mut short = bundle.clone();
    short.instruction.instruction.words.truncate(3);
    assert_eq!(row_input(&short), None);
    let mut missing = bundle;
    missing.operands[0] = None;
    assert_eq!(row_input(&missing), None);
}
