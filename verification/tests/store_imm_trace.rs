use cairo_m_prover::components::opcodes::u32_store_imm::{row_lookups, trace_row, Claim, Eval, RowInput};
use cairo_m_prover::field::M31;

const OPCODE: u32 = 13;

fn input(value: u32, clock: u32) -> RowInput {
    RowInput {
        pc: M31(4),
        fp: M31(50),
        clock: M31(clock),
        inst_prev_clock: M31(1),
        imm_lo: M31(value & 0xffff),
        imm_hi: M31(value >> 16),
        dst_off: M31(3),
        dst_prev_val_lo: M31(11),
        dst_prev_val_hi: M31(12),
        dst_prev_clock_lo: M31(2),
        dst_prev_clock_hi: M31(2),
    }
}

#[test]
fn store_imm_row_copies_its_input() {
    let row = trace_row(M31(1), &input(0xdead_beef, 9));
    assert_eq!(row, [1, 4, 50, 9, 1, 0xbeef, 0xdead, 3, 11, 12, 2, 2].map(M31));
    let eval = Eval { claim: Claim { log_size: 4 } };
    assert_eq!(eval.evaluate(&row), vec![M31(0)]);
    // An enabler that is not a boolean is caught.
    assert_ne!(eval.evaluate(&trace_row(M31(2), &input(1, 9))), vec![M31(0)]);
}

#[test]
fn store_imm_lookups_write_the_immediate() {
    let l = row_lookups(M31(1), M31(OPCODE), &input(0xdead_beef, 9));
    assert_eq!(l.registers, [[M31(4), M31(50), M31(9)], [M31(5), M31(50), M31(10)]]);
    assert_eq!(l.memory[1], [M31(4), M31(9), M31(OPCODE), M31(0xbeef), M31(0xdead), M31(3)]);
    assert_eq!(l.memory[2], [M31(53), M31(2), M31(11), M31(0), M31(0), M31(0)]);
    assert_eq!(l.memory[3], [M31(53), M31(9), M31(0xbeef), M31(0), M31(0), M31(0)]);
    assert_eq!(l.memory[5], [M31(54), M31(9), M31(0xdead), M31(0), M31(0), M31(0)]);
    assert_eq!(l.range_check_16, [M31(0xbeef), M31(0xdead)]);
    assert_eq!(l.range_check_20, [M31(7), M31(6), M31(6)]);
}

#[test]
fn store_imm_trace_consumes_its_inputs() {
    let mut inputs: Vec<RowInput> = (0..20).map(|i| input(i, 10 + i)).collect();
    let (claim, rows, data) = Claim::write_trace(&mut inputs, M31(OPCODE));
    assert!(inputs.is_empty());
    assert_eq!(claim.log_size, 5);
    assert_eq!(rows.len(), 32);
    assert_eq!(data.non_padded_length, 20);
    assert_eq!(data.lookup_data.len(), 32);
    assert_eq!(rows[19][0], M31(1));
    assert_eq!(rows[20], [M31(0); 12]);
    assert_eq!(data.lookup_data[19].memory[3][2], M31(19));
    assert_eq!(data.lookup_data[20].memory[0], [M31(0), M31(0), M31(OPCODE), M31(0), M31(0), M31(0)]);
}
