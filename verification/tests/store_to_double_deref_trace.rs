use cairo_m_prover::components::opcodes::store_to_double_deref_fp_fp::{
    row_lookups, trace_row, Claim, Eval, RowInput,
};
use cairo_m_prover::field::M31;

const OPCODE: u32 = 19;

fn input(src: u32, base: u32, offset: u32) -> RowInput {
    RowInput {
        pc: M31(8),
        fp: M31(100),
        clock: M31(20),
        inst_prev_clock: M31(3),
        src_off: M31(1),
        base_off: M31(2),
        offset_off: M31(3),
        src_val: M31(src),
        src_prev_clock: M31(10),
        base_val: M31(base),
        base_prev_clock: M31(11),
        offset_val: M31(offset),
        offset_prev_clock: M31(12),
        final_deref_prev_val: M31(77),
        final_deref_prev_clock: M31(13),
    }
}

#[test]
fn double_deref_store_writes_the_source_at_base_plus_offset() {
    let row = trace_row(M31(1), &input(5, 400, 6));
    assert_eq!(row.len(), 16);
    assert_eq!(Eval { claim: Claim { log_size: 4 } }.evaluate(&row), vec![M31(0)]);
    let l = row_lookups(M31(1), M31(OPCODE), &input(5, 400, 6));
    assert_eq!(l.registers, [[M31(8), M31(100)], [M31(9), M31(100)]]);
    assert_eq!(l.memory[1], [8, 20, OPCODE, 1, 2, 3].map(M31));
    assert_eq!(l.memory[3], [101, 20, 5, 0, 0, 0].map(M31));
    assert_eq!(l.memory[5], [102, 20, 400, 0, 0, 0].map(M31));
    assert_eq!(l.memory[7], [103, 20, 6, 0, 0, 0].map(M31));
    assert_eq!(l.memory[8], [406, 13, 77, 0, 0, 0].map(M31));
    assert_eq!(l.memory[9], [406, 20, 5, 0, 0, 0].map(M31));
    assert_eq!(l.range_check_20, [16, 9, 8, 7, 6].map(M31));
}

#[test]
fn double_deref_store_trace_consumes_its_inputs() {
    let mut inputs = vec![input(1, 2, 3); 17];
    let (claim, rows, data) = Claim::write_trace(&mut inputs, M31(OPCODE));
    assert!(inputs.is_empty());
    assert_eq!(claim.log_size, 5);
    assert_eq!(rows.len(), 32);
    assert_eq!(data.non_padded_length, 17);
    assert_eq!(rows[17], [M31(0); 16]);
    assert_eq!(data.lookup_data[16].memory[9], [5, 20, 1, 0, 0, 0].map(M31));
}
