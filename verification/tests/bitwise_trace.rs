use cairo_m_prover::components::opcodes::u32_store_bitwise_fp_fp::{
    row_lookups, trace_row, Claim, Eval, RowInput, U32_STORE_AND_FP_FP, U32_STORE_OR_FP_FP,
    U32_STORE_XOR_FP_FP,
};
use cairo_m_prover::field::M31;

fn input(opcode: u32, a: u32, b: u32) -> RowInput {
    RowInput {
        pc: M31(6),
        fp: M31(200),
        clock: M31(40),
        inst_prev_clock: M31(2),
        opcode: M31(opcode),
        src0_off: M31(0),
        src1_off: M31(2),
        dst_off: M31(4),
        op0_lo: M31(a & 0xffff),
        op0_hi: M31(a >> 16),
        op0_prev_clock_lo: M31(30),
        op0_prev_clock_hi: M31(30),
        op1_lo: M31(b & 0xffff),
        op1_hi: M31(b >> 16),
        op1_prev_clock_lo: M31(31),
        op1_prev_clock_hi: M31(31),
        dst_prev_val_lo: M31(0),
        dst_prev_val_hi: M31(0),
        dst_prev_clock_lo: M31(32),
        dst_prev_clock_hi: M31(32),
    }
}

#[test]
fn bitwise_rows_write_the_operation_of_their_opcode() {
    let (a, b) = (0xf0f0_1234u32, 0x0ff0_ff00u32);
    for (opcode, expected) in
        [(U32_STORE_AND_FP_FP, a & b), (U32_STORE_OR_FP_FP, a | b), (U32_STORE_XOR_FP_FP, a ^ b)]
    {
        let row = trace_row(M31(1), &input(opcode, a, b));
        assert_eq!(Eval { claim: Claim { log_size: 4 } }.evaluate(&row), vec![M31(0)]);
        let res: Vec<u32> = row[23..27].iter().map(|x| x.0).collect();
        assert_eq!(res[0] | res[1] << 8 | res[2] << 16 | res[3] << 24, expected);
        let l = row_lookups(M31(1), &input(opcode, a, b));
        assert_eq!(l.memory[11], [204, 40, expected & 0xffff, 0, 0, 0].map(M31));
        assert_eq!(l.memory[13], [205, 40, expected >> 16, 0, 0, 0].map(M31));
        assert_eq!(l.bitwise[0], [opcode - U32_STORE_AND_FP_FP, 0x34, 0x00, (expected & 0xff)].map(M31));
    }
}

#[test]
fn bitwise_trace_pads_with_an_and_of_zeros() {
    let mut inputs = vec![input(U32_STORE_XOR_FP_FP, 1, 3)];
    let (claim, rows, data) = Claim::write_trace(&mut inputs);
    assert!(inputs.is_empty());
    assert_eq!((claim.log_size, rows.len(), data.non_padded_length), (4, 16, 1));
    assert_eq!(rows[1][5], M31(U32_STORE_AND_FP_FP));
    assert_eq!(data.lookup_data[1].bitwise[3], [M31(0); 4]);
    assert_eq!(data.lookup_data[0].range_check_20, [37, 9, 9, 8, 8, 7, 7].map(M31));
}
