use cairo_m_prover::components::opcodes::u32_store_mul_fp_imm::{
    row_lookups, trace_row, Claim, Eval, RowInput,
};
use cairo_m_prover::field::M31;

fn input(a: u32, b: u32) -> RowInput {
    RowInput {
        pc: M31(4),
        fp: M31(50),
        clock: M31(9),
        inst_prev_clock: M31(2),
        src_off: M31(1),
        imm_lo: M31(b & 0xffff),
        imm_hi: M31(b >> 16),
        dst_off: M31(3),
        op0_lo: M31(a & 0xffff),
        op0_hi: M31(a >> 16),
        op0_prev_clock_lo: M31(5),
        op0_prev_clock_hi: M31(6),
        dst_prev_val_lo: M31(0),
        dst_prev_val_hi: M31(0),
        dst_prev_clock_lo: M31(0),
        dst_prev_clock_hi: M31(0),
    }
}

#[test]
fn multiplication_row_satisfies_every_constraint() {
    let eval = Eval { claim: Claim { log_size: 4 } };
    for (a, b) in [(0x1234_5678u32, 0x9abc_def0u32), (u32::MAX, u32::MAX), (0, 7), (65536, 65536)] {
        let row = trace_row(M31(1), &input(a, b));
        let constraints = eval.evaluate(&row);
        assert_eq!(constraints.len(), 5);
        assert!(constraints.iter().all(|c| *c == M31(0)));
        let res = row[21].0 + (row[22].0 << 8) + (row[23].0 << 16) + (row[24].0 << 24);
        assert_eq!(res, a.wrapping_mul(b));
    }
}

#[test]
fn multiplication_tampered_result_is_caught() {
    let eval = Eval { claim: Claim { log_size: 4 } };
    let mut row = trace_row(M31(1), &input(1000, 3000));
    row[22] = M31(row[22].0 + 1);
    assert_ne!(eval.evaluate(&row)[2], M31(0));
    let mut row = trace_row(M31(1), &input(1000, 3000));
    row[0] = M31(2);
    assert_ne!(eval.evaluate(&row)[0], M31(0));
}

#[test]
fn multiplication_trace_is_padded() {
    let eval = Eval { claim: Claim { log_size: 4 } };
    let mut inputs: Vec<RowInput> = (0..20).map(|k| input(k * 77_777, k + 1)).collect();
    let (claim, rows, data) = Claim::write_trace(&mut inputs, M31(30));
    assert!(inputs.is_empty());
    assert_eq!(data.non_padded_length, 20);
    assert_eq!(data.lookup_data.len(), 32);
    assert_eq!(claim.log_size, 5);
    assert_eq!(rows.len(), 32);
    assert_eq!(rows[19][0], M31(1));
    assert_eq!(rows[20][0], M31(0));
    assert!(rows.iter().all(|r| eval.evaluate(r).iter().all(|c| *c == M31(0))));
}

#[test]
fn multiplication_lookups_write_the_product() {
    let (a, b) = (0x1234_5678u32, 0x9abc_def0u32);
    let product = a.wrapping_mul(b);
    let l = row_lookups(M31(1), M31(30), &input(a, b));
    assert_eq!(l.registers, [[M31(4), M31(50), M31(9)], [M31(6), M31(50), M31(10)]]);
    assert_eq!(l.memory[1], [4, 9, 30, 1, b & 0xffff, b >> 16].map(M31));
    assert_eq!(l.memory[5], [51, 9, a & 0xffff, 0, 0, 0].map(M31));
    assert_eq!(l.memory[7], [52, 9, a >> 16, 0, 0, 0].map(M31));
    assert_eq!(l.memory[9], [53, 9, product & 0xffff, 0, 0, 0].map(M31));
    assert_eq!(l.memory[11], [54, 9, product >> 16, 0, 0, 0].map(M31));
    assert!(l.range_check_8.iter().all(|v| v.0 < 256));
    assert!(l.range_check_16.iter().all(|v| v.0 < 65536));
    assert_eq!(l.range_check_20, [6, 3, 2, 8, 8].map(M31));
}
