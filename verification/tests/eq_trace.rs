use cairo_m_prover::components::opcodes::u32_store_eq_fp_fp::{
    result, row_lookups, trace_row, Claim, Eval, RowInput,
};
use cairo_m_prover::field::{M31, P};

fn input(a: u32, b: u32) -> RowInput {
    RowInput {
        pc: M31(1),
        fp: M31(20),
        clock: M31(6),
        inst_prev_clock: M31(2),
        src0_off: M31(0),
        src1_off: M31(2),
        dst_off: M31(4),
        op0_lo: M31(a & 0xffff),
        op0_hi: M31(a >> 16),
        op0_prev_clock_lo: M31(3),
        op0_prev_clock_hi: M31(3),
        op1_lo: M31(b & 0xffff),
        op1_hi: M31(b >> 16),
        op1_prev_clock_lo: M31(4),
        op1_prev_clock_hi: M31(4),
        dst_prev_val: M31(0),
        dst_prev_clock: M31(0),
    }
}

#[test]
fn equality_rows_satisfy_every_constraint_and_write_the_comparison() {
    let eval = Eval { claim: Claim { log_size: 4 } };
    for (a, b) in [(5u32, 5u32), (5, 6), (0, u32::MAX), (0x1234_5678, 0x1234_5678), (u32::MAX, 2)] {
        let row = trace_row(M31(1), &input(a, b));
        assert!(eval.evaluate(&row).iter().all(|c| *c == M31(0)));
        assert_eq!(result(&row), M31((a == b) as u32), "{a} == {b}");
    }
}

#[test]
fn values_p_apart_compare_unequal() {
    // The halves are compared one by one, so values the field cannot tell
    // apart as a whole are still written as different.
    let row = trace_row(M31(1), &input(0, P));
    assert_eq!(result(&row), M31(0));
    let row = trace_row(M31(1), &input(1, 2 * P + 1));
    assert_eq!(result(&row), M31(0));
    let row = trace_row(M31(1), &input(u32::MAX, 1));
    assert_eq!(result(&row), M31(0));
}

#[test]
fn equal_halves_are_needed_on_both_sides() {
    let eval = Eval { claim: Claim { log_size: 4 } };
    for (a, b) in [(0x0001_0002u32, 0x0001_0003u32), (0x0002_0001, 0x0003_0001), (0xffff_0000, 0x0000_ffff)] {
        let row = trace_row(M31(1), &input(a, b));
        assert_eq!(row.len(), 20);
        assert!(eval.evaluate(&row).iter().all(|c| *c == M31(0)));
        assert_eq!(result(&row), M31(0));
    }
}

#[test]
fn equality_trace_is_padded() {
    let eval = Eval { claim: Claim { log_size: 4 } };
    let mut inputs = vec![input(1, 1), input(1, 2)];
    let (claim, rows, data) = Claim::write_trace(&mut inputs, M31(40));
    assert!(inputs.is_empty());
    assert_eq!(claim.log_size, 4);
    assert_eq!(rows.len(), 16);
    assert_eq!(data.non_padded_length, 2);
    assert!(rows.iter().all(|r| eval.evaluate(r).iter().all(|c| *c == M31(0))));
    // The destination is written the comparison.
    assert_eq!(data.lookup_data[0].memory[11], [24, 6, 1, 0, 0, 0].map(M31));
    assert_eq!(data.lookup_data[1].memory[11], [24, 6, 0, 0, 0, 0].map(M31));
}

#[test]
fn equality_lookups_read_both_operands() {
    let l = row_lookups(M31(1), M31(40), &input(0x0002_0001, 0x0004_0003));
    assert_eq!(l.registers, [[M31(1), M31(20)], [M31(2), M31(20)]]);
    assert_eq!(l.memory[0], [1, 2, 40, 0, 2, 4].map(M31));
    assert_eq!(l.memory[3], [20, 6, 1, 0, 0, 0].map(M31));
    assert_eq!(l.memory[5], [21, 6, 2, 0, 0, 0].map(M31));
    assert_eq!(l.memory[7], [22, 6, 3, 0, 0, 0].map(M31));
    assert_eq!(l.memory[9], [23, 6, 4, 0, 0, 0].map(M31));
    assert_eq!(l.range_check_16, [1, 2, 3, 4].map(M31));
    assert_eq!(l.range_check_20, [3, 2, 2, 1, 1, 5].map(M31));
}
