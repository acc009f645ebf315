use cairo_m_prover::components::opcodes::u32_store_div_fp_imm::{
    row_lookups, trace_row, Claim, Eval, RowInput, MAX_CARRY_4, MAX_CARRY_5, MAX_CARRY_6,
};
use cairo_m_prover::field::M31;

fn input(n: u32, d: u32) -> RowInput {
    RowInput {
        pc: M31(10),
        fp: M31(100),
        clock: M31(7),
        inst_prev_clock: M31(3),
        src_off: M31(2),
        imm_lo: M31(d & 0xffff),
        imm_hi: M31(d >> 16),
        dst_off: M31(4),
        n_lo: M31(n & 0xffff),
        n_hi: M31(n >> 16),
        op0_prev_clock_lo: M31(1),
        op0_prev_clock_hi: M31(1),
        dst_prev_val_lo: M31(0),
        dst_prev_val_hi: M31(0),
        dst_prev_clock_lo: M31(0),
        dst_prev_clock_hi: M31(0),
    }
}

fn eval() -> Eval {
    Eval { claim: Claim { log_size: 4 } }
}

#[test]
fn division_row_satisfies_every_constraint() {
    for (n, d) in [(1_000_000u32, 7u32), (u32::MAX, 1), (u32::MAX, u32::MAX), (5, 9), (0xdead_beef, 0x1_0001)] {
        let row = trace_row(M31(1), &input(n, d));
        let constraints = eval().evaluate(&row);
        assert_eq!(constraints.len(), 19);
        assert!(constraints.iter().all(|c| *c == M31(0)), "n = {n}, d = {d}");
        // The remainder is in the last two columns, the quotient in bytes 19..23.
        let q = row[19].0 + (row[20].0 << 8) + (row[21].0 << 16) + (row[22].0 << 24);
        assert_eq!(q, n / d);
        assert_eq!(row[44].0 + (row[45].0 << 16), n % d);
    }
}

#[test]
fn zero_divisor_row_fails_the_borrow_constraint() {
    // 0 / 0: quotient and remainder 0, but no remainder is below a zero divisor.
    let row = trace_row(M31(1), &input(0, 0));
    let constraints = eval().evaluate(&row);
    assert_eq!(constraints[18], M31(1));
    assert!(constraints[..18].iter().all(|c| *c == M31(0)));
    // n / 0 with n != 0: n = q * d + r fails as well.
    let constraints = eval().evaluate(&trace_row(M31(1), &input(1234, 0)));
    assert_ne!(constraints[13], M31(0));
    assert_eq!(constraints[18], M31(1));
}

#[test]
fn padding_row_satisfies_every_constraint() {
    let row = trace_row(M31(0), &input(0, 0));
    assert!(eval().evaluate(&row).iter().all(|c| *c == M31(0)));
}

#[test]
fn tampered_row_is_caught() {
    let mut row = trace_row(M31(1), &input(1_000_000, 7));
    row[44] = M31(row[44].0 + 1);
    let constraints = eval().evaluate(&row);
    assert_ne!(constraints[13], M31(0));
}

const OPCODE: u32 = 27;

#[test]
fn write_trace_pads_to_a_power_of_two() {
    let mut inputs: Vec<RowInput> = (1..=3).map(|d| input(100, d)).collect();
    let (claim, rows, data) = Claim::write_trace(&mut inputs, M31(OPCODE));
    assert!(inputs.is_empty());
    assert_eq!(claim.log_size, 4);
    assert_eq!(rows.len(), 16);
    assert_eq!(data.non_padded_length, 3);
    assert_eq!(data.lookup_data.len(), 16);
    assert_eq!(rows[2][0], M31(1));
    assert_eq!(rows[3][0], M31(0));
    assert!(rows.iter().all(|r| eval().evaluate(r).iter().all(|c| *c == M31(0))));

    let mut many: Vec<RowInput> = (1..=17).map(|d| input(100, d)).collect();
    let (claim, rows, data) = Claim::write_trace(&mut many, M31(OPCODE));
    assert!(many.is_empty());
    assert_eq!(claim.log_size, 5);
    assert_eq!(rows.len(), 32);
    assert_eq!(data.non_padded_length, 17);

    let mut none: Vec<RowInput> = Vec::new();
    let (claim, rows, data) = Claim::write_trace(&mut none, M31(OPCODE));
    assert_eq!(claim.log_size, 4);
    assert_eq!(rows.len(), 16);
    assert_eq!(data.non_padded_length, 0);
    assert_eq!(data.lookup_data.len(), 16);
    for row in &rows {
        assert_eq!(row[0], M31(0));
        assert!(row[19..23].iter().all(|q| *q == M31(0)));
        assert_eq!((row[44], row[45]), (M31(0), M31(0)));
    }
}

#[test]
fn lookups_write_the_quotient_to_the_destination() {
    // 0xdead_beef / 0x1_0001 = 0xdeac, remainder 0xe043.
    let l = row_lookups(M31(1), M31(OPCODE), &input(0xdead_beef, 0x1_0001));
    assert_eq!(l.registers, [[M31(10), M31(100)], [M31(12), M31(100)]]);
    assert_eq!(l.memory[0], [M31(10), M31(3), M31(OPCODE), M31(2), M31(1), M31(1)]);
    assert_eq!(l.memory[1], [M31(10), M31(7), M31(OPCODE), M31(2), M31(1), M31(1)]);
    assert_eq!(l.memory[3], [M31(11), M31(7), M31(4), M31(0), M31(0), M31(0)]);
    assert_eq!(l.memory[5], [M31(102), M31(7), M31(0xbeef), M31(0), M31(0), M31(0)]);
    assert_eq!(l.memory[7], [M31(103), M31(7), M31(0xdead), M31(0), M31(0), M31(0)]);
    assert_eq!(l.memory[9], [M31(104), M31(7), M31(0xdeac), M31(0), M31(0), M31(0)]);
    assert_eq!(l.memory[11], [M31(105), M31(7), M31(0), M31(0), M31(0), M31(0)]);
    assert_eq!(&l.range_check_16[..4], &[M31(0xbeef), M31(0xdead), M31(0xe043), M31(0)]);
    // d - r - 1 = 0x1_0001 - 0xe043 - 1 = 0x1fbd, borrowing from the high half.
    assert_eq!(l.range_check_16[11], M31(0x1fbd));
    assert_eq!(l.range_check_16[12], M31(0));
    // Each clock gap less the enabler.
    assert_eq!(l.range_check_20, [M31(3), M31(5), M31(5), M31(6), M31(6)]);
}

#[test]
fn lookups_take_each_carry_from_its_bound() {
    assert_eq!((MAX_CARRY_4, MAX_CARRY_5, MAX_CARRY_6), (1274, 512, 256));
    let row = trace_row(M31(1), &input(u32::MAX, 1));
    let l = row_lookups(M31(1), M31(OPCODE), &input(u32::MAX, 1));
    let bounds = [254u32, 509, 764, 1019, 1274, 512, 256];
    for k in 0..7 {
        assert_eq!(l.range_check_16[4 + k].0 + row[23 + k].0, bounds[k]);
    }
    for v in l.range_check_8.iter() {
        assert!(v.0 < 256);
    }
    for v in l.range_check_16.iter() {
        assert!(v.0 < 65536);
    }
}

#[test]
fn padding_lookups_hold_the_opcode_and_zeros() {
    let mut none: Vec<RowInput> = Vec::new();
    let (_, _, data) = Claim::write_trace(&mut none, M31(OPCODE));
    let l = &data.lookup_data[0];
    assert_eq!(l.memory[0], [M31(0), M31(0), M31(OPCODE), M31(0), M31(0), M31(0)]);
    assert_eq!(l.range_check_20, [M31(0); 5]);
}

#[test]
fn air_lookups_of_a_written_row_are_its_recorded_lookups() {
    for (n, d) in [(1_000_000u32, 7u32), (0xdead_beef, 0x1_0001), (5, 9), (0, 0)] {
        let row = trace_row(M31(1), &input(n, d));
        assert_eq!(eval().lookups(&row, M31(OPCODE)), row_lookups(M31(1), M31(OPCODE), &input(n, d)));
    }
}

#[test]
fn dividend_half_beyond_16_bits_breaks_a_constraint() {
    // A low half of 2^16 is no 16-bit half: the row written for it fails the
    // constraints, so the trace law holds only on 16-bit halves.
    let mut i = input(0, 1);
    i.n_lo = M31(65536);
    let constraints = eval().evaluate(&trace_row(M31(1), &i));
    assert!(constraints.iter().any(|c| *c != M31(0)));
}
