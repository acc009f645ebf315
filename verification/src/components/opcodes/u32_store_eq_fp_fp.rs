//! Component proving the U32StoreEqFpFp opcode:
//! `[fp + dst_off] = u32([fp + src0_off], [fp + src0_off + 1]) == u32([fp + src1_off], [fp + src1_off + 1])`.
//!
//! The operands are compared half by half. With `diff_lo = op1_lo - op0_lo`
//! and `diff_hi = op1_hi - op0_hi` in the field, the row holds the inverse of
//! each difference, or zero, and writes
//! `(1 - diff_lo * diff_lo_inv) * (1 - diff_hi * diff_hi_inv)`: one exactly
//! when both halves agree.
use crate::components::{
    component_log_sizes, is_component_log_sizes, is_trace_log_size, rows_of, trace_log_size,
    SECURE_EXTENSION_DEGREE,
};
use crate::components::opcodes::u32_store_mul_fp_imm::u32_of;
use crate::field::{fadd, fmod, fmul, fsub, inv_or_zero, invertible, lemma_fmul_comm, lemma_fmul_one, M31, P};
use vstd::prelude::*;

verus! {

/// Number of trace columns.
pub const N_TRACE_COLUMNS: usize = 20;
/// Number of lookups into the memory relation per row.
pub const N_MEMORY_LOOKUPS: usize = 12;
/// Number of lookups into the registers relation per row.
pub const N_REGISTERS_LOOKUPS: usize = 2;
/// Number of 20-bit range checks per row.
pub const N_RANGE_CHECK_20_LOOKUPS: usize = 6;
/// Number of 16-bit range checks per row.
pub const N_RANGE_CHECK_16_LOOKUPS: usize = 4;
/// Number of interaction columns: four per pair of lookups.
pub const N_LOOKUPS_COLUMNS: usize = SECURE_EXTENSION_DEGREE * ((N_MEMORY_LOOKUPS + N_REGISTERS_LOOKUPS + N_RANGE_CHECK_20_LOOKUPS + N_RANGE_CHECK_16_LOOKUPS + 1) / 2);

/// The claim of the component: the log size of its trace.
#[derive(Clone, Copy, Debug, Default, PartialEq, Eq, Structural)]
pub struct Claim {
    /// Log2 of the number of rows.
    pub log_size: u32,
}

impl Claim {
    /// The log sizes of the component's columns, tree by tree.
    pub fn log_sizes(&self) -> (r: Vec<Vec<u32>>)
        ensures
            is_component_log_sizes(r@, self.log_size, N_TRACE_COLUMNS as nat, N_LOOKUPS_COLUMNS as nat),
    {
        component_log_sizes(self.log_size, N_TRACE_COLUMNS, N_LOOKUPS_COLUMNS)
    }
}

/// The constraint evaluator of the component.
#[derive(Clone, Copy, Debug, PartialEq, Eq, Structural)]
pub struct Eval {
    /// The claim the evaluator checks.
    pub claim: Claim,
}

impl Eval {
    /// Log2 of the number of rows of the evaluated trace.
    pub fn log_size(&self) -> (r: u32)
        ensures
            r == self.claim.log_size,
    {
        self.claim.log_size
    }

    /// Bound on the log degree of the constraints: one more than the log size.
    pub fn max_constraint_log_degree_bound(&self) -> (r: u32)
        requires
            self.claim.log_size < u32::MAX,
        ensures
            r == self.claim.log_size + 1,
    {
        self.claim.log_size + 1
    }
}


// ---------------------------------------------------------------------------
// The trace and its constraints.

/// The values a row of the trace is written from.
#[derive(Clone, Copy, Debug, PartialEq, Eq)]
pub struct RowInput {
    /// Program counter.
    pub pc: M31,
    /// Frame pointer.
    pub fp: M31,
    /// Clock of the step.
    pub clock: M31,
    /// Clock of the previous access to the instruction.
    pub inst_prev_clock: M31,
    /// Offset of the first operand from `fp`.
    pub src0_off: M31,
    /// Offset of the second operand from `fp`.
    pub src1_off: M31,
    /// Offset of the destination from `fp`.
    pub dst_off: M31,
    /// Low half of the first operand.
    pub op0_lo: M31,
    /// High half of the first operand.
    pub op0_hi: M31,
    /// Clock of the previous access to the first operand's low half.
    pub op0_prev_clock_lo: M31,
    /// Clock of the previous access to the first operand's high half.
    pub op0_prev_clock_hi: M31,
    /// Low half of the second operand.
    pub op1_lo: M31,
    /// High half of the second operand.
    pub op1_hi: M31,
    /// Clock of the previous access to the second operand's low half.
    pub op1_prev_clock_lo: M31,
    /// Clock of the previous access to the second operand's high half.
    pub op1_prev_clock_hi: M31,
    /// Previous value of the destination.
    pub dst_prev_val: M31,
    /// Clock of the previous access to the destination.
    pub dst_prev_clock: M31,
}

/// The input of a padding row: all zeros.
pub open spec fn zero_input() -> RowInput {
    RowInput {
        pc: M31(0),
        fp: M31(0),
        clock: M31(0),
        inst_prev_clock: M31(0),
        src0_off: M31(0),
        src1_off: M31(0),
        dst_off: M31(0),
        op0_lo: M31(0),
        op0_hi: M31(0),
        op0_prev_clock_lo: M31(0),
        op0_prev_clock_hi: M31(0),
        op1_lo: M31(0),
        op1_hi: M31(0),
        op1_prev_clock_lo: M31(0),
        op1_prev_clock_hi: M31(0),
        dst_prev_val: M31(0),
        dst_prev_clock: M31(0),
    }
}

/// The difference `op1 - op0` of one half of the operands, in the field.
pub open spec fn half_diff(op0: M31, op1: M31) -> M31 {
    fsub(op1, op0)
}

/// The difference of a row input's low halves.
pub open spec fn input_diff_lo(i: RowInput) -> M31 {
    half_diff(i.op0_lo, i.op1_lo)
}

/// The difference of a row input's high halves.
pub open spec fn input_diff_hi(i: RowInput) -> M31 {
    half_diff(i.op0_hi, i.op1_hi)
}

/// A field element the row can hold an inverse for: zero, or invertible.
pub open spec fn zero_or_invertible(x: M31) -> bool {
    x.0 == 0 || invertible(x)
}

/// A comparison the component can prove: 16-bit halves, and half
/// differences that are zero or invertible.
pub open spec fn row_input_ok(i: RowInput) -> bool {
    &&& i.op0_lo.0 < 65536 && i.op0_hi.0 < 65536
    &&& i.op1_lo.0 < 65536 && i.op1_hi.0 < 65536
    &&& zero_or_invertible(input_diff_lo(i)) && zero_or_invertible(input_diff_hi(i))
}

/// The trace row written for `i` with the given enabler, column by column.
pub open spec fn spec_trace_row(enabler: M31, i: RowInput) -> Seq<M31> {
    seq![
        enabler, i.pc, i.fp, i.clock, i.inst_prev_clock, i.src0_off, i.src1_off, i.dst_off,
        i.op0_lo, i.op0_hi, i.op0_prev_clock_lo, i.op0_prev_clock_hi,
        i.op1_lo, i.op1_hi, i.op1_prev_clock_lo, i.op1_prev_clock_hi,
        i.dst_prev_val, i.dst_prev_clock, inv_or_zero(input_diff_lo(i)), inv_or_zero(input_diff_hi(i))
    ]
}

/// Writes the trace row for `input` with the given enabler.
pub fn trace_row(enabler: M31, input: &RowInput) -> (r: [M31; 20])
    ensures
        r@ == spec_trace_row(enabler, *input),
{
    let diff_lo_inv = input.op1_lo.sub(input.op0_lo).inverse_or_zero();
    let diff_hi_inv = input.op1_hi.sub(input.op0_hi).inverse_or_zero();
    let r = [
        enabler, input.pc, input.fp, input.clock, input.inst_prev_clock, input.src0_off, input.src1_off,
        input.dst_off, input.op0_lo, input.op0_hi, input.op0_prev_clock_lo, input.op0_prev_clock_hi,
        input.op1_lo, input.op1_hi, input.op1_prev_clock_lo, input.op1_prev_clock_hi,
        input.dst_prev_val, input.dst_prev_clock, diff_lo_inv, diff_hi_inv,
    ];
    assert(r@ =~= spec_trace_row(enabler, *input));
    r
}

/// The difference of a row's low halves.
pub open spec fn row_diff_lo(row: Seq<M31>) -> M31 {
    half_diff(row[8], row[12])
}

/// The difference of a row's high halves.
pub open spec fn row_diff_hi(row: Seq<M31>) -> M31 {
    half_diff(row[9], row[13])
}

/// The polynomial constraints of a row, each of which must vanish: the
/// enabler is a boolean, and each half's `diff_inv` inverts its `diff`
/// unless both are zero.
pub open spec fn spec_constraints(row: Seq<M31>) -> Seq<M31> {
    let one = M31(1);
    let e = row[0];
    let (d_lo, d_hi) = (row_diff_lo(row), row_diff_hi(row));
    let (i_lo, i_hi) = (row[18], row[19]);
    seq![
        fmul(e, fsub(one, e)),
        fmul(d_lo, fsub(fmul(i_lo, d_lo), one)),
        fmul(i_lo, fsub(fmul(i_lo, d_lo), one)),
        fmul(d_hi, fsub(fmul(i_hi, d_hi), one)),
        fmul(i_hi, fsub(fmul(i_hi, d_hi), one))
    ]
}

/// The value the row writes to the destination:
/// `(1 - diff_lo * diff_lo_inv) * (1 - diff_hi * diff_hi_inv)`.
pub open spec fn eq_result(row: Seq<M31>) -> M31 {
    fmul(fsub(M31(1), fmul(row_diff_lo(row), row[18])), fsub(M31(1), fmul(row_diff_hi(row), row[19])))
}

impl Eval {
    /// Evaluates the polynomial constraints of the component on one row of
    /// its trace, in the order [`spec_constraints`] lists them.
    pub fn evaluate(&self, row: &[M31; 20]) -> (r: Vec<M31>)
        ensures
            r@ == spec_constraints(row@),
    {
        let one = M31::one();
        let e = row[0];
        let d_lo = row[12].sub(row[8]);
        let d_hi = row[13].sub(row[9]);
        let (i_lo, i_hi) = (row[18], row[19]);
        let c = vec![
            e.mul(one.sub(e)),
            d_lo.mul(i_lo.mul(d_lo).sub(one)),
            i_lo.mul(i_lo.mul(d_lo).sub(one)),
            d_hi.mul(i_hi.mul(d_hi).sub(one)),
            i_hi.mul(i_hi.mul(d_hi).sub(one)),
        ];
        assert(c@ =~= spec_constraints(row@));
        c
    }
}

/// The value written to the destination by a row.
pub fn result(row: &[M31; 20]) -> (r: M31)
    ensures
        r == eq_result(row@),
{
    let one = M31::one();
    let d_lo = row[12].sub(row[8]);
    let d_hi = row[13].sub(row[9]);
    one.sub(d_lo.mul(row[18])).mul(one.sub(d_hi.mul(row[19])))
}

/// On one half, the row's factor `1 - diff * diff_inv` is one when the
/// difference is zero and zero otherwise, and both constraints of the half
/// vanish, when the difference is zero or invertible.
proof fn lemma_half(d: M31)
    requires
        zero_or_invertible(d),
        d.0 < P,
    ensures
        fmul(d, fsub(fmul(inv_or_zero(d), d), M31(1))) == M31(0),
        fmul(inv_or_zero(d), fsub(fmul(inv_or_zero(d), d), M31(1))) == M31(0),
        fsub(M31(1), fmul(d, inv_or_zero(d))) == if d.0 == 0 {
            M31(1)
        } else {
            M31(0)
        },
{
    let d_inv = inv_or_zero(d);
    assert(fmod(0) == 0);
    assert forall|x: M31| #[trigger] fmul(M31(0), x) == M31(0) by {
        assert(0 * x.0 == 0);
    }
    assert forall|x: M31| #[trigger] fmul(x, M31(0)) == M31(0) by {
        assert(x.0 * 0 == 0);
    }
    assert(fsub(M31(1), M31(1)) == M31(0));
    assert(fsub(M31(1), M31(0)) == M31(1)) by {
        vstd::arithmetic::div_mod::lemma_small_mod(1, P as nat);
    }
    if d.0 == 0 {
        assert(d == M31(0));
        assert(!invertible(d));
        assert(d_inv == M31(0));
    } else {
        lemma_fmul_comm(d, d_inv);
        assert(fmul(d, d_inv) == M31(1));
    }
}

/// A half difference is zero exactly when the halves are equal.
proof fn lemma_half_diff_zero(a: M31, b: M31)
    requires
        a.0 < 65536,
        b.0 < 65536,
    ensures
        half_diff(a, b).0 < P,
        (half_diff(a, b).0 == 0) == (a == b),
{
    let x = b.0 - a.0;
    if x >= 0 {
        vstd::arithmetic::div_mod::lemma_small_mod(x as nat, P as nat);
    } else {
        vstd::arithmetic::div_mod::lemma_mod_add_multiples_vanish(x, P as int);
        vstd::arithmetic::div_mod::lemma_small_mod((x + P) as nat, P as nat);
    }
}

/// Every polynomial constraint vanishes on a written row whose half
/// differences are zero or invertible (the padding row's are zero), and the
/// row writes one exactly when both differences are zero.
pub proof fn lemma_row_satisfies_constraints(enabler: M31, input: RowInput)
    requires
        enabler == M31(0) || enabler == M31(1),
        zero_or_invertible(input_diff_lo(input)),
        zero_or_invertible(input_diff_hi(input)),
    ensures
        spec_constraints(spec_trace_row(enabler, input)) == Seq::new(5, |_k: int| M31(0)),
        eq_result(spec_trace_row(enabler, input)) == if input_diff_lo(input).0 == 0 && input_diff_hi(input).0 == 0 {
            M31(1)
        } else {
            M31(0)
        },
{
    let row = spec_trace_row(enabler, input);
    let (d_lo, d_hi) = (input_diff_lo(input), input_diff_hi(input));
    assert(row_diff_lo(row) == d_lo);
    assert(row_diff_hi(row) == d_hi);
    assert(d_lo.0 < P && d_hi.0 < P) by {
        vstd::arithmetic::div_mod::lemma_mod_bound(input.op1_lo.0 - input.op0_lo.0, P as int);
        vstd::arithmetic::div_mod::lemma_mod_bound(input.op1_hi.0 - input.op0_hi.0, P as int);
    }
    lemma_half(d_lo);
    lemma_half(d_hi);
    assert(fmod(0) == 0);
    assert forall|x: M31| #[trigger] fmul(M31(0), x) == M31(0) by {
        assert(0 * x.0 == 0);
    }
    assert forall|x: M31| #[trigger] fmul(x, M31(0)) == M31(0) by {
        assert(x.0 * 0 == 0);
    }
    lemma_fmul_one(M31(1));
    lemma_fmul_one(enabler);
    assert(fsub(M31(1), M31(1)) == M31(0));
    assert(spec_constraints(row) =~= Seq::new(5, |_k: int| M31(0)));
}

/// The row writes `1` exactly when the two `u32` operands are equal, and
/// `0` otherwise.
pub proof fn lemma_result_is_equality(input: RowInput)
    requires
        row_input_ok(input),
    ensures
        eq_result(spec_trace_row(M31(1), input)) == if u32_of(input.op0_lo, input.op0_hi) == u32_of(
            input.op1_lo,
            input.op1_hi,
        ) {
            M31(1)
        } else {
            M31(0)
        },
{
    lemma_row_satisfies_constraints(M31(1), input);
    lemma_half_diff_zero(input.op0_lo, input.op1_lo);
    lemma_half_diff_zero(input.op0_hi, input.op1_hi);
}

/// What one row adds to the relations: the register update, the twelve
/// memory accesses and the values range-checked on 16 and 20 bits.
#[derive(Clone, Copy, Debug, PartialEq, Eq)]
pub struct RowLookups {
    /// `[pc, fp]` before and after the step.
    pub registers: [[M31; 2]; 2],
    /// The instruction, the halves of both operands read, then the
    /// destination written; each access as its previous state then its new
    /// state.
    pub memory: [[M31; 6]; 12],
    /// The halves of both operands.
    pub range_check_16: [M31; 4],
    /// The clock gap of each access.
    pub range_check_20: [M31; 6],
}

/// An access `[address, clock, value]` of one limb, padded to six values.
pub open spec fn limb_access(address: M31, clock: M31, value: M31) -> Seq<M31> {
    seq![address, clock, value, M31(0), M31(0), M31(0)]
}

/// The memory lookups of a row: the instruction word (holding the opcode),
/// the halves of both operands read, then the destination written with the
/// comparison; each access first with its previous clock and value, then
/// with the row's clock and new value.
pub open spec fn spec_memory_lookups(enabler: M31, opcode: M31, i: RowInput) -> Seq<Seq<M31>> {
    let s0 = fadd(i.fp, i.src0_off);
    let s1 = fadd(i.fp, i.src1_off);
    let d = fadd(i.fp, i.dst_off);
    seq![
        seq![i.pc, i.inst_prev_clock, opcode, i.src0_off, i.src1_off, i.dst_off],
        seq![i.pc, i.clock, opcode, i.src0_off, i.src1_off, i.dst_off],
        limb_access(s0, i.op0_prev_clock_lo, i.op0_lo),
        limb_access(s0, i.clock, i.op0_lo),
        limb_access(fadd(s0, M31(1)), i.op0_prev_clock_hi, i.op0_hi),
        limb_access(fadd(s0, M31(1)), i.clock, i.op0_hi),
        limb_access(s1, i.op1_prev_clock_lo, i.op1_lo),
        limb_access(s1, i.clock, i.op1_lo),
        limb_access(fadd(s1, M31(1)), i.op1_prev_clock_hi, i.op1_hi),
        limb_access(fadd(s1, M31(1)), i.clock, i.op1_hi),
        limb_access(d, i.dst_prev_clock, i.dst_prev_val),
        limb_access(d, i.clock, eq_result(spec_trace_row(enabler, i)))
    ]
}

/// The 20-bit range checks of a row: the gap between the row's clock and the
/// previous clock of each access, less the enabler.
pub open spec fn spec_range_check_20(enabler: M31, i: RowInput) -> Seq<M31> {
    seq![
        fsub(fsub(i.clock, i.inst_prev_clock), enabler),
        fsub(fsub(i.clock, i.op0_prev_clock_lo), enabler),
        fsub(fsub(i.clock, i.op0_prev_clock_hi), enabler),
        fsub(fsub(i.clock, i.op1_prev_clock_lo), enabler),
        fsub(fsub(i.clock, i.op1_prev_clock_hi), enabler),
        fsub(fsub(i.clock, i.dst_prev_clock), enabler)
    ]
}

/// `l` holds the lookups of the row written for `i` with the given enabler,
/// the instruction word holding `opcode`.
pub open spec fn is_row_lookups(l: RowLookups, enabler: M31, opcode: M31, i: RowInput) -> bool {
    &&& l.registers@.map_values(|e: [M31; 2]| e@) == seq![seq![i.pc, i.fp], seq![fadd(i.pc, M31(1)), i.fp]]
    &&& l.memory@.map_values(|e: [M31; 6]| e@) == spec_memory_lookups(enabler, opcode, i)
    &&& l.range_check_16@ == seq![i.op0_lo, i.op0_hi, i.op1_lo, i.op1_hi]
    &&& l.range_check_20@ == spec_range_check_20(enabler, i)
}

/// One limb access, padded to six values.
fn limb_access_row(address: M31, clock: M31, value: M31) -> (r: [M31; 6])
    ensures
        r@ == limb_access(address, clock, value),
{
    let z = M31(0);
    let r = [address, clock, value, z, z, z];
    assert(r@ =~= limb_access(address, clock, value));
    r
}

/// Writes the lookups of the row for `input` with the given enabler.
#[verifier::rlimit(30)]
pub fn row_lookups(enabler: M31, opcode: M31, input: &RowInput) -> (l: RowLookups)
    ensures
        is_row_lookups(l, enabler, opcode, *input),
{
    let row = trace_row(enabler, input);
    let res = result(&row);
    let one = M31(1);
    let s0 = input.fp.add(input.src0_off);
    let s1 = input.fp.add(input.src1_off);
    let d = input.fp.add(input.dst_off);
    let (s0h, s1h) = (s0.add(one), s1.add(one));
    let l = RowLookups {
        registers: [[input.pc, input.fp], [input.pc.add(one), input.fp]],
        memory: [
            [input.pc, input.inst_prev_clock, opcode, input.src0_off, input.src1_off, input.dst_off],
            [input.pc, input.clock, opcode, input.src0_off, input.src1_off, input.dst_off],
            limb_access_row(s0, input.op0_prev_clock_lo, input.op0_lo),
            limb_access_row(s0, input.clock, input.op0_lo),
            limb_access_row(s0h, input.op0_prev_clock_hi, input.op0_hi),
            limb_access_row(s0h, input.clock, input.op0_hi),
            limb_access_row(s1, input.op1_prev_clock_lo, input.op1_lo),
            limb_access_row(s1, input.clock, input.op1_lo),
            limb_access_row(s1h, input.op1_prev_clock_hi, input.op1_hi),
            limb_access_row(s1h, input.clock, input.op1_hi),
            limb_access_row(d, input.dst_prev_clock, input.dst_prev_val),
            limb_access_row(d, input.clock, res),
        ],
        range_check_16: [input.op0_lo, input.op0_hi, input.op1_lo, input.op1_hi],
        range_check_20: [
            input.clock.sub(input.inst_prev_clock).sub(enabler),
            input.clock.sub(input.op0_prev_clock_lo).sub(enabler),
            input.clock.sub(input.op0_prev_clock_hi).sub(enabler),
            input.clock.sub(input.op1_prev_clock_lo).sub(enabler),
            input.clock.sub(input.op1_prev_clock_hi).sub(enabler),
            input.clock.sub(input.dst_prev_clock).sub(enabler),
        ],
    };
    assert(l.registers@.map_values(|e: [M31; 2]| e@) =~= seq![
        seq![input.pc, input.fp],
        seq![fadd(input.pc, M31(1)), input.fp],
    ]);
    assert(l.memory@.map_values(|e: [M31; 6]| e@) =~= spec_memory_lookups(enabler, opcode, *input));
    assert(l.range_check_16@ =~= seq![input.op0_lo, input.op0_hi, input.op1_lo, input.op1_hi]);
    assert(l.range_check_20@ =~= spec_range_check_20(enabler, *input));
    l
}

/// The enabler and the input of row `i` of the trace written for `inputs`:
/// an enabled row per input, then disabled rows of zeros.
pub open spec fn padded_row(inputs: Seq<RowInput>, i: int) -> (M31, RowInput) {
    if i < inputs.len() {
        (M31(1), inputs[i])
    } else {
        (M31(0), zero_input())
    }
}

/// The trace written for `inputs` at `log_size`: an enabled row per input,
/// then disabled rows of zeros up to `2^log_size` rows.
pub open spec fn spec_trace(inputs: Seq<RowInput>, log_size: u32) -> Seq<Seq<M31>> {
    Seq::new(
        rows_of(log_size as nat),
        |i: int| spec_trace_row(padded_row(inputs, i).0, padded_row(inputs, i).1),
    )
}

/// What the interaction trace is built from: the lookups of every row and
/// the number of rows that hold an input.
#[derive(Clone, Debug)]
pub struct InteractionClaimData {
    /// The lookups of each row of the trace.
    pub lookup_data: Vec<RowLookups>,
    /// The number of enabled rows.
    pub non_padded_length: usize,
}

impl Claim {
    /// Writes the trace of the component for `inputs`, padded to a power of
    /// two of at least `2^LOG_N_LANES` rows, its claim and the lookups of
    /// every row, the instruction word holding `opcode`. The inputs are
    /// consumed: `inputs` is left empty.
    pub fn write_trace(inputs: &mut Vec<RowInput>, opcode: M31) -> (r: (Claim, Vec<[M31; 20]>, InteractionClaimData))
        requires
            old(inputs)@.len() <= 0x8000_0000,
        ensures
            is_trace_log_size(old(inputs)@.len(), r.0.log_size),
            r.1@.len() == rows_of(r.0.log_size as nat),
            forall|i: int| 0 <= i < r.1@.len() ==> (#[trigger] r.1@[i])@ == spec_trace(old(inputs)@, r.0.log_size)[i],
            r.2.non_padded_length == old(inputs)@.len(),
            r.2.lookup_data@.len() == rows_of(r.0.log_size as nat),
            forall|i: int|
                0 <= i < r.2.lookup_data@.len() ==> is_row_lookups(
                    #[trigger] r.2.lookup_data@[i],
                    padded_row(old(inputs)@, i).0,
                    opcode,
                    padded_row(old(inputs)@, i).1,
                ),
            final(inputs)@.len() == 0,
    {
        let non_padded_length = inputs.len();
        let (log_size, n_rows) = trace_log_size(non_padded_length);
        let z = M31(0);
        let padding = RowInput {
            pc: z,
            fp: z,
            clock: z,
            inst_prev_clock: z,
            src0_off: z,
            src1_off: z,
            dst_off: z,
            op0_lo: z,
            op0_hi: z,
            op0_prev_clock_lo: z,
            op0_prev_clock_hi: z,
            op1_lo: z,
            op1_hi: z,
            op1_prev_clock_lo: z,
            op1_prev_clock_hi: z,
            dst_prev_val: z,
            dst_prev_clock: z,
        };
        let mut rows: Vec<[M31; 20]> = Vec::new();
        let mut lookup_data: Vec<RowLookups> = Vec::new();
        let mut i: usize = 0;
        while i < n_rows
            invariant
                i <= n_rows,
                n_rows == rows_of(log_size as nat),
                padding == zero_input(),
                inputs@ == old(inputs)@,
                non_padded_length == inputs@.len(),
                rows@.len() == i,
                lookup_data@.len() == i,
                forall|j: int| 0 <= j < i ==> (#[trigger] rows@[j])@ == spec_trace(inputs@, log_size)[j],
                forall|j: int|
                    0 <= j < i ==> is_row_lookups(
                        #[trigger] lookup_data@[j],
                        padded_row(inputs@, j).0,
                        opcode,
                        padded_row(inputs@, j).1,
                    ),
            decreases n_rows - i,
        {
            let (enabler, input) = if i < non_padded_length {
                (M31(1), &inputs[i])
            } else {
                (M31(0), &padding)
            };
            rows.push(trace_row(enabler, input));
            lookup_data.push(row_lookups(enabler, opcode, input));
            i = i + 1;
        }
        inputs.clear();
        (Claim { log_size }, rows, InteractionClaimData { lookup_data, non_padded_length })
    }
}

/// Every row of a written trace satisfies every polynomial constraint of the
/// component, when each input's half differences are zero or invertible.
pub proof fn lemma_trace_satisfies_constraints(inputs: Seq<RowInput>, log_size: u32)
    requires
        forall|i: int| 0 <= i < inputs.len() ==> row_input_ok(#[trigger] inputs[i]),
    ensures
        forall|i: int|
            0 <= i < rows_of(log_size as nat) ==> spec_constraints(#[trigger] spec_trace(inputs, log_size)[i])
                == Seq::new(5, |_k: int| M31(0)),
{
    assert forall|i: int| 0 <= i < rows_of(log_size as nat) implies spec_constraints(
        #[trigger] spec_trace(inputs, log_size)[i],
    ) == Seq::new(5, |_k: int| M31(0)) by {
        if i < inputs.len() {
            lemma_row_satisfies_constraints(M31(1), inputs[i]);
        } else {
            let z = zero_input();
            assert(fmod(0) == 0);
            lemma_row_satisfies_constraints(M31(0), z);
        }
    }
}

} // verus!
