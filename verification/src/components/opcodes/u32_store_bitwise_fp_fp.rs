//! Component proving the U32StoreBitwiseFpFp opcodes:
//! `u32([fp + dst_off], [fp + dst_off + 1]) = u32([fp + src0_off], [fp + src0_off + 1]) op u32([fp + src1_off], [fp + src1_off + 1])`
//! for `op` one of AND, OR, XOR.
//!
//! Both operands are split into 8-bit limbs and each limb of the result is
//! looked up as `[bitwise_op, op0_k, op1_k, res_k]` in the bitwise relation,
//! with `bitwise_op = opcode - U32_STORE_AND_FP_FP` (0, 1, 2 for AND, OR,
//! XOR).
use crate::components::opcodes::u32_store_mul_fp_imm::{all_bytes, bytes_value};
use crate::components::{
    component_log_sizes, is_component_log_sizes, is_trace_log_size, rows_of, trace_log_size,
    SECURE_EXTENSION_DEGREE,
};
use crate::field::{fadd, fmod, fmul, fsub, M31, P};
use vstd::prelude::*;

verus! {

/// Number of trace columns.
pub const N_TRACE_COLUMNS: usize = 29;
/// Number of lookups into the memory relation per row.
pub const N_MEMORY_LOOKUPS: usize = 14;
/// Number of lookups into the registers relation per row.
pub const N_REGISTERS_LOOKUPS: usize = 2;
/// Number of 20-bit range checks per row.
pub const N_RANGE_CHECK_20_LOOKUPS: usize = 7;
/// Number of lookups into the bitwise relation per row.
pub const N_BITWISE_LOOKUPS: usize = 4;
/// Number of interaction columns: four per pair of lookups.
pub const N_LOOKUPS_COLUMNS: usize = SECURE_EXTENSION_DEGREE * ((N_MEMORY_LOOKUPS + N_REGISTERS_LOOKUPS
    + N_RANGE_CHECK_20_LOOKUPS + N_BITWISE_LOOKUPS + 1) / 2);

/// Opcode number of the `u32` AND.
pub const U32_STORE_AND_FP_FP: u32 = 36;
/// Opcode number of the `u32` OR.
pub const U32_STORE_OR_FP_FP: u32 = 37;
/// Opcode number of the `u32` XOR.
pub const U32_STORE_XOR_FP_FP: u32 = 38;

/// The claim of the component: the log size of its trace.
#[derive(Clone, Copy, Debug, Default, PartialEq, Eq, Structural)]
pub struct Claim {
    /// Log2 of the number of rows.
    pub log_size: u32,
}

impl Claim {
    /// The log sizes of the component's columns, tree by tree.
    pub fn log_sizes(&self) -> (r: Vec<Vec<u32>>)
        ensures
            is_component_log_sizes(r@, self.log_size, N_TRACE_COLUMNS as nat, N_LOOKUPS_COLUMNS as nat),
    {
        component_log_sizes(self.log_size, N_TRACE_COLUMNS, N_LOOKUPS_COLUMNS)
    }
}

/// The constraint evaluator of the component.
#[derive(Clone, Copy, Debug, PartialEq, Eq, Structural)]
pub struct Eval {
    /// The claim the evaluator checks.
    pub claim: Claim,
}

impl Eval {
    /// Log2 of the number of rows of the evaluated trace.
    pub fn log_size(&self) -> (r: u32)
        ensures
            r == self.claim.log_size,
    {
        self.claim.log_size
    }

    /// Bound on the log degree of the constraints: one more than the log size.
    pub fn max_constraint_log_degree_bound(&self) -> (r: u32)
        requires
            self.claim.log_size < u32::MAX,
        ensures
            r == self.claim.log_size + 1,
    {
        self.claim.log_size + 1
    }
}

/// The result of a bitwise opcode on two limbs: AND, OR or XOR by opcode
/// number, reduced into the field, and zero for any other opcode.
pub open spec fn spec_bitwise(opcode: M31, a: M31, b: M31) -> M31 {
    if opcode.0 == U32_STORE_AND_FP_FP {
        M31((a.0 & b.0) % P)
    } else if opcode.0 == U32_STORE_OR_FP_FP {
        M31((a.0 | b.0) % P)
    } else if opcode.0 == U32_STORE_XOR_FP_FP {
        M31((a.0 ^ b.0) % P)
    } else {
        M31(0)
    }
}

/// Computes the result limb of a bitwise opcode.
pub fn compute_bitwise_result(opcode: M31, a: M31, b: M31) -> (r: M31)
    ensures
        r == spec_bitwise(opcode, a, b),
{
    let and_result = M31::from_u32(a.0 & b.0);
    let or_result = M31::from_u32(a.0 | b.0);
    let xor_result = M31::from_u32(a.0 ^ b.0);
    if opcode.0 == U32_STORE_AND_FP_FP {
        and_result
    } else if opcode.0 == U32_STORE_OR_FP_FP {
        or_result
    } else if opcode.0 == U32_STORE_XOR_FP_FP {
        xor_result
    } else {
        M31::zero()
    }
}

/// The low byte of a value.
pub open spec fn byte0(x: M31) -> M31 {
    M31((x.0 % 256) as u32)
}

/// The second byte of a value.
pub open spec fn byte1(x: M31) -> M31 {
    M31(((x.0 / 256) % 256) as u32)
}

/// The limbs of one bitwise row.
#[derive(Clone, Copy, Debug, PartialEq, Eq)]
pub struct BitwiseLimbs {
    /// The bitwise operation index looked up: the opcode minus the AND opcode.
    pub bitwise_op: M31,
    /// The first operand, low byte first.
    pub op0: [M31; 4],
    /// The second operand, low byte first.
    pub op1: [M31; 4],
    /// The result, low byte first.
    pub res: [M31; 4],
}

/// The row for `u32(op0_lo, op0_hi) op u32(op1_lo, op1_hi)`.
pub open spec fn spec_bitwise_limbs(opcode: M31, op0_lo: M31, op0_hi: M31, op1_lo: M31, op1_hi: M31) -> BitwiseLimbs {
    let a = [byte0(op0_lo), byte1(op0_lo), byte0(op0_hi), byte1(op0_hi)];
    let b = [byte0(op1_lo), byte1(op1_lo), byte0(op1_hi), byte1(op1_hi)];
    BitwiseLimbs {
        bitwise_op: fsub(opcode, M31(U32_STORE_AND_FP_FP)),
        op0: a,
        op1: b,
        res: [
            spec_bitwise(opcode, a[0], b[0]),
            spec_bitwise(opcode, a[1], b[1]),
            spec_bitwise(opcode, a[2], b[2]),
            spec_bitwise(opcode, a[3], b[3]),
        ],
    }
}

/// The low byte and the second byte of a value.
fn decompose_8(val: M31) -> (r: (M31, M31))
    ensures
        r == (byte0(val), byte1(val)),
{
    let x = val.0;
    assert(x & 0xff == x % 256 && (x >> 8) & 0xff == (x / 256) % 256) by (bit_vector);
    (M31::from_u32(x & 0xff), M31::from_u32((x >> 8) & 0xff))
}

/// Computes the limbs of one bitwise row.
pub fn bitwise_limbs(opcode: M31, op0_lo: M31, op0_hi: M31, op1_lo: M31, op1_hi: M31) -> (r: BitwiseLimbs)
    ensures
        r == spec_bitwise_limbs(opcode, op0_lo, op0_hi, op1_lo, op1_hi),
{
    let (op0_val_0, op0_val_1) = decompose_8(op0_lo);
    let (op0_val_2, op0_val_3) = decompose_8(op0_hi);
    let (op1_val_0, op1_val_1) = decompose_8(op1_lo);
    let (op1_val_2, op1_val_3) = decompose_8(op1_hi);
    let bitwise_op = opcode.sub(M31::from_u32(U32_STORE_AND_FP_FP));
    let res_0 = compute_bitwise_result(opcode, op0_val_0, op1_val_0);
    let res_1 = compute_bitwise_result(opcode, op0_val_1, op1_val_1);
    let res_2 = compute_bitwise_result(opcode, op0_val_2, op1_val_2);
    let res_3 = compute_bitwise_result(opcode, op0_val_3, op1_val_3);
    let r = BitwiseLimbs {
        bitwise_op,
        op0: [op0_val_0, op0_val_1, op0_val_2, op0_val_3],
        op1: [op1_val_0, op1_val_1, op1_val_2, op1_val_3],
        res: [res_0, res_1, res_2, res_3],
    };
    let ghost w = spec_bitwise_limbs(opcode, op0_lo, op0_hi, op1_lo, op1_hi);
    assert(r.op0 =~= w.op0);
    assert(r.op1 =~= w.op1);
    assert(r.res =~= w.res);
    r
}

/// The `u32` a pair of 16-bit halves stands for.
pub open spec fn join(lo: M31, hi: M31) -> u32 {
    (lo.0 + 65536 * hi.0) as u32
}

/// The `u32` result of a bitwise opcode.
pub open spec fn spec_u32_bitwise(opcode: u32, x: u32, y: u32) -> u32 {
    if opcode == U32_STORE_AND_FP_FP {
        x & y
    } else if opcode == U32_STORE_OR_FP_FP {
        x | y
    } else {
        x ^ y
    }
}

/// The bytes of `x op y` are the bytes of `x` and `y` combined by `op`.
proof fn lemma_bytes_of_bitwise(x: u32, y: u32)
    ensures
        (x & y) == ((x & 0xff) & (y & 0xff)) + 256 * (((x >> 8) & 0xff) & ((y >> 8) & 0xff)) + 65536 * (((x
            >> 16) & 0xff) & ((y >> 16) & 0xff)) + 16777216 * (((x >> 24) & 0xff) & ((y >> 24) & 0xff)),
        (x | y) == ((x & 0xff) | (y & 0xff)) + 256 * (((x >> 8) & 0xff) | ((y >> 8) & 0xff)) + 65536 * (((x
            >> 16) & 0xff) | ((y >> 16) & 0xff)) + 16777216 * (((x >> 24) & 0xff) | ((y >> 24) & 0xff)),
        (x ^ y) == ((x & 0xff) ^ (y & 0xff)) + 256 * (((x >> 8) & 0xff) ^ ((y >> 8) & 0xff)) + 65536 * (((x
            >> 16) & 0xff) ^ ((y >> 16) & 0xff)) + 16777216 * (((x >> 24) & 0xff) ^ ((y >> 24) & 0xff)),
{
    assert((x & y) == ((x & 0xff) & (y & 0xff)) + 256 * (((x >> 8) & 0xff) & ((y >> 8) & 0xff)) + 65536 * (((x
        >> 16) & 0xff) & ((y >> 16) & 0xff)) + 16777216 * (((x >> 24) & 0xff) & ((y >> 24) & 0xff)))
        by (bit_vector);
    assert((x | y) == ((x & 0xff) | (y & 0xff)) + 256 * (((x >> 8) & 0xff) | ((y >> 8) & 0xff)) + 65536 * (((x
        >> 16) & 0xff) | ((y >> 16) & 0xff)) + 16777216 * (((x >> 24) & 0xff) | ((y >> 24) & 0xff)))
        by (bit_vector);
    assert((x ^ y) == ((x & 0xff) ^ (y & 0xff)) + 256 * (((x >> 8) & 0xff) ^ ((y >> 8) & 0xff)) + 65536 * (((x
        >> 16) & 0xff) ^ ((y >> 16) & 0xff)) + 16777216 * (((x >> 24) & 0xff) ^ ((y >> 24) & 0xff)))
        by (bit_vector);
}

/// The bytes of a `u32` joined from two 16-bit halves are the bytes of the halves.
proof fn lemma_join_bytes(lo: u32, hi: u32)
    requires
        lo < 65536,
        hi < 65536,
    ensures
        ((lo + 65536 * hi) as u32) & 0xff == lo % 256,
        (((lo + 65536 * hi) as u32) >> 8) & 0xff == (lo / 256) % 256,
        (((lo + 65536 * hi) as u32) >> 16) & 0xff == hi % 256,
        (((lo + 65536 * hi) as u32) >> 24) & 0xff == (hi / 256) % 256,
{
    let x = (lo + 65536 * hi) as u32;
    assert(x == lo | (hi << 16u32)) by (bit_vector)
        requires
            lo < 65536,
            hi < 65536,
            x == (lo + 65536 * hi) as u32,
    ;
    assert(x & 0xff == lo % 256 && (x >> 8) & 0xff == (lo / 256) % 256 && (x >> 16) & 0xff == hi % 256 && (x
        >> 24) & 0xff == (hi / 256) % 256) by (bit_vector)
        requires
            lo < 65536,
            hi < 65536,
            x == lo | (hi << 16u32),
    ;
}

/// On 16-bit halves and a bitwise opcode, the row holds the bytes of both
/// operands and of `op0 op op1`, and looks them up with the operation index
/// `0`, `1` or `2`.
pub proof fn lemma_bitwise_limbs_correct(opcode: M31, op0_lo: M31, op0_hi: M31, op1_lo: M31, op1_hi: M31)
    requires
        U32_STORE_AND_FP_FP <= opcode.0 <= U32_STORE_XOR_FP_FP,
        op0_lo.0 < 65536,
        op0_hi.0 < 65536,
        op1_lo.0 < 65536,
        op1_hi.0 < 65536,
    ensures
        spec_bitwise_limbs(opcode, op0_lo, op0_hi, op1_lo, op1_hi).bitwise_op.0 == opcode.0 - U32_STORE_AND_FP_FP,
        all_bytes(spec_bitwise_limbs(opcode, op0_lo, op0_hi, op1_lo, op1_hi).op0),
        all_bytes(spec_bitwise_limbs(opcode, op0_lo, op0_hi, op1_lo, op1_hi).op1),
        all_bytes(spec_bitwise_limbs(opcode, op0_lo, op0_hi, op1_lo, op1_hi).res),
        bytes_value(spec_bitwise_limbs(opcode, op0_lo, op0_hi, op1_lo, op1_hi).op0) == join(op0_lo, op0_hi),
        bytes_value(spec_bitwise_limbs(opcode, op0_lo, op0_hi, op1_lo, op1_hi).op1) == join(op1_lo, op1_hi),
        bytes_value(spec_bitwise_limbs(opcode, op0_lo, op0_hi, op1_lo, op1_hi).res) == spec_u32_bitwise(
            opcode.0,
            join(op0_lo, op0_hi),
            join(op1_lo, op1_hi),
        ),
{
    let w = spec_bitwise_limbs(opcode, op0_lo, op0_hi, op1_lo, op1_hi);
    let x = join(op0_lo, op0_hi);
    let y = join(op1_lo, op1_hi);
    lemma_join_bytes(op0_lo.0, op0_hi.0);
    lemma_join_bytes(op1_lo.0, op1_hi.0);
    lemma_bytes_of_bitwise(x, y);
    let (a0, a1, a2, a3) = (x & 0xff, (x >> 8) & 0xff, (x >> 16) & 0xff, (x >> 24) & 0xff);
    let (b0, b1, b2, b3) = (y & 0xff, (y >> 8) & 0xff, (y >> 16) & 0xff, (y >> 24) & 0xff);
    assert(w.op0[0].0 == a0 && w.op0[1].0 == a1 && w.op0[2].0 == a2 && w.op0[3].0 == a3);
    assert(w.op1[0].0 == b0 && w.op1[1].0 == b1 && w.op1[2].0 == b2 && w.op1[3].0 == b3);
    lemma_byte_ops(a0, b0);
    lemma_byte_ops(a1, b1);
    lemma_byte_ops(a2, b2);
    lemma_byte_ops(a3, b3);
    vstd::arithmetic::div_mod::lemma_small_mod((opcode.0 - U32_STORE_AND_FP_FP) as nat, P as nat);
}

/// Bitwise operations on bytes give bytes, which the field keeps as they are.
proof fn lemma_byte_ops(u: u32, v: u32)
    requires
        u < 256,
        v < 256,
    ensures
        (u & v) % P == u & v,
        (u | v) % P == u | v,
        (u ^ v) % P == u ^ v,
        (u & v) < 256,
        (u | v) < 256,
        (u ^ v) < 256,
{
    assert((u & v) < 256 && (u | v) < 256 && (u ^ v) < 256) by (bit_vector)
        requires
            u < 256,
            v < 256,
    ;
    vstd::arithmetic::div_mod::lemma_small_mod((u & v) as nat, P as nat);
    vstd::arithmetic::div_mod::lemma_small_mod((u | v) as nat, P as nat);
    vstd::arithmetic::div_mod::lemma_small_mod((u ^ v) as nat, P as nat);
}


// ---------------------------------------------------------------------------
// The trace, its constraint and its lookups.

/// The opcode word padding rows carry; the row writes the AND opcode in its
/// place, so that a padding row looks up a valid operation.
pub const PADDING_OPCODE: u32 = 11;

/// The values a row of the trace is written from.
#[derive(Clone, Copy, Debug, PartialEq, Eq)]
pub struct RowInput {
    /// Program counter.
    pub pc: M31,
    /// Frame pointer.
    pub fp: M31,
    /// Clock of the step.
    pub clock: M31,
    /// Clock of the previous access to the instruction.
    pub inst_prev_clock: M31,
    /// The instruction's opcode word.
    pub opcode: M31,
    /// Offset of the first operand from `fp`.
    pub src0_off: M31,
    /// Offset of the second operand from `fp`.
    pub src1_off: M31,
    /// Offset of the destination from `fp`.
    pub dst_off: M31,
    /// Low half of the first operand.
    pub op0_lo: M31,
    /// High half of the first operand.
    pub op0_hi: M31,
    /// Clock of the previous access to the first operand's low half.
    pub op0_prev_clock_lo: M31,
    /// Clock of the previous access to the first operand's high half.
    pub op0_prev_clock_hi: M31,
    /// Low half of the second operand.
    pub op1_lo: M31,
    /// High half of the second operand.
    pub op1_hi: M31,
    /// Clock of the previous access to the second operand's low half.
    pub op1_prev_clock_lo: M31,
    /// Clock of the previous access to the second operand's high half.
    pub op1_prev_clock_hi: M31,
    /// Previous value of the destination's low half.
    pub dst_prev_val_lo: M31,
    /// Previous value of the destination's high half.
    pub dst_prev_val_hi: M31,
    /// Clock of the previous access to the destination's low half.
    pub dst_prev_clock_lo: M31,
    /// Clock of the previous access to the destination's high half.
    pub dst_prev_clock_hi: M31,
}

/// The input of a padding row: zeros, and the padding opcode.
pub open spec fn padding_input() -> RowInput {
    RowInput {
        pc: M31(0),
        fp: M31(0),
        clock: M31(0),
        inst_prev_clock: M31(0),
        opcode: M31(PADDING_OPCODE),
        src0_off: M31(0),
        src1_off: M31(0),
        dst_off: M31(0),
        op0_lo: M31(0),
        op0_hi: M31(0),
        op0_prev_clock_lo: M31(0),
        op0_prev_clock_hi: M31(0),
        op1_lo: M31(0),
        op1_hi: M31(0),
        op1_prev_clock_lo: M31(0),
        op1_prev_clock_hi: M31(0),
        dst_prev_val_lo: M31(0),
        dst_prev_val_hi: M31(0),
        dst_prev_clock_lo: M31(0),
        dst_prev_clock_hi: M31(0),
    }
}

/// The opcode a row holds: the input's, the padding opcode replaced by AND.
pub open spec fn row_opcode(opcode: M31) -> M31 {
    if opcode == M31(PADDING_OPCODE) {
        M31(U32_STORE_AND_FP_FP)
    } else {
        opcode
    }
}

/// The limbs of the row written for `i`.
pub open spec fn input_limbs(i: RowInput) -> BitwiseLimbs {
    spec_bitwise_limbs(row_opcode(i.opcode), i.op0_lo, i.op0_hi, i.op1_lo, i.op1_hi)
}

/// The trace row written for `i` with the given enabler, column by column.
pub open spec fn spec_trace_row(enabler: M31, i: RowInput) -> Seq<M31> {
    let w = input_limbs(i);
    seq![
        enabler, i.pc, i.fp, i.clock, i.inst_prev_clock, row_opcode(i.opcode), i.src0_off, i.src1_off,
        i.dst_off, w.op0[0], w.op0[1], w.op0[2], w.op0[3], i.op0_prev_clock_lo, i.op0_prev_clock_hi,
        w.op1[0], w.op1[1], w.op1[2], w.op1[3], i.op1_prev_clock_lo, i.op1_prev_clock_hi,
        i.dst_prev_val_lo, i.dst_prev_val_hi, w.res[0], w.res[1], w.res[2], w.res[3],
        i.dst_prev_clock_lo, i.dst_prev_clock_hi
    ]
}

/// The opcode a row holds for an opcode word.
fn row_opcode_exec(opcode: M31) -> (r: M31)
    ensures
        r == row_opcode(opcode),
{
    if opcode == M31(PADDING_OPCODE) {
        M31(U32_STORE_AND_FP_FP)
    } else {
        opcode
    }
}

/// Writes the trace row for `input` with the given enabler.
pub fn trace_row(enabler: M31, input: &RowInput) -> (r: [M31; 29])
    ensures
        r@ == spec_trace_row(enabler, *input),
{
    let opcode = row_opcode_exec(input.opcode);
    let w = bitwise_limbs(opcode, input.op0_lo, input.op0_hi, input.op1_lo, input.op1_hi);
    let r = [
        enabler, input.pc, input.fp, input.clock, input.inst_prev_clock, opcode, input.src0_off,
        input.src1_off, input.dst_off, w.op0[0], w.op0[1], w.op0[2], w.op0[3], input.op0_prev_clock_lo,
        input.op0_prev_clock_hi, w.op1[0], w.op1[1], w.op1[2], w.op1[3], input.op1_prev_clock_lo,
        input.op1_prev_clock_hi, input.dst_prev_val_lo, input.dst_prev_val_hi, w.res[0], w.res[1],
        w.res[2], w.res[3], input.dst_prev_clock_lo, input.dst_prev_clock_hi,
    ];
    assert(r@ =~= spec_trace_row(enabler, *input));
    r
}

/// The polynomial constraint of a row: the enabler is a boolean.
pub open spec fn spec_constraints(row: Seq<M31>) -> Seq<M31> {
    seq![fmul(row[0], fsub(M31(1), row[0]))]
}

impl Eval {
    /// Evaluates the polynomial constraint of the component on one row of
    /// its trace.
    pub fn evaluate(&self, row: &[M31; 29]) -> (r: Vec<M31>)
        ensures
            r@ == spec_constraints(row@),
    {
        let e = row[0];
        let c = vec![e.mul(M31::one().sub(e))];
        assert(c@ =~= spec_constraints(row@));
        c
    }
}

/// The constraint vanishes on every row written with enabler 0 or 1.
pub proof fn lemma_row_satisfies_constraints(enabler: M31, input: RowInput)
    requires
        enabler == M31(0) || enabler == M31(1),
    ensures
        spec_constraints(spec_trace_row(enabler, input)) == seq![M31(0)],
{
    assert(fmod(0) == 0);
    assert(fmul(M31(1), fsub(M31(1), M31(1))) == M31(0));
    assert(fmul(M31(0), fsub(M31(1), M31(0))) == M31(0)) by {
        assert(0 * fsub(M31(1), M31(0)).0 == 0);
    }
    assert(spec_constraints(spec_trace_row(enabler, input)) =~= seq![M31(0)]);
}

/// What one row adds to the relations: the register update, the fourteen
/// memory accesses, the four byte operations and the clock gaps
/// range-checked on 20 bits.
#[derive(Clone, Copy, Debug, PartialEq, Eq)]
pub struct RowLookups {
    /// `[pc, fp]` before and after the step.
    pub registers: [[M31; 2]; 2],
    /// The instruction, the halves of both operands read, then the halves of
    /// the destination written; each access as its previous state then its
    /// new state.
    pub memory: [[M31; 6]; 14],
    /// `[bitwise_op, op0_k, op1_k, res_k]` for each byte `k`.
    pub bitwise: [[M31; 4]; 4],
    /// The clock gap of each access.
    pub range_check_20: [M31; 7],
}

/// An access `[address, clock, value]` of one limb, padded to six values.
pub open spec fn limb_access(address: M31, clock: M31, value: M31) -> Seq<M31> {
    seq![address, clock, value, M31(0), M31(0), M31(0)]
}

/// The 16-bit value of two bytes: `b0 + b1 * 2^8`.
pub open spec fn half_of(b0: M31, b1: M31) -> M31 {
    fadd(b0, fmul(b1, M31(256)))
}

/// The memory lookups of a row: the instruction word, the halves of both
/// operands read, then the destination's halves written with the halves of
/// the result; each access first with its previous clock and value, then
/// with the row's clock and new value.
pub open spec fn spec_memory_lookups(i: RowInput) -> Seq<Seq<M31>> {
    let w = input_limbs(i);
    let op = row_opcode(i.opcode);
    let s0 = fadd(i.fp, i.src0_off);
    let s1 = fadd(i.fp, i.src1_off);
    let d = fadd(i.fp, i.dst_off);
    seq![
        seq![i.pc, i.inst_prev_clock, op, i.src0_off, i.src1_off, i.dst_off],
        seq![i.pc, i.clock, op, i.src0_off, i.src1_off, i.dst_off],
        limb_access(s0, i.op0_prev_clock_lo, i.op0_lo),
        limb_access(s0, i.clock, i.op0_lo),
        limb_access(fadd(s0, M31(1)), i.op0_prev_clock_hi, i.op0_hi),
        limb_access(fadd(s0, M31(1)), i.clock, i.op0_hi),
        limb_access(s1, i.op1_prev_clock_lo, i.op1_lo),
        limb_access(s1, i.clock, i.op1_lo),
        limb_access(fadd(s1, M31(1)), i.op1_prev_clock_hi, i.op1_hi),
        limb_access(fadd(s1, M31(1)), i.clock, i.op1_hi),
        limb_access(d, i.dst_prev_clock_lo, i.dst_prev_val_lo),
        limb_access(d, i.clock, half_of(w.res[0], w.res[1])),
        limb_access(fadd(d, M31(1)), i.dst_prev_clock_hi, i.dst_prev_val_hi),
        limb_access(fadd(d, M31(1)), i.clock, half_of(w.res[2], w.res[3]))
    ]
}

/// The bitwise lookups of a row: each byte of both operands with the byte
/// of the result, under the operation index.
pub open spec fn spec_bitwise_lookups(i: RowInput) -> Seq<Seq<M31>> {
    let w = input_limbs(i);
    Seq::new(4, |k: int| seq![w.bitwise_op, w.op0[k], w.op1[k], w.res[k]])
}

/// The 20-bit range checks of a row: the gap between the row's clock and the
/// previous clock of each access, less the enabler.
pub open spec fn spec_range_check_20(enabler: M31, i: RowInput) -> Seq<M31> {
    seq![
        fsub(fsub(i.clock, i.inst_prev_clock), enabler),
        fsub(fsub(i.clock, i.op0_prev_clock_lo), enabler),
        fsub(fsub(i.clock, i.op0_prev_clock_hi), enabler),
        fsub(fsub(i.clock, i.op1_prev_clock_lo), enabler),
        fsub(fsub(i.clock, i.op1_prev_clock_hi), enabler),
        fsub(fsub(i.clock, i.dst_prev_clock_lo), enabler),
        fsub(fsub(i.clock, i.dst_prev_clock_hi), enabler)
    ]
}

/// `l` holds the lookups of the row written for `i` with the given enabler.
pub open spec fn is_row_lookups(l: RowLookups, enabler: M31, i: RowInput) -> bool {
    &&& l.registers@.map_values(|e: [M31; 2]| e@) == seq![seq![i.pc, i.fp], seq![fadd(i.pc, M31(1)), i.fp]]
    &&& l.memory@.map_values(|e: [M31; 6]| e@) == spec_memory_lookups(i)
    &&& l.bitwise@.map_values(|e: [M31; 4]| e@) == spec_bitwise_lookups(i)
    &&& l.range_check_20@ == spec_range_check_20(enabler, i)
}

/// One limb access, padded to six values.
fn limb_access_row(address: M31, clock: M31, value: M31) -> (r: [M31; 6])
    ensures
        r@ == limb_access(address, clock, value),
{
    let z = M31(0);
    let r = [address, clock, value, z, z, z];
    assert(r@ =~= limb_access(address, clock, value));
    r
}

/// Writes the lookups of the row for `input` with the given enabler.
#[verifier::rlimit(30)]
pub fn row_lookups(enabler: M31, input: &RowInput) -> (l: RowLookups)
    ensures
        is_row_lookups(l, enabler, *input),
{
    let opcode = row_opcode_exec(input.opcode);
    let w = bitwise_limbs(opcode, input.op0_lo, input.op0_hi, input.op1_lo, input.op1_hi);
    let one = M31(1);
    let b8 = M31(256);
    let s0 = input.fp.add(input.src0_off);
    let s1 = input.fp.add(input.src1_off);
    let d = input.fp.add(input.dst_off);
    let (s0h, s1h, dh) = (s0.add(one), s1.add(one), d.add(one));
    let res_lo = w.res[0].add(w.res[1].mul(b8));
    let res_hi = w.res[2].add(w.res[3].mul(b8));
    let l = RowLookups {
        registers: [[input.pc, input.fp], [input.pc.add(one), input.fp]],
        memory: [
            [input.pc, input.inst_prev_clock, opcode, input.src0_off, input.src1_off, input.dst_off],
            [input.pc, input.clock, opcode, input.src0_off, input.src1_off, input.dst_off],
            limb_access_row(s0, input.op0_prev_clock_lo, input.op0_lo),
            limb_access_row(s0, input.clock, input.op0_lo),
            limb_access_row(s0h, input.op0_prev_clock_hi, input.op0_hi),
            limb_access_row(s0h, input.clock, input.op0_hi),
            limb_access_row(s1, input.op1_prev_clock_lo, input.op1_lo),
            limb_access_row(s1, input.clock, input.op1_lo),
            limb_access_row(s1h, input.op1_prev_clock_hi, input.op1_hi),
            limb_access_row(s1h, input.clock, input.op1_hi),
            limb_access_row(d, input.dst_prev_clock_lo, input.dst_prev_val_lo),
            limb_access_row(d, input.clock, res_lo),
            limb_access_row(dh, input.dst_prev_clock_hi, input.dst_prev_val_hi),
            limb_access_row(dh, input.clock, res_hi),
        ],
        bitwise: [
            [w.bitwise_op, w.op0[0], w.op1[0], w.res[0]],
            [w.bitwise_op, w.op0[1], w.op1[1], w.res[1]],
            [w.bitwise_op, w.op0[2], w.op1[2], w.res[2]],
            [w.bitwise_op, w.op0[3], w.op1[3], w.res[3]],
        ],
        range_check_20: [
            input.clock.sub(input.inst_prev_clock).sub(enabler),
            input.clock.sub(input.op0_prev_clock_lo).sub(enabler),
            input.clock.sub(input.op0_prev_clock_hi).sub(enabler),
            input.clock.sub(input.op1_prev_clock_lo).sub(enabler),
            input.clock.sub(input.op1_prev_clock_hi).sub(enabler),
            input.clock.sub(input.dst_prev_clock_lo).sub(enabler),
            input.clock.sub(input.dst_prev_clock_hi).sub(enabler),
        ],
    };
    assert(l.registers@.map_values(|e: [M31; 2]| e@) =~= seq![
        seq![input.pc, input.fp],
        seq![fadd(input.pc, M31(1)), input.fp],
    ]);
    assert(l.memory@.map_values(|e: [M31; 6]| e@) =~= spec_memory_lookups(*input));
    assert(l.bitwise@.map_values(|e: [M31; 4]| e@) =~= spec_bitwise_lookups(*input));
    assert(l.range_check_20@ =~= spec_range_check_20(enabler, *input));
    l
}

/// On an AND, OR or XOR of 16-bit halves, the row writes the two 16-bit
/// halves of `op0 op op1` to the destination.
pub proof fn lemma_row_writes_result(i: RowInput)
    requires
        U32_STORE_AND_FP_FP <= i.opcode.0 <= U32_STORE_XOR_FP_FP,
        i.op0_lo.0 < 65536,
        i.op0_hi.0 < 65536,
        i.op1_lo.0 < 65536,
        i.op1_hi.0 < 65536,
    ensures
        spec_memory_lookups(i)[11][2].0 == spec_u32_bitwise(i.opcode.0, join(i.op0_lo, i.op0_hi), join(i.op1_lo, i.op1_hi)) % 65536,
        spec_memory_lookups(i)[13][2].0 == spec_u32_bitwise(i.opcode.0, join(i.op0_lo, i.op0_hi), join(i.op1_lo, i.op1_hi)) / 65536,
{
    assert(row_opcode(i.opcode) == i.opcode);
    lemma_bitwise_limbs_correct(i.opcode, i.op0_lo, i.op0_hi, i.op1_lo, i.op1_hi);
    let w = input_limbs(i);
    let r = spec_u32_bitwise(i.opcode.0, join(i.op0_lo, i.op0_hi), join(i.op1_lo, i.op1_hi)) as int;
    let (r0, r1, r2, r3) = (w.res[0].0 as int, w.res[1].0 as int, w.res[2].0 as int, w.res[3].0 as int);
    assert forall|x: int| 0 <= x < P implies #[trigger] fmod(x) == x by {
        vstd::arithmetic::div_mod::lemma_small_mod(x as nat, P as nat);
    }
    assert(fmul(w.res[1], M31(256)).0 == r1 * 256);
    assert(fmul(w.res[3], M31(256)).0 == r3 * 256);
    assert(half_of(w.res[0], w.res[1]).0 == r0 + 256 * r1);
    assert(half_of(w.res[2], w.res[3]).0 == r2 + 256 * r3);
    assert(r == (r0 + 256 * r1) + 65536 * (r2 + 256 * r3));
    vstd::arithmetic::div_mod::lemma_fundamental_div_mod_converse(r, 65536, r2 + 256 * r3, r0 + 256 * r1);
}

/// The enabler and the input of row `i` of the trace written for `inputs`:
/// an enabled row per input, then disabled padding rows.
pub open spec fn padded_row(inputs: Seq<RowInput>, i: int) -> (M31, RowInput) {
    if i < inputs.len() {
        (M31(1), inputs[i])
    } else {
        (M31(0), padding_input())
    }
}

/// What the interaction trace is built from: the lookups of every row and
/// the number of rows that hold an input.
#[derive(Clone, Debug)]
pub struct InteractionClaimData {
    /// The lookups of each row of the trace.
    pub lookup_data: Vec<RowLookups>,
    /// The number of enabled rows.
    pub non_padded_length: usize,
}

impl Claim {
    /// Writes the trace of the component for `inputs`, padded to a power of
    /// two of at least `2^LOG_N_LANES` rows, its claim and the lookups of
    /// every row. The inputs are consumed: `inputs` is left empty.
    pub fn write_trace(inputs: &mut Vec<RowInput>) -> (r: (Claim, Vec<[M31; 29]>, InteractionClaimData))
        requires
            old(inputs)@.len() <= 0x8000_0000,
        ensures
            is_trace_log_size(old(inputs)@.len(), r.0.log_size),
            r.1@.len() == rows_of(r.0.log_size as nat),
            forall|i: int|
                0 <= i < r.1@.len() ==> (#[trigger] r.1@[i])@ == spec_trace_row(
                    padded_row(old(inputs)@, i).0,
                    padded_row(old(inputs)@, i).1,
                ),
            r.2.non_padded_length == old(inputs)@.len(),
            r.2.lookup_data@.len() == rows_of(r.0.log_size as nat),
            forall|i: int|
                0 <= i < r.2.lookup_data@.len() ==> is_row_lookups(
                    #[trigger] r.2.lookup_data@[i],
                    padded_row(old(inputs)@, i).0,
                    padded_row(old(inputs)@, i).1,
                ),
            final(inputs)@.len() == 0,
    {
        let non_padded_length = inputs.len();
        let (log_size, n_rows) = trace_log_size(non_padded_length);
        let z = M31(0);
        let padding = RowInput {
            pc: z,
            fp: z,
            clock: z,
            inst_prev_clock: z,
            opcode: M31(PADDING_OPCODE),
            src0_off: z,
            src1_off: z,
            dst_off: z,
            op0_lo: z,
            op0_hi: z,
            op0_prev_clock_lo: z,
            op0_prev_clock_hi: z,
            op1_lo: z,
            op1_hi: z,
            op1_prev_clock_lo: z,
            op1_prev_clock_hi: z,
            dst_prev_val_lo: z,
            dst_prev_val_hi: z,
            dst_prev_clock_lo: z,
            dst_prev_clock_hi: z,
        };
        let mut rows: Vec<[M31; 29]> = Vec::new();
        let mut lookup_data: Vec<RowLookups> = Vec::new();
        let mut i: usize = 0;
        while i < n_rows
            invariant
                i <= n_rows,
                n_rows == rows_of(log_size as nat),
                padding == padding_input(),
                inputs@ == old(inputs)@,
                non_padded_length == inputs@.len(),
                rows@.len() == i,
                lookup_data@.len() == i,
                forall|j: int|
                    0 <= j < i ==> (#[trigger] rows@[j])@ == spec_trace_row(
                        padded_row(inputs@, j).0,
                        padded_row(inputs@, j).1,
                    ),
                forall|j: int|
                    0 <= j < i ==> is_row_lookups(
                        #[trigger] lookup_data@[j],
                        padded_row(inputs@, j).0,
                        padded_row(inputs@, j).1,
                    ),
            decreases n_rows - i,
        {
            let (enabler, input) = if i < non_padded_length {
                (M31(1), &inputs[i])
            } else {
                (M31(0), &padding)
            };
            rows.push(trace_row(enabler, input));
            lookup_data.push(row_lookups(enabler, input));
            i = i + 1;
        }
        inputs.clear();
        (Claim { log_size }, rows, InteractionClaimData { lookup_data, non_padded_length })
    }
}

} // verus!
