//! Component proving the U32StoreMulFpImm opcode:
//! `u32([fp + dst_off], [fp + dst_off + 1]) = u32([fp + src_off], [fp + src_off + 1]) * u32(imm_lo, imm_hi)`.
//!
//! Both factors are split into four 8-bit limbs and multiplied schoolbook
//! style modulo `2^32`; column `k` of the product is
//! `res_k = sum_{i + j = k} op0_i * imm_j + carry_{k-1} - carry_k * 2^8`.
//! The limbs are range checked on 8 bits and `MAX_CARRY_k - carry_k` on 16
//! bits, which bounds each carry.
use crate::components::{
    component_log_sizes, is_component_log_sizes, is_trace_log_size, rows_of, trace_log_size,
    SECURE_EXTENSION_DEGREE,
};
use crate::field::{fadd, fmod, fmul, fsub, M31, P};
use vstd::prelude::*;

verus! {

/// Number of trace columns.
pub const N_TRACE_COLUMNS: usize = 29;
/// Number of lookups into the memory relation per row.
pub const N_MEMORY_LOOKUPS: usize = 12;
/// Number of lookups into the registers relation per row.
pub const N_REGISTERS_LOOKUPS: usize = 2;
/// Number of 8-bit range checks per row.
pub const N_RANGE_CHECK_8_LOOKUPS: usize = 12;
/// Number of 16-bit range checks per row.
pub const N_RANGE_CHECK_16_LOOKUPS: usize = 4;
/// Number of 20-bit range checks per row.
pub const N_RANGE_CHECK_20_LOOKUPS: usize = 5;
/// Number of interaction columns: four per pair of lookups.
pub const N_LOOKUPS_COLUMNS: usize = SECURE_EXTENSION_DEGREE * ((N_MEMORY_LOOKUPS + N_REGISTERS_LOOKUPS
    + N_RANGE_CHECK_20_LOOKUPS + N_RANGE_CHECK_8_LOOKUPS + N_RANGE_CHECK_16_LOOKUPS + 1) / 2);

/// Largest carry out of column 0: `255 * 255 = 254 * 2^8 + 1`.
pub const MAX_CARRY_0: u32 = 254;
/// Largest carry out of column 1: `2 * 255 * 255 + 254 = 509 * 2^8`.
pub const MAX_CARRY_1: u32 = 509;
/// Largest carry out of column 2: `3 * 255 * 255 + 509 = 764 * 2^8`.
pub const MAX_CARRY_2: u32 = 764;
/// Largest carry out of column 3: `4 * 255 * 255 + 764 = 1019 * 2^8`.
pub const MAX_CARRY_3: u32 = 1019;

/// The claim of the component: the log size of its trace.
#[derive(Clone, Copy, Debug, Default, PartialEq, Eq, Structural)]
pub struct Claim {
    /// Log2 of the number of rows.
    pub log_size: u32,
}

impl Claim {
    /// The log sizes of the component's columns, tree by tree.
    pub fn log_sizes(&self) -> (r: Vec<Vec<u32>>)
        ensures
            is_component_log_sizes(r@, self.log_size, N_TRACE_COLUMNS as nat, N_LOOKUPS_COLUMNS as nat),
    {
        component_log_sizes(self.log_size, N_TRACE_COLUMNS, N_LOOKUPS_COLUMNS)
    }
}

/// The constraint evaluator of the component.
#[derive(Clone, Copy, Debug, PartialEq, Eq, Structural)]
pub struct Eval {
    /// The claim the evaluator checks.
    pub claim: Claim,
}

impl Eval {
    /// Log2 of the number of rows of the evaluated trace.
    pub fn log_size(&self) -> (r: u32)
        ensures
            r == self.claim.log_size,
    {
        self.claim.log_size
    }

    /// Bound on the log degree of the constraints: one more than the log size.
    pub fn max_constraint_log_degree_bound(&self) -> (r: u32)
        requires
            self.claim.log_size < u32::MAX,
        ensures
            r == self.claim.log_size + 1,
    {
        self.claim.log_size + 1
    }
}

/// The low byte of a value.
pub open spec fn low_byte(x: M31) -> M31 {
    M31((x.0 % 256) as u32)
}

/// A value shifted right by one byte.
pub open spec fn shr_byte(x: M31) -> M31 {
    M31((x.0 / 256) as u32)
}

/// `2^8` as a field element.
pub open spec fn two_pow_8() -> M31 {
    M31(256)
}

/// The limbs and carries of one row of the multiplication.
#[derive(Clone, Copy, Debug, PartialEq, Eq)]
pub struct MulLimbs {
    /// The first factor, low byte first.
    pub op0: [M31; 4],
    /// The immediate factor, low byte first.
    pub imm: [M31; 4],
    /// The product modulo `2^32`, low byte first.
    pub res: [M31; 4],
    /// The carry out of each column.
    pub carry: [M31; 4],
}

/// Column `k` of the product with the carry into it, and the carry out.
pub open spec fn column(sum: M31) -> (M31, M31) {
    let carry = shr_byte(sum);
    (fsub(sum, fmul(carry, two_pow_8())), carry)
}

/// The row the trace holds for `u32(op0_lo, op0_hi) * u32(imm_lo, imm_hi)`,
/// computed in the field as the trace computes it: each 16-bit half is split
/// into its low byte and the rest, each column sum is split into its low
/// byte (kept as `res_k`) and the rest (the carry into the next column).
pub open spec fn spec_mul_limbs(op0_lo: M31, op0_hi: M31, imm_lo: M31, imm_hi: M31) -> MulLimbs {
    let a = [low_byte(op0_lo), shr_byte(op0_lo), low_byte(op0_hi), shr_byte(op0_hi)];
    let b = [low_byte(imm_lo), shr_byte(imm_lo), low_byte(imm_hi), shr_byte(imm_hi)];
    let s0 = fmul(a[0], b[0]);
    let c0 = shr_byte(s0);
    let s1 = fadd(fadd(fmul(a[0], b[1]), fmul(a[1], b[0])), c0);
    let c1 = shr_byte(s1);
    let s2 = fadd(fadd(fadd(fmul(a[0], b[2]), fmul(a[1], b[1])), fmul(a[2], b[0])), c1);
    let c2 = shr_byte(s2);
    let s3 = fadd(
        fadd(fadd(fadd(fmul(a[0], b[3]), fmul(a[1], b[2])), fmul(a[2], b[1])), fmul(a[3], b[0])),
        c2,
    );
    let c3 = shr_byte(s3);
    MulLimbs {
        op0: a,
        imm: b,
        res: [column(s0).0, column(s1).0, column(s2).0, column(s3).0],
        carry: [c0, c1, c2, c3],
    }
}

/// The low byte of a value and the value shifted by one byte.
fn decompose_8(val: M31) -> (r: (M31, M31))
    ensures
        r == (low_byte(val), shr_byte(val)),
{
    let x = val.0;
    assert(x & 0xff == x % 256 && x >> 8 == x / 256) by (bit_vector);
    (M31::from_u32(x & 0xff), M31::from_u32(x >> 8))
}

/// A column sum split into its kept low byte and its carry.
fn split_column(sum: M31) -> (r: (M31, M31))
    ensures
        r == column(sum),
{
    let x = sum.0;
    assert(x >> 8 == x / 256) by (bit_vector);
    let carry = M31::from_u32(x >> 8);
    (sum.sub(carry.mul(M31(256))), carry)
}

/// Computes the limbs, product and carries of one multiplication row.
pub fn mul_limbs(op0_lo: M31, op0_hi: M31, imm_lo: M31, imm_hi: M31) -> (r: MulLimbs)
    ensures
        r == spec_mul_limbs(op0_lo, op0_hi, imm_lo, imm_hi),
{
    let (op0_0, op0_1) = decompose_8(op0_lo);
    let (op0_2, op0_3) = decompose_8(op0_hi);
    let (imm_0, imm_1) = decompose_8(imm_lo);
    let (imm_2, imm_3) = decompose_8(imm_hi);

    let prod_0 = op0_0.mul(imm_0);
    let (res_0, carry_0) = split_column(prod_0);
    let sum_1 = op0_0.mul(imm_1).add(op0_1.mul(imm_0)).add(carry_0);
    let (res_1, carry_1) = split_column(sum_1);
    let sum_2 = op0_0.mul(imm_2).add(op0_1.mul(imm_1)).add(op0_2.mul(imm_0)).add(carry_1);
    let (res_2, carry_2) = split_column(sum_2);
    let sum_3 = op0_0.mul(imm_3).add(op0_1.mul(imm_2)).add(op0_2.mul(imm_1)).add(op0_3.mul(imm_0)).add(
        carry_2,
    );
    let (res_3, carry_3) = split_column(sum_3);
    let r = MulLimbs {
        op0: [op0_0, op0_1, op0_2, op0_3],
        imm: [imm_0, imm_1, imm_2, imm_3],
        res: [res_0, res_1, res_2, res_3],
        carry: [carry_0, carry_1, carry_2, carry_3],
    };
    assert(r.op0 =~= spec_mul_limbs(op0_lo, op0_hi, imm_lo, imm_hi).op0);
    assert(r.imm =~= spec_mul_limbs(op0_lo, op0_hi, imm_lo, imm_hi).imm);
    assert(r.res =~= spec_mul_limbs(op0_lo, op0_hi, imm_lo, imm_hi).res);
    assert(r.carry =~= spec_mul_limbs(op0_lo, op0_hi, imm_lo, imm_hi).carry);
    r
}

/// The integer a pair of 16-bit halves stands for.
pub open spec fn u32_of(lo: M31, hi: M31) -> int {
    lo.0 + 65536 * hi.0
}

/// The integer four bytes stand for, low byte first.
pub open spec fn bytes_value(b: [M31; 4]) -> int {
    b[0].0 + 256 * b[1].0 + 65536 * b[2].0 + 16777216 * b[3].0
}

/// Every limb is a byte.
pub open spec fn all_bytes(b: [M31; 4]) -> bool {
    b[0].0 < 256 && b[1].0 < 256 && b[2].0 < 256 && b[3].0 < 256
}

/// The product of two bytes fits in 16 bits.
pub proof fn lemma_byte_product(x: int, y: int)
    requires
        0 <= x < 256,
        0 <= y < 256,
    ensures
        0 <= x * y <= 65025,
{
    assert(0 <= x * y <= 65025) by (nonlinear_arith)
        requires
            0 <= x < 256,
            0 <= y < 256,
    ;
}

/// A 4-byte number times a factor, expanded byte by byte (in both orders).
pub proof fn lemma_expand_bytes(x0: int, x1: int, x2: int, x3: int, y: int)
    ensures
        (x0 + 256 * x1 + 65536 * x2 + 16777216 * x3) * y == x0 * y + 256 * (x1 * y) + 65536 * (x2 * y)
            + 16777216 * (x3 * y),
        y * (x0 + 256 * x1 + 65536 * x2 + 16777216 * x3) == y * x0 + 256 * (y * x1) + 65536 * (y * x2)
            + 16777216 * (y * x3),
        x0 * y == y * x0,
        x1 * y == y * x1,
        x2 * y == y * x2,
        x3 * y == y * x3,
{
    assert((x0 + 256 * x1 + 65536 * x2 + 16777216 * x3) * y == x0 * y + 256 * (x1 * y) + 65536 * (x2 * y)
        + 16777216 * (x3 * y)) by (nonlinear_arith);
    assert(y * (x0 + 256 * x1 + 65536 * x2 + 16777216 * x3) == y * x0 + 256 * (y * x1) + 65536 * (y * x2)
        + 16777216 * (y * x3)) by (nonlinear_arith);
    assert(x0 * y == y * x0 && x1 * y == y * x1 && x2 * y == y * x2 && x3 * y == y * x3) by (nonlinear_arith);
}

/// Schoolbook multiplication of two 4-byte numbers modulo `2^32`: the low
/// bytes of the column sums (each with the carry of the previous column) are
/// the bytes of the product, and the carries stay within their bounds.
pub proof fn lemma_schoolbook(a0: int, a1: int, a2: int, a3: int, b0: int, b1: int, b2: int, b3: int)
    requires
        0 <= a0 < 256,
        0 <= a1 < 256,
        0 <= a2 < 256,
        0 <= a3 < 256,
        0 <= b0 < 256,
        0 <= b1 < 256,
        0 <= b2 < 256,
        0 <= b3 < 256,
    ensures
        ({
            let s0 = a0 * b0;
            let s1 = a0 * b1 + a1 * b0 + s0 / 256;
            let s2 = a0 * b2 + a1 * b1 + a2 * b0 + s1 / 256;
            let s3 = a0 * b3 + a1 * b2 + a2 * b1 + a3 * b0 + s2 / 256;
            &&& s0 / 256 <= MAX_CARRY_0
            &&& s1 / 256 <= MAX_CARRY_1
            &&& s2 / 256 <= MAX_CARRY_2
            &&& s3 / 256 <= MAX_CARRY_3
            &&& s3 < P
            &&& s0 % 256 + 256 * (s1 % 256) + 65536 * (s2 % 256) + 16777216 * (s3 % 256) == ((a0 + 256 * a1
                + 65536 * a2 + 16777216 * a3) * (b0 + 256 * b1 + 65536 * b2 + 16777216 * b3))
                % 0x1_0000_0000
        }),
{
    lemma_byte_product(a0, b0);
    lemma_byte_product(a0, b1);
    lemma_byte_product(a0, b2);
    lemma_byte_product(a0, b3);
    lemma_byte_product(a1, b0);
    lemma_byte_product(a1, b1);
    lemma_byte_product(a1, b2);
    lemma_byte_product(a1, b3);
    lemma_byte_product(a2, b0);
    lemma_byte_product(a2, b1);
    lemma_byte_product(a2, b2);
    lemma_byte_product(a2, b3);
    lemma_byte_product(a3, b0);
    lemma_byte_product(a3, b1);
    lemma_byte_product(a3, b2);
    lemma_byte_product(a3, b3);
    let s0 = a0 * b0;
    let c0 = s0 / 256;
    let s1 = a0 * b1 + a1 * b0 + c0;
    let c1 = s1 / 256;
    let s2 = a0 * b2 + a1 * b1 + a2 * b0 + c1;
    let c2 = s2 / 256;
    let s3 = a0 * b3 + a1 * b2 + a2 * b1 + a3 * b0 + c2;
    let c3 = s3 / 256;
    vstd::arithmetic::div_mod::lemma_fundamental_div_mod(s0, 256);
    vstd::arithmetic::div_mod::lemma_fundamental_div_mod(s1, 256);
    vstd::arithmetic::div_mod::lemma_fundamental_div_mod(s2, 256);
    vstd::arithmetic::div_mod::lemma_fundamental_div_mod(s3, 256);
    let a = a0 + 256 * a1 + 65536 * a2 + 16777216 * a3;
    let b = b0 + 256 * b1 + 65536 * b2 + 16777216 * b3;
    let high = (a1 * b3 + a2 * b2 + a3 * b1) + 256 * (a2 * b3 + a3 * b2) + 65536 * (a3 * b3);
    lemma_expand_bytes(a0, a1, a2, a3, b);
    lemma_expand_bytes(b0, b1, b2, b3, a0);
    lemma_expand_bytes(b0, b1, b2, b3, a1);
    lemma_expand_bytes(b0, b1, b2, b3, a2);
    lemma_expand_bytes(b0, b1, b2, b3, a3);
    assert(a * b == a0 * b0 + 256 * (a0 * b1 + a1 * b0) + 65536 * (a0 * b2 + a1 * b1 + a2 * b0)
        + 16777216 * (a0 * b3 + a1 * b2 + a2 * b1 + a3 * b0) + 0x1_0000_0000 * high);
    let res = s0 % 256 + 256 * (s1 % 256) + 65536 * (s2 % 256) + 16777216 * (s3 % 256);
    assert(a * b == res + 0x1_0000_0000 * (c3 + high));
    assert(0 <= high) by (nonlinear_arith)
        requires
            high == (a1 * b3 + a2 * b2 + a3 * b1) + 256 * (a2 * b3 + a3 * b2) + 65536 * (a3 * b3),
            0 <= a1 * b3,
            0 <= a2 * b2,
            0 <= a3 * b1,
            0 <= a2 * b3,
            0 <= a3 * b2,
            0 <= a3 * b3,
    ;
    vstd::arithmetic::div_mod::lemma_fundamental_div_mod_converse(a * b, 0x1_0000_0000, c3 + high, res);
}

/// On 16-bit halves, the row holds the bytes of both factors and of their
/// product modulo `2^32`, with every carry within the bound its range check
/// enforces: the row computes the `u32` product the opcode stores.
pub proof fn lemma_mul_limbs_product(op0_lo: M31, op0_hi: M31, imm_lo: M31, imm_hi: M31)
    requires
        op0_lo.0 < 65536,
        op0_hi.0 < 65536,
        imm_lo.0 < 65536,
        imm_hi.0 < 65536,
    ensures
        all_bytes(spec_mul_limbs(op0_lo, op0_hi, imm_lo, imm_hi).op0),
        all_bytes(spec_mul_limbs(op0_lo, op0_hi, imm_lo, imm_hi).imm),
        all_bytes(spec_mul_limbs(op0_lo, op0_hi, imm_lo, imm_hi).res),
        bytes_value(spec_mul_limbs(op0_lo, op0_hi, imm_lo, imm_hi).op0) == u32_of(op0_lo, op0_hi),
        bytes_value(spec_mul_limbs(op0_lo, op0_hi, imm_lo, imm_hi).imm) == u32_of(imm_lo, imm_hi),
        spec_mul_limbs(op0_lo, op0_hi, imm_lo, imm_hi).carry[0].0 <= MAX_CARRY_0,
        spec_mul_limbs(op0_lo, op0_hi, imm_lo, imm_hi).carry[1].0 <= MAX_CARRY_1,
        spec_mul_limbs(op0_lo, op0_hi, imm_lo, imm_hi).carry[2].0 <= MAX_CARRY_2,
        spec_mul_limbs(op0_lo, op0_hi, imm_lo, imm_hi).carry[3].0 <= MAX_CARRY_3,
        bytes_value(spec_mul_limbs(op0_lo, op0_hi, imm_lo, imm_hi).res) == (u32_of(op0_lo, op0_hi) * u32_of(
            imm_lo,
            imm_hi,
        )) % 0x1_0000_0000,
{
    let w = spec_mul_limbs(op0_lo, op0_hi, imm_lo, imm_hi);
    let a0 = op0_lo.0 % 256;
    let a1 = op0_lo.0 / 256;
    let a2 = op0_hi.0 % 256;
    let a3 = op0_hi.0 / 256;
    let b0 = imm_lo.0 % 256;
    let b1 = imm_lo.0 / 256;
    let b2 = imm_hi.0 % 256;
    let b3 = imm_hi.0 / 256;
    lemma_schoolbook(a0 as int, a1 as int, a2 as int, a3 as int, b0 as int, b1 as int, b2 as int, b3 as int);
    lemma_byte_product(a0 as int, b0 as int);
    lemma_byte_product(a0 as int, b1 as int);
    lemma_byte_product(a0 as int, b2 as int);
    lemma_byte_product(a0 as int, b3 as int);
    lemma_byte_product(a1 as int, b0 as int);
    lemma_byte_product(a1 as int, b1 as int);
    lemma_byte_product(a1 as int, b2 as int);
    lemma_byte_product(a2 as int, b0 as int);
    lemma_byte_product(a2 as int, b1 as int);
    lemma_byte_product(a3 as int, b0 as int);
    // Every field operation of the row stays below the modulus.
    assert forall|x: int| 0 <= x < P implies #[trigger] fmod(x) == x by {
        vstd::arithmetic::div_mod::lemma_small_mod(x as nat, P as nat);
    }
    let s0 = a0 * b0;
    assert(w.op0[0].0 == a0 && w.op0[1].0 == a1 && w.op0[2].0 == a2 && w.op0[3].0 == a3);
    assert(w.imm[0].0 == b0 && w.imm[1].0 == b1 && w.imm[2].0 == b2 && w.imm[3].0 == b3);
    assert(fmod(a0 * b0) == a0 * b0);
    assert(w.carry[0].0 == s0 / 256);
    let s1 = a0 * b1 + a1 * b0 + s0 / 256;
    assert(fmod(a0 * b1) == a0 * b1);
    assert(fmod(a1 * b0) == a1 * b0);
    assert(fmod(a0 * b1 + a1 * b0) == a0 * b1 + a1 * b0);
    assert(fmod(s1) == s1);
    assert(w.carry[1].0 == s1 / 256);
    let s2 = a0 * b2 + a1 * b1 + a2 * b0 + s1 / 256;
    assert(fmod(a0 * b2) == a0 * b2);
    assert(fmod(a1 * b1) == a1 * b1);
    assert(fmod(a2 * b0) == a2 * b0);
    assert(fmod(a0 * b2 + a1 * b1) == a0 * b2 + a1 * b1);
    assert(fmod(a0 * b2 + a1 * b1 + a2 * b0) == a0 * b2 + a1 * b1 + a2 * b0);
    assert(fmod(s2) == s2);
    assert(w.carry[2].0 == s2 / 256);
    let s3 = a0 * b3 + a1 * b2 + a2 * b1 + a3 * b0 + s2 / 256;
    assert(fmod(a0 * b3) == a0 * b3);
    assert(fmod(a1 * b2) == a1 * b2);
    assert(fmod(a2 * b1) == a2 * b1);
    assert(fmod(a3 * b0) == a3 * b0);
    assert(fmod(a0 * b3 + a1 * b2) == a0 * b3 + a1 * b2);
    assert(fmod(a0 * b3 + a1 * b2 + a2 * b1) == a0 * b3 + a1 * b2 + a2 * b1);
    assert(fmod(a0 * b3 + a1 * b2 + a2 * b1 + a3 * b0) == a0 * b3 + a1 * b2 + a2 * b1 + a3 * b0);
    assert(fmod(s3) == s3);
    assert(w.carry[3].0 == s3 / 256);
    vstd::arithmetic::div_mod::lemma_fundamental_div_mod(s0, 256);
    vstd::arithmetic::div_mod::lemma_fundamental_div_mod(s1, 256);
    vstd::arithmetic::div_mod::lemma_fundamental_div_mod(s2, 256);
    vstd::arithmetic::div_mod::lemma_fundamental_div_mod(s3, 256);
    assert(fmod((s0 / 256) * 256) == (s0 / 256) * 256);
    assert(fmod((s1 / 256) * 256) == (s1 / 256) * 256);
    assert(fmod((s2 / 256) * 256) == (s2 / 256) * 256);
    assert(fmod((s3 / 256) * 256) == (s3 / 256) * 256);
    assert(fmod(s0 - (s0 / 256) * 256) == s0 % 256);
    assert(fmod(s1 - (s1 / 256) * 256) == s1 % 256);
    assert(fmod(s2 - (s2 / 256) * 256) == s2 % 256);
    assert(fmod(s3 - (s3 / 256) * 256) == s3 % 256);
    assert(w.res[0].0 == s0 % 256);
    assert(w.res[1].0 == s1 % 256);
    assert(w.res[2].0 == s2 % 256);
    assert(w.res[3].0 == s3 % 256);
}


// ---------------------------------------------------------------------------
// The trace and its constraints.

/// The values a row of the trace is written from: the registers and clocks
/// of the step, the instruction's fields, the first factor and the previous
/// state of the destination.
#[derive(Clone, Copy, Debug, PartialEq, Eq)]
pub struct RowInput {
    /// Program counter.
    pub pc: M31,
    /// Frame pointer.
    pub fp: M31,
    /// Clock of the step.
    pub clock: M31,
    /// Clock of the previous access to the instruction.
    pub inst_prev_clock: M31,
    /// Offset of the first factor from `fp`.
    pub src_off: M31,
    /// Low half of the immediate factor.
    pub imm_lo: M31,
    /// High half of the immediate factor.
    pub imm_hi: M31,
    /// Offset of the destination from `fp`.
    pub dst_off: M31,
    /// Low half of the first factor.
    pub op0_lo: M31,
    /// High half of the first factor.
    pub op0_hi: M31,
    /// Clock of the previous access to the first factor's low half.
    pub op0_prev_clock_lo: M31,
    /// Clock of the previous access to the first factor's high half.
    pub op0_prev_clock_hi: M31,
    /// Previous value of the destination's low half.
    pub dst_prev_val_lo: M31,
    /// Previous value of the destination's high half.
    pub dst_prev_val_hi: M31,
    /// Clock of the previous access to the destination's low half.
    pub dst_prev_clock_lo: M31,
    /// Clock of the previous access to the destination's high half.
    pub dst_prev_clock_hi: M31,
}

/// The input of a padding row: all zeros.
pub open spec fn zero_input() -> RowInput {
    RowInput {
        pc: M31(0),
        fp: M31(0),
        clock: M31(0),
        inst_prev_clock: M31(0),
        src_off: M31(0),
        imm_lo: M31(0),
        imm_hi: M31(0),
        dst_off: M31(0),
        op0_lo: M31(0),
        op0_hi: M31(0),
        op0_prev_clock_lo: M31(0),
        op0_prev_clock_hi: M31(0),
        dst_prev_val_lo: M31(0),
        dst_prev_val_hi: M31(0),
        dst_prev_clock_lo: M31(0),
        dst_prev_clock_hi: M31(0),
    }
}

/// The trace row written for `i` with the given enabler, column by column.
pub open spec fn spec_trace_row(enabler: M31, i: RowInput) -> Seq<M31> {
    let w = spec_mul_limbs(i.op0_lo, i.op0_hi, i.imm_lo, i.imm_hi);
    seq![
        enabler, i.pc, i.fp, i.clock, i.inst_prev_clock, i.src_off,
        w.imm[0], w.imm[1], w.imm[2], w.imm[3], i.dst_off,
        w.op0[0], w.op0[1], w.op0[2], w.op0[3],
        i.op0_prev_clock_lo, i.op0_prev_clock_hi, i.dst_prev_val_lo, i.dst_prev_val_hi,
        i.dst_prev_clock_lo, i.dst_prev_clock_hi,
        w.res[0], w.res[1], w.res[2], w.res[3],
        w.carry[0], w.carry[1], w.carry[2], w.carry[3]
    ]
}

/// Writes the trace row for `input` with the given enabler.
pub fn trace_row(enabler: M31, input: &RowInput) -> (r: [M31; 29])
    ensures
        r@ == spec_trace_row(enabler, *input),
{
    let w = mul_limbs(input.op0_lo, input.op0_hi, input.imm_lo, input.imm_hi);
    let r = [
        enabler, input.pc, input.fp, input.clock, input.inst_prev_clock, input.src_off,
        w.imm[0], w.imm[1], w.imm[2], w.imm[3], input.dst_off,
        w.op0[0], w.op0[1], w.op0[2], w.op0[3],
        input.op0_prev_clock_lo, input.op0_prev_clock_hi, input.dst_prev_val_lo, input.dst_prev_val_hi,
        input.dst_prev_clock_lo, input.dst_prev_clock_hi,
        w.res[0], w.res[1], w.res[2], w.res[3],
        w.carry[0], w.carry[1], w.carry[2], w.carry[3],
    ];
    assert(r@ =~= spec_trace_row(enabler, *input));
    r
}

/// The column equations of the product, before gating: each result byte
/// minus its column sum (with the incoming carry) less the outgoing carry
/// times `2^8`.
#[verifier::opaque]
pub open spec fn res_checks(op0: [M31; 4], imm: [M31; 4], res: [M31; 4], carry: [M31; 4]) -> Seq<M31> {
    let b8 = two_pow_8();
    let (a0, a1, a2, a3) = (op0[0], op0[1], op0[2], op0[3]);
    let (b0, b1, b2, b3) = (imm[0], imm[1], imm[2], imm[3]);
    seq![
        fsub(res[0], fsub(fmul(a0, b0), fmul(carry[0], b8))),
        fsub(res[1], fsub(fadd(fadd(fmul(a0, b1), fmul(a1, b0)), carry[0]), fmul(carry[1], b8))),
        fsub(res[2], fsub(fadd(fadd(fadd(fmul(a0, b2), fmul(a1, b1)), fmul(a2, b0)), carry[1]), fmul(carry[2], b8))),
        fsub(
            res[3],
            fsub(
                fadd(fadd(fadd(fadd(fmul(a0, b3), fmul(a1, b2)), fmul(a2, b1)), fmul(a3, b0)), carry[2]),
                fmul(carry[3], b8),
            ),
        )
    ]
}

/// The first factor's bytes of a row.
pub open spec fn row_op0(row: Seq<M31>) -> [M31; 4] {
    [row[11], row[12], row[13], row[14]]
}

/// The immediate's bytes of a row.
pub open spec fn row_imm(row: Seq<M31>) -> [M31; 4] {
    [row[6], row[7], row[8], row[9]]
}

/// The result bytes of a row.
pub open spec fn row_res(row: Seq<M31>) -> [M31; 4] {
    [row[21], row[22], row[23], row[24]]
}

/// The carries of a row.
pub open spec fn row_carry(row: Seq<M31>) -> [M31; 4] {
    [row[25], row[26], row[27], row[28]]
}

/// The polynomial constraints of a row, each of which must vanish: the
/// enabler is a boolean, and, gated by it, the [`res_checks`].
pub open spec fn spec_constraints(row: Seq<M31>) -> Seq<M31> {
    let e = row[0];
    let rc = res_checks(row_op0(row), row_imm(row), row_res(row), row_carry(row));
    seq![fmul(e, fsub(M31(1), e)), fmul(e, rc[0]), fmul(e, rc[1]), fmul(e, rc[2]), fmul(e, rc[3])]
}

/// The [`res_checks`] of a row.
fn eval_res_checks(row: &[M31; 29]) -> (r: [M31; 4])
    ensures
        r@ == res_checks(row_op0(row@), row_imm(row@), row_res(row@), row_carry(row@)),
{
    reveal(res_checks);
    let b8 = M31(256);
    let (a0, a1, a2, a3) = (row[11], row[12], row[13], row[14]);
    let (b0, b1, b2, b3) = (row[6], row[7], row[8], row[9]);
    let (r0, r1, r2, r3) = (row[21], row[22], row[23], row[24]);
    let (c0, c1, c2, c3) = (row[25], row[26], row[27], row[28]);
    let k0 = r0.sub(a0.mul(b0).sub(c0.mul(b8)));
    let k1 = r1.sub(a0.mul(b1).add(a1.mul(b0)).add(c0).sub(c1.mul(b8)));
    let k2 = r2.sub(a0.mul(b2).add(a1.mul(b1)).add(a2.mul(b0)).add(c1).sub(c2.mul(b8)));
    let k3 = r3.sub(a0.mul(b3).add(a1.mul(b2)).add(a2.mul(b1)).add(a3.mul(b0)).add(c2).sub(c3.mul(b8)));
    let r = [k0, k1, k2, k3];
    assert(r@ =~= res_checks(row_op0(row@), row_imm(row@), row_res(row@), row_carry(row@)));
    r
}

impl Eval {
    /// Evaluates the polynomial constraints of the component on one row of
    /// its trace, in the order [`spec_constraints`] lists them.
    pub fn evaluate(&self, row: &[M31; 29]) -> (r: Vec<M31>)
        ensures
            r@ == spec_constraints(row@),
    {
        let e = row[0];
        let rc = eval_res_checks(row);
        let c = vec![e.mul(M31::one().sub(e)), e.mul(rc[0]), e.mul(rc[1]), e.mul(rc[2]), e.mul(rc[3])];
        assert(c@ =~= spec_constraints(row@));
        c
    }
}

/// The column equations of the product hold for the limbs computed for any
/// factors: each result byte is its column sum less the carry out.
proof fn lemma_res_columns(op0_lo: M31, op0_hi: M31, imm_lo: M31, imm_hi: M31)
    ensures
        ({
            let w = spec_mul_limbs(op0_lo, op0_hi, imm_lo, imm_hi);
            res_checks(w.op0, w.imm, w.res, w.carry) == Seq::new(4, |_k: int| M31(0))
        }),
{
    reveal(res_checks);
    assert forall|x: M31| #[trigger] fsub(x, x) == M31(0) by {
        assert(fmod(x.0 - x.0) == 0);
    }
    let w = spec_mul_limbs(op0_lo, op0_hi, imm_lo, imm_hi);
    assert(res_checks(w.op0, w.imm, w.res, w.carry) =~= Seq::new(4, |_k: int| M31(0)));
}

/// Every polynomial constraint vanishes on a written row, enabled or not,
/// whatever the factors: the product is taken modulo `2^32`, so every pair of
/// factors has a row.
pub proof fn lemma_row_satisfies_constraints(enabler: M31, input: RowInput)
    requires
        enabler == M31(0) || enabler == M31(1),
    ensures
        spec_constraints(spec_trace_row(enabler, input)) == Seq::new(5, |_k: int| M31(0)),
{
    let row = spec_trace_row(enabler, input);
    let w = spec_mul_limbs(input.op0_lo, input.op0_hi, input.imm_lo, input.imm_hi);
    lemma_res_columns(input.op0_lo, input.op0_hi, input.imm_lo, input.imm_hi);
    assert(row_op0(row) =~= w.op0);
    assert(row_imm(row) =~= w.imm);
    assert(row_res(row) =~= w.res);
    assert(row_carry(row) =~= w.carry);
    let rc = res_checks(row_op0(row), row_imm(row), row_res(row), row_carry(row));
    assert(rc[0] == M31(0) && rc[1] == M31(0) && rc[2] == M31(0) && rc[3] == M31(0));
    assert(fmod(0) == 0);
    assert forall|x: M31| #[trigger] fmul(x, M31(0)) == M31(0) by {
        assert(x.0 * 0 == 0);
    }
    assert(fmul(M31(0), fsub(M31(1), M31(0))) == M31(0)) by {
        assert(0 * fsub(M31(1), M31(0)).0 == 0);
    }
    assert(fsub(M31(1), M31(1)) == M31(0));
    assert(spec_constraints(row) =~= Seq::new(5, |_k: int| M31(0)));
}

/// The trace written for `inputs` at `log_size`: an enabled row per input,
/// then disabled rows of zeros up to `2^log_size` rows.
pub open spec fn spec_trace(inputs: Seq<RowInput>, log_size: u32) -> Seq<Seq<M31>> {
    Seq::new(
        rows_of(log_size as nat),
        |i: int|
            if i < inputs.len() {
                spec_trace_row(M31(1), inputs[i])
            } else {
                spec_trace_row(M31(0), zero_input())
            },
    )
}

/// What one row adds to the relations: the register update, the twelve
/// memory accesses and the values range-checked on 8, 16 and 20 bits.
#[derive(Clone, Copy, Debug, PartialEq, Eq)]
pub struct RowLookups {
    /// `[pc, fp, clock]` before and after the step.
    pub registers: [[M31; 3]; 2],
    /// The two instruction words and the halves of the operand read, then
    /// the halves of the destination written; each access as its previous
    /// state then its new state.
    pub memory: [[M31; 6]; 12],
    /// The bytes of the operand, the immediate and the result.
    pub range_check_8: [M31; 12],
    /// Each carry taken from its bound.
    pub range_check_16: [M31; 4],
    /// The clock gap of each access.
    pub range_check_20: [M31; 5],
}

/// The 16-bit value of two bytes: `b0 + b1 * 2^8`.
pub open spec fn half_of(b0: M31, b1: M31) -> M31 {
    fadd(b0, fmul(b1, two_pow_8()))
}

/// An access `[address, clock, value]` of one limb, padded to six values.
pub open spec fn limb_access(address: M31, clock: M31, value: M31) -> Seq<M31> {
    seq![address, clock, value, M31(0), M31(0), M31(0)]
}

/// The memory lookups of a row: the two instruction words (the first one
/// holding the opcode and the immediate's halves rebuilt from its bytes),
/// the operand's halves read, then the destination's halves written with the
/// halves of the product; each access first with its previous clock and
/// value, then with the row's clock and new value.
pub open spec fn spec_memory_lookups(opcode: M31, i: RowInput, w: MulLimbs) -> Seq<Seq<M31>> {
    let pc1 = fadd(i.pc, M31(1));
    let src = fadd(i.fp, i.src_off);
    let dst = fadd(i.fp, i.dst_off);
    let imm_lo = half_of(w.imm[0], w.imm[1]);
    let imm_hi = half_of(w.imm[2], w.imm[3]);
    seq![
        seq![i.pc, i.inst_prev_clock, opcode, i.src_off, imm_lo, imm_hi],
        seq![i.pc, i.clock, opcode, i.src_off, imm_lo, imm_hi],
        limb_access(pc1, i.inst_prev_clock, i.dst_off),
        limb_access(pc1, i.clock, i.dst_off),
        limb_access(src, i.op0_prev_clock_lo, half_of(w.op0[0], w.op0[1])),
        limb_access(src, i.clock, half_of(w.op0[0], w.op0[1])),
        limb_access(fadd(src, M31(1)), i.op0_prev_clock_hi, half_of(w.op0[2], w.op0[3])),
        limb_access(fadd(src, M31(1)), i.clock, half_of(w.op0[2], w.op0[3])),
        limb_access(dst, i.dst_prev_clock_lo, i.dst_prev_val_lo),
        limb_access(dst, i.clock, half_of(w.res[0], w.res[1])),
        limb_access(fadd(dst, M31(1)), i.dst_prev_clock_hi, i.dst_prev_val_hi),
        limb_access(fadd(dst, M31(1)), i.clock, half_of(w.res[2], w.res[3]))
    ]
}

/// `l` holds the lookups of the row written for `i` with the given enabler,
/// the first instruction word holding `opcode`.
pub open spec fn is_row_lookups(l: RowLookups, enabler: M31, opcode: M31, i: RowInput) -> bool {
    is_limbs_lookups(l, enabler, opcode, i, spec_mul_limbs(i.op0_lo, i.op0_hi, i.imm_lo, i.imm_hi))
}

/// `l` holds the lookups of the row with limbs `w` for `i`: the registers
/// `[pc, fp, clock]` then `[pc + 2, fp, clock + 1]`, the memory accesses,
/// the bytes of the operand, the immediate and the result, each carry taken
/// from its bound (`MAX_CARRY_k - carry_k`), and each clock gap less the
/// enabler.
pub open spec fn is_limbs_lookups(l: RowLookups, enabler: M31, opcode: M31, i: RowInput, w: MulLimbs) -> bool {
    &&& l.registers@.map_values(|e: [M31; 3]| e@) == seq![
        seq![i.pc, i.fp, i.clock],
        seq![fadd(fadd(i.pc, M31(1)), M31(1)), i.fp, fadd(i.clock, M31(1))],
    ]
    &&& l.memory@.map_values(|e: [M31; 6]| e@) == spec_memory_lookups(opcode, i, w)
    &&& l.range_check_8@ == w.op0@ + w.imm@ + w.res@
    &&& l.range_check_16@ == seq![
        fsub(M31(MAX_CARRY_0), w.carry[0]),
        fsub(M31(MAX_CARRY_1), w.carry[1]),
        fsub(M31(MAX_CARRY_2), w.carry[2]),
        fsub(M31(MAX_CARRY_3), w.carry[3]),
    ]
    &&& l.range_check_20@ == seq![
        fsub(fsub(i.clock, i.inst_prev_clock), enabler),
        fsub(fsub(i.clock, i.op0_prev_clock_lo), enabler),
        fsub(fsub(i.clock, i.op0_prev_clock_hi), enabler),
        fsub(fsub(i.clock, i.dst_prev_clock_lo), enabler),
        fsub(fsub(i.clock, i.dst_prev_clock_hi), enabler),
    ]
}

/// One limb access, padded to six values.
fn limb_access_row(address: M31, clock: M31, value: M31) -> (r: [M31; 6])
    ensures
        r@ == limb_access(address, clock, value),
{
    let z = M31(0);
    let r = [address, clock, value, z, z, z];
    assert(r@ =~= limb_access(address, clock, value));
    r
}

/// Writes the lookups of the row for `input` with the given enabler.
pub fn row_lookups(enabler: M31, opcode: M31, input: &RowInput) -> (l: RowLookups)
    ensures
        is_row_lookups(l, enabler, opcode, *input),
{
    let w = mul_limbs(input.op0_lo, input.op0_hi, input.imm_lo, input.imm_hi);
    lookups_of_limbs(enabler, opcode, input, &w)
}

/// The lookups of the row for `input` with limbs `w`.
#[verifier::rlimit(40)]
fn lookups_of_limbs(enabler: M31, opcode: M31, input: &RowInput, w: &MulLimbs) -> (l: RowLookups)
    ensures
        is_limbs_lookups(l, enabler, opcode, *input, *w),
{
    let one = M31(1);
    let b8 = M31(256);
    let pc1 = input.pc.add(one);
    let src = input.fp.add(input.src_off);
    let dst = input.fp.add(input.dst_off);
    let (src1, dst1) = (src.add(one), dst.add(one));
    let imm_lo = w.imm[0].add(w.imm[1].mul(b8));
    let imm_hi = w.imm[2].add(w.imm[3].mul(b8));
    let op0_lo = w.op0[0].add(w.op0[1].mul(b8));
    let op0_hi = w.op0[2].add(w.op0[3].mul(b8));
    let res_lo = w.res[0].add(w.res[1].mul(b8));
    let res_hi = w.res[2].add(w.res[3].mul(b8));
    let l = RowLookups {
        registers: [[input.pc, input.fp, input.clock], [pc1.add(one), input.fp, input.clock.add(one)]],
        memory: [
            [input.pc, input.inst_prev_clock, opcode, input.src_off, imm_lo, imm_hi],
            [input.pc, input.clock, opcode, input.src_off, imm_lo, imm_hi],
            limb_access_row(pc1, input.inst_prev_clock, input.dst_off),
            limb_access_row(pc1, input.clock, input.dst_off),
            limb_access_row(src, input.op0_prev_clock_lo, op0_lo),
            limb_access_row(src, input.clock, op0_lo),
            limb_access_row(src1, input.op0_prev_clock_hi, op0_hi),
            limb_access_row(src1, input.clock, op0_hi),
            limb_access_row(dst, input.dst_prev_clock_lo, input.dst_prev_val_lo),
            limb_access_row(dst, input.clock, res_lo),
            limb_access_row(dst1, input.dst_prev_clock_hi, input.dst_prev_val_hi),
            limb_access_row(dst1, input.clock, res_hi),
        ],
        range_check_8: [
            w.op0[0], w.op0[1], w.op0[2], w.op0[3], w.imm[0], w.imm[1], w.imm[2], w.imm[3],
            w.res[0], w.res[1], w.res[2], w.res[3],
        ],
        range_check_16: [
            M31(MAX_CARRY_0).sub(w.carry[0]),
            M31(MAX_CARRY_1).sub(w.carry[1]),
            M31(MAX_CARRY_2).sub(w.carry[2]),
            M31(MAX_CARRY_3).sub(w.carry[3]),
        ],
        range_check_20: [
            input.clock.sub(input.inst_prev_clock).sub(enabler),
            input.clock.sub(input.op0_prev_clock_lo).sub(enabler),
            input.clock.sub(input.op0_prev_clock_hi).sub(enabler),
            input.clock.sub(input.dst_prev_clock_lo).sub(enabler),
            input.clock.sub(input.dst_prev_clock_hi).sub(enabler),
        ],
    };
    let ghost ws = *w;
    assert(l.registers@.map_values(|e: [M31; 3]| e@) =~= seq![
        seq![input.pc, input.fp, input.clock],
        seq![fadd(fadd(input.pc, M31(1)), M31(1)), input.fp, fadd(input.clock, M31(1))],
    ]);
    assert(l.memory@.map_values(|e: [M31; 6]| e@) =~= spec_memory_lookups(opcode, *input, *w));
    assert(l.range_check_8@ =~= ws.op0@ + ws.imm@ + ws.res@);
    assert(l.range_check_16@ =~= seq![
        fsub(M31(MAX_CARRY_0), ws.carry[0]),
        fsub(M31(MAX_CARRY_1), ws.carry[1]),
        fsub(M31(MAX_CARRY_2), ws.carry[2]),
        fsub(M31(MAX_CARRY_3), ws.carry[3]),
    ]);
    assert(l.range_check_20@ =~= seq![
        fsub(fsub(input.clock, input.inst_prev_clock), enabler),
        fsub(fsub(input.clock, input.op0_prev_clock_lo), enabler),
        fsub(fsub(input.clock, input.op0_prev_clock_hi), enabler),
        fsub(fsub(input.clock, input.dst_prev_clock_lo), enabler),
        fsub(fsub(input.clock, input.dst_prev_clock_hi), enabler),
    ]);
    l
}

/// The enabler and the input of row `i` of the trace written for `inputs`:
/// an enabled row per input, then disabled rows of zeros.
pub open spec fn padded_row(inputs: Seq<RowInput>, i: int) -> (M31, RowInput) {
    if i < inputs.len() {
        (M31(1), inputs[i])
    } else {
        (M31(0), zero_input())
    }
}

/// What the interaction trace is built from: the lookups of every row and
/// the number of rows that hold an input.
#[derive(Clone, Debug)]
pub struct InteractionClaimData {
    /// The lookups of each row of the trace.
    pub lookup_data: Vec<RowLookups>,
    /// The number of enabled rows.
    pub non_padded_length: usize,
}

impl Claim {
    /// Writes the trace of the component for `inputs`, padded to a power of
    /// two of at least `2^LOG_N_LANES` rows, its claim and the lookups of
    /// every row, the first instruction word holding `opcode`. The inputs are consumed: `inputs` is left empty.
    pub fn write_trace(inputs: &mut Vec<RowInput>, opcode: M31) -> (r: (Claim, Vec<[M31; 29]>, InteractionClaimData))
        requires
            old(inputs)@.len() <= 0x8000_0000,
        ensures
            is_trace_log_size(old(inputs)@.len(), r.0.log_size),
            r.1@.len() == rows_of(r.0.log_size as nat),
            forall|i: int| 0 <= i < r.1@.len() ==> (#[trigger] r.1@[i])@ == spec_trace(old(inputs)@, r.0.log_size)[i],
            r.2.non_padded_length == old(inputs)@.len(),
            r.2.lookup_data@.len() == rows_of(r.0.log_size as nat),
            forall|i: int|
                0 <= i < r.2.lookup_data@.len() ==> is_row_lookups(
                    #[trigger] r.2.lookup_data@[i],
                    padded_row(old(inputs)@, i).0,
                    opcode, padded_row(old(inputs)@, i).1,
                ),
            final(inputs)@.len() == 0,
    {
        let non_padded_length = inputs.len();
        let (log_size, n_rows) = trace_log_size(non_padded_length);
        let z = M31(0);
        let padding = RowInput {
            pc: z,
            fp: z,
            clock: z,
            inst_prev_clock: z,
            src_off: z,
            imm_lo: z,
            imm_hi: z,
            dst_off: z,
            op0_lo: z,
            op0_hi: z,
            op0_prev_clock_lo: z,
            op0_prev_clock_hi: z,
            dst_prev_val_lo: z,
            dst_prev_val_hi: z,
            dst_prev_clock_lo: z,
            dst_prev_clock_hi: z,
        };
        let mut rows: Vec<[M31; 29]> = Vec::new();
        let mut lookup_data: Vec<RowLookups> = Vec::new();
        let mut i: usize = 0;
        while i < n_rows
            invariant
                i <= n_rows,
                n_rows == rows_of(log_size as nat),
                padding == zero_input(),
                inputs@ == old(inputs)@,
                non_padded_length == inputs@.len(),
                rows@.len() == i,
                lookup_data@.len() == i,
                forall|j: int| 0 <= j < i ==> (#[trigger] rows@[j])@ == spec_trace(inputs@, log_size)[j],
                forall|j: int|
                    0 <= j < i ==> is_row_lookups(
                        #[trigger] lookup_data@[j],
                        padded_row(inputs@, j).0,
                        opcode, padded_row(inputs@, j).1,
                    ),
            decreases n_rows - i,
        {
            let (enabler, input) = if i < non_padded_length {
                (M31(1), &inputs[i])
            } else {
                (M31(0), &padding)
            };
            rows.push(trace_row(enabler, input));
            lookup_data.push(row_lookups(enabler, opcode, input));
            i = i + 1;
        }
        inputs.clear();
        (Claim { log_size }, rows, InteractionClaimData { lookup_data, non_padded_length })
    }
}

/// Every row of a written trace satisfies every polynomial constraint of the
/// component, whatever the inputs.
pub proof fn lemma_trace_satisfies_constraints(inputs: Seq<RowInput>, log_size: u32)
    ensures
        forall|i: int|
            0 <= i < rows_of(log_size as nat) ==> spec_constraints(#[trigger] spec_trace(inputs, log_size)[i])
                == Seq::new(5, |_k: int| M31(0)),
{
    assert forall|i: int| 0 <= i < rows_of(log_size as nat) implies spec_constraints(
        #[trigger] spec_trace(inputs, log_size)[i],
    ) == Seq::new(5, |_k: int| M31(0)) by {
        if i < inputs.len() {
            lemma_row_satisfies_constraints(M31(1), inputs[i]);
        } else {
            lemma_row_satisfies_constraints(M31(0), zero_input());
        }
    }
}

} // verus!
