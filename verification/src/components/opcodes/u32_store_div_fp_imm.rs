//! Component proving the U32StoreDivFpImm opcode:
//! `u32([fp + dst_off], [fp + dst_off + 1]) = u32([fp + src_off], [fp + src_off + 1]) / u32(imm_lo, imm_hi)`.
//!
//! The row holds the quotient `q` and remainder `r` of `n / d` and proves
//! - `q * d = prod` on 8-bit limbs, column `k` being
//!   `prod_k = sum_{i + j = k} q_i * d_j + mul_carry_{k-1} - mul_carry_k * 2^8`,
//!   with `prod_7 = mul_carry_6`;
//! - `n = prod + r` on 16-bit limbs with boolean addition carries;
//! - `r < d`, as `d - r - 1` computed on 16-bit limbs without final borrow.
//!
//! A zero divisor gives quotient and remainder zero.
use crate::components::opcodes::u32_store_mul_fp_imm::{
    all_bytes, bytes_value, lemma_byte_product, lemma_expand_bytes, shr_byte, two_pow_8, u32_of,
};
use crate::components::{
    component_log_sizes, is_component_log_sizes, is_trace_log_size, rows_of, trace_log_size,
    SECURE_EXTENSION_DEGREE,
};
use crate::field::{fadd, fmod, fmul, fsub, M31, P};
use vstd::prelude::*;

verus! {

/// Number of trace columns.
pub const N_TRACE_COLUMNS: usize = 46;
/// Number of lookups into the memory relation per row.
pub const N_MEMORY_LOOKUPS: usize = 12;
/// Number of lookups into the registers relation per row.
pub const N_REGISTERS_LOOKUPS: usize = 2;
/// Number of 8-bit range checks per row.
pub const N_RANGE_CHECK_8_LOOKUPS: usize = 16;
/// Number of 16-bit range checks per row.
pub const N_RANGE_CHECK_16_LOOKUPS: usize = 13;
/// Number of 20-bit range checks per row.
pub const N_RANGE_CHECK_20_LOOKUPS: usize = 5;
/// Number of interaction columns: four per pair of lookups.
pub const N_LOOKUPS_COLUMNS: usize = SECURE_EXTENSION_DEGREE * ((N_MEMORY_LOOKUPS + N_REGISTERS_LOOKUPS
    + N_RANGE_CHECK_20_LOOKUPS + N_RANGE_CHECK_16_LOOKUPS + N_RANGE_CHECK_8_LOOKUPS + 1) / 2);

/// Bound the range checks put on the carry out of column 0 of `q * d`.
pub const MAX_CARRY_0: u32 = 254;
/// Bound the range checks put on the carry out of column 1 of `q * d`.
pub const MAX_CARRY_1: u32 = 509;
/// Bound the range checks put on the carry out of column 2 of `q * d`.
pub const MAX_CARRY_2: u32 = 764;
/// Bound the range checks put on the carry out of column 3 of `q * d`.
pub const MAX_CARRY_3: u32 = 1019;
/// Bound the range checks put on the carry out of column 4 of `q * d`.
pub const MAX_CARRY_4: u32 = 1274;
/// Bound the range checks put on the carry out of column 5 of `q * d`.
pub const MAX_CARRY_5: u32 = 512;
/// Bound the range checks put on the carry out of column 6 of `q * d`.
pub const MAX_CARRY_6: u32 = 256;

/// The claim of the component: the log size of its trace.
#[derive(Clone, Copy, Debug, Default, PartialEq, Eq, Structural)]
pub struct Claim {
    /// Log2 of the number of rows.
    pub log_size: u32,
}

impl Claim {
    /// The log sizes of the component's columns, tree by tree.
    pub fn log_sizes(&self) -> (r: Vec<Vec<u32>>)
        ensures
            is_component_log_sizes(r@, self.log_size, N_TRACE_COLUMNS as nat, N_LOOKUPS_COLUMNS as nat),
    {
        component_log_sizes(self.log_size, N_TRACE_COLUMNS, N_LOOKUPS_COLUMNS)
    }
}

/// The constraint evaluator of the component.
#[derive(Clone, Copy, Debug, PartialEq, Eq, Structural)]
pub struct Eval {
    /// The claim the evaluator checks.
    pub claim: Claim,
}

impl Eval {
    /// Log2 of the number of rows of the evaluated trace.
    pub fn log_size(&self) -> (r: u32)
        ensures
            r == self.claim.log_size,
    {
        self.claim.log_size
    }

    /// Bound on the log degree of the constraints: one more than the log size.
    pub fn max_constraint_log_degree_bound(&self) -> (r: u32)
        requires
            self.claim.log_size < u32::MAX,
        ensures
            r == self.claim.log_size + 1,
    {
        self.claim.log_size + 1
    }
}

/// The `u32` whose low half is `lo` and high half `hi`, as the row joins them
/// (`lo | hi << 16`).
pub open spec fn join_u32(lo: M31, hi: M31) -> u32 {
    lo.0 | (hi.0 << 16u32)
}

/// Quotient and remainder, both zero for a zero divisor.
pub open spec fn spec_div_rem(n: u32, d: u32) -> (u32, u32) {
    if d == 0 {
        (0, 0)
    } else {
        (n / d, n % d)
    }
}

/// The low byte of a value.
pub open spec fn byte0(x: M31) -> M31 {
    M31((x.0 % 256) as u32)
}

/// The second byte of a value.
pub open spec fn byte1(x: M31) -> M31 {
    M31(((x.0 / 256) % 256) as u32)
}

/// A 16-bit column sum `x` with the carry `c` it may exceed `2^16` by.
pub open spec fn add_carry(x: M31) -> M31 {
    if x.0 > 0xffff {
        M31(1)
    } else {
        M31(0)
    }
}

/// The borrow of `lo - sub` where `lo` is the 16-bit value `b0 | b1 << 8`.
pub open spec fn borrow(b0: M31, b1: M31, sub: u32) -> M31 {
    if (b0.0 | (b1.0 << 8u32)) < sub {
        M31(1)
    } else {
        M31(0)
    }
}

/// The row of one division.
#[derive(Clone, Copy, Debug, PartialEq, Eq)]
pub struct DivLimbs {
    /// The divisor, low byte first.
    pub d: [M31; 4],
    /// The quotient, low byte first.
    pub q: [M31; 4],
    /// The remainder, low half then high half.
    pub r: [M31; 2],
    /// The bytes of `q * d`, low byte first.
    pub prod: [M31; 8],
    /// The carries of `q * d`, column by column.
    pub mul_carry: [M31; 7],
    /// The carries of `prod + r`, half by half.
    pub add_carry: [M31; 4],
    /// The borrows of `d - r - 1`, half by half.
    pub sub_borrow: [M31; 2],
    /// The quotient stored, low half then high half.
    pub res: [M31; 2],
}

/// Splits a column sum into its kept byte and its carry.
pub open spec fn column(sum: M31) -> (M31, M31) {
    (fsub(sum, fmul(shr_byte(sum), two_pow_8())), shr_byte(sum))
}

/// The bytes and carries of `q * d`, column by column as the trace computes
/// them; the last byte is the last carry.
#[verifier::opaque]
pub open spec fn spec_product(q: [M31; 4], d: [M31; 4]) -> ([M31; 8], [M31; 7]) {
    let s0 = fmul(q[0], d[0]);
    let s1 = fadd(fadd(fmul(q[0], d[1]), fmul(q[1], d[0])), column(s0).1);
    let s2 = fadd(fadd(fadd(fmul(q[0], d[2]), fmul(q[2], d[0])), fmul(q[1], d[1])), column(s1).1);
    let s3 = fadd(
        fadd(fadd(fadd(fmul(q[0], d[3]), fmul(q[3], d[0])), fmul(q[1], d[2])), fmul(q[2], d[1])),
        column(s2).1,
    );
    let s4 = fadd(fadd(fadd(fmul(q[1], d[3]), fmul(q[3], d[1])), fmul(q[2], d[2])), column(s3).1);
    let s5 = fadd(fadd(fmul(q[2], d[3]), fmul(q[3], d[2])), column(s4).1);
    let s6 = fadd(fmul(q[3], d[3]), column(s5).1);
    (
        [
            column(s0).0,
            column(s1).0,
            column(s2).0,
            column(s3).0,
            column(s4).0,
            column(s5).0,
            column(s6).0,
            column(s6).1,
        ],
        [column(s0).1, column(s1).1, column(s2).1, column(s3).1, column(s4).1, column(s5).1, column(s6).1],
    )
}

/// The carries of `prod + r` on 16-bit halves.
#[verifier::opaque]
pub open spec fn spec_add_carries(prod: [M31; 8], r_lo: M31, r_hi: M31) -> [M31; 4] {
    let ac0 = add_carry(fadd(fadd(prod[0], fmul(prod[1], two_pow_8())), r_lo));
    let ac1 = add_carry(fadd(fadd(fadd(prod[2], fmul(prod[3], two_pow_8())), r_hi), ac0));
    let ac2 = add_carry(fadd(fadd(prod[4], fmul(prod[5], two_pow_8())), ac1));
    let ac3 = add_carry(fadd(fadd(prod[6], fmul(prod[7], two_pow_8())), ac2));
    [ac0, ac1, ac2, ac3]
}

/// The borrows of `d - r - 1` on 16-bit halves.
#[verifier::opaque]
pub open spec fn spec_sub_borrows(d: [M31; 4], r_lo: M31, r_hi: M31) -> [M31; 2] {
    let sb0 = borrow(d[0], d[1], (r_lo.0 + 1) as u32);
    [sb0, borrow(d[2], d[3], (r_hi.0 + sb0.0) as u32)]
}

/// The row for `u32(n_lo, n_hi) / u32(d_lo, d_hi)`, computed as the trace
/// computes it.
#[verifier::opaque]
pub open spec fn spec_div_limbs(n_lo: M31, n_hi: M31, d_lo: M31, d_hi: M31) -> DivLimbs {
    let qr = spec_div_rem(join_u32(n_lo, n_hi), join_u32(d_lo, d_hi));
    let q_lo = M31(qr.0 % 65536);
    let q_hi = M31(qr.0 / 65536);
    let r_lo = M31(qr.1 % 65536);
    let r_hi = M31(qr.1 / 65536);
    let d = [byte0(d_lo), byte1(d_lo), byte0(d_hi), byte1(d_hi)];
    let q = [byte0(q_lo), byte1(q_lo), byte0(q_hi), byte1(q_hi)];
    let product = spec_product(q, d);
    DivLimbs {
        d,
        q,
        r: [r_lo, r_hi],
        prod: product.0,
        mul_carry: product.1,
        add_carry: spec_add_carries(product.0, r_lo, r_hi),
        sub_borrow: spec_sub_borrows(d, r_lo, r_hi),
        res: [fadd(q[0], fmul(q[1], two_pow_8())), fadd(q[2], fmul(q[3], two_pow_8()))],
    }
}

/// The low byte and the second byte of a value.
fn decompose_8(val: M31) -> (r: (M31, M31))
    ensures
        r == (byte0(val), byte1(val)),
{
    let x = val.0;
    assert(x & 0xff == x % 256 && (x >> 8) & 0xff == (x / 256) % 256) by (bit_vector);
    (M31::from_u32(x & 0xff), M31::from_u32((x >> 8) & 0xff))
}

/// A column sum split into its kept byte and its carry.
fn split_column(sum: M31) -> (r: (M31, M31))
    ensures
        r == column(sum),
{
    let x = sum.0;
    assert(x >> 8 == x / 256) by (bit_vector);
    let carry = M31::from_u32(x >> 8);
    (sum.sub(carry.mul(M31(256))), carry)
}

/// The carry of a 16-bit column sum.
fn carry_16(x: M31) -> (r: M31)
    ensures
        r == add_carry(x),
{
    if x.0 > 0xffff {
        M31::one()
    } else {
        M31::zero()
    }
}

/// The borrow of `(b0 | b1 << 8) - sub`.
fn borrow_16(b0: M31, b1: M31, sub: u32) -> (r: M31)
    ensures
        r == borrow(b0, b1, sub),
{
    if (b0.0 | (b1.0 << 8)) < sub {
        M31::one()
    } else {
        M31::zero()
    }
}

/// The bytes and carries of `q * d`.
fn product_limbs(q: [M31; 4], d: [M31; 4]) -> (r: ([M31; 8], [M31; 7]))
    ensures
        r == spec_product(q, d),
{
    reveal(spec_product);
    let (q_0, q_1, q_2, q_3) = (q[0], q[1], q[2], q[3]);
    let (d_0, d_1, d_2, d_3) = (d[0], d[1], d[2], d[3]);
    let prod_0_raw = q_0.mul(d_0);
    let (prod_0, mul_carry_0) = split_column(prod_0_raw);
    let sum_1 = q_0.mul(d_1).add(q_1.mul(d_0)).add(mul_carry_0);
    let (prod_1, mul_carry_1) = split_column(sum_1);
    let sum_2 = q_0.mul(d_2).add(q_2.mul(d_0)).add(q_1.mul(d_1)).add(mul_carry_1);
    let (prod_2, mul_carry_2) = split_column(sum_2);
    let sum_3 = q_0.mul(d_3).add(q_3.mul(d_0)).add(q_1.mul(d_2)).add(q_2.mul(d_1)).add(mul_carry_2);
    let (prod_3, mul_carry_3) = split_column(sum_3);
    let sum_4 = q_1.mul(d_3).add(q_3.mul(d_1)).add(q_2.mul(d_2)).add(mul_carry_3);
    let (prod_4, mul_carry_4) = split_column(sum_4);
    let sum_5 = q_2.mul(d_3).add(q_3.mul(d_2)).add(mul_carry_4);
    let (prod_5, mul_carry_5) = split_column(sum_5);
    let sum_6 = q_3.mul(d_3).add(mul_carry_5);
    let (prod_6, mul_carry_6) = split_column(sum_6);
    let prod_7 = mul_carry_6;
    let r = (
        [prod_0, prod_1, prod_2, prod_3, prod_4, prod_5, prod_6, prod_7],
        [mul_carry_0, mul_carry_1, mul_carry_2, mul_carry_3, mul_carry_4, mul_carry_5, mul_carry_6],
    );
    assert(r.0 =~= spec_product(q, d).0);
    assert(r.1 =~= spec_product(q, d).1);
    r
}

/// The carries of `prod + r` on 16-bit halves.
fn add_carries(prod: [M31; 8], r_lo: M31, r_hi: M31) -> (r: [M31; 4])
    ensures
        r == spec_add_carries(prod, r_lo, r_hi),
{
    reveal(spec_add_carries);
    let two_pow_8 = M31(256);
    let add_carry_0 = carry_16(prod[0].add(prod[1].mul(two_pow_8)).add(r_lo));
    let add_carry_1 = carry_16(prod[2].add(prod[3].mul(two_pow_8)).add(r_hi).add(add_carry_0));
    let add_carry_2 = carry_16(prod[4].add(prod[5].mul(two_pow_8)).add(add_carry_1));
    let add_carry_3 = carry_16(prod[6].add(prod[7].mul(two_pow_8)).add(add_carry_2));
    let r = [add_carry_0, add_carry_1, add_carry_2, add_carry_3];
    assert(r =~= spec_add_carries(prod, r_lo, r_hi));
    r
}

/// The borrows of `d - r - 1` on 16-bit halves.
fn sub_borrows(d: [M31; 4], r_lo: M31, r_hi: M31) -> (r: [M31; 2])
    requires
        r_lo.0 < 65536,
        r_hi.0 < 65536,
    ensures
        r == spec_sub_borrows(d, r_lo, r_hi),
{
    reveal(spec_sub_borrows);
    let sub_borrow_0 = borrow_16(d[0], d[1], r_lo.0 + 1);
    let sub_borrow_1 = borrow_16(d[2], d[3], r_hi.0 + sub_borrow_0.0);
    let r = [sub_borrow_0, sub_borrow_1];
    assert(r =~= spec_sub_borrows(d, r_lo, r_hi));
    r
}

/// Computes the row of one division: quotient, remainder, the limbs of
/// `q * d` with their carries, and the carries and borrows of the checks.
#[verifier::rlimit(40)]
#[verifier::spinoff_prover]
pub fn div_limbs(n_lo: M31, n_hi: M31, d_lo: M31, d_hi: M31) -> (w: DivLimbs)
    ensures
        w == spec_div_limbs(n_lo, n_hi, d_lo, d_hi),
{
    let (d_0, d_1) = decompose_8(d_lo);
    let (d_2, d_3) = decompose_8(d_hi);
    let n = n_lo.0 | (n_hi.0 << 16);
    let d = d_lo.0 | (d_hi.0 << 16);
    let (q, r) = if d == 0 {
        (0u32, 0u32)
    } else {
        (n / d, n % d)
    };
    assert(q & 0xffff == q % 65536 && q >> 16 == q / 65536) by (bit_vector);
    assert(r & 0xffff == r % 65536 && r >> 16 == r / 65536) by (bit_vector);
    let q_lo = M31::from_u32(q & 0xffff);
    let q_hi = M31::from_u32(q >> 16);
    let r_lo = M31::from_u32(r & 0xffff);
    let r_hi = M31::from_u32(r >> 16);
    let (q_0, q_1) = decompose_8(q_lo);
    let (q_2, q_3) = decompose_8(q_hi);
    let d_bytes = [d_0, d_1, d_2, d_3];
    let q_bytes = [q_0, q_1, q_2, q_3];
    let (prod, mul_carry) = product_limbs(q_bytes, d_bytes);
    let add_carry = add_carries(prod, r_lo, r_hi);
    let sub_borrow = sub_borrows(d_bytes, r_lo, r_hi);
    let two_pow_8 = M31(256);
    let w = DivLimbs {
        d: d_bytes,
        q: q_bytes,
        r: [r_lo, r_hi],
        prod,
        mul_carry,
        add_carry,
        sub_borrow,
        res: [q_0.add(q_1.mul(two_pow_8)), q_2.add(q_3.mul(two_pow_8))],
    };
    proof {
        reveal(spec_div_limbs);
    }
    let ghost spec_w = spec_div_limbs(n_lo, n_hi, d_lo, d_hi);
    assert(w.d =~= spec_w.d);
    assert(w.q =~= spec_w.q);
    assert(w.r =~= spec_w.r);
    assert(w.res =~= spec_w.res);
    w
}

/// The integer eight bytes stand for, low byte first.
pub open spec fn bytes8_value(b: [M31; 8]) -> int {
    b[0].0 + 256 * b[1].0 + 65536 * b[2].0 + 16777216 * b[3].0 + 0x1_0000_0000 * (b[4].0 + 256 * b[5].0
        + 65536 * b[6].0 + 16777216 * b[7].0)
}

/// Every one of eight limbs is a byte.
pub open spec fn all_bytes8(b: [M31; 8]) -> bool {
    &&& b[0].0 < 256 && b[1].0 < 256 && b[2].0 < 256 && b[3].0 < 256
    &&& b[4].0 < 256 && b[5].0 < 256 && b[6].0 < 256 && b[7].0 < 256
}

/// Full schoolbook multiplication of two 4-byte numbers: the low bytes of
/// the seven column sums (each with the previous carry) and the last carry
/// are the eight bytes of the product, and every carry is within its bound.
pub proof fn lemma_schoolbook_full(q0: int, q1: int, q2: int, q3: int, d0: int, d1: int, d2: int, d3: int)
    requires
        0 <= q0 < 256,
        0 <= q1 < 256,
        0 <= q2 < 256,
        0 <= q3 < 256,
        0 <= d0 < 256,
        0 <= d1 < 256,
        0 <= d2 < 256,
        0 <= d3 < 256,
    ensures
        ({
            let s0 = q0 * d0;
            let s1 = q0 * d1 + q1 * d0 + s0 / 256;
            let s2 = q0 * d2 + q2 * d0 + q1 * d1 + s1 / 256;
            let s3 = q0 * d3 + q3 * d0 + q1 * d2 + q2 * d1 + s2 / 256;
            let s4 = q1 * d3 + q3 * d1 + q2 * d2 + s3 / 256;
            let s5 = q2 * d3 + q3 * d2 + s4 / 256;
            let s6 = q3 * d3 + s5 / 256;
            &&& s0 / 256 <= MAX_CARRY_0 && s1 / 256 <= MAX_CARRY_1 && s2 / 256 <= MAX_CARRY_2
            &&& s3 / 256 <= MAX_CARRY_3 && s4 / 256 <= MAX_CARRY_4 && s5 / 256 <= MAX_CARRY_5
            &&& s6 / 256 <= MAX_CARRY_6
            &&& s3 < P
            &&& s0 % 256 + 256 * (s1 % 256) + 65536 * (s2 % 256) + 16777216 * (s3 % 256) + 0x1_0000_0000 * (
            s4 % 256 + 256 * (s5 % 256) + 65536 * (s6 % 256) + 16777216 * (s6 / 256)) == (q0 + 256 * q1
                + 65536 * q2 + 16777216 * q3) * (d0 + 256 * d1 + 65536 * d2 + 16777216 * d3)
        }),
{
    lemma_byte_product(q0, d0);
    lemma_byte_product(q0, d1);
    lemma_byte_product(q0, d2);
    lemma_byte_product(q0, d3);
    lemma_byte_product(q1, d0);
    lemma_byte_product(q1, d1);
    lemma_byte_product(q1, d2);
    lemma_byte_product(q1, d3);
    lemma_byte_product(q2, d0);
    lemma_byte_product(q2, d1);
    lemma_byte_product(q2, d2);
    lemma_byte_product(q2, d3);
    lemma_byte_product(q3, d0);
    lemma_byte_product(q3, d1);
    lemma_byte_product(q3, d2);
    lemma_byte_product(q3, d3);
    let s0 = q0 * d0;
    let s1 = q0 * d1 + q1 * d0 + s0 / 256;
    let s2 = q0 * d2 + q2 * d0 + q1 * d1 + s1 / 256;
    let s3 = q0 * d3 + q3 * d0 + q1 * d2 + q2 * d1 + s2 / 256;
    let s4 = q1 * d3 + q3 * d1 + q2 * d2 + s3 / 256;
    let s5 = q2 * d3 + q3 * d2 + s4 / 256;
    let s6 = q3 * d3 + s5 / 256;
    vstd::arithmetic::div_mod::lemma_fundamental_div_mod(s0, 256);
    vstd::arithmetic::div_mod::lemma_fundamental_div_mod(s1, 256);
    vstd::arithmetic::div_mod::lemma_fundamental_div_mod(s2, 256);
    vstd::arithmetic::div_mod::lemma_fundamental_div_mod(s3, 256);
    vstd::arithmetic::div_mod::lemma_fundamental_div_mod(s4, 256);
    vstd::arithmetic::div_mod::lemma_fundamental_div_mod(s5, 256);
    vstd::arithmetic::div_mod::lemma_fundamental_div_mod(s6, 256);
    let q = q0 + 256 * q1 + 65536 * q2 + 16777216 * q3;
    let d = d0 + 256 * d1 + 65536 * d2 + 16777216 * d3;
    lemma_expand_bytes(q0, q1, q2, q3, d);
    lemma_expand_bytes(d0, d1, d2, d3, q0);
    lemma_expand_bytes(d0, d1, d2, d3, q1);
    lemma_expand_bytes(d0, d1, d2, d3, q2);
    lemma_expand_bytes(d0, d1, d2, d3, q3);
    assert(q * d == q0 * d0 + 256 * (q0 * d1 + q1 * d0) + 65536 * (q0 * d2 + q2 * d0 + q1 * d1) + 16777216 * (
    q0 * d3 + q3 * d0 + q1 * d2 + q2 * d1) + 0x1_0000_0000 * ((q1 * d3 + q3 * d1 + q2 * d2) + 256 * (q2 * d3
        + q3 * d2) + 65536 * (q3 * d3)));
}

/// The bytes and carries of `q * d` in integers: on byte limbs, the field
/// computation never wraps.
pub proof fn lemma_product_limbs(q: [M31; 4], d: [M31; 4])
    requires
        all_bytes(q),
        all_bytes(d),
    ensures
        all_bytes8(spec_product(q, d).0),
        bytes8_value(spec_product(q, d).0) == bytes_value(q) * bytes_value(d),
        spec_product(q, d).1[0].0 <= MAX_CARRY_0,
        spec_product(q, d).1[1].0 <= MAX_CARRY_1,
        spec_product(q, d).1[2].0 <= MAX_CARRY_2,
        spec_product(q, d).1[3].0 <= MAX_CARRY_3,
        spec_product(q, d).1[4].0 <= MAX_CARRY_4,
        spec_product(q, d).1[5].0 <= MAX_CARRY_5,
        spec_product(q, d).1[6].0 <= MAX_CARRY_6,
{
    reveal(spec_product);
    let (q0, q1, q2, q3) = (q[0].0 as int, q[1].0 as int, q[2].0 as int, q[3].0 as int);
    let (d0, d1, d2, d3) = (d[0].0 as int, d[1].0 as int, d[2].0 as int, d[3].0 as int);
    lemma_schoolbook_full(q0, q1, q2, q3, d0, d1, d2, d3);
    lemma_byte_product(q0, d0);
    lemma_byte_product(q0, d1);
    lemma_byte_product(q0, d2);
    lemma_byte_product(q0, d3);
    lemma_byte_product(q1, d0);
    lemma_byte_product(q1, d1);
    lemma_byte_product(q1, d2);
    lemma_byte_product(q1, d3);
    lemma_byte_product(q2, d0);
    lemma_byte_product(q2, d1);
    lemma_byte_product(q2, d2);
    lemma_byte_product(q2, d3);
    lemma_byte_product(q3, d0);
    lemma_byte_product(q3, d1);
    lemma_byte_product(q3, d2);
    lemma_byte_product(q3, d3);
    assert forall|x: int| 0 <= x < P implies #[trigger] fmod(x) == x by {
        vstd::arithmetic::div_mod::lemma_small_mod(x as nat, P as nat);
    }
    let s0 = q0 * d0;
    let s1 = q0 * d1 + q1 * d0 + s0 / 256;
    let s2 = q0 * d2 + q2 * d0 + q1 * d1 + s1 / 256;
    let s3 = q0 * d3 + q3 * d0 + q1 * d2 + q2 * d1 + s2 / 256;
    let s4 = q1 * d3 + q3 * d1 + q2 * d2 + s3 / 256;
    let s5 = q2 * d3 + q3 * d2 + s4 / 256;
    let s6 = q3 * d3 + s5 / 256;
    vstd::arithmetic::div_mod::lemma_fundamental_div_mod(s0, 256);
    vstd::arithmetic::div_mod::lemma_fundamental_div_mod(s1, 256);
    vstd::arithmetic::div_mod::lemma_fundamental_div_mod(s2, 256);
    vstd::arithmetic::div_mod::lemma_fundamental_div_mod(s3, 256);
    vstd::arithmetic::div_mod::lemma_fundamental_div_mod(s4, 256);
    vstd::arithmetic::div_mod::lemma_fundamental_div_mod(s5, 256);
    vstd::arithmetic::div_mod::lemma_fundamental_div_mod(s6, 256);
    let t0 = fmul(q[0], d[0]);
    assert(t0.0 == s0);
    assert(column(t0).1.0 == s0 / 256);
    assert(fmod(s0 - (s0 / 256) * 256) == s0 % 256);
    assert(column(t0).0.0 == s0 % 256);
    let t1 = fadd(fadd(fmul(q[0], d[1]), fmul(q[1], d[0])), column(t0).1);
    assert(fmul(q[0], d[1]).0 == q0 * d1);
    assert(fmul(q[1], d[0]).0 == q1 * d0);
    assert(fadd(fmul(q[0], d[1]), fmul(q[1], d[0])).0 == q0 * d1 + q1 * d0);
    assert(t1.0 == s1);
    assert(fmod(s1 - (s1 / 256) * 256) == s1 % 256);
    let t2 = fadd(fadd(fadd(fmul(q[0], d[2]), fmul(q[2], d[0])), fmul(q[1], d[1])), column(t1).1);
    assert(fmul(q[0], d[2]).0 == q0 * d2);
    assert(fmul(q[2], d[0]).0 == q2 * d0);
    assert(fmul(q[1], d[1]).0 == q1 * d1);
    assert(fadd(fmul(q[0], d[2]), fmul(q[2], d[0])).0 == q0 * d2 + q2 * d0);
    assert(fadd(fadd(fmul(q[0], d[2]), fmul(q[2], d[0])), fmul(q[1], d[1])).0 == q0 * d2 + q2 * d0 + q1 * d1);
    assert(t2.0 == s2);
    assert(fmod(s2 - (s2 / 256) * 256) == s2 % 256);
    let t3 = fadd(
        fadd(fadd(fadd(fmul(q[0], d[3]), fmul(q[3], d[0])), fmul(q[1], d[2])), fmul(q[2], d[1])),
        column(t2).1,
    );
    assert(fmul(q[0], d[3]).0 == q0 * d3);
    assert(fmul(q[3], d[0]).0 == q3 * d0);
    assert(fmul(q[1], d[2]).0 == q1 * d2);
    assert(fmul(q[2], d[1]).0 == q2 * d1);
    assert(fadd(fmul(q[0], d[3]), fmul(q[3], d[0])).0 == q0 * d3 + q3 * d0);
    assert(fadd(fadd(fmul(q[0], d[3]), fmul(q[3], d[0])), fmul(q[1], d[2])).0 == q0 * d3 + q3 * d0 + q1 * d2);
    assert(fadd(fadd(fadd(fmul(q[0], d[3]), fmul(q[3], d[0])), fmul(q[1], d[2])), fmul(q[2], d[1])).0 == q0
        * d3 + q3 * d0 + q1 * d2 + q2 * d1);
    assert(t3.0 == s3);
    assert(fmod(s3 - (s3 / 256) * 256) == s3 % 256);
    let t4 = fadd(fadd(fadd(fmul(q[1], d[3]), fmul(q[3], d[1])), fmul(q[2], d[2])), column(t3).1);
    assert(fmul(q[1], d[3]).0 == q1 * d3);
    assert(fmul(q[3], d[1]).0 == q3 * d1);
    assert(fmul(q[2], d[2]).0 == q2 * d2);
    assert(fadd(fmul(q[1], d[3]), fmul(q[3], d[1])).0 == q1 * d3 + q3 * d1);
    assert(fadd(fadd(fmul(q[1], d[3]), fmul(q[3], d[1])), fmul(q[2], d[2])).0 == q1 * d3 + q3 * d1 + q2 * d2);
    assert(t4.0 == s4);
    assert(fmod(s4 - (s4 / 256) * 256) == s4 % 256);
    let t5 = fadd(fadd(fmul(q[2], d[3]), fmul(q[3], d[2])), column(t4).1);
    assert(fmul(q[2], d[3]).0 == q2 * d3);
    assert(fmul(q[3], d[2]).0 == q3 * d2);
    assert(fadd(fmul(q[2], d[3]), fmul(q[3], d[2])).0 == q2 * d3 + q3 * d2);
    assert(t5.0 == s5);
    assert(fmod(s5 - (s5 / 256) * 256) == s5 % 256);
    let t6 = fadd(fmul(q[3], d[3]), column(t5).1);
    assert(fmul(q[3], d[3]).0 == q3 * d3);
    assert(t6.0 == s6);
    assert(fmod(s6 - (s6 / 256) * 256) == s6 % 256);
}

/// On 16-bit halves and a nonzero divisor, the row holds the bytes of the
/// divisor and of the quotient `n / d`, the remainder `n % d`, the eight bytes
/// of `q * d` with every carry within the bound its range check enforces, and
/// no final borrow of `d - r - 1` (`r < d`); it stores the quotient.
pub proof fn lemma_div_limbs_correct(n_lo: M31, n_hi: M31, d_lo: M31, d_hi: M31)
    requires
        n_lo.0 < 65536,
        n_hi.0 < 65536,
        d_lo.0 < 65536,
        d_hi.0 < 65536,
        u32_of(d_lo, d_hi) != 0,
    ensures
        all_bytes(spec_div_limbs(n_lo, n_hi, d_lo, d_hi).d),
        all_bytes(spec_div_limbs(n_lo, n_hi, d_lo, d_hi).q),
        bytes_value(spec_div_limbs(n_lo, n_hi, d_lo, d_hi).d) == u32_of(d_lo, d_hi),
        bytes_value(spec_div_limbs(n_lo, n_hi, d_lo, d_hi).q) == u32_of(n_lo, n_hi) / u32_of(d_lo, d_hi),
        u32_of(spec_div_limbs(n_lo, n_hi, d_lo, d_hi).r[0], spec_div_limbs(n_lo, n_hi, d_lo, d_hi).r[1])
            == u32_of(n_lo, n_hi) % u32_of(d_lo, d_hi),
        u32_of(spec_div_limbs(n_lo, n_hi, d_lo, d_hi).res[0], spec_div_limbs(n_lo, n_hi, d_lo, d_hi).res[1])
            == u32_of(n_lo, n_hi) / u32_of(d_lo, d_hi),
        all_bytes8(spec_div_limbs(n_lo, n_hi, d_lo, d_hi).prod),
        bytes8_value(spec_div_limbs(n_lo, n_hi, d_lo, d_hi).prod) == (u32_of(n_lo, n_hi) / u32_of(d_lo, d_hi))
            * u32_of(d_lo, d_hi),
        spec_div_limbs(n_lo, n_hi, d_lo, d_hi).mul_carry[0].0 <= MAX_CARRY_0,
        spec_div_limbs(n_lo, n_hi, d_lo, d_hi).mul_carry[1].0 <= MAX_CARRY_1,
        spec_div_limbs(n_lo, n_hi, d_lo, d_hi).mul_carry[2].0 <= MAX_CARRY_2,
        spec_div_limbs(n_lo, n_hi, d_lo, d_hi).mul_carry[3].0 <= MAX_CARRY_3,
        spec_div_limbs(n_lo, n_hi, d_lo, d_hi).mul_carry[4].0 <= MAX_CARRY_4,
        spec_div_limbs(n_lo, n_hi, d_lo, d_hi).mul_carry[5].0 <= MAX_CARRY_5,
        spec_div_limbs(n_lo, n_hi, d_lo, d_hi).mul_carry[6].0 <= MAX_CARRY_6,
        spec_div_limbs(n_lo, n_hi, d_lo, d_hi).sub_borrow[1] == M31(0),
        spec_div_limbs(n_lo, n_hi, d_lo, d_hi).res[0].0 == (u32_of(n_lo, n_hi) / u32_of(d_lo, d_hi)) % 65536,
        spec_div_limbs(n_lo, n_hi, d_lo, d_hi).res[1].0 == (u32_of(n_lo, n_hi) / u32_of(d_lo, d_hi)) / 65536,
        spec_div_limbs(n_lo, n_hi, d_lo, d_hi).r[0].0 < 65536,
        spec_div_limbs(n_lo, n_hi, d_lo, d_hi).r[1].0 < 65536,
{
    reveal(spec_sub_borrows);
    reveal(spec_div_limbs);
    let w = spec_div_limbs(n_lo, n_hi, d_lo, d_hi);
    let (nl, nh, dl, dh) = (n_lo.0, n_hi.0, d_lo.0, d_hi.0);
    assert(nl | (nh << 16u32) == nl + 65536 * nh) by (bit_vector)
        requires
            nl < 65536,
            nh < 65536,
    ;
    assert(dl | (dh << 16u32) == dl + 65536 * dh) by (bit_vector)
        requires
            dl < 65536,
            dh < 65536,
    ;
    let n = u32_of(n_lo, n_hi);
    let d = u32_of(d_lo, d_hi);
    assert(join_u32(n_lo, n_hi) == n);
    assert(join_u32(d_lo, d_hi) == d);
    let q = n / d;
    let r = n % d;
    vstd::arithmetic::div_mod::lemma_fundamental_div_mod(n, d);
    vstd::arithmetic::div_mod::lemma_div_pos_is_pos(n, d);
    vstd::arithmetic::div_mod::lemma_div_is_ordered_by_denominator(n, 1, d);
    assert(q <= n);
    vstd::arithmetic::div_mod::lemma_fundamental_div_mod(q, 65536);
    vstd::arithmetic::div_mod::lemma_fundamental_div_mod(r, 65536);
    vstd::arithmetic::div_mod::lemma_fundamental_div_mod(q % 65536, 256);
    vstd::arithmetic::div_mod::lemma_fundamental_div_mod(q / 65536, 256);
    vstd::arithmetic::div_mod::lemma_fundamental_div_mod(dl as int, 256);
    vstd::arithmetic::div_mod::lemma_fundamental_div_mod(dh as int, 256);
    assert(w.q[0].0 == (q % 65536) % 256);
    assert(w.q[1].0 == (q % 65536) / 256);
    assert(w.q[2].0 == (q / 65536) % 256);
    assert(w.q[3].0 == (q / 65536) / 256);
    assert(w.d[1].0 == dl / 256);
    assert(w.d[3].0 == dh / 256);
    assert(bytes_value(w.q) == q);
    assert(bytes_value(w.d) == d);
    lemma_product_limbs(w.q, w.d);
    assert forall|x: int| 0 <= x < P implies #[trigger] fmod(x) == x by {
        vstd::arithmetic::div_mod::lemma_small_mod(x as nat, P as nat);
    }
    assert(fmul(w.q[1], two_pow_8()).0 == w.q[1].0 * 256);
    assert(fmul(w.q[3], two_pow_8()).0 == w.q[3].0 * 256);
    assert(w.res[0].0 == q % 65536);
    assert(w.res[1].0 == q / 65536);
    // r < d seen on halves: the borrow of the low half is absorbed by the high half.
    let (d0, d1, d2, d3) = (w.d[0].0, w.d[1].0, w.d[2].0, w.d[3].0);
    assert(d0 | (d1 << 8u32) == d0 + 256 * d1) by (bit_vector)
        requires
            d0 < 256,
            d1 < 256,
    ;
    assert(d2 | (d3 << 8u32) == d2 + 256 * d3) by (bit_vector)
        requires
            d2 < 256,
            d3 < 256,
    ;
    assert(d0 + 256 * d1 == dl);
    assert(d2 + 256 * d3 == dh);
}

/// A zero divisor gives a zero quotient and a zero remainder.
pub proof fn lemma_div_by_zero(n_lo: M31, n_hi: M31, d_lo: M31, d_hi: M31)
    requires
        d_lo.0 == 0,
        d_hi.0 == 0,
    ensures
        spec_div_limbs(n_lo, n_hi, d_lo, d_hi).res == [M31(0), M31(0)],
        spec_div_limbs(n_lo, n_hi, d_lo, d_hi).r == [M31(0), M31(0)],
{
    reveal(spec_div_limbs);
    let z: u32 = 0;
    assert(z | (z << 16u32) == 0) by (bit_vector)
        requires
            z == 0,
    ;
    assert forall|x: int| 0 <= x < P implies #[trigger] fmod(x) == x by {
        vstd::arithmetic::div_mod::lemma_small_mod(x as nat, P as nat);
    }
    let w = spec_div_limbs(n_lo, n_hi, d_lo, d_hi);
    assert(w.res =~= [M31(0), M31(0)]);
    assert(w.r =~= [M31(0), M31(0)]);
}

// ---------------------------------------------------------------------------
// The trace and its constraints.

/// The values a row of the trace is written from: the registers and clocks
/// of the step, the instruction's fields, the numerator and the previous
/// state of the destination.
#[derive(Clone, Copy, Debug, PartialEq, Eq)]
pub struct RowInput {
    /// Program counter.
    pub pc: M31,
    /// Frame pointer.
    pub fp: M31,
    /// Clock of the step.
    pub clock: M31,
    /// Clock of the previous access to the instruction.
    pub inst_prev_clock: M31,
    /// Offset of the numerator from `fp`.
    pub src_off: M31,
    /// Low half of the divisor immediate.
    pub imm_lo: M31,
    /// High half of the divisor immediate.
    pub imm_hi: M31,
    /// Offset of the destination from `fp`.
    pub dst_off: M31,
    /// Low half of the numerator.
    pub n_lo: M31,
    /// High half of the numerator.
    pub n_hi: M31,
    /// Clock of the previous access to the numerator's low half.
    pub op0_prev_clock_lo: M31,
    /// Clock of the previous access to the numerator's high half.
    pub op0_prev_clock_hi: M31,
    /// Previous value of the destination's low half.
    pub dst_prev_val_lo: M31,
    /// Previous value of the destination's high half.
    pub dst_prev_val_hi: M31,
    /// Clock of the previous access to the destination's low half.
    pub dst_prev_clock_lo: M31,
    /// Clock of the previous access to the destination's high half.
    pub dst_prev_clock_hi: M31,
}

/// The input of a padding row: all zeros.
pub open spec fn zero_input() -> RowInput {
    RowInput {
        pc: M31(0),
        fp: M31(0),
        clock: M31(0),
        inst_prev_clock: M31(0),
        src_off: M31(0),
        imm_lo: M31(0),
        imm_hi: M31(0),
        dst_off: M31(0),
        n_lo: M31(0),
        n_hi: M31(0),
        op0_prev_clock_lo: M31(0),
        op0_prev_clock_hi: M31(0),
        dst_prev_val_lo: M31(0),
        dst_prev_val_hi: M31(0),
        dst_prev_clock_lo: M31(0),
        dst_prev_clock_hi: M31(0),
    }
}

/// A division the row can prove: 16-bit halves and a nonzero divisor.
pub open spec fn row_input_ok(i: RowInput) -> bool {
    &&& i.n_lo.0 < 65536 && i.n_hi.0 < 65536
    &&& i.imm_lo.0 < 65536 && i.imm_hi.0 < 65536
    &&& u32_of(i.imm_lo, i.imm_hi) != 0
}

/// The trace row written for `i` with the given enabler, column by column.
pub open spec fn spec_trace_row(enabler: M31, i: RowInput) -> Seq<M31> {
    let w = spec_div_limbs(i.n_lo, i.n_hi, i.imm_lo, i.imm_hi);
    seq![
        enabler, i.pc, i.fp, i.clock, i.inst_prev_clock, i.src_off,
        w.d[0], w.d[1], w.d[2], w.d[3], i.dst_off, i.n_lo, i.n_hi,
        i.op0_prev_clock_lo, i.op0_prev_clock_hi, i.dst_prev_val_lo, i.dst_prev_val_hi,
        i.dst_prev_clock_lo, i.dst_prev_clock_hi,
        w.q[0], w.q[1], w.q[2], w.q[3],
        w.mul_carry[0], w.mul_carry[1], w.mul_carry[2], w.mul_carry[3], w.mul_carry[4],
        w.mul_carry[5], w.mul_carry[6],
        w.prod[0], w.prod[1], w.prod[2], w.prod[3], w.prod[4], w.prod[5], w.prod[6], w.prod[7],
        w.add_carry[0], w.add_carry[1], w.add_carry[2], w.add_carry[3],
        w.sub_borrow[0], w.sub_borrow[1], w.r[0], w.r[1]
    ]
}

/// Writes the trace row for `input` with the given enabler.
pub fn trace_row(enabler: M31, input: &RowInput) -> (r: [M31; 46])
    ensures
        r@ == spec_trace_row(enabler, *input),
{
    let w = div_limbs(input.n_lo, input.n_hi, input.imm_lo, input.imm_hi);
    row_of_limbs(enabler, input, &w)
}

/// The trace row for `input` from its division limbs `w`.
fn row_of_limbs(enabler: M31, input: &RowInput, w: &DivLimbs) -> (r: [M31; 46])
    requires
        *w == spec_div_limbs(input.n_lo, input.n_hi, input.imm_lo, input.imm_hi),
    ensures
        r@ == spec_trace_row(enabler, *input),
{
    let r = [
        enabler, input.pc, input.fp, input.clock, input.inst_prev_clock, input.src_off,
        w.d[0], w.d[1], w.d[2], w.d[3], input.dst_off, input.n_lo, input.n_hi,
        input.op0_prev_clock_lo, input.op0_prev_clock_hi, input.dst_prev_val_lo, input.dst_prev_val_hi,
        input.dst_prev_clock_lo, input.dst_prev_clock_hi,
        w.q[0], w.q[1], w.q[2], w.q[3],
        w.mul_carry[0], w.mul_carry[1], w.mul_carry[2], w.mul_carry[3], w.mul_carry[4],
        w.mul_carry[5], w.mul_carry[6],
        w.prod[0], w.prod[1], w.prod[2], w.prod[3], w.prod[4], w.prod[5], w.prod[6], w.prod[7],
        w.add_carry[0], w.add_carry[1], w.add_carry[2], w.add_carry[3],
        w.sub_borrow[0], w.sub_borrow[1], w.r[0], w.r[1],
    ];
    assert(r@ =~= spec_trace_row(enabler, *input));
    r
}

// ---------------------------------------------------------------------------
// The lookups of a row.

/// What one row adds to the relations: the register update, the twelve
/// memory accesses (each `[address, clock, value, 0, 0, 0]` but for the first
/// instruction word), and the values range-checked on 8, 16 and 20 bits.
#[derive(Clone, Copy, Debug, PartialEq, Eq)]
pub struct RowLookups {
    /// `[pc, fp]` before and after the step.
    pub registers: [[M31; 2]; 2],
    /// Each access as its previous state then its new state.
    pub memory: [[M31; 6]; 12],
    /// The bytes of `d`, `q` and `q * d`.
    pub range_check_8: [M31; 16],
    /// The halves of `n` and `r`, the carry slacks and the halves of `d - r - 1`.
    pub range_check_16: [M31; 13],
    /// The clock gap of each access.
    pub range_check_20: [M31; 5],
}

/// The register lookups of a row: `[pc, fp]` then `[pc + 2, fp]`.
pub open spec fn spec_registers_lookups(i: RowInput) -> Seq<Seq<M31>> {
    seq![seq![i.pc, i.fp], seq![fadd(fadd(i.pc, M31(1)), M31(1)), i.fp]]
}

/// An access `[address, clock, value]` of one limb, padded to six values.
pub open spec fn limb_access(address: M31, clock: M31, value: M31) -> Seq<M31> {
    seq![address, clock, value, M31(0), M31(0), M31(0)]
}

/// The memory lookups of a row: the two instruction words (the first one
/// holding the opcode), the two halves of `n` read, and the two halves of the
/// destination written with the halves of the quotient; each access first
/// with its previous clock and value, then with the row's clock and new value.
pub open spec fn spec_memory_lookups(opcode: M31, i: RowInput) -> Seq<Seq<M31>> {
    let w = spec_div_limbs(i.n_lo, i.n_hi, i.imm_lo, i.imm_hi);
    let pc1 = fadd(i.pc, M31(1));
    let src = fadd(i.fp, i.src_off);
    let src1 = fadd(src, M31(1));
    let dst = fadd(i.fp, i.dst_off);
    let dst1 = fadd(dst, M31(1));
    seq![
        seq![i.pc, i.inst_prev_clock, opcode, i.src_off, i.imm_lo, i.imm_hi],
        seq![i.pc, i.clock, opcode, i.src_off, i.imm_lo, i.imm_hi],
        limb_access(pc1, i.inst_prev_clock, i.dst_off),
        limb_access(pc1, i.clock, i.dst_off),
        limb_access(src, i.op0_prev_clock_lo, i.n_lo),
        limb_access(src, i.clock, i.n_lo),
        limb_access(src1, i.op0_prev_clock_hi, i.n_hi),
        limb_access(src1, i.clock, i.n_hi),
        limb_access(dst, i.dst_prev_clock_lo, i.dst_prev_val_lo),
        limb_access(dst, i.clock, w.res[0]),
        limb_access(dst1, i.dst_prev_clock_hi, i.dst_prev_val_hi),
        limb_access(dst1, i.clock, w.res[1])
    ]
}

/// The 8-bit range checks of a row: the bytes of `d`, of `q` and of `q * d`.
pub open spec fn spec_range_check_8(i: RowInput) -> Seq<M31> {
    let w = spec_div_limbs(i.n_lo, i.n_hi, i.imm_lo, i.imm_hi);
    seq![
        w.d[0], w.d[1], w.d[2], w.d[3], w.q[0], w.q[1], w.q[2], w.q[3],
        w.prod[0], w.prod[1], w.prod[2], w.prod[3], w.prod[4], w.prod[5], w.prod[6], w.prod[7]
    ]
}

/// The 16-bit range checks of a row: the halves of `n` and `r`, each carry
/// of `q * d` taken from its bound (`MAX_CARRY_k - mul_carry_k`), and the two
/// halves of `d - r - 1` with their borrows.
pub open spec fn spec_range_check_16(i: RowInput) -> Seq<M31> {
    let w = spec_div_limbs(i.n_lo, i.n_hi, i.imm_lo, i.imm_hi);
    let b8 = two_pow_8();
    let b16 = M31(65536);
    seq![
        i.n_lo, i.n_hi, w.r[0], w.r[1],
        fsub(M31(MAX_CARRY_0), w.mul_carry[0]), fsub(M31(MAX_CARRY_1), w.mul_carry[1]),
        fsub(M31(MAX_CARRY_2), w.mul_carry[2]), fsub(M31(MAX_CARRY_3), w.mul_carry[3]),
        fsub(M31(MAX_CARRY_4), w.mul_carry[4]), fsub(M31(MAX_CARRY_5), w.mul_carry[5]),
        fsub(M31(MAX_CARRY_6), w.mul_carry[6]),
        fsub(fsub(fadd(fadd(w.d[0], fmul(w.d[1], b8)), fmul(w.sub_borrow[0], b16)), w.r[0]), M31(1)),
        fsub(fsub(fadd(fadd(w.d[2], fmul(w.d[3], b8)), fmul(w.sub_borrow[1], b16)), w.r[1]), w.sub_borrow[0])
    ]
}

/// The 20-bit range checks of a row: the gap between the row's clock and the
/// previous clock of each access, less the enabler.
pub open spec fn spec_range_check_20(enabler: M31, i: RowInput) -> Seq<M31> {
    seq![
        fsub(fsub(i.clock, i.inst_prev_clock), enabler),
        fsub(fsub(i.clock, i.op0_prev_clock_lo), enabler),
        fsub(fsub(i.clock, i.op0_prev_clock_hi), enabler),
        fsub(fsub(i.clock, i.dst_prev_clock_lo), enabler),
        fsub(fsub(i.clock, i.dst_prev_clock_hi), enabler)
    ]
}

/// `l` holds the lookups of the row written for `i` with the given enabler,
/// the first instruction word holding `opcode`.
pub open spec fn is_row_lookups(l: RowLookups, enabler: M31, opcode: M31, i: RowInput) -> bool {
    &&& l.registers@.map_values(|e: [M31; 2]| e@) == spec_registers_lookups(i)
    &&& l.memory@.map_values(|e: [M31; 6]| e@) == spec_memory_lookups(opcode, i)
    &&& l.range_check_8@ == spec_range_check_8(i)
    &&& l.range_check_16@ == spec_range_check_16(i)
    &&& l.range_check_20@ == spec_range_check_20(enabler, i)
}

/// One limb access, padded to six values.
fn limb_access_row(address: M31, clock: M31, value: M31) -> (r: [M31; 6])
    ensures
        r@ == limb_access(address, clock, value),
{
    let z = M31(0);
    let r = [address, clock, value, z, z, z];
    assert(r@ =~= limb_access(address, clock, value));
    r
}

/// The lookups of the row for `input` from its division limbs `w`.
#[verifier::rlimit(40)]
fn lookups_of_limbs(enabler: M31, opcode: M31, input: &RowInput, w: &DivLimbs) -> (l: RowLookups)
    requires
        *w == spec_div_limbs(input.n_lo, input.n_hi, input.imm_lo, input.imm_hi),
    ensures
        is_row_lookups(l, enabler, opcode, *input),
{
    let one = M31(1);
    let b8 = M31(256);
    let b16 = M31(65536);
    let pc1 = input.pc.add(one);
    let src = input.fp.add(input.src_off);
    let src1 = src.add(one);
    let dst = input.fp.add(input.dst_off);
    let dst1 = dst.add(one);
    let registers = [[input.pc, input.fp], [pc1.add(one), input.fp]];
    let memory = [
        [input.pc, input.inst_prev_clock, opcode, input.src_off, input.imm_lo, input.imm_hi],
        [input.pc, input.clock, opcode, input.src_off, input.imm_lo, input.imm_hi],
        limb_access_row(pc1, input.inst_prev_clock, input.dst_off),
        limb_access_row(pc1, input.clock, input.dst_off),
        limb_access_row(src, input.op0_prev_clock_lo, input.n_lo),
        limb_access_row(src, input.clock, input.n_lo),
        limb_access_row(src1, input.op0_prev_clock_hi, input.n_hi),
        limb_access_row(src1, input.clock, input.n_hi),
        limb_access_row(dst, input.dst_prev_clock_lo, input.dst_prev_val_lo),
        limb_access_row(dst, input.clock, w.res[0]),
        limb_access_row(dst1, input.dst_prev_clock_hi, input.dst_prev_val_hi),
        limb_access_row(dst1, input.clock, w.res[1]),
    ];
    let range_check_8 = [
        w.d[0], w.d[1], w.d[2], w.d[3], w.q[0], w.q[1], w.q[2], w.q[3],
        w.prod[0], w.prod[1], w.prod[2], w.prod[3], w.prod[4], w.prod[5], w.prod[6], w.prod[7],
    ];
    let sub_check_lo = w.d[0].add(w.d[1].mul(b8)).add(w.sub_borrow[0].mul(b16)).sub(w.r[0]).sub(one);
    let sub_check_hi = w.d[2].add(w.d[3].mul(b8)).add(w.sub_borrow[1].mul(b16)).sub(w.r[1]).sub(
        w.sub_borrow[0],
    );
    let range_check_16 = [
        input.n_lo, input.n_hi, w.r[0], w.r[1],
        M31(MAX_CARRY_0).sub(w.mul_carry[0]), M31(MAX_CARRY_1).sub(w.mul_carry[1]),
        M31(MAX_CARRY_2).sub(w.mul_carry[2]), M31(MAX_CARRY_3).sub(w.mul_carry[3]),
        M31(MAX_CARRY_4).sub(w.mul_carry[4]), M31(MAX_CARRY_5).sub(w.mul_carry[5]),
        M31(MAX_CARRY_6).sub(w.mul_carry[6]), sub_check_lo, sub_check_hi,
    ];
    let range_check_20 = [
        input.clock.sub(input.inst_prev_clock).sub(enabler),
        input.clock.sub(input.op0_prev_clock_lo).sub(enabler),
        input.clock.sub(input.op0_prev_clock_hi).sub(enabler),
        input.clock.sub(input.dst_prev_clock_lo).sub(enabler),
        input.clock.sub(input.dst_prev_clock_hi).sub(enabler),
    ];
    let l = RowLookups { registers, memory, range_check_8, range_check_16, range_check_20 };
    assert(l.registers@.map_values(|e: [M31; 2]| e@) =~= spec_registers_lookups(*input));
    assert(l.memory@.map_values(|e: [M31; 6]| e@) =~= spec_memory_lookups(opcode, *input));
    assert(l.range_check_8@ =~= spec_range_check_8(*input));
    assert(l.range_check_16@ =~= spec_range_check_16(*input));
    assert(l.range_check_20@ =~= spec_range_check_20(enabler, *input));
    l
}

/// Writes the lookups of the row for `input` with the given enabler.
pub fn row_lookups(enabler: M31, opcode: M31, input: &RowInput) -> (l: RowLookups)
    ensures
        is_row_lookups(l, enabler, opcode, *input),
{
    let w = div_limbs(input.n_lo, input.n_hi, input.imm_lo, input.imm_hi);
    lookups_of_limbs(enabler, opcode, input, &w)
}

/// Booleanity of `b`, gated by the enabler `e`: `e * b * (1 - b)`.
pub open spec fn boolean_gate(e: M31, b: M31) -> M31 {
    fmul(fmul(e, b), fsub(M31(1), b))
}

/// The column equations of `q * d` on a row, before gating: column `k`'s
/// sum of `q_i * d_j` plus the incoming carry, minus the outgoing carry
/// times `2^8`, minus the product byte; and the last carry minus the top byte.
#[verifier::opaque]
pub open spec fn product_checks(q: [M31; 4], d: [M31; 4], mc: [M31; 7], p: [M31; 8]) -> Seq<M31> {
    let b8 = two_pow_8();
    let (d0, d1, d2, d3) = (d[0], d[1], d[2], d[3]);
    let (q0, q1, q2, q3) = (q[0], q[1], q[2], q[3]);
    let (mc0, mc1, mc2, mc3, mc4, mc5, mc6) = (mc[0], mc[1], mc[2], mc[3], mc[4], mc[5], mc[6]);
    let (p0, p1, p2, p3, p4, p5, p6, p7) = (p[0], p[1], p[2], p[3], p[4], p[5], p[6], p[7]);
    seq![
        fsub(fsub(fmul(q0, d0), fmul(mc0, b8)), p0),
        fsub(fsub(fadd(fadd(fmul(q0, d1), fmul(q1, d0)), mc0), fmul(mc1, b8)), p1),
        fsub(fsub(fadd(fadd(fadd(fmul(q0, d2), fmul(q2, d0)), fmul(q1, d1)), mc1), fmul(mc2, b8)), p2),
        fsub(
            fsub(fadd(fadd(fadd(fadd(fmul(q0, d3), fmul(q3, d0)), fmul(q1, d2)), fmul(q2, d1)), mc2), fmul(mc3, b8)),
            p3,
        ),
        fsub(fsub(fadd(fadd(fadd(fmul(q1, d3), fmul(q3, d1)), fmul(q2, d2)), mc3), fmul(mc4, b8)), p4),
        fsub(fsub(fadd(fadd(fmul(q2, d3), fmul(q3, d2)), mc4), fmul(mc5, b8)), p5),
        fsub(fsub(fadd(fmul(q3, d3), mc5), fmul(mc6, b8)), p6),
        fsub(mc6, p7)
    ]
}

/// The equations of `n = prod + r` on 16-bit halves, before gating: each
/// half of `n` (zero above 32 bits) minus the half of `prod + r` with the
/// incoming carry, plus the outgoing carry times `2^16`.
#[verifier::opaque]
pub open spec fn sum_checks(n_lo: M31, n_hi: M31, p: [M31; 8], ac: [M31; 4], r_lo: M31, r_hi: M31) -> Seq<M31> {
    let b8 = two_pow_8();
    let b16 = M31(65536);
    let (p0, p1, p2, p3, p4, p5, p6, p7) = (p[0], p[1], p[2], p[3], p[4], p[5], p[6], p[7]);
    let (ac0, ac1, ac2, ac3) = (ac[0], ac[1], ac[2], ac[3]);
    seq![
        fsub(n_lo, fsub(fadd(fadd(p0, fmul(p1, b8)), r_lo), fmul(ac0, b16))),
        fsub(n_hi, fsub(fadd(fadd(fadd(p2, fmul(p3, b8)), r_hi), ac0), fmul(ac1, b16))),
        fsub(fadd(fadd(p4, fmul(p5, b8)), ac1), fmul(ac2, b16)),
        fsub(fadd(fadd(p6, fmul(p7, b8)), ac2), fmul(ac3, b16))
    ]
}

/// The quotient bytes of a row.
pub open spec fn row_q(row: Seq<M31>) -> [M31; 4] {
    [row[19], row[20], row[21], row[22]]
}

/// The divisor bytes of a row.
pub open spec fn row_d(row: Seq<M31>) -> [M31; 4] {
    [row[6], row[7], row[8], row[9]]
}

/// The multiplication carries of a row.
pub open spec fn row_mul_carry(row: Seq<M31>) -> [M31; 7] {
    [row[23], row[24], row[25], row[26], row[27], row[28], row[29]]
}

/// The product bytes of a row.
pub open spec fn row_prod(row: Seq<M31>) -> [M31; 8] {
    [row[30], row[31], row[32], row[33], row[34], row[35], row[36], row[37]]
}

/// The addition carries of a row.
pub open spec fn row_add_carry(row: Seq<M31>) -> [M31; 4] {
    [row[38], row[39], row[40], row[41]]
}

/// The polynomial constraints of a row, each of which must vanish: the
/// enabler, the addition carries and the first borrow are booleans; gated by
/// the enabler, the [`product_checks`], the [`sum_checks`], no carry out of
/// `prod + r` and no final borrow of `d - r - 1`.
pub open spec fn spec_constraints(row: Seq<M31>) -> Seq<M31> {
    let e = row[0];
    let pc = product_checks(row_q(row), row_d(row), row_mul_carry(row), row_prod(row));
    let sc = sum_checks(row[11], row[12], row_prod(row), row_add_carry(row), row[44], row[45]);
    seq![
        fmul(e, fsub(M31(1), e)),
        boolean_gate(e, row[38]),
        boolean_gate(e, row[39]),
        boolean_gate(e, row[40]),
        boolean_gate(e, row[42]),
        fmul(e, pc[0]), fmul(e, pc[1]), fmul(e, pc[2]), fmul(e, pc[3]),
        fmul(e, pc[4]), fmul(e, pc[5]), fmul(e, pc[6]), fmul(e, pc[7]),
        fmul(e, sc[0]), fmul(e, sc[1]), fmul(e, sc[2]), fmul(e, sc[3]),
        fmul(e, row[41]),
        fmul(e, row[43])
    ]
}

/// Booleanity of `b` gated by `e`.
fn gate(e: M31, b: M31) -> (r: M31)
    ensures
        r == boolean_gate(e, b),
{
    e.mul(b).mul(M31::one().sub(b))
}

/// The [`product_checks`] of a row.
fn eval_product_checks(row: &[M31; 46]) -> (r: [M31; 8])
    ensures
        r@ == product_checks(row_q(row@), row_d(row@), row_mul_carry(row@), row_prod(row@)),
{
    reveal(product_checks);
    let b8 = M31(256);
    let (d0, d1, d2, d3) = (row[6], row[7], row[8], row[9]);
    let (q0, q1, q2, q3) = (row[19], row[20], row[21], row[22]);
    let (mc0, mc1, mc2, mc3) = (row[23], row[24], row[25], row[26]);
    let (mc4, mc5, mc6) = (row[27], row[28], row[29]);
    let (p0, p1, p2, p3) = (row[30], row[31], row[32], row[33]);
    let (p4, p5, p6, p7) = (row[34], row[35], row[36], row[37]);
    let c0 = q0.mul(d0).sub(mc0.mul(b8)).sub(p0);
    let c1 = q0.mul(d1).add(q1.mul(d0)).add(mc0).sub(mc1.mul(b8)).sub(p1);
    let c2 = q0.mul(d2).add(q2.mul(d0)).add(q1.mul(d1)).add(mc1).sub(mc2.mul(b8)).sub(p2);
    let c3 = q0.mul(d3).add(q3.mul(d0)).add(q1.mul(d2)).add(q2.mul(d1)).add(mc2).sub(mc3.mul(b8)).sub(p3);
    let c4 = q1.mul(d3).add(q3.mul(d1)).add(q2.mul(d2)).add(mc3).sub(mc4.mul(b8)).sub(p4);
    let c5 = q2.mul(d3).add(q3.mul(d2)).add(mc4).sub(mc5.mul(b8)).sub(p5);
    let c6 = q3.mul(d3).add(mc5).sub(mc6.mul(b8)).sub(p6);
    let c7 = mc6.sub(p7);
    let r = [c0, c1, c2, c3, c4, c5, c6, c7];
    assert(r@ =~= product_checks(row_q(row@), row_d(row@), row_mul_carry(row@), row_prod(row@)));
    r
}

/// The [`sum_checks`] of a row.
fn eval_sum_checks(row: &[M31; 46]) -> (r: [M31; 4])
    ensures
        r@ == sum_checks(row@[11], row@[12], row_prod(row@), row_add_carry(row@), row@[44], row@[45]),
{
    reveal(sum_checks);
    let b8 = M31(256);
    let b16 = M31(65536);
    let (n_lo, n_hi) = (row[11], row[12]);
    let (p0, p1, p2, p3) = (row[30], row[31], row[32], row[33]);
    let (p4, p5, p6, p7) = (row[34], row[35], row[36], row[37]);
    let (ac0, ac1, ac2, ac3) = (row[38], row[39], row[40], row[41]);
    let (r_lo, r_hi) = (row[44], row[45]);
    let c0 = n_lo.sub(p0.add(p1.mul(b8)).add(r_lo).sub(ac0.mul(b16)));
    let c1 = n_hi.sub(p2.add(p3.mul(b8)).add(r_hi).add(ac0).sub(ac1.mul(b16)));
    let c2 = p4.add(p5.mul(b8)).add(ac1).sub(ac2.mul(b16));
    let c3 = p6.add(p7.mul(b8)).add(ac2).sub(ac3.mul(b16));
    let r = [c0, c1, c2, c3];
    assert(r@ =~= sum_checks(row@[11], row@[12], row_prod(row@), row_add_carry(row@), row@[44], row@[45]));
    r
}

impl Eval {
    /// Evaluates the polynomial constraints of the component on one row of
    /// its trace, in the order [`spec_constraints`] lists them.
    pub fn evaluate(&self, row: &[M31; 46]) -> (r: Vec<M31>)
        ensures
            r@ == spec_constraints(row@),
    {
        let e = row[0];
        let pc = eval_product_checks(row);
        let sc = eval_sum_checks(row);
        let c = vec![
            e.mul(M31::one().sub(e)),
            gate(e, row[38]),
            gate(e, row[39]),
            gate(e, row[40]),
            gate(e, row[42]),
            e.mul(pc[0]), e.mul(pc[1]), e.mul(pc[2]), e.mul(pc[3]),
            e.mul(pc[4]), e.mul(pc[5]), e.mul(pc[6]), e.mul(pc[7]),
            e.mul(sc[0]), e.mul(sc[1]), e.mul(sc[2]), e.mul(sc[3]),
            e.mul(row[41]),
            e.mul(row[43]),
        ];
        assert(c@ =~= spec_constraints(row@));
        c
    }
}


/// How the parts of a division row hang together, whatever the input: the
/// product bytes and carries are those of `q * d`, the addition carries those
/// of `prod + r`, the borrows those of `d - r - 1`, and the remainder's
/// halves are 16-bit.
pub proof fn lemma_div_limbs_shape(n_lo: M31, n_hi: M31, d_lo: M31, d_hi: M31)
    ensures
        ({
            let w = spec_div_limbs(n_lo, n_hi, d_lo, d_hi);
            &&& (w.prod, w.mul_carry) == spec_product(w.q, w.d)
            &&& w.add_carry == spec_add_carries(w.prod, w.r[0], w.r[1])
            &&& w.sub_borrow == spec_sub_borrows(w.d, w.r[0], w.r[1])
            &&& w.r[0].0 < 65536 && w.r[1].0 < 65536
        }),
{
    reveal(spec_div_limbs);
}

/// Each column of `q * d` as [`spec_product`] splits it: the column sum,
/// less the outgoing carry times `2^8`, is the product byte.
#[verifier::spinoff_prover]
#[verifier::rlimit(50)]
proof fn lemma_product_columns(q: [M31; 4], d: [M31; 4])
    ensures
        product_checks(q, d, spec_product(q, d).1, spec_product(q, d).0) == Seq::new(8, |_k: int| M31(0)),
{
    reveal(spec_product);
    reveal(product_checks);
    assert forall|x: M31| #[trigger] fsub(x, x) == M31(0) by {
        assert(fmod(x.0 - x.0) == 0);
    }
    assert(product_checks(q, d, spec_product(q, d).1, spec_product(q, d).0) =~= Seq::new(8, |_k: int| M31(0)));
}

/// The column equations of `q * d` hold on every written row, whatever its
/// input: the row's product bytes and carries are those of its own column sums.
pub proof fn lemma_product_checks_vanish(enabler: M31, input: RowInput)
    ensures
        ({
            let row = spec_trace_row(enabler, input);
            product_checks(row_q(row), row_d(row), row_mul_carry(row), row_prod(row)) == Seq::new(
                8,
                |_k: int| M31(0),
            )
        }),
{
    let w = spec_div_limbs(input.n_lo, input.n_hi, input.imm_lo, input.imm_hi);
    lemma_div_limbs_shape(input.n_lo, input.n_hi, input.imm_lo, input.imm_hi);
    lemma_product_columns(w.q, w.d);
    let row = spec_trace_row(enabler, input);
    assert(row_q(row) =~= w.q);
    assert(row_d(row) =~= w.d);
    assert(row_mul_carry(row) =~= w.mul_carry);
    assert(row_prod(row) =~= w.prod);
}

/// The carries and borrows written on a row are booleans, whatever its input.
pub proof fn lemma_row_booleans(enabler: M31, input: RowInput)
    ensures
        ({
            let row = spec_trace_row(enabler, input);
            &&& row[38] == M31(0) || row[38] == M31(1)
            &&& row[39] == M31(0) || row[39] == M31(1)
            &&& row[40] == M31(0) || row[40] == M31(1)
            &&& row[41] == M31(0) || row[41] == M31(1)
            &&& row[42] == M31(0) || row[42] == M31(1)
            &&& row[43] == M31(0) || row[43] == M31(1)
        }),
{
    reveal(spec_add_carries);
    reveal(spec_sub_borrows);
    lemma_div_limbs_shape(input.n_lo, input.n_hi, input.imm_lo, input.imm_hi);
}

/// `n = prod + r` holds on 16-bit halves of the row written for a division
/// the component can prove, with no carry out of 32 bits and no final borrow
/// of `d - r - 1`.
pub proof fn lemma_sum_checks_vanish(input: RowInput)
    requires
        row_input_ok(input),
    ensures
        ({
            let row = spec_trace_row(M31(1), input);
            sum_checks(row[11], row[12], row_prod(row), row_add_carry(row), row[44], row[45]) == Seq::new(
                4,
                |_k: int| M31(0),
            )
        }),
        spec_trace_row(M31(1), input)[41] == M31(0),
        spec_trace_row(M31(1), input)[43] == M31(0),
{
    reveal(sum_checks);
    reveal(spec_add_carries);
    let row = spec_trace_row(M31(1), input);
    let w = spec_div_limbs(input.n_lo, input.n_hi, input.imm_lo, input.imm_hi);
    lemma_div_limbs_correct(input.n_lo, input.n_hi, input.imm_lo, input.imm_hi);
    lemma_div_limbs_shape(input.n_lo, input.n_hi, input.imm_lo, input.imm_hi);
    assert forall|x: int| 0 <= x < P implies #[trigger] fmod(x) == x by {
        vstd::arithmetic::div_mod::lemma_small_mod(x as nat, P as nat);
    }
    let n = u32_of(input.n_lo, input.n_hi);
    let dd = u32_of(input.imm_lo, input.imm_hi);
    let q = n / dd;
    vstd::arithmetic::div_mod::lemma_fundamental_div_mod(n, dd);
    assert(dd * q == q * dd) by (nonlinear_arith);
    let (p0, p1, p2, p3) = (w.prod[0].0 as int, w.prod[1].0 as int, w.prod[2].0 as int, w.prod[3].0 as int);
    let (p4, p5, p6, p7) = (w.prod[4].0 as int, w.prod[5].0 as int, w.prod[6].0 as int, w.prod[7].0 as int);
    let high = p4 + 256 * p5 + 65536 * p6 + 16777216 * p7;
    assert(high == 0) by {
        assert(bytes8_value(w.prod) == p0 + 256 * p1 + 65536 * p2 + 16777216 * p3 + 0x1_0000_0000 * high);
        if high > 0 {
            assert(0x1_0000_0000 * high >= 0x1_0000_0000) by (nonlinear_arith)
                requires
                    high > 0,
            ;
        }
    }
    assert(w.prod[4] == M31(0) && w.prod[5] == M31(0) && w.prod[6] == M31(0) && w.prod[7] == M31(0));
    let r_lo = w.r[0].0 as int;
    let r_hi = w.r[1].0 as int;
    let a = p0 + 256 * p1;
    let b = p2 + 256 * p3;
    let s0 = a + r_lo;
    assert(input.n_lo.0 + 65536 * input.n_hi.0 == s0 + 65536 * (b + r_hi));
    let b8 = two_pow_8();
    let b16 = M31(65536);
    assert(fmul(w.prod[1], b8).0 == 256 * p1);
    assert(fadd(fadd(w.prod[0], fmul(w.prod[1], b8)), w.r[0]).0 == s0);
    let ac0 = w.add_carry[0].0 as int;
    assert(ac0 == if s0 > 0xffff { 1int } else { 0int });
    assert(input.n_lo.0 == s0 - 65536 * ac0);
    assert(input.n_hi.0 == b + r_hi + ac0);
    assert(fmul(w.add_carry[0], b16).0 == 65536 * ac0);
    assert(fmul(w.prod[3], b8).0 == 256 * p3);
    assert(fadd(fadd(fadd(w.prod[2], fmul(w.prod[3], b8)), w.r[1]), w.add_carry[0]).0 == b + r_hi + ac0);
    assert(w.add_carry[1] == M31(0));
    assert(fmul(w.add_carry[1], b16) == M31(0));
    assert(fmul(M31(0), b8) == M31(0));
    assert(w.add_carry[2] == M31(0));
    assert(w.add_carry[3] == M31(0));
    assert(row_prod(row) =~= w.prod);
    assert(row_add_carry(row) =~= w.add_carry);
    assert(sum_checks(input.n_lo, input.n_hi, w.prod, w.add_carry, w.r[0], w.r[1]) =~= Seq::new(
        4,
        |_k: int| M31(0),
    ));
}

/// Every polynomial constraint vanishes on the row written for a division
/// the component can prove, and on a padding row (enabler zero).
///
/// A zero divisor is left out: its row keeps a final borrow in `d - r - 1`
/// (no remainder is below zero), so the last constraint fails on it.
pub proof fn lemma_row_satisfies_constraints(enabler: M31, input: RowInput)
    requires
        enabler == M31(0) || (enabler == M31(1) && row_input_ok(input)),
    ensures
        spec_constraints(spec_trace_row(enabler, input)) == Seq::new(19, |_k: int| M31(0)),
{
    let row = spec_trace_row(enabler, input);
    assert(row[0] == enabler);
    assert(fmod(0) == 0);
    assert forall|x: M31| #[trigger] fmul(M31(0), x) == M31(0) by {
        assert(0 * x.0 == 0);
    }
    assert forall|x: M31| #[trigger] fmul(x, M31(0)) == M31(0) by {
        assert(x.0 * 0 == 0);
    }
    lemma_product_checks_vanish(enabler, input);
    lemma_row_booleans(enabler, input);
    let pc = product_checks(row_q(row), row_d(row), row_mul_carry(row), row_prod(row));
    assert(pc[0] == M31(0) && pc[1] == M31(0) && pc[2] == M31(0) && pc[3] == M31(0));
    assert(pc[4] == M31(0) && pc[5] == M31(0) && pc[6] == M31(0) && pc[7] == M31(0));
    if enabler == M31(1) {
        lemma_sum_checks_vanish(input);
        let sc = sum_checks(row[11], row[12], row_prod(row), row_add_carry(row), row[44], row[45]);
        assert(sc[0] == M31(0) && sc[1] == M31(0) && sc[2] == M31(0) && sc[3] == M31(0));
        assert(fsub(M31(1), M31(1)) == M31(0));
        assert(fmul(M31(1), M31(1)) == M31(1));
    }
    assert(spec_constraints(row) =~= Seq::new(19, |_k: int| M31(0)));
}


/// The trace written for `inputs` at `log_size`: an enabled row per input,
/// then disabled rows of zeros up to `2^log_size` rows.
pub open spec fn spec_trace(inputs: Seq<RowInput>, log_size: u32) -> Seq<Seq<M31>> {
    Seq::new(
        rows_of(log_size as nat),
        |i: int|
            if i < inputs.len() {
                spec_trace_row(M31(1), inputs[i])
            } else {
                spec_trace_row(M31(0), zero_input())
            },
    )
}

/// On a division the component can prove, the row's lookups are those of
/// the division: the destination is written the two halves of `n / d`, every
/// value range-checked on 8 bits is below `2^8` and every value range-checked
/// on 16 bits is below `2^16`.
#[verifier::rlimit(40)]
pub proof fn lemma_row_lookups_in_range(opcode: M31, input: RowInput)
    requires
        row_input_ok(input),
    ensures
        spec_memory_lookups(opcode, input)[9][2].0 == (u32_of(input.n_lo, input.n_hi) / u32_of(
            input.imm_lo,
            input.imm_hi,
        )) % 65536,
        spec_memory_lookups(opcode, input)[11][2].0 == (u32_of(input.n_lo, input.n_hi) / u32_of(
            input.imm_lo,
            input.imm_hi,
        )) / 65536,
        forall|k: int| 0 <= k < 16 ==> (#[trigger] spec_range_check_8(input)[k]).0 < 256,
        forall|k: int| 0 <= k < 13 ==> (#[trigger] spec_range_check_16(input)[k]).0 < 65536,
{
    lemma_div_limbs_correct(input.n_lo, input.n_hi, input.imm_lo, input.imm_hi);
    let w = spec_div_limbs(input.n_lo, input.n_hi, input.imm_lo, input.imm_hi);
    assert forall|x: int| 0 <= x < P implies #[trigger] fmod(x) == x by {
        vstd::arithmetic::div_mod::lemma_small_mod(x as nat, P as nat);
    }
    let rc8 = spec_range_check_8(input);
    assert forall|k: int| 0 <= k < 16 implies (#[trigger] rc8[k]).0 < 256 by {}
    let rc16 = spec_range_check_16(input);
    // The divisor's halves from its bytes, and the borrows of `d - r - 1`.
    reveal(spec_div_limbs);
    reveal(spec_sub_borrows);
    let (d0, d1, d2, d3) = (w.d[0].0, w.d[1].0, w.d[2].0, w.d[3].0);
    assert(d0 | (d1 << 8u32) == d0 + 256 * d1 && d2 | (d3 << 8u32) == d2 + 256 * d3) by (bit_vector)
        requires
            d0 < 256,
            d1 < 256,
            d2 < 256,
            d3 < 256,
    ;
    let dl = d0 + 256 * d1;
    let dh = d2 + 256 * d3;
    let (r_lo, r_hi) = (w.r[0].0 as int, w.r[1].0 as int);
    let sb0 = w.sub_borrow[0].0 as int;
    assert(sb0 == if dl < r_lo + 1 { 1int } else { 0int });
    assert(dh >= r_hi + sb0);
    assert(fmul(w.d[1], two_pow_8()).0 == 256 * d1);
    assert(fmul(w.d[3], two_pow_8()).0 == 256 * d3);
    assert(fadd(w.d[0], fmul(w.d[1], two_pow_8())).0 == dl);
    assert(fadd(w.d[2], fmul(w.d[3], two_pow_8())).0 == dh);
    assert(fmul(w.sub_borrow[0], M31(65536)).0 == 65536 * sb0);
    assert(fmul(w.sub_borrow[1], M31(65536)).0 == 0);
    assert(rc16[11].0 == dl + 65536 * sb0 - r_lo - 1);
    assert(rc16[12].0 == dh - r_hi - sb0);
    assert forall|k: int| 0 <= k < 13 implies (#[trigger] rc16[k]).0 < 65536 by {}
}

/// The lookups the component's AIR adds for a trace row, read off the row's
/// columns: the divisor's halves rebuilt from its bytes, the destination
/// written with the quotient's halves rebuilt from its bytes, and every
/// range-checked value computed from the columns. (In the relations, each
/// previous state counts with multiplicity `-enabler`, each new state with
/// `+enabler`, and each range-checked value once.)
pub open spec fn is_air_lookups(l: RowLookups, row: Seq<M31>, opcode: M31) -> bool {
    let b8 = two_pow_8();
    let b16 = M31(65536);
    let (e, pc, fp, clock, inst_prev_clock, src_off) = (row[0], row[1], row[2], row[3], row[4], row[5]);
    let (d0, d1, d2, d3, dst_off) = (row[6], row[7], row[8], row[9], row[10]);
    let (n_lo, n_hi) = (row[11], row[12]);
    let (q0, q1, q2, q3) = (row[19], row[20], row[21], row[22]);
    let (sb0, sb1, r_lo, r_hi) = (row[42], row[43], row[44], row[45]);
    let imm_lo = fadd(d0, fmul(d1, b8));
    let imm_hi = fadd(d2, fmul(d3, b8));
    let src = fadd(fp, src_off);
    let dst = fadd(fp, dst_off);
    &&& l.registers@.map_values(|x: [M31; 2]| x@) == seq![seq![pc, fp], seq![fadd(fadd(pc, M31(1)), M31(1)), fp]]
    &&& l.memory@.map_values(|x: [M31; 6]| x@) == seq![
        seq![pc, inst_prev_clock, opcode, src_off, imm_lo, imm_hi],
        seq![pc, clock, opcode, src_off, imm_lo, imm_hi],
        limb_access(fadd(pc, M31(1)), inst_prev_clock, dst_off),
        limb_access(fadd(pc, M31(1)), clock, dst_off),
        limb_access(src, row[13], n_lo),
        limb_access(src, clock, n_lo),
        limb_access(fadd(src, M31(1)), row[14], n_hi),
        limb_access(fadd(src, M31(1)), clock, n_hi),
        limb_access(dst, row[17], row[15]),
        limb_access(dst, clock, fadd(q0, fmul(q1, b8))),
        limb_access(fadd(dst, M31(1)), row[18], row[16]),
        limb_access(fadd(dst, M31(1)), clock, fadd(q2, fmul(q3, b8))),
    ]
    &&& l.range_check_8@ == row.subrange(6, 10) + row.subrange(19, 23) + row.subrange(30, 38)
    &&& l.range_check_16@ == seq![
        n_lo, n_hi, r_lo, r_hi,
        fsub(M31(MAX_CARRY_0), row[23]), fsub(M31(MAX_CARRY_1), row[24]), fsub(M31(MAX_CARRY_2), row[25]),
        fsub(M31(MAX_CARRY_3), row[26]), fsub(M31(MAX_CARRY_4), row[27]), fsub(M31(MAX_CARRY_5), row[28]),
        fsub(M31(MAX_CARRY_6), row[29]),
        fsub(fsub(fadd(imm_lo, fmul(sb0, b16)), r_lo), M31(1)),
        fsub(fsub(fadd(imm_hi, fmul(sb1, b16)), r_hi), sb0),
    ]
    &&& l.range_check_20@ == seq![
        fsub(fsub(clock, inst_prev_clock), e),
        fsub(fsub(clock, row[13]), e),
        fsub(fsub(clock, row[14]), e),
        fsub(fsub(clock, row[17]), e),
        fsub(fsub(clock, row[18]), e),
    ]
}

impl Eval {
    /// The lookups the component's AIR adds for one row of its trace, the
    /// first instruction word holding `opcode`.
    #[verifier::rlimit(40)]
    pub fn lookups(&self, row: &[M31; 46], opcode: M31) -> (l: RowLookups)
        ensures
            is_air_lookups(l, row@, opcode),
    {
        let one = M31(1);
        let b8 = M31(256);
        let b16 = M31(65536);
        let (e, pc, fp, clock, inst_prev_clock, src_off) = (row[0], row[1], row[2], row[3], row[4], row[5]);
        let dst_off = row[10];
        let imm_lo = row[6].add(row[7].mul(b8));
        let imm_hi = row[8].add(row[9].mul(b8));
        let src = fp.add(src_off);
        let dst = fp.add(dst_off);
        let pc1 = pc.add(one);
        let (src1, dst1) = (src.add(one), dst.add(one));
        let res_lo = row[19].add(row[20].mul(b8));
        let res_hi = row[21].add(row[22].mul(b8));
        let l = RowLookups {
            registers: [[pc, fp], [pc1.add(one), fp]],
            memory: [
                [pc, inst_prev_clock, opcode, src_off, imm_lo, imm_hi],
                [pc, clock, opcode, src_off, imm_lo, imm_hi],
                limb_access_row(pc1, inst_prev_clock, dst_off),
                limb_access_row(pc1, clock, dst_off),
                limb_access_row(src, row[13], row[11]),
                limb_access_row(src, clock, row[11]),
                limb_access_row(src1, row[14], row[12]),
                limb_access_row(src1, clock, row[12]),
                limb_access_row(dst, row[17], row[15]),
                limb_access_row(dst, clock, res_lo),
                limb_access_row(dst1, row[18], row[16]),
                limb_access_row(dst1, clock, res_hi),
            ],
            range_check_8: [
                row[6], row[7], row[8], row[9], row[19], row[20], row[21], row[22],
                row[30], row[31], row[32], row[33], row[34], row[35], row[36], row[37],
            ],
            range_check_16: [
                row[11], row[12], row[44], row[45],
                M31(MAX_CARRY_0).sub(row[23]), M31(MAX_CARRY_1).sub(row[24]), M31(MAX_CARRY_2).sub(row[25]),
                M31(MAX_CARRY_3).sub(row[26]), M31(MAX_CARRY_4).sub(row[27]), M31(MAX_CARRY_5).sub(row[28]),
                M31(MAX_CARRY_6).sub(row[29]),
                imm_lo.add(row[42].mul(b16)).sub(row[44]).sub(one),
                imm_hi.add(row[43].mul(b16)).sub(row[45]).sub(row[42]),
            ],
            range_check_20: [
                clock.sub(inst_prev_clock).sub(e),
                clock.sub(row[13]).sub(e),
                clock.sub(row[14]).sub(e),
                clock.sub(row[17]).sub(e),
                clock.sub(row[18]).sub(e),
            ],
        };
        let ghost r = row@;
        assert(l.registers@.map_values(|x: [M31; 2]| x@) =~= seq![
            seq![r[1], r[2]],
            seq![fadd(fadd(r[1], M31(1)), M31(1)), r[2]],
        ]);
        assert(l.memory@.map_values(|x: [M31; 6]| x@) =~= seq![
            seq![r[1], r[4], opcode, r[5], fadd(r[6], fmul(r[7], two_pow_8())), fadd(r[8], fmul(r[9], two_pow_8()))],
            seq![r[1], r[3], opcode, r[5], fadd(r[6], fmul(r[7], two_pow_8())), fadd(r[8], fmul(r[9], two_pow_8()))],
            limb_access(fadd(r[1], M31(1)), r[4], r[10]),
            limb_access(fadd(r[1], M31(1)), r[3], r[10]),
            limb_access(fadd(r[2], r[5]), r[13], r[11]),
            limb_access(fadd(r[2], r[5]), r[3], r[11]),
            limb_access(fadd(fadd(r[2], r[5]), M31(1)), r[14], r[12]),
            limb_access(fadd(fadd(r[2], r[5]), M31(1)), r[3], r[12]),
            limb_access(fadd(r[2], r[10]), r[17], r[15]),
            limb_access(fadd(r[2], r[10]), r[3], fadd(r[19], fmul(r[20], two_pow_8()))),
            limb_access(fadd(fadd(r[2], r[10]), M31(1)), r[18], r[16]),
            limb_access(fadd(fadd(r[2], r[10]), M31(1)), r[3], fadd(r[21], fmul(r[22], two_pow_8()))),
        ]);
        assert(l.range_check_8@ =~= r.subrange(6, 10) + r.subrange(19, 23) + r.subrange(30, 38));
        l
    }
}

/// The lookups the AIR reads off a written row are the lookups the trace
/// writer records for it, when the divisor's halves are 16-bit values (the
/// row keeps only the divisor's bytes).
pub proof fn lemma_air_lookups_match_trace(l: RowLookups, enabler: M31, opcode: M31, input: RowInput)
    requires
        input.imm_lo.0 < 65536,
        input.imm_hi.0 < 65536,
        is_air_lookups(l, spec_trace_row(enabler, input), opcode),
    ensures
        is_row_lookups(l, enabler, opcode, input),
{
    reveal(spec_div_limbs);
    let w = spec_div_limbs(input.n_lo, input.n_hi, input.imm_lo, input.imm_hi);
    let row = spec_trace_row(enabler, input);
    assert forall|x: int| 0 <= x < P implies #[trigger] fmod(x) == x by {
        vstd::arithmetic::div_mod::lemma_small_mod(x as nat, P as nat);
    }
    let (lo, hi) = (input.imm_lo.0 as int, input.imm_hi.0 as int);
    vstd::arithmetic::div_mod::lemma_fundamental_div_mod(lo, 256);
    vstd::arithmetic::div_mod::lemma_fundamental_div_mod(hi, 256);
    assert(w.d[1].0 == lo / 256);
    assert(w.d[3].0 == hi / 256);
    assert(fmul(w.d[1], two_pow_8()).0 == 256 * (lo / 256));
    assert(fmul(w.d[3], two_pow_8()).0 == 256 * (hi / 256));
    assert(fadd(w.d[0], fmul(w.d[1], two_pow_8())) == input.imm_lo);
    assert(fadd(w.d[2], fmul(w.d[3], two_pow_8())) == input.imm_hi);
    assert(row.subrange(6, 10) + row.subrange(19, 23) + row.subrange(30, 38) =~= spec_range_check_8(input));
    assert(l.memory@.map_values(|x: [M31; 6]| x@) =~= spec_memory_lookups(opcode, input));
    assert(l.range_check_16@ =~= spec_range_check_16(input));
}

/// The enabler and the input of row `i` of the trace written for `inputs`:
/// an enabled row per input, then disabled rows of zeros.
pub open spec fn padded_row(inputs: Seq<RowInput>, i: int) -> (M31, RowInput) {
    if i < inputs.len() {
        (M31(1), inputs[i])
    } else {
        (M31(0), zero_input())
    }
}

/// What the interaction trace is built from: the lookups of every row and
/// the number of rows that hold an input.
#[derive(Clone, Debug)]
pub struct InteractionClaimData {
    /// The lookups of each row of the trace.
    pub lookup_data: Vec<RowLookups>,
    /// The number of enabled rows.
    pub non_padded_length: usize,
}

impl Claim {
    /// Writes the trace of the component for `inputs`, padded to a power of
    /// two of at least `2^LOG_N_LANES` rows, its claim and the lookups of
    /// every row, the first instruction word holding `opcode`. The inputs are
    /// consumed: `inputs` is left empty.
    pub fn write_trace(inputs: &mut Vec<RowInput>, opcode: M31) -> (r: (Claim, Vec<[M31; 46]>, InteractionClaimData))
        requires
            old(inputs)@.len() <= 0x8000_0000,
        ensures
            is_trace_log_size(old(inputs)@.len(), r.0.log_size),
            r.1@.len() == rows_of(r.0.log_size as nat),
            forall|i: int| 0 <= i < r.1@.len() ==> (#[trigger] r.1@[i])@ == spec_trace(old(inputs)@, r.0.log_size)[i],
            r.2.non_padded_length == old(inputs)@.len(),
            r.2.lookup_data@.len() == rows_of(r.0.log_size as nat),
            forall|i: int|
                0 <= i < r.2.lookup_data@.len() ==> is_row_lookups(
                    #[trigger] r.2.lookup_data@[i],
                    padded_row(old(inputs)@, i).0,
                    opcode,
                    padded_row(old(inputs)@, i).1,
                ),
            final(inputs)@.len() == 0,
    {
        let non_padded_length = inputs.len();
        let (log_size, n_rows) = trace_log_size(non_padded_length);
        let padding = RowInput {
            pc: M31(0),
            fp: M31(0),
            clock: M31(0),
            inst_prev_clock: M31(0),
            src_off: M31(0),
            imm_lo: M31(0),
            imm_hi: M31(0),
            dst_off: M31(0),
            n_lo: M31(0),
            n_hi: M31(0),
            op0_prev_clock_lo: M31(0),
            op0_prev_clock_hi: M31(0),
            dst_prev_val_lo: M31(0),
            dst_prev_val_hi: M31(0),
            dst_prev_clock_lo: M31(0),
            dst_prev_clock_hi: M31(0),
        };
        let mut rows: Vec<[M31; 46]> = Vec::new();
        let mut lookup_data: Vec<RowLookups> = Vec::new();
        let mut i: usize = 0;
        while i < n_rows
            invariant
                i <= n_rows,
                n_rows == rows_of(log_size as nat),
                padding == zero_input(),
                inputs@ == old(inputs)@,
                non_padded_length == inputs@.len(),
                rows@.len() == i,
                lookup_data@.len() == i,
                forall|j: int| 0 <= j < i ==> (#[trigger] rows@[j])@ == spec_trace(inputs@, log_size)[j],
                forall|j: int|
                    0 <= j < i ==> is_row_lookups(
                        #[trigger] lookup_data@[j],
                        padded_row(inputs@, j).0,
                        opcode,
                        padded_row(inputs@, j).1,
                    ),
            decreases n_rows - i,
        {
            let (enabler, input) = if i < non_padded_length {
                (M31(1), &inputs[i])
            } else {
                (M31(0), &padding)
            };
            let w = div_limbs(input.n_lo, input.n_hi, input.imm_lo, input.imm_hi);
            rows.push(row_of_limbs(enabler, input, &w));
            lookup_data.push(lookups_of_limbs(enabler, opcode, input, &w));
            i = i + 1;
        }
        inputs.clear();
        (Claim { log_size }, rows, InteractionClaimData { lookup_data, non_padded_length })
    }
}

/// Every row of a written trace satisfies every polynomial constraint of the
/// component, when each input is a division the component can prove.
pub proof fn lemma_trace_satisfies_constraints(inputs: Seq<RowInput>, log_size: u32)
    requires
        forall|i: int| 0 <= i < inputs.len() ==> row_input_ok(#[trigger] inputs[i]),
    ensures
        forall|i: int|
            0 <= i < rows_of(log_size as nat) ==> spec_constraints(#[trigger] spec_trace(inputs, log_size)[i])
                == Seq::new(19, |_k: int| M31(0)),
{
    assert forall|i: int| 0 <= i < rows_of(log_size as nat) implies spec_constraints(
        #[trigger] spec_trace(inputs, log_size)[i],
    ) == Seq::new(19, |_k: int| M31(0)) by {
        if i < inputs.len() {
            lemma_row_satisfies_constraints(M31(1), inputs[i]);
        } else {
            lemma_row_satisfies_constraints(M31(0), zero_input());
        }
    }
}

} // verus!
