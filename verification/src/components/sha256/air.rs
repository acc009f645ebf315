//! The word additions of the SHA-256 constraints.
//!
//! A sum of two or three words is written as its two 16-bit halves; the
//! constraints recover each column's carry as `(inputs - output) / 2^16` and
//! check that it is a possible carry: 0 or 1 for two words, 0, 1 or 2 for
//! three. Dividing by `2^16` is multiplying by `2^15`, as `2^31 = 1`.
use crate::components::sha256::witness::{
    carry_bit, carry_bits, is_u32_halves, lemma_add3_is_wrapping_sum, output_masks, sigma_columns,
    sigma_fn, sigma_inputs, spec_add2, spec_add3, spec_get_output, spec_sigma, spec_xor, two_pow_16,
    word_value,
};
use crate::components::sha256::{Eval, Fu32_2, Fu32_4, SigmaType};
use crate::field::{fadd, fmod, fmul, fsub, M31, P};
use vstd::prelude::*;

verus! {

/// `2^15`, the inverse of `2^16` in the field.
pub const INV16: u32 = 32768;

/// `2^15` inverts `2^16`.
pub proof fn lemma_inv16()
    ensures
        fmul(two_pow_16(), M31(INV16)) == M31(1),
{
    assert(65536 * 32768 == P + 1);
    vstd::arithmetic::div_mod::lemma_mod_add_multiples_vanish(1, P as int);
    vstd::arithmetic::div_mod::lemma_small_mod(1, P as nat);
}

/// The carry of a column whose inputs sum to `inputs` and whose output is `out`.
pub open spec fn column_carry(inputs: M31, out: M31) -> M31 {
    fmul(fsub(inputs, out), M31(INV16))
}

/// The two constraints of `s = a + b`: each column's carry is 0 or 1.
pub open spec fn spec_add2_constraints(a: Fu32_2, b: Fu32_2, s: Fu32_2) -> (M31, M31) {
    let carry_l = column_carry(fadd(a.lo, b.lo), s.lo);
    let carry_h = column_carry(fadd(fadd(a.hi, b.hi), carry_l), s.hi);
    (fsub(fmul(carry_l, carry_l), carry_l), fsub(fmul(carry_h, carry_h), carry_h))
}

/// `c * (c - 1) * (c - 2)`: `c` is 0, 1 or 2.
pub open spec fn carry3_check(c: M31) -> M31 {
    fmul(fmul(c, fsub(c, M31(1))), fsub(c, M31(2)))
}

/// The two constraints of `s = a + b + c`: each column's carry is 0, 1 or 2.
pub open spec fn spec_add3_constraints(a: Fu32_2, b: Fu32_2, c: Fu32_2, s: Fu32_2) -> (M31, M31) {
    let carry_l = column_carry(fadd(fadd(a.lo, b.lo), c.lo), s.lo);
    let carry_h = column_carry(fadd(fadd(fadd(a.hi, b.hi), c.hi), carry_l), s.hi);
    (carry3_check(carry_l), carry3_check(carry_h))
}

/// Evaluates the constraints of the addition of two words into `s`.
pub fn add2_u32_constraints(a: Fu32_2, b: Fu32_2, s: Fu32_2) -> (r: (M31, M31))
    ensures
        r == spec_add2_constraints(a, b, s),
{
    let inv16 = M31(INV16);
    let carry_l = a.lo.add(b.lo).sub(s.lo).mul(inv16);
    let carry_h = a.hi.add(b.hi).add(carry_l).sub(s.hi).mul(inv16);
    (carry_l.mul(carry_l).sub(carry_l), carry_h.mul(carry_h).sub(carry_h))
}

/// Evaluates the constraints of the addition of three words into `s`.
pub fn add3_u32_constraints(a: Fu32_2, b: Fu32_2, c: Fu32_2, s: Fu32_2) -> (r: (M31, M31))
    ensures
        r == spec_add3_constraints(a, b, c, s),
{
    let inv16 = M31(INV16);
    let one = M31::one();
    let two = M31(2);
    let carry_l = a.lo.add(b.lo).add(c.lo).sub(s.lo).mul(inv16);
    let carry_h = a.hi.add(b.hi).add(c.hi).add(carry_l).sub(s.hi).mul(inv16);
    (carry_l.mul(carry_l.sub(one)).mul(carry_l.sub(two)), carry_h.mul(carry_h.sub(one)).mul(carry_h.sub(two)))
}

/// A column whose output is its input sum less `k * 2^16` carries `k`.
proof fn lemma_column_carry(inputs: M31, k: int)
    requires
        0 <= k <= 2,
        k * 65536 <= inputs.0 < P,
    ensures
        column_carry(inputs, fsub(inputs, fmul(M31(k as u32), two_pow_16()))) == M31(k as u32),
{
    assert forall|v: int| 0 <= v < P implies #[trigger] fmod(v) == v by {
        vstd::arithmetic::div_mod::lemma_small_mod(v as nat, P as nat);
    }
    let out = fsub(inputs, fmul(M31(k as u32), two_pow_16()));
    assert(fmul(M31(k as u32), two_pow_16()).0 == k * 65536);
    assert(out.0 == inputs.0 - k * 65536);
    assert(fsub(inputs, out).0 == k * 65536);
    lemma_inv16();
    assert(fsub(inputs, out) == fmul(M31(k as u32), two_pow_16()));
    crate::field::lemma_fmul_assoc(M31(k as u32), two_pow_16(), M31(INV16));
    crate::field::lemma_fmul_one(M31(k as u32));
}

/// The witness of a two-word sum satisfies its constraints, for 16-bit halves.
pub proof fn lemma_add2_witness_satisfies_constraints(a: Fu32_2, b: Fu32_2)
    requires
        is_u32_halves(a),
        is_u32_halves(b),
    ensures
        spec_add2_constraints(a, b, spec_add2(a, b)) == (M31(0), M31(0)),
{
    assert forall|v: int| 0 <= v < P implies #[trigger] fmod(v) == v by {
        vstd::arithmetic::div_mod::lemma_small_mod(v as nat, P as nat);
    }
    let s = spec_add2(a, b);
    let sum_lo = fadd(a.lo, b.lo);
    let cl = carry_bit(sum_lo);
    assert(sum_lo.0 == a.lo.0 + b.lo.0);
    let kl: int = if sum_lo.0 >= 65536 { 1 } else { 0 };
    assert(cl.0 == kl);
    lemma_column_carry(sum_lo, kl);
    let sum_hi = fadd(fadd(a.hi, b.hi), cl);
    assert(sum_hi.0 == a.hi.0 + b.hi.0 + kl);
    let kh: int = if sum_hi.0 >= 65536 { 1 } else { 0 };
    assert(carry_bit(sum_hi).0 == kh);
    lemma_column_carry(sum_hi, kh);
    assert(fmul(M31(0), M31(0)) == M31(0)) by {
        assert(0 * 0 == 0);
    }
    assert(fmul(M31(1), M31(1)) == M31(1)) by {
        assert(1 * 1 == 1);
    }
}

/// The witness of a three-word sum satisfies its constraints, for 16-bit
/// halves.
pub proof fn lemma_add3_witness_satisfies_constraints(a: Fu32_2, b: Fu32_2, c: Fu32_2)
    requires
        is_u32_halves(a),
        is_u32_halves(b),
        is_u32_halves(c),
    ensures
        spec_add3_constraints(a, b, c, spec_add3(a, b, c)) == (M31(0), M31(0)),
{
    assert forall|v: int| 0 <= v < P implies #[trigger] fmod(v) == v by {
        vstd::arithmetic::div_mod::lemma_small_mod(v as nat, P as nat);
    }
    let sum_lo = fadd(fadd(a.lo, b.lo), c.lo);
    assert(sum_lo.0 == a.lo.0 + b.lo.0 + c.lo.0);
    let kl: int = if sum_lo.0 >= 131072 { 2 } else if sum_lo.0 >= 65536 { 1 } else { 0 };
    assert(carry_bits(sum_lo).0 == kl);
    lemma_column_carry(sum_lo, kl);
    let cl = carry_bits(sum_lo);
    let sum_hi = fadd(fadd(fadd(a.hi, b.hi), c.hi), cl);
    assert(sum_hi.0 == a.hi.0 + b.hi.0 + c.hi.0 + kl);
    let kh: int = if sum_hi.0 >= 131072 { 2 } else if sum_hi.0 >= 65536 { 1 } else { 0 };
    assert(carry_bits(sum_hi).0 == kh);
    lemma_column_carry(sum_hi, kh);
    lemma_carry_checks();
}

/// `2^8` as a field element.
pub open spec fn two_pow_8() -> M31 {
    M31(256)
}

/// The low half of a four-limb word: `lo0 + 2^8 * lo1`.
pub open spec fn half4_lo(x: Fu32_4) -> M31 {
    fadd(x.lo0, fmul(two_pow_8(), x.lo1))
}

/// The high half of a four-limb word: `hi0 + 2^8 * hi1`.
pub open spec fn half4_hi(x: Fu32_4) -> M31 {
    fadd(x.hi0, fmul(two_pow_8(), x.hi1))
}

/// Every limb of a four-limb word is a byte.
pub open spec fn is_limbs4(x: Fu32_4) -> bool {
    x.lo0.0 < 256 && x.lo1.0 < 256 && x.hi0.0 < 256 && x.hi1.0 < 256
}

/// The integer a four-limb word stands for.
pub open spec fn word4_value(x: Fu32_4) -> int {
    x.lo0.0 + 256 * x.lo1.0 + 65536 * (x.hi0.0 + 256 * x.hi1.0)
}

/// The integer a two-half word stands for.
pub open spec fn word2_value(x: Fu32_2) -> int {
    x.lo.0 + 65536 * x.hi.0
}

/// The constraints of `s = a + b` on four-limb words: each column's carry
/// is 0 or 1.
pub open spec fn spec_add2_2_4_constraints(a: Fu32_4, b: Fu32_4, s: Fu32_4) -> (M31, M31) {
    let carry_l = column_carry(fadd(half4_lo(a), half4_lo(b)), half4_lo(s));
    let carry_h = column_carry(fadd(fadd(half4_hi(a), half4_hi(b)), carry_l), half4_hi(s));
    (fsub(fmul(carry_l, carry_l), carry_l), fsub(fmul(carry_h, carry_h), carry_h))
}

/// The constraints of `s = a + b + c` for two-half `a`, `b` and four-limb
/// `c`, `s`: each column's carry is 0, 1 or 2.
pub open spec fn spec_add3_2_2_4_constraints(a: Fu32_2, b: Fu32_2, c: Fu32_4, s: Fu32_4) -> (M31, M31) {
    let carry_l = column_carry(fadd(fadd(a.lo, b.lo), half4_lo(c)), half4_lo(s));
    let carry_h = column_carry(fadd(fadd(fadd(a.hi, b.hi), half4_hi(c)), carry_l), half4_hi(s));
    (carry3_check(carry_l), carry3_check(carry_h))
}

/// The constraints of `s = a + b + c` for two-half `a` and four-limb `b`,
/// `c`, `s`: each column's carry is 0, 1 or 2.
pub open spec fn spec_add3_2_4_4_constraints(a: Fu32_2, b: Fu32_4, c: Fu32_4, s: Fu32_4) -> (M31, M31) {
    let carry_l = column_carry(fadd(fadd(a.lo, half4_lo(b)), half4_lo(c)), half4_lo(s));
    let carry_h = column_carry(fadd(fadd(fadd(a.hi, half4_hi(b)), half4_hi(c)), carry_l), half4_hi(s));
    (carry3_check(carry_l), carry3_check(carry_h))
}

/// The two halves of a four-limb word.
fn halves4(x: Fu32_4) -> (r: (M31, M31))
    ensures
        r == (half4_lo(x), half4_hi(x)),
{
    let b8 = M31(256);
    (x.lo0.add(b8.mul(x.lo1)), x.hi0.add(b8.mul(x.hi1)))
}

/// `c * (c - 1) * (c - 2)`.
fn eval_carry3_check(c: M31) -> (r: M31)
    ensures
        r == carry3_check(c),
{
    c.mul(c.sub(M31::one())).mul(c.sub(M31(2)))
}

/// Evaluates the constraints of the addition of two four-limb words into `s`.
pub fn add2_u32_2_4_constraints(a: Fu32_4, b: Fu32_4, s: Fu32_4) -> (r: (M31, M31))
    ensures
        r == spec_add2_2_4_constraints(a, b, s),
{
    let inv16 = M31(INV16);
    let (a_lo, a_hi) = halves4(a);
    let (b_lo, b_hi) = halves4(b);
    let (s_lo, s_hi) = halves4(s);
    let carry_l = a_lo.add(b_lo).sub(s_lo).mul(inv16);
    let carry_h = a_hi.add(b_hi).add(carry_l).sub(s_hi).mul(inv16);
    (carry_l.mul(carry_l).sub(carry_l), carry_h.mul(carry_h).sub(carry_h))
}

/// Evaluates the constraints of `s = a + b + c` for two-half `a`, `b`.
pub fn add3_u32_2_2_4_constraints(a: Fu32_2, b: Fu32_2, c: Fu32_4, s: Fu32_4) -> (r: (M31, M31))
    ensures
        r == spec_add3_2_2_4_constraints(a, b, c, s),
{
    let inv16 = M31(INV16);
    let (c_lo, c_hi) = halves4(c);
    let (s_lo, s_hi) = halves4(s);
    let carry_l = a.lo.add(b.lo).add(c_lo).sub(s_lo).mul(inv16);
    let carry_h = a.hi.add(b.hi).add(c_hi).add(carry_l).sub(s_hi).mul(inv16);
    (eval_carry3_check(carry_l), eval_carry3_check(carry_h))
}

/// Evaluates the constraints of `s = a + b + c` for two-half `a`.
pub fn add3_u32_2_4_4_constraints(a: Fu32_2, b: Fu32_4, c: Fu32_4, s: Fu32_4) -> (r: (M31, M31))
    ensures
        r == spec_add3_2_4_4_constraints(a, b, c, s),
{
    let inv16 = M31(INV16);
    let (b_lo, b_hi) = halves4(b);
    let (c_lo, c_hi) = halves4(c);
    let (s_lo, s_hi) = halves4(s);
    let carry_l = a.lo.add(b_lo).add(c_lo).sub(s_lo).mul(inv16);
    let carry_h = a.hi.add(b_hi).add(c_hi).add(carry_l).sub(s_hi).mul(inv16);
    (eval_carry3_check(carry_l), eval_carry3_check(carry_h))
}

/// The carry of a column whose inputs exceed its output by `k * 2^16` is `k`.
proof fn lemma_carry_of(inputs: M31, out: M31, k: int)
    requires
        0 <= k <= 2,
        inputs.wf(),
        out.wf(),
        inputs.0 - out.0 == k * 65536,
    ensures
        column_carry(inputs, out) == M31(k as u32),
{
    assert forall|v: int| 0 <= v < P implies #[trigger] fmod(v) == v by {
        vstd::arithmetic::div_mod::lemma_small_mod(v as nat, P as nat);
    }
    assert(fsub(inputs, out).0 == k * 65536);
    assert(fmul(M31(k as u32), two_pow_16()).0 == k * 65536);
    assert(fsub(inputs, out) == fmul(M31(k as u32), two_pow_16()));
    lemma_inv16();
    crate::field::lemma_fmul_assoc(M31(k as u32), two_pow_16(), M31(INV16));
    crate::field::lemma_fmul_one(M31(k as u32));
}

/// The halves of a four-limb word of bytes, in the field, are its integer halves.
proof fn lemma_half4_values(x: Fu32_4)
    requires
        is_limbs4(x),
    ensures
        half4_lo(x).0 == x.lo0.0 + 256 * x.lo1.0,
        half4_hi(x).0 == x.hi0.0 + 256 * x.hi1.0,
{
    assert forall|v: int| 0 <= v < P implies #[trigger] fmod(v) == v by {
        vstd::arithmetic::div_mod::lemma_small_mod(v as nat, P as nat);
    }
}

/// The carry checks vanish on carries 0, 1 and 2.
proof fn lemma_carry_checks()
    ensures
        fsub(fmul(M31(0), M31(0)), M31(0)) == M31(0),
        fsub(fmul(M31(1), M31(1)), M31(1)) == M31(0),
        carry3_check(M31(0)) == M31(0),
        carry3_check(M31(1)) == M31(0),
        carry3_check(M31(2)) == M31(0),
{
    assert forall|v: int| 0 <= v < P implies #[trigger] fmod(v) == v by {
        vstd::arithmetic::div_mod::lemma_small_mod(v as nat, P as nat);
    }
    assert forall|x: M31| #[trigger] fmul(M31(0), x) == M31(0) by {
        assert(0 * x.0 == 0);
    }
    assert forall|x: M31| #[trigger] fmul(x, M31(0)) == M31(0) by {
        assert(x.0 * 0 == 0);
    }
    assert(fsub(M31(1), M31(1)) == M31(0));
    assert(fsub(M31(2), M31(2)) == M31(0));
}

/// The limbs of the sum of two words satisfy the constraints of their
/// addition: the wrapped sum of two bytewise words, written bytewise.
pub proof fn lemma_add2_2_4_complete(a: Fu32_4, b: Fu32_4, s: Fu32_4)
    requires
        is_limbs4(a),
        is_limbs4(b),
        is_limbs4(s),
        word4_value(s) == (word4_value(a) + word4_value(b)) % 0x1_0000_0000,
    ensures
        spec_add2_2_4_constraints(a, b, s) == (M31(0), M31(0)),
{
    lemma_half4_values(a);
    lemma_half4_values(b);
    lemma_half4_values(s);
    let total = word4_value(a) + word4_value(b);
    vstd::arithmetic::div_mod::lemma_fundamental_div_mod(total, 0x1_0000_0000);
    let q = total / 0x1_0000_0000;
    let (al, ah) = (half4_lo(a).0 as int, half4_hi(a).0 as int);
    let (bl, bh) = (half4_lo(b).0 as int, half4_hi(b).0 as int);
    let (sl, sh) = (half4_lo(s).0 as int, half4_hi(s).0 as int);
    assert(0 <= q <= 1);
    let m = 65536 * q + sh - ah - bh;
    assert(al + bl - sl == 65536 * m);
    let kl: int = if al + bl >= 65536 { 1 } else { 0 };
    assert(m == kl);
    let in_lo = fadd(half4_lo(a), half4_lo(b));
    vstd::arithmetic::div_mod::lemma_small_mod((al + bl) as nat, P as nat);
    assert(in_lo.0 == al + bl);
    lemma_carry_of(in_lo, half4_lo(s), kl);
    assert(ah + bh + kl - sh == q * 65536);
    let in_hi = fadd(fadd(half4_hi(a), half4_hi(b)), M31(kl as u32));
    vstd::arithmetic::div_mod::lemma_small_mod((ah + bh) as nat, P as nat);
    vstd::arithmetic::div_mod::lemma_small_mod((ah + bh + kl) as nat, P as nat);
    assert(in_hi.0 == ah + bh + kl);
    lemma_carry_of(in_hi, half4_hi(s), q);
    lemma_carry_checks();
}

/// The limbs of the sum of three words satisfy the constraints of their
/// addition, for two-half `a`, `b` and bytewise `c` and sum.
pub proof fn lemma_add3_2_2_4_complete(a: Fu32_2, b: Fu32_2, c: Fu32_4, s: Fu32_4)
    requires
        is_u32_halves(a),
        is_u32_halves(b),
        is_limbs4(c),
        is_limbs4(s),
        word4_value(s) == (word2_value(a) + word2_value(b) + word4_value(c)) % 0x1_0000_0000,
    ensures
        spec_add3_2_2_4_constraints(a, b, c, s) == (M31(0), M31(0)),
{
    lemma_half4_values(c);
    lemma_half4_values(s);
    let (cl, ch) = (half4_lo(c).0 as int, half4_hi(c).0 as int);
    let in_lo = fadd(fadd(a.lo, b.lo), half4_lo(c));
    let in_hi_partial = fadd(fadd(a.hi, b.hi), half4_hi(c));
    vstd::arithmetic::div_mod::lemma_small_mod((a.lo.0 + b.lo.0) as nat, P as nat);
    vstd::arithmetic::div_mod::lemma_small_mod((a.lo.0 + b.lo.0 + cl) as nat, P as nat);
    vstd::arithmetic::div_mod::lemma_small_mod((a.hi.0 + b.hi.0) as nat, P as nat);
    vstd::arithmetic::div_mod::lemma_small_mod((a.hi.0 + b.hi.0 + ch) as nat, P as nat);
    lemma_add3_columns(in_lo, in_hi_partial, half4_lo(s), half4_hi(s), word2_value(a) + word2_value(b) + word4_value(c));
}

/// The limbs of the sum of three words satisfy the constraints of their
/// addition, for two-half `a` and bytewise `b`, `c` and sum.
pub proof fn lemma_add3_2_4_4_complete(a: Fu32_2, b: Fu32_4, c: Fu32_4, s: Fu32_4)
    requires
        is_u32_halves(a),
        is_limbs4(b),
        is_limbs4(c),
        is_limbs4(s),
        word4_value(s) == (word2_value(a) + word4_value(b) + word4_value(c)) % 0x1_0000_0000,
    ensures
        spec_add3_2_4_4_constraints(a, b, c, s) == (M31(0), M31(0)),
{
    lemma_half4_values(b);
    lemma_half4_values(c);
    lemma_half4_values(s);
    let (bl, bh) = (half4_lo(b).0 as int, half4_hi(b).0 as int);
    let (cl, ch) = (half4_lo(c).0 as int, half4_hi(c).0 as int);
    let in_lo = fadd(fadd(a.lo, half4_lo(b)), half4_lo(c));
    let in_hi_partial = fadd(fadd(a.hi, half4_hi(b)), half4_hi(c));
    vstd::arithmetic::div_mod::lemma_small_mod((a.lo.0 + bl) as nat, P as nat);
    vstd::arithmetic::div_mod::lemma_small_mod((a.lo.0 + bl + cl) as nat, P as nat);
    vstd::arithmetic::div_mod::lemma_small_mod((a.hi.0 + bh) as nat, P as nat);
    vstd::arithmetic::div_mod::lemma_small_mod((a.hi.0 + bh + ch) as nat, P as nat);
    lemma_add3_columns(in_lo, in_hi_partial, half4_lo(s), half4_hi(s), word2_value(a) + word4_value(b) + word4_value(c));
}

/// The two columns of a three-word sum: with column inputs `in_lo` and
/// `in_hi` (before the carry) summing to `total`, and output halves the
/// halves of `total mod 2^32`, both carry checks vanish.
proof fn lemma_add3_columns(in_lo: M31, in_hi: M31, s_lo: M31, s_hi: M31, total: int)
    requires
        in_lo.0 <= 3 * 65535,
        in_hi.0 <= 3 * 65535,
        s_lo.0 < 65536,
        s_hi.0 < 65536,
        total == in_lo.0 + 65536 * in_hi.0,
        s_lo.0 + 65536 * s_hi.0 == total % 0x1_0000_0000,
    ensures
        carry3_check(column_carry(in_lo, s_lo)) == M31(0),
        carry3_check(column_carry(fadd(in_hi, column_carry(in_lo, s_lo)), s_hi)) == M31(0),
{
    vstd::arithmetic::div_mod::lemma_fundamental_div_mod(total, 0x1_0000_0000);
    let q = total / 0x1_0000_0000;
    let (il, ih, sl, sh) = (in_lo.0 as int, in_hi.0 as int, s_lo.0 as int, s_hi.0 as int);
    assert(0 <= q <= 2);
    let m = 65536 * q + sh - ih;
    assert(il - sl == 65536 * m);
    let kl: int = if il >= 131072 { 2 } else if il >= 65536 { 1 } else { 0 };
    assert(m == kl);
    lemma_carry_of(in_lo, s_lo, kl);
    vstd::arithmetic::div_mod::lemma_small_mod((ih + kl) as nat, P as nat);
    let in_hi_c = fadd(in_hi, M31(kl as u32));
    assert(in_hi_c.0 == ih + kl);
    assert(ih + kl - sh == q * 65536);
    lemma_carry_of(in_hi_c, s_hi, q);
    lemma_carry_checks();
}

/// What the constraints of one sigma read and add: the tuples looked up in
/// the sigma and XOR tables, the two carry checks of the sum of the three
/// parts, and the sum, whose halves are range-checked on 16 bits.
#[derive(Debug)]
pub struct SigmaAir {
    /// The looked-up tuples, in order: the sigma type's first table, its
    /// second table, then its XOR table (two XOR tables, low then high, for
    /// big sigma 0).
    pub lookups: Vec<Vec<M31>>,
    /// The carry checks of `res = out0 + out1 + xor`.
    pub constraints: (M31, M31),
    /// The values range-checked on 16 bits: the halves of the sum.
    pub range_check_16: [M31; 2],
    /// The sum of the three parts, as read from the row.
    pub res: Fu32_2,
}

/// The twelve columns of a sigma, in order: the first output's low and high
/// parts, the second's, the shared low parts of each, the shared high parts
/// of each, the XORs of the shared low and high parts, and the sum's halves.
pub open spec fn sigma_part(c: Seq<M31>, k: int) -> Fu32_2 {
    Fu32_2 { lo: c[2 * k], hi: c[2 * k + 1] }
}

/// The first output of a sigma's columns.
pub open spec fn air_out0(c: Seq<M31>) -> Fu32_2 {
    sigma_part(c, 0)
}

/// The second output of a sigma's columns.
pub open spec fn air_out1(c: Seq<M31>) -> Fu32_2 {
    sigma_part(c, 1)
}

/// The XOR of the shared parts in a sigma's columns.
pub open spec fn air_xor(c: Seq<M31>) -> Fu32_2 {
    Fu32_2 { lo: c[8], hi: c[9] }
}

/// The sum in a sigma's columns.
pub open spec fn air_res(c: Seq<M31>) -> Fu32_2 {
    Fu32_2 { lo: c[10], hi: c[11] }
}

/// The tuples a sigma looks up, on input limbs `[l0, l1, l2, h0, h1, h2]`
/// and the sigma's twelve columns `c`. Each sigma table takes the limbs of
/// one input word, then that word's output parts and shared parts; the XOR
/// table takes both shared parts and their XOR.
pub open spec fn spec_sigma_lookups(sigma: SigmaType, l: [M31; 6], c: Seq<M31>) -> Seq<Seq<M31>> {
    let (o0l, o0h, o1l, o1h) = (c[0], c[1], c[2], c[3]);
    let (s0l, s1l, s0h, s1h, xl, xh) = (c[4], c[5], c[6], c[7], c[8], c[9]);
    let xor6 = seq![s0l, s0h, s1l, s1h, xl, xh];
    match sigma {
        SigmaType::SmallSigma0 => seq![
            seq![l[1], l[2], l[5], o0l, o0h, s0l, s0h],
            seq![l[0], l[3], l[4], o1l, o1h, s1l, s1h],
            xor6,
        ],
        SigmaType::SmallSigma1 => seq![
            seq![l[0], l[3], o0l, o0h, s0l, s0h],
            seq![l[1], l[2], l[4], l[5], o1l, o1h, s1l, s1h],
            xor6,
        ],
        SigmaType::BigSigma0 => seq![
            seq![l[1], l[2], l[5], o0l, o0h, s0l, s0h],
            seq![l[0], l[3], l[4], o1l, o1h, s1l, s1h],
            seq![s0l, s1l, xl],
            seq![s0h, s1h, xh],
        ],
        SigmaType::BigSigma1 => seq![
            seq![l[0], l[3], l[4], o0l, o0h, s0l, s0h],
            seq![l[1], l[2], l[5], o1l, o1h, s1l, s1h],
            xor6,
        ],
    }
}

/// The carry checks of a sigma's sum, read off its twelve columns.
pub open spec fn spec_sigma_constraints(c: Seq<M31>) -> (M31, M31) {
    spec_add3_constraints(air_out0(c), air_out1(c), air_xor(c), air_res(c))
}

impl Eval {
    /// The lookups, constraints and sum of one sigma on input limbs `limbs`,
    /// reading its twelve columns from `row` at `start`.
    pub fn sigma(&self, sigma_type: SigmaType, limbs: [M31; 6], row: &[M31], start: usize) -> (r: SigmaAir)
        requires
            start + 12 <= row@.len(),
        ensures
            r.lookups@.map_values(|v: Vec<M31>| v@) == spec_sigma_lookups(
                sigma_type,
                limbs,
                row@.subrange(start as int, start + 12),
            ),
            r.constraints == spec_sigma_constraints(row@.subrange(start as int, start + 12)),
            r.res == air_res(row@.subrange(start as int, start + 12)),
            r.range_check_16@ == seq![r.res.lo, r.res.hi],
    {
        let ghost c = row@.subrange(start as int, start + 12);
        let (o0l, o0h, o1l, o1h) = (row[start], row[start + 1], row[start + 2], row[start + 3]);
        let (s0l, s1l, s0h, s1h) = (row[start + 4], row[start + 5], row[start + 6], row[start + 7]);
        let (xl, xh) = (row[start + 8], row[start + 9]);
        let res = Fu32_2 { lo: row[start + 10], hi: row[start + 11] };
        let (l0, l1, l2, h0, h1, h2) = (limbs[0], limbs[1], limbs[2], limbs[3], limbs[4], limbs[5]);
        let mut lookups: Vec<Vec<M31>> = Vec::new();
        match sigma_type {
            SigmaType::SmallSigma0 => {
                lookups.push(vec![l1, l2, h2, o0l, o0h, s0l, s0h]);
                lookups.push(vec![l0, h0, h1, o1l, o1h, s1l, s1h]);
                lookups.push(vec![s0l, s0h, s1l, s1h, xl, xh]);
            },
            SigmaType::SmallSigma1 => {
                lookups.push(vec![l0, h0, o0l, o0h, s0l, s0h]);
                lookups.push(vec![l1, l2, h1, h2, o1l, o1h, s1l, s1h]);
                lookups.push(vec![s0l, s0h, s1l, s1h, xl, xh]);
            },
            SigmaType::BigSigma0 => {
                lookups.push(vec![l1, l2, h2, o0l, o0h, s0l, s0h]);
                lookups.push(vec![l0, h0, h1, o1l, o1h, s1l, s1h]);
                lookups.push(vec![s0l, s1l, xl]);
                lookups.push(vec![s0h, s1h, xh]);
            },
            SigmaType::BigSigma1 => {
                lookups.push(vec![l0, h0, h1, o0l, o0h, s0l, s0h]);
                lookups.push(vec![l1, l2, h2, o1l, o1h, s1l, s1h]);
                lookups.push(vec![s0l, s0h, s1l, s1h, xl, xh]);
            },
        }
        let constraints = add3_u32_constraints(
            Fu32_2 { lo: o0l, hi: o0h },
            Fu32_2 { lo: o1l, hi: o1h },
            Fu32_2 { lo: xl, hi: xh },
            res,
        );
        let range_check_16 = [res.lo, res.hi];
        proof {
            assert(lookups@.map_values(|v: Vec<M31>| v@) =~= spec_sigma_lookups(sigma_type, limbs, c));
            assert(range_check_16@ =~= seq![res.lo, res.hi]);
        }
        SigmaAir { lookups, constraints, range_check_16, res }
    }
}

/// Bit facts behind the sizes of a sigma's parts.
proof fn lemma_u16_parts(x: u32, m: u32, a: u32, b: u32)
    by (bit_vector)
    ensures
        m < 65536 ==> x & m < 65536,
        (x & m) >> 16u32 < 65536,
        (a < 65536 && b < 65536) ==> a ^ b < 65536,
{
}

/// The eight outputs of a sigma are 16-bit values.
proof fn lemma_outputs_are_u16(sigma: SigmaType, l: [M31; 6])
    ensures
        forall|k: int| 0 <= k < 8 ==> (#[trigger] spec_get_output(sigma, l)[k]).0 < 65536,
{
    let out0 = sigma_fn(sigma, sigma_inputs(sigma, l).0);
    let out1 = sigma_fn(sigma, sigma_inputs(sigma, l).1);
    let m = output_masks(sigma);
    assert(m[0] < 65536 && m[2] < 65536 && m[4] < 65536);
    lemma_u16_parts(out0, m[0], 0, 0);
    lemma_u16_parts(out0, m[1], 0, 0);
    lemma_u16_parts(out1, m[2], 0, 0);
    lemma_u16_parts(out1, m[3], 0, 0);
    lemma_u16_parts(out0, m[4], 0, 0);
    lemma_u16_parts(out1, m[4], 0, 0);
    lemma_u16_parts(out0, m[5], 0, 0);
    lemma_u16_parts(out1, m[5], 0, 0);
    assert forall|v: u32| v < 65536 implies #[trigger] (v % P) == v by {
        vstd::arithmetic::div_mod::lemma_small_mod(v as nat, P as nat);
    }
}

/// On the twelve columns the witness writes for a sigma, the constraints
/// read back the witness: the lookups carry its outputs and XORs, the sum
/// has 16-bit halves and is the sum of the three parts modulo `2^32`, and
/// both carry checks vanish. This holds for any input limbs.
pub proof fn lemma_sigma_air_accepts_witness(sigma: SigmaType, limbs: [M31; 6])
    ensures
        ({
            let w = spec_sigma(sigma, limbs);
            let c = sigma_columns(w);
            &&& spec_sigma_constraints(c) == (M31(0), M31(0))
            &&& air_res(c) == w.res
            &&& is_u32_halves(air_res(c))
            &&& word_value(air_res(c)) == (word_value(air_out0(c)) + word_value(air_out1(c))
                + word_value(air_xor(c))) % 0x1_0000_0000
        }),
{
    let w = spec_sigma(sigma, limbs);
    let c = sigma_columns(w);
    let o = spec_get_output(sigma, limbs);
    lemma_outputs_are_u16(sigma, limbs);
    assert(o[4].0 < 65536 && o[5].0 < 65536 && o[6].0 < 65536 && o[7].0 < 65536);
    lemma_u16_parts(0, 0, o[4].0, o[5].0);
    lemma_u16_parts(0, 0, o[6].0, o[7].0);
    vstd::arithmetic::div_mod::lemma_small_mod((o[4].0 ^ o[5].0) as nat, P as nat);
    vstd::arithmetic::div_mod::lemma_small_mod((o[6].0 ^ o[7].0) as nat, P as nat);
    let a = Fu32_2 { lo: o[0], hi: o[1] };
    let b = Fu32_2 { lo: o[2], hi: o[3] };
    let x = Fu32_2 { lo: w.xor_lo, hi: w.xor_hi };
    assert(o[0].0 < 65536 && o[1].0 < 65536 && o[2].0 < 65536 && o[3].0 < 65536);
    assert(c.len() == 12);
    assert(air_out0(c) == a);
    assert(air_out1(c) == b);
    assert(air_xor(c) == x);
    assert(air_res(c) == w.res);
    lemma_add3_witness_satisfies_constraints(a, b, x);
    lemma_add3_is_wrapping_sum(a, b, x);
}

} // verus!
