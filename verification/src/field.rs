//! The Mersenne-31 prime field and its degree-4 extension, as used by the prover.
//!
//! An `M31` is held as a `u32`; its canonical representatives are `0..P`.
//! Every arithmetic operation reduces modulo `P`, so results are canonical
//! whatever the inputs.
use vstd::prelude::*;

verus! {

/// The field modulus `2^31 - 1`.
pub const P: u32 = 2147483647;

/// An element of the prime field of order `P`.
#[derive(Clone, Copy, Debug, PartialEq, Eq, Structural, Default)]
pub struct M31(pub u32);

/// The spec modulus as an integer.
pub open spec fn modulus() -> int {
    P as int
}

/// Reduction of an integer into `0..P` (Euclidean remainder).
pub open spec fn fmod(x: int) -> int {
    x % modulus()
}

/// Field addition on representatives.
pub open spec fn fadd(a: M31, b: M31) -> M31 {
    M31(fmod(a.0 + b.0) as u32)
}

/// Field subtraction on representatives.
pub open spec fn fsub(a: M31, b: M31) -> M31 {
    M31(fmod(a.0 - b.0) as u32)
}

/// Field multiplication on representatives.
pub open spec fn fmul(a: M31, b: M31) -> M31 {
    M31(fmod(a.0 * b.0) as u32)
}

impl M31 {
    /// Canonical elements are those below the modulus.
    pub open spec fn wf(self) -> bool {
        self.0 < P
    }

    /// The integer this element stands for.
    pub open spec fn val(self) -> int {
        self.0 as int
    }

    /// The additive identity.
    pub fn zero() -> (r: M31)
        ensures
            r.0 == 0,
    {
        M31(0)
    }

    /// The multiplicative identity.
    pub fn one() -> (r: M31)
        ensures
            r.0 == 1,
    {
        M31(1)
    }

    /// Reduces any `u32` into the field (the behaviour of `M31::from(u32)`).
    pub fn from_u32(x: u32) -> (r: M31)
        ensures
            r.0 == x % P,
            r.wf(),
    {
        M31(x % P)
    }

    /// Reduces any `usize` into the field.
    pub fn from_usize(x: usize) -> (r: M31)
        ensures
            r.0 == x % (P as usize),
            r.wf(),
    {
        M31((x % (P as usize)) as u32)
    }

    /// Wraps a `u32` without reducing it.
    pub fn from_u32_unchecked(x: u32) -> (r: M31)
        ensures
            r.0 == x,
    {
        M31(x)
    }

    /// Field addition.
    pub fn add(self, other: M31) -> (r: M31)
        ensures
            r.0 == fmod(self.0 + other.0),
            r == fadd(self, other),
            r.wf(),
    {
        let s: u64 = self.0 as u64 + other.0 as u64;
        M31((s % (P as u64)) as u32)
    }

    /// Field subtraction.
    pub fn sub(self, other: M31) -> (r: M31)
        ensures
            r.0 == fmod(self.0 - other.0),
            r == fsub(self, other),
            r.wf(),
    {
        let a: u64 = (self.0 % P) as u64;
        let b: u64 = (other.0 % P) as u64;
        let s: u64 = a + (P as u64) - b;
        proof {
            lemma_sub_mod(self.0 as int, other.0 as int);
        }
        M31((s % (P as u64)) as u32)
    }

    /// Field negation.
    pub fn neg(self) -> (r: M31)
        ensures
            r.0 == fmod(-self.0),
            r.wf(),
    {
        M31::zero().sub(self)
    }

    /// Field multiplication.
    pub fn mul(self, other: M31) -> (r: M31)
        ensures
            r.0 == fmod(self.0 * other.0),
            r == fmul(self, other),
            r.wf(),
    {
        let a: u64 = self.0 as u64;
        let b: u64 = other.0 as u64;
        assert(a * b <= u32::MAX as u64 * u32::MAX as u64) by (nonlinear_arith)
            requires
                a <= u32::MAX,
                b <= u32::MAX,
        ;
        let m: u64 = a * b;
        M31((m % (P as u64)) as u32)
    }

    /// Squaring.
    pub fn square(self) -> (r: M31)
        ensures
            r.0 == fmod(self.0 * self.0),
            r.wf(),
    {
        self.mul(self)
    }
}

/// `(a - b) mod P` computed from the reduced operands.
pub proof fn lemma_sub_mod(a: int, b: int)
    requires
        0 <= a,
        0 <= b,
    ensures
        (a % modulus() + modulus() - b % modulus()) % modulus() == fmod(a - b),
{
    let p = modulus();
    vstd::arithmetic::div_mod::lemma_fundamental_div_mod(a, p);
    vstd::arithmetic::div_mod::lemma_fundamental_div_mod(b, p);
    let qa = a / p;
    let qb = b / p;
    let x = a % p + p - b % p;
    assert(x == (a - b) + p * (qb - qa + 1)) by (nonlinear_arith)
        requires
            a == p * qa + a % p,
            b == p * qb + b % p,
            x == a % p + p - b % p,
    ;
    vstd::arithmetic::div_mod::lemma_mod_multiples_vanish(qb - qa + 1, a - b, p);
}

/// An element of the degree-4 secure extension, held as its four base coordinates.
#[derive(Clone, Copy, Debug, PartialEq, Eq, Structural, Default)]
pub struct QM31(pub M31, pub M31, pub M31, pub M31);

impl QM31 {
    /// The four coordinates as a sequence.
    pub open spec fn coords(self) -> Seq<M31> {
        seq![self.0, self.1, self.2, self.3]
    }

    /// Builds an extension element from four raw coordinates, without reduction.
    pub fn from_u32_unchecked(a: u32, b: u32, c: u32, d: u32) -> (r: QM31)
        ensures
            r == QM31(M31(a), M31(b), M31(c), M31(d)),
    {
        QM31(M31(a), M31(b), M31(c), M31(d))
    }

    /// Builds an extension element from its four coordinates.
    pub fn from_m31_array(values: [M31; 4]) -> (r: QM31)
        ensures
            r.coords() == values@,
    {
        let r = QM31(values[0], values[1], values[2], values[3]);
        assert(r.coords() =~= values@);
        r
    }

    /// Embeds a base-field element as `(x, 0, 0, 0)`.
    pub fn from_m31(x: M31) -> (r: QM31)
        ensures
            r == QM31(x, M31(0), M31(0), M31(0)),
    {
        QM31(x, M31(0), M31(0), M31(0))
    }

    /// The four coordinates.
    pub fn to_m31_array(&self) -> (r: [M31; 4])
        ensures
            r@ == self.coords(),
    {
        let r = [self.0, self.1, self.2, self.3];
        assert(r@ =~= self.coords());
        r
    }
}

/// One step of the extended Euclidean algorithm keeps `t * x == r (mod m)`:
/// from `t0 * x == r0` and `t1 * x == r1`, `(t0 - q * t1) mod m` times `x`
/// is `r0 - q * r1`.
pub proof fn lemma_euclid_step(t0: int, t1: int, q: int, x: int, r0: int, r1: int, m: int)
    requires
        m > 0,
        0 <= t0,
        0 <= t1,
        0 <= q,
        (t0 * x) % m == r0 % m,
        (t1 * x) % m == r1 % m,
    ensures
        (((t0 + m - (q % m) * t1 % m) % m) * x) % m == (r0 - q * r1) % m,
{
    let qt = (q % m) * t1 % m;
    vstd::arithmetic::div_mod::lemma_mul_mod_noop_left(q, t1, m);
    assert(qt == (q * t1) % m);
    vstd::arithmetic::div_mod::lemma_mod_add_multiples_vanish(t0 - qt, m);
    vstd::arithmetic::div_mod::lemma_sub_mod_noop_right(t0, q * t1, m);
    let t2 = (t0 + m - qt) % m;
    assert(t2 == (t0 - q * t1) % m);
    vstd::arithmetic::div_mod::lemma_mul_mod_noop_left(t0 - q * t1, x, m);
    assert((t0 - q * t1) * x == t0 * x - q * (t1 * x)) by (nonlinear_arith);
    vstd::arithmetic::div_mod::lemma_sub_mod_noop(t0 * x, q * (t1 * x), m);
    vstd::arithmetic::div_mod::lemma_mul_mod_noop_right(q, t1 * x, m);
    vstd::arithmetic::div_mod::lemma_mul_mod_noop_right(q, r1, m);
    vstd::arithmetic::div_mod::lemma_sub_mod_noop(r0, q * r1, m);
}

/// A divisor of `r1` and of `r0 - q * r1` divides `r0`.
pub proof fn lemma_divides_back(d: int, r0: int, r1: int, q: int)
    requires
        d > 0,
        r1 % d == 0,
        (r0 - q * r1) % d == 0,
    ensures
        r0 % d == 0,
{
    vstd::arithmetic::div_mod::lemma_mul_mod_noop_right(q, r1, d);
    assert(q * (r1 % d) == 0);
    assert(0int % d == 0);
    assert((q * r1) % d == 0);
    vstd::arithmetic::div_mod::lemma_add_mod_noop(r0 - q * r1, q * r1, d);
    assert((r0 - q * r1) + q * r1 == r0);
}

/// A common divisor `g >= 2` of `x` and `m` leaves `x` without inverse modulo `m`.
pub proof fn lemma_no_inverse(x: int, y: int, m: int, g: int)
    requires
        m > 0,
        g >= 2,
        x % g == 0,
        m % g == 0,
    ensures
        (x * y) % m != 1,
{
    if (x * y) % m == 1 {
        let k = (x * y) / m;
        vstd::arithmetic::div_mod::lemma_fundamental_div_mod(x * y, m);
        vstd::arithmetic::div_mod::lemma_mul_mod_noop_left(x, y, g);
        vstd::arithmetic::div_mod::lemma_mul_mod_noop_left(m, k, g);
        assert(0 * y == 0 && 0 * k == 0);
        assert(x * y - m * k == 1) by (nonlinear_arith)
            requires
                x * y == m * k + 1,
        ;
        assert(m * k == k * m) by (nonlinear_arith);
        vstd::arithmetic::div_mod::lemma_sub_mod_noop(x * y, m * k, g);
        vstd::arithmetic::div_mod::lemma_small_mod(1, g as nat);
    }
}

impl M31 {
    /// The multiplicative inverse, by the extended Euclidean algorithm on
    /// `(P, x)`: `Some(y)` with `x * y == 1`, or `None` when `x` has no
    /// inverse (zero).
    pub fn inverse(self) -> (r: Option<M31>)
        requires
            self.wf(),
        ensures
            match r {
                Some(y) => y.wf() && fmul(self, y) == M31(1),
                None => forall|y: M31| #[trigger] fmul(self, y) != M31(1),
            },
    {
        let x: u64 = self.0 as u64;
        let p: u64 = P as u64;
        let mut r0: u64 = p;
        let mut r1: u64 = x;
        let mut t0: u64 = 0;
        let mut t1: u64 = 1;
        proof {
            assert(0 * x == 0);
            assert(1 * x == x);
        }
        while r1 != 0
            invariant
                p == P,
                x == self.0,
                x < p,
                0 < r0 <= p,
                r1 < r0,
                t0 < p,
                t1 < p,
                (t0 * x) % (p as int) == (r0 as int) % (p as int),
                (t1 * x) % (p as int) == (r1 as int) % (p as int),
                forall|d: int|
                    d > 0 && #[trigger] (r0 as int % d) == 0 && r1 as int % d == 0 ==> x as int % d == 0 && p as int
                        % d == 0,
            decreases r1,
        {
            let q = r0 / r1;
            let r2 = r0 % r1;
            proof {
                vstd::arithmetic::div_mod::lemma_fundamental_div_mod(r0 as int, r1 as int);
                vstd::arithmetic::mul::lemma_mul_is_commutative(r1 as int, q as int);
                assert(r2 == r0 - q * r1);
                assert(q * r1 <= r0);
            }
            assert((q % p) * t1 < p * p) by (nonlinear_arith)
                requires
                    q % p < p,
                    t1 < p,
            ;
            let m = (q % p) * t1 % p;
            let t2 = (t0 + p - m) % p;
            proof {
                lemma_euclid_step(t0 as int, t1 as int, q as int, x as int, r0 as int, r1 as int, p as int);
                assert forall|d: int|
                    d > 0 && #[trigger] (r1 as int % d) == 0 && r2 as int % d == 0 implies x as int % d == 0
                        && p as int % d == 0 by {
                    lemma_divides_back(d, r0 as int, r1 as int, q as int);
                }
            }
            r0 = r1;
            r1 = r2;
            t0 = t1;
            t1 = t2;
        }
        if r0 == 1 {
            let y = M31(t0 as u32);
            proof {
                vstd::arithmetic::mul::lemma_mul_is_commutative(x as int, t0 as int);
                vstd::arithmetic::div_mod::lemma_small_mod(1, P as nat);
            }
            Some(y)
        } else {
            proof {
                assert(r0 as int % r0 as int == 0) by {
                    vstd::arithmetic::div_mod::lemma_mod_self_0(r0 as int);
                }
                assert(0int % (r0 as int) == 0);
                assert forall|y: M31| #[trigger] fmul(self, y) != M31(1) by {
                    lemma_no_inverse(x as int, y.0 as int, P as int, r0 as int);
                }
            }
            None
        }
    }
}

/// Field multiplication is commutative.
pub proof fn lemma_fmul_comm(a: M31, b: M31)
    ensures
        fmul(a, b) == fmul(b, a),
{
    vstd::arithmetic::mul::lemma_mul_is_commutative(a.0 as int, b.0 as int);
}

/// Field multiplication is associative.
pub proof fn lemma_fmul_assoc(a: M31, b: M31, c: M31)
    ensures
        fmul(fmul(a, b), c) == fmul(a, fmul(b, c)),
{
    let (x, y, z) = (a.0 as int, b.0 as int, c.0 as int);
    let p = modulus();
    vstd::arithmetic::div_mod::lemma_mul_mod_noop_left(x * y, z, p);
    vstd::arithmetic::div_mod::lemma_mul_mod_noop_right(x, y * z, p);
    vstd::arithmetic::mul::lemma_mul_is_associative(x, y, z);
    assert(fmul(a, b).0 == (x * y) % p);
    assert(fmul(b, c).0 == (y * z) % p);
}

/// One is neutral for multiplication of canonical elements.
pub proof fn lemma_fmul_one(a: M31)
    requires
        a.wf(),
    ensures
        fmul(a, M31(1)) == a,
        fmul(M31(1), a) == a,
{
    assert(a.0 * 1 == a.0 && 1 * a.0 == a.0);
    vstd::arithmetic::div_mod::lemma_small_mod(a.0 as nat, P as nat);
}

/// An element has at most one canonical inverse.
pub proof fn lemma_inverse_unique(x: M31, y1: M31, y2: M31)
    requires
        y1.wf(),
        y2.wf(),
        fmul(x, y1) == M31(1),
        fmul(x, y2) == M31(1),
    ensures
        y1 == y2,
{
    lemma_fmul_one(y1);
    lemma_fmul_one(y2);
    lemma_fmul_assoc(y1, x, y2);
    lemma_fmul_comm(y1, x);
}

/// `x` has a canonical inverse.
pub open spec fn invertible(x: M31) -> bool {
    exists|y: M31| y.wf() && #[trigger] fmul(x, y) == M31(1)
}

/// The canonical inverse of `x`, or zero when it has none.
pub open spec fn inv_or_zero(x: M31) -> M31 {
    if invertible(x) {
        choose|y: M31| y.wf() && #[trigger] fmul(x, y) == M31(1)
    } else {
        M31(0)
    }
}

impl M31 {
    /// The inverse of an invertible element, zero for any other (zero).
    pub fn inverse_or_zero(self) -> (r: M31)
        requires
            self.wf(),
        ensures
            r == inv_or_zero(self),
            r.wf(),
            invertible(self) ==> fmul(self, r) == M31(1),
    {
        match self.inverse() {
            Some(y) => {
                proof {
                    assert(invertible(self));
                    let c = choose|z: M31| z.wf() && #[trigger] fmul(self, z) == M31(1);
                    lemma_inverse_unique(self, y, c);
                }
                y
            },
            None => M31(0),
        }
    }
}

} // verus!
