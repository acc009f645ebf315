//! SHA-256 component: the message schedule and the 64 rounds of one
//! compression, one block per row.
//!
//! Each 32-bit word is held as two 16-bit halves. Before a sigma function the
//! word is split, by bit masks, into three low and three high limbs; the
//! sigma function applied to two groups of limbs gives parts that the
//! preprocessed sigma and XOR tables check, and their sum is the sigma of the
//! word.
use crate::components::SECURE_EXTENSION_DEGREE;
use crate::field::{fadd, fmul, M31};
use vstd::prelude::*;

pub mod air;
pub mod witness;

verus! {

/// Number of field elements of a message block: 16 words of two halves.
pub const MESSAGE_SIZE: usize = 2 * 16;
/// Number of rounds.
pub const N_ROUNDS: usize = 64;

/// Trace columns per sigma: the six limbs of the input, eight outputs, two
/// XORs and the two halves of the sum.
pub const N_TRACE_PER_SIGMA: usize = 6 + 8 + 2 + 2;
/// Trace columns per Ch or Maj: six limbs for each of the two words.
pub const N_TRACE_PER_MAJ_CH: usize = 2 * 4;
/// Number of trace columns: message loading, message schedule and rounds.
pub const N_TRACE_COLUMNS: usize = 2 * 16 + (64 - 16) * (2 * N_TRACE_PER_SIGMA + 2 * 2) + 64 * (2
    * N_TRACE_PER_SIGMA + 2 * N_TRACE_PER_MAJ_CH + 2 * 3 + 4 * 8);

/// Lookups into each small-sigma table.
pub const N_SMALL_SIGMA_LOOKUPS: usize = N_ROUNDS - MESSAGE_SIZE / 2;
/// Lookups into each big-sigma table.
pub const N_BIG_SIGMA_LOOKUPS: usize = N_ROUNDS;
/// Lookups into the Ch table.
pub const N_CH_LOOKUPS: usize = 4 * N_ROUNDS;
/// Lookups into the Maj table.
pub const N_MAJ_LOOKUPS: usize = 4 * N_ROUNDS;
/// 16-bit range checks.
pub const N_RANGE_CHECK_16_LOOKUPS: usize = 2 * 16 + 2 * 2 * N_ROUNDS + 2 * 2 * (N_ROUNDS - MESSAGE_SIZE / 2);
/// Number of interaction columns: four per pair of lookups over the four
/// small-sigma, four big-sigma, two small and three big XOR tables, Ch, Maj
/// and the range checks.
pub const N_INTERACTION_COLUMNS: usize = SECURE_EXTENSION_DEGREE * ((4 * N_SMALL_SIGMA_LOOKUPS + 4
    * N_BIG_SIGMA_LOOKUPS + 2 * N_SMALL_SIGMA_LOOKUPS + 3 * N_BIG_SIGMA_LOOKUPS + N_CH_LOOKUPS
    + N_MAJ_LOOKUPS + N_RANGE_CHECK_16_LOOKUPS + 1) / 2);

/// The four sigma functions of SHA-256.
#[derive(Clone, Copy, Debug, PartialEq, Eq, Structural)]
pub enum SigmaType {
    /// `rotr 3 ^ rotr 7 ^ rotr 18`.
    SmallSigma0,
    /// `rotr 10 ^ rotr 17 ^ rotr 19`.
    SmallSigma1,
    /// `rotr 6 ^ rotr 11 ^ rotr 25`.
    BigSigma0,
    /// `rotr 2 ^ rotr 13 ^ rotr 22`.
    BigSigma1,
}

/// The claim of the component: the log size of its trace.
#[derive(Clone, Copy, Debug, Default, PartialEq, Eq, Structural)]
pub struct Claim {
    /// Log2 of the number of rows.
    pub log_size: u32,
}

/// The constraint evaluator of the component.
#[derive(Clone, Copy, Debug, PartialEq, Eq, Structural)]
pub struct Eval {
    /// The claim the evaluator checks.
    pub claim: Claim,
}

impl Eval {
    /// Log2 of the number of rows of the evaluated trace.
    pub fn log_size(&self) -> (r: u32)
        ensures
            r == self.claim.log_size,
    {
        self.claim.log_size
    }

    /// Bound on the log degree of the constraints: one more than the log size.
    pub fn max_constraint_log_degree_bound(&self) -> (r: u32)
        requires
            self.claim.log_size < u32::MAX,
        ensures
            r == self.claim.log_size + 1,
    {
        self.claim.log_size + 1
    }
}

/// A `u32` as two field elements: its low and high 16-bit halves.
#[allow(non_camel_case_types)]
#[derive(Clone, Copy, Debug, PartialEq, Eq, Structural)]
pub struct Fu32_2 {
    /// The low half.
    pub lo: M31,
    /// The high half.
    pub hi: M31,
}

impl Fu32_2 {
    /// The two halves, low first.
    pub fn into_felts(self) -> (r: [M31; 2])
        ensures
            r@ == seq![self.lo, self.hi],
    {
        let r = [self.lo, self.hi];
        assert(r@ =~= seq![self.lo, self.hi]);
        r
    }

    /// The zero word.
    pub fn zero() -> (r: Self)
        ensures
            r.lo.0 == 0 && r.hi.0 == 0,
    {
        Fu32_2 { lo: M31::zero(), hi: M31::zero() }
    }

    /// Whether both halves are zero.
    pub fn is_zero(&self) -> (r: bool)
        ensures
            r == (self.lo.0 == 0 && self.hi.0 == 0),
    {
        self.lo.0 == 0 && self.hi.0 == 0
    }
}

/// A `u32` as four field elements: two limbs for each half.
#[allow(non_camel_case_types)]
#[derive(Clone, Copy, Debug, PartialEq, Eq, Structural)]
pub struct Fu32_4 {
    /// First limb of the low half.
    pub lo0: M31,
    /// Second limb of the low half.
    pub lo1: M31,
    /// First limb of the high half.
    pub hi0: M31,
    /// Second limb of the high half.
    pub hi1: M31,
}

impl Fu32_4 {
    /// The four limbs in order.
    pub fn into_felts(self) -> (r: [M31; 4])
        ensures
            r@ == seq![self.lo0, self.lo1, self.hi0, self.hi1],
    {
        let r = [self.lo0, self.lo1, self.hi0, self.hi1];
        assert(r@ =~= seq![self.lo0, self.lo1, self.hi0, self.hi1]);
        r
    }

    /// The word with the four limbs given in order.
    pub fn from_array(array: [M31; 4]) -> (r: Self)
        ensures
            r == (Fu32_4 { lo0: array[0], lo1: array[1], hi0: array[2], hi1: array[3] }),
    {
        Fu32_4 { lo0: array[0], lo1: array[1], hi0: array[2], hi1: array[3] }
    }

    /// The zero word.
    pub fn zero() -> (r: Self)
        ensures
            r.lo0.0 == 0 && r.lo1.0 == 0 && r.hi0.0 == 0 && r.hi1.0 == 0,
    {
        Fu32_4 { lo0: M31::zero(), lo1: M31::zero(), hi0: M31::zero(), hi1: M31::zero() }
    }

    /// Whether all four limbs are zero.
    pub fn is_zero(&self) -> (r: bool)
        ensures
            r == (self.lo0.0 == 0 && self.lo1.0 == 0 && self.hi0.0 == 0 && self.hi1.0 == 0),
    {
        self.lo0.0 == 0 && self.lo1.0 == 0 && self.hi0.0 == 0 && self.hi1.0 == 0
    }
}

/// The two halves of a four-limb word: each half is its first limb plus its
/// second limb times `2^8`.
pub open spec fn halves_of(value: Fu32_4) -> Fu32_2 {
    Fu32_2 {
        lo: fadd(value.lo0, fmul(value.lo1, M31(256))),
        hi: fadd(value.hi0, fmul(value.hi1, M31(256))),
    }
}

impl From<Fu32_4> for Fu32_2 {
    fn from(value: Fu32_4) -> (r: Self) {
        let two_pow_8 = M31(256);
        Fu32_2 { lo: value.lo0.add(value.lo1.mul(two_pow_8)), hi: value.hi0.add(value.hi1.mul(two_pow_8)) }
    }
}

impl vstd::std_specs::convert::FromSpecImpl<Fu32_4> for Fu32_2 {
    open spec fn obeys_from_spec() -> bool {
        true
    }

    open spec fn from_spec(value: Fu32_4) -> Fu32_2 {
        halves_of(value)
    }
}

} // verus!
