//! Witness arithmetic of the SHA-256 component: the splitting of words into
//! limbs by bit masks, the sigma functions on groups of limbs, and the
//! additions, Ch and Maj on limbs.
use crate::components::sha256::{Claim, Fu32_2, SigmaType, N_INTERACTION_COLUMNS, N_TRACE_COLUMNS};
use crate::components::{component_log_sizes, is_component_log_sizes};
use crate::field::{fadd, fmul, fsub, M31, P};
use vstd::prelude::*;

verus! {

/// Small sigma 0, low limb 0 (bits 1, 3, 5, 7, 9, 11, 14).
pub const MASK_SMALL_SIGMA0_L0: u32 = 0x4aaa;
/// Small sigma 0, low limb 1 (bits 0, 2, 4, 6, 8).
pub const MASK_SMALL_SIGMA0_L1: u32 = 0x155;
/// Small sigma 0, low limb 2 (bits 10, 12, 13, 15).
pub const MASK_SMALL_SIGMA0_L2: u32 = 0xb400;
/// Small sigma 0, high limb 0 (bits 16, 18, 20, 22).
pub const MASK_SMALL_SIGMA0_H0: u32 = 0x550000;
/// Small sigma 0, high limb 1 (bits 24, 26, 28, 29, 31).
pub const MASK_SMALL_SIGMA0_H1: u32 = 0xb5000000;
/// Small sigma 0, high limb 2 (bits 17, 19, 21, 23, 25, 27, 30).
pub const MASK_SMALL_SIGMA0_H2: u32 = 0x4aaa0000;
/// Small sigma 0, low bits of the first output.
pub const MASK_SMALL_SIGMA0_OUT0_LO: u32 = 0x2aa0;
/// Small sigma 0, low bits of the second output.
pub const MASK_SMALL_SIGMA0_OUT1_LO: u32 = 0x5550;
/// Small sigma 0, high bits of the first output.
pub const MASK_SMALL_SIGMA0_OUT0_HI: u32 = 0x55500000;
/// Small sigma 0, high bits of the second output.
pub const MASK_SMALL_SIGMA0_OUT1_HI: u32 = 0x2aa00000;
/// Small sigma 0, low bits both outputs touch.
pub const MASK_SMALL_SIGMA0_OUT2_LO: u32 = 0x800f;
/// Small sigma 0, high bits both outputs touch.
pub const MASK_SMALL_SIGMA0_OUT2_HI: u32 = 0x800f0000;

/// Small sigma 1, low limb 0 (bits 0, 2, 7, 9, 14).
pub const MASK_SMALL_SIGMA1_L0: u32 = 0x4285;
/// Small sigma 1, low limb 1 (bits 1, 3, 4, 5, 6, 8).
pub const MASK_SMALL_SIGMA1_L1: u32 = 0x17a;
/// Small sigma 1, low limb 2 (bits 10, 11, 12, 13, 15).
pub const MASK_SMALL_SIGMA1_L2: u32 = 0xbc00;
/// Small sigma 1, high limb 0 (bits 18, 21, 23, 25, 27, 30).
pub const MASK_SMALL_SIGMA1_H0: u32 = 0x4aa40000;
/// Small sigma 1, high limb 1 (bits 17, 19, 20, 22, 24).
pub const MASK_SMALL_SIGMA1_H1: u32 = 0x15a0000;
/// Small sigma 1, high limb 2 (bits 26, 28, 29, 31).
pub const MASK_SMALL_SIGMA1_H2: u32 = 0xb4000000;
/// Small sigma 1, low bits of the first output.
pub const MASK_SMALL_SIGMA1_OUT0_LO: u32 = 0x150a;
/// Small sigma 1, low bits of the second output.
pub const MASK_SMALL_SIGMA1_OUT1_LO: u32 = 0x2a95;
/// Small sigma 1, high bits of the first output.
pub const MASK_SMALL_SIGMA1_OUT0_HI: u32 = 0x40a0000;
/// Small sigma 1, high bits of the second output.
pub const MASK_SMALL_SIGMA1_OUT1_HI: u32 = 0x6ad50000;
/// Small sigma 1, low bits both outputs touch.
pub const MASK_SMALL_SIGMA1_OUT2_LO: u32 = 0xc060;
/// Small sigma 1, high bits both outputs touch.
pub const MASK_SMALL_SIGMA1_OUT2_HI: u32 = 0x91200000;

/// Big sigma 0, low limb 0 (bits 1, 4, 7, 9, 12, 13, 14).
pub const MASK_BIG_SIGMA0_L0: u32 = 0x7292;
/// Big sigma 0, low limb 1 (bits 0, 2, 3, 5, 6).
pub const MASK_BIG_SIGMA0_L1: u32 = 0x6d;
/// Big sigma 0, low limb 2 (bits 8, 10, 11, 15).
pub const MASK_BIG_SIGMA0_L2: u32 = 0x8d00;
/// Big sigma 0, high limb 0 (bits 17, 18, 20, 22, 23).
pub const MASK_BIG_SIGMA0_H0: u32 = 0xd60000;
/// Big sigma 0, high limb 1 (bits 26, 27, 28, 31).
pub const MASK_BIG_SIGMA0_H1: u32 = 0x9c000000;
/// Big sigma 0, high limb 2 (bits 16, 19, 21, 24, 25, 29, 30).
pub const MASK_BIG_SIGMA0_H2: u32 = 0x63290000;
/// Big sigma 0, low bits of the first output.
pub const MASK_BIG_SIGMA0_OUT0_LO: u32 = 0x4318;
/// Big sigma 0, low bits of the second output.
pub const MASK_BIG_SIGMA0_OUT1_LO: u32 = 0x84a4;
/// Big sigma 0, high bits of the first output.
pub const MASK_BIG_SIGMA0_OUT0_HI: u32 = 0x48420000;
/// Big sigma 0, high bits of the second output.
pub const MASK_BIG_SIGMA0_OUT1_HI: u32 = 0x21100000;
/// Big sigma 0, low bits both outputs touch.
pub const MASK_BIG_SIGMA0_OUT2_LO: u32 = 0x3843;
/// Big sigma 0, high bits both outputs touch.
pub const MASK_BIG_SIGMA0_OUT2_HI: u32 = 0x96ad0000;

/// Big sigma 1, low limb 0 (bits 0, 1, 7, 8, 9, 10, 11).
pub const MASK_BIG_SIGMA1_L0: u32 = 0xf83;
/// Big sigma 1, low limb 1 (bits 2, 3, 4, 5, 6).
pub const MASK_BIG_SIGMA1_L1: u32 = 0x7c;
/// Big sigma 1, low limb 2 (bits 12, 13, 14, 15).
pub const MASK_BIG_SIGMA1_L2: u32 = 0xf000;
/// Big sigma 1, high limb 0 (bits 18, 19, 20, 21, 22).
pub const MASK_BIG_SIGMA1_H0: u32 = 0x7c0000;
/// Big sigma 1, high limb 1 (bits 28, 29, 30, 31).
pub const MASK_BIG_SIGMA1_H1: u32 = 0xf0000000;
/// Big sigma 1, high limb 2 (bits 16, 17, 23, 24, 25, 26, 27).
pub const MASK_BIG_SIGMA1_H2: u32 = 0xf830000;
/// Big sigma 1, low bits of the first output.
pub const MASK_BIG_SIGMA1_OUT0_LO: u32 = 0x1e03;
/// Big sigma 1, low bits of the second output.
pub const MASK_BIG_SIGMA1_OUT1_LO: u32 = 0x80f0;
/// Big sigma 1, high bits of the first output.
pub const MASK_BIG_SIGMA1_OUT0_HI: u32 = 0x80f00000;
/// Big sigma 1, high bits of the second output.
pub const MASK_BIG_SIGMA1_OUT1_HI: u32 = 0x1e030000;
/// Big sigma 1, low bits both outputs touch.
pub const MASK_BIG_SIGMA1_OUT2_LO: u32 = 0x610c;
/// Big sigma 1, high bits both outputs touch.
pub const MASK_BIG_SIGMA1_OUT2_HI: u32 = 0x610c0000;

impl Claim {
    /// The log sizes of the component's columns, tree by tree.
    pub fn log_sizes(&self) -> (r: Vec<Vec<u32>>)
        ensures
            is_component_log_sizes(r@, self.log_size, N_TRACE_COLUMNS as nat, N_INTERACTION_COLUMNS as nat),
    {
        component_log_sizes(self.log_size, N_TRACE_COLUMNS, N_INTERACTION_COLUMNS)
    }
}

/// The six limb masks of a sigma type: three low, three high.
pub open spec fn limb_masks(sigma: SigmaType) -> [u32; 6] {
    match sigma {
        SigmaType::SmallSigma0 => [
            MASK_SMALL_SIGMA0_L0,
            MASK_SMALL_SIGMA0_L1,
            MASK_SMALL_SIGMA0_L2,
            MASK_SMALL_SIGMA0_H0,
            MASK_SMALL_SIGMA0_H1,
            MASK_SMALL_SIGMA0_H2,
        ],
        SigmaType::SmallSigma1 => [
            MASK_SMALL_SIGMA1_L0,
            MASK_SMALL_SIGMA1_L1,
            MASK_SMALL_SIGMA1_L2,
            MASK_SMALL_SIGMA1_H0,
            MASK_SMALL_SIGMA1_H1,
            MASK_SMALL_SIGMA1_H2,
        ],
        SigmaType::BigSigma0 => [
            MASK_BIG_SIGMA0_L0,
            MASK_BIG_SIGMA0_L1,
            MASK_BIG_SIGMA0_L2,
            MASK_BIG_SIGMA0_H0,
            MASK_BIG_SIGMA0_H1,
            MASK_BIG_SIGMA0_H2,
        ],
        SigmaType::BigSigma1 => [
            MASK_BIG_SIGMA1_L0,
            MASK_BIG_SIGMA1_L1,
            MASK_BIG_SIGMA1_L2,
            MASK_BIG_SIGMA1_H0,
            MASK_BIG_SIGMA1_H1,
            MASK_BIG_SIGMA1_H2,
        ],
    }
}

/// The limbs of `a` for a sigma type: `a` under each mask, the high limbs
/// shifted down by 16.
pub open spec fn spec_decompose_u32(a: u32, sigma: SigmaType) -> [u32; 6] {
    let m = limb_masks(sigma);
    [a & m[0], a & m[1], a & m[2], (a & m[3]) >> 16u32, (a & m[4]) >> 16u32, (a & m[5]) >> 16u32]
}

/// Splits a word into the six limbs of a sigma type.
pub fn decompose_u32(a: u32, sigma: SigmaType) -> (r: [u32; 6])
    ensures
        r == spec_decompose_u32(a, sigma),
{
    let r = match sigma {
        SigmaType::SmallSigma0 => [
            a & MASK_SMALL_SIGMA0_L0,
            a & MASK_SMALL_SIGMA0_L1,
            a & MASK_SMALL_SIGMA0_L2,
            (a & MASK_SMALL_SIGMA0_H0) >> 16,
            (a & MASK_SMALL_SIGMA0_H1) >> 16,
            (a & MASK_SMALL_SIGMA0_H2) >> 16,
        ],
        SigmaType::SmallSigma1 => [
            a & MASK_SMALL_SIGMA1_L0,
            a & MASK_SMALL_SIGMA1_L1,
            a & MASK_SMALL_SIGMA1_L2,
            (a & MASK_SMALL_SIGMA1_H0) >> 16,
            (a & MASK_SMALL_SIGMA1_H1) >> 16,
            (a & MASK_SMALL_SIGMA1_H2) >> 16,
        ],
        SigmaType::BigSigma0 => [
            a & MASK_BIG_SIGMA0_L0,
            a & MASK_BIG_SIGMA0_L1,
            a & MASK_BIG_SIGMA0_L2,
            (a & MASK_BIG_SIGMA0_H0) >> 16,
            (a & MASK_BIG_SIGMA0_H1) >> 16,
            (a & MASK_BIG_SIGMA0_H2) >> 16,
        ],
        SigmaType::BigSigma1 => [
            a & MASK_BIG_SIGMA1_L0,
            a & MASK_BIG_SIGMA1_L1,
            a & MASK_BIG_SIGMA1_L2,
            (a & MASK_BIG_SIGMA1_H0) >> 16,
            (a & MASK_BIG_SIGMA1_H1) >> 16,
            (a & MASK_BIG_SIGMA1_H2) >> 16,
        ],
    };
    assert(r =~= spec_decompose_u32(a, sigma));
    r
}

/// The limbs of a word split the word: the three low limbs are disjoint
/// and add up to its low half, the three high limbs to its high half.
///
/// The high masks of small sigma 1 leave bit 16 out, so that split loses the
/// bit; the law holds of the words where it is clear.
pub proof fn lemma_decompose_u32_partitions(a: u32, sigma: SigmaType)
    requires
        sigma == SigmaType::SmallSigma1 ==> a & 0x10000 == 0,
    ensures
        ({
            let l = spec_decompose_u32(a, sigma);
            &&& l[0] & l[1] == 0 && l[0] & l[2] == 0 && l[1] & l[2] == 0
            &&& l[3] & l[4] == 0 && l[3] & l[5] == 0 && l[4] & l[5] == 0
            &&& l[0] + l[1] + l[2] == a % 65536
            &&& l[3] + l[4] + l[5] == a / 65536
        }),
{
    match sigma {
        SigmaType::SmallSigma0 => {
            assert((a & 0x4aaa) & (a & 0x155) == 0 && (a & 0x4aaa) & (a & 0xb400) == 0 && (a & 0x155) & (a
                & 0xb400) == 0 && (a & 0x4aaa) + (a & 0x155) + (a & 0xb400) == a % 65536) by (bit_vector);
            assert(((a & 0x550000) >> 16) & ((a & 0xb5000000) >> 16) == 0 && ((a & 0x550000) >> 16) & ((a
                & 0x4aaa0000) >> 16) == 0 && ((a & 0xb5000000) >> 16) & ((a & 0x4aaa0000) >> 16) == 0 && ((a
                & 0x550000) >> 16) + ((a & 0xb5000000) >> 16) + ((a & 0x4aaa0000) >> 16) == a / 65536)
                by (bit_vector);
        },
        SigmaType::SmallSigma1 => {
            assert((a & 0x4285) & (a & 0x17a) == 0 && (a & 0x4285) & (a & 0xbc00) == 0 && (a & 0x17a) & (a
                & 0xbc00) == 0 && (a & 0x4285) + (a & 0x17a) + (a & 0xbc00) == a % 65536) by (bit_vector);
            assert(((a & 0x4aa40000) >> 16) & ((a & 0x15a0000) >> 16) == 0 && ((a & 0x4aa40000) >> 16) & ((a
                & 0xb4000000) >> 16) == 0 && ((a & 0x15a0000) >> 16) & ((a & 0xb4000000) >> 16) == 0 && ((a
                & 0x4aa40000) >> 16) + ((a & 0x15a0000) >> 16) + ((a & 0xb4000000) >> 16) == a / 65536)
                by (bit_vector)
                requires
                    a & 0x10000 == 0,
            ;
        },
        SigmaType::BigSigma0 => {
            assert((a & 0x7292) & (a & 0x6d) == 0 && (a & 0x7292) & (a & 0x8d00) == 0 && (a & 0x6d) & (a
                & 0x8d00) == 0 && (a & 0x7292) + (a & 0x6d) + (a & 0x8d00) == a % 65536) by (bit_vector);
            assert(((a & 0xd60000) >> 16) & ((a & 0x9c000000) >> 16) == 0 && ((a & 0xd60000) >> 16) & ((a
                & 0x63290000) >> 16) == 0 && ((a & 0x9c000000) >> 16) & ((a & 0x63290000) >> 16) == 0 && ((a
                & 0xd60000) >> 16) + ((a & 0x9c000000) >> 16) + ((a & 0x63290000) >> 16) == a / 65536)
                by (bit_vector);
        },
        SigmaType::BigSigma1 => {
            assert((a & 0xf83) & (a & 0x7c) == 0 && (a & 0xf83) & (a & 0xf000) == 0 && (a & 0x7c) & (a
                & 0xf000) == 0 && (a & 0xf83) + (a & 0x7c) + (a & 0xf000) == a % 65536) by (bit_vector);
            assert(((a & 0x7c0000) >> 16) & ((a & 0xf0000000) >> 16) == 0 && ((a & 0x7c0000) >> 16) & ((a
                & 0xf830000) >> 16) == 0 && ((a & 0xf0000000) >> 16) & ((a & 0xf830000) >> 16) == 0 && ((a
                & 0x7c0000) >> 16) + ((a & 0xf0000000) >> 16) + ((a & 0xf830000) >> 16) == a / 65536)
                by (bit_vector);
        },
    }
}

/// ORs limbs into `acc`, each shifted left by `shift`.
pub open spec fn or_limbs(acc: u32, limbs: Seq<M31>, shift: u32) -> u32
    decreases limbs.len(),
{
    if limbs.len() == 0 {
        acc
    } else {
        or_limbs(acc, limbs.drop_last(), shift) | (limbs.last().0 << shift)
    }
}

/// The word rebuilt from low limbs ORed in place and high limbs ORed in
/// shifted by 16.
pub open spec fn spec_rebuild_word(low_limbs: Seq<M31>, high_limbs: Seq<M31>) -> u32 {
    or_limbs(or_limbs(0, low_limbs, 0), high_limbs, 16)
}

/// Rebuilds a word from low limbs and high limbs.
pub fn rebuild_word_from_limbs(low_limbs: &[M31], high_limbs: &[M31]) -> (r: u32)
    ensures
        r == spec_rebuild_word(low_limbs@, high_limbs@),
{
    let mut word: u32 = 0;
    let mut i: usize = 0;
    while i < low_limbs.len()
        invariant
            i <= low_limbs@.len(),
            word == or_limbs(0, low_limbs@.subrange(0, i as int), 0),
        decreases low_limbs@.len() - i,
    {
        proof {
            assert(low_limbs@.subrange(0, i + 1).drop_last() =~= low_limbs@.subrange(0, i as int));
        }
        let limb = low_limbs[i].0;
        assert(limb << 0u32 == limb) by (bit_vector);
        word = word | limb;
        i = i + 1;
    }
    assert(low_limbs@.subrange(0, low_limbs@.len() as int) =~= low_limbs@);
    let ghost low_word = word;
    let mut j: usize = 0;
    while j < high_limbs.len()
        invariant
            j <= high_limbs@.len(),
            low_word == or_limbs(0, low_limbs@, 0),
            word == or_limbs(low_word, high_limbs@.subrange(0, j as int), 16),
        decreases high_limbs@.len() - j,
    {
        proof {
            assert(high_limbs@.subrange(0, j + 1).drop_last() =~= high_limbs@.subrange(0, j as int));
        }
        word = word | (high_limbs[j].0 << 16);
        j = j + 1;
    }
    assert(high_limbs@.subrange(0, high_limbs@.len() as int) =~= high_limbs@);
    word
}

/// The word of one low and one high limb.
fn rebuild_1_1(l0: M31, h0: M31) -> (r: u32)
    ensures
        r == spec_rebuild_word(seq![l0], seq![h0]),
{
    let low = [l0];
    let high = [h0];
    assert(low@ =~= seq![l0]);
    assert(high@ =~= seq![h0]);
    rebuild_word_from_limbs(&low, &high)
}

/// The word of one low and two high limbs.
fn rebuild_1_2(l0: M31, h0: M31, h1: M31) -> (r: u32)
    ensures
        r == spec_rebuild_word(seq![l0], seq![h0, h1]),
{
    let low = [l0];
    let high = [h0, h1];
    assert(low@ =~= seq![l0]);
    assert(high@ =~= seq![h0, h1]);
    rebuild_word_from_limbs(&low, &high)
}

/// The word of two low and one high limbs.
fn rebuild_2_1(l0: M31, l1: M31, h0: M31) -> (r: u32)
    ensures
        r == spec_rebuild_word(seq![l0, l1], seq![h0]),
{
    let low = [l0, l1];
    let high = [h0];
    assert(low@ =~= seq![l0, l1]);
    assert(high@ =~= seq![h0]);
    rebuild_word_from_limbs(&low, &high)
}

/// The word of two low and two high limbs.
fn rebuild_2_2(l0: M31, l1: M31, h0: M31, h1: M31) -> (r: u32)
    ensures
        r == spec_rebuild_word(seq![l0, l1], seq![h0, h1]),
{
    let low = [l0, l1];
    let high = [h0, h1];
    assert(low@ =~= seq![l0, l1]);
    assert(high@ =~= seq![h0, h1]);
    rebuild_word_from_limbs(&low, &high)
}

/// `x` rotated right by `n` bits.
pub open spec fn rotr(x: u32, n: u32) -> u32 {
    (x >> n) | (x << ((32 - n) as u32))
}

/// The sigma function of a sigma type.
pub open spec fn sigma_fn(sigma: SigmaType, x: u32) -> u32 {
    match sigma {
        SigmaType::SmallSigma0 => rotr(x, 3) ^ rotr(x, 7) ^ rotr(x, 18),
        SigmaType::SmallSigma1 => rotr(x, 10) ^ rotr(x, 17) ^ rotr(x, 19),
        SigmaType::BigSigma0 => rotr(x, 6) ^ rotr(x, 11) ^ rotr(x, 25),
        SigmaType::BigSigma1 => rotr(x, 2) ^ rotr(x, 13) ^ rotr(x, 22),
    }
}

/// Computes the sigma function of a sigma type.
fn apply_sigma(sigma: SigmaType, x: u32) -> (r: u32)
    ensures
        r == sigma_fn(sigma, x),
{
    match sigma {
        SigmaType::SmallSigma0 => ((x >> 3) | (x << 29)) ^ ((x >> 7) | (x << 25)) ^ ((x >> 18) | (x << 14)),
        SigmaType::SmallSigma1 => ((x >> 10) | (x << 22)) ^ ((x >> 17) | (x << 15)) ^ ((x >> 19) | (x << 13)),
        SigmaType::BigSigma0 => ((x >> 6) | (x << 26)) ^ ((x >> 11) | (x << 21)) ^ ((x >> 25) | (x << 7)),
        SigmaType::BigSigma1 => ((x >> 2) | (x << 30)) ^ ((x >> 13) | (x << 19)) ^ ((x >> 22) | (x << 10)),
    }
}

/// The output masks of a sigma type: first output low and high, second
/// output low and high, shared bits low and high.
pub open spec fn output_masks(sigma: SigmaType) -> [u32; 6] {
    match sigma {
        SigmaType::SmallSigma0 => [
            MASK_SMALL_SIGMA0_OUT0_LO,
            MASK_SMALL_SIGMA0_OUT0_HI,
            MASK_SMALL_SIGMA0_OUT1_LO,
            MASK_SMALL_SIGMA0_OUT1_HI,
            MASK_SMALL_SIGMA0_OUT2_LO,
            MASK_SMALL_SIGMA0_OUT2_HI,
        ],
        SigmaType::SmallSigma1 => [
            MASK_SMALL_SIGMA1_OUT0_LO,
            MASK_SMALL_SIGMA1_OUT0_HI,
            MASK_SMALL_SIGMA1_OUT1_LO,
            MASK_SMALL_SIGMA1_OUT1_HI,
            MASK_SMALL_SIGMA1_OUT2_LO,
            MASK_SMALL_SIGMA1_OUT2_HI,
        ],
        SigmaType::BigSigma0 => [
            MASK_BIG_SIGMA0_OUT0_LO,
            MASK_BIG_SIGMA0_OUT0_HI,
            MASK_BIG_SIGMA0_OUT1_LO,
            MASK_BIG_SIGMA0_OUT1_HI,
            MASK_BIG_SIGMA0_OUT2_LO,
            MASK_BIG_SIGMA0_OUT2_HI,
        ],
        SigmaType::BigSigma1 => [
            MASK_BIG_SIGMA1_OUT0_LO,
            MASK_BIG_SIGMA1_OUT0_HI,
            MASK_BIG_SIGMA1_OUT1_LO,
            MASK_BIG_SIGMA1_OUT1_HI,
            MASK_BIG_SIGMA1_OUT2_LO,
            MASK_BIG_SIGMA1_OUT2_HI,
        ],
    }
}

/// The two input words a sigma type builds from the six limbs: which low and
/// high limbs go into each.
pub open spec fn sigma_inputs(sigma: SigmaType, l: [M31; 6]) -> (u32, u32) {
    match sigma {
        SigmaType::SmallSigma0 => (
            spec_rebuild_word(seq![l[1], l[2]], seq![l[5]]),
            spec_rebuild_word(seq![l[0]], seq![l[3], l[4]]),
        ),
        SigmaType::SmallSigma1 => (
            spec_rebuild_word(seq![l[0]], seq![l[3]]),
            spec_rebuild_word(seq![l[1], l[2]], seq![l[4], l[5]]),
        ),
        SigmaType::BigSigma0 => (
            spec_rebuild_word(seq![l[1], l[2]], seq![l[5]]),
            spec_rebuild_word(seq![l[0]], seq![l[3], l[4]]),
        ),
        SigmaType::BigSigma1 => (
            spec_rebuild_word(seq![l[0]], seq![l[3], l[4]]),
            spec_rebuild_word(seq![l[1], l[2]], seq![l[5]]),
        ),
    }
}

/// The eight outputs of a sigma type on six limbs: the first output's low
/// and high parts, the second's, then the shared low bits of each output and
/// the shared high bits of each, high parts shifted down by 16.
pub open spec fn spec_get_output(sigma: SigmaType, l: [M31; 6]) -> [M31; 8] {
    let out0 = sigma_fn(sigma, sigma_inputs(sigma, l).0);
    let out1 = sigma_fn(sigma, sigma_inputs(sigma, l).1);
    let m = output_masks(sigma);
    [
        M31((out0 & m[0]) % P),
        M31(((out0 & m[1]) >> 16u32) % P),
        M31((out1 & m[2]) % P),
        M31(((out1 & m[3]) >> 16u32) % P),
        M31((out0 & m[4]) % P),
        M31((out1 & m[4]) % P),
        M31(((out0 & m[5]) >> 16u32) % P),
        M31(((out1 & m[5]) >> 16u32) % P),
    ]
}

/// Computes the eight outputs of a sigma type on six limbs.
pub fn get_output(sigma: SigmaType, l: [M31; 6]) -> (r: [M31; 8])
    ensures
        r == spec_get_output(sigma, l),
{
    let (input0, input1) = match sigma {
        SigmaType::SmallSigma0 => (rebuild_2_1(l[1], l[2], l[5]), rebuild_1_2(l[0], l[3], l[4])),
        SigmaType::SmallSigma1 => (rebuild_1_1(l[0], l[3]), rebuild_2_2(l[1], l[2], l[4], l[5])),
        SigmaType::BigSigma0 => (rebuild_2_1(l[1], l[2], l[5]), rebuild_1_2(l[0], l[3], l[4])),
        SigmaType::BigSigma1 => (rebuild_1_2(l[0], l[3], l[4]), rebuild_2_1(l[1], l[2], l[5])),
    };
    assert((input0, input1) == sigma_inputs(sigma, l));
    let out0 = apply_sigma(sigma, input0);
    let out1 = apply_sigma(sigma, input1);
    let (m0, m1, m2, m3, m4, m5) = match sigma {
        SigmaType::SmallSigma0 => (
            MASK_SMALL_SIGMA0_OUT0_LO,
            MASK_SMALL_SIGMA0_OUT0_HI,
            MASK_SMALL_SIGMA0_OUT1_LO,
            MASK_SMALL_SIGMA0_OUT1_HI,
            MASK_SMALL_SIGMA0_OUT2_LO,
            MASK_SMALL_SIGMA0_OUT2_HI,
        ),
        SigmaType::SmallSigma1 => (
            MASK_SMALL_SIGMA1_OUT0_LO,
            MASK_SMALL_SIGMA1_OUT0_HI,
            MASK_SMALL_SIGMA1_OUT1_LO,
            MASK_SMALL_SIGMA1_OUT1_HI,
            MASK_SMALL_SIGMA1_OUT2_LO,
            MASK_SMALL_SIGMA1_OUT2_HI,
        ),
        SigmaType::BigSigma0 => (
            MASK_BIG_SIGMA0_OUT0_LO,
            MASK_BIG_SIGMA0_OUT0_HI,
            MASK_BIG_SIGMA0_OUT1_LO,
            MASK_BIG_SIGMA0_OUT1_HI,
            MASK_BIG_SIGMA0_OUT2_LO,
            MASK_BIG_SIGMA0_OUT2_HI,
        ),
        SigmaType::BigSigma1 => (
            MASK_BIG_SIGMA1_OUT0_LO,
            MASK_BIG_SIGMA1_OUT0_HI,
            MASK_BIG_SIGMA1_OUT1_LO,
            MASK_BIG_SIGMA1_OUT1_HI,
            MASK_BIG_SIGMA1_OUT2_LO,
            MASK_BIG_SIGMA1_OUT2_HI,
        ),
    };
    let r = [
        M31::from_u32(out0 & m0),
        M31::from_u32((out0 & m1) >> 16),
        M31::from_u32(out1 & m2),
        M31::from_u32((out1 & m3) >> 16),
        M31::from_u32(out0 & m4),
        M31::from_u32(out1 & m4),
        M31::from_u32((out0 & m5) >> 16),
        M31::from_u32((out1 & m5) >> 16),
    ];
    assert(r =~= spec_get_output(sigma, l));
    r
}

/// The XOR of two values, reduced into the field.
pub open spec fn spec_xor(x: M31, y: M31) -> M31 {
    M31((x.0 ^ y.0) % P)
}

/// XOR of two values.
pub fn apply_xor(x: M31, y: M31) -> (r: M31)
    ensures
        r == spec_xor(x, y),
{
    M31::from_u32(x.0 ^ y.0)
}

/// The Ch function on three values, reduced into the field.
pub open spec fn spec_ch(e: M31, f: M31, g: M31) -> M31 {
    M31(((e.0 & f.0) ^ (!e.0 & g.0)) % P)
}

/// Ch: the bits of `f` where `e` is set, of `g` where it is clear.
pub fn apply_ch(e: M31, f: M31, g: M31) -> (r: M31)
    ensures
        r == spec_ch(e, f, g),
{
    M31::from_u32((e.0 & f.0) ^ (!e.0 & g.0))
}

/// The Maj function on three values, reduced into the field.
pub open spec fn spec_maj(a: M31, b: M31, c: M31) -> M31 {
    M31(((a.0 & b.0) ^ (a.0 & c.0) ^ (b.0 & c.0)) % P)
}

/// Maj: each bit is the majority of the three inputs' bits.
pub fn apply_maj(a: M31, b: M31, c: M31) -> (r: M31)
    ensures
        r == spec_maj(a, b, c),
{
    M31::from_u32((a.0 & b.0) ^ (a.0 & c.0) ^ (b.0 & c.0))
}

/// Bit `k` of `x`.
pub open spec fn bit(x: u32, k: u32) -> u32 {
    (x >> k) & 1
}

/// Bit facts of the three bitwise functions of SHA-256 on 32-bit words.
proof fn lemma_bitwise_bits(x: u32, y: u32, z: u32, k: u32)
    by (bit_vector)
    requires
        k < 32,
    ensures
        (x < 0x4000_0000 && y < 0x4000_0000 && z < 0x4000_0000) ==> ((x & y) ^ (x & z) ^ (y & z))
            < 0x4000_0000,
        ((((x & y) ^ (x & z) ^ (y & z)) >> k) & 1) == (if ((x >> k) & 1) + ((y >> k) & 1) + ((z >> k) & 1)
            >= 2 {
            1u32
        } else {
            0u32
        }),
        (y < 0x4000_0000 && z < 0x4000_0000) ==> ((x & y) ^ (!x & z)) < 0x4000_0000,
        ((((x & y) ^ (!x & z)) >> k) & 1) == (if (x >> k) & 1 == 1 {
            (y >> k) & 1
        } else {
            (z >> k) & 1
        }),
        (x < 0x4000_0000 && y < 0x4000_0000) ==> (x ^ y) < 0x4000_0000,
        (((x ^ y) >> k) & 1) == ((x >> k) & 1) ^ ((y >> k) & 1),
{
}

/// A value below `2^30` is its own reduction modulo `P`.
proof fn lemma_small_is_reduced(v: u32)
    requires
        v < 0x4000_0000,
    ensures
        v % P == v,
{
    vstd::arithmetic::div_mod::lemma_small_mod(v as nat, P as nat);
}

/// Maj is the bitwise majority: on values below `2^30`, bit `k` of
/// `Maj(a, b, c)` is set exactly when it is set in at least two of `a`, `b`,
/// `c` (so `Maj(x, x, y) == x`), and the result stays below `2^30`.
pub proof fn lemma_maj_is_bitwise_majority(a: M31, b: M31, c: M31, k: u32)
    requires
        a.0 < 0x4000_0000,
        b.0 < 0x4000_0000,
        c.0 < 0x4000_0000,
        k < 32,
    ensures
        spec_maj(a, b, c).0 < 0x4000_0000,
        bit(spec_maj(a, b, c).0, k) == (if bit(a.0, k) + bit(b.0, k) + bit(c.0, k) >= 2 {
            1u32
        } else {
            0u32
        }),
{
    lemma_bitwise_bits(a.0, b.0, c.0, k);
    lemma_small_is_reduced((a.0 & b.0) ^ (a.0 & c.0) ^ (b.0 & c.0));
}

/// Ch is the bitwise choice: on `f`, `g` below `2^30`, bit `k` of
/// `Ch(e, f, g)` is bit `k` of `f` where `e` has it set and of `g` where not,
/// and the result stays below `2^30`.
pub proof fn lemma_ch_is_bitwise_choice(e: M31, f: M31, g: M31, k: u32)
    requires
        f.0 < 0x4000_0000,
        g.0 < 0x4000_0000,
        k < 32,
    ensures
        spec_ch(e, f, g).0 < 0x4000_0000,
        bit(spec_ch(e, f, g).0, k) == (if bit(e.0, k) == 1 {
            bit(f.0, k)
        } else {
            bit(g.0, k)
        }),
{
    lemma_bitwise_bits(e.0, f.0, g.0, k);
    lemma_small_is_reduced((e.0 & f.0) ^ (!e.0 & g.0));
}

/// The XOR of two values below `2^30` has bit `k` set exactly when one of
/// them has, and stays below `2^30`.
pub proof fn lemma_xor_is_bitwise(x: M31, y: M31, k: u32)
    requires
        x.0 < 0x4000_0000,
        y.0 < 0x4000_0000,
        k < 32,
    ensures
        spec_xor(x, y).0 < 0x4000_0000,
        bit(spec_xor(x, y).0, k) == bit(x.0, k) ^ bit(y.0, k),
{
    lemma_bitwise_bits(x.0, y.0, 0, k);
    lemma_small_is_reduced(x.0 ^ y.0);
}

/// The two input words SmallSigma0 builds from the limbs of `a` split `a` into
/// disjoint bit groups, so the sigma function of `a` is the XOR of theirs.
proof fn lemma_split_smallsigma0(a: u32, i0: u32, i1: u32)
    requires
        i0 == (((a & 0x155) | (a & 0xb400)) | (((a & 0x4aaa0000) >> 16u32) << 16u32)),
        i1 == (((a & 0x4aaa) | (((a & 0x550000) >> 16u32) << 16u32)) | (((a & 0xb5000000) >> 16u32) << 16u32)),
    ensures
        i0 & i1 == 0,
        i0 | i1 == a,
        (((a >> 3u32) | (a << 29u32)) ^ ((a >> 7u32) | (a << 25u32)) ^ ((a >> 18u32) | (a << 14u32))) == (((i0 >> 3u32) | (i0 << 29u32)) ^ ((i0 >> 7u32) | (i0 << 25u32)) ^ ((i0 >> 18u32) | (i0 << 14u32))) ^ (((i1 >> 3u32) | (i1 << 29u32)) ^ ((i1 >> 7u32) | (i1 << 25u32)) ^ ((i1 >> 18u32) | (i1 << 14u32))),
{
    assert(i0 & i1 == 0 && i0 | i1 == a && (((a >> 3u32) | (a << 29u32)) ^ ((a >> 7u32) | (a << 25u32)) ^ ((a >> 18u32) | (a << 14u32))) == (((i0 >> 3u32) | (i0 << 29u32)) ^ ((i0 >> 7u32) | (i0 << 25u32)) ^ ((i0 >> 18u32) | (i0 << 14u32))) ^ (((i1 >> 3u32) | (i1 << 29u32)) ^ ((i1 >> 7u32) | (i1 << 25u32)) ^ ((i1 >> 18u32) | (i1 << 14u32)))) by (bit_vector)
        requires
            i0 == (((a & 0x155) | (a & 0xb400)) | (((a & 0x4aaa0000) >> 16u32) << 16u32)),
            i1 == (((a & 0x4aaa) | (((a & 0x550000) >> 16u32) << 16u32)) | (((a & 0xb5000000) >> 16u32) << 16u32)),
    ;
}

/// The two input words SmallSigma1 builds from the limbs of `a` split `a` into
/// disjoint bit groups, so the sigma function of `a` is the XOR of theirs.
proof fn lemma_split_smallsigma1(a: u32, i0: u32, i1: u32)
    requires
        a & 0x10000 == 0,
        i0 == ((a & 0x4285) | (((a & 0x4aa40000) >> 16u32) << 16u32)),
        i1 == ((((a & 0x17a) | (a & 0xbc00)) | (((a & 0x15a0000) >> 16u32) << 16u32)) | (((a & 0xb4000000) >> 16u32) << 16u32)),
    ensures
        i0 & i1 == 0,
        i0 | i1 == a,
        (((a >> 10u32) | (a << 22u32)) ^ ((a >> 17u32) | (a << 15u32)) ^ ((a >> 19u32) | (a << 13u32))) == (((i0 >> 10u32) | (i0 << 22u32)) ^ ((i0 >> 17u32) | (i0 << 15u32)) ^ ((i0 >> 19u32) | (i0 << 13u32))) ^ (((i1 >> 10u32) | (i1 << 22u32)) ^ ((i1 >> 17u32) | (i1 << 15u32)) ^ ((i1 >> 19u32) | (i1 << 13u32))),
{
    assert(i0 & i1 == 0 && i0 | i1 == a && (((a >> 10u32) | (a << 22u32)) ^ ((a >> 17u32) | (a << 15u32)) ^ ((a >> 19u32) | (a << 13u32))) == (((i0 >> 10u32) | (i0 << 22u32)) ^ ((i0 >> 17u32) | (i0 << 15u32)) ^ ((i0 >> 19u32) | (i0 << 13u32))) ^ (((i1 >> 10u32) | (i1 << 22u32)) ^ ((i1 >> 17u32) | (i1 << 15u32)) ^ ((i1 >> 19u32) | (i1 << 13u32)))) by (bit_vector)
        requires
            a & 0x10000 == 0,
            i0 == ((a & 0x4285) | (((a & 0x4aa40000) >> 16u32) << 16u32)),
            i1 == ((((a & 0x17a) | (a & 0xbc00)) | (((a & 0x15a0000) >> 16u32) << 16u32)) | (((a & 0xb4000000) >> 16u32) << 16u32)),
    ;
}

/// The two input words BigSigma0 builds from the limbs of `a` split `a` into
/// disjoint bit groups, so the sigma function of `a` is the XOR of theirs.
proof fn lemma_split_bigsigma0(a: u32, i0: u32, i1: u32)
    requires
        i0 == (((a & 0x6d) | (a & 0x8d00)) | (((a & 0x63290000) >> 16u32) << 16u32)),
        i1 == (((a & 0x7292) | (((a & 0xd60000) >> 16u32) << 16u32)) | (((a & 0x9c000000) >> 16u32) << 16u32)),
    ensures
        i0 & i1 == 0,
        i0 | i1 == a,
        (((a >> 6u32) | (a << 26u32)) ^ ((a >> 11u32) | (a << 21u32)) ^ ((a >> 25u32) | (a << 7u32))) == (((i0 >> 6u32) | (i0 << 26u32)) ^ ((i0 >> 11u32) | (i0 << 21u32)) ^ ((i0 >> 25u32) | (i0 << 7u32))) ^ (((i1 >> 6u32) | (i1 << 26u32)) ^ ((i1 >> 11u32) | (i1 << 21u32)) ^ ((i1 >> 25u32) | (i1 << 7u32))),
{
    assert(i0 & i1 == 0 && i0 | i1 == a && (((a >> 6u32) | (a << 26u32)) ^ ((a >> 11u32) | (a << 21u32)) ^ ((a >> 25u32) | (a << 7u32))) == (((i0 >> 6u32) | (i0 << 26u32)) ^ ((i0 >> 11u32) | (i0 << 21u32)) ^ ((i0 >> 25u32) | (i0 << 7u32))) ^ (((i1 >> 6u32) | (i1 << 26u32)) ^ ((i1 >> 11u32) | (i1 << 21u32)) ^ ((i1 >> 25u32) | (i1 << 7u32)))) by (bit_vector)
        requires
            i0 == (((a & 0x6d) | (a & 0x8d00)) | (((a & 0x63290000) >> 16u32) << 16u32)),
            i1 == (((a & 0x7292) | (((a & 0xd60000) >> 16u32) << 16u32)) | (((a & 0x9c000000) >> 16u32) << 16u32)),
    ;
}

/// The two input words BigSigma1 builds from the limbs of `a` split `a` into
/// disjoint bit groups, so the sigma function of `a` is the XOR of theirs.
proof fn lemma_split_bigsigma1(a: u32, i0: u32, i1: u32)
    requires
        i0 == (((a & 0xf83) | (((a & 0x7c0000) >> 16u32) << 16u32)) | (((a & 0xf0000000) >> 16u32) << 16u32)),
        i1 == (((a & 0x7c) | (a & 0xf000)) | (((a & 0xf830000) >> 16u32) << 16u32)),
    ensures
        i0 & i1 == 0,
        i0 | i1 == a,
        (((a >> 2u32) | (a << 30u32)) ^ ((a >> 13u32) | (a << 19u32)) ^ ((a >> 22u32) | (a << 10u32))) == (((i0 >> 2u32) | (i0 << 30u32)) ^ ((i0 >> 13u32) | (i0 << 19u32)) ^ ((i0 >> 22u32) | (i0 << 10u32))) ^ (((i1 >> 2u32) | (i1 << 30u32)) ^ ((i1 >> 13u32) | (i1 << 19u32)) ^ ((i1 >> 22u32) | (i1 << 10u32))),
{
    assert(i0 & i1 == 0 && i0 | i1 == a && (((a >> 2u32) | (a << 30u32)) ^ ((a >> 13u32) | (a << 19u32)) ^ ((a >> 22u32) | (a << 10u32))) == (((i0 >> 2u32) | (i0 << 30u32)) ^ ((i0 >> 13u32) | (i0 << 19u32)) ^ ((i0 >> 22u32) | (i0 << 10u32))) ^ (((i1 >> 2u32) | (i1 << 30u32)) ^ ((i1 >> 13u32) | (i1 << 19u32)) ^ ((i1 >> 22u32) | (i1 << 10u32)))) by (bit_vector)
        requires
            i0 == (((a & 0xf83) | (((a & 0x7c0000) >> 16u32) << 16u32)) | (((a & 0xf0000000) >> 16u32) << 16u32)),
            i1 == (((a & 0x7c) | (a & 0xf000)) | (((a & 0xf830000) >> 16u32) << 16u32)),
    ;
}

/// ORing one limb.
proof fn lemma_or_limbs_1(acc: u32, x: M31, shift: u32)
    ensures
        or_limbs(acc, seq![x], shift) == acc | (x.0 << shift),
{
    assert(seq![x].drop_last() =~= Seq::<M31>::empty());
    assert(seq![x].last() == x);
    assert(or_limbs(acc, Seq::<M31>::empty(), shift) == acc);
}

/// ORing two limbs.
proof fn lemma_or_limbs_2(acc: u32, x: M31, y: M31, shift: u32)
    ensures
        or_limbs(acc, seq![x, y], shift) == (acc | (x.0 << shift)) | (y.0 << shift),
{
    assert(seq![x, y].drop_last() =~= seq![x]);
    assert(seq![x, y].last() == y);
    lemma_or_limbs_1(acc, x, shift);
}

/// The six limbs of `a` for a sigma type, as field elements.
pub open spec fn limbs_of(a: u32, sigma: SigmaType) -> [M31; 6] {
    let l = spec_decompose_u32(a, sigma);
    [M31(l[0]), M31(l[1]), M31(l[2]), M31(l[3]), M31(l[4]), M31(l[5])]
}

/// ORing three limbs.
proof fn lemma_or_limbs_3(acc: u32, x: M31, y: M31, z: M31, shift: u32)
    ensures
        or_limbs(acc, seq![x, y, z], shift) == ((acc | (x.0 << shift)) | (y.0 << shift)) | (z.0 << shift),
{
    assert(seq![x, y, z].drop_last() =~= seq![x, y]);
    assert(seq![x, y, z].last() == z);
    lemma_or_limbs_2(acc, x, y, shift);
}

/// Six limbs cut from `a` by masks that cover its bits, the last three
/// within the high half, OR back to `a`: the low limbs in place, the high
/// limbs shifted down by 16 and back up.
proof fn lemma_or_masks(a: u32, m0: u32, m1: u32, m2: u32, m3: u32, m4: u32, m5: u32)
    by (bit_vector)
    requires
        (m3 | m4 | m5) & 0xffff == 0,
        a & (m0 | m1 | m2 | m3 | m4 | m5) == a,
    ensures
        (((((0u32 | ((a & m0) << 0u32)) | ((a & m1) << 0u32)) | ((a & m2) << 0u32)) | (((a & m3) >> 16u32)
            << 16u32)) | (((a & m4) >> 16u32) << 16u32)) | (((a & m5) >> 16u32) << 16u32) == a,
{
}

/// Rebuilding a word from its six limbs gives the word back: the low limbs
/// ORed in place and the high limbs shifted up by 16 cover every bit.
///
/// The high masks of small sigma 1 leave bit 16 out, so that split loses the
/// bit; the law holds of the words where it is clear.
pub proof fn lemma_rebuild_inverts_decompose(a: u32, sigma: SigmaType)
    requires
        sigma == SigmaType::SmallSigma1 ==> a & 0x10000 == 0,
    ensures
        ({
            let l = limbs_of(a, sigma);
            spec_rebuild_word(seq![l[0], l[1], l[2]], seq![l[3], l[4], l[5]]) == a
        }),
{
    let l = limbs_of(a, sigma);
    let m = limb_masks(sigma);
    lemma_or_limbs_3(0, l[0], l[1], l[2], 0);
    lemma_or_limbs_3(or_limbs(0, seq![l[0], l[1], l[2]], 0), l[3], l[4], l[5], 16);
    match sigma {
        SigmaType::SmallSigma0 => {
            assert((0x550000u32 | 0xb5000000u32 | 0x4aaa0000u32) & 0xffff == 0 && a & (0x4aaau32 | 0x155u32 | 0xb400u32 | 0x550000u32 | 0xb5000000u32 | 0x4aaa0000u32) == a)
                by (bit_vector);
        },
        SigmaType::SmallSigma1 => {
            assert((0x4aa40000u32 | 0x15a0000u32 | 0xb4000000u32) & 0xffff == 0 && a & (0x4285u32 | 0x17au32 | 0xbc00u32 | 0x4aa40000u32 | 0x15a0000u32 | 0xb4000000u32) == a)
                by (bit_vector)
                requires
                    a & 0x10000 == 0,
            ;
        },
        SigmaType::BigSigma0 => {
            assert((0xd60000u32 | 0x9c000000u32 | 0x63290000u32) & 0xffff == 0 && a & (0x7292u32 | 0x6du32 | 0x8d00u32 | 0xd60000u32 | 0x9c000000u32 | 0x63290000u32) == a)
                by (bit_vector);
        },
        SigmaType::BigSigma1 => {
            assert((0x7c0000u32 | 0xf0000000u32 | 0xf830000u32) & 0xffff == 0 && a & (0xf83u32 | 0x7cu32 | 0xf000u32 | 0x7c0000u32 | 0xf0000000u32 | 0xf830000u32) == a)
                by (bit_vector);
        },
    }
    lemma_or_masks(a, m[0], m[1], m[2], m[3], m[4], m[5]);
}

/// The limbs of a word held as two halves: the word is `lo | hi << 16`.
pub open spec fn spec_decompose_input(a: Fu32_2, sigma: SigmaType) -> [M31; 6] {
    limbs_of(a.lo.0 | (a.hi.0 << 16u32), sigma)
}

/// Splits a word held as two halves into the six limbs of a sigma type.
pub fn decompose_input(a: Fu32_2, sigma: SigmaType) -> (r: [M31; 6])
    ensures
        r == spec_decompose_input(a, sigma),
{
    let a_u32 = a.lo.0 | (a.hi.0 << 16);
    let d = decompose_u32(a_u32, sigma);
    let r = [
        M31::from_u32_unchecked(d[0]),
        M31::from_u32_unchecked(d[1]),
        M31::from_u32_unchecked(d[2]),
        M31::from_u32_unchecked(d[3]),
        M31::from_u32_unchecked(d[4]),
        M31::from_u32_unchecked(d[5]),
    ];
    assert(r =~= spec_decompose_input(a, sigma));
    r
}

/// The two input words a sigma type builds from the limbs of `a` split `a`
/// into disjoint bit groups, and the sigma function of `a` is the XOR of the
/// sigma functions of the two groups: the row may apply the function to each
/// group apart.
///
/// The high masks of small sigma 1 leave bit 16 out; the law holds of the
/// words where it is clear.
pub proof fn lemma_sigma_inputs_split(a: u32, sigma: SigmaType)
    requires
        sigma == SigmaType::SmallSigma1 ==> a & 0x10000 == 0,
    ensures
        sigma_inputs(sigma, limbs_of(a, sigma)).0 & sigma_inputs(sigma, limbs_of(a, sigma)).1 == 0,
        sigma_inputs(sigma, limbs_of(a, sigma)).0 | sigma_inputs(sigma, limbs_of(a, sigma)).1 == a,
        sigma_fn(sigma, a) == sigma_fn(sigma, sigma_inputs(sigma, limbs_of(a, sigma)).0) ^ sigma_fn(
            sigma,
            sigma_inputs(sigma, limbs_of(a, sigma)).1,
        ),
{
    let l = limbs_of(a, sigma);
    let (i0, i1) = sigma_inputs(sigma, l);
    assert forall|x: u32| #[trigger] (0u32 | (x << 0u32)) == x by {
        assert((0u32 | (x << 0u32)) == x) by (bit_vector);
    }
    match sigma {
        SigmaType::SmallSigma0 => {
            lemma_or_limbs_2(0, l[1], l[2], 0);
            lemma_or_limbs_1(or_limbs(0, seq![l[1], l[2]], 0), l[5], 16);
            lemma_or_limbs_1(0, l[0], 0);
            lemma_or_limbs_2(or_limbs(0, seq![l[0]], 0), l[3], l[4], 16);
            let (x, y, h) = (l[1].0, l[2].0, l[5].0);
            assert((0u32 | (x << 0u32)) | (y << 0u32) == x | y) by (bit_vector);
            lemma_split_smallsigma0(a, i0, i1);
        },
        SigmaType::SmallSigma1 => {
            lemma_or_limbs_1(0, l[0], 0);
            lemma_or_limbs_1(or_limbs(0, seq![l[0]], 0), l[3], 16);
            lemma_or_limbs_2(0, l[1], l[2], 0);
            lemma_or_limbs_2(or_limbs(0, seq![l[1], l[2]], 0), l[4], l[5], 16);
            let (x, y) = (l[1].0, l[2].0);
            assert((0u32 | (x << 0u32)) | (y << 0u32) == x | y) by (bit_vector);
            lemma_split_smallsigma1(a, i0, i1);
        },
        SigmaType::BigSigma0 => {
            lemma_or_limbs_2(0, l[1], l[2], 0);
            lemma_or_limbs_1(or_limbs(0, seq![l[1], l[2]], 0), l[5], 16);
            lemma_or_limbs_1(0, l[0], 0);
            lemma_or_limbs_2(or_limbs(0, seq![l[0]], 0), l[3], l[4], 16);
            let (x, y) = (l[1].0, l[2].0);
            assert((0u32 | (x << 0u32)) | (y << 0u32) == x | y) by (bit_vector);
            lemma_split_bigsigma0(a, i0, i1);
        },
        SigmaType::BigSigma1 => {
            lemma_or_limbs_1(0, l[0], 0);
            lemma_or_limbs_2(or_limbs(0, seq![l[0]], 0), l[3], l[4], 16);
            lemma_or_limbs_2(0, l[1], l[2], 0);
            lemma_or_limbs_1(or_limbs(0, seq![l[1], l[2]], 0), l[5], 16);
            let (x, y) = (l[1].0, l[2].0);
            assert((0u32 | (x << 0u32)) | (y << 0u32) == x | y) by (bit_vector);
            lemma_split_bigsigma1(a, i0, i1);
        },
    }
}

/// `2^16` as a field element.
pub open spec fn two_pow_16() -> M31 {
    M31(65536)
}

/// The integer two 16-bit halves stand for.
pub open spec fn word_value(w: Fu32_2) -> int {
    w.lo.0 + 65536 * w.hi.0
}

/// Both halves fit in 16 bits.
pub open spec fn is_u32_halves(w: Fu32_2) -> bool {
    w.lo.0 < 65536 && w.hi.0 < 65536
}

/// The carry `add2_u32_unchecked` takes out of a column sum: bit 16.
pub open spec fn carry_bit(sum: M31) -> M31 {
    M31(((sum.0 / 65536) % 2) as u32)
}

/// The carry `add3_u32_unchecked` takes out of a column sum: bits 16 and 17
/// of the sum, `(sum >> 16) & 0b11`.
pub open spec fn carry_bits(sum: M31) -> M31 {
    M31(((sum.0 / 65536) % 4) as u32)
}

/// The sum of two words as `add2_u32_unchecked` computes it.
pub open spec fn spec_add2(a: Fu32_2, b: Fu32_2) -> Fu32_2 {
    let sum_lo = fadd(a.lo, b.lo);
    let carry_lo = carry_bit(sum_lo);
    let sum_hi = fadd(fadd(a.hi, b.hi), carry_lo);
    let carry_hi = carry_bit(sum_hi);
    Fu32_2 {
        lo: fsub(sum_lo, fmul(carry_lo, two_pow_16())),
        hi: fsub(sum_hi, fmul(carry_hi, two_pow_16())),
    }
}

/// Writes `v` into the row at the column index and moves to the next column.
fn put(row: &mut Vec<M31>, col_index: &mut usize, v: M31)
    requires
        *old(col_index) < old(row)@.len(),
    ensures
        final(row)@ == old(row)@.update(*old(col_index) as int, v),
        *final(col_index) == *old(col_index) + 1,
{
    let n = row.len();
    row.set(*col_index, v);
    *col_index = *col_index + 1;
}

/// The row with `cols` written from column `at` on.
pub open spec fn written(row: Seq<M31>, at: int, cols: Seq<M31>) -> Seq<M31> {
    row.subrange(0, at) + cols + row.subrange(at + cols.len(), row.len() as int)
}

/// Adds two words half by half, taking bit 16 of each column as its carry,
/// and writes the sum's halves into the row at the column index.
pub fn add2_u32_unchecked(a: Fu32_2, b: Fu32_2, col_index: &mut usize, row: &mut Vec<M31>) -> (r: Fu32_2)
    requires
        *old(col_index) + 2 <= old(row)@.len(),
    ensures
        r == spec_add2(a, b),
        final(row)@ == written(old(row)@, *old(col_index) as int, seq![r.lo, r.hi]),
        *final(col_index) == *old(col_index) + 2,
{
    let ghost (row0, ci) = (row@, *col_index as int);
    let two_pow_16 = M31(65536);
    let sum_lo = a.lo.add(b.lo);
    let x = sum_lo.0;
    assert((x >> 16) & 1 == (x / 65536) % 2) by (bit_vector);
    let carry_lo = M31::from_u32((x >> 16) & 1);
    let sum_hi = a.hi.add(b.hi).add(carry_lo);
    let y = sum_hi.0;
    assert((y >> 16) & 1 == (y / 65536) % 2) by (bit_vector);
    let carry_hi = M31::from_u32((y >> 16) & 1);
    let r = Fu32_2 { lo: sum_lo.sub(carry_lo.mul(two_pow_16)), hi: sum_hi.sub(carry_hi.mul(two_pow_16)) };
    put(row, col_index, r.lo);
    put(row, col_index, r.hi);
    assert(row@ =~= written(row0, ci, seq![r.lo, r.hi]));
    r
}

/// The sum of three words as `add3_u32_unchecked` computes it.
pub open spec fn spec_add3(a: Fu32_2, b: Fu32_2, c: Fu32_2) -> Fu32_2 {
    let sum_lo = fadd(fadd(a.lo, b.lo), c.lo);
    let carry_lo = carry_bits(sum_lo);
    let sum_hi = fadd(fadd(fadd(a.hi, b.hi), c.hi), carry_lo);
    let carry_hi = carry_bits(sum_hi);
    Fu32_2 {
        lo: fsub(sum_lo, fmul(carry_lo, two_pow_16())),
        hi: fsub(sum_hi, fmul(carry_hi, two_pow_16())),
    }
}

/// Adds three words half by half, taking bits 16 and 17 of each column sum
/// as its carry, and writes the sum's halves into the row at the column
/// index.
pub fn add3_u32_unchecked(a: Fu32_2, b: Fu32_2, c: Fu32_2, col_index: &mut usize, row: &mut Vec<M31>) -> (r: Fu32_2)
    requires
        *old(col_index) + 2 <= old(row)@.len(),
    ensures
        r == spec_add3(a, b, c),
        final(row)@ == written(old(row)@, *old(col_index) as int, seq![r.lo, r.hi]),
        *final(col_index) == *old(col_index) + 2,
{
    let ghost (row0, ci) = (row@, *col_index as int);
    let two_pow_16 = M31(65536);
    let sum_lo = a.lo.add(b.lo).add(c.lo);
    let x = sum_lo.0;
    assert((x >> 16) & 0b11 == (x / 65536) % 4) by (bit_vector);
    let carry_lo = M31::from_u32((x >> 16) & 0b11);
    let sum_hi = a.hi.add(b.hi).add(c.hi).add(carry_lo);
    let y = sum_hi.0;
    assert((y >> 16) & 0b11 == (y / 65536) % 4) by (bit_vector);
    let carry_hi = M31::from_u32((y >> 16) & 0b11);
    let r = Fu32_2 { lo: sum_lo.sub(carry_lo.mul(two_pow_16)), hi: sum_hi.sub(carry_hi.mul(two_pow_16)) };
    put(row, col_index, r.lo);
    put(row, col_index, r.hi);
    assert(row@ =~= written(row0, ci, seq![r.lo, r.hi]));
    r
}

/// On 16-bit halves, `add2_u32_unchecked` gives the halves of the sum
/// modulo `2^32`.
pub proof fn lemma_add2_is_wrapping_sum(a: Fu32_2, b: Fu32_2)
    requires
        is_u32_halves(a),
        is_u32_halves(b),
    ensures
        is_u32_halves(spec_add2(a, b)),
        word_value(spec_add2(a, b)) == (word_value(a) + word_value(b)) % 0x1_0000_0000,
{
    assert forall|x: int| 0 <= x < P implies #[trigger] crate::field::fmod(x) == x by {
        vstd::arithmetic::div_mod::lemma_small_mod(x as nat, P as nat);
    }
    let sl = a.lo.0 + b.lo.0;
    let cl = if sl >= 65536 { 1int } else { 0int };
    assert((sl / 65536) % 2 == cl);
    let sh = a.hi.0 + b.hi.0 + cl;
    let ch = if sh >= 65536 { 1int } else { 0int };
    assert((sh / 65536) % 2 == ch);
    let total = word_value(a) + word_value(b);
    let r = word_value(spec_add2(a, b));
    assert(r == total - 0x1_0000_0000 * ch);
    vstd::arithmetic::div_mod::lemma_fundamental_div_mod_converse(total, 0x1_0000_0000, ch, r);
}

/// On 16-bit halves, `add3_u32_unchecked` gives the halves of the sum
/// modulo `2^32`.
pub proof fn lemma_add3_is_wrapping_sum(a: Fu32_2, b: Fu32_2, c: Fu32_2)
    requires
        is_u32_halves(a),
        is_u32_halves(b),
        is_u32_halves(c),
    ensures
        is_u32_halves(spec_add3(a, b, c)),
        word_value(spec_add3(a, b, c)) == (word_value(a) + word_value(b) + word_value(c)) % 0x1_0000_0000,
{
    assert forall|x: int| 0 <= x < P implies #[trigger] crate::field::fmod(x) == x by {
        vstd::arithmetic::div_mod::lemma_small_mod(x as nat, P as nat);
    }
    let sl = a.lo.0 + b.lo.0 + c.lo.0;
    let cl = if sl >= 131072 { 2int } else if sl >= 65536 { 1int } else { 0int };
    assert((sl / 65536) % 4 == cl);
    let sh = a.hi.0 + b.hi.0 + c.hi.0 + cl;
    let ch = if sh >= 131072 { 2int } else if sh >= 65536 { 1int } else { 0int };
    assert((sh / 65536) % 4 == ch);
    let total = word_value(a) + word_value(b) + word_value(c);
    let r = word_value(spec_add3(a, b, c));
    assert(r == total - 0x1_0000_0000 * ch);
    vstd::arithmetic::div_mod::lemma_fundamental_div_mod_converse(total, 0x1_0000_0000, ch, r);
}

/// The values a sigma row holds: the eight outputs, the XORs of the shared
/// parts, and the sum of the three parts.
#[derive(Clone, Copy, Debug, PartialEq, Eq)]
pub struct SigmaRow {
    /// The outputs of [`get_output`].
    pub outputs: [M31; 8],
    /// XOR of the shared low parts.
    pub xor_lo: M31,
    /// XOR of the shared high parts.
    pub xor_hi: M31,
    /// The first output plus the second plus the XORed shared parts.
    pub res: Fu32_2,
}

/// The sigma row of six limbs.
pub open spec fn spec_sigma(sigma: SigmaType, limbs: [M31; 6]) -> SigmaRow {
    let o = spec_get_output(sigma, limbs);
    let xor_lo = spec_xor(o[4], o[5]);
    let xor_hi = spec_xor(o[6], o[7]);
    SigmaRow {
        outputs: o,
        xor_lo,
        xor_hi,
        res: spec_add3(
            Fu32_2 { lo: o[0], hi: o[1] },
            Fu32_2 { lo: o[2], hi: o[3] },
            Fu32_2 { lo: xor_lo, hi: xor_hi },
        ),
    }
}

/// The twelve columns a sigma row fills: the eight outputs, the two XORs of
/// the shared parts, and the halves of the sum.
pub open spec fn sigma_columns(r: SigmaRow) -> Seq<M31> {
    r.outputs@ + seq![r.xor_lo, r.xor_hi, r.res.lo, r.res.hi]
}

/// Computes the sigma row of six limbs and writes its twelve columns into
/// the row at the column index.
pub fn sigma(sigma_type: SigmaType, limbs: [M31; 6], col_index: &mut usize, row: &mut Vec<M31>) -> (r: SigmaRow)
    requires
        *old(col_index) + 12 <= old(row)@.len(),
    ensures
        r == spec_sigma(sigma_type, limbs),
        final(row)@ == written(old(row)@, *old(col_index) as int, sigma_columns(r)),
        *final(col_index) == *old(col_index) + 12,
{
    let ghost (row0, ci) = (row@, *col_index as int);
    let o = get_output(sigma_type, limbs);
    let mut k: usize = 0;
    while k < 8
        invariant
            k <= 8,
            *col_index == ci + k,
            ci + 12 <= row0.len(),
            0 <= ci,
            row@.len() == row0.len(),
            row@ == written(row0, ci, o@.subrange(0, k as int)),
        decreases 8 - k,
    {
        put(row, col_index, o[k]);
        assert(row@ =~= written(row0, ci, o@.subrange(0, k + 1)));
        k = k + 1;
    }
    let xor_lo = apply_xor(o[4], o[5]);
    let xor_hi = apply_xor(o[6], o[7]);
    put(row, col_index, xor_lo);
    put(row, col_index, xor_hi);
    let res = add3_u32_unchecked(
        Fu32_2 { lo: o[0], hi: o[1] },
        Fu32_2 { lo: o[2], hi: o[3] },
        Fu32_2 { lo: xor_lo, hi: xor_hi },
        col_index,
        row,
    );
    let r = SigmaRow { outputs: o, xor_lo, xor_hi, res };
    assert(o@.subrange(0, 8) =~= o@);
    assert(row@ =~= written(row0, ci, sigma_columns(r)));
    r
}

/// The Ch limbs of three limb arrays, and their sum in each half.
pub open spec fn spec_ch_row(e: [M31; 6], f: [M31; 6], g: [M31; 6]) -> ([M31; 6], Fu32_2) {
    let c = [
        spec_ch(e[0], f[0], g[0]),
        spec_ch(e[1], f[1], g[1]),
        spec_ch(e[2], f[2], g[2]),
        spec_ch(e[3], f[3], g[3]),
        spec_ch(e[4], f[4], g[4]),
        spec_ch(e[5], f[5], g[5]),
    ];
    (c, Fu32_2 { lo: fadd(fadd(c[0], c[1]), c[2]), hi: fadd(fadd(c[3], c[4]), c[5]) })
}

/// Computes Ch limb by limb, adds the limbs of each half, and writes the
/// limbs into the row at the column index.
pub fn ch(e: [M31; 6], f: [M31; 6], g: [M31; 6], col_index: &mut usize, row: &mut Vec<M31>) -> (r: (
    [M31; 6],
    Fu32_2,
))
    requires
        *old(col_index) + 6 <= old(row)@.len(),
    ensures
        r == spec_ch_row(e, f, g),
        final(row)@ == written(old(row)@, *old(col_index) as int, r.0@),
        *final(col_index) == *old(col_index) + 6,
{
    let c = [
        apply_ch(e[0], f[0], g[0]),
        apply_ch(e[1], f[1], g[1]),
        apply_ch(e[2], f[2], g[2]),
        apply_ch(e[3], f[3], g[3]),
        apply_ch(e[4], f[4], g[4]),
        apply_ch(e[5], f[5], g[5]),
    ];
    let r = (c, Fu32_2 { lo: c[0].add(c[1]).add(c[2]), hi: c[3].add(c[4]).add(c[5]) });
    assert(r.0 =~= spec_ch_row(e, f, g).0);
    put_limbs(c, col_index, row);
    r
}

/// The Maj limbs of three limb arrays, and their sum in each half.
pub open spec fn spec_maj_row(a: [M31; 6], b: [M31; 6], c: [M31; 6]) -> ([M31; 6], Fu32_2) {
    let m = [
        spec_maj(a[0], b[0], c[0]),
        spec_maj(a[1], b[1], c[1]),
        spec_maj(a[2], b[2], c[2]),
        spec_maj(a[3], b[3], c[3]),
        spec_maj(a[4], b[4], c[4]),
        spec_maj(a[5], b[5], c[5]),
    ];
    (m, Fu32_2 { lo: fadd(fadd(m[0], m[1]), m[2]), hi: fadd(fadd(m[3], m[4]), m[5]) })
}

/// Computes Maj limb by limb, adds the limbs of each half, and writes the
/// limbs into the row at the column index.
pub fn maj(a: [M31; 6], b: [M31; 6], c: [M31; 6], col_index: &mut usize, row: &mut Vec<M31>) -> (r: (
    [M31; 6],
    Fu32_2,
))
    requires
        *old(col_index) + 6 <= old(row)@.len(),
    ensures
        r == spec_maj_row(a, b, c),
        final(row)@ == written(old(row)@, *old(col_index) as int, r.0@),
        *final(col_index) == *old(col_index) + 6,
{
    let m = [
        apply_maj(a[0], b[0], c[0]),
        apply_maj(a[1], b[1], c[1]),
        apply_maj(a[2], b[2], c[2]),
        apply_maj(a[3], b[3], c[3]),
        apply_maj(a[4], b[4], c[4]),
        apply_maj(a[5], b[5], c[5]),
    ];
    let r = (m, Fu32_2 { lo: m[0].add(m[1]).add(m[2]), hi: m[3].add(m[4]).add(m[5]) });
    assert(r.0 =~= spec_maj_row(a, b, c).0);
    put_limbs(m, col_index, row);
    r
}

/// Writes six limbs into the row from the column index on.
fn put_limbs(limbs: [M31; 6], col_index: &mut usize, row: &mut Vec<M31>)
    requires
        *old(col_index) + 6 <= old(row)@.len(),
    ensures
        final(row)@ == written(old(row)@, *old(col_index) as int, limbs@),
        *final(col_index) == *old(col_index) + 6,
{
    let ghost (row0, ci) = (row@, *col_index as int);
    let mut k: usize = 0;
    while k < 6
        invariant
            k <= 6,
            *col_index == ci + k,
            ci + 6 <= row0.len(),
            0 <= ci,
            row@.len() == row0.len(),
            row@ == written(row0, ci, limbs@.subrange(0, k as int)),
        decreases 6 - k,
    {
        put(row, col_index, limbs[k]);
        assert(row@ =~= written(row0, ci, limbs@.subrange(0, k + 1)));
        k = k + 1;
    }
    assert(limbs@.subrange(0, 6) =~= limbs@);
}

} // verus!
