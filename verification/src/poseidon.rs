//! A Poseidon permutation over the M31 field with a 3-element state, used as
//! a Merkle hash. Its round constants are the placeholders `1, 2, 3, ...`
//! and its MDS matrix is `3` on the diagonal and `1` elsewhere.
use crate::field::{fadd, fmod, fmul, M31};
use crate::merkle::MerkleHasher;
use vstd::prelude::*;

verus! {

/// Poseidon hash: `hash(l, r)` is the first element of the permutation of `[l, r, 0]`.
#[derive(Clone, Copy, Debug)]
pub struct PoseidonHash;

/// State size (2 inputs + 1 capacity).
pub const T: usize = 3;

/// Number of full rounds, half before and half after the partial rounds.
pub const FULL_ROUNDS: usize = 8;

/// Number of partial rounds.
pub const PARTIAL_ROUNDS: usize = 22;

/// The permutation state.
pub type State = [M31; 3];

/// The field element `x^5`.
pub open spec fn spec_sbox(x: M31) -> M31 {
    M31(fmod(x.0 * x.0 * x.0 * x.0 * x.0) as u32)
}

/// The round constant at position `i` of the flat table: `i + 1`.
pub open spec fn spec_round_constant(i: int) -> int {
    i + 1
}

/// The state after adding the constants of `round`.
pub open spec fn spec_add_round_constants(s: Seq<M31>, round: int) -> Seq<M31> {
    Seq::new(3, |i: int| M31(fmod(s[i].0 + spec_round_constant(round * 3 + i)) as u32))
}

/// The state after the MDS matrix: `new[i] = 3 s[i] + sum of the others`.
pub open spec fn spec_mds(s: Seq<M31>) -> Seq<M31> {
    Seq::new(3, |i: int| M31(fmod(s[0].0 + s[1].0 + s[2].0 + 2 * s[i].0) as u32))
}

/// One full round: constants, S-box on every element, MDS.
pub open spec fn spec_full_round(s: Seq<M31>, round: int) -> Seq<M31> {
    let a = spec_add_round_constants(s, round);
    spec_mds(Seq::new(3, |i: int| spec_sbox(a[i])))
}

/// One partial round: constants, S-box on the first element only, MDS.
pub open spec fn spec_partial_round(s: Seq<M31>, round: int) -> Seq<M31> {
    let a = spec_add_round_constants(s, round);
    spec_mds(a.update(0, spec_sbox(a[0])))
}

/// The state after the first `n` rounds: 4 full, 22 partial, then 4 full.
pub open spec fn spec_rounds(s: Seq<M31>, n: int) -> Seq<M31>
    decreases n,
{
    if n <= 0 {
        s
    } else {
        let prev = spec_rounds(s, n - 1);
        let r = n - 1;
        if r < 4 || r >= 26 {
            spec_full_round(prev, r)
        } else {
            spec_partial_round(prev, r)
        }
    }
}

/// The Poseidon permutation: all 30 rounds.
pub open spec fn spec_permutation(s: Seq<M31>) -> Seq<M31> {
    spec_rounds(s, 30)
}

/// `((a mod P) * b) mod P == (a * b) mod P`.
proof fn lemma_mul_mod_left(a: int, b: int)
    ensures
        fmod(fmod(a) * b) == fmod(a * b),
{
    vstd::arithmetic::div_mod::lemma_mul_mod_noop_left(a, b, 2147483647);
}

impl PoseidonHash {
    /// S-box: `x^5`.
    pub fn sbox(x: M31) -> (r: M31)
        ensures
            r == spec_sbox(x),
    {
        let x2 = x.mul(x);
        let x4 = x2.mul(x2);
        let r = x4.mul(x);
        proof {
            let a = x.0 as int;
            lemma_mul_mod_left(a * a, a * a);
            vstd::arithmetic::div_mod::lemma_mul_mod_noop_right(fmod(a * a), a * a, 2147483647);
            lemma_mul_mod_left(a * a * (a * a), a);
            assert(a * a * (a * a) * a == a * a * a * a * a) by (nonlinear_arith);
            assert(fmod(a * a) * fmod(a * a) == x2.0 * x2.0);
        }
        r
    }

    /// Applies the MDS matrix to the state.
    pub fn mds_multiply(state: &mut State)
        ensures
            final(state)@ == spec_mds(old(state)@),
    {
        let s0 = state[0];
        let s1 = state[1];
        let s2 = state[2];
        let sum = s0.add(s1).add(s2);
        let n0 = sum.add(s0).add(s0);
        let n1 = sum.add(s1).add(s1);
        let n2 = sum.add(s2).add(s2);
        proof {
            lemma_add_chain(s0.0 as int, s1.0 as int, s2.0 as int, s0.0 as int);
            lemma_add_chain(s0.0 as int, s1.0 as int, s2.0 as int, s1.0 as int);
            lemma_add_chain(s0.0 as int, s1.0 as int, s2.0 as int, s2.0 as int);
        }
        *state = [n0, n1, n2];
        assert(state@ =~= spec_mds(old(state)@));
    }

    /// Adds the constants of `round` to the state.
    pub fn add_round_constants(state: &mut State, round: usize)
        requires
            round < FULL_ROUNDS + PARTIAL_ROUNDS,
        ensures
            final(state)@ == spec_add_round_constants(old(state)@, round as int),
    {
        let offset = round * T;
        let mut i: usize = 0;
        while i < T
            invariant
                i <= 3,
                offset == round * 3,
                round < 30,
                forall|k: int| 0 <= k < i ==> state@[k] == spec_add_round_constants(old(state)@, round as int)[k],
                forall|k: int| i <= k < 3 ==> state@[k] == old(state)@[k],
            decreases 3 - i,
        {
            let c = M31::from_u32((offset + i + 1) as u32);
            proof {
                vstd::arithmetic::div_mod::lemma_small_mod((offset + i + 1) as nat, 2147483647);
            }
            state[i] = state[i].add(c);
            i = i + 1;
        }
        assert(state@ =~= spec_add_round_constants(old(state)@, round as int));
    }

    /// Full round: constants, S-box on every element, MDS.
    pub fn full_round(state: &mut State, round: usize)
        requires
            round < FULL_ROUNDS + PARTIAL_ROUNDS,
        ensures
            final(state)@ == spec_full_round(old(state)@, round as int),
    {
        Self::add_round_constants(state, round);
        let ghost a = state@;
        let mut i: usize = 0;
        while i < T
            invariant
                i <= 3,
                forall|k: int| 0 <= k < i ==> state@[k] == spec_sbox(a[k]),
                forall|k: int| i <= k < 3 ==> state@[k] == a[k],
            decreases 3 - i,
        {
            state[i] = Self::sbox(state[i]);
            i = i + 1;
        }
        assert(state@ =~= Seq::new(3, |k: int| spec_sbox(a[k])));
        Self::mds_multiply(state);
    }

    /// Partial round: constants, S-box on the first element only, MDS.
    pub fn partial_round(state: &mut State, round: usize)
        requires
            round < FULL_ROUNDS + PARTIAL_ROUNDS,
        ensures
            final(state)@ == spec_partial_round(old(state)@, round as int),
    {
        Self::add_round_constants(state, round);
        let ghost a = state@;
        state[0] = Self::sbox(state[0]);
        assert(state@ =~= a.update(0, spec_sbox(a[0])));
        Self::mds_multiply(state);
    }

    /// The Poseidon permutation.
    pub fn permutation(input: State) -> (r: State)
        ensures
            r@ == spec_permutation(input@),
    {
        let mut state = input;
        let mut round_counter: usize = 0;
        let mut k: usize = 0;
        while k < FULL_ROUNDS / 2
            invariant
                k <= 4,
                round_counter == k,
                state@ == spec_rounds(input@, round_counter as int),
            decreases 4 - k,
        {
            Self::full_round(&mut state, round_counter);
            round_counter = round_counter + 1;
            k = k + 1;
        }
        k = 0;
        while k < PARTIAL_ROUNDS
            invariant
                k <= 22,
                round_counter == 4 + k,
                state@ == spec_rounds(input@, round_counter as int),
            decreases 22 - k,
        {
            Self::partial_round(&mut state, round_counter);
            round_counter = round_counter + 1;
            k = k + 1;
        }
        k = 0;
        while k < FULL_ROUNDS / 2
            invariant
                k <= 4,
                round_counter == 26 + k,
                state@ == spec_rounds(input@, round_counter as int),
            decreases 4 - k,
        {
            Self::full_round(&mut state, round_counter);
            round_counter = round_counter + 1;
            k = k + 1;
        }
        state
    }
}

/// Adding three reduced sums twice more gives the MDS row.
proof fn lemma_add_chain(a: int, b: int, c: int, x: int)
    ensures
        fmod(fmod(fmod(fmod(a + b) + c) + x) + x) == fmod(a + b + c + 2 * x),
{
    let p = 2147483647int;
    vstd::arithmetic::div_mod::lemma_add_mod_noop(a + b, c, p);
    vstd::arithmetic::div_mod::lemma_mod_twice(c, p);
    vstd::arithmetic::div_mod::lemma_add_mod_noop(fmod(a + b), c, p);
    vstd::arithmetic::div_mod::lemma_mod_twice(a + b, p);
    vstd::arithmetic::div_mod::lemma_add_mod_noop(a + b + c, x, p);
    vstd::arithmetic::div_mod::lemma_add_mod_noop(fmod(a + b + c), x, p);
    vstd::arithmetic::div_mod::lemma_mod_twice(x, p);
    vstd::arithmetic::div_mod::lemma_mod_twice(a + b + c, p);
    vstd::arithmetic::div_mod::lemma_add_mod_noop(a + b + c + x, x, p);
    vstd::arithmetic::div_mod::lemma_add_mod_noop(fmod(a + b + c + x), x, p);
    vstd::arithmetic::div_mod::lemma_mod_twice(a + b + c + x, p);
}

impl MerkleHasher for PoseidonHash {
    open spec fn spec_hash(left: M31, right: M31) -> M31 {
        spec_permutation(seq![left, right, M31(0)])[0]
    }

    fn hash(left: M31, right: M31) -> (r: M31) {
        let input = [left, right, M31::zero()];
        assert(input@ =~= seq![left, right, M31(0)]);
        let output = Self::permutation(input);
        output[0]
    }

    fn default_hashes() -> (r: Vec<M31>) {
        let mut defaults: Vec<M31> = Vec::new();
        let mut k: usize = 0;
        while k < 31
            invariant
                k <= 31,
                defaults@.len() == k,
                forall|d: int| 0 <= d < k ==> defaults@[d] == M31(0),
            decreases 31 - k,
        {
            defaults.push(M31::zero());
            k = k + 1;
        }
        let mut depth: usize = 30;
        while depth > 0
            invariant
                depth <= 30,
                defaults@.len() == 31,
                defaults@[30] == M31(0),
                forall|d: int| depth <= d < 30 ==> defaults@[d] == #[trigger] Self::spec_hash(defaults@[d + 1], defaults@[d + 1]),
            decreases depth,
        {
            let child = defaults[depth];
            let h = Self::hash(child, child);
            defaults.set(depth - 1, h);
            depth = depth - 1;
        }
        defaults
    }
}

/// The hash of two children is the first coordinate of the Poseidon
/// permutation of the state holding the left child, the right child and a
/// zero capacity element: what [`PoseidonHash::permutation`] leaves at
/// position 0 of `[left, right, 0]`.
pub proof fn lemma_hash_is_first_coordinate(left: M31, right: M31)
    ensures
        PoseidonHash::spec_hash(left, right) == spec_permutation(
            seq![left, right, M31(0)],
        ).first(),
{
}

/// The S-box is the fifth power in the field: `x^5 = x * (x^2 * x^2)`.
pub proof fn lemma_sbox_is_fifth_power(x: M31)
    ensures
        spec_sbox(x) == fmul(x, fmul(fmul(x, x), fmul(x, x))),
{
    let p = 2147483647int;
    let a = x.0 as int;
    vstd::arithmetic::div_mod::lemma_mul_mod_noop(a * a, a * a, p);
    vstd::arithmetic::div_mod::lemma_mul_mod_noop_right(a, (a * a) * (a * a), p);
    assert(a * a * a * a * a == a * ((a * a) * (a * a))) by (nonlinear_arith);
}

/// Row `i` of the MDS matrix adds the sum of the state to twice element
/// `i`: `new[i] = (s[0] + s[1] + s[2]) + (s[i] + s[i])` in the field.
pub proof fn lemma_mds_rows(s: Seq<M31>, i: int)
    requires
        s.len() == 3,
        0 <= i < 3,
    ensures
        spec_mds(s)[i] == fadd(fadd(fadd(s[0], s[1]), s[2]), fadd(s[i], s[i])),
{
    let p = 2147483647int;
    let (a, b, c, x) = (s[0].0 as int, s[1].0 as int, s[2].0 as int, s[i].0 as int);
    vstd::arithmetic::div_mod::lemma_add_mod_noop(a, b, p);
    vstd::arithmetic::div_mod::lemma_mod_twice(a + b, p);
    vstd::arithmetic::div_mod::lemma_add_mod_noop(a + b, c, p);
    vstd::arithmetic::div_mod::lemma_mod_twice(c, p);
    vstd::arithmetic::div_mod::lemma_add_mod_noop(fmod(a + b), c, p);
    vstd::arithmetic::div_mod::lemma_add_mod_noop(a + b + c, x + x, p);
    vstd::arithmetic::div_mod::lemma_add_mod_noop(fmod(a + b + c), fmod(x + x), p);
    vstd::arithmetic::div_mod::lemma_mod_twice(a + b + c, p);
    vstd::arithmetic::div_mod::lemma_mod_twice(x + x, p);
    assert(fmod(fmod(a + b) + c) == fmod(a + b + c));
    assert(fmod(fmod(a + b + c) + fmod(x + x)) == fmod(a + b + c + 2 * x));
}

} // verus!
