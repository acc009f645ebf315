//! Component for the Poseidon2 permutation over M31, with its external and
//! internal rounds, and the linear layers of the permutation.
//!
//! The external linear layer of a 16-element state is `circ(2 M4, M4, M4,
//! M4)`: each chunk of four goes through the 4x4 MDS matrix `M4`, then each
//! element gets the sum of the elements at its position in all four chunks.
use crate::field::{fmod, M31};
use vstd::prelude::*;

verus! {

/// The claim of the component: the log size of its trace.
#[derive(Clone, Copy, Debug, Default, PartialEq, Eq, Structural)]
pub struct Claim {
    /// Log2 of the number of rows.
    pub log_size: u32,
}

/// The constraint evaluator of the component.
#[derive(Clone, Copy, Debug, PartialEq, Eq, Structural)]
pub struct Eval {
    /// The claim the evaluator checks.
    pub claim: Claim,
}

impl Eval {
    /// Log2 of the number of rows of the evaluated trace.
    pub fn log_size(&self) -> (r: u32)
        ensures
            r == self.claim.log_size,
    {
        self.claim.log_size
    }

    /// Bound on the log degree of the constraints: one more than the log size.
    pub fn max_constraint_log_degree_bound(&self) -> (r: u32)
        requires
            self.claim.log_size < u32::MAX,
        ensures
            r == self.claim.log_size + 1,
    {
        self.claim.log_size + 1
    }
}

/// Row `row` of the 4x4 MDS matrix of Poseidon2,
/// `M4 = [[5, 7, 1, 3], [4, 6, 1, 1], [1, 3, 5, 7], [1, 1, 4, 6]]`, times
/// `x`, in the integers.
pub open spec fn m4_row(x: [M31; 4], row: int) -> int {
    let (a0, a1, a2, a3) = (x[0].0 as int, x[1].0 as int, x[2].0 as int, x[3].0 as int);
    if row == 0 {
        5 * a0 + 7 * a1 + a2 + 3 * a3
    } else if row == 1 {
        4 * a0 + 6 * a1 + a2 + a3
    } else if row == 2 {
        a0 + 3 * a1 + 5 * a2 + 7 * a3
    } else {
        a0 + a1 + 4 * a2 + 6 * a3
    }
}

/// `M4` times `x`, reduced into the field.
pub open spec fn spec_m4(x: [M31; 4]) -> [M31; 4] {
    [
        M31(fmod(m4_row(x, 0)) as u32),
        M31(fmod(m4_row(x, 1)) as u32),
        M31(fmod(m4_row(x, 2)) as u32),
        M31(fmod(m4_row(x, 3)) as u32),
    ]
}

/// `x` is the field element of the integer `a`.
#[verifier::opaque]
pub open spec fn stands_for(x: M31, a: int) -> bool {
    x.0 == fmod(a)
}

/// The sum computed from elements of `a` and `b` is the element of `a + b`.
proof fn lemma_add_step(x: M31, y: M31, r: M31, a: int, b: int)
    requires
        stands_for(x, a),
        stands_for(y, b),
        r.0 == fmod(x.0 + y.0),
    ensures
        stands_for(r, a + b),
{
    reveal(stands_for);
    let p = crate::field::modulus();
    vstd::arithmetic::div_mod::lemma_add_mod_noop(a, b, p);
}

/// The element standing for `a` is `a` reduced.
proof fn lemma_stands_for_value(x: M31, a: int)
    requires
        stands_for(x, a),
    ensures
        x.0 == fmod(a),
{
    reveal(stands_for);
}

/// Applies `M4` with the additions of the reference schedule.
pub fn apply_m4(x: [M31; 4]) -> (r: [M31; 4])
    ensures
        r == spec_m4(x),
{
    let ghost (a0, a1, a2, a3) = (x[0].0 as int, x[1].0 as int, x[2].0 as int, x[3].0 as int);
    let x0 = x[0];
    let x1 = x[1];
    let x2 = x[2];
    let x3 = x[3];
    let t0 = x0.add(x1);
    let t1 = x2.add(x3);
    let x1x1 = x1.add(x1);
    let x3x3 = x3.add(x3);
    proof {
        lemma_add_raw(x0, x1, t0);
        lemma_add_raw(x2, x3, t1);
        lemma_add_raw(x1, x1, x1x1);
        lemma_add_raw(x3, x3, x3x3);
    }
    let t02 = t0.add(t0);
    let t12 = t1.add(t1);
    let t2 = x1x1.add(t1);
    let t3 = x3x3.add(t0);
    proof {
        lemma_add_step(t0, t0, t02, a0 + a1, a0 + a1);
        lemma_add_step(t1, t1, t12, a2 + a3, a2 + a3);
        lemma_add_step(x1x1, t1, t2, a1 + a1, a2 + a3);
        lemma_add_step(x3x3, t0, t3, a3 + a3, a0 + a1);
    }
    let t12t12 = t12.add(t12);
    let t02t02 = t02.add(t02);
    proof {
        lemma_add_step(t12, t12, t12t12, (a2 + a3) + (a2 + a3), (a2 + a3) + (a2 + a3));
        lemma_add_step(t02, t02, t02t02, (a0 + a1) + (a0 + a1), (a0 + a1) + (a0 + a1));
    }
    let t4 = t12t12.add(t3);
    let t5 = t02t02.add(t2);
    proof {
        lemma_add_step(t12t12, t3, t4, 4 * (a2 + a3), (a3 + a3) + (a0 + a1));
        lemma_add_step(t02t02, t2, t5, 4 * (a0 + a1), (a1 + a1) + (a2 + a3));
    }
    let t6 = t3.add(t5);
    let t7 = t2.add(t4);
    proof {
        lemma_add_step(t3, t5, t6, (a3 + a3) + (a0 + a1), 4 * (a0 + a1) + ((a1 + a1) + (a2 + a3)));
        lemma_add_step(t2, t4, t7, (a1 + a1) + (a2 + a3), 4 * (a2 + a3) + ((a3 + a3) + (a0 + a1)));
        assert(m4_row(x, 0) == (a3 + a3) + (a0 + a1) + (4 * (a0 + a1) + ((a1 + a1) + (a2 + a3))));
        assert(m4_row(x, 1) == 4 * (a0 + a1) + ((a1 + a1) + (a2 + a3)));
        assert(m4_row(x, 2) == (a1 + a1) + (a2 + a3) + (4 * (a2 + a3) + ((a3 + a3) + (a0 + a1))));
        assert(m4_row(x, 3) == 4 * (a2 + a3) + ((a3 + a3) + (a0 + a1)));
        lemma_stands_for_value(t6, m4_row(x, 0));
        lemma_stands_for_value(t5, m4_row(x, 1));
        lemma_stands_for_value(t7, m4_row(x, 2));
        lemma_stands_for_value(t4, m4_row(x, 3));
    }
    let r = [t6, t5, t7, t4];
    assert(r =~= spec_m4(x));
    r
}

/// The sum of two elements stands for the sum of their values.
proof fn lemma_add_raw(x: M31, y: M31, r: M31)
    requires
        r.0 == fmod(x.0 + y.0),
    ensures
        stands_for(r, x.0 + y.0),
{
    reveal(stands_for);
}

/// `M4` applied to each chunk of four of a state.
pub open spec fn spec_m4_chunks(state: [M31; 16]) -> [M31; 16] {
    let c0 = spec_m4([state[0], state[1], state[2], state[3]]);
    let c1 = spec_m4([state[4], state[5], state[6], state[7]]);
    let c2 = spec_m4([state[8], state[9], state[10], state[11]]);
    let c3 = spec_m4([state[12], state[13], state[14], state[15]]);
    [
        c0[0], c0[1], c0[2], c0[3],
        c1[0], c1[1], c1[2], c1[3],
        c2[0], c2[1], c2[2], c2[3],
        c3[0], c3[1], c3[2], c3[3],
    ]
}

/// The sum of the elements at position `j` of the four chunks.
pub open spec fn column_sum(y: [M31; 16], j: int) -> int {
    y[j].0 + y[j + 4].0 + y[j + 8].0 + y[j + 12].0
}

/// The external linear layer `circ(2 M4, M4, M4, M4)` on a state: after `M4`
/// on each chunk, each element gets the sum of its column, so that element
/// `j` of chunk `i` is `2 (M4 c_i)_j + sum_{k != i} (M4 c_k)_j`.
pub open spec fn spec_external_round_matrix(state: [M31; 16]) -> [M31; 16] {
    let y = spec_m4_chunks(state);
    [
        M31(fmod(y[0].0 + column_sum(y, 0)) as u32),
        M31(fmod(y[1].0 + column_sum(y, 1)) as u32),
        M31(fmod(y[2].0 + column_sum(y, 2)) as u32),
        M31(fmod(y[3].0 + column_sum(y, 3)) as u32),
        M31(fmod(y[4].0 + column_sum(y, 0)) as u32),
        M31(fmod(y[5].0 + column_sum(y, 1)) as u32),
        M31(fmod(y[6].0 + column_sum(y, 2)) as u32),
        M31(fmod(y[7].0 + column_sum(y, 3)) as u32),
        M31(fmod(y[8].0 + column_sum(y, 0)) as u32),
        M31(fmod(y[9].0 + column_sum(y, 1)) as u32),
        M31(fmod(y[10].0 + column_sum(y, 2)) as u32),
        M31(fmod(y[11].0 + column_sum(y, 3)) as u32),
        M31(fmod(y[12].0 + column_sum(y, 0)) as u32),
        M31(fmod(y[13].0 + column_sum(y, 1)) as u32),
        M31(fmod(y[14].0 + column_sum(y, 2)) as u32),
        M31(fmod(y[15].0 + column_sum(y, 3)) as u32),
    ]
}

/// The sum of four elements, as the layer adds them.
fn sum4(a: M31, b: M31, c: M31, d: M31) -> (r: M31)
    requires
        c.0 < crate::field::P,
        d.0 < crate::field::P,
    ensures
        stands_for(r, a.0 + b.0 + c.0 + d.0),
{
    let ab = a.add(b);
    let abc = ab.add(c);
    let r = abc.add(d);
    proof {
        lemma_add_raw(a, b, ab);
        lemma_self_stands_for(c);
        lemma_self_stands_for(d);
        lemma_add_step(ab, c, abc, a.0 + b.0, c.0 as int);
        lemma_add_step(abc, d, r, a.0 + b.0 + c.0, d.0 as int);
    }
    r
}

/// A canonical element stands for its value.
proof fn lemma_self_stands_for(x: M31)
    requires
        x.0 < crate::field::P,
    ensures
        stands_for(x, x.0 as int),
{
    reveal(stands_for);
    vstd::arithmetic::div_mod::lemma_small_mod(x.0 as nat, crate::field::P as nat);
}

/// One element of the layer: its chunk value plus its column sum.
fn layer_entry(y: M31, sum: M31, Ghost(column): Ghost<int>) -> (r: M31)
    requires
        y.0 < crate::field::P,
        stands_for(sum, column),
    ensures
        r.0 == fmod(y.0 + column),
{
    let r = y.add(sum);
    proof {
        lemma_self_stands_for(y);
        lemma_add_step(y, sum, r, y.0 as int, column);
        lemma_stands_for_value(r, y.0 + column);
    }
    r
}

/// Applies the external linear layer `circ(2 M4, M4, M4, M4)` to a state.
pub fn apply_external_round_matrix(state: &mut [M31; 16])
    ensures
        *final(state) == spec_external_round_matrix(*old(state)),
{
    let s = *state;
    let c0 = apply_m4([s[0], s[1], s[2], s[3]]);
    let c1 = apply_m4([s[4], s[5], s[6], s[7]]);
    let c2 = apply_m4([s[8], s[9], s[10], s[11]]);
    let c3 = apply_m4([s[12], s[13], s[14], s[15]]);
    let y = [
        c0[0], c0[1], c0[2], c0[3],
        c1[0], c1[1], c1[2], c1[3],
        c2[0], c2[1], c2[2], c2[3],
        c3[0], c3[1], c3[2], c3[3],
    ];
    let ghost ys = spec_m4_chunks(s);
    assert(y =~= ys);
    proof {
        assert forall|k: int| 0 <= k < 16 implies (#[trigger] y[k]).0 < crate::field::P by {
            vstd::arithmetic::div_mod::lemma_mod_pos_bound(0, crate::field::modulus());
        }
    }
    let sum0 = sum4(y[0], y[4], y[8], y[12]);
    let sum1 = sum4(y[1], y[5], y[9], y[13]);
    let sum2 = sum4(y[2], y[6], y[10], y[14]);
    let sum3 = sum4(y[3], y[7], y[11], y[15]);
    let r = [
        layer_entry(y[0], sum0, Ghost(column_sum(ys, 0))),
        layer_entry(y[1], sum1, Ghost(column_sum(ys, 1))),
        layer_entry(y[2], sum2, Ghost(column_sum(ys, 2))),
        layer_entry(y[3], sum3, Ghost(column_sum(ys, 3))),
        layer_entry(y[4], sum0, Ghost(column_sum(ys, 0))),
        layer_entry(y[5], sum1, Ghost(column_sum(ys, 1))),
        layer_entry(y[6], sum2, Ghost(column_sum(ys, 2))),
        layer_entry(y[7], sum3, Ghost(column_sum(ys, 3))),
        layer_entry(y[8], sum0, Ghost(column_sum(ys, 0))),
        layer_entry(y[9], sum1, Ghost(column_sum(ys, 1))),
        layer_entry(y[10], sum2, Ghost(column_sum(ys, 2))),
        layer_entry(y[11], sum3, Ghost(column_sum(ys, 3))),
        layer_entry(y[12], sum0, Ghost(column_sum(ys, 0))),
        layer_entry(y[13], sum1, Ghost(column_sum(ys, 1))),
        layer_entry(y[14], sum2, Ghost(column_sum(ys, 2))),
        layer_entry(y[15], sum3, Ghost(column_sum(ys, 3))),
    ];
    assert(r =~= spec_external_round_matrix(s));
    *state = r;
}

} // verus!
