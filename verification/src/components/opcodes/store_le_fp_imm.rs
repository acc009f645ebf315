//! Component proving the StoreLeFpImm opcode: `[fp + dst_off] = [fp + src_off] <= imm`.
//!
//! With `a = min(src, imm)` and `b = max(src, imm)`, the points `0 <= a <= b
//! <= P - 1` cut the circle of field elements into three arcs of lengths
//! `a`, `b - a` and `P - 1 - b`, summing to `P - 1`. The row keeps the two
//! shortest arcs: the shortest is below `P / 3` and the middle one below
//! `P / 2`, each written as two 16-bit range-checked limbs
//! (`arc_short = lo + hi * PRIME_OVER_3_HIGH`,
//! `arc_long = lo + hi * PRIME_OVER_2_HIGH`). One boolean `keep_i_j` tells
//! which two arcs they are, and the constraints check their sum and product
//! against the arcs named.
use crate::components::{
    component_log_sizes, is_component_log_sizes, is_trace_log_size, rows_of, trace_log_size,
    SECURE_EXTENSION_DEGREE,
};
use crate::field::{fadd, fmod, fmul, fsub, M31, P};
use crate::memory::ExecutionBundle;
use vstd::prelude::*;

verus! {

/// Number of trace columns.
pub const N_TRACE_COLUMNS: usize = 22;
/// Number of lookups into the memory relation per row.
pub const N_MEMORY_LOOKUPS: usize = 6;
/// Number of lookups into the registers relation per row.
pub const N_REGISTERS_LOOKUPS: usize = 2;
/// Number of 20-bit range checks per row.
pub const N_RANGE_CHECK_20_LOOKUPS: usize = 3;
/// Number of 16-bit range checks per row.
pub const N_RANGE_CHECK_16_LOOKUPS: usize = 4;
/// Number of interaction columns: four per pair of lookups.
pub const N_LOOKUPS_COLUMNS: usize = SECURE_EXTENSION_DEGREE * ((N_MEMORY_LOOKUPS + N_REGISTERS_LOOKUPS
    + N_RANGE_CHECK_20_LOOKUPS + N_RANGE_CHECK_16_LOOKUPS + 1) / 2);

/// `ceil(P / 3 / 2^16)`: the multiplier of the high limb of the short arc.
pub const PRIME_OVER_3_HIGH: u32 = (P / 3) / 65536 + 1;
/// `ceil(P / 2 / 2^16)`: the multiplier of the high limb of the long arc.
pub const PRIME_OVER_2_HIGH: u32 = (P / 2) / 65536 + 1;

/// The claim of the component: the log size of its trace.
#[derive(Clone, Copy, Debug, Default, PartialEq, Eq, Structural)]
pub struct Claim {
    /// Log2 of the number of rows.
    pub log_size: u32,
}

impl Claim {
    /// The log sizes of the component's columns, tree by tree.
    pub fn log_sizes(&self) -> (r: Vec<Vec<u32>>)
        ensures
            is_component_log_sizes(r@, self.log_size, N_TRACE_COLUMNS as nat, N_LOOKUPS_COLUMNS as nat),
    {
        component_log_sizes(self.log_size, N_TRACE_COLUMNS, N_LOOKUPS_COLUMNS)
    }
}

/// The constraint evaluator of the component.
#[derive(Clone, Copy, Debug, PartialEq, Eq, Structural)]
pub struct Eval {
    /// The claim the evaluator checks.
    pub claim: Claim,
}

impl Eval {
    /// Log2 of the number of rows of the evaluated trace.
    pub fn log_size(&self) -> (r: u32)
        ensures
            r == self.claim.log_size,
    {
        self.claim.log_size
    }

    /// Bound on the log degree of the constraints: one more than the log size.
    pub fn max_constraint_log_degree_bound(&self) -> (r: u32)
        requires
            self.claim.log_size < u32::MAX,
        ensures
            r == self.claim.log_size + 1,
    {
        self.claim.log_size + 1
    }
}

/// `o` orders the three lengths `l` by length, ties by index: a stable sort.
pub open spec fn is_stable_order(l: [u32; 3], o: [usize; 3]) -> bool {
    &&& o[0] < 3 && o[1] < 3 && o[2] < 3
    &&& o[0] != o[1] && o[0] != o[2] && o[1] != o[2]
    &&& l[o[0] as int] <= l[o[1] as int] <= l[o[2] as int]
    &&& l[o[0] as int] == l[o[1] as int] ==> o[0] < o[1]
    &&& l[o[1] as int] == l[o[2] as int] ==> o[1] < o[2]
}

/// The stable order of three lengths, by insertion.
pub open spec fn spec_sort3(l: [u32; 3]) -> [usize; 3] {
    let (i0, i1) = if l[1] < l[0] {
        (1usize, 0usize)
    } else {
        (0usize, 1usize)
    };
    if l[2] < l[i1 as int] {
        if l[2] < l[i0 as int] {
            [2usize, i0, i1]
        } else {
            [i0, 2usize, i1]
        }
    } else {
        [i0, i1, 2usize]
    }
}

/// The insertion order is the stable order.
pub proof fn lemma_sort3_stable(l: [u32; 3])
    ensures
        is_stable_order(l, spec_sort3(l)),
{
}

/// Sorts three lengths by length, ties by index.
fn sort_by_length(l: [u32; 3]) -> (o: [usize; 3])
    ensures
        o == spec_sort3(l),
        is_stable_order(l, o),
{
    let (i0, i1) = if l[1] < l[0] {
        (1usize, 0usize)
    } else {
        (0usize, 1usize)
    };
    let o = if l[2] < l[i1] {
        if l[2] < l[i0] {
            [2usize, i0, i1]
        } else {
            [i0, 2usize, i1]
        }
    } else {
        [i0, i1, 2usize]
    };
    proof {
        lemma_sort3_stable(l);
        assert(o =~= spec_sort3(l));
    }
    o
}

/// The witness of one comparison row.
#[derive(Clone, Copy, Debug, PartialEq, Eq)]
pub struct LeLimbs {
    /// The smaller of the source value and the immediate.
    pub a: M31,
    /// The larger of the source value and the immediate.
    pub b: M31,
    /// Whether the source value is at most the immediate.
    pub is_le: M31,
    /// The kept arcs are `a` and `b - a`.
    pub keep_0_1: M31,
    /// The kept arcs are `a` and `P - 1 - b`.
    pub keep_0_2: M31,
    /// The kept arcs are `b - a` and `P - 1 - b`.
    pub keep_1_2: M31,
    /// Low limb of the shortest arc.
    pub arc_short_lo: M31,
    /// High limb of the shortest arc.
    pub arc_short_hi: M31,
    /// Low limb of the middle arc.
    pub arc_long_lo: M31,
    /// High limb of the middle arc.
    pub arc_long_hi: M31,
}

/// The three arc lengths cut by `a <= b`: `a`, `b - a`, `P - 1 - b`.
pub open spec fn arcs(a: u32, b: u32) -> [u32; 3] {
    [a, (b - a) as u32, (P - 1 - b) as u32]
}

/// `1` if `c` holds, else `0`.
pub open spec fn flag(c: bool) -> M31 {
    if c {
        M31(1)
    } else {
        M31(0)
    }
}

/// The row for `src_val <= imm`, on an enabled (`enabler == 1`) or padding row.
pub open spec fn spec_le_limbs(src_val: M31, imm: M31, enabler: M31) -> LeLimbs {
    let le = src_val.0 <= imm.0;
    let a = if le {
        src_val
    } else {
        imm
    };
    let b = if le {
        imm
    } else {
        src_val
    };
    let l = arcs(a.0, b.0);
    let o = spec_sort3(l);
    let short = l[o[0] as int];
    let long = l[o[1] as int];
    let exclude = o[2];
    let on = enabler == M31(1);
    LeLimbs {
        a,
        b,
        is_le: flag(le),
        keep_0_1: flag(on && exclude == 2),
        keep_0_2: flag(on && exclude == 1),
        keep_1_2: flag(on && exclude == 0),
        arc_short_lo: M31(short % PRIME_OVER_3_HIGH),
        arc_short_hi: M31(short / PRIME_OVER_3_HIGH),
        arc_long_lo: M31(long % PRIME_OVER_2_HIGH),
        arc_long_hi: M31(long / PRIME_OVER_2_HIGH),
    }
}

/// `1` if `c` holds, else `0`.
fn flag_of(c: bool) -> (r: M31)
    ensures
        r == flag(c),
{
    if c {
        M31::one()
    } else {
        M31::zero()
    }
}

/// Computes the witness of one comparison row.
pub fn le_limbs(src_val: M31, imm: M31, enabler: M31) -> (r: LeLimbs)
    requires
        src_val.0 < P,
        imm.0 < P,
    ensures
        r == spec_le_limbs(src_val, imm, enabler),
{
    let le = src_val.0 <= imm.0;
    let a = if le {
        src_val
    } else {
        imm
    };
    let b = if le {
        imm
    } else {
        src_val
    };
    let a_val = a.0;
    let b_val = b.0;
    let lengths = [a_val, b_val - a_val, P - 1 - b_val];
    assert(lengths =~= arcs(a_val, b_val));
    let order = sort_by_length(lengths);
    let short = lengths[order[0]];
    let long = lengths[order[1]];
    let exclude = order[2];
    let on = enabler == M31::one();
    proof {
        vstd::arithmetic::div_mod::lemma_small_mod((short % PRIME_OVER_3_HIGH) as nat, P as nat);
        vstd::arithmetic::div_mod::lemma_small_mod((short / PRIME_OVER_3_HIGH) as nat, P as nat);
        vstd::arithmetic::div_mod::lemma_small_mod((long % PRIME_OVER_2_HIGH) as nat, P as nat);
        vstd::arithmetic::div_mod::lemma_small_mod((long / PRIME_OVER_2_HIGH) as nat, P as nat);
    }
    LeLimbs {
        a,
        b,
        is_le: flag_of(le),
        keep_0_1: flag_of(on && exclude == 2),
        keep_0_2: flag_of(on && exclude == 1),
        keep_1_2: flag_of(on && exclude == 0),
        arc_short_lo: M31::from_u32(short % PRIME_OVER_3_HIGH),
        arc_short_hi: M31::from_u32(short / PRIME_OVER_3_HIGH),
        arc_long_lo: M31::from_u32(long % PRIME_OVER_2_HIGH),
        arc_long_hi: M31::from_u32(long / PRIME_OVER_2_HIGH),
    }
}

/// On an enabled row with canonical inputs, the witness meets the
/// component's constraints: `is_le` is the comparison, `a` and `b` are the
/// minimum and maximum, exactly one `keep` flag is set, the arc limbs fit in
/// 16 bits, and the kept arcs (`arc_short = lo + hi * PRIME_OVER_3_HIGH`,
/// `arc_long = lo + hi * PRIME_OVER_2_HIGH`) have the sum and product of the
/// two arcs the flag names.
pub proof fn lemma_le_limbs_correct(src_val: M31, imm: M31)
    requires
        src_val.0 < P,
        imm.0 < P,
    ensures
        ({
            let w = spec_le_limbs(src_val, imm, M31(1));
            let a = w.a.0 as int;
            let b = w.b.0 as int;
            let short = w.arc_short_lo.0 + w.arc_short_hi.0 * PRIME_OVER_3_HIGH;
            let long = w.arc_long_lo.0 + w.arc_long_hi.0 * PRIME_OVER_2_HIGH;
            &&& w.is_le == flag(src_val.0 <= imm.0)
            &&& a <= b
            &&& (src_val.0 <= imm.0 ==> a == src_val.0 && b == imm.0)
            &&& (imm.0 < src_val.0 ==> a == imm.0 && b == src_val.0)
            &&& w.keep_0_1.0 + w.keep_0_2.0 + w.keep_1_2.0 == 1
            &&& w.arc_short_lo.0 < 65536 && w.arc_short_hi.0 < 65536
            &&& w.arc_long_lo.0 < 65536 && w.arc_long_hi.0 < 65536
            &&& (w.keep_0_1 == M31(1) ==> short + long == a + (b - a) && short * long == a * (b - a))
            &&& (w.keep_0_2 == M31(1) ==> short + long == a + (P - 1 - b) && short * long == a * (P - 1 - b))
            &&& (w.keep_1_2 == M31(1) ==> short + long == (b - a) + (P - 1 - b) && short * long == (b - a) * (P
                - 1 - b))
        }),
{
    let w = spec_le_limbs(src_val, imm, M31(1));
    let le = src_val.0 <= imm.0;
    let a = w.a.0;
    let b = w.b.0;
    let l = arcs(a, b);
    let o = spec_sort3(l);
    lemma_sort3_stable(l);
    let short = l[o[0] as int];
    let long = l[o[1] as int];
    assert(l[0] + l[1] + l[2] == P - 1);
    assert(3 * short <= P - 1);
    assert(2 * long <= P - 1);
    assert(PRIME_OVER_3_HIGH == 10923);
    assert(PRIME_OVER_2_HIGH == 16384);
    vstd::arithmetic::div_mod::lemma_fundamental_div_mod(short as int, 10923);
    vstd::arithmetic::div_mod::lemma_fundamental_div_mod(long as int, 16384);
    assert(short / 10923 < 65536);
    assert(long / 16384 < 65536);
    vstd::arithmetic::mul::lemma_mul_is_commutative(short as int, long as int);
    assert(w.arc_short_lo.0 + w.arc_short_hi.0 * PRIME_OVER_3_HIGH == short);
    assert(w.arc_long_lo.0 + w.arc_long_hi.0 * PRIME_OVER_2_HIGH == long);
}


// ---------------------------------------------------------------------------
// The trace and its constraints.

/// The values a row of the trace is written from.
#[derive(Clone, Copy, Debug, PartialEq, Eq)]
pub struct RowInput {
    /// Program counter.
    pub pc: M31,
    /// Frame pointer.
    pub fp: M31,
    /// Clock of the step.
    pub clock: M31,
    /// Clock of the previous access to the instruction.
    pub inst_prev_clock: M31,
    /// Offset of the source from `fp`.
    pub src_off: M31,
    /// The immediate compared against.
    pub imm: M31,
    /// Offset of the destination from `fp`.
    pub dst_off: M31,
    /// The source value.
    pub src_val: M31,
    /// Clock of the previous access to the source.
    pub src_prev_clock: M31,
    /// Previous value of the destination.
    pub dst_prev_val: M31,
    /// Clock of the previous access to the destination.
    pub dst_prev_clock: M31,
}

/// The input of a padding row: all zeros.
pub open spec fn zero_input() -> RowInput {
    RowInput {
        pc: M31(0),
        fp: M31(0),
        clock: M31(0),
        inst_prev_clock: M31(0),
        src_off: M31(0),
        imm: M31(0),
        dst_off: M31(0),
        src_val: M31(0),
        src_prev_clock: M31(0),
        dst_prev_val: M31(0),
        dst_prev_clock: M31(0),
    }
}

/// The compared values are canonical field elements.
pub open spec fn row_input_ok(i: RowInput) -> bool {
    i.src_val.0 < P && i.imm.0 < P
}

/// The trace row written for `i` with the given enabler, column by column.
pub open spec fn spec_trace_row(enabler: M31, i: RowInput) -> Seq<M31> {
    let w = spec_le_limbs(i.src_val, i.imm, enabler);
    seq![
        enabler, i.pc, i.fp, i.clock, i.inst_prev_clock, i.src_off, i.imm, i.dst_off,
        i.src_val, i.src_prev_clock, i.dst_prev_val, i.dst_prev_clock,
        w.a, w.b, w.keep_0_1, w.keep_0_2, w.keep_1_2,
        w.arc_short_lo, w.arc_short_hi, w.arc_long_lo, w.arc_long_hi, w.is_le
    ]
}

/// Writes the trace row for `input` with the given enabler.
pub fn trace_row(enabler: M31, input: &RowInput) -> (r: [M31; 22])
    requires
        row_input_ok(*input),
    ensures
        r@ == spec_trace_row(enabler, *input),
{
    let w = le_limbs(input.src_val, input.imm, enabler);
    let r = [
        enabler, input.pc, input.fp, input.clock, input.inst_prev_clock, input.src_off, input.imm, input.dst_off,
        input.src_val, input.src_prev_clock, input.dst_prev_val, input.dst_prev_clock,
        w.a, w.b, w.keep_0_1, w.keep_0_2, w.keep_1_2,
        w.arc_short_lo, w.arc_short_hi, w.arc_long_lo, w.arc_long_hi, w.is_le,
    ];
    assert(r@ =~= spec_trace_row(enabler, *input));
    r
}

/// `-1` in the field.
pub open spec fn neg_one() -> M31 {
    fsub(M31(0), M31(1))
}

/// The arc equations of a row, each gated by its `keep` flag: the sum and
/// the product of the kept arcs are those of the two arcs the flag names,
/// for `arc_short = lo + hi * PRIME_OVER_3_HIGH` and
/// `arc_long = lo + hi * PRIME_OVER_2_HIGH`.
#[verifier::opaque]
pub open spec fn arc_checks(a: M31, b: M31, keep: [M31; 3], limbs: [M31; 4]) -> Seq<M31> {
    let arc_short = fadd(limbs[0], fmul(limbs[1], M31(PRIME_OVER_3_HIGH)));
    let arc_long = fadd(limbs[2], fmul(limbs[3], M31(PRIME_OVER_2_HIGH)));
    let arc_sum = fadd(arc_short, arc_long);
    let arc_prod = fmul(arc_short, arc_long);
    seq![
        fmul(keep[0], fsub(arc_sum, fsub(fadd(a, b), a))),
        fmul(keep[0], fsub(arc_prod, fmul(a, fsub(b, a)))),
        fmul(keep[1], fsub(arc_sum, fsub(fsub(a, M31(1)), b))),
        fmul(keep[1], fsub(arc_prod, fmul(a, fsub(neg_one(), b)))),
        fmul(keep[2], fsub(arc_sum, fsub(fsub(fsub(b, a), M31(1)), b))),
        fmul(keep[2], fsub(arc_prod, fmul(fsub(b, a), fsub(neg_one(), b))))
    ]
}

/// The `keep` flags of a row.
pub open spec fn row_keep(row: Seq<M31>) -> [M31; 3] {
    [row[14], row[15], row[16]]
}

/// The arc limbs of a row.
pub open spec fn row_arc_limbs(row: Seq<M31>) -> [M31; 4] {
    [row[17], row[18], row[19], row[20]]
}

/// Booleanity of `b`: `b * (1 - b)`.
pub open spec fn boolean(b: M31) -> M31 {
    fmul(b, fsub(M31(1), b))
}

/// The polynomial constraints of a row, each of which must vanish: the
/// enabler, the `keep` flags and `is_le` are booleans, one `keep` flag is set
/// on an enabled row, the [`arc_checks`], and `(a, b)` is `(src, imm)` if
/// `is_le` and `(imm, src)` otherwise.
pub open spec fn spec_constraints(row: Seq<M31>) -> Seq<M31> {
    let one = M31(1);
    let e = row[0];
    let (imm, src, a, b) = (row[6], row[8], row[12], row[13]);
    let (k01, k02, k12, is_le) = (row[14], row[15], row[16], row[21]);
    let ac = arc_checks(a, b, row_keep(row), row_arc_limbs(row));
    seq![
        boolean(e),
        boolean(k01),
        boolean(k02),
        boolean(k12),
        fmul(e, fsub(fadd(fadd(k01, k02), k12), one)),
        boolean(is_le),
        ac[0], ac[1], ac[2], ac[3], ac[4], ac[5],
        fmul(e, fsub(fsub(a, fmul(is_le, src)), fmul(fsub(one, is_le), imm))),
        fmul(e, fsub(fsub(b, fmul(is_le, imm)), fmul(fsub(one, is_le), src)))
    ]
}

/// The [`arc_checks`] of a row.
fn eval_arc_checks(row: &[M31; 22]) -> (r: [M31; 6])
    ensures
        r@ == arc_checks(row@[12], row@[13], row_keep(row@), row_arc_limbs(row@)),
{
    reveal(arc_checks);
    let one = M31::one();
    let neg_one = M31::zero().sub(one);
    let (a, b) = (row[12], row[13]);
    let (k01, k02, k12) = (row[14], row[15], row[16]);
    let arc_short = row[17].add(row[18].mul(M31(PRIME_OVER_3_HIGH)));
    let arc_long = row[19].add(row[20].mul(M31(PRIME_OVER_2_HIGH)));
    let arc_sum = arc_short.add(arc_long);
    let arc_prod = arc_short.mul(arc_long);
    let r = [
        k01.mul(arc_sum.sub(a.add(b).sub(a))),
        k01.mul(arc_prod.sub(a.mul(b.sub(a)))),
        k02.mul(arc_sum.sub(a.sub(one).sub(b))),
        k02.mul(arc_prod.sub(a.mul(neg_one.sub(b)))),
        k12.mul(arc_sum.sub(b.sub(a).sub(one).sub(b))),
        k12.mul(arc_prod.sub(b.sub(a).mul(neg_one.sub(b)))),
    ];
    assert(r@ =~= arc_checks(row@[12], row@[13], row_keep(row@), row_arc_limbs(row@)));
    r
}

/// Booleanity of `b`.
fn eval_boolean(b: M31) -> (r: M31)
    ensures
        r == boolean(b),
{
    b.mul(M31::one().sub(b))
}

impl Eval {
    /// Evaluates the polynomial constraints of the component on one row of
    /// its trace, in the order [`spec_constraints`] lists them.
    pub fn evaluate(&self, row: &[M31; 22]) -> (r: Vec<M31>)
        ensures
            r@ == spec_constraints(row@),
    {
        let one = M31::one();
        let e = row[0];
        let (imm, src, a, b) = (row[6], row[8], row[12], row[13]);
        let (k01, k02, k12, is_le) = (row[14], row[15], row[16], row[21]);
        let ac = eval_arc_checks(row);
        let c = vec![
            eval_boolean(e),
            eval_boolean(k01),
            eval_boolean(k02),
            eval_boolean(k12),
            e.mul(k01.add(k02).add(k12).sub(one)),
            eval_boolean(is_le),
            ac[0], ac[1], ac[2], ac[3], ac[4], ac[5],
            e.mul(a.sub(is_le.mul(src)).sub(one.sub(is_le).mul(imm))),
            e.mul(b.sub(is_le.mul(imm)).sub(one.sub(is_le).mul(src))),
        ];
        assert(c@ =~= spec_constraints(row@));
        c
    }
}


/// The kept arcs' field values are their integer lengths.
proof fn lemma_arc_values(src_val: M31, imm: M31)
    requires
        src_val.0 < P,
        imm.0 < P,
    ensures
        ({
            let w = spec_le_limbs(src_val, imm, M31(1));
            let short = w.arc_short_lo.0 + w.arc_short_hi.0 * PRIME_OVER_3_HIGH;
            let long = w.arc_long_lo.0 + w.arc_long_hi.0 * PRIME_OVER_2_HIGH;
            let arc_short = fadd(w.arc_short_lo, fmul(w.arc_short_hi, M31(PRIME_OVER_3_HIGH)));
            let arc_long = fadd(w.arc_long_lo, fmul(w.arc_long_hi, M31(PRIME_OVER_2_HIGH)));
            &&& fadd(arc_short, arc_long).0 == short + long
            &&& fmul(arc_short, arc_long).0 == fmod(short * long)
        }),
{
    lemma_le_limbs_correct(src_val, imm);
    let w = spec_le_limbs(src_val, imm, M31(1));
    let short = w.arc_short_lo.0 + w.arc_short_hi.0 * PRIME_OVER_3_HIGH;
    let long = w.arc_long_lo.0 + w.arc_long_hi.0 * PRIME_OVER_2_HIGH;
    let a = w.a.0 as int;
    let b = w.b.0 as int;
    // Both kept arcs are among the three, whose lengths sum to P - 1.
    assert(short + long <= P - 1);
    assert(PRIME_OVER_3_HIGH == 10923);
    assert(PRIME_OVER_2_HIGH == 16384);
    assert forall|x: int| 0 <= x < P implies #[trigger] fmod(x) == x by {
        vstd::arithmetic::div_mod::lemma_small_mod(x as nat, P as nat);
    }
    assert(w.arc_short_hi.0 * 10923 <= short);
    assert(w.arc_long_hi.0 * 16384 <= long);
}


/// The field values of the arc expressions of [`arc_checks`], for canonical
/// `a <= b`: the arcs named by each flag, as integers, and their products
/// reduced.
proof fn lemma_arc_expressions(a: M31, b: M31)
    requires
        a.0 <= b.0 < P,
    ensures
        fsub(fadd(a, b), a).0 == b.0,
        fsub(b, a).0 == b.0 - a.0,
        fsub(fsub(a, M31(1)), b).0 == a.0 + (P - 1 - b.0),
        fsub(neg_one(), b).0 == P - 1 - b.0,
        fsub(fsub(fsub(b, a), M31(1)), b).0 == (b.0 - a.0) + (P - 1 - b.0),
{
    let (x, y) = (a.0 as int, b.0 as int);
    let p = P as int;
    assert forall|v: int| 0 <= v < P implies #[trigger] fmod(v) == v by {
        vstd::arithmetic::div_mod::lemma_small_mod(v as nat, P as nat);
    }
    vstd::arithmetic::div_mod::lemma_sub_mod_noop(x + y, x, p);
    vstd::arithmetic::div_mod::lemma_sub_mod_noop(x - 1, y, p);
    vstd::arithmetic::div_mod::lemma_mod_add_multiples_vanish(x - 1 - y, p);
    vstd::arithmetic::div_mod::lemma_mod_add_multiples_vanish(-1, p);
    assert(neg_one().0 == p - 1);
    let d = fsub(b, a).0 as int;
    assert(d == y - x);
    vstd::arithmetic::div_mod::lemma_sub_mod_noop(d - 1, y, p);
    vstd::arithmetic::div_mod::lemma_sub_mod_noop_right(d - 1, y, p);
    assert(fsub(fsub(b, a), M31(1)).0 == fmod(d - 1));
    vstd::arithmetic::div_mod::lemma_sub_mod_noop(d - 1, y, p);
    assert(fsub(fsub(fsub(b, a), M31(1)), b).0 == fmod(d - 1 - y));
    vstd::arithmetic::div_mod::lemma_mod_add_multiples_vanish(d - 1 - y, p);
}

/// The arc equations hold on every written row: a disabled row keeps no arc,
/// and an enabled row keeps the two shortest, whose sum and product are
/// those of the arcs its flag names.
proof fn lemma_arc_checks_vanish(src_val: M31, imm: M31, enabler: M31)
    requires
        src_val.0 < P,
        imm.0 < P,
    ensures
        ({
            let w = spec_le_limbs(src_val, imm, enabler);
            arc_checks(
                w.a,
                w.b,
                [w.keep_0_1, w.keep_0_2, w.keep_1_2],
                [w.arc_short_lo, w.arc_short_hi, w.arc_long_lo, w.arc_long_hi],
            ) == Seq::new(6, |_k: int| M31(0))
        }),
{
    reveal(arc_checks);
    let w = spec_le_limbs(src_val, imm, enabler);
    let checks = arc_checks(
        w.a,
        w.b,
        [w.keep_0_1, w.keep_0_2, w.keep_1_2],
        [w.arc_short_lo, w.arc_short_hi, w.arc_long_lo, w.arc_long_hi],
    );
    assert(fmod(0) == 0);
    assert forall|x: M31| #[trigger] fmul(M31(0), x) == M31(0) by {
        assert(0 * x.0 == 0);
    }
    if enabler == M31(1) {
        lemma_le_limbs_correct(src_val, imm);
        lemma_arc_values(src_val, imm);
        lemma_arc_expressions(w.a, w.b);
        assert forall|x: M31, y: M31| x.0 == y.0 implies #[trigger] fsub(x, y) == M31(0) by {
            assert(x.0 - y.0 == 0);
        }
        assert(fmul(M31(1), M31(0)) == M31(0)) by {
            assert(1 * 0 == 0);
        }
        let (x, y) = (w.a.0 as int, w.b.0 as int);
        assert(fmul(w.a, fsub(w.b, w.a)).0 == fmod(x * (y - x)));
        assert(fmul(w.a, fsub(neg_one(), w.b)).0 == fmod(x * (P - 1 - y)));
        assert(fmul(fsub(w.b, w.a), fsub(neg_one(), w.b)).0 == fmod((y - x) * (P - 1 - y)));
    } else {
        assert(w.keep_0_1 == M31(0) && w.keep_0_2 == M31(0) && w.keep_1_2 == M31(0));
    }
    assert(checks =~= Seq::new(6, |_k: int| M31(0)));
}


/// Every polynomial constraint vanishes on a written row, enabled or not,
/// for canonical compared values.
pub proof fn lemma_row_satisfies_constraints(enabler: M31, input: RowInput)
    requires
        enabler == M31(0) || enabler == M31(1),
        row_input_ok(input),
    ensures
        spec_constraints(spec_trace_row(enabler, input)) == Seq::new(14, |_k: int| M31(0)),
{
    let row = spec_trace_row(enabler, input);
    let w = spec_le_limbs(input.src_val, input.imm, enabler);
    lemma_arc_checks_vanish(input.src_val, input.imm, enabler);
    assert(row_keep(row) =~= [w.keep_0_1, w.keep_0_2, w.keep_1_2]);
    assert(row_arc_limbs(row) =~= [w.arc_short_lo, w.arc_short_hi, w.arc_long_lo, w.arc_long_hi]);
    let ac = arc_checks(w.a, w.b, row_keep(row), row_arc_limbs(row));
    assert(ac[0] == M31(0) && ac[1] == M31(0) && ac[2] == M31(0));
    assert(ac[3] == M31(0) && ac[4] == M31(0) && ac[5] == M31(0));
    assert forall|v: int| 0 <= v < P implies #[trigger] fmod(v) == v by {
        vstd::arithmetic::div_mod::lemma_small_mod(v as nat, P as nat);
    }
    assert forall|x: M31| #[trigger] fmul(M31(0), x) == M31(0) by {
        assert(0 * x.0 == 0);
    }
    assert forall|x: M31| #[trigger] fmul(x, M31(0)) == M31(0) by {
        assert(x.0 * 0 == 0);
    }
    assert forall|x: M31| x.wf() implies #[trigger] fmul(M31(1), x) == x by {
        assert(1 * x.0 == x.0);
    }
    assert forall|x: M31| x.wf() implies #[trigger] fsub(x, M31(0)) == x by {}
    assert forall|x: M31| #[trigger] fsub(x, x) == M31(0) by {}
    assert(boolean(M31(0)) == M31(0));
    assert(boolean(M31(1)) == M31(0)) by {
        assert(fsub(M31(1), M31(1)) == M31(0));
    }
    assert(fsub(M31(1), M31(0)) == M31(1));
    if enabler == M31(1) {
        lemma_le_limbs_correct(input.src_val, input.imm);
        assert(fadd(fadd(w.keep_0_1, w.keep_0_2), w.keep_1_2) == M31(1));
    }
    assert(spec_constraints(row) =~= Seq::new(14, |_k: int| M31(0)));
}

/// The trace written for `inputs` at `log_size`: an enabled row per input,
/// then disabled rows of zeros up to `2^log_size` rows.
pub open spec fn spec_trace(inputs: Seq<RowInput>, log_size: u32) -> Seq<Seq<M31>> {
    Seq::new(
        rows_of(log_size as nat),
        |i: int|
            if i < inputs.len() {
                spec_trace_row(M31(1), inputs[i])
            } else {
                spec_trace_row(M31(0), zero_input())
            },
    )
}

/// What one row adds to the relations: the register update, the six memory
/// accesses and the values range-checked on 16 and 20 bits.
#[derive(Clone, Copy, Debug, PartialEq, Eq)]
pub struct RowLookups {
    /// `[pc, fp, clock]` before and after the step.
    pub registers: [[M31; 3]; 2],
    /// The instruction and the source read, then the destination written;
    /// each access as its previous state then its new state.
    pub memory: [[M31; 6]; 6],
    /// The limbs of the two kept arcs.
    pub range_check_16: [M31; 4],
    /// The clock gap of each access.
    pub range_check_20: [M31; 3],
}

/// `l` holds the lookups of the row written for `i` with the given enabler,
/// the instruction word holding `opcode`.
pub open spec fn is_row_lookups(l: RowLookups, enabler: M31, opcode: M31, i: RowInput) -> bool {
    is_limbs_lookups(l, enabler, opcode, i, spec_le_limbs(i.src_val, i.imm, enabler))
}

/// `l` holds the lookups of the row with limbs `w` for `i`: the registers
/// `[pc, fp, clock]` then `[pc + 1, fp, clock + 1]`; the instruction word and
/// `[fp + src_off]` read; `[fp + dst_off]` written with the comparison; each
/// access first with its previous clock then with the row's clock; the limbs
/// of the kept arcs; each clock gap less the enabler.
pub open spec fn is_limbs_lookups(l: RowLookups, enabler: M31, opcode: M31, i: RowInput, w: LeLimbs) -> bool {
    let z = M31(0);
    let src = fadd(i.fp, i.src_off);
    let dst = fadd(i.fp, i.dst_off);
    &&& l.registers@.map_values(|e: [M31; 3]| e@) == seq![
        seq![i.pc, i.fp, i.clock],
        seq![fadd(i.pc, M31(1)), i.fp, fadd(i.clock, M31(1))],
    ]
    &&& l.memory@.map_values(|e: [M31; 6]| e@) == seq![
        seq![i.pc, i.inst_prev_clock, opcode, i.src_off, i.imm, i.dst_off],
        seq![i.pc, i.clock, opcode, i.src_off, i.imm, i.dst_off],
        seq![src, i.src_prev_clock, i.src_val, z, z, z],
        seq![src, i.clock, i.src_val, z, z, z],
        seq![dst, i.dst_prev_clock, i.dst_prev_val, z, z, z],
        seq![dst, i.clock, w.is_le, z, z, z],
    ]
    &&& l.range_check_16@ == seq![w.arc_short_lo, w.arc_short_hi, w.arc_long_lo, w.arc_long_hi]
    &&& l.range_check_20@ == seq![
        fsub(fsub(i.clock, i.inst_prev_clock), enabler),
        fsub(fsub(i.clock, i.src_prev_clock), enabler),
        fsub(fsub(i.clock, i.dst_prev_clock), enabler),
    ]
}

/// Writes the lookups of the row for `input` with the given enabler.
pub fn row_lookups(enabler: M31, opcode: M31, input: &RowInput) -> (l: RowLookups)
    requires
        row_input_ok(*input),
    ensures
        is_row_lookups(l, enabler, opcode, *input),
{
    let w = le_limbs(input.src_val, input.imm, enabler);
    lookups_of_limbs(enabler, opcode, input, &w)
}

/// The lookups of the row for `input` with limbs `w`.
#[verifier::rlimit(30)]
fn lookups_of_limbs(enabler: M31, opcode: M31, input: &RowInput, w: &LeLimbs) -> (l: RowLookups)
    ensures
        is_limbs_lookups(l, enabler, opcode, *input, *w),
{
    let one = M31(1);
    let z = M31(0);
    let src = input.fp.add(input.src_off);
    let dst = input.fp.add(input.dst_off);
    let l = RowLookups {
        registers: [[input.pc, input.fp, input.clock], [input.pc.add(one), input.fp, input.clock.add(one)]],
        memory: [
            [input.pc, input.inst_prev_clock, opcode, input.src_off, input.imm, input.dst_off],
            [input.pc, input.clock, opcode, input.src_off, input.imm, input.dst_off],
            [src, input.src_prev_clock, input.src_val, z, z, z],
            [src, input.clock, input.src_val, z, z, z],
            [dst, input.dst_prev_clock, input.dst_prev_val, z, z, z],
            [dst, input.clock, w.is_le, z, z, z],
        ],
        range_check_16: [w.arc_short_lo, w.arc_short_hi, w.arc_long_lo, w.arc_long_hi],
        range_check_20: [
            input.clock.sub(input.inst_prev_clock).sub(enabler),
            input.clock.sub(input.src_prev_clock).sub(enabler),
            input.clock.sub(input.dst_prev_clock).sub(enabler),
        ],
    };
    assert(l.registers@.map_values(|e: [M31; 3]| e@) =~= seq![
        seq![input.pc, input.fp, input.clock],
        seq![fadd(input.pc, M31(1)), input.fp, fadd(input.clock, M31(1))],
    ]);
    assert(l.memory@.map_values(|e: [M31; 6]| e@) =~= seq![
        seq![input.pc, input.inst_prev_clock, opcode, input.src_off, input.imm, input.dst_off],
        seq![input.pc, input.clock, opcode, input.src_off, input.imm, input.dst_off],
        seq![src, input.src_prev_clock, input.src_val, z, z, z],
        seq![src, input.clock, input.src_val, z, z, z],
        seq![dst, input.dst_prev_clock, input.dst_prev_val, z, z, z],
        seq![dst, input.clock, w.is_le, z, z, z],
    ]);
    assert(l.range_check_16@ =~= seq![w.arc_short_lo, w.arc_short_hi, w.arc_long_lo, w.arc_long_hi]);
    assert(l.range_check_20@ =~= seq![
        fsub(fsub(input.clock, input.inst_prev_clock), enabler),
        fsub(fsub(input.clock, input.src_prev_clock), enabler),
        fsub(fsub(input.clock, input.dst_prev_clock), enabler),
    ]);
    l
}

/// The enabler and the input of row `i` of the trace written for `inputs`:
/// an enabled row per input, then disabled rows of zeros.
pub open spec fn padded_row(inputs: Seq<RowInput>, i: int) -> (M31, RowInput) {
    if i < inputs.len() {
        (M31(1), inputs[i])
    } else {
        (M31(0), zero_input())
    }
}

/// What the interaction trace is built from: the lookups of every row and
/// the number of rows that hold an input.
#[derive(Clone, Debug)]
pub struct InteractionClaimData {
    /// The lookups of each row of the trace.
    pub lookup_data: Vec<RowLookups>,
    /// The number of enabled rows.
    pub non_padded_length: usize,
}

impl Claim {
    /// Writes the trace of the component for `inputs`, padded to a power of
    /// two of at least `2^LOG_N_LANES` rows, its claim and the lookups of
    /// every row, the instruction word holding `opcode`. The inputs are
    /// consumed: `inputs` is left empty.
    pub fn write_trace(inputs: &mut Vec<RowInput>, opcode: M31) -> (r: (Claim, Vec<[M31; 22]>, InteractionClaimData))
        requires
            old(inputs)@.len() <= 0x8000_0000,
            forall|i: int| 0 <= i < old(inputs)@.len() ==> row_input_ok(#[trigger] old(inputs)@[i]),
        ensures
            is_trace_log_size(old(inputs)@.len(), r.0.log_size),
            r.1@.len() == rows_of(r.0.log_size as nat),
            forall|i: int| 0 <= i < r.1@.len() ==> (#[trigger] r.1@[i])@ == spec_trace(old(inputs)@, r.0.log_size)[i],
            r.2.non_padded_length == old(inputs)@.len(),
            r.2.lookup_data@.len() == rows_of(r.0.log_size as nat),
            forall|i: int|
                0 <= i < r.2.lookup_data@.len() ==> is_row_lookups(
                    #[trigger] r.2.lookup_data@[i],
                    padded_row(old(inputs)@, i).0,
                    opcode,
                    padded_row(old(inputs)@, i).1,
                ),
            final(inputs)@.len() == 0,
    {
        let non_padded_length = inputs.len();
        let (log_size, n_rows) = trace_log_size(non_padded_length);
        let z = M31(0);
        let padding = RowInput {
            pc: z,
            fp: z,
            clock: z,
            inst_prev_clock: z,
            src_off: z,
            imm: z,
            dst_off: z,
            src_val: z,
            src_prev_clock: z,
            dst_prev_val: z,
            dst_prev_clock: z,
        };
        let mut rows: Vec<[M31; 22]> = Vec::new();
        let mut lookup_data: Vec<RowLookups> = Vec::new();
        let mut i: usize = 0;
        while i < n_rows
            invariant
                i <= n_rows,
                n_rows == rows_of(log_size as nat),
                padding == zero_input(),
                inputs@ == old(inputs)@,
                non_padded_length == inputs@.len(),
                forall|j: int| 0 <= j < inputs@.len() ==> row_input_ok(#[trigger] inputs@[j]),
                rows@.len() == i,
                lookup_data@.len() == i,
                forall|j: int| 0 <= j < i ==> (#[trigger] rows@[j])@ == spec_trace(inputs@, log_size)[j],
                forall|j: int|
                    0 <= j < i ==> is_row_lookups(
                        #[trigger] lookup_data@[j],
                        padded_row(inputs@, j).0,
                        opcode,
                        padded_row(inputs@, j).1,
                    ),
            decreases n_rows - i,
        {
            let (enabler, input) = if i < non_padded_length {
                (M31(1), &inputs[i])
            } else {
                (M31(0), &padding)
            };
            rows.push(trace_row(enabler, input));
            lookup_data.push(row_lookups(enabler, opcode, input));
            i = i + 1;
        }
        inputs.clear();
        (Claim { log_size }, rows, InteractionClaimData { lookup_data, non_padded_length })
    }
}

/// Every row of a written trace satisfies every polynomial constraint of the
/// component, when the compared values are canonical.
pub proof fn lemma_trace_satisfies_constraints(inputs: Seq<RowInput>, log_size: u32)
    requires
        forall|i: int| 0 <= i < inputs.len() ==> row_input_ok(#[trigger] inputs[i]),
    ensures
        forall|i: int|
            0 <= i < rows_of(log_size as nat) ==> spec_constraints(#[trigger] spec_trace(inputs, log_size)[i])
                == Seq::new(14, |_k: int| M31(0)),
{
    assert forall|i: int| 0 <= i < rows_of(log_size as nat) implies spec_constraints(
        #[trigger] spec_trace(inputs, log_size)[i],
    ) == Seq::new(14, |_k: int| M31(0)) by {
        if i < inputs.len() {
            lemma_row_satisfies_constraints(M31(1), inputs[i]);
        } else {
            lemma_row_satisfies_constraints(M31(0), zero_input());
        }
    }
}

/// The row input of an execution bundle: the registers and clocks, the
/// instruction's `src_off`, `imm` and `dst_off` (words 1 to 3), the source
/// read (operand 0) and the destination write (operand 1). None when the
/// instruction has fewer than four words or an operand access is missing.
pub open spec fn spec_row_input(b: ExecutionBundle) -> Option<RowInput> {
    let words = b.instruction.instruction.words@;
    match (b.operands[0], b.operands[1]) {
        (Some(src), Some(dst)) => if words.len() >= 4 {
            Some(
                RowInput {
                    pc: b.registers.pc,
                    fp: b.registers.fp,
                    clock: b.clock,
                    inst_prev_clock: b.instruction.prev_clock,
                    src_off: words[1],
                    imm: words[2],
                    dst_off: words[3],
                    src_val: src.value.limb0,
                    src_prev_clock: src.prev_clock,
                    dst_prev_val: dst.prev_value.limb0,
                    dst_prev_clock: dst.prev_clock,
                },
            )
        } else {
            None
        },
        _ => None,
    }
}

/// Reads the row input of an execution bundle.
pub fn row_input(bundle: &ExecutionBundle) -> (r: Option<RowInput>)
    ensures
        r == spec_row_input(*bundle),
{
    let words = &bundle.instruction.instruction.words;
    match (bundle.operands[0], bundle.operands[1]) {
        (Some(src), Some(dst)) => if words.len() >= 4 {
            Some(
                RowInput {
                    pc: bundle.registers.pc,
                    fp: bundle.registers.fp,
                    clock: bundle.clock,
                    inst_prev_clock: bundle.instruction.prev_clock,
                    src_off: words[1],
                    imm: words[2],
                    dst_off: words[3],
                    src_val: src.value.limb0,
                    src_prev_clock: src.prev_clock,
                    dst_prev_val: dst.prev_value.limb0,
                    dst_prev_clock: dst.prev_clock,
                },
            )
        } else {
            None
        },
        _ => None,
    }
}

} // verus!
