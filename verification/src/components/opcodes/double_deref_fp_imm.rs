//! Component proving the double-dereference opcodes:
//! - `[[fp + base_off] + imm] = [fp + src_off]`;
//! - `[fp + dst_off] = [[fp + base_off] + imm]`.
//!
//! One component proves both: the row's opcode selects the direction through
//! `write_lhs = (opcode - load_opcode) / (store_opcode - load_opcode)`, one
//! for the store and zero for the load. The store reads `[fp + src_off]` and
//! writes it at `[fp + base_off] + imm`; the load reads `[[fp + base_off] +
//! imm]` and writes it at `fp + dst_off`.
use crate::components::{
    component_log_sizes, is_component_log_sizes, is_trace_log_size, rows_of, trace_log_size,
    SECURE_EXTENSION_DEGREE,
};
use crate::field::{fadd, fmod, fmul, fsub, inv_or_zero, invertible, lemma_fmul_one, M31, P};
use crate::memory::ExecutionBundle;
use vstd::prelude::*;

verus! {

/// Number of trace columns.
pub const N_TRACE_COLUMNS: usize = 17;
/// Number of lookups into the memory relation per row.
pub const N_MEMORY_LOOKUPS: usize = 8;
/// Number of lookups into the registers relation per row.
pub const N_REGISTERS_LOOKUPS: usize = 2;
/// Number of 20-bit range checks per row.
pub const N_RANGE_CHECK_20_LOOKUPS: usize = 4;
/// Number of interaction columns: four per pair of lookups.
pub const N_LOOKUPS_COLUMNS: usize = SECURE_EXTENSION_DEGREE * ((N_MEMORY_LOOKUPS + N_REGISTERS_LOOKUPS + N_RANGE_CHECK_20_LOOKUPS + 1) / 2);

/// The claim of the component: the log size of its trace.
#[derive(Clone, Copy, Debug, Default, PartialEq, Eq, Structural)]
pub struct Claim {
    /// Log2 of the number of rows.
    pub log_size: u32,
}

impl Claim {
    /// The log sizes of the component's columns, tree by tree.
    pub fn log_sizes(&self) -> (r: Vec<Vec<u32>>)
        ensures
            is_component_log_sizes(r@, self.log_size, N_TRACE_COLUMNS as nat, N_LOOKUPS_COLUMNS as nat),
    {
        component_log_sizes(self.log_size, N_TRACE_COLUMNS, N_LOOKUPS_COLUMNS)
    }
}

/// The constraint evaluator of the component.
#[derive(Clone, Copy, Debug, PartialEq, Eq, Structural)]
pub struct Eval {
    /// The claim the evaluator checks.
    pub claim: Claim,
}

impl Eval {
    /// Log2 of the number of rows of the evaluated trace.
    pub fn log_size(&self) -> (r: u32)
        ensures
            r == self.claim.log_size,
    {
        self.claim.log_size
    }

    /// Bound on the log degree of the constraints: one more than the log size.
    pub fn max_constraint_log_degree_bound(&self) -> (r: u32)
        requires
            self.claim.log_size < u32::MAX,
        ensures
            r == self.claim.log_size + 1,
    {
        self.claim.log_size + 1
    }
}


// ---------------------------------------------------------------------------
// The trace, its constraints and its lookups.

/// The opcode word padding rows carry; the row writes the load opcode in its
/// place, so that a padding row selects a direction.
pub const PADDING_OPCODE: u32 = 11;

/// The values a row of the trace is written from. `off0` is the offset of
/// the base, `off1` the immediate, `off2` the offset of the other operand
/// (the source of a store, the destination of a load).
#[derive(Clone, Copy, Debug, PartialEq, Eq)]
pub struct RowInput {
    /// Program counter.
    pub pc: M31,
    /// Frame pointer.
    pub fp: M31,
    /// Clock of the step.
    pub clock: M31,
    /// Clock of the previous access to the instruction.
    pub inst_prev_clock: M31,
    /// The instruction's opcode word.
    pub opcode: M31,
    /// Offset of the base from `fp`.
    pub off0: M31,
    /// The immediate added to the base.
    pub off1: M31,
    /// Offset of the source (store) or destination (load) from `fp`.
    pub off2: M31,
    /// Value of the base.
    pub val0: M31,
    /// Clock of the previous access to the base.
    pub prev_clock0: M31,
    /// The value moved.
    pub val1: M31,
    /// Clock of the previous access to the value moved.
    pub prev_clock1: M31,
    /// Previous value of the cell written.
    pub prev_val2: M31,
    /// Clock of the previous access to the cell written.
    pub prev_clock2: M31,
}

/// The input of a padding row: zeros, and the padding opcode.
pub open spec fn padding_input() -> RowInput {
    RowInput {
        pc: M31(0),
        fp: M31(0),
        clock: M31(0),
        inst_prev_clock: M31(0),
        opcode: M31(PADDING_OPCODE),
        off0: M31(0),
        off1: M31(0),
        off2: M31(0),
        val0: M31(0),
        prev_clock0: M31(0),
        val1: M31(0),
        prev_clock1: M31(0),
        prev_val2: M31(0),
        prev_clock2: M31(0),
    }
}

/// The opcode a row holds: the input's, the padding opcode replaced by the
/// load opcode.
pub open spec fn row_opcode(opcode: M31, load: M31) -> M31 {
    if opcode == M31(PADDING_OPCODE) {
        load
    } else {
        opcode
    }
}

/// The direction selector: `(opcode - load) * delta_inv`.
pub open spec fn write_lhs(opcode: M31, load: M31, delta_inv: M31) -> M31 {
    fmul(fsub(opcode, load), delta_inv)
}

/// `wl * x + (1 - wl) * y`.
pub open spec fn select(wl: M31, x: M31, y: M31) -> M31 {
    fadd(fmul(wl, x), fmul(fsub(M31(1), wl), y))
}

/// The address read for the value moved: `fp + off2` for a store,
/// `val0 + off1` for a load.
pub open spec fn spec_addr1(i: RowInput, load: M31, delta_inv: M31) -> M31 {
    select(write_lhs(row_opcode(i.opcode, load), load, delta_inv), fadd(i.fp, i.off2), fadd(i.val0, i.off1))
}

/// The address written: `val0 + off1` for a store, `fp + off2` for a load.
pub open spec fn spec_addr2(i: RowInput, load: M31, delta_inv: M31) -> M31 {
    select(write_lhs(row_opcode(i.opcode, load), load, delta_inv), fadd(i.val0, i.off1), fadd(i.fp, i.off2))
}

/// The trace row written for `i` with the given enabler, column by column.
pub open spec fn spec_trace_row(enabler: M31, i: RowInput, load: M31, delta_inv: M31) -> Seq<M31> {
    seq![
        enabler, i.pc, i.fp, i.clock, i.inst_prev_clock, row_opcode(i.opcode, load), i.off0, i.off1, i.off2,
        i.val0, i.prev_clock0, spec_addr1(i, load, delta_inv), i.val1, i.prev_clock1,
        spec_addr2(i, load, delta_inv), i.prev_val2, i.prev_clock2
    ]
}

/// `wl * x + (1 - wl) * y`.
fn select_exec(wl: M31, x: M31, y: M31) -> (r: M31)
    ensures
        r == select(wl, x, y),
{
    wl.mul(x).add(M31(1).sub(wl).mul(y))
}

/// Writes the trace row for `input` with the given enabler.
pub fn trace_row(enabler: M31, input: &RowInput, load: M31, delta_inv: M31) -> (r: [M31; 17])
    ensures
        r@ == spec_trace_row(enabler, *input, load, delta_inv),
{
    let opcode = if input.opcode == M31(PADDING_OPCODE) {
        load
    } else {
        input.opcode
    };
    let wl = opcode.sub(load).mul(delta_inv);
    let lhs = input.fp.add(input.off2);
    let rhs = input.val0.add(input.off1);
    let addr1 = select_exec(wl, lhs, rhs);
    let addr2 = select_exec(wl, rhs, lhs);
    let r = [
        enabler, input.pc, input.fp, input.clock, input.inst_prev_clock, opcode, input.off0, input.off1,
        input.off2, input.val0, input.prev_clock0, addr1, input.val1, input.prev_clock1, addr2,
        input.prev_val2, input.prev_clock2,
    ];
    assert(r@ =~= spec_trace_row(enabler, *input, load, delta_inv));
    r
}

/// The polynomial constraints of a row, each of which must vanish: the
/// enabler and the selector are booleans, and each address is the one the
/// selector picks (on enabled rows).
pub open spec fn spec_constraints(row: Seq<M31>, load: M31, delta_inv: M31) -> Seq<M31> {
    let one = M31(1);
    let e = row[0];
    let wl = write_lhs(row[5], load, delta_inv);
    let lhs = fadd(row[2], row[8]);
    let rhs = fadd(row[9], row[7]);
    seq![
        fmul(e, fsub(one, e)),
        fmul(wl, fsub(one, wl)),
        fmul(e, fsub(fsub(row[11], fmul(wl, lhs)), fmul(fsub(one, wl), rhs))),
        fmul(e, fsub(fsub(row[14], fmul(wl, rhs)), fmul(fsub(one, wl), lhs)))
    ]
}

impl Eval {
    /// Evaluates the polynomial constraints of the component on one row of
    /// its trace, the load opcode and the inverse of `store - load` given.
    pub fn evaluate(&self, row: &[M31; 17], load: M31, delta_inv: M31) -> (r: Vec<M31>)
        ensures
            r@ == spec_constraints(row@, load, delta_inv),
    {
        let one = M31::one();
        let e = row[0];
        let wl = row[5].sub(load).mul(delta_inv);
        let lhs = row[2].add(row[8]);
        let rhs = row[9].add(row[7]);
        let c = vec![
            e.mul(one.sub(e)),
            wl.mul(one.sub(wl)),
            e.mul(row[11].sub(wl.mul(lhs)).sub(one.sub(wl).mul(rhs))),
            e.mul(row[14].sub(wl.mul(rhs)).sub(one.sub(wl).mul(lhs))),
        ];
        assert(c@ =~= spec_constraints(row@, load, delta_inv));
        c
    }
}

/// The selector is one for the store opcode and zero for the load opcode,
/// when `store - load` is invertible and `delta_inv` is its inverse.
pub proof fn lemma_write_lhs(opcode: M31, load: M31, store: M31)
    requires
        opcode == load || opcode == store,
        load.wf(),
        store.wf(),
        invertible(fsub(store, load)),
    ensures
        write_lhs(opcode, load, inv_or_zero(fsub(store, load))) == if opcode == store && store != load {
            M31(1)
        } else {
            M31(0)
        },
{
    let d = fsub(store, load);
    assert(fmul(d, inv_or_zero(d)) == M31(1));
    assert(fsub(load, load) == M31(0)) by {
        assert(fmod(0) == 0);
    }
    if store == load {
        assert(d == M31(0));
        assert(fmul(M31(0), inv_or_zero(d)) == M31(0)) by {
            assert(0 * inv_or_zero(d).0 == 0);
        }
    }
    if opcode == load {
        assert(fmul(M31(0), inv_or_zero(d)) == M31(0)) by {
            assert(0 * inv_or_zero(d).0 == 0);
        }
    }
}

/// The selector's choices: `x` when it is one, `y` when it is zero, for
/// canonical `x` and `y`; and the address constraint on the choice vanishes.
proof fn lemma_select(wl: M31, x: M31, y: M31)
    requires
        wl == M31(0) || wl == M31(1),
        x.wf(),
        y.wf(),
    ensures
        select(wl, x, y) == if wl == M31(1) {
            x
        } else {
            y
        },
        fsub(fsub(select(wl, x, y), fmul(wl, x)), fmul(fsub(M31(1), wl), y)) == M31(0),
        fmul(wl, fsub(M31(1), wl)) == M31(0),
{
    assert(fmod(0) == 0);
    assert forall|a: M31| #[trigger] fmul(M31(0), a) == M31(0) by {
        assert(0 * a.0 == 0);
    }
    assert forall|a: M31| #[trigger] fmul(a, M31(0)) == M31(0) by {
        assert(a.0 * 0 == 0);
    }
    assert forall|a: M31| a.wf() implies #[trigger] fmod(a.0 as int) == a.0 by {
        vstd::arithmetic::div_mod::lemma_small_mod(a.0 as nat, P as nat);
    }
    assert(fsub(M31(1), M31(0)) == M31(1));
    assert(fsub(M31(1), M31(1)) == M31(0));
    lemma_fmul_one(x);
    lemma_fmul_one(y);
    assert(fadd(M31(0), y) == y);
    assert(fadd(x, M31(0)) == x);
    assert(fsub(x, x) == M31(0));
    assert(fsub(y, y) == M31(0));
    assert(fsub(y, M31(0)) == y);
    assert(fsub(M31(0), M31(0)) == M31(0));
    lemma_fmul_one(M31(1));
}

/// On a row of the store or the load (or a padding row, which holds the
/// load opcode), every constraint vanishes when `store - load` is
/// invertible; the store reads at `fp + off2` and writes at `val0 + off1`,
/// the load reads at `val0 + off1` and writes at `fp + off2`.
#[verifier::spinoff_prover]
pub proof fn lemma_row_satisfies_constraints(enabler: M31, input: RowInput, load: M31, store: M31)
    requires
        enabler == M31(0) || enabler == M31(1),
        row_opcode(input.opcode, load) == load || row_opcode(input.opcode, load) == store,
        load.wf(),
        store.wf(),
        store != load,
        invertible(fsub(store, load)),
    ensures
        spec_constraints(
            spec_trace_row(enabler, input, load, inv_or_zero(fsub(store, load))),
            load,
            inv_or_zero(fsub(store, load)),
        ) == seq![M31(0), M31(0), M31(0), M31(0)],
        row_opcode(input.opcode, load) == store ==> spec_addr1(input, load, inv_or_zero(fsub(store, load)))
            == fadd(input.fp, input.off2) && spec_addr2(input, load, inv_or_zero(fsub(store, load)))
            == fadd(input.val0, input.off1),
        row_opcode(input.opcode, load) == load ==> spec_addr1(input, load, inv_or_zero(fsub(store, load)))
            == fadd(input.val0, input.off1) && spec_addr2(input, load, inv_or_zero(fsub(store, load)))
            == fadd(input.fp, input.off2),
{
    let dinv = inv_or_zero(fsub(store, load));
    let op = row_opcode(input.opcode, load);
    lemma_write_lhs(op, load, store);
    let wl = write_lhs(op, load, dinv);
    let lhs = fadd(input.fp, input.off2);
    let rhs = fadd(input.val0, input.off1);
    vstd::arithmetic::div_mod::lemma_mod_bound(input.fp.0 + input.off2.0, P as int);
    vstd::arithmetic::div_mod::lemma_mod_bound(input.val0.0 + input.off1.0, P as int);
    lemma_select(wl, lhs, rhs);
    lemma_select(wl, rhs, lhs);
    let row = spec_trace_row(enabler, input, load, dinv);
    assert(fmod(0) == 0);
    assert(fmul(M31(1), fsub(M31(1), M31(1))) == M31(0));
    assert forall|a: M31| #[trigger] fmul(M31(0), a) == M31(0) by {
        assert(0 * a.0 == 0);
    }
    lemma_fmul_one(M31(0));
    assert(spec_constraints(row, load, dinv) =~= seq![M31(0), M31(0), M31(0), M31(0)]);
}

/// What one row adds to the relations: the register update, the eight
/// memory accesses and the clock gaps range-checked on 20 bits.
#[derive(Clone, Copy, Debug, PartialEq, Eq)]
pub struct RowLookups {
    /// `[pc, fp, clock]` before and after the step.
    pub registers: [[M31; 3]; 2],
    /// The instruction, the base and the value moved read, then the value
    /// written; each access as its previous state then its new state.
    pub memory: [[M31; 6]; 8],
    /// The clock gap of each access.
    pub range_check_20: [M31; 4],
}

/// The register lookups of a row: `[pc, fp, clock]` then `[pc + 1, fp, clock + 1]`.
pub open spec fn spec_registers_lookups(i: RowInput) -> Seq<Seq<M31>> {
    seq![seq![i.pc, i.fp, i.clock], seq![fadd(i.pc, M31(1)), i.fp, fadd(i.clock, M31(1))]]
}

/// The memory lookups of a row: the instruction word (with the row's
/// opcode), the base, the value moved at the first address, and the second
/// address written with it; each access first with its previous clock and
/// value, then with the row's clock and new value.
pub open spec fn spec_memory_lookups(i: RowInput, load: M31, delta_inv: M31) -> Seq<Seq<M31>> {
    let op = row_opcode(i.opcode, load);
    let base = fadd(i.fp, i.off0);
    let a1 = spec_addr1(i, load, delta_inv);
    let a2 = spec_addr2(i, load, delta_inv);
    let z = M31(0);
    seq![
        seq![i.pc, i.inst_prev_clock, op, i.off0, i.off1, i.off2],
        seq![i.pc, i.clock, op, i.off0, i.off1, i.off2],
        seq![base, i.prev_clock0, i.val0, z, z, z],
        seq![base, i.clock, i.val0, z, z, z],
        seq![a1, i.prev_clock1, i.val1, z, z, z],
        seq![a1, i.clock, i.val1, z, z, z],
        seq![a2, i.prev_clock2, i.prev_val2, z, z, z],
        seq![a2, i.clock, i.val1, z, z, z]
    ]
}

/// The 20-bit range checks of a row: the gap between the row's clock and the
/// previous clock of each access, less the enabler.
pub open spec fn spec_range_check_20(enabler: M31, i: RowInput) -> Seq<M31> {
    seq![
        fsub(fsub(i.clock, i.inst_prev_clock), enabler),
        fsub(fsub(i.clock, i.prev_clock0), enabler),
        fsub(fsub(i.clock, i.prev_clock1), enabler),
        fsub(fsub(i.clock, i.prev_clock2), enabler)
    ]
}

/// `l` holds the lookups of the row written for `i` with the given enabler.
pub open spec fn is_row_lookups(l: RowLookups, enabler: M31, i: RowInput, load: M31, delta_inv: M31) -> bool {
    &&& l.registers@.map_values(|e: [M31; 3]| e@) == spec_registers_lookups(i)
    &&& l.memory@.map_values(|e: [M31; 6]| e@) == spec_memory_lookups(i, load, delta_inv)
    &&& l.range_check_20@ == spec_range_check_20(enabler, i)
}

/// Writes the lookups of the row for `input` with the given enabler.
pub fn row_lookups(enabler: M31, input: &RowInput, load: M31, delta_inv: M31) -> (l: RowLookups)
    ensures
        is_row_lookups(l, enabler, *input, load, delta_inv),
{
    let row = trace_row(enabler, input, load, delta_inv);
    let (op, a1, a2) = (row[5], row[11], row[14]);
    let one = M31(1);
    let z = M31(0);
    let base = input.fp.add(input.off0);
    let l = RowLookups {
        registers: [[input.pc, input.fp, input.clock], [input.pc.add(one), input.fp, input.clock.add(one)]],
        memory: [
            [input.pc, input.inst_prev_clock, op, input.off0, input.off1, input.off2],
            [input.pc, input.clock, op, input.off0, input.off1, input.off2],
            [base, input.prev_clock0, input.val0, z, z, z],
            [base, input.clock, input.val0, z, z, z],
            [a1, input.prev_clock1, input.val1, z, z, z],
            [a1, input.clock, input.val1, z, z, z],
            [a2, input.prev_clock2, input.prev_val2, z, z, z],
            [a2, input.clock, input.val1, z, z, z],
        ],
        range_check_20: [
            input.clock.sub(input.inst_prev_clock).sub(enabler),
            input.clock.sub(input.prev_clock0).sub(enabler),
            input.clock.sub(input.prev_clock1).sub(enabler),
            input.clock.sub(input.prev_clock2).sub(enabler),
        ],
    };
    assert(l.registers@.map_values(|e: [M31; 3]| e@) =~= spec_registers_lookups(*input));
    assert(l.memory@.map_values(|e: [M31; 6]| e@) =~= spec_memory_lookups(*input, load, delta_inv));
    assert(l.range_check_20@ =~= spec_range_check_20(enabler, *input));
    l
}

/// The enabler and the input of row `i` of the trace written for `inputs`:
/// an enabled row per input, then disabled padding rows.
pub open spec fn padded_row(inputs: Seq<RowInput>, i: int) -> (M31, RowInput) {
    if i < inputs.len() {
        (M31(1), inputs[i])
    } else {
        (M31(0), padding_input())
    }
}

/// What the interaction trace is built from: the lookups of every row and
/// the number of rows that hold an input.
#[derive(Clone, Debug)]
pub struct InteractionClaimData {
    /// The lookups of each row of the trace.
    pub lookup_data: Vec<RowLookups>,
    /// The number of enabled rows.
    pub non_padded_length: usize,
}

impl Claim {
    /// Writes the trace of the component for `inputs`, padded to a power of
    /// two of at least `2^LOG_N_LANES` rows, its claim and the lookups of
    /// every row, for the given load and store opcodes. The inputs are
    /// consumed: `inputs` is left empty.
    pub fn write_trace(inputs: &mut Vec<RowInput>, load: M31, store: M31) -> (r: (Claim, Vec<[M31; 17]>, InteractionClaimData))
        requires
            old(inputs)@.len() <= 0x8000_0000,
            load.wf(),
            store.wf(),
        ensures
            is_trace_log_size(old(inputs)@.len(), r.0.log_size),
            r.1@.len() == rows_of(r.0.log_size as nat),
            forall|i: int|
                0 <= i < r.1@.len() ==> (#[trigger] r.1@[i])@ == spec_trace_row(
                    padded_row(old(inputs)@, i).0,
                    padded_row(old(inputs)@, i).1,
                    load,
                    inv_or_zero(fsub(store, load)),
                ),
            r.2.non_padded_length == old(inputs)@.len(),
            r.2.lookup_data@.len() == rows_of(r.0.log_size as nat),
            forall|i: int|
                0 <= i < r.2.lookup_data@.len() ==> is_row_lookups(
                    #[trigger] r.2.lookup_data@[i],
                    padded_row(old(inputs)@, i).0,
                    padded_row(old(inputs)@, i).1,
                    load,
                    inv_or_zero(fsub(store, load)),
                ),
            final(inputs)@.len() == 0,
    {
        let delta_inv = store.sub(load).inverse_or_zero();
        let non_padded_length = inputs.len();
        let (log_size, n_rows) = trace_log_size(non_padded_length);
        let z = M31(0);
        let padding = RowInput {
            pc: z,
            fp: z,
            clock: z,
            inst_prev_clock: z,
            opcode: M31(PADDING_OPCODE),
            off0: z,
            off1: z,
            off2: z,
            val0: z,
            prev_clock0: z,
            val1: z,
            prev_clock1: z,
            prev_val2: z,
            prev_clock2: z,
        };
        let mut rows: Vec<[M31; 17]> = Vec::new();
        let mut lookup_data: Vec<RowLookups> = Vec::new();
        let mut i: usize = 0;
        while i < n_rows
            invariant
                i <= n_rows,
                n_rows == rows_of(log_size as nat),
                padding == padding_input(),
                delta_inv == inv_or_zero(fsub(store, load)),
                inputs@ == old(inputs)@,
                non_padded_length == inputs@.len(),
                rows@.len() == i,
                lookup_data@.len() == i,
                forall|j: int|
                    0 <= j < i ==> (#[trigger] rows@[j])@ == spec_trace_row(
                        padded_row(inputs@, j).0,
                        padded_row(inputs@, j).1,
                        load,
                        delta_inv,
                    ),
                forall|j: int|
                    0 <= j < i ==> is_row_lookups(
                        #[trigger] lookup_data@[j],
                        padded_row(inputs@, j).0,
                        padded_row(inputs@, j).1,
                        load,
                        delta_inv,
                    ),
            decreases n_rows - i,
        {
            let (enabler, input) = if i < non_padded_length {
                (M31(1), &inputs[i])
            } else {
                (M31(0), &padding)
            };
            rows.push(trace_row(enabler, input, load, delta_inv));
            lookup_data.push(row_lookups(enabler, input, load, delta_inv));
            i = i + 1;
        }
        inputs.clear();
        (Claim { log_size }, rows, InteractionClaimData { lookup_data, non_padded_length })
    }
}

/// The row input of an execution bundle: the registers and clocks, the four
/// words of the instruction (the opcode then `off0`, `off1`, `off2`), and its
/// three operand accesses: the base read, the value moved, and the cell
/// written. None when the instruction has fewer than four words or an
/// operand access is missing.
pub open spec fn spec_row_input(b: ExecutionBundle) -> Option<RowInput> {
    let words = b.instruction.instruction.words@;
    match (b.operands[0], b.operands[1], b.operands[2]) {
        (Some(base), Some(moved), Some(written)) => if words.len() >= 4 {
            Some(
                RowInput {
                    pc: b.registers.pc,
                    fp: b.registers.fp,
                    clock: b.clock,
                    inst_prev_clock: b.instruction.prev_clock,
                    opcode: words[0],
                    off0: words[1],
                    off1: words[2],
                    off2: words[3],
                    val0: base.value.limb0,
                    prev_clock0: base.prev_clock,
                    val1: moved.value.limb0,
                    prev_clock1: moved.prev_clock,
                    prev_val2: written.prev_value.limb0,
                    prev_clock2: written.prev_clock,
                },
            )
        } else {
            None
        },
        _ => None,
    }
}

/// Reads the row input of an execution bundle.
pub fn row_input(bundle: &ExecutionBundle) -> (r: Option<RowInput>)
    ensures
        r == spec_row_input(*bundle),
{
    let words = &bundle.instruction.instruction.words;
    match (bundle.operands[0], bundle.operands[1], bundle.operands[2]) {
        (Some(base), Some(moved), Some(written)) => if words.len() >= 4 {
            Some(
                RowInput {
                    pc: bundle.registers.pc,
                    fp: bundle.registers.fp,
                    clock: bundle.clock,
                    inst_prev_clock: bundle.instruction.prev_clock,
                    opcode: words[0],
                    off0: words[1],
                    off1: words[2],
                    off2: words[3],
                    val0: base.value.limb0,
                    prev_clock0: base.prev_clock,
                    val1: moved.value.limb0,
                    prev_clock1: moved.prev_clock,
                    prev_val2: written.prev_value.limb0,
                    prev_clock2: written.prev_clock,
                },
            )
        } else {
            None
        },
        _ => None,
    }
}

} // verus!
