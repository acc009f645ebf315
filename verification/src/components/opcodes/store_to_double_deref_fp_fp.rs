//! Component proving the StoreToDoubleDerefFpFp opcode:
//! `[[fp + base_off] + [fp + offset_off]] = [fp + src_off]`.
//!
//! A row holds the step's registers, the three offsets, the values read and
//! the destination's previous state; its only polynomial constraint makes the
//! enabler a boolean, the rest is carried by the lookups.
use crate::components::{
    component_log_sizes, is_component_log_sizes, is_trace_log_size, rows_of, trace_log_size,
    SECURE_EXTENSION_DEGREE,
};
use crate::field::{fadd, fmod, fmul, fsub, M31};
use vstd::prelude::*;

verus! {

/// Number of trace columns.
pub const N_TRACE_COLUMNS: usize = 16;
/// Number of lookups into the memory relation per row.
pub const N_MEMORY_LOOKUPS: usize = 10;
/// Number of lookups into the registers relation per row.
pub const N_REGISTERS_LOOKUPS: usize = 2;
/// Number of 20-bit range checks per row.
pub const N_RANGE_CHECK_20_LOOKUPS: usize = 5;
/// Number of interaction columns: four per pair of lookups.
pub const N_LOOKUPS_COLUMNS: usize = SECURE_EXTENSION_DEGREE * ((N_MEMORY_LOOKUPS + N_REGISTERS_LOOKUPS + N_RANGE_CHECK_20_LOOKUPS + 1) / 2);

/// The claim of the component: the log size of its trace.
#[derive(Clone, Copy, Debug, Default, PartialEq, Eq, Structural)]
pub struct Claim {
    /// Log2 of the number of rows.
    pub log_size: u32,
}

impl Claim {
    /// The log sizes of the component's columns, tree by tree.
    pub fn log_sizes(&self) -> (r: Vec<Vec<u32>>)
        ensures
            is_component_log_sizes(r@, self.log_size, N_TRACE_COLUMNS as nat, N_LOOKUPS_COLUMNS as nat),
    {
        component_log_sizes(self.log_size, N_TRACE_COLUMNS, N_LOOKUPS_COLUMNS)
    }
}

/// The constraint evaluator of the component.
#[derive(Clone, Copy, Debug, PartialEq, Eq, Structural)]
pub struct Eval {
    /// The claim the evaluator checks.
    pub claim: Claim,
}

impl Eval {
    /// Log2 of the number of rows of the evaluated trace.
    pub fn log_size(&self) -> (r: u32)
        ensures
            r == self.claim.log_size,
    {
        self.claim.log_size
    }

    /// Bound on the log degree of the constraints: one more than the log size.
    pub fn max_constraint_log_degree_bound(&self) -> (r: u32)
        requires
            self.claim.log_size < u32::MAX,
        ensures
            r == self.claim.log_size + 1,
    {
        self.claim.log_size + 1
    }
}


// ---------------------------------------------------------------------------
// The trace, its constraint and its lookups.

/// The values a row of the trace is written from.
#[derive(Clone, Copy, Debug, PartialEq, Eq)]
pub struct RowInput {
    /// Program counter.
    pub pc: M31,
    /// Frame pointer.
    pub fp: M31,
    /// Clock of the step.
    pub clock: M31,
    /// Clock of the previous access to the instruction.
    pub inst_prev_clock: M31,
    /// Offset of the source from `fp`.
    pub src_off: M31,
    /// Offset of the base from `fp`.
    pub base_off: M31,
    /// Offset of the offset from `fp`.
    pub offset_off: M31,
    /// Value of the source.
    pub src_val: M31,
    /// Clock of the previous access to the source.
    pub src_prev_clock: M31,
    /// Value of the base.
    pub base_val: M31,
    /// Clock of the previous access to the base.
    pub base_prev_clock: M31,
    /// Value of the offset.
    pub offset_val: M31,
    /// Clock of the previous access to the offset.
    pub offset_prev_clock: M31,
    /// Previous value of the destination `base + offset`.
    pub final_deref_prev_val: M31,
    /// Clock of the previous access to the destination.
    pub final_deref_prev_clock: M31,
}

/// The input of a padding row: all zeros.
pub open spec fn zero_input() -> RowInput {
    RowInput {
        pc: M31(0),
        fp: M31(0),
        clock: M31(0),
        inst_prev_clock: M31(0),
        src_off: M31(0),
        base_off: M31(0),
        offset_off: M31(0),
        src_val: M31(0),
        src_prev_clock: M31(0),
        base_val: M31(0),
        base_prev_clock: M31(0),
        offset_val: M31(0),
        offset_prev_clock: M31(0),
        final_deref_prev_val: M31(0),
        final_deref_prev_clock: M31(0),
    }
}

/// The trace row written for `i` with the given enabler, column by column.
pub open spec fn spec_trace_row(enabler: M31, i: RowInput) -> Seq<M31> {
    seq![enabler, i.pc, i.fp, i.clock, i.inst_prev_clock, i.src_off, i.base_off, i.offset_off, i.src_val, i.src_prev_clock, i.base_val, i.base_prev_clock, i.offset_val, i.offset_prev_clock, i.final_deref_prev_val, i.final_deref_prev_clock]
}

/// Writes the trace row for `input` with the given enabler.
pub fn trace_row(enabler: M31, input: &RowInput) -> (r: [M31; 16])
    ensures
        r@ == spec_trace_row(enabler, *input),
{
    let r = [enabler, input.pc, input.fp, input.clock, input.inst_prev_clock, input.src_off, input.base_off, input.offset_off, input.src_val, input.src_prev_clock, input.base_val, input.base_prev_clock, input.offset_val, input.offset_prev_clock, input.final_deref_prev_val, input.final_deref_prev_clock];
    assert(r@ =~= spec_trace_row(enabler, *input));
    r
}

/// The polynomial constraint of a row: the enabler is a boolean.
pub open spec fn spec_constraints(row: Seq<M31>) -> Seq<M31> {
    seq![fmul(row[0], fsub(M31(1), row[0]))]
}

impl Eval {
    /// Evaluates the polynomial constraint of the component on one row of
    /// its trace.
    pub fn evaluate(&self, row: &[M31; 16]) -> (r: Vec<M31>)
        ensures
            r@ == spec_constraints(row@),
    {
        let e = row[0];
        let c = vec![e.mul(M31::one().sub(e))];
        assert(c@ =~= spec_constraints(row@));
        c
    }
}

/// The constraint vanishes on every row written with enabler 0 or 1.
pub proof fn lemma_row_satisfies_constraints(enabler: M31, input: RowInput)
    requires
        enabler == M31(0) || enabler == M31(1),
    ensures
        spec_constraints(spec_trace_row(enabler, input)) == seq![M31(0)],
{
    assert(fmod(0) == 0);
    assert(fmul(M31(1), fsub(M31(1), M31(1))) == M31(0));
    assert(fmul(M31(0), fsub(M31(1), M31(0))) == M31(0)) by {
        assert(0 * fsub(M31(1), M31(0)).0 == 0);
    }
    assert(spec_constraints(spec_trace_row(enabler, input)) =~= seq![M31(0)]);
}

/// What one row adds to the relations: the register update, the memory
/// accesses and the clock gaps range-checked on 20 bits.
#[derive(Clone, Copy, Debug, PartialEq, Eq)]
pub struct RowLookups {
    /// `[pc, fp]` before and after the step.
    pub registers: [[M31; 2]; 2],
    /// The instruction, the source, base and offset read, then the source
    /// value written at `base + offset`.
    pub memory: [[M31; 6]; 10],
    /// The clock gap of each access.
    pub range_check_20: [M31; 5],
}

/// The register lookups of a row, before and after the step.
pub open spec fn spec_registers_lookups(i: RowInput) -> Seq<Seq<M31>> {
    seq![seq![i.pc, i.fp], seq![fadd(i.pc, M31(1)), i.fp]]
}

/// The memory lookups of a row: each access first with its previous clock
/// and value, then with the row's clock and new value.
pub open spec fn spec_memory_lookups(opcode: M31, i: RowInput) -> Seq<Seq<M31>> {
    seq![
        seq![i.pc, i.inst_prev_clock, opcode, i.src_off, i.base_off, i.offset_off],
        seq![i.pc, i.clock, opcode, i.src_off, i.base_off, i.offset_off],
        seq![fadd(i.fp, i.src_off), i.src_prev_clock, i.src_val, M31(0), M31(0), M31(0)],
        seq![fadd(i.fp, i.src_off), i.clock, i.src_val, M31(0), M31(0), M31(0)],
        seq![fadd(i.fp, i.base_off), i.base_prev_clock, i.base_val, M31(0), M31(0), M31(0)],
        seq![fadd(i.fp, i.base_off), i.clock, i.base_val, M31(0), M31(0), M31(0)],
        seq![fadd(i.fp, i.offset_off), i.offset_prev_clock, i.offset_val, M31(0), M31(0), M31(0)],
        seq![fadd(i.fp, i.offset_off), i.clock, i.offset_val, M31(0), M31(0), M31(0)],
        seq![fadd(i.base_val, i.offset_val), i.final_deref_prev_clock, i.final_deref_prev_val, M31(0), M31(0), M31(0)],
        seq![fadd(i.base_val, i.offset_val), i.clock, i.src_val, M31(0), M31(0), M31(0)]
    ]
}

/// The 20-bit range checks of a row: the gap between the row's clock and the
/// previous clock of each access, less the enabler.
pub open spec fn spec_range_check_20(enabler: M31, i: RowInput) -> Seq<M31> {
    seq![fsub(fsub(i.clock, i.inst_prev_clock), enabler), fsub(fsub(i.clock, i.src_prev_clock), enabler), fsub(fsub(i.clock, i.base_prev_clock), enabler), fsub(fsub(i.clock, i.offset_prev_clock), enabler), fsub(fsub(i.clock, i.final_deref_prev_clock), enabler)]
}

/// `l` holds the lookups of the row written for `i` with the given enabler,
/// the instruction word holding `opcode`.
pub open spec fn is_row_lookups(l: RowLookups, enabler: M31, opcode: M31, i: RowInput) -> bool {
    &&& l.registers@.map_values(|e: [M31; 2]| e@) == spec_registers_lookups(i)
    &&& l.memory@.map_values(|e: [M31; 6]| e@) == spec_memory_lookups(opcode, i)
    &&& l.range_check_20@ == spec_range_check_20(enabler, i)
}

/// Writes the lookups of the row for `input` with the given enabler.
pub fn row_lookups(enabler: M31, opcode: M31, input: &RowInput) -> (l: RowLookups)
    ensures
        is_row_lookups(l, enabler, opcode, *input),
{
    let one = M31(1);
    let z = M31(0);
    let l = RowLookups {
        registers: [[input.pc, input.fp], [input.pc.add(one), input.fp]],
        memory: [
            [input.pc, input.inst_prev_clock, opcode, input.src_off, input.base_off, input.offset_off],
            [input.pc, input.clock, opcode, input.src_off, input.base_off, input.offset_off],
            [input.fp.add(input.src_off), input.src_prev_clock, input.src_val, z, z, z],
            [input.fp.add(input.src_off), input.clock, input.src_val, z, z, z],
            [input.fp.add(input.base_off), input.base_prev_clock, input.base_val, z, z, z],
            [input.fp.add(input.base_off), input.clock, input.base_val, z, z, z],
            [input.fp.add(input.offset_off), input.offset_prev_clock, input.offset_val, z, z, z],
            [input.fp.add(input.offset_off), input.clock, input.offset_val, z, z, z],
            [input.base_val.add(input.offset_val), input.final_deref_prev_clock, input.final_deref_prev_val, z, z, z],
            [input.base_val.add(input.offset_val), input.clock, input.src_val, z, z, z],
        ],
        range_check_20: [input.clock.sub(input.inst_prev_clock).sub(enabler), input.clock.sub(input.src_prev_clock).sub(enabler), input.clock.sub(input.base_prev_clock).sub(enabler), input.clock.sub(input.offset_prev_clock).sub(enabler), input.clock.sub(input.final_deref_prev_clock).sub(enabler)],
    };
    assert(l.registers@.map_values(|e: [M31; 2]| e@) =~= spec_registers_lookups(*input));
    assert(l.memory@.map_values(|e: [M31; 6]| e@) =~= spec_memory_lookups(opcode, *input));
    assert(l.range_check_20@ =~= spec_range_check_20(enabler, *input));
    l
}

/// The enabler and the input of row `i` of the trace written for `inputs`:
/// an enabled row per input, then disabled rows of zeros.
pub open spec fn padded_row(inputs: Seq<RowInput>, i: int) -> (M31, RowInput) {
    if i < inputs.len() {
        (M31(1), inputs[i])
    } else {
        (M31(0), zero_input())
    }
}

/// The trace written for `inputs` at `log_size`: an enabled row per input,
/// then disabled rows of zeros up to `2^log_size` rows.
pub open spec fn spec_trace(inputs: Seq<RowInput>, log_size: u32) -> Seq<Seq<M31>> {
    Seq::new(
        rows_of(log_size as nat),
        |i: int| spec_trace_row(padded_row(inputs, i).0, padded_row(inputs, i).1),
    )
}

/// What the interaction trace is built from: the lookups of every row and
/// the number of rows that hold an input.
#[derive(Clone, Debug)]
pub struct InteractionClaimData {
    /// The lookups of each row of the trace.
    pub lookup_data: Vec<RowLookups>,
    /// The number of enabled rows.
    pub non_padded_length: usize,
}

impl Claim {
    /// Writes the trace of the component for `inputs`, padded to a power of
    /// two of at least `2^LOG_N_LANES` rows, its claim and the lookups of
    /// every row, the instruction word holding `opcode`. The inputs are
    /// consumed: `inputs` is left empty.
    pub fn write_trace(inputs: &mut Vec<RowInput>, opcode: M31) -> (r: (Claim, Vec<[M31; 16]>, InteractionClaimData))
        requires
            old(inputs)@.len() <= 0x8000_0000,
        ensures
            is_trace_log_size(old(inputs)@.len(), r.0.log_size),
            r.1@.len() == rows_of(r.0.log_size as nat),
            forall|i: int| 0 <= i < r.1@.len() ==> (#[trigger] r.1@[i])@ == spec_trace(old(inputs)@, r.0.log_size)[i],
            r.2.non_padded_length == old(inputs)@.len(),
            r.2.lookup_data@.len() == rows_of(r.0.log_size as nat),
            forall|i: int|
                0 <= i < r.2.lookup_data@.len() ==> is_row_lookups(
                    #[trigger] r.2.lookup_data@[i],
                    padded_row(old(inputs)@, i).0,
                    opcode,
                    padded_row(old(inputs)@, i).1,
                ),
            final(inputs)@.len() == 0,
    {
        let non_padded_length = inputs.len();
        let (log_size, n_rows) = trace_log_size(non_padded_length);
        let z = M31(0);
        let padding = RowInput {
            pc: z,
            fp: z,
            clock: z,
            inst_prev_clock: z,
            src_off: z,
            base_off: z,
            offset_off: z,
            src_val: z,
            src_prev_clock: z,
            base_val: z,
            base_prev_clock: z,
            offset_val: z,
            offset_prev_clock: z,
            final_deref_prev_val: z,
            final_deref_prev_clock: z,
        };
        let mut rows: Vec<[M31; 16]> = Vec::new();
        let mut lookup_data: Vec<RowLookups> = Vec::new();
        let mut i: usize = 0;
        while i < n_rows
            invariant
                i <= n_rows,
                n_rows == rows_of(log_size as nat),
                padding == zero_input(),
                inputs@ == old(inputs)@,
                non_padded_length == inputs@.len(),
                rows@.len() == i,
                lookup_data@.len() == i,
                forall|j: int| 0 <= j < i ==> (#[trigger] rows@[j])@ == spec_trace(inputs@, log_size)[j],
                forall|j: int|
                    0 <= j < i ==> is_row_lookups(
                        #[trigger] lookup_data@[j],
                        padded_row(inputs@, j).0,
                        opcode,
                        padded_row(inputs@, j).1,
                    ),
            decreases n_rows - i,
        {
            let (enabler, input) = if i < non_padded_length {
                (M31(1), &inputs[i])
            } else {
                (M31(0), &padding)
            };
            rows.push(trace_row(enabler, input));
            lookup_data.push(row_lookups(enabler, opcode, input));
            i = i + 1;
        }
        inputs.clear();
        (Claim { log_size }, rows, InteractionClaimData { lookup_data, non_padded_length })
    }
}

/// Every row of a written trace satisfies the component's constraint.
pub proof fn lemma_trace_satisfies_constraints(inputs: Seq<RowInput>, log_size: u32)
    ensures
        forall|i: int|
            0 <= i < rows_of(log_size as nat) ==> spec_constraints(#[trigger] spec_trace(inputs, log_size)[i])
                == seq![M31(0)],
{
    assert forall|i: int| 0 <= i < rows_of(log_size as nat) implies spec_constraints(
        #[trigger] spec_trace(inputs, log_size)[i],
    ) == seq![M31(0)] by {
        lemma_row_satisfies_constraints(padded_row(inputs, i).0, padded_row(inputs, i).1);
    }
}

} // verus!
