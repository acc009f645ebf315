//! Component proving the U32StoreImm opcode:
//! `u32([fp + dst_off], [fp + dst_off + 1]) = u32(imm_lo, imm_hi)`.
//!
//! A row holds the step's registers, the immediate's two halves and the
//! destination's previous state; its only polynomial constraint makes the
//! enabler a boolean, the rest is carried by the lookups.
use crate::components::{
    component_log_sizes, is_component_log_sizes, is_trace_log_size, rows_of, trace_log_size,
    SECURE_EXTENSION_DEGREE,
};
use crate::field::{fadd, fmod, fmul, fsub, M31};
use vstd::prelude::*;

verus! {

/// Number of trace columns.
pub const N_TRACE_COLUMNS: usize = 12;
/// Number of lookups into the memory relation per row.
pub const N_MEMORY_LOOKUPS: usize = 6;
/// Number of lookups into the registers relation per row.
pub const N_REGISTERS_LOOKUPS: usize = 2;
/// Number of 20-bit range checks per row.
pub const N_RANGE_CHECK_20_LOOKUPS: usize = 3;
/// Number of 16-bit range checks per row.
pub const N_RANGE_CHECK_16_LOOKUPS: usize = 2;
/// Number of interaction columns: four per pair of lookups.
pub const N_LOOKUPS_COLUMNS: usize = SECURE_EXTENSION_DEGREE * ((N_MEMORY_LOOKUPS + N_REGISTERS_LOOKUPS + N_RANGE_CHECK_20_LOOKUPS + N_RANGE_CHECK_16_LOOKUPS + 1) / 2);

/// The claim of the component: the log size of its trace.
#[derive(Clone, Copy, Debug, Default, PartialEq, Eq, Structural)]
pub struct Claim {
    /// Log2 of the number of rows.
    pub log_size: u32,
}

impl Claim {
    /// The log sizes of the component's columns, tree by tree.
    pub fn log_sizes(&self) -> (r: Vec<Vec<u32>>)
        ensures
            is_component_log_sizes(r@, self.log_size, N_TRACE_COLUMNS as nat, N_LOOKUPS_COLUMNS as nat),
    {
        component_log_sizes(self.log_size, N_TRACE_COLUMNS, N_LOOKUPS_COLUMNS)
    }
}

/// The constraint evaluator of the component.
#[derive(Clone, Copy, Debug, PartialEq, Eq, Structural)]
pub struct Eval {
    /// The claim the evaluator checks.
    pub claim: Claim,
}

impl Eval {
    /// Log2 of the number of rows of the evaluated trace.
    pub fn log_size(&self) -> (r: u32)
        ensures
            r == self.claim.log_size,
    {
        self.claim.log_size
    }

    /// Bound on the log degree of the constraints: one more than the log size.
    pub fn max_constraint_log_degree_bound(&self) -> (r: u32)
        requires
            self.claim.log_size < u32::MAX,
        ensures
            r == self.claim.log_size + 1,
    {
        self.claim.log_size + 1
    }
}


// ---------------------------------------------------------------------------
// The trace, its constraint and its lookups.

/// The values a row of the trace is written from.
#[derive(Clone, Copy, Debug, PartialEq, Eq)]
pub struct RowInput {
    /// Program counter.
    pub pc: M31,
    /// Frame pointer.
    pub fp: M31,
    /// Clock of the step.
    pub clock: M31,
    /// Clock of the previous access to the instruction.
    pub inst_prev_clock: M31,
    /// Low half of the immediate.
    pub imm_lo: M31,
    /// High half of the immediate.
    pub imm_hi: M31,
    /// Offset of the destination from `fp`.
    pub dst_off: M31,
    /// Previous value of the destination's low half.
    pub dst_prev_val_lo: M31,
    /// Previous value of the destination's high half.
    pub dst_prev_val_hi: M31,
    /// Clock of the previous access to the destination's low half.
    pub dst_prev_clock_lo: M31,
    /// Clock of the previous access to the destination's high half.
    pub dst_prev_clock_hi: M31,
}

/// The input of a padding row: all zeros.
pub open spec fn zero_input() -> RowInput {
    RowInput {
        pc: M31(0),
        fp: M31(0),
        clock: M31(0),
        inst_prev_clock: M31(0),
        imm_lo: M31(0),
        imm_hi: M31(0),
        dst_off: M31(0),
        dst_prev_val_lo: M31(0),
        dst_prev_val_hi: M31(0),
        dst_prev_clock_lo: M31(0),
        dst_prev_clock_hi: M31(0),
    }
}

/// The trace row written for `i` with the given enabler, column by column.
pub open spec fn spec_trace_row(enabler: M31, i: RowInput) -> Seq<M31> {
    seq![
        enabler, i.pc, i.fp, i.clock, i.inst_prev_clock, i.imm_lo, i.imm_hi, i.dst_off,
        i.dst_prev_val_lo, i.dst_prev_val_hi, i.dst_prev_clock_lo, i.dst_prev_clock_hi
    ]
}

/// Writes the trace row for `input` with the given enabler.
pub fn trace_row(enabler: M31, input: &RowInput) -> (r: [M31; 12])
    ensures
        r@ == spec_trace_row(enabler, *input),
{
    let r = [
        enabler, input.pc, input.fp, input.clock, input.inst_prev_clock, input.imm_lo, input.imm_hi,
        input.dst_off, input.dst_prev_val_lo, input.dst_prev_val_hi, input.dst_prev_clock_lo,
        input.dst_prev_clock_hi,
    ];
    assert(r@ =~= spec_trace_row(enabler, *input));
    r
}

/// The polynomial constraint of a row: the enabler is a boolean.
pub open spec fn spec_constraints(row: Seq<M31>) -> Seq<M31> {
    seq![fmul(row[0], fsub(M31(1), row[0]))]
}

impl Eval {
    /// Evaluates the polynomial constraint of the component on one row of
    /// its trace.
    pub fn evaluate(&self, row: &[M31; 12]) -> (r: Vec<M31>)
        ensures
            r@ == spec_constraints(row@),
    {
        let e = row[0];
        let c = vec![e.mul(M31::one().sub(e))];
        assert(c@ =~= spec_constraints(row@));
        c
    }
}

/// The constraint vanishes on every row written with enabler 0 or 1.
pub proof fn lemma_row_satisfies_constraints(enabler: M31, input: RowInput)
    requires
        enabler == M31(0) || enabler == M31(1),
    ensures
        spec_constraints(spec_trace_row(enabler, input)) == seq![M31(0)],
{
    assert(fmod(0) == 0);
    assert(fmul(M31(1), fsub(M31(1), M31(1))) == M31(0));
    assert(fmul(M31(0), fsub(M31(1), M31(0))) == M31(0)) by {
        assert(0 * fsub(M31(1), M31(0)).0 == 0);
    }
    assert(spec_constraints(spec_trace_row(enabler, input)) =~= seq![M31(0)]);
}

/// What one row adds to the relations: the register update, the six memory
/// accesses and the values range-checked on 16 and 20 bits.
#[derive(Clone, Copy, Debug, PartialEq, Eq)]
pub struct RowLookups {
    /// `[pc, fp, clock]` before and after the step.
    pub registers: [[M31; 3]; 2],
    /// The instruction read, then the destination's halves written; each
    /// access as its previous state then its new state.
    pub memory: [[M31; 6]; 6],
    /// The halves of the immediate.
    pub range_check_16: [M31; 2],
    /// The clock gap of each access.
    pub range_check_20: [M31; 3],
}

/// The register lookups of a row: `[pc, fp, clock]` then `[pc + 1, fp, clock + 1]`.
pub open spec fn spec_registers_lookups(i: RowInput) -> Seq<Seq<M31>> {
    seq![seq![i.pc, i.fp, i.clock], seq![fadd(i.pc, M31(1)), i.fp, fadd(i.clock, M31(1))]]
}

/// The memory lookups of a row: the instruction word (holding the opcode)
/// read, then the destination's halves written with the immediate's halves;
/// each access first with its previous clock and value, then with the
/// row's clock and new value.
pub open spec fn spec_memory_lookups(opcode: M31, i: RowInput) -> Seq<Seq<M31>> {
    let dst = fadd(i.fp, i.dst_off);
    let dst1 = fadd(dst, M31(1));
    let z = M31(0);
    seq![
        seq![i.pc, i.inst_prev_clock, opcode, i.imm_lo, i.imm_hi, i.dst_off],
        seq![i.pc, i.clock, opcode, i.imm_lo, i.imm_hi, i.dst_off],
        seq![dst, i.dst_prev_clock_lo, i.dst_prev_val_lo, z, z, z],
        seq![dst, i.clock, i.imm_lo, z, z, z],
        seq![dst1, i.dst_prev_clock_hi, i.dst_prev_val_hi, z, z, z],
        seq![dst1, i.clock, i.imm_hi, z, z, z]
    ]
}

/// The 20-bit range checks of a row: the gap between the row's clock and the
/// previous clock of each access, less the enabler.
pub open spec fn spec_range_check_20(enabler: M31, i: RowInput) -> Seq<M31> {
    seq![
        fsub(fsub(i.clock, i.inst_prev_clock), enabler),
        fsub(fsub(i.clock, i.dst_prev_clock_lo), enabler),
        fsub(fsub(i.clock, i.dst_prev_clock_hi), enabler)
    ]
}

/// `l` holds the lookups of the row written for `i` with the given enabler,
/// the instruction word holding `opcode`.
pub open spec fn is_row_lookups(l: RowLookups, enabler: M31, opcode: M31, i: RowInput) -> bool {
    &&& l.registers@.map_values(|e: [M31; 3]| e@) == spec_registers_lookups(i)
    &&& l.memory@.map_values(|e: [M31; 6]| e@) == spec_memory_lookups(opcode, i)
    &&& l.range_check_16@ == seq![i.imm_lo, i.imm_hi]
    &&& l.range_check_20@ == spec_range_check_20(enabler, i)
}

/// Writes the lookups of the row for `input` with the given enabler.
pub fn row_lookups(enabler: M31, opcode: M31, input: &RowInput) -> (l: RowLookups)
    ensures
        is_row_lookups(l, enabler, opcode, *input),
{
    let one = M31(1);
    let z = M31(0);
    let dst = input.fp.add(input.dst_off);
    let dst1 = dst.add(one);
    let l = RowLookups {
        registers: [[input.pc, input.fp, input.clock], [input.pc.add(one), input.fp, input.clock.add(one)]],
        memory: [
            [input.pc, input.inst_prev_clock, opcode, input.imm_lo, input.imm_hi, input.dst_off],
            [input.pc, input.clock, opcode, input.imm_lo, input.imm_hi, input.dst_off],
            [dst, input.dst_prev_clock_lo, input.dst_prev_val_lo, z, z, z],
            [dst, input.clock, input.imm_lo, z, z, z],
            [dst1, input.dst_prev_clock_hi, input.dst_prev_val_hi, z, z, z],
            [dst1, input.clock, input.imm_hi, z, z, z],
        ],
        range_check_16: [input.imm_lo, input.imm_hi],
        range_check_20: [
            input.clock.sub(input.inst_prev_clock).sub(enabler),
            input.clock.sub(input.dst_prev_clock_lo).sub(enabler),
            input.clock.sub(input.dst_prev_clock_hi).sub(enabler),
        ],
    };
    assert(l.registers@.map_values(|e: [M31; 3]| e@) =~= spec_registers_lookups(*input));
    assert(l.memory@.map_values(|e: [M31; 6]| e@) =~= spec_memory_lookups(opcode, *input));
    assert(l.range_check_16@ =~= seq![input.imm_lo, input.imm_hi]);
    assert(l.range_check_20@ =~= spec_range_check_20(enabler, *input));
    l
}

/// The enabler and the input of row `i` of the trace written for `inputs`:
/// an enabled row per input, then disabled rows of zeros.
pub open spec fn padded_row(inputs: Seq<RowInput>, i: int) -> (M31, RowInput) {
    if i < inputs.len() {
        (M31(1), inputs[i])
    } else {
        (M31(0), zero_input())
    }
}

/// The trace written for `inputs` at `log_size`: an enabled row per input,
/// then disabled rows of zeros up to `2^log_size` rows.
pub open spec fn spec_trace(inputs: Seq<RowInput>, log_size: u32) -> Seq<Seq<M31>> {
    Seq::new(
        rows_of(log_size as nat),
        |i: int| spec_trace_row(padded_row(inputs, i).0, padded_row(inputs, i).1),
    )
}

/// What the interaction trace is built from: the lookups of every row and
/// the number of rows that hold an input.
#[derive(Clone, Debug)]
pub struct InteractionClaimData {
    /// The lookups of each row of the trace.
    pub lookup_data: Vec<RowLookups>,
    /// The number of enabled rows.
    pub non_padded_length: usize,
}

impl Claim {
    /// Writes the trace of the component for `inputs`, padded to a power of
    /// two of at least `2^LOG_N_LANES` rows, its claim and the lookups of
    /// every row, the instruction word holding `opcode`. The inputs are
    /// consumed: `inputs` is left empty.
    pub fn write_trace(inputs: &mut Vec<RowInput>, opcode: M31) -> (r: (Claim, Vec<[M31; 12]>, InteractionClaimData))
        requires
            old(inputs)@.len() <= 0x8000_0000,
        ensures
            is_trace_log_size(old(inputs)@.len(), r.0.log_size),
            r.1@.len() == rows_of(r.0.log_size as nat),
            forall|i: int| 0 <= i < r.1@.len() ==> (#[trigger] r.1@[i])@ == spec_trace(old(inputs)@, r.0.log_size)[i],
            r.2.non_padded_length == old(inputs)@.len(),
            r.2.lookup_data@.len() == rows_of(r.0.log_size as nat),
            forall|i: int|
                0 <= i < r.2.lookup_data@.len() ==> is_row_lookups(
                    #[trigger] r.2.lookup_data@[i],
                    padded_row(old(inputs)@, i).0,
                    opcode,
                    padded_row(old(inputs)@, i).1,
                ),
            final(inputs)@.len() == 0,
    {
        let non_padded_length = inputs.len();
        let (log_size, n_rows) = trace_log_size(non_padded_length);
        let z = M31(0);
        let padding = RowInput {
            pc: z,
            fp: z,
            clock: z,
            inst_prev_clock: z,
            imm_lo: z,
            imm_hi: z,
            dst_off: z,
            dst_prev_val_lo: z,
            dst_prev_val_hi: z,
            dst_prev_clock_lo: z,
            dst_prev_clock_hi: z,
        };
        let mut rows: Vec<[M31; 12]> = Vec::new();
        let mut lookup_data: Vec<RowLookups> = Vec::new();
        let mut i: usize = 0;
        while i < n_rows
            invariant
                i <= n_rows,
                n_rows == rows_of(log_size as nat),
                padding == zero_input(),
                inputs@ == old(inputs)@,
                non_padded_length == inputs@.len(),
                rows@.len() == i,
                lookup_data@.len() == i,
                forall|j: int| 0 <= j < i ==> (#[trigger] rows@[j])@ == spec_trace(inputs@, log_size)[j],
                forall|j: int|
                    0 <= j < i ==> is_row_lookups(
                        #[trigger] lookup_data@[j],
                        padded_row(inputs@, j).0,
                        opcode,
                        padded_row(inputs@, j).1,
                    ),
            decreases n_rows - i,
        {
            let (enabler, input) = if i < non_padded_length {
                (M31(1), &inputs[i])
            } else {
                (M31(0), &padding)
            };
            rows.push(trace_row(enabler, input));
            lookup_data.push(row_lookups(enabler, opcode, input));
            i = i + 1;
        }
        inputs.clear();
        (Claim { log_size }, rows, InteractionClaimData { lookup_data, non_padded_length })
    }
}

/// Every row of a written trace satisfies the component's constraint, and
/// each enabled row writes the immediate's halves to the destination.
pub proof fn lemma_trace_satisfies_constraints(inputs: Seq<RowInput>, opcode: M31, log_size: u32)
    ensures
        forall|i: int|
            0 <= i < rows_of(log_size as nat) ==> spec_constraints(#[trigger] spec_trace(inputs, log_size)[i])
                == seq![M31(0)],
        forall|i: int|
            0 <= i < inputs.len() ==> spec_memory_lookups(opcode, #[trigger] inputs[i])[3][2] == inputs[i].imm_lo
                && spec_memory_lookups(opcode, inputs[i])[5][2] == inputs[i].imm_hi,
{
    assert forall|i: int| 0 <= i < rows_of(log_size as nat) implies spec_constraints(
        #[trigger] spec_trace(inputs, log_size)[i],
    ) == seq![M31(0)] by {
        lemma_row_satisfies_constraints(padded_row(inputs, i).0, padded_row(inputs, i).1);
    }
}

} // verus!
