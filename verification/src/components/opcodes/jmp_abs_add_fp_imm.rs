//! Component proving the JmpAbsAddFpImm opcode: `jmp abs [fp + off0] + off1`.
use crate::components::{
    component_log_sizes, is_component_log_sizes, is_trace_log_size, rows_of, trace_log_size,
    SECURE_EXTENSION_DEGREE,
};
use crate::field::{fadd, fmod, fmul, fsub, M31};
use crate::instructions::Opcode;
use crate::memory::ExecutionBundle;
use crate::adapter::{formats_ok, group_by_opcode, lemma_import_groups, spec_run, start_view};
use crate::io::State;
use crate::memory::{LoggedAccess, OpcodeFormat};
use vstd::prelude::*;

verus! {

/// Number of trace columns.
pub const N_TRACE_COLUMNS: usize = 11;
/// Number of lookups into the memory relation per row.
pub const N_MEMORY_LOOKUPS: usize = 4;
/// Number of lookups into the registers relation per row.
pub const N_REGISTERS_LOOKUPS: usize = 2;
/// Number of 20-bit range checks per row.
pub const N_RANGE_CHECK_20_LOOKUPS: usize = 2;
/// Number of interaction columns: four per lookup.
pub const N_LOOKUPS_COLUMNS: usize = SECURE_EXTENSION_DEGREE * (N_MEMORY_LOOKUPS + N_REGISTERS_LOOKUPS + N_RANGE_CHECK_20_LOOKUPS);

/// The claim of the component: the log size of its trace.
#[derive(Clone, Copy, Debug, Default, PartialEq, Eq, Structural)]
pub struct Claim {
    /// Log2 of the number of rows.
    pub log_size: u32,
}

impl Claim {
    /// The log sizes of the component's columns, tree by tree.
    pub fn log_sizes(&self) -> (r: Vec<Vec<u32>>)
        ensures
            is_component_log_sizes(r@, self.log_size, N_TRACE_COLUMNS as nat, N_LOOKUPS_COLUMNS as nat),
    {
        component_log_sizes(self.log_size, N_TRACE_COLUMNS, N_LOOKUPS_COLUMNS)
    }
}

/// The constraint evaluator of the component.
#[derive(Clone, Copy, Debug, PartialEq, Eq, Structural)]
pub struct Eval {
    /// The claim the evaluator checks.
    pub claim: Claim,
}

impl Eval {
    /// Log2 of the number of rows of the evaluated trace.
    pub fn log_size(&self) -> (r: u32)
        ensures
            r == self.claim.log_size,
    {
        self.claim.log_size
    }

    /// Bound on the log degree of the constraints: one more than the log size.
    pub fn max_constraint_log_degree_bound(&self) -> (r: u32)
        requires
            self.claim.log_size < u32::MAX,
        ensures
            r == self.claim.log_size + 1,
    {
        self.claim.log_size + 1
    }
}


// ---------------------------------------------------------------------------
// The trace and its constraints.

/// The values a row of the trace is written from.
#[derive(Clone, Copy, Debug, PartialEq, Eq)]
pub struct RowInput {
    /// Program counter.
    pub pc: M31,
    /// Frame pointer.
    pub fp: M31,
    /// Clock of the step.
    pub clock: M31,
    /// Clock of the previous access to the instruction.
    pub inst_prev_clock: M31,
    /// The instruction's first word, its opcode number.
    pub opcode_id: M31,
    /// The instruction's second word.
    pub off0: M31,
    /// The instruction's third word.
    pub off1: M31,
    /// The instruction's fourth word.
    pub off2: M31,
    /// Clock of the previous access to the operand.
    pub op0_prev_clock: M31,
    /// The value read at `fp + off0`.
    pub op0_val: M31,
}

/// The input of a padding row: all zeros.
pub open spec fn zero_input() -> RowInput {
    RowInput {
        pc: M31(0),
        fp: M31(0),
        clock: M31(0),
        inst_prev_clock: M31(0),
        opcode_id: M31(0),
        off0: M31(0),
        off1: M31(0),
        off2: M31(0),
        op0_prev_clock: M31(0),
        op0_val: M31(0),
    }
}

/// The row input of an execution bundle: the registers and clocks, the four
/// words of the instruction and its operand accesses. None when the
/// instruction has fewer than four words or an operand access is missing.
pub open spec fn spec_row_input(b: ExecutionBundle) -> Option<RowInput> {
    let words = b.instruction.instruction.words@;
    match b.operands[0] {
        Some(op0) => if words.len() >= 4 {
            Some(RowInput {
                pc: b.registers.pc,
                fp: b.registers.fp,
                clock: b.clock,
                inst_prev_clock: b.instruction.prev_clock,
                opcode_id: words[0],
                off0: words[1],
                off1: words[2],
                off2: words[3],
                op0_prev_clock: op0.prev_clock,
                op0_val: op0.value.limb0,
            })
        } else {
            None
        },
        _ => None,
    }
}

/// Reads the row input of an execution bundle.
pub fn row_input(bundle: &ExecutionBundle) -> (r: Option<RowInput>)
    ensures
        r == spec_row_input(*bundle),
{
    let words = &bundle.instruction.instruction.words;
    match bundle.operands[0] {
        Some(op0) => if words.len() >= 4 {
            Some(RowInput {
                pc: bundle.registers.pc,
                fp: bundle.registers.fp,
                clock: bundle.clock,
                inst_prev_clock: bundle.instruction.prev_clock,
                opcode_id: words[0],
                off0: words[1],
                off1: words[2],
                off2: words[3],
                op0_prev_clock: op0.prev_clock,
                op0_val: op0.value.limb0,
            })
        } else {
            None
        },
        _ => None,
    }
}

/// The trace row written for `i` with the given enabler, column by column.
pub open spec fn spec_trace_row(enabler: M31, i: RowInput) -> Seq<M31> {
    seq![enabler, i.pc, i.fp, i.clock, i.inst_prev_clock, i.opcode_id, i.off0, i.off1, i.off2, i.op0_prev_clock, i.op0_val]
}

/// Writes the trace row for `input` with the given enabler.
pub fn trace_row(enabler: M31, input: &RowInput) -> (r: [M31; 11])
    ensures
        r@ == spec_trace_row(enabler, *input),
{
    let r = [enabler, input.pc, input.fp, input.clock, input.inst_prev_clock, input.opcode_id, input.off0, input.off1, input.off2, input.op0_prev_clock, input.op0_val];
    assert(r@ =~= spec_trace_row(enabler, *input));
    r
}

/// The opcode number rows of the component carry.
pub open spec fn expected_opcode_id() -> M31 {
    M31(Opcode::JmpAbsAddFpImm.spec_id())
}

/// The polynomial constraints of a row, each of which must vanish: the
/// enabler is a boolean, and an enabled row carries the component's opcode.
pub open spec fn spec_constraints(row: Seq<M31>) -> Seq<M31> {
    seq![fmul(row[0], fsub(M31(1), row[0])), fmul(row[0], fsub(row[5], expected_opcode_id()))]
}

impl Eval {
    /// Evaluates the polynomial constraints of the component on one row of
    /// its trace, in the order [`spec_constraints`] lists them.
    pub fn evaluate(&self, row: &[M31; 11]) -> (r: Vec<M31>)
        ensures
            r@ == spec_constraints(row@),
    {
        let e = row[0];
        let expected = M31(Opcode::JmpAbsAddFpImm.id());
        let c = vec![e.mul(M31::one().sub(e)), e.mul(row[5].sub(expected))];
        assert(c@ =~= spec_constraints(row@));
        c
    }
}

/// Every polynomial constraint vanishes on an enabled row of the
/// component's opcode and on the padding row.
pub proof fn lemma_row_satisfies_constraints(enabler: M31, input: RowInput)
    requires
        (enabler == M31(1) && input.opcode_id == expected_opcode_id()) || (enabler == M31(0) && input
            == zero_input()),
    ensures
        spec_constraints(spec_trace_row(enabler, input)) == Seq::new(2, |_k: int| M31(0)),
{
    let row = spec_trace_row(enabler, input);
    assert(fmod(0) == 0);
    assert forall|x: M31| #[trigger] fmul(M31(0), x) == M31(0) by {
        assert(0 * x.0 == 0);
    }
    assert forall|x: M31| #[trigger] fmul(x, M31(0)) == M31(0) by {
        assert(x.0 * 0 == 0);
    }
    assert forall|x: M31| #[trigger] fsub(x, x) == M31(0) by {}
    assert(spec_constraints(row) =~= Seq::new(2, |_k: int| M31(0)));
}

/// The trace written for `inputs` at `log_size`: an enabled row per input,
/// then disabled rows of zeros up to `2^log_size` rows.
pub open spec fn spec_trace(inputs: Seq<RowInput>, log_size: u32) -> Seq<Seq<M31>> {
    Seq::new(
        rows_of(log_size as nat),
        |i: int|
            if i < inputs.len() {
                spec_trace_row(M31(1), inputs[i])
            } else {
                spec_trace_row(M31(0), zero_input())
            },
    )
}

/// What one row adds to the relations: the register update (the jump), the
/// four memory accesses and the clock gaps range-checked on 20 bits.
#[derive(Clone, Copy, Debug, PartialEq, Eq)]
pub struct RowLookups {
    /// `[pc, fp]` before the step, then `[op0_val + off1, fp]` after it.
    pub registers: [[M31; 2]; 2],
    /// The instruction, then the operand read; each access as its previous
    /// state then its new state.
    pub memory: [[M31; 6]; 4],
    /// The clock gap of each access, less one.
    pub range_check_20: [M31; 2],
}

/// The lookups of the row written for `i`: the jump to `op0_val + off1`, the
/// instruction word and the operand at `fp + off0` read, each access first
/// with its previous clock then with the row's clock, and each clock gap
/// less one.
pub open spec fn spec_lookups(i: RowInput) -> (Seq<Seq<M31>>, Seq<Seq<M31>>, Seq<M31>) {
    let z = M31(0);
    let a = fadd(i.fp, i.off0);
    (
        seq![seq![i.pc, i.fp], seq![fadd(i.op0_val, i.off1), i.fp]],
        seq![
            seq![i.pc, i.inst_prev_clock, i.opcode_id, i.off0, i.off1, i.off2],
            seq![i.pc, i.clock, i.opcode_id, i.off0, i.off1, i.off2],
            seq![a, i.op0_prev_clock, i.op0_val, z, z, z],
            seq![a, i.clock, i.op0_val, z, z, z]
        ],
        seq![fsub(fsub(i.clock, i.inst_prev_clock), M31(1)), fsub(fsub(i.clock, i.op0_prev_clock), M31(1))],
    )
}

/// `l` holds the lookups of the row written for `i`.
pub open spec fn is_row_lookups(l: RowLookups, i: RowInput) -> bool {
    &&& l.registers@.map_values(|e: [M31; 2]| e@) == spec_lookups(i).0
    &&& l.memory@.map_values(|e: [M31; 6]| e@) == spec_lookups(i).1
    &&& l.range_check_20@ == spec_lookups(i).2
}

/// Writes the lookups of the row for `input`.
pub fn row_lookups(input: &RowInput) -> (l: RowLookups)
    ensures
        is_row_lookups(l, *input),
{
    let one = M31(1);
    let z = M31(0);
    let a = input.fp.add(input.off0);
    let l = RowLookups {
        registers: [[input.pc, input.fp], [input.op0_val.add(input.off1), input.fp]],
        memory: [
            [input.pc, input.inst_prev_clock, input.opcode_id, input.off0, input.off1, input.off2],
            [input.pc, input.clock, input.opcode_id, input.off0, input.off1, input.off2],
            [a, input.op0_prev_clock, input.op0_val, z, z, z],
            [a, input.clock, input.op0_val, z, z, z],
        ],
        range_check_20: [input.clock.sub(input.inst_prev_clock).sub(one), input.clock.sub(input.op0_prev_clock).sub(one)],
    };
    assert(l.registers@.map_values(|e: [M31; 2]| e@) =~= spec_lookups(*input).0);
    assert(l.memory@.map_values(|e: [M31; 6]| e@) =~= spec_lookups(*input).1);
    assert(l.range_check_20@ =~= spec_lookups(*input).2);
    l
}

/// The input of row `i` of the trace written for `inputs`: the input, then
/// zeros.
pub open spec fn padded_input(inputs: Seq<RowInput>, i: int) -> RowInput {
    if i < inputs.len() {
        inputs[i]
    } else {
        zero_input()
    }
}

/// What the interaction trace is built from: the lookups of every row and
/// the number of rows that hold an input.
#[derive(Clone, Debug)]
pub struct InteractionClaimData {
    /// The lookups of each row of the trace.
    pub lookup_data: Vec<RowLookups>,
    /// The number of enabled rows.
    pub non_padded_length: usize,
}

impl Claim {
    /// Writes the trace of the component for `inputs`, padded to a power of
    /// two of at least `2^LOG_N_LANES` rows, its claim and the lookups of
    /// every row. `inputs` is padded in place with zero inputs to the
    /// trace's number of rows.
    pub fn write_trace(inputs: &mut Vec<RowInput>) -> (r: (Claim, Vec<[M31; 11]>, InteractionClaimData))
        requires
            old(inputs)@.len() <= 0x8000_0000,
        ensures
            is_trace_log_size(old(inputs)@.len(), r.0.log_size),
            r.1@.len() == rows_of(r.0.log_size as nat),
            forall|i: int| 0 <= i < r.1@.len() ==> (#[trigger] r.1@[i])@ == spec_trace(old(inputs)@, r.0.log_size)[i],
            r.2.non_padded_length == old(inputs)@.len(),
            r.2.lookup_data@.len() == rows_of(r.0.log_size as nat),
            forall|i: int|
                0 <= i < r.2.lookup_data@.len() ==> is_row_lookups(
                    #[trigger] r.2.lookup_data@[i],
                    padded_input(old(inputs)@, i),
                ),
            final(inputs)@ == Seq::new(rows_of(r.0.log_size as nat), |i: int| padded_input(old(inputs)@, i)),
    {
        let non_padded_length = inputs.len();
        let (log_size, n_rows) = trace_log_size(non_padded_length);
        let padding = RowInput {
            pc: M31(0),
            fp: M31(0),
            clock: M31(0),
            inst_prev_clock: M31(0),
            opcode_id: M31(0),
            off0: M31(0),
            off1: M31(0),
            off2: M31(0),
            op0_prev_clock: M31(0),
            op0_val: M31(0),
        };
        let mut rows: Vec<[M31; 11]> = Vec::new();
        let mut lookup_data: Vec<RowLookups> = Vec::new();
        let mut i: usize = 0;
        while i < n_rows
            invariant
                i <= n_rows,
                n_rows == rows_of(log_size as nat),
                non_padded_length <= n_rows,
                padding == zero_input(),
                non_padded_length == old(inputs)@.len(),
                inputs@.len() == if i <= non_padded_length { non_padded_length as int } else { i as int },
                forall|j: int| 0 <= j < inputs@.len() ==> #[trigger] inputs@[j] == padded_input(old(inputs)@, j),
                rows@.len() == i,
                lookup_data@.len() == i,
                forall|j: int| 0 <= j < i ==> (#[trigger] rows@[j])@ == spec_trace(old(inputs)@, log_size)[j],
                forall|j: int|
                    0 <= j < i ==> is_row_lookups(#[trigger] lookup_data@[j], padded_input(old(inputs)@, j)),
            decreases n_rows - i,
        {
            if i < non_padded_length {
                rows.push(trace_row(M31(1), &inputs[i]));
                lookup_data.push(row_lookups(&inputs[i]));
            } else {
                rows.push(trace_row(M31(0), &padding));
                lookup_data.push(row_lookups(&padding));
                inputs.push(padding);
            }
            i = i + 1;
        }
        assert(inputs@ =~= Seq::new(rows_of(log_size as nat), |i: int| padded_input(old(inputs)@, i)));
        (Claim { log_size }, rows, InteractionClaimData { lookup_data, non_padded_length })
    }
}

/// Every row of a written trace satisfies every polynomial constraint of the
/// component, when every input carries the component's opcode.
pub proof fn lemma_trace_satisfies_constraints(inputs: Seq<RowInput>, log_size: u32)
    requires
        forall|i: int| 0 <= i < inputs.len() ==> (#[trigger] inputs[i]).opcode_id == expected_opcode_id(),
    ensures
        forall|i: int|
            0 <= i < rows_of(log_size as nat) ==> spec_constraints(#[trigger] spec_trace(inputs, log_size)[i])
                == Seq::new(2, |_k: int| M31(0)),
{
    assert forall|i: int| 0 <= i < rows_of(log_size as nat) implies spec_constraints(
        #[trigger] spec_trace(inputs, log_size)[i],
    ) == Seq::new(2, |_k: int| M31(0)) by {
        if i < inputs.len() {
            lemma_row_satisfies_constraints(M31(1), inputs[i]);
        } else {
            lemma_row_satisfies_constraints(M31(0), zero_input());
        }
    }
}


/// The rows written from the bundles an import files under the component's
/// opcode satisfy every polynomial constraint of the component: each such
/// bundle's first word is that opcode.
pub proof fn lemma_import_rows_satisfy_constraints(
    trace: Seq<State>,
    memory_log: Seq<LoggedAccess>,
    initial_memory: Seq<M31>,
    formats: Seq<Option<OpcodeFormat>>,
    group: Seq<ExecutionBundle>,
    inputs: Seq<RowInput>,
    log_size: u32,
)
    requires
        formats_ok(formats),
        spec_run(start_view(trace, memory_log, initial_memory, formats), Seq::empty()).1 matches Ok(bundles)
            && group_by_opcode(bundles).contains_key(Opcode::JmpAbsAddFpImm.spec_id()) && group.map_values(
            |b: ExecutionBundle| b@,
        ) == group_by_opcode(bundles)[Opcode::JmpAbsAddFpImm.spec_id()],
        forall|i: int|
            0 <= i < inputs.len() ==> exists|j: int|
                0 <= j < group.len() && spec_row_input(group[j]) == Some(#[trigger] inputs[i]),
    ensures
        forall|i: int|
            0 <= i < rows_of(log_size as nat) ==> spec_constraints(#[trigger] spec_trace(inputs, log_size)[i])
                == Seq::new(2, |_k: int| M31(0)),
{
    lemma_import_groups(trace, memory_log, initial_memory, formats);
    let bundles = spec_run(start_view(trace, memory_log, initial_memory, formats), Seq::empty()).1->Ok_0;
    let k = Opcode::JmpAbsAddFpImm.spec_id();
    assert forall|i: int| 0 <= i < inputs.len() implies (#[trigger] inputs[i]).opcode_id == expected_opcode_id() by {
        let j = choose|j: int| 0 <= j < group.len() && spec_row_input(group[j]) == Some(inputs[i]);
        assert(group.map_values(|b: ExecutionBundle| b@)[j] == group[j]@);
        assert(group_by_opcode(bundles)[k][j] == group[j]@);
    }
    lemma_trace_satisfies_constraints(inputs, log_size);
}

} // verus!
