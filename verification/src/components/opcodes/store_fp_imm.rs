//! Component proving the StoreXFpImm opcodes:
//! - `[fp + dst_off] = [fp + src_off] + imm` (StoreAddFpImm);
//! - `[fp + dst_off] = [fp + src_off] - imm` (StoreSubFpImm);
//! - `[fp + dst_off] = [fp + src_off] * imm` (StoreMulFpImm);
//! - `[fp + dst_off] = [fp + src_off] / imm` (StoreDivFpImm).
//!
//! Two opcode flags select the operation; the row holds the product
//! `src * imm`, the inverse of `imm` (zero for zero) and the quotient
//! `src * imm_inv`, and the result is checked against the selected one.
use crate::instructions::Opcode;
use crate::memory::ExecutionBundle;
use crate::components::{
    component_log_sizes, is_component_log_sizes, is_trace_log_size, rows_of, trace_log_size,
    SECURE_EXTENSION_DEGREE,
};
use crate::field::{
    fadd, fmod, fmul, fsub, inv_or_zero, invertible, lemma_fmul_assoc, lemma_fmul_comm, lemma_fmul_one,
    M31, P,
};
use vstd::prelude::*;

verus! {

/// Number of trace columns.
pub const N_TRACE_COLUMNS: usize = 18;
/// Number of lookups into the memory relation per row.
pub const N_MEMORY_LOOKUPS: usize = 6;
/// Number of lookups into the registers relation per row.
pub const N_REGISTERS_LOOKUPS: usize = 2;
/// Number of 20-bit range checks per row.
pub const N_RANGE_CHECK_20_LOOKUPS: usize = 3;
/// Number of interaction columns: four per pair of lookups.
pub const N_LOOKUPS_COLUMNS: usize = SECURE_EXTENSION_DEGREE * ((N_MEMORY_LOOKUPS + N_REGISTERS_LOOKUPS + N_RANGE_CHECK_20_LOOKUPS + 1) / 2);

/// The claim of the component: the log size of its trace.
#[derive(Clone, Copy, Debug, Default, PartialEq, Eq, Structural)]
pub struct Claim {
    /// Log2 of the number of rows.
    pub log_size: u32,
}

impl Claim {
    /// The log sizes of the component's columns, tree by tree.
    pub fn log_sizes(&self) -> (r: Vec<Vec<u32>>)
        ensures
            is_component_log_sizes(r@, self.log_size, N_TRACE_COLUMNS as nat, N_LOOKUPS_COLUMNS as nat),
    {
        component_log_sizes(self.log_size, N_TRACE_COLUMNS, N_LOOKUPS_COLUMNS)
    }
}

/// The constraint evaluator of the component.
#[derive(Clone, Copy, Debug, PartialEq, Eq, Structural)]
pub struct Eval {
    /// The claim the evaluator checks.
    pub claim: Claim,
}

impl Eval {
    /// Log2 of the number of rows of the evaluated trace.
    pub fn log_size(&self) -> (r: u32)
        ensures
            r == self.claim.log_size,
    {
        self.claim.log_size
    }

    /// Bound on the log degree of the constraints: one more than the log size.
    pub fn max_constraint_log_degree_bound(&self) -> (r: u32)
        requires
            self.claim.log_size < u32::MAX,
        ensures
            r == self.claim.log_size + 1,
    {
        self.claim.log_size + 1
    }
}


// ---------------------------------------------------------------------------
// The trace and its constraints.

/// The operation of a StoreXFpImm instruction.
#[derive(Clone, Copy, Debug, PartialEq, Eq, Structural)]
pub enum FpImmOp {
    /// `src + imm`.
    Add,
    /// `src - imm`.
    Sub,
    /// `src * imm`.
    Mul,
    /// `src / imm`.
    Div,
}

/// The two opcode flags of an operation: Add `(0, 0)`, Sub `(0, 1)`,
/// Mul `(1, 0)`, Div `(1, 1)`.
pub open spec fn op_flags(op: FpImmOp) -> (M31, M31) {
    match op {
        FpImmOp::Add => (M31(0), M31(0)),
        FpImmOp::Sub => (M31(0), M31(1)),
        FpImmOp::Mul => (M31(1), M31(0)),
        FpImmOp::Div => (M31(1), M31(1)),
    }
}

/// The values a row of the trace is written from.
#[derive(Clone, Copy, Debug, PartialEq, Eq)]
pub struct RowInput {
    /// The operation.
    pub op: FpImmOp,
    /// Program counter.
    pub pc: M31,
    /// Frame pointer.
    pub fp: M31,
    /// Clock of the step.
    pub clock: M31,
    /// Clock of the previous access to the instruction.
    pub inst_prev_clock: M31,
    /// Offset of the source from `fp`.
    pub src_off: M31,
    /// The immediate operand.
    pub imm: M31,
    /// Offset of the destination from `fp`.
    pub dst_off: M31,
    /// Clock of the previous access to the source.
    pub src_prev_clock: M31,
    /// The source value.
    pub src_val: M31,
    /// Clock of the previous access to the destination.
    pub dst_prev_clock: M31,
    /// Previous value of the destination.
    pub dst_prev_val: M31,
    /// The value written to the destination.
    pub dst_val: M31,
}

/// The input of a padding row: an addition of zeros.
pub open spec fn zero_input() -> RowInput {
    RowInput {
        op: FpImmOp::Add,
        pc: M31(0),
        fp: M31(0),
        clock: M31(0),
        inst_prev_clock: M31(0),
        src_off: M31(0),
        imm: M31(0),
        dst_off: M31(0),
        src_prev_clock: M31(0),
        src_val: M31(0),
        dst_prev_clock: M31(0),
        dst_prev_val: M31(0),
        dst_val: M31(0),
    }
}

/// The destination value of a correct execution of the instruction. Zero
/// has no quotient: a division by zero is no correct execution.
pub open spec fn correct_result(i: RowInput) -> bool {
    match i.op {
        FpImmOp::Add => i.dst_val == fadd(i.src_val, i.imm),
        FpImmOp::Sub => i.dst_val == fsub(i.src_val, i.imm),
        FpImmOp::Mul => i.dst_val == fmul(i.src_val, i.imm),
        FpImmOp::Div => i.imm.0 != 0 && i.dst_val.wf() && fmul(i.dst_val, i.imm) == i.src_val,
    }
}

/// A row input the component can prove: canonical values, a correct
/// result, and an immediate that is zero or invertible.
pub open spec fn row_input_ok(i: RowInput) -> bool {
    &&& i.src_val.wf() && i.imm.wf()
    &&& i.imm.0 == 0 || invertible(i.imm)
    &&& correct_result(i)
}

/// The trace row written for `i` with the given enabler, column by column.
pub open spec fn spec_trace_row(enabler: M31, i: RowInput) -> Seq<M31> {
    let imm_inv = inv_or_zero(i.imm);
    let (f0, f1) = op_flags(i.op);
    seq![
        enabler, i.pc, i.fp, i.clock, i.inst_prev_clock, i.src_off, i.imm, i.dst_off,
        i.src_prev_clock, i.src_val, imm_inv, i.dst_prev_clock, i.dst_prev_val, i.dst_val,
        fmul(f0, enabler), fmul(f1, enabler), fmul(i.src_val, i.imm), fmul(i.src_val, imm_inv)
    ]
}

/// The two opcode flags of an operation.
fn flags_of(op: FpImmOp) -> (r: (M31, M31))
    ensures
        r == op_flags(op),
{
    match op {
        FpImmOp::Add => (M31(0), M31(0)),
        FpImmOp::Sub => (M31(0), M31(1)),
        FpImmOp::Mul => (M31(1), M31(0)),
        FpImmOp::Div => (M31(1), M31(1)),
    }
}

/// Writes the trace row for `input` with the given enabler.
pub fn trace_row(enabler: M31, input: &RowInput) -> (r: [M31; 18])
    requires
        input.imm.wf(),
    ensures
        r@ == spec_trace_row(enabler, *input),
{
    let imm_inv = input.imm.inverse_or_zero();
    let (f0, f1) = flags_of(input.op);
    let r = [
        enabler, input.pc, input.fp, input.clock, input.inst_prev_clock, input.src_off, input.imm, input.dst_off,
        input.src_prev_clock, input.src_val, imm_inv, input.dst_prev_clock, input.dst_prev_val, input.dst_val,
        f0.mul(enabler), f1.mul(enabler), input.src_val.mul(input.imm), input.src_val.mul(imm_inv),
    ];
    assert(r@ =~= spec_trace_row(enabler, *input));
    r
}

/// Booleanity of `b`: `b * (1 - b)`.
pub open spec fn boolean(b: M31) -> M31 {
    fmul(b, fsub(M31(1), b))
}

/// The result the flags select: `is_add * (src + imm) + is_sub * (src - imm)
/// + is_mul * prod + is_div * div`.
pub open spec fn selected_result(f0: M31, f1: M31, src: M31, imm: M31, prod: M31, div: M31) -> M31 {
    let one = M31(1);
    let is_add = fmul(fsub(one, f0), fsub(one, f1));
    let is_sub = fmul(fsub(one, f0), f1);
    let is_mul = fmul(f0, fsub(one, f1));
    let is_div = fmul(f0, f1);
    fadd(fadd(fadd(fmul(is_add, fadd(src, imm)), fmul(is_sub, fsub(src, imm))), fmul(is_mul, prod)), fmul(is_div, div))
}

/// The polynomial constraints of a row, each of which must vanish: the
/// enabler and the flags are booleans, `prod = src * imm`, `imm_inv` inverts
/// `imm` unless both are zero, `div = src * imm_inv`, and the destination
/// holds the [`selected_result`].
pub open spec fn spec_constraints(row: Seq<M31>) -> Seq<M31> {
    let one = M31(1);
    let (imm, src, imm_inv, dst) = (row[6], row[9], row[10], row[13]);
    let (f0, f1, prod, div) = (row[14], row[15], row[16], row[17]);
    seq![
        boolean(row[0]),
        boolean(f0),
        boolean(f1),
        fsub(prod, fmul(src, imm)),
        fmul(imm, fsub(fmul(imm_inv, imm), one)),
        fmul(imm_inv, fsub(fmul(imm_inv, imm), one)),
        fsub(div, fmul(src, imm_inv)),
        fsub(dst, selected_result(f0, f1, src, imm, prod, div))
    ]
}

/// Booleanity of `b`.
fn eval_boolean(b: M31) -> (r: M31)
    ensures
        r == boolean(b),
{
    b.mul(M31::one().sub(b))
}

impl Eval {
    /// Evaluates the polynomial constraints of the component on one row of
    /// its trace, in the order [`spec_constraints`] lists them.
    pub fn evaluate(&self, row: &[M31; 18]) -> (r: Vec<M31>)
        ensures
            r@ == spec_constraints(row@),
    {
        let one = M31::one();
        let (imm, src, imm_inv, dst) = (row[6], row[9], row[10], row[13]);
        let (f0, f1, prod, div) = (row[14], row[15], row[16], row[17]);
        let is_add = one.sub(f0).mul(one.sub(f1));
        let is_sub = one.sub(f0).mul(f1);
        let is_mul = f0.mul(one.sub(f1));
        let is_div = f0.mul(f1);
        let res = is_add.mul(src.add(imm)).add(is_sub.mul(src.sub(imm))).add(is_mul.mul(prod)).add(is_div.mul(div));
        let c = vec![
            eval_boolean(row[0]),
            eval_boolean(f0),
            eval_boolean(f1),
            prod.sub(src.mul(imm)),
            imm.mul(imm_inv.mul(imm).sub(one)),
            imm_inv.mul(imm_inv.mul(imm).sub(one)),
            div.sub(src.mul(imm_inv)),
            dst.sub(res),
        ];
        assert(c@ =~= spec_constraints(row@));
        c
    }
}


/// Small identities of the field used on the rows: multiplication by zero
/// and one, addition of zero, and `x - x`.
proof fn lemma_field_identities()
    ensures
        forall|x: M31| #[trigger] fmul(M31(0), x) == M31(0),
        forall|x: M31| #[trigger] fmul(x, M31(0)) == M31(0),
        forall|x: M31| x.wf() ==> #[trigger] fmul(M31(1), x) == x,
        forall|x: M31| x.wf() ==> #[trigger] fmul(x, M31(1)) == x,
        forall|x: M31| x.wf() ==> #[trigger] fadd(x, M31(0)) == x,
        forall|x: M31| x.wf() ==> #[trigger] fadd(M31(0), x) == x,
        forall|x: M31| #[trigger] fsub(x, x) == M31(0),
        fsub(M31(1), M31(0)) == M31(1),
{
    assert forall|v: int| 0 <= v < P implies #[trigger] fmod(v) == v by {
        vstd::arithmetic::div_mod::lemma_small_mod(v as nat, P as nat);
    }
    assert forall|x: M31| #[trigger] fmul(M31(0), x) == M31(0) by {
        assert(0 * x.0 == 0);
    }
    assert forall|x: M31| #[trigger] fmul(x, M31(0)) == M31(0) by {
        assert(x.0 * 0 == 0);
    }
    assert forall|x: M31| x.wf() implies #[trigger] fmul(M31(1), x) == x by {
        lemma_fmul_one(x);
    }
    assert forall|x: M31| x.wf() implies #[trigger] fmul(x, M31(1)) == x by {
        lemma_fmul_one(x);
    }
}

/// The inverse column inverts the immediate, or both are zero.
proof fn lemma_inverse_column(imm: M31)
    requires
        imm.0 == 0 || invertible(imm),
    ensures
        imm.0 == 0 ==> inv_or_zero(imm) == M31(0),
        invertible(imm) ==> inv_or_zero(imm).wf() && fmul(imm, inv_or_zero(imm)) == M31(1)
            && fmul(inv_or_zero(imm), imm) == M31(1),
{
    if imm.0 == 0 {
        lemma_field_identities();
        assert(imm == M31(0));
        assert(!invertible(imm));
    }
    if invertible(imm) {
        lemma_fmul_comm(imm, inv_or_zero(imm));
    }
}

/// Every polynomial constraint vanishes on the enabled row written for an
/// instruction the component can prove, and on the padding row.
pub proof fn lemma_row_satisfies_constraints(enabler: M31, input: RowInput)
    requires
        (enabler == M31(1) && row_input_ok(input)) || (enabler == M31(0) && input == zero_input()),
    ensures
        spec_constraints(spec_trace_row(enabler, input)) == Seq::new(8, |_k: int| M31(0)),
{
    let row = spec_trace_row(enabler, input);
    lemma_field_identities();
    let one = M31(1);
    let (f0, f1) = op_flags(input.op);
    assert(fmul(f0, enabler) == if enabler == M31(1) { f0 } else { M31(0) });
    assert(fmul(f1, enabler) == if enabler == M31(1) { f1 } else { M31(0) });
    assert(boolean(M31(0)) == M31(0));
    assert(boolean(M31(1)) == M31(0));
    lemma_inverse_column(input.imm);
    let imm_inv = inv_or_zero(input.imm);
    let (src, imm) = (input.src_val, input.imm);
    let prod = fmul(src, imm);
    let div = fmul(src, imm_inv);
    assert(fmul(imm, fsub(fmul(imm_inv, imm), one)) == M31(0));
    assert(fmul(imm_inv, fsub(fmul(imm_inv, imm), one)) == M31(0));
    let (g0, g1) = (row[14], row[15]);
    let res = selected_result(g0, g1, src, imm, prod, div);
    if enabler == M31(1) {
        match input.op {
            FpImmOp::Add => {
                assert(res == fadd(src, imm));
            },
            FpImmOp::Sub => {
                assert(res == fsub(src, imm));
            },
            FpImmOp::Mul => {
                assert(res == prod);
            },
            FpImmOp::Div => {
                assert(res == div);
                lemma_fmul_assoc(input.dst_val, imm, imm_inv);
            },
        }
    } else {
        assert(res == M31(0));
    }
    assert(fsub(input.dst_val, res) == M31(0));
    assert(spec_constraints(row) =~= Seq::new(8, |_k: int| M31(0)));
}

/// The trace written for `inputs` at `log_size`: an enabled row per input,
/// then disabled rows of zeros up to `2^log_size` rows.
pub open spec fn spec_trace(inputs: Seq<RowInput>, log_size: u32) -> Seq<Seq<M31>> {
    Seq::new(
        rows_of(log_size as nat),
        |i: int|
            if i < inputs.len() {
                spec_trace_row(M31(1), inputs[i])
            } else {
                spec_trace_row(M31(0), zero_input())
            },
    )
}

/// The opcode number of an operation's instruction.
pub open spec fn op_opcode(op: FpImmOp) -> M31 {
    match op {
        FpImmOp::Add => M31(Opcode::StoreAddFpImm.spec_id()),
        FpImmOp::Sub => M31(Opcode::StoreSubFpImm.spec_id()),
        FpImmOp::Mul => M31(Opcode::StoreMulFpImm.spec_id()),
        FpImmOp::Div => M31(Opcode::StoreDivFpImm.spec_id()),
    }
}

/// The opcode number of an operation's instruction.
fn op_opcode_exec(op: FpImmOp) -> (r: M31)
    ensures
        r == op_opcode(op),
{
    match op {
        FpImmOp::Add => M31(Opcode::StoreAddFpImm.id()),
        FpImmOp::Sub => M31(Opcode::StoreSubFpImm.id()),
        FpImmOp::Mul => M31(Opcode::StoreMulFpImm.id()),
        FpImmOp::Div => M31(Opcode::StoreDivFpImm.id()),
    }
}

/// What one row adds to the relations: the register update, the six memory
/// accesses and the clock gaps range-checked on 20 bits.
#[derive(Clone, Copy, Debug, PartialEq, Eq)]
pub struct RowLookups {
    /// `[pc, fp]` before and after the step.
    pub registers: [[M31; 2]; 2],
    /// The instruction and the source read, then the destination written;
    /// each access as its previous state then its new state.
    pub memory: [[M31; 6]; 6],
    /// The clock gap of each access.
    pub range_check_20: [M31; 3],
}

/// `l` holds the lookups of the row written for `i` with the given enabler:
/// the registers `[pc, fp]` then `[pc + 1, fp]`; the instruction word (with
/// the operation's opcode) and `[fp + src_off]` read; `[fp + dst_off]`
/// written with the result; each access first with its previous clock then
/// with the row's clock; each clock gap less the enabler.
pub open spec fn is_row_lookups(l: RowLookups, enabler: M31, i: RowInput) -> bool {
    let z = M31(0);
    let op = op_opcode(i.op);
    let src = fadd(i.fp, i.src_off);
    let dst = fadd(i.fp, i.dst_off);
    &&& l.registers@.map_values(|e: [M31; 2]| e@) == seq![seq![i.pc, i.fp], seq![fadd(i.pc, M31(1)), i.fp]]
    &&& l.memory@.map_values(|e: [M31; 6]| e@) == seq![
        seq![i.pc, i.inst_prev_clock, op, i.src_off, i.imm, i.dst_off],
        seq![i.pc, i.clock, op, i.src_off, i.imm, i.dst_off],
        seq![src, i.src_prev_clock, i.src_val, z, z, z],
        seq![src, i.clock, i.src_val, z, z, z],
        seq![dst, i.dst_prev_clock, i.dst_prev_val, z, z, z],
        seq![dst, i.clock, i.dst_val, z, z, z],
    ]
    &&& l.range_check_20@ == seq![
        fsub(fsub(i.clock, i.inst_prev_clock), enabler),
        fsub(fsub(i.clock, i.src_prev_clock), enabler),
        fsub(fsub(i.clock, i.dst_prev_clock), enabler),
    ]
}

/// Writes the lookups of the row for `input` with the given enabler.
pub fn row_lookups(enabler: M31, input: &RowInput) -> (l: RowLookups)
    ensures
        is_row_lookups(l, enabler, *input),
{
    let z = M31(0);
    let op = op_opcode_exec(input.op);
    let src = input.fp.add(input.src_off);
    let dst = input.fp.add(input.dst_off);
    let l = RowLookups {
        registers: [[input.pc, input.fp], [input.pc.add(M31(1)), input.fp]],
        memory: [
            [input.pc, input.inst_prev_clock, op, input.src_off, input.imm, input.dst_off],
            [input.pc, input.clock, op, input.src_off, input.imm, input.dst_off],
            [src, input.src_prev_clock, input.src_val, z, z, z],
            [src, input.clock, input.src_val, z, z, z],
            [dst, input.dst_prev_clock, input.dst_prev_val, z, z, z],
            [dst, input.clock, input.dst_val, z, z, z],
        ],
        range_check_20: [
            input.clock.sub(input.inst_prev_clock).sub(enabler),
            input.clock.sub(input.src_prev_clock).sub(enabler),
            input.clock.sub(input.dst_prev_clock).sub(enabler),
        ],
    };
    assert(l.registers@.map_values(|e: [M31; 2]| e@) =~= seq![
        seq![input.pc, input.fp],
        seq![fadd(input.pc, M31(1)), input.fp],
    ]);
    assert(l.memory@.map_values(|e: [M31; 6]| e@) =~= seq![
        seq![input.pc, input.inst_prev_clock, op, input.src_off, input.imm, input.dst_off],
        seq![input.pc, input.clock, op, input.src_off, input.imm, input.dst_off],
        seq![src, input.src_prev_clock, input.src_val, z, z, z],
        seq![src, input.clock, input.src_val, z, z, z],
        seq![dst, input.dst_prev_clock, input.dst_prev_val, z, z, z],
        seq![dst, input.clock, input.dst_val, z, z, z],
    ]);
    assert(l.range_check_20@ =~= seq![
        fsub(fsub(input.clock, input.inst_prev_clock), enabler),
        fsub(fsub(input.clock, input.src_prev_clock), enabler),
        fsub(fsub(input.clock, input.dst_prev_clock), enabler),
    ]);
    l
}

/// The enabler and the input of row `i` of the trace written for `inputs`:
/// an enabled row per input, then disabled rows of zeros.
pub open spec fn padded_row(inputs: Seq<RowInput>, i: int) -> (M31, RowInput) {
    if i < inputs.len() {
        (M31(1), inputs[i])
    } else {
        (M31(0), zero_input())
    }
}

/// What the interaction trace is built from: the lookups of every row and
/// the number of rows that hold an input.
#[derive(Clone, Debug)]
pub struct InteractionClaimData {
    /// The lookups of each row of the trace.
    pub lookup_data: Vec<RowLookups>,
    /// The number of enabled rows.
    pub non_padded_length: usize,
}

impl Claim {
    /// Writes the trace of the component for `inputs`, padded to a power of
    /// two of at least `2^LOG_N_LANES` rows, its claim and the lookups of
    /// every row (padding rows, written from zero inputs, hold the add
    /// opcode). The inputs are consumed: `inputs` is left empty.
    pub fn write_trace(inputs: &mut Vec<RowInput>) -> (r: (Claim, Vec<[M31; 18]>, InteractionClaimData))
        requires
            old(inputs)@.len() <= 0x8000_0000,
            forall|i: int| 0 <= i < old(inputs)@.len() ==> (#[trigger] old(inputs)@[i]).imm.wf(),
        ensures
            is_trace_log_size(old(inputs)@.len(), r.0.log_size),
            r.1@.len() == rows_of(r.0.log_size as nat),
            forall|i: int| 0 <= i < r.1@.len() ==> (#[trigger] r.1@[i])@ == spec_trace(old(inputs)@, r.0.log_size)[i],
            r.2.non_padded_length == old(inputs)@.len(),
            r.2.lookup_data@.len() == rows_of(r.0.log_size as nat),
            forall|i: int|
                0 <= i < r.2.lookup_data@.len() ==> is_row_lookups(
                    #[trigger] r.2.lookup_data@[i],
                    padded_row(old(inputs)@, i).0,
                    padded_row(old(inputs)@, i).1,
                ),
            final(inputs)@.len() == 0,
    {
        let non_padded_length = inputs.len();
        let (log_size, n_rows) = trace_log_size(non_padded_length);
        let z = M31(0);
        let padding = RowInput {
            op: FpImmOp::Add,
            pc: z,
            fp: z,
            clock: z,
            inst_prev_clock: z,
            src_off: z,
            imm: z,
            dst_off: z,
            src_prev_clock: z,
            src_val: z,
            dst_prev_clock: z,
            dst_prev_val: z,
            dst_val: z,
        };
        let mut rows: Vec<[M31; 18]> = Vec::new();
        let mut lookup_data: Vec<RowLookups> = Vec::new();
        let mut i: usize = 0;
        while i < n_rows
            invariant
                i <= n_rows,
                n_rows == rows_of(log_size as nat),
                padding == zero_input(),
                inputs@ == old(inputs)@,
                non_padded_length == inputs@.len(),
                forall|j: int| 0 <= j < inputs@.len() ==> (#[trigger] inputs@[j]).imm.wf(),
                rows@.len() == i,
                lookup_data@.len() == i,
                forall|j: int| 0 <= j < i ==> (#[trigger] rows@[j])@ == spec_trace(inputs@, log_size)[j],
                forall|j: int|
                    0 <= j < i ==> is_row_lookups(
                        #[trigger] lookup_data@[j],
                        padded_row(inputs@, j).0,
                        padded_row(inputs@, j).1,
                    ),
            decreases n_rows - i,
        {
            let (enabler, input) = if i < non_padded_length {
                (M31(1), &inputs[i])
            } else {
                (M31(0), &padding)
            };
            rows.push(trace_row(enabler, input));
            lookup_data.push(row_lookups(enabler, input));
            i = i + 1;
        }
        inputs.clear();
        (Claim { log_size }, rows, InteractionClaimData { lookup_data, non_padded_length })
    }
}

/// Every row of a written trace satisfies every polynomial constraint of the
/// component, when each input is an instruction the component can prove.
pub proof fn lemma_trace_satisfies_constraints(inputs: Seq<RowInput>, log_size: u32)
    requires
        forall|i: int| 0 <= i < inputs.len() ==> row_input_ok(#[trigger] inputs[i]),
    ensures
        forall|i: int|
            0 <= i < rows_of(log_size as nat) ==> spec_constraints(#[trigger] spec_trace(inputs, log_size)[i])
                == Seq::new(8, |_k: int| M31(0)),
{
    assert forall|i: int| 0 <= i < rows_of(log_size as nat) implies spec_constraints(
        #[trigger] spec_trace(inputs, log_size)[i],
    ) == Seq::new(8, |_k: int| M31(0)) by {
        if i < inputs.len() {
            lemma_row_satisfies_constraints(M31(1), inputs[i]);
        } else {
            lemma_row_satisfies_constraints(M31(0), zero_input());
        }
    }
}


/// The operation an opcode number stands for, if it is a StoreXFpImm opcode.
pub open spec fn spec_op_of(opcode: u32) -> Option<FpImmOp> {
    if opcode == Opcode::StoreAddFpImm.spec_id() {
        Some(FpImmOp::Add)
    } else if opcode == Opcode::StoreSubFpImm.spec_id() {
        Some(FpImmOp::Sub)
    } else if opcode == Opcode::StoreMulFpImm.spec_id() {
        Some(FpImmOp::Mul)
    } else if opcode == Opcode::StoreDivFpImm.spec_id() {
        Some(FpImmOp::Div)
    } else {
        None
    }
}

/// The row input of an execution bundle: the registers and clocks, the
/// instruction's `src_off`, `imm` and `dst_off` (words 1 to 3), the source
/// read (operand 0) and the destination write (operand 1). None when the
/// bundle is not a StoreXFpImm instruction with its two operands.
pub open spec fn spec_row_input(b: ExecutionBundle) -> Option<RowInput> {
    let words = b.instruction.instruction.words@;
    match (spec_op_of(b.instruction.instruction.opcode), b.operands[0], b.operands[1]) {
        (Some(op), Some(src), Some(dst)) => if words.len() >= 4 {
            Some(
                RowInput {
                    op,
                    pc: b.registers.pc,
                    fp: b.registers.fp,
                    clock: b.clock,
                    inst_prev_clock: b.instruction.prev_clock,
                    src_off: words[1],
                    imm: words[2],
                    dst_off: words[3],
                    src_prev_clock: src.prev_clock,
                    src_val: src.value.limb0,
                    dst_prev_clock: dst.prev_clock,
                    dst_prev_val: dst.prev_value.limb0,
                    dst_val: dst.value.limb0,
                },
            )
        } else {
            None
        },
        _ => None,
    }
}

/// The operation of an opcode number.
fn op_of(opcode: u32) -> (r: Option<FpImmOp>)
    ensures
        r == spec_op_of(opcode),
{
    if opcode == Opcode::StoreAddFpImm.id() {
        Some(FpImmOp::Add)
    } else if opcode == Opcode::StoreSubFpImm.id() {
        Some(FpImmOp::Sub)
    } else if opcode == Opcode::StoreMulFpImm.id() {
        Some(FpImmOp::Mul)
    } else if opcode == Opcode::StoreDivFpImm.id() {
        Some(FpImmOp::Div)
    } else {
        None
    }
}

/// Reads the row input of an execution bundle.
pub fn row_input(bundle: &ExecutionBundle) -> (r: Option<RowInput>)
    ensures
        r == spec_row_input(*bundle),
{
    let words = &bundle.instruction.instruction.words;
    match (op_of(bundle.instruction.instruction.opcode), bundle.operands[0], bundle.operands[1]) {
        (Some(op), Some(src), Some(dst)) => if words.len() >= 4 {
            Some(
                RowInput {
                    op,
                    pc: bundle.registers.pc,
                    fp: bundle.registers.fp,
                    clock: bundle.clock,
                    inst_prev_clock: bundle.instruction.prev_clock,
                    src_off: words[1],
                    imm: words[2],
                    dst_off: words[3],
                    src_prev_clock: src.prev_clock,
                    src_val: src.value.limb0,
                    dst_prev_clock: dst.prev_clock,
                    dst_prev_val: dst.prev_value.limb0,
                    dst_val: dst.value.limb0,
                },
            )
        } else {
            None
        },
        _ => None,
    }
}

} // verus!
