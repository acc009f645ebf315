//! Component adding intermediate memory accesses for large clock gaps.
//!
//! Columns: enabler, address, previous clock, and the four coordinates of the
//! value. Each row consumes `[address, prev_clock, value]` and emits
//! `[address, prev_clock + RC20_LIMIT, value]` in the memory relation.
use crate::components::{
    component_log_sizes, is_component_log_sizes, is_trace_log_size, rows_of, trace_log_size,
    SECURE_EXTENSION_DEGREE,
};
use crate::field::{fadd, fmod, fmul, fsub, M31, QM31};
use crate::memory::{spec_update_clock, RC20_LIMIT};
use vstd::prelude::*;

verus! {

/// Number of trace columns.
pub const N_TRACE_COLUMNS: usize = 7;
/// Number of lookups into the memory relation per row.
pub const N_MEMORY_LOOKUPS: usize = 2;
/// Number of interaction columns: four per pair of lookups.
pub const N_INTERACTION_COLUMNS: usize = SECURE_EXTENSION_DEGREE * ((N_MEMORY_LOOKUPS + 1) / 2);

/// The claim of the component: the log size of its trace.
#[derive(Clone, Copy, Debug, Default, PartialEq, Eq, Structural)]
pub struct Claim {
    /// Log2 of the number of rows.
    pub log_size: u32,
}

impl Claim {
    /// The log sizes of the component's columns, tree by tree.
    pub fn log_sizes(&self) -> (r: Vec<Vec<u32>>)
        ensures
            is_component_log_sizes(r@, self.log_size, N_TRACE_COLUMNS as nat, N_INTERACTION_COLUMNS as nat),
    {
        component_log_sizes(self.log_size, N_TRACE_COLUMNS, N_INTERACTION_COLUMNS)
    }
}

/// The constraint evaluator of the component.
#[derive(Clone, Copy, Debug, PartialEq, Eq, Structural)]
pub struct Eval {
    /// The claim the evaluator checks.
    pub claim: Claim,
}

impl Eval {
    /// Log2 of the number of rows of the evaluated trace.
    pub fn log_size(&self) -> (r: u32)
        ensures
            r == self.claim.log_size,
    {
        self.claim.log_size
    }

    /// Bound on the log degree of the constraints: one more than the log size.
    pub fn max_constraint_log_degree_bound(&self) -> (r: u32)
        requires
            self.claim.log_size < u32::MAX,
        ensures
            r == self.claim.log_size + 1,
    {
        self.claim.log_size + 1
    }
}


// ---------------------------------------------------------------------------
// The trace, its constraint and its lookups.

/// The trace row of one clock update with the given enabler: enabler,
/// address, previous clock, the four coordinates of the value.
pub open spec fn spec_trace_row(enabler: M31, update: (M31, M31, QM31)) -> Seq<M31> {
    seq![enabler, update.0, update.1, update.2.0, update.2.1, update.2.2, update.2.3]
}

/// The update a padding row is written from: all zeros.
pub open spec fn zero_update() -> (M31, M31, QM31) {
    (M31(0), M31(0), QM31(M31(0), M31(0), M31(0), M31(0)))
}

/// Writes the trace row of one clock update with the given enabler.
pub fn trace_row(enabler: M31, update: &(M31, M31, QM31)) -> (r: [M31; 7])
    ensures
        r@ == spec_trace_row(enabler, *update),
{
    let v = update.2.to_m31_array();
    let r = [enabler, update.0, update.1, v[0], v[1], v[2], v[3]];
    assert(r@ =~= spec_trace_row(enabler, *update));
    r
}

/// The polynomial constraint of a row: the enabler is a boolean.
pub open spec fn spec_constraints(row: Seq<M31>) -> Seq<M31> {
    seq![fmul(row[0], fsub(M31(1), row[0]))]
}

impl Eval {
    /// Evaluates the polynomial constraint of the component on one row of
    /// its trace.
    pub fn evaluate(&self, row: &[M31; 7]) -> (r: Vec<M31>)
        ensures
            r@ == spec_constraints(row@),
    {
        let e = row[0];
        let c = vec![e.mul(M31::one().sub(e))];
        assert(c@ =~= spec_constraints(row@));
        c
    }
}

/// The memory lookups of a row: the access consumed at the previous clock
/// and the one emitted `RC20_LIMIT` later, with the same address and value.
pub open spec fn spec_memory_lookups(update: (M31, M31, QM31)) -> Seq<Seq<M31>> {
    let v = update.2;
    seq![
        seq![update.0, update.1, v.0, v.1, v.2, v.3],
        seq![update.0, fadd(update.1, M31(RC20_LIMIT)), v.0, v.1, v.2, v.3]
    ]
}

/// Writes the memory lookups of the row of one clock update.
pub fn row_lookups(update: &(M31, M31, QM31)) -> (r: [[M31; 6]; 2])
    ensures
        r@.map_values(|e: [M31; 6]| e@) == spec_memory_lookups(*update),
{
    let v = update.2.to_m31_array();
    let later = update.1.add(M31(RC20_LIMIT));
    let r = [[update.0, update.1, v[0], v[1], v[2], v[3]], [update.0, later, v[0], v[1], v[2], v[3]]];
    assert(r@.map_values(|e: [M31; 6]| e@) =~= spec_memory_lookups(*update));
    r
}

/// The enabler and the update of row `i` of the trace written for `updates`:
/// an enabled row per update, then disabled rows of zeros.
pub open spec fn padded_row(updates: Seq<(M31, M31, QM31)>, i: int) -> (M31, (M31, M31, QM31)) {
    if i < updates.len() {
        (M31(1), updates[i])
    } else {
        (M31(0), zero_update())
    }
}

/// What the interaction trace is built from: the memory lookups of every
/// row and the number of rows that hold an update.
#[derive(Clone, Debug)]
pub struct InteractionClaimData {
    /// The two memory lookups of each row of the trace.
    pub lookup_data: Vec<[[M31; 6]; 2]>,
    /// The number of enabled rows.
    pub non_padded_length: usize,
}

impl Claim {
    /// Writes the trace of the component for the clock updates, padded to a
    /// power of two of at least `2^LOG_N_LANES` rows, its claim and the
    /// lookups of every row.
    pub fn write_trace(clock_update_data: &Vec<(M31, M31, QM31)>) -> (r: (Claim, Vec<[M31; 7]>, InteractionClaimData))
        requires
            clock_update_data@.len() <= 0x8000_0000,
        ensures
            is_trace_log_size(clock_update_data@.len(), r.0.log_size),
            r.1@.len() == rows_of(r.0.log_size as nat),
            forall|i: int|
                0 <= i < r.1@.len() ==> (#[trigger] r.1@[i])@ == spec_trace_row(
                    padded_row(clock_update_data@, i).0,
                    padded_row(clock_update_data@, i).1,
                ),
            r.2.non_padded_length == clock_update_data@.len(),
            r.2.lookup_data@.len() == rows_of(r.0.log_size as nat),
            forall|i: int|
                0 <= i < r.2.lookup_data@.len() ==> (#[trigger] r.2.lookup_data@[i])@.map_values(
                    |e: [M31; 6]| e@,
                ) == spec_memory_lookups(padded_row(clock_update_data@, i).1),
    {
        let non_padded_length = clock_update_data.len();
        let (log_size, n_rows) = trace_log_size(non_padded_length);
        let z = M31(0);
        let padding = (z, z, QM31(z, z, z, z));
        let mut rows: Vec<[M31; 7]> = Vec::new();
        let mut lookup_data: Vec<[[M31; 6]; 2]> = Vec::new();
        let mut i: usize = 0;
        while i < n_rows
            invariant
                i <= n_rows,
                n_rows == rows_of(log_size as nat),
                padding == zero_update(),
                non_padded_length == clock_update_data@.len(),
                rows@.len() == i,
                lookup_data@.len() == i,
                forall|j: int|
                    0 <= j < i ==> (#[trigger] rows@[j])@ == spec_trace_row(
                        padded_row(clock_update_data@, j).0,
                        padded_row(clock_update_data@, j).1,
                    ),
                forall|j: int|
                    0 <= j < i ==> (#[trigger] lookup_data@[j])@.map_values(|e: [M31; 6]| e@)
                        == spec_memory_lookups(padded_row(clock_update_data@, j).1),
            decreases n_rows - i,
        {
            let (enabler, update) = if i < non_padded_length {
                (M31(1), &clock_update_data[i])
            } else {
                (M31(0), &padding)
            };
            rows.push(trace_row(enabler, update));
            lookup_data.push(row_lookups(update));
            i = i + 1;
        }
        (Claim { log_size }, rows, InteractionClaimData { lookup_data, non_padded_length })
    }
}

/// The constraint vanishes on every row written with enabler 0 or 1.
pub proof fn lemma_row_satisfies_constraints(enabler: M31, update: (M31, M31, QM31))
    requires
        enabler == M31(0) || enabler == M31(1),
    ensures
        spec_constraints(spec_trace_row(enabler, update)) == seq![M31(0)],
{
    assert(fmod(0) == 0);
    assert(fmul(M31(1), fsub(M31(1), M31(1))) == M31(0));
    assert(fmul(M31(0), fsub(M31(1), M31(0))) == M31(0)) by {
        assert(0 * fsub(M31(1), M31(0)).0 == 0);
    }
    assert(spec_constraints(spec_trace_row(enabler, update)) =~= seq![M31(0)]);
}

/// The clock updates of one access chain in the memory relation: the access
/// each update emits, `RC20_LIMIT` after its clock, is the one the next
/// update consumes, so a run of updates carries a cell from the previous
/// clock of the access up to the last update's clock plus `RC20_LIMIT`.
pub proof fn lemma_clock_updates_chain(address: M31, prev_clock: M31, value: QM31, i: int)
    requires
        0 <= i,
    ensures
        spec_memory_lookups((address, spec_update_clock(prev_clock, i), value))[1] == spec_memory_lookups(
            (address, spec_update_clock(prev_clock, i + 1), value),
        )[0],
{
    let p = crate::field::P as int;
    let c = prev_clock.0 + i * (RC20_LIMIT as int);
    if i > 0 {
        vstd::arithmetic::div_mod::lemma_add_mod_noop(c, RC20_LIMIT as int, p);
        vstd::arithmetic::div_mod::lemma_small_mod(RC20_LIMIT as nat, p as nat);
        vstd::arithmetic::div_mod::lemma_mod_twice(c, p);
        assert(fadd(spec_update_clock(prev_clock, i), M31(RC20_LIMIT)) == spec_update_clock(prev_clock, i + 1));
    }
}

} // verus!
