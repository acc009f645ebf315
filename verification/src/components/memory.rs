//! Component for the boundary memory: emits and consumes the initial and final
//! memory entries, and emits the leaves of the memory's Merkle trees.
//!
//! Columns: enabler, address, clock, the four coordinates of the value,
//! multiplicity and root.
use crate::components::{
    component_log_sizes, is_component_log_sizes, is_trace_log_size, rows_of, trace_log_size,
    SECURE_EXTENSION_DEGREE,
};
use crate::field::{fadd, fmod, fmul, fsub, M31, QM31};
use crate::merkle::TREE_HEIGHT;
use vstd::prelude::*;

verus! {

/// Number of trace columns.
pub const N_TRACE_COLUMNS: usize = 9;
/// Number of lookups into the memory relation per row.
pub const N_MEMORY_LOOKUPS: usize = 1;
/// Number of lookups into the Merkle relation per row.
pub const N_MERKLE_LOOKUPS: usize = 4;
/// Number of interaction columns: four per pair of lookups.
pub const N_INTERACTION_COLUMNS: usize = SECURE_EXTENSION_DEGREE * ((N_MEMORY_LOOKUPS + N_MERKLE_LOOKUPS + 1) / 2);

/// The claim of the component: the log size of its trace.
#[derive(Clone, Copy, Debug, Default, PartialEq, Eq, Structural)]
pub struct Claim {
    /// Log2 of the number of rows.
    pub log_size: u32,
}

impl Claim {
    /// The log sizes of the component's columns, tree by tree.
    pub fn log_sizes(&self) -> (r: Vec<Vec<u32>>)
        ensures
            is_component_log_sizes(r@, self.log_size, N_TRACE_COLUMNS as nat, N_INTERACTION_COLUMNS as nat),
    {
        component_log_sizes(self.log_size, N_TRACE_COLUMNS, N_INTERACTION_COLUMNS)
    }
}

/// The constraint evaluator of the component.
#[derive(Clone, Copy, Debug, PartialEq, Eq, Structural)]
pub struct Eval {
    /// The claim the evaluator checks.
    pub claim: Claim,
}

impl Eval {
    /// Log2 of the number of rows of the evaluated trace.
    pub fn log_size(&self) -> (r: u32)
        ensures
            r == self.claim.log_size,
    {
        self.claim.log_size
    }

    /// Bound on the log degree of the constraints: one more than the log size.
    pub fn max_constraint_log_degree_bound(&self) -> (r: u32)
        requires
            self.claim.log_size < u32::MAX,
        ensures
            r == self.claim.log_size + 1,
    {
        self.claim.log_size + 1
    }
}

/// One boundary entry as a row reads it: address, clock, the value, the
/// multiplicity, and the root of the tree the entry belongs to.
#[derive(Clone, Copy, Debug, PartialEq, Eq, Structural)]
pub struct MemoryRow {
    /// The address.
    pub address: M31,
    /// The clock of the entry.
    pub clock: M31,
    /// The value, in the extension field.
    pub value: QM31,
    /// The multiplicity with which the entry is emitted.
    pub multiplicity: M31,
    /// The root of the entry's Merkle tree.
    pub root: M31,
}

/// The row a padding row is written from: all zeros.
pub open spec fn zero_row() -> MemoryRow {
    MemoryRow {
        address: M31(0),
        clock: M31(0),
        value: QM31(M31(0), M31(0), M31(0), M31(0)),
        multiplicity: M31(0),
        root: M31(0),
    }
}

/// The entries of the component: each initial entry with the initial root,
/// then each final entry with the final root. An entry is an address and
/// its value, clock and multiplicity.
pub open spec fn spec_boundary_rows(
    initial: Seq<(M31, (QM31, M31, M31))>,
    final_entries: Seq<(M31, (QM31, M31, M31))>,
    initial_root: M31,
    final_root: M31,
) -> Seq<MemoryRow> {
    let row = |e: (M31, (QM31, M31, M31)), root: M31|
        MemoryRow { address: e.0, clock: e.1.1, value: e.1.0, multiplicity: e.1.2, root };
    initial.map_values(|e: (M31, (QM31, M31, M31))| row(e, initial_root)) + final_entries.map_values(
        |e: (M31, (QM31, M31, M31))| row(e, final_root),
    )
}

/// Lists the entries of the component from the initial and the final
/// entries; a root is needed only where its memory has entries.
pub fn boundary_rows(
    initial: &Vec<(M31, (QM31, M31, M31))>,
    final_entries: &Vec<(M31, (QM31, M31, M31))>,
    initial_root: Option<M31>,
    final_root: Option<M31>,
) -> (r: Vec<MemoryRow>)
    requires
        initial@.len() > 0 ==> initial_root is Some,
        final_entries@.len() > 0 ==> final_root is Some,
    ensures
        r@ == spec_boundary_rows(
            initial@,
            final_entries@,
            initial_root.unwrap_or(M31(0)),
            final_root.unwrap_or(M31(0)),
        ),
{
    let ghost (ir, fr) = (initial_root.unwrap_or(M31(0)), final_root.unwrap_or(M31(0)));
    let mut rows: Vec<MemoryRow> = Vec::new();
    let mut i: usize = 0;
    while i < initial.len()
        invariant
            i <= initial@.len(),
            initial@.len() > 0 ==> initial_root is Some,
            ir == initial_root.unwrap_or(M31(0)),
            rows@ == spec_boundary_rows(initial@.take(i as int), Seq::empty(), ir, fr),
        decreases initial@.len() - i,
    {
        let root = match initial_root {
            Some(root) => root,
            None => M31(0),
        };
        let (address, (value, clock, multiplicity)) = initial[i];
        rows.push(MemoryRow { address, clock, value, multiplicity, root });
        proof {
            assert(initial@.take(i + 1) =~= initial@.take(i as int).push(initial@[i as int]));
            assert(rows@ =~= spec_boundary_rows(initial@.take(i + 1), Seq::empty(), ir, fr));
        }
        i = i + 1;
    }
    let mut j: usize = 0;
    while j < final_entries.len()
        invariant
            j <= final_entries@.len(),
            final_entries@.len() > 0 ==> final_root is Some,
            fr == final_root.unwrap_or(M31(0)),
            rows@ == spec_boundary_rows(initial@, final_entries@.take(j as int), ir, fr),
        decreases final_entries@.len() - j,
    {
        let root = match final_root {
            Some(root) => root,
            None => M31(0),
        };
        let (address, (value, clock, multiplicity)) = final_entries[j];
        rows.push(MemoryRow { address, clock, value, multiplicity, root });
        proof {
            assert(final_entries@.take(j + 1) =~= final_entries@.take(j as int).push(final_entries@[j as int]));
            assert(rows@ =~= spec_boundary_rows(initial@, final_entries@.take(j + 1), ir, fr));
        }
        j = j + 1;
    }
    proof {
        assert(initial@.take(i as int) =~= initial@);
        assert(final_entries@.take(j as int) =~= final_entries@);
    }
    rows
}

/// The trace row of an entry with the given enabler: enabler, address,
/// clock, the four coordinates of the value, multiplicity and root.
pub open spec fn spec_trace_row(enabler: M31, e: MemoryRow) -> Seq<M31> {
    seq![enabler, e.address, e.clock, e.value.0, e.value.1, e.value.2, e.value.3, e.multiplicity, e.root]
}

/// Writes the trace row of an entry with the given enabler.
pub fn trace_row(enabler: M31, e: &MemoryRow) -> (r: [M31; 9])
    ensures
        r@ == spec_trace_row(enabler, *e),
{
    let v = e.value.to_m31_array();
    let r = [enabler, e.address, e.clock, v[0], v[1], v[2], v[3], e.multiplicity, e.root];
    assert(r@ =~= spec_trace_row(enabler, *e));
    r
}

/// The polynomial constraint of a row: the enabler is a boolean.
pub open spec fn spec_constraints(row: Seq<M31>) -> Seq<M31> {
    seq![fmul(row[0], fsub(M31(1), row[0]))]
}

/// What one row adds to the relations: the entry in the memory relation
/// (with the row's multiplicity), and the four leaves of its value in the
/// Merkle relation (each with multiplicity `-enabler`).
#[derive(Clone, Copy, Debug, PartialEq, Eq)]
pub struct RowLookups {
    /// `[address, clock, value]`.
    pub memory: [M31; 6],
    /// `[4 * address + j, TREE_HEIGHT, value_j, root]` for `j` from 0 to 3.
    pub merkle: [[M31; 4]; 4],
}

/// The leaf of coordinate `j` of the value in a row's columns.
pub open spec fn leaf_of(row: Seq<M31>, j: int) -> Seq<M31> {
    seq![fadd(fmul(row[1], M31(4)), M31(j as u32)), M31(TREE_HEIGHT), row[3 + j], row[8]]
}

/// The lookups the constraints add for a row, read off its columns.
pub open spec fn is_row_lookups(l: RowLookups, row: Seq<M31>) -> bool {
    &&& l.memory@ == row.subrange(1, 7)
    &&& l.merkle@.map_values(|x: [M31; 4]| x@) == seq![leaf_of(row, 0), leaf_of(row, 1), leaf_of(row, 2), leaf_of(row, 3)]
}

impl Eval {
    /// Evaluates the polynomial constraint of the component on one row of
    /// its trace.
    pub fn evaluate(&self, row: &[M31; 9]) -> (r: Vec<M31>)
        ensures
            r@ == spec_constraints(row@),
    {
        let e = row[0];
        let c = vec![e.mul(M31::one().sub(e))];
        assert(c@ =~= spec_constraints(row@));
        c
    }

    /// The lookups the constraints add for one row of the trace.
    pub fn lookups(&self, row: &[M31; 9]) -> (l: RowLookups)
        ensures
            is_row_lookups(l, row@),
    {
        let a4 = row[1].mul(M31(4));
        let height = M31(TREE_HEIGHT);
        let l = RowLookups {
            memory: [row[1], row[2], row[3], row[4], row[5], row[6]],
            merkle: [
                [a4, height, row[3], row[8]],
                [a4.add(M31(1)), height, row[4], row[8]],
                [a4.add(M31(2)), height, row[5], row[8]],
                [a4.add(M31(3)), height, row[6], row[8]],
            ],
        };
        proof {
            assert(a4 == fadd(a4, M31(0))) by {
                assert(fmod(a4.0 + 0) == a4.0) by {
                    vstd::arithmetic::div_mod::lemma_small_mod(a4.0 as nat, crate::field::P as nat);
                }
            }
            assert(l.memory@ =~= row@.subrange(1, 7));
            assert(l.merkle@.map_values(|x: [M31; 4]| x@) =~= seq![
                leaf_of(row@, 0),
                leaf_of(row@, 1),
                leaf_of(row@, 2),
                leaf_of(row@, 3),
            ]);
        }
        l
    }
}

/// The entry and enabler of row `i` of the trace written for `rows`: an
/// enabled row per entry, then disabled rows of zeros.
pub open spec fn padded_row(rows: Seq<MemoryRow>, i: int) -> (M31, MemoryRow) {
    if i < rows.len() {
        (M31(1), rows[i])
    } else {
        (M31(0), zero_row())
    }
}

/// What the interaction trace is built from: the lookups of every row and
/// the number of rows that hold an entry.
#[derive(Clone, Debug)]
pub struct InteractionClaimData {
    /// The lookups of each row of the trace.
    pub lookup_data: Vec<RowLookups>,
    /// The number of enabled rows.
    pub non_padded_length: usize,
}

impl Claim {
    /// Writes the trace of the component for its entries, padded to a power
    /// of two of at least `2^LOG_N_LANES` rows, its claim and the lookups of
    /// every row.
    pub fn write_trace(rows: &Vec<MemoryRow>) -> (r: (Claim, Vec<[M31; 9]>, InteractionClaimData))
        requires
            rows@.len() <= 0x8000_0000,
        ensures
            is_trace_log_size(rows@.len(), r.0.log_size),
            r.1@.len() == rows_of(r.0.log_size as nat),
            forall|i: int|
                0 <= i < r.1@.len() ==> (#[trigger] r.1@[i])@ == spec_trace_row(
                    padded_row(rows@, i).0,
                    padded_row(rows@, i).1,
                ),
            r.2.non_padded_length == rows@.len(),
            r.2.lookup_data@.len() == r.1@.len(),
            forall|i: int| 0 <= i < r.2.lookup_data@.len() ==> is_row_lookups(#[trigger] r.2.lookup_data@[i], r.1@[i]@),
    {
        let non_padded_length = rows.len();
        let (log_size, n_rows) = trace_log_size(non_padded_length);
        let z = M31(0);
        let padding = MemoryRow { address: z, clock: z, value: QM31(z, z, z, z), multiplicity: z, root: z };
        let eval = Eval { claim: Claim { log_size } };
        let mut trace: Vec<[M31; 9]> = Vec::new();
        let mut lookup_data: Vec<RowLookups> = Vec::new();
        let mut i: usize = 0;
        while i < n_rows
            invariant
                i <= n_rows,
                n_rows == rows_of(log_size as nat),
                padding == zero_row(),
                non_padded_length == rows@.len(),
                trace@.len() == i,
                lookup_data@.len() == i,
                forall|j: int|
                    0 <= j < i ==> (#[trigger] trace@[j])@ == spec_trace_row(
                        padded_row(rows@, j).0,
                        padded_row(rows@, j).1,
                    ),
                forall|j: int| 0 <= j < i ==> is_row_lookups(#[trigger] lookup_data@[j], trace@[j]@),
            decreases n_rows - i,
        {
            let (enabler, entry) = if i < non_padded_length {
                (M31(1), &rows[i])
            } else {
                (M31(0), &padding)
            };
            let row = trace_row(enabler, entry);
            lookup_data.push(eval.lookups(&row));
            trace.push(row);
            i = i + 1;
        }
        (Claim { log_size }, trace, InteractionClaimData { lookup_data, non_padded_length })
    }
}

/// The constraint vanishes on every row written with enabler 0 or 1.
pub proof fn lemma_row_satisfies_constraints(enabler: M31, e: MemoryRow)
    requires
        enabler == M31(0) || enabler == M31(1),
    ensures
        spec_constraints(spec_trace_row(enabler, e)) == seq![M31(0)],
{
    assert(fmod(0) == 0);
    assert(fmul(M31(1), fsub(M31(1), M31(1))) == M31(0));
    assert(fmul(M31(0), fsub(M31(1), M31(0))) == M31(0)) by {
        assert(0 * fsub(M31(1), M31(0)).0 == 0);
    }
    assert(spec_constraints(spec_trace_row(enabler, e)) =~= seq![M31(0)]);
}

} // verus!
