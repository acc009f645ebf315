//! The AIR components of the prover: per component, its claim (the log size
//! of its trace), the shape of its trace, and the per-row witness arithmetic;
//! for several components, the rows of the trace, the evaluation of the
//! polynomial constraints on a row, and the proof that every written row
//! satisfies them.
//!
//! Every component has one empty preprocessed tree, a trace tree of
//! `N_TRACE_COLUMNS` columns and an interaction tree whose columns hold the
//! logup fractions of its lookups, all columns of the component's log size.
use vstd::prelude::*;

pub mod chips;
pub mod clock_update;
pub mod memory;
pub mod merkle;
pub mod opcodes;
pub mod poseidon;
pub mod poseidon2;
pub mod sha256;
pub mod store_deref_fp;

verus! {

/// Number of base-field coordinates of a secure-field element.
pub const SECURE_EXTENSION_DEGREE: usize = 4;

/// Log of the number of rows packed together by the trace backend.
pub const LOG_N_LANES: u32 = 4;

/// The log sizes of a component's three trees: nothing preprocessed,
/// `n_trace` trace columns and `n_interaction` interaction columns, each of
/// `log_size`.
pub open spec fn is_component_log_sizes(r: Seq<Vec<u32>>, log_size: u32, n_trace: nat, n_interaction: nat) -> bool {
    &&& r.len() == 3
    &&& r[0]@ == Seq::<u32>::empty()
    &&& r[1]@ == Seq::new(n_trace, |_i: int| log_size)
    &&& r[2]@ == Seq::new(n_interaction, |_i: int| log_size)
}

/// `n` copies of `log_size`.
fn repeat_log_size(log_size: u32, n: usize) -> (r: Vec<u32>)
    ensures
        r@ == Seq::new(n as nat, |_i: int| log_size),
{
    let mut v: Vec<u32> = Vec::new();
    let mut i: usize = 0;
    while i < n
        invariant
            i <= n,
            v@ == Seq::new(i as nat, |_i: int| log_size),
        decreases n - i,
    {
        v.push(log_size);
        i = i + 1;
        assert(v@ =~= Seq::new(i as nat, |_i: int| log_size));
    }
    v
}

/// The log sizes of a component's trees: no preprocessed column, then the
/// trace and interaction columns, all of `log_size`.
pub fn component_log_sizes(log_size: u32, n_trace: usize, n_interaction: usize) -> (r: Vec<Vec<u32>>)
    ensures
        is_component_log_sizes(r@, log_size, n_trace as nat, n_interaction as nat),
{
    let mut trees: Vec<Vec<u32>> = Vec::new();
    trees.push(Vec::new());
    trees.push(repeat_log_size(log_size, n_trace));
    trees.push(repeat_log_size(log_size, n_interaction));
    trees
}

/// `2^k`, the number of rows of a trace of log size `k`.
pub open spec fn rows_of(k: nat) -> nat
    decreases k,
{
    if k == 0 {
        1
    } else {
        2 * rows_of((k - 1) as nat)
    }
}

/// `k` is the log size of a trace holding `n` rows: the smallest `k`, at
/// least [`LOG_N_LANES`], with `n <= 2^k`.
pub open spec fn is_trace_log_size(n: nat, k: u32) -> bool {
    &&& LOG_N_LANES <= k
    &&& n <= rows_of(k as nat)
    &&& (k == LOG_N_LANES || rows_of((k - 1) as nat) < n)
}

/// The log size of a trace holding `n` rows, `max(LOG_N_LANES, log2` of the
/// next power of two of `n)`, and its number of rows.
pub fn trace_log_size(n: usize) -> (r: (u32, usize))
    requires
        n <= 0x8000_0000,
    ensures
        is_trace_log_size(n as nat, r.0),
        r.0 <= 31,
        r.1 == rows_of(r.0 as nat),
{
    let mut k: u32 = LOG_N_LANES;
    let mut size: usize = 16;
    assert(rows_of(4) == 16) by {
        reveal_with_fuel(rows_of, 5);
    }
    while size < n
        invariant
            LOG_N_LANES <= k <= 31,
            size == rows_of(k as nat),
            16 <= size,
            n <= 0x8000_0000,
            k == LOG_N_LANES || rows_of((k - 1) as nat) < n,
        decreases 31 - k,
    {
        assert(k < 31) by {
            if k >= 31 {
                lemma_rows_of_monotone(31, k as nat);
                assert(rows_of(31) == 0x8000_0000) by {
                    reveal_with_fuel(rows_of, 32);
                }
            }
        }
        size = size * 2;
        k = k + 1;
    }
    (k, size)
}

/// `2^i <= 2^j` when `i <= j`.
pub proof fn lemma_rows_of_monotone(i: nat, j: nat)
    requires
        i <= j,
    ensures
        rows_of(i) <= rows_of(j),
    decreases j,
{
    if i < j {
        lemma_rows_of_monotone(i, (j - 1) as nat);
    }
}

} // verus!
