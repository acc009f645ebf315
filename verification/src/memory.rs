//! The prover's memory model: boundary memories and clock updates.
//!
//! Every memory access of the execution is replayed through [`Memory::push`],
//! which keeps
//! - the initial memory: the value each cell had before its first access,
//!   with multiplicity 1 once the cell is used;
//! - the final memory: the last value and clock of each cell;
//! - clock updates: artificial reads inserted when two accesses to a cell are
//!   further apart in time than one range check can cover.
//!
//! Cells are keyed by `(address, depth)`, encoded as one `u64`.
use crate::field::{fmod, M31, P};
use crate::instructions::Opcode;
use crate::io::{State, VmImportError};
use std::collections::HashMap;
use vstd::prelude::*;

verus! {

broadcast use vstd::std_specs::hash::group_hash_axioms;

/// Log size of the clock-difference range check.
pub const LOG_SIZE_RC_20: u32 = 20;

/// Largest clock difference one range check covers: `2^20 - 1`.
pub const RC20_LIMIT: u32 = 1048575;

/// Depth of the memory leaves in the commitment tree.
pub const TREE_HEIGHT: u32 = 30;

/// The multiplicity `-1` of the field, `P - 1`.
pub open spec fn minus_one() -> M31 {
    M31((P - 1) as u32)
}

/// A memory cell's content: (value, clock, multiplicity).
pub type MemoryCell = (M31, M31, M31);

/// The key of the cell at `(address, depth)`.
pub open spec fn spec_memory_key(address: M31, depth: M31) -> u64 {
    (address.0 as int * 0x1_0000_0000 + depth.0 as int) as u64
}

/// The key of the cell at `(address, depth)`.
pub fn memory_key(address: M31, depth: M31) -> (r: u64)
    ensures
        r == spec_memory_key(address, depth),
{
    (address.0 as u64) * 0x1_0000_0000u64 + depth.0 as u64
}

/// The key of a memory leaf at `address`.
pub open spec fn leaf_key(address: M31) -> u64 {
    spec_memory_key(address, M31(TREE_HEIGHT))
}

/// Distinct cells have distinct keys.
pub proof fn lemma_memory_key_injective(a1: M31, d1: M31, a2: M31, d2: M31)
    ensures
        spec_memory_key(a1, d1) == spec_memory_key(a2, d2) ==> a1 == a2 && d1 == d2,
{
    let k1 = a1.0 as int * 0x1_0000_0000 + d1.0 as int;
    let k2 = a2.0 as int * 0x1_0000_0000 + d2.0 as int;
    assert(0 <= k1 < 0x1_0000_0000_0000_0000) by (nonlinear_arith)
        requires
            k1 == a1.0 as int * 0x1_0000_0000 + d1.0 as int,
            0 <= a1.0 < 0x1_0000_0000,
            0 <= d1.0 < 0x1_0000_0000,
    ;
    assert(0 <= k2 < 0x1_0000_0000_0000_0000) by (nonlinear_arith)
        requires
            k2 == a2.0 as int * 0x1_0000_0000 + d2.0 as int,
            0 <= a2.0 < 0x1_0000_0000,
            0 <= d2.0 < 0x1_0000_0000,
    ;
    if k1 == k2 {
        vstd::arithmetic::div_mod::lemma_fundamental_div_mod_converse(
            k1,
            0x1_0000_0000,
            a1.0 as int,
            d1.0 as int,
        );
        vstd::arithmetic::div_mod::lemma_fundamental_div_mod_converse(
            k2,
            0x1_0000_0000,
            a2.0 as int,
            d2.0 as int,
        );
    }
}

/// A single memory access in the prover's memory model.
#[derive(Copy, Clone, Default, Debug, Eq, PartialEq, Structural)]
pub struct MemoryEntry {
    /// The memory address.
    pub address: M31,
    /// The value stored at this address.
    pub value: M31,
    /// The clock time of the access.
    pub clock: M31,
}

/// A memory value: one field element (`limb1` zero) or a `u32` as two 16-bit limbs.
#[derive(Debug, Clone, Copy, Default, PartialEq, Eq, Structural)]
pub struct MemoryValue {
    /// Low limb, or the value of a field element.
    pub limb0: M31,
    /// High limb, zero for a field element.
    pub limb1: M31,
}

/// A data memory access with the state before and after it.
#[derive(Debug, Clone, Copy, Default, PartialEq, Eq, Structural)]
pub struct DataAccess {
    /// The accessed address.
    pub address: M31,
    /// The clock of the previous access to this address.
    pub prev_clock: M31,
    /// The value before the access.
    pub prev_value: MemoryValue,
    /// The value after the access.
    pub value: MemoryValue,
}

/// The complete transition of one memory access, as [`Memory::push`] reports it.
#[derive(Debug, Clone, Copy, Default, PartialEq, Eq, Structural)]
pub struct MemoryArg {
    /// The accessed address.
    pub address: M31,
    /// The value before the access.
    pub prev_val: M31,
    /// The value after the access.
    pub value: M31,
    /// The clock this access consumes (after any clock updates).
    pub prev_clock: M31,
    /// The clock of the access.
    pub clock: M31,
}

/// Boundary memories and clock updates of an execution.
#[derive(Debug, Default, Clone, PartialEq, Eq)]
pub struct Memory {
    /// Initial memory: cell key => (value, clock, multiplicity).
    pub initial_memory: HashMap<u64, MemoryCell>,
    /// Final memory: cell key => (value, clock, multiplicity).
    pub final_memory: HashMap<u64, MemoryCell>,
    /// Clock updates for large time gaps: (address, clock, value).
    pub clock_update_data: Vec<MemoryCell>,
}

/// The map built from a list of initial values: address `i` (reduced into the
/// field) at leaf depth holds `(values[i], 0, 0)`, later entries replacing
/// earlier ones at the same key.
pub open spec fn initial_memory_map(values: Seq<M31>) -> Map<u64, MemoryCell>
    decreases values.len(),
{
    if values.len() == 0 {
        Map::empty()
    } else {
        let i = (values.len() - 1) as int;
        initial_memory_map(values.drop_last()).insert(
            leaf_key(M31((i % P as int) as u32)),
            (values.last(), M31(0), M31(0)),
        )
    }
}

/// The cell `push` reports as the previous content of `address`: the final
/// memory's cell, or `(value, 0, -1)` for a first access.
pub open spec fn spec_prev_cell(final_memory: Map<u64, MemoryCell>, entry: MemoryEntry) -> MemoryCell {
    let k = leaf_key(entry.address);
    if final_memory.contains_key(k) {
        final_memory[k]
    } else {
        (entry.value, M31(0), minus_one())
    }
}

/// The initial memory after `push`: on a first access (previous clock 0) the
/// cell gets multiplicity 1, and is created with the accessed value if absent.
pub open spec fn spec_initial_after(
    initial_memory: Map<u64, MemoryCell>,
    final_memory: Map<u64, MemoryCell>,
    entry: MemoryEntry,
) -> Map<u64, MemoryCell> {
    let k = leaf_key(entry.address);
    if spec_prev_cell(final_memory, entry).1 == M31(0) {
        if initial_memory.contains_key(k) {
            initial_memory.insert(k, (initial_memory[k].0, initial_memory[k].1, M31(1)))
        } else {
            initial_memory.insert(k, (entry.value, M31(0), M31(1)))
        }
    } else {
        initial_memory
    }
}

/// The number of clock updates `push` inserts between the previous clock and
/// the access clock.
pub open spec fn spec_clock_update_steps(prev_clock: M31, clock: M31) -> int {
    if clock.0 > prev_clock.0 && clock.0 - prev_clock.0 > RC20_LIMIT {
        (clock.0 - prev_clock.0) / (RC20_LIMIT as int)
    } else {
        0
    }
}

/// The clock of the `i`-th clock update after `prev_clock`.
pub open spec fn spec_update_clock(prev_clock: M31, i: int) -> M31 {
    if i == 0 {
        prev_clock
    } else {
        M31(fmod(prev_clock.0 + i * RC20_LIMIT) as u32)
    }
}

/// The clock updates for one access: the `i`-th consumes the cell at clock
/// `prev_clock + i * RC20_LIMIT`.
pub open spec fn spec_clock_updates(address: M31, prev_clock: M31, clock: M31, value: M31) -> Seq<MemoryCell> {
    Seq::new(
        spec_clock_update_steps(prev_clock, clock) as nat,
        |i: int| (address, spec_update_clock(prev_clock, i), value),
    )
}

/// The state of a memory: initial map, final map, clock updates.
pub type MemoryModel = (Map<u64, MemoryCell>, Map<u64, MemoryCell>, Seq<MemoryCell>);

/// One access replayed on a memory state, and the transition it reports.
///
/// The final memory takes `(value, clock, -1)`. A first access (previous
/// clock 0) sets the initial cell's multiplicity to 1, creating the cell with
/// the accessed value if absent. When the clock advanced by more than
/// `RC20_LIMIT` since the previous access, `delta / RC20_LIMIT` clock updates
/// are appended: the access at the previous clock is re-emitted
/// `RC20_LIMIT` later, then again, each carrying the value the cell held at
/// that previous access; the reported previous clock is the previous clock
/// advanced that many times.
pub open spec fn spec_push(m: MemoryModel, entry: MemoryEntry) -> (MemoryModel, MemoryArg) {
    let k = leaf_key(entry.address);
    let prev = spec_prev_cell(m.1, entry);
    let initial = spec_initial_after(m.0, m.1, entry);
    let steps = spec_clock_update_steps(prev.1, entry.clock);
    (
        (
            initial,
            m.1.insert(k, (entry.value, entry.clock, minus_one())),
            m.2 + spec_clock_updates(entry.address, prev.1, entry.clock, prev.0),
        ),
        MemoryArg {
            address: entry.address,
            prev_val: prev.0,
            value: entry.value,
            prev_clock: spec_update_clock(prev.1, steps),
            clock: entry.clock,
        },
    )
}

impl Memory {
    /// The initial memory as a map.
    pub open spec fn initial(&self) -> Map<u64, MemoryCell> {
        self.initial_memory@
    }

    /// The final memory as a map.
    pub open spec fn final_map(&self) -> Map<u64, MemoryCell> {
        self.final_memory@
    }

    /// The state of this memory.
    pub open spec fn model(&self) -> MemoryModel {
        (self.initial_memory@, self.final_memory@, self.clock_update_data@)
    }

    /// A sound memory: initial and final memory hold the same cells, and
    /// every accessed cell has multiplicity 1 in the initial memory (see
    /// [`memory_ok`]).
    pub open spec fn wf(&self) -> bool {
        memory_ok(self.model())
    }

    /// A memory with the given initial values at addresses `0, 1, ...`, at
    /// clock 0 and multiplicity 0; the final memory starts equal to it.
    pub fn new(initial_memory: Vec<M31>) -> (r: Memory)
        ensures
            r.initial() == initial_memory_map(initial_memory@),
            r.final_map() == initial_memory_map(initial_memory@),
            r.clock_update_data@ == Seq::<MemoryCell>::empty(),
            r.wf(),
    {
        let mut map: HashMap<u64, MemoryCell> = HashMap::new();
        let depth = M31::from_u32(TREE_HEIGHT);
        let n = initial_memory.len();
        let mut i: usize = 0;
        while i < n
            invariant
                n == initial_memory.len(),
                i <= n,
                depth == M31(TREE_HEIGHT),
                map@ == initial_memory_map(initial_memory@.subrange(0, i as int)),
            decreases n - i,
        {
            let addr = M31::from_usize(i);
            let key = memory_key(addr, depth);
            map.insert(key, (initial_memory[i], M31::zero(), M31::zero()));
            proof {
                let s = initial_memory@.subrange(0, i + 1);
                assert(s.drop_last() =~= initial_memory@.subrange(0, i as int));
                assert(s.last() == initial_memory@[i as int]);
            }
            i = i + 1;
        }
        proof {
            assert(initial_memory@.subrange(0, n as int) =~= initial_memory@);
            lemma_new_memory_ok(initial_memory@);
        }
        Memory { initial_memory: map.clone(), final_memory: map, clock_update_data: Vec::new() }
    }

    /// Records one memory access and reports its transition.
    ///
    /// The final memory takes `(value, clock, -1)`. A first access (previous
    /// clock 0) sets the initial cell's multiplicity to 1, creating the cell
    /// with the accessed value if absent. When the clock advanced by more than
    /// `RC20_LIMIT` since the previous access, `delta / RC20_LIMIT` clock
    /// updates are appended, each carrying the value the cell held at its
    /// previous access, and the reported previous clock is the last of them
    /// advanced once more. A sound memory stays sound.
    pub fn push(&mut self, memory_entry: MemoryEntry) -> (r: MemoryArg)
        ensures
            (final(self).model(), r) == spec_push(old(self).model(), memory_entry),
            old(self).wf() ==> final(self).wf(),
    {
        proof {
            if self.wf() {
                lemma_push_ok(self.model(), memory_entry);
            }
        }
        let depth = M31::from_u32(TREE_HEIGHT);
        let key = memory_key(memory_entry.address, depth);
        assert(depth == M31(TREE_HEIGHT));
        let ghost k = key;
        assert(k == leaf_key(memory_entry.address));
        let ghost old_final = self.final_memory@;
        let ghost old_initial = self.initial_memory@;
        let prev_memory_entry = match self.final_memory.insert(
            key,
            (memory_entry.value, memory_entry.clock, M31(P - 1)),
        ) {
            Some(cell) => cell,
            None => (memory_entry.value, M31::zero(), M31(P - 1)),
        };
        assert(prev_memory_entry == spec_prev_cell(old_final, memory_entry));
        let mut prev_clk = prev_memory_entry.1;
        let current_clk = memory_entry.clock;

        if prev_clk == M31::zero() {
            let existing = match self.initial_memory.get(&key) {
                Some(cell) => Some(*cell),
                None => None,
            };
            match existing {
                Some(cell) => {
                    self.initial_memory.insert(key, (cell.0, cell.1, M31::one()));
                },
                None => {
                    self.initial_memory.insert(key, (memory_entry.value, M31::zero(), M31::one()));
                },
            }
        }
        assert(self.initial_memory@ == spec_initial_after(old_initial, old_final, memory_entry));

        let ghost prev_clk0 = prev_clk;
        let ghost steps = spec_clock_update_steps(prev_clk0, current_clk);
        let ghost old_updates = self.clock_update_data@;
        if current_clk.0 > prev_clk.0 {
            let delta = current_clk.0 - prev_clk.0;
            if delta > RC20_LIMIT {
                let num_steps = delta / RC20_LIMIT;
                let prev_value = prev_memory_entry.0;
                let ghost value = prev_value;
                let mut j: u32 = 0;
                while j < num_steps
                    invariant
                        j <= num_steps,
                        value == prev_value,
                        prev_value == spec_prev_cell(old_final, memory_entry).0,
                        self.final_memory@ == old_final.insert(
                            k,
                            (memory_entry.value, memory_entry.clock, M31((P - 1) as u32)),
                        ),
                        self.initial_memory@ == spec_initial_after(old_initial, old_final, memory_entry),
                        num_steps as int == steps,
                        steps == (current_clk.0 - prev_clk0.0) / (RC20_LIMIT as int),
                        prev_clk == spec_update_clock(prev_clk0, j as int),
                        self.clock_update_data@ == old_updates + spec_clock_updates(
                            memory_entry.address,
                            prev_clk0,
                            current_clk,
                            value,
                        ).subrange(0, j as int),
                        spec_clock_update_steps(prev_clk0, current_clk) == steps,
                    decreases num_steps - j,
                {
                    self.clock_update_data.push((memory_entry.address, prev_clk, prev_value));
                    proof {
                        let upd = spec_clock_updates(memory_entry.address, prev_clk0, current_clk, value);
                        assert(upd[j as int] == (memory_entry.address, prev_clk, prev_value));
                        assert(upd.subrange(0, j + 1) =~= upd.subrange(0, j as int).push(upd[j as int]));
                        assert(self.clock_update_data@ =~= old_updates + spec_clock_updates(
                            memory_entry.address,
                            prev_clk0,
                            current_clk,
                            value,
                        ).subrange(0, j + 1));
                    }
                    prev_clk = prev_clk.add(M31(RC20_LIMIT));
                    proof {
                        if j > 0 {
                            lemma_fmod_step(prev_clk0.0 as int, j as int);
                        }
                    }
                    j = j + 1;
                }
                proof {
                    assert(spec_clock_updates(memory_entry.address, prev_clk0, current_clk, value).subrange(
                        0,
                        steps,
                    ) =~= spec_clock_updates(memory_entry.address, prev_clk0, current_clk, value));
                }
            }
        }
        proof {
            if steps == 0 {
                assert(spec_clock_updates(memory_entry.address, prev_clk0, current_clk, prev_memory_entry.0)
                    =~= Seq::<MemoryCell>::empty());
                assert(self.clock_update_data@ =~= old_updates + Seq::<MemoryCell>::empty());
            }
        }
        MemoryArg {
            address: memory_entry.address,
            prev_val: prev_memory_entry.0,
            value: memory_entry.value,
            prev_clock: prev_clk,
            clock: current_clk,
        }
    }
}

/// Advancing a reduced clock by `RC20_LIMIT` gives the next reduced clock.
pub proof fn lemma_fmod_step(c: int, j: int)
    ensures
        fmod(fmod(c + j * RC20_LIMIT) + RC20_LIMIT) == fmod(c + (j + 1) * RC20_LIMIT),
{
    let p = P as int;
    vstd::arithmetic::div_mod::lemma_add_mod_noop(c + j * RC20_LIMIT, RC20_LIMIT as int, p);
    vstd::arithmetic::div_mod::lemma_mod_twice(RC20_LIMIT as int, p);
    vstd::arithmetic::div_mod::lemma_add_mod_noop(fmod(c + j * RC20_LIMIT), RC20_LIMIT as int, p);
    vstd::arithmetic::div_mod::lemma_mod_twice(c + j * RC20_LIMIT, p);
    assert(c + j * RC20_LIMIT + RC20_LIMIT == c + (j + 1) * RC20_LIMIT) by (nonlinear_arith);
}

/// Initial and final memory keep the same cells across an access.
pub proof fn lemma_push_keeps_memories_aligned(m: MemoryModel, entry: MemoryEntry)
    requires
        m.0.dom() == m.1.dom(),
    ensures
        spec_push(m, entry).0.0.dom() == spec_push(m, entry).0.1.dom(),
{
    let k = leaf_key(entry.address);
    let initial = spec_initial_after(m.0, m.1, entry);
    assert(initial.contains_key(k));
    assert(initial.dom() =~= m.1.insert(k, (entry.value, entry.clock, minus_one())).dom());
}

/// A memory state that accesses keep sound: initial and final memory hold
/// the same cells, every cell accessed at a clock other than 0 has final
/// multiplicity -1, and every cell with final multiplicity -1 (every accessed
/// cell) has multiplicity 1 in the initial memory.
pub open spec fn memory_ok(m: MemoryModel) -> bool {
    &&& m.0.dom() == m.1.dom()
    &&& forall|k: u64| #[trigger] m.1.contains_key(k) && m.1[k].1 != M31(0) ==> m.1[k].2 == minus_one()
    &&& forall|k: u64| m.1.contains_key(k) && #[trigger] m.1[k].2 == minus_one() ==> m.0[k].2 == M31(1)
}

/// The state after replaying `entries` on `m`, one access after another.
pub open spec fn spec_push_seq(m: MemoryModel, entries: Seq<MemoryEntry>) -> MemoryModel
    decreases entries.len(),
{
    if entries.len() == 0 {
        m
    } else {
        spec_push(spec_push_seq(m, entries.drop_last()), entries.last()).0
    }
}

/// Every cell of a memory built from initial values has clock 0 and
/// multiplicity 0.
proof fn lemma_initial_memory_map_clocks(values: Seq<M31>)
    ensures
        forall|k: u64|
            #[trigger] initial_memory_map(values).contains_key(k) ==> initial_memory_map(values)[k].1 == M31(0)
                && initial_memory_map(values)[k].2 == M31(0),
    decreases values.len(),
{
    if values.len() > 0 {
        let prefix = values.drop_last();
        let i = (values.len() - 1) as int;
        lemma_initial_memory_map_clocks(prefix);
        let key = leaf_key(M31((i % P as int) as u32));
        assert(initial_memory_map(values) == initial_memory_map(prefix).insert(key, (values.last(), M31(0), M31(0))));
        assert forall|k: u64| #[trigger] initial_memory_map(values).contains_key(k) implies initial_memory_map(
            values,
        )[k].1 == M31(0) && initial_memory_map(values)[k].2 == M31(0) by {
            if k != key {
                assert(initial_memory_map(prefix).contains_key(k));
            }
        }
    }
}

/// The memory built by [`Memory::new`] (and the empty one) is a sound state.
pub proof fn lemma_new_memory_ok(values: Seq<M31>)
    ensures
        memory_ok((initial_memory_map(values), initial_memory_map(values), Seq::<MemoryCell>::empty())),
        memory_ok((Map::<u64, MemoryCell>::empty(), Map::<u64, MemoryCell>::empty(), Seq::<MemoryCell>::empty())),
{
    lemma_initial_memory_map_clocks(values);
}

/// One access on a sound memory keeps it sound: initial and final memory
/// still hold the same cells, both hold the accessed cell, which ends with
/// multiplicity 1 in the initial memory and `(value, clock, -1)` in the final
/// memory; no other cell of either changes, and the clock updates keep their
/// old prefix.
pub proof fn lemma_push_ok(m: MemoryModel, entry: MemoryEntry)
    requires
        memory_ok(m),
    ensures
        memory_ok(spec_push(m, entry).0),
        spec_push(m, entry).0.0.contains_key(leaf_key(entry.address)),
        spec_push(m, entry).0.1.contains_key(leaf_key(entry.address)),
        spec_push(m, entry).0.0[leaf_key(entry.address)].2 == M31(1),
        spec_push(m, entry).0.1[leaf_key(entry.address)] == (entry.value, entry.clock, minus_one()),
        forall|k: u64|
            k != leaf_key(entry.address) ==> (#[trigger] spec_push(m, entry).0.0.contains_key(k)) == m.0.contains_key(k)
                && spec_push(m, entry).0.0[k] == m.0[k] && spec_push(m, entry).0.1.contains_key(k)
                == m.1.contains_key(k) && spec_push(m, entry).0.1[k] == m.1[k],
        spec_push(m, entry).0.2.subrange(0, m.2.len() as int) == m.2,
{
    lemma_push_keeps_memories_aligned(m, entry);
    let k = leaf_key(entry.address);
    let r = spec_push(m, entry).0;
    let prev = spec_prev_cell(m.1, entry);
    if prev.1 != M31(0) {
        assert(m.1.contains_key(k));
        assert(m.1[k].2 == minus_one());
        assert(r.0 == m.0);
    }
    assert forall|j: u64| #[trigger] r.1.contains_key(j) && r.1[j].1 != M31(0) implies r.1[j].2 == minus_one() by {
        if j != k {
            assert(m.1.contains_key(j));
        }
    }
    assert forall|j: u64| r.1.contains_key(j) && #[trigger] r.1[j].2 == minus_one() implies r.0[j].2 == M31(1) by {
        if j != k {
            assert(m.1.contains_key(j));
            assert(m.1[j].2 == minus_one());
        }
    }
    assert(r.2.subrange(0, m.2.len() as int) =~= m.2);
}

/// Replaying any sequence of accesses on a sound state: the state stays sound (initial and final memory keep the same
/// cells), every accessed cell ends with multiplicity 1 in the initial memory
/// and -1 in the final memory, and the clock updates only grow at the end.
pub proof fn lemma_push_seq_ok(m: MemoryModel, entries: Seq<MemoryEntry>)
    requires
        memory_ok(m),
    ensures
        memory_ok(spec_push_seq(m, entries)),
        forall|j: int|
            0 <= j < entries.len() ==> spec_push_seq(m, entries).0.contains_key(leaf_key(#[trigger] entries[j].address))
                && spec_push_seq(m, entries).0[leaf_key(entries[j].address)].2 == M31(1)
                && spec_push_seq(m, entries).1[leaf_key(entries[j].address)].2 == minus_one(),
        spec_push_seq(m, entries).2.len() >= m.2.len(),
        spec_push_seq(m, entries).2.subrange(0, m.2.len() as int) == m.2,
    decreases entries.len(),
{
    if entries.len() > 0 {
        let prev = entries.drop_last();
        let e = entries.last();
        let n = prev.len() as int;
        lemma_push_seq_ok(m, prev);
        let mp = spec_push_seq(m, prev);
        lemma_push_ok(mp, e);
        let r = spec_push_seq(m, entries);
        assert(r == spec_push(mp, e).0);
        assert forall|j: int| 0 <= j < entries.len() implies r.0.contains_key(leaf_key(#[trigger] entries[j].address))
            && r.0[leaf_key(entries[j].address)].2 == M31(1) && r.1[leaf_key(entries[j].address)].2 == minus_one() by {
            if j < n && leaf_key(entries[j].address) != leaf_key(e.address) {
                assert(entries[j] == prev[j]);
            }
        }
        assert(r.0.contains_key(leaf_key(e.address)));
        assert(r.2.subrange(0, m.2.len() as int) =~= mp.2.subrange(0, mp.2.len() as int).subrange(0, m.2.len() as int));
    }
}

/// The key of the leaf at address `i`.
pub open spec fn leaf_key_at(i: int) -> u64 {
    leaf_key(M31(i as u32))
}

/// With no more values than field elements, the memory built by
/// [`Memory::new`] holds exactly the cells `0..len` at leaf depth, each with
/// its value, clock 0 and multiplicity 0.
pub proof fn lemma_initial_memory_map_cells(values: Seq<M31>)
    requires
        values.len() <= P,
    ensures
        forall|i: int|
            #![trigger leaf_key_at(i)]
            0 <= i < values.len() ==> initial_memory_map(values).contains_key(leaf_key_at(i))
                && initial_memory_map(values)[leaf_key_at(i)] == (values[i], M31(0), M31(0)),
        forall|key: u64|
            #[trigger] initial_memory_map(values).contains_key(key) ==> exists|i: int|
                0 <= i < values.len() && key == #[trigger] leaf_key_at(i),
    decreases values.len(),
{
    if values.len() > 0 {
        let n = (values.len() - 1) as int;
        let prefix = values.drop_last();
        lemma_initial_memory_map_cells(prefix);
        assert(n % (P as int) == n) by {
            vstd::arithmetic::div_mod::lemma_small_mod(n as nat, P as nat);
        }
        assert(initial_memory_map(values) == initial_memory_map(prefix).insert(
            leaf_key_at(n),
            (values[n], M31(0), M31(0)),
        ));
        assert forall|i: int| #![trigger leaf_key_at(i)] 0 <= i < values.len() implies initial_memory_map(
            values,
        ).contains_key(leaf_key_at(i)) && initial_memory_map(values)[leaf_key_at(i)] == (values[i], M31(0), M31(0)) by {
            if i < n {
                lemma_memory_key_injective(M31(i as u32), M31(TREE_HEIGHT), M31(n as u32), M31(TREE_HEIGHT));
                assert(leaf_key_at(i) != leaf_key_at(n));
                assert(prefix[i] == values[i]);
                assert(initial_memory_map(prefix).contains_key(leaf_key_at(i)));
            }
        }
        assert forall|key: u64| #[trigger] initial_memory_map(values).contains_key(key) implies exists|i: int|
            0 <= i < values.len() && key == leaf_key_at(i) by {
            if key != leaf_key_at(n) {
                assert(initial_memory_map(prefix).contains_key(key));
                let i = choose|i: int| 0 <= i < prefix.len() && key == leaf_key_at(i);
                assert(0 <= i < values.len() && key == leaf_key_at(i));
            }
        }
    }
}

/// After an access at a clock not below the previous one (both canonical), the
/// reported previous clock trails the access clock by at most `RC20_LIMIT`:
/// the clock updates cover the rest of the gap.
pub proof fn lemma_push_clock_gap_bounded(prev_clock: M31, clock: M31)
    requires
        prev_clock.0 <= clock.0,
        clock.0 < P,
    ensures
        spec_update_clock(prev_clock, spec_clock_update_steps(prev_clock, clock)).0 <= clock.0,
        clock.0 - spec_update_clock(prev_clock, spec_clock_update_steps(prev_clock, clock)).0
            <= RC20_LIMIT,
        spec_clock_update_steps(prev_clock, clock) > 0 ==> clock.0 - spec_update_clock(
            prev_clock,
            spec_clock_update_steps(prev_clock, clock),
        ).0 == (clock.0 - prev_clock.0) % (RC20_LIMIT as int),
{
    let steps = spec_clock_update_steps(prev_clock, clock);
    if steps > 0 {
        let delta = clock.0 - prev_clock.0;
        let l = RC20_LIMIT as int;
        vstd::arithmetic::div_mod::lemma_fundamental_div_mod(delta, l);
        assert(steps * l <= delta) by (nonlinear_arith)
            requires
                delta == l * steps + delta % l,
                delta % l >= 0,
        ;
        let c = prev_clock.0 + steps * l;
        assert(0 <= c < P);
        vstd::arithmetic::div_mod::lemma_small_mod(c as nat, P as nat);
        assert(l * steps == steps * l) by (nonlinear_arith);
    }
}

// ---------------------------------------------------------------------------
// Execution bundles.

/// The type of an operand.
#[derive(Debug, Clone, Copy, PartialEq, Eq, Structural)]
pub enum DataType {
    /// One field element, one memory cell.
    Felt,
    /// A `u32` as two 16-bit limbs, two consecutive memory cells.
    U32,
}

/// The shape of an opcode's instructions.
#[derive(Debug, Clone, PartialEq, Eq)]
pub struct OpcodeFormat {
    /// Number of words of the instruction.
    pub size: usize,
    /// Number of operand memory accesses.
    pub memory_accesses: usize,
    /// The type of each operand.
    pub operand_types: Vec<DataType>,
}

/// A decoded instruction: its opcode number and all its words.
#[derive(Debug, Clone, PartialEq, Eq)]
pub struct Instruction {
    /// The opcode number (the first word).
    pub opcode: u32,
    /// All words of the instruction, the opcode first.
    pub words: Vec<M31>,
}

impl Instruction {
    /// The opcode number.
    pub fn opcode_value(&self) -> (r: u32)
        ensures
            r == self.opcode,
    {
        self.opcode
    }
}

/// An instruction fetch.
#[derive(Debug, Clone, PartialEq, Eq)]
pub struct InstructionAccess {
    /// The instruction read from memory.
    pub instruction: Instruction,
    /// The clock of the previous access to the instruction's first word.
    pub prev_clock: M31,
}

/// One execution step with all its memory accesses.
#[derive(Debug, Clone, PartialEq, Eq)]
pub struct ExecutionBundle {
    /// The registers at this step.
    pub registers: State,
    /// The clock of this step.
    pub clock: M31,
    /// The instruction fetch.
    pub instruction: InstructionAccess,
    /// The operand accesses, up to three.
    pub operands: [Option<DataAccess>; 3],
}

impl Default for ExecutionBundle {
    /// The bundle padding rows are written from: a `ret` at clock zero with
    /// zero registers and no operand.
    fn default() -> (r: Self)
        ensures
            r.registers == (State { pc: M31(0), fp: M31(0) }),
            r.clock == M31(0),
            r.instruction.instruction.opcode == Opcode::Ret.spec_id(),
            r.instruction.instruction.words@ == seq![M31(Opcode::Ret.spec_id())],
            r.instruction.prev_clock == M31(0),
            r.operands == [None::<DataAccess>, None, None],
    {
        let ret = Opcode::Ret.id();
        ExecutionBundle {
            registers: State { pc: M31(0), fp: M31(0) },
            clock: M31(0),
            instruction: InstructionAccess {
                instruction: Instruction { opcode: ret, words: vec![M31(ret)] },
                prev_clock: M31(0),
            },
            operands: [None, None, None],
        }
    }
}

/// A memory access as logged by the runner.
#[derive(Debug, Clone, Copy, PartialEq, Eq, Structural, Default)]
pub struct LoggedAccess {
    /// The accessed address.
    pub addr: M31,
    /// The value read or written.
    pub value: M31,
}

/// The memory access a logged access stands for at clock `clock`.
pub open spec fn access_at(e: LoggedAccess, clock: M31) -> MemoryEntry {
    MemoryEntry { address: e.addr, value: e.value, clock }
}

/// Replays logged accesses, in order, at one clock.
pub open spec fn spec_push_all(m: MemoryModel, entries: Seq<LoggedAccess>, clock: M31) -> (
    MemoryModel,
    Seq<MemoryArg>,
)
    decreases entries.len(),
{
    if entries.len() == 0 {
        (m, Seq::empty())
    } else {
        let before = spec_push_all(m, entries.drop_last(), clock);
        let step = spec_push(before.0, access_at(entries.last(), clock));
        (step.0, before.1.push(step.1))
    }
}

/// Number of memory cells an operand type spans.
pub open spec fn width(t: DataType) -> int {
    match t {
        DataType::Felt => 1,
        DataType::U32 => 2,
    }
}

/// Number of cells spanned by the first `k` operand types.
pub open spec fn operands_width(types: Seq<DataType>, k: int) -> int
    decreases k,
{
    if k <= 0 {
        0
    } else {
        operands_width(types, k - 1) + width(types[k - 1])
    }
}

/// The number of operands read: the memory accesses, at most three.
pub open spec fn operand_count(f: OpcodeFormat) -> int {
    if f.memory_accesses < 3 {
        f.memory_accesses as int
    } else {
        3
    }
}

/// Number of logged accesses one step reads: the instruction and its operands.
pub open spec fn step_width(f: OpcodeFormat) -> int {
    f.size + operands_width(f.operand_types@, operand_count(f))
}

/// A format is usable: at least one word, a type for each operand read.
pub open spec fn format_ok(f: OpcodeFormat) -> bool {
    &&& 1 <= f.size <= 8
    &&& operand_count(f) <= f.operand_types@.len()
}

/// The operand access built from the transitions at `offset`.
pub open spec fn operand_access(args: Seq<MemoryArg>, offset: int, t: DataType) -> DataAccess {
    match t {
        DataType::Felt => DataAccess {
            address: args[offset].address,
            prev_clock: args[offset].prev_clock,
            prev_value: MemoryValue { limb0: args[offset].prev_val, limb1: M31(0) },
            value: MemoryValue { limb0: args[offset].value, limb1: M31(0) },
        },
        DataType::U32 => DataAccess {
            address: args[offset].address,
            prev_clock: args[offset].prev_clock,
            prev_value: MemoryValue { limb0: args[offset].prev_val, limb1: args[offset + 1].prev_val },
            value: MemoryValue { limb0: args[offset].value, limb1: args[offset + 1].value },
        },
    }
}

/// Turns the runner's register trace and memory log into execution bundles,
/// replaying every memory access through a [`Memory`].
pub struct ExecutionBundleIterator {
    trace: Vec<State>,
    trace_pos: usize,
    memory_log: Vec<LoggedAccess>,
    memory_pos: usize,
    memory: Memory,
    clock: u32,
    final_registers: Option<State>,
    formats: Vec<Option<OpcodeFormat>>,
}

/// The state of an [`ExecutionBundleIterator`].
pub struct IteratorView {
    /// The register trace.
    pub trace: Seq<State>,
    /// Number of trace entries consumed.
    pub trace_pos: int,
    /// The memory log.
    pub memory_log: Seq<LoggedAccess>,
    /// Number of logged accesses consumed.
    pub memory_pos: int,
    /// The memory built so far.
    pub memory: MemoryModel,
    /// The clock of the next step.
    pub clock: u32,
    /// The registers of the last trace entry, once reached.
    pub final_registers: Option<State>,
    /// The instruction formats, by opcode number.
    pub formats: Seq<Option<OpcodeFormat>>,
}

impl View for ExecutionBundleIterator {
    type V = IteratorView;

    closed spec fn view(&self) -> IteratorView {
        IteratorView {
            trace: self.trace@,
            trace_pos: self.trace_pos as int,
            memory_log: self.memory_log@,
            memory_pos: self.memory_pos as int,
            memory: self.memory.model(),
            clock: self.clock,
            final_registers: self.final_registers,
            formats: self.formats@,
        }
    }
}

/// An execution bundle with its instruction words as a sequence.
pub struct BundleView {
    /// The registers at this step.
    pub registers: State,
    /// The clock of this step.
    pub clock: M31,
    /// The opcode number.
    pub opcode: u32,
    /// The instruction words, the opcode first.
    pub words: Seq<M31>,
    /// The clock of the previous access to the instruction's first word.
    pub prev_clock: M31,
    /// The three operand slots.
    pub operands: Seq<Option<DataAccess>>,
}

impl View for ExecutionBundle {
    type V = BundleView;

    open spec fn view(&self) -> BundleView {
        BundleView {
            registers: self.registers,
            clock: self.clock,
            opcode: self.instruction.instruction.opcode,
            words: self.instruction.instruction.words@,
            prev_clock: self.instruction.prev_clock,
            operands: self.operands@,
        }
    }
}

/// What one step of the iterator yields, with bundles by their view.
pub open spec fn outcome_view(r: Option<Result<ExecutionBundle, VmImportError>>) -> Option<
    Result<BundleView, VmImportError>,
> {
    match r {
        None => None,
        Some(Ok(b)) => Some(Ok(b@)),
        Some(Err(e)) => Some(Err(e)),
    }
}

/// The format registered for an opcode number, if any.
pub open spec fn format_of(formats: Seq<Option<OpcodeFormat>>, opcode: u32) -> Option<OpcodeFormat> {
    if opcode < formats.len() {
        formats[opcode as int]
    } else {
        None
    }
}

/// Operand slot `k` of a step in format `f`: the access built from the
/// transitions at the operand's offset, or nothing past the operand count.
pub open spec fn operand_slot(f: OpcodeFormat, args: Seq<MemoryArg>, k: int) -> Option<DataAccess> {
    if k < operand_count(f) {
        Some(
            operand_access(
                args,
                f.size + operands_width(f.operand_types@, k),
                f.operand_types@[k],
            ),
        )
    } else {
        None
    }
}

/// The bundle of a complete step: `step` holds the logged accesses of the
/// instruction words then of the operands, `args` their transitions.
pub open spec fn spec_bundle(
    registers: State,
    clock: M31,
    f: OpcodeFormat,
    step: Seq<LoggedAccess>,
    args: Seq<MemoryArg>,
) -> BundleView {
    BundleView {
        registers,
        clock,
        opcode: step[0].value.0,
        words: step.subrange(0, f.size as int).map_values(|e: LoggedAccess| e.value),
        prev_clock: args[0].prev_clock,
        operands: seq![operand_slot(f, args, 0), operand_slot(f, args, 1), operand_slot(f, args, 2)],
    }
}

/// One step of the iterator: the new state and what it yields.
///
/// - The trace is exhausted: nothing, no change.
/// - The entry taken is the last of the trace: its registers become the final
///   registers, nothing is yielded.
/// - The memory log is exhausted: `EmptyTrace`.
/// - The first logged access (the opcode word) is replayed at the step's
///   clock; an opcode with no format gives `InvalidOpcode` with that word.
/// - The log ends before the instruction's words and operands are all read:
///   every remaining access is replayed, `UnexpectedEndOfTrace`.
/// - Otherwise the accesses of the instruction words and operands are
///   replayed, the bundle is built from their transitions, and the clock
///   advances.
#[verifier::opaque]
pub open spec fn spec_next(s: IteratorView) -> (IteratorView, Option<Result<BundleView, VmImportError>>) {
    if s.trace_pos >= s.trace.len() {
        (s, None)
    } else {
        let registers = s.trace[s.trace_pos];
        let taken = IteratorView { trace_pos: s.trace_pos + 1, ..s };
        let len = s.memory_log.len() as int;
        let clock = M31(fmod(s.clock as int) as u32);
        if s.trace_pos + 1 >= s.trace.len() {
            (IteratorView { final_registers: Some(registers), ..taken }, None)
        } else if s.memory_pos >= len {
            (taken, Some(Err(VmImportError::EmptyTrace)))
        } else {
            let first = s.memory_log[s.memory_pos];
            match format_of(s.formats, first.value.0) {
                None => (
                    IteratorView {
                        memory: spec_push(s.memory, access_at(first, clock)).0,
                        memory_pos: s.memory_pos + 1,
                        ..taken
                    },
                    Some(Err(VmImportError::InvalidOpcode(first.value))),
                ),
                Some(f) => {
                    let end = s.memory_pos + step_width(f);
                    if end > len {
                        (
                            IteratorView {
                                memory: spec_push_all(
                                    s.memory,
                                    s.memory_log.subrange(s.memory_pos, len),
                                    clock,
                                ).0,
                                memory_pos: len,
                                ..taken
                            },
                            Some(Err(VmImportError::UnexpectedEndOfTrace)),
                        )
                    } else {
                        let step = s.memory_log.subrange(s.memory_pos, end);
                        let replay = spec_push_all(s.memory, step, clock);
                        (
                            IteratorView {
                                memory: replay.0,
                                memory_pos: end,
                                clock: (s.clock + 1) as u32,
                                ..taken
                            },
                            Some(Ok(spec_bundle(registers, clock, f, step, replay.1))),
                        )
                    }
                },
            }
        }
    }
}

/// The state after `k` steps of the iterator from `s`.
pub open spec fn spec_steps(s: IteratorView, k: nat) -> IteratorView
    decreases k,
{
    if k == 0 {
        s
    } else {
        spec_next(spec_steps(s, (k - 1) as nat)).0
    }
}

/// What step `j` (from 0) of the iterator yields from `s`.
pub open spec fn spec_outcome(s: IteratorView, j: nat) -> Option<Result<BundleView, VmImportError>> {
    spec_next(spec_steps(s, j)).1
}

/// An iterator as [`ExecutionBundleIterator::new`] leaves it: nothing
/// consumed, clock 1, no final registers, a trace the 32-bit clock can count.
pub open spec fn is_fresh(s: IteratorView) -> bool {
    &&& s.trace_pos == 0
    &&& s.clock == 1
    &&& s.final_registers is None
    &&& s.trace.len() < u32::MAX
}

/// After `k` steps that all yielded a bundle, the iterator has consumed `k`
/// trace entries and its clock is `k + 1`; bundle `j` holds the registers of
/// trace entry `j` at clock `j + 1`, and fewer steps than trace entries were
/// taken.
proof fn lemma_steps_ok(s: IteratorView, k: nat)
    requires
        is_fresh(s),
        forall|j: nat| j < k ==> #[trigger] spec_outcome(s, j) matches Some(Ok(_)),
    ensures
        spec_steps(s, k).trace_pos == k,
        spec_steps(s, k).clock == k + 1,
        spec_steps(s, k).final_registers is None,
        spec_steps(s, k).trace == s.trace,
        k == 0 || k < s.trace.len(),
        forall|j: nat|
            j < k ==> ((#[trigger] spec_outcome(s, j)) matches Some(Ok(b)) && b.registers == s.trace[j as int]
                && b.clock == M31(fmod(j + 1int) as u32)),
    decreases k,
{
    if k > 0 {
        let k1 = (k - 1) as nat;
        lemma_steps_ok(s, k1);
        let t = spec_steps(s, k1);
        assert(spec_outcome(s, k1) matches Some(Ok(_)));
        reveal(spec_next);
        assert(spec_steps(s, k) == spec_next(t).0);
    }
}

/// A run of the iterator from a fresh state, for as long as every step
/// yields a bundle: bundle `j` holds the registers of trace entry `j` at
/// clock `j + 1` (clock 0 being the preloaded memory's), at most `n - 1`
/// bundles come out of a trace of `n` entries, and once `n - 1` have, the
/// next step yields nothing and sets the final registers to the last entry.
pub proof fn lemma_iterator_run(s: IteratorView, k: nat)
    requires
        is_fresh(s),
        forall|j: nat| j < k ==> #[trigger] spec_outcome(s, j) matches Some(Ok(_)),
    ensures
        k == 0 || k <= s.trace.len() - 1,
        forall|j: nat|
            j < k ==> ((#[trigger] spec_outcome(s, j)) matches Some(Ok(b)) && b.registers == s.trace[j as int]
                && b.clock == M31(fmod(j + 1int) as u32)),
        s.trace.len() >= 1 && k == s.trace.len() - 1 ==> spec_outcome(s, k) is None && spec_steps(
            s,
            k + 1,
        ).final_registers == Some(s.trace[k as int]),
{
    lemma_steps_ok(s, k);
    if s.trace.len() >= 1 && k == s.trace.len() - 1 {
        reveal(spec_next);
        assert(spec_steps(s, k + 1) == spec_next(spec_steps(s, k)).0);
    }
}

/// Operand widths only grow with the number of operands counted.
pub proof fn lemma_operands_width_monotone(types: Seq<DataType>, j: int, k: int)
    requires
        0 <= j <= k,
    ensures
        0 <= operands_width(types, j) <= operands_width(types, k),
    decreases k,
{
    if j < k {
        lemma_operands_width_monotone(types, j, k - 1);
    } else if k > 0 {
        lemma_operands_width_monotone(types, 0, k - 1);
    }
}

/// The replay of a sequence of accesses extended by one more access.
proof fn lemma_push_all_extend(m: MemoryModel, log: Seq<LoggedAccess>, a: int, b: int, clock: M31)
    requires
        0 <= a <= b < log.len(),
    ensures
        log.subrange(a, b + 1) == log.subrange(a, b).push(log[b]),
        spec_push_all(m, log.subrange(a, b + 1), clock) == ({
            let before = spec_push_all(m, log.subrange(a, b), clock);
            let step = spec_push(before.0, access_at(log[b], clock));
            (step.0, before.1.push(step.1))
        }),
{
    assert(log.subrange(a, b + 1) =~= log.subrange(a, b).push(log[b]));
    assert(log.subrange(a, b + 1).drop_last() =~= log.subrange(a, b));
}

/// The replay keeps one transition per access.
proof fn lemma_push_all_len(m: MemoryModel, entries: Seq<LoggedAccess>, clock: M31)
    ensures
        spec_push_all(m, entries, clock).1.len() == entries.len(),
        forall|i: int|
            0 <= i < entries.len() ==> (#[trigger] spec_push_all(m, entries, clock).1[i]).address
                == entries[i].addr && spec_push_all(m, entries, clock).1[i].value == entries[i].value,
    decreases entries.len(),
{
    if entries.len() > 0 {
        lemma_push_all_len(m, entries.drop_last(), clock);
        let before = spec_push_all(m, entries.drop_last(), clock);
        assert forall|i: int| 0 <= i < entries.len() implies (#[trigger] spec_push_all(
            m,
            entries,
            clock,
        ).1[i]).address == entries[i].addr && spec_push_all(m, entries, clock).1[i].value
            == entries[i].value by {
            if i < entries.len() - 1 {
                assert(before.1[i].address == entries.drop_last()[i].addr);
            }
        }
    }
}

/// The transitions of a prefix are a prefix of the transitions.
proof fn lemma_push_all_prefix(m: MemoryModel, entries: Seq<LoggedAccess>, n: int, clock: M31)
    requires
        0 <= n <= entries.len(),
    ensures
        spec_push_all(m, entries.subrange(0, n), clock).1 == spec_push_all(m, entries, clock).1.subrange(0, n),
    decreases entries.len(),
{
    lemma_push_all_len(m, entries, clock);
    lemma_push_all_len(m, entries.subrange(0, n), clock);
    if n < entries.len() {
        lemma_push_all_prefix(m, entries.drop_last(), n, clock);
        assert(entries.drop_last().subrange(0, n) =~= entries.subrange(0, n));
        lemma_push_all_len(m, entries.drop_last(), clock);
        assert(spec_push_all(m, entries, clock).1.subrange(0, n) =~= spec_push_all(
            m,
            entries.drop_last(),
            clock,
        ).1.subrange(0, n));
    } else {
        assert(entries.subrange(0, n) =~= entries);
        assert(spec_push_all(m, entries, clock).1.subrange(0, n) =~= spec_push_all(m, entries, clock).1);
    }
}

/// A copy of a list of operand types.
fn copy_types(v: &Vec<DataType>) -> (r: Vec<DataType>)
    ensures
        r@ == v@,
{
    let mut r: Vec<DataType> = Vec::new();
    let mut i: usize = 0;
    while i < v.len()
        invariant
            i <= v.len(),
            r@ == v@.subrange(0, i as int),
        decreases v.len() - i,
    {
        r.push(v[i]);
        proof {
            assert(v@.subrange(0, i + 1) =~= v@.subrange(0, i as int).push(v@[i as int]));
        }
        i = i + 1;
    }
    proof {
        assert(v@.subrange(0, v@.len() as int) =~= v@);
    }
    r
}

impl ExecutionBundleIterator {
    /// Internal consistency: positions within their sequences, memories
    /// aligned, every registered format usable.
    pub closed spec fn wf(&self) -> bool {
        &&& self.trace_pos <= self.trace@.len()
        &&& self.memory_pos <= self.memory_log@.len()
        &&& self.memory.wf()
        &&& forall|i: int|
            0 <= i < self.formats@.len() && (#[trigger] self.formats@[i]) is Some ==> format_ok(
                self.formats@[i]->0,
            )
    }

    /// What consistency says of the state.
    pub proof fn lemma_wf_view(&self)
        requires
            self.wf(),
        ensures
            self@.trace_pos <= self@.trace.len(),
            self@.memory_pos <= self@.memory_log.len(),
            self@.memory.0.dom() == self@.memory.1.dom(),
            forall|i: int|
                0 <= i < self@.formats.len() && (#[trigger] self@.formats[i]) is Some ==> format_ok(
                    self@.formats[i]->0,
                ),
    {
    }

    /// A new iterator over a trace and a memory log, with the initial memory
    /// values at addresses `0, 1, ...` and the instruction formats by opcode.
    /// Clock 0 is reserved to preloaded values: the first step runs at clock 1.
    pub fn new(
        trace: Vec<State>,
        memory_log: Vec<LoggedAccess>,
        initial_memory: Vec<M31>,
        formats: Vec<Option<OpcodeFormat>>,
    ) -> (r: Self)
        requires
            forall|i: int| 0 <= i < formats@.len() && (#[trigger] formats@[i]) is Some ==> format_ok(formats@[i]->0),
        ensures
            r.wf(),
            r@ == (IteratorView {
                trace: trace@,
                trace_pos: 0,
                memory_log: memory_log@,
                memory_pos: 0,
                memory: (
                    initial_memory_map(initial_memory@),
                    initial_memory_map(initial_memory@),
                    Seq::<MemoryCell>::empty(),
                ),
                clock: 1,
                final_registers: None,
                formats: formats@,
            }),
    {
        Self {
            trace,
            trace_pos: 0,
            memory_log,
            memory_pos: 0,
            memory: Memory::new(initial_memory),
            clock: 1,
            final_registers: None,
            formats,
        }
    }

    /// The registers of the first trace entry not yet consumed.
    pub fn peek_initial_registers(&self) -> (r: Option<State>)
        ensures
            r == (if self@.trace_pos < self@.trace.len() {
                Some(self@.trace[self@.trace_pos])
            } else {
                None
            }),
    {
        if self.trace_pos < self.trace.len() {
            Some(self.trace[self.trace_pos])
        } else {
            None
        }
    }

    /// The memory built so far.
    pub fn into_memory(self) -> (r: Memory)
        requires
            self.wf(),
        ensures
            r.model() == self@.memory,
            r.wf(),
    {
        self.memory
    }

    /// The registers of the last trace entry, once the iteration reached it.
    pub fn get_final_registers(&self) -> (r: Option<State>)
        ensures
            r == self@.final_registers,
    {
        self.final_registers
    }

    /// Reads the next logged access, if any.
    fn read_entry(&mut self) -> (r: Option<LoggedAccess>)
        requires
            old(self).wf(),
        ensures
            final(self).wf(),
            final(self).trace == old(self).trace,
            final(self).trace_pos == old(self).trace_pos,
            final(self).memory_log == old(self).memory_log,
            final(self).memory == old(self).memory,
            final(self).clock == old(self).clock,
            final(self).final_registers == old(self).final_registers,
            final(self).formats == old(self).formats,
            old(self).memory_pos < old(self).memory_log@.len() ==> r == Some(
                old(self).memory_log@[old(self).memory_pos as int],
            ) && final(self).memory_pos == old(self).memory_pos + 1,
            old(self).memory_pos >= old(self).memory_log@.len() ==> r is None && final(self).memory_pos
                == old(self).memory_pos,
    {
        if self.memory_pos < self.memory_log.len() {
            let e = self.memory_log[self.memory_pos];
            self.memory_pos = self.memory_pos + 1;
            Some(e)
        } else {
            None
        }
    }

    /// Everything but the memory and the log position is unchanged.
    spec fn frame(&self, other: Self) -> bool {
        &&& self.trace == other.trace
        &&& self.trace_pos == other.trace_pos
        &&& self.memory_log == other.memory_log
        &&& self.clock == other.clock
        &&& self.final_registers == other.final_registers
        &&& self.formats == other.formats
    }

    /// The replay of the accesses read since position `start`.
    spec fn replayed(&self, m0: MemoryModel, start: int, clock: M31) -> (MemoryModel, Seq<MemoryArg>) {
        spec_push_all(m0, self.memory_log@.subrange(start, self.memory_pos as int), clock)
    }

    /// Takes the next trace entry and, unless it is the last one, reads and
    /// replays the memory accesses of its instruction and operands.
    ///
    /// Yields nothing when the trace is exhausted or when the entry taken is
    /// the last one (its registers become the final registers); otherwise the
    /// step's bundle, or the error [`spec_next`] describes.
    pub fn next(&mut self) -> (r: Option<Result<ExecutionBundle, VmImportError>>)
        requires
            old(self).wf(),
            old(self)@.clock < u32::MAX,
        ensures
            final(self).wf(),
            (final(self)@, outcome_view(r)) == spec_next(old(self)@),
    {
        reveal(spec_next);
        let ghost s0 = self@;
        if self.trace_pos >= self.trace.len() {
            return None;
        }
        let registers = self.trace[self.trace_pos];
        self.trace_pos = self.trace_pos + 1;
        if self.trace_pos >= self.trace.len() {
            self.final_registers = Some(registers);
            return None;
        }
        let clock = M31::from_u32(self.clock);
        assert(clock == M31(fmod(s0.clock as int) as u32));
        let ghost m0 = self.memory.model();
        let ghost start = self.memory_pos as int;
        let ghost len = self.memory_log@.len() as int;
        proof {
            assert(self.memory_log@.subrange(start, start) =~= Seq::<LoggedAccess>::empty());
        }
        if self.memory_pos >= self.memory_log.len() {
            return Some(Err(VmImportError::EmptyTrace));
        }
        let first = self.memory_log[self.memory_pos];
        let first_arg = match self.take_access(clock, Ghost(start), Ghost(m0)) {
            Some(a) => a,
            None => {
                return Some(Err(VmImportError::EmptyTrace));
            },
        };
        proof {
            assert(self.memory_log@.subrange(start, start + 1) =~= seq![first]);
            assert(seq![first].drop_last() =~= Seq::<LoggedAccess>::empty());
        }
        let ghost first_args = self.replayed(m0, start, clock).1;
        assert(first_args =~= seq![first_arg]);
        let opcode = first.value.0;
        let idx = opcode as usize;
        if idx >= self.formats.len() {
            return Some(Err(VmImportError::InvalidOpcode(first.value)));
        }
        let (size, count, types) = match &self.formats[idx] {
            Some(f) => {
                let count: usize = if f.memory_accesses < 3 {
                    f.memory_accesses
                } else {
                    3
                };
                (f.size, count, copy_types(&f.operand_types))
            },
            None => {
                return Some(Err(VmImportError::InvalidOpcode(first.value)));
            },
        };
        let ghost f = format_of(s0.formats, opcode)->0;
        assert(format_ok(f));
        assert(size == f.size && count == operand_count(f) && types@ == f.operand_types@);
        let ghost end = start + step_width(f);
        proof {
            lemma_operands_width_monotone(types@, 0, count as int);
        }
        let words = match self.read_words(first.value, clock, Ghost(start), Ghost(m0), size) {
            Some(w) => w,
            None => {
                return Some(Err(VmImportError::UnexpectedEndOfTrace));
            },
        };
        let operands = match self.read_operands(clock, Ghost(start), Ghost(m0), Ghost(f), size, count, &types) {
            Some(o) => o,
            None => {
                return Some(Err(VmImportError::UnexpectedEndOfTrace));
            },
        };
        let bundle = ExecutionBundle {
            registers,
            clock,
            instruction: InstructionAccess {
                instruction: Instruction { opcode, words },
                prev_clock: first_arg.prev_clock,
            },
            operands,
        };
        self.clock = self.clock + 1;
        proof {
            let step = self.memory_log@.subrange(start, end);
            lemma_push_all_prefix(m0, step, 1, clock);
            assert(step.subrange(0, 1) =~= self.memory_log@.subrange(start, start + 1));
            assert(step.subrange(0, size as int) =~= self.memory_log@.subrange(start, start + size));
            let full = spec_push_all(m0, step, clock).1;
            lemma_push_all_len(m0, step, clock);
            assert(full.subrange(0, 1) == first_args);
            assert(full[0] == full.subrange(0, 1)[0]);
            let expected = spec_bundle(registers, clock, f, step, full);
            assert(self.memory_log@.subrange(start, self.memory_pos as int) == step);
            assert(bundle@.opcode == expected.opcode);
            assert(bundle@.words == expected.words);
            assert(bundle@.prev_clock == expected.prev_clock);
            assert(bundle@.operands == expected.operands);
            assert(bundle@ == expected);
        }
        Some(Ok(bundle))
    }

    /// Reads and replays the remaining words of an instruction of `size`
    /// words whose first word, at position `start`, was already replayed.
    fn read_words(&mut self, first: M31, clock: M31, Ghost(start): Ghost<int>, Ghost(m0): Ghost<MemoryModel>, size: usize) -> (r: Option<Vec<M31>>)
        requires
            old(self).wf(),
            1 <= size <= 8,
            0 <= start,
            old(self).memory_pos == start + 1,
            old(self).memory_log@[start].value == first,
            old(self).replayed(m0, start, clock).0 == old(self).memory.model(),
        ensures
            final(self).wf(),
            final(self).frame(*old(self)),
            final(self).replayed(m0, start, clock).0 == final(self).memory.model(),
            start + size <= old(self).memory_log@.len() ==> r is Some && final(self).memory_pos == start
                + size && r->0@ == old(self).memory_log@.subrange(start, start + size).map_values(
                |e: LoggedAccess| e.value,
            ),
            start + size > old(self).memory_log@.len() ==> r is None && final(self).memory_pos
                == old(self).memory_log@.len(),
    {
        let ghost log = self.memory_log@;
        let mut words: Vec<M31> = Vec::new();
        words.push(first);
        proof {
            assert(words@ =~= log.subrange(start, start + 1).map_values(|e: LoggedAccess| e.value));
        }
        let mut i: usize = 1;
        while i < size
            invariant
                self.wf(),
                self.frame(*old(self)),
                log == self.memory_log@,
                0 <= start,
                1 <= i <= size,
                size <= 8,
                self.memory_pos == start + i,
                self.replayed(m0, start, clock).0 == self.memory.model(),
                words@ == log.subrange(start, start + i).map_values(|e: LoggedAccess| e.value),
            decreases size - i,
        {
            let ghost pos = self.memory_pos as int;
            proof {
                lemma_push_all_len(m0, log.subrange(start, pos), clock);
            }
            let ghost before = self.replayed(m0, start, clock).1;
            match self.take_access(clock, Ghost(start), Ghost(m0)) {
                Some(a) => {
                    words.push(a.value);
                    proof {
                        lemma_push_all_len(m0, log.subrange(start, pos + 1), clock);
                        assert(self.replayed(m0, start, clock).1 == before + seq![a]);
                        assert(self.replayed(m0, start, clock).1[pos - start] == a);
                        assert(log.subrange(start, pos + 1)[pos - start] == log[pos]);
                        assert(a.value == log[pos].value);
                        assert(words@ =~= log.subrange(start, start + i + 1).map_values(
                            |e: LoggedAccess| e.value,
                        ));
                    }
                },
                None => {
                    return None;
                },
            }
            i = i + 1;
        }
        Some(words)
    }

    /// Reads and replays the operands of a step in format `f` whose `size`
    /// instruction words, from position `start`, were already replayed.
    fn read_operands(
        &mut self,
        clock: M31,
        Ghost(start): Ghost<int>,
        Ghost(m0): Ghost<MemoryModel>,
        Ghost(f): Ghost<OpcodeFormat>,
        size: usize,
        count: usize,
        types: &Vec<DataType>,
    ) -> (r: Option<[Option<DataAccess>; 3]>)
        requires
            old(self).wf(),
            format_ok(f),
            size == f.size,
            count == operand_count(f),
            types@ == f.operand_types@,
            0 <= start,
            old(self).memory_pos == start + size,
            old(self).replayed(m0, start, clock).0 == old(self).memory.model(),
        ensures
            final(self).wf(),
            final(self).frame(*old(self)),
            final(self).replayed(m0, start, clock).0 == final(self).memory.model(),
            start + step_width(f) <= old(self).memory_log@.len() ==> r is Some && final(self).memory_pos
                == start + step_width(f) && r->0@ == seq![
                operand_slot(f, final(self).replayed(m0, start, clock).1, 0),
                operand_slot(f, final(self).replayed(m0, start, clock).1, 1),
                operand_slot(f, final(self).replayed(m0, start, clock).1, 2),
            ],
            start + step_width(f) > old(self).memory_log@.len() ==> r is None && final(self).memory_pos
                == old(self).memory_log@.len(),
    {
        let ghost log = self.memory_log@;
        let ghost len = log.len() as int;
        let ghost end = start + step_width(f);
        let ghost full = spec_push_all(m0, log.subrange(start, end), clock).1;
        proof {
            lemma_operands_width_monotone(types@, 0, count as int);
        }
        let mut ops: Vec<Option<DataAccess>> = Vec::new();
        let mut k: usize = 0;
        while k < count
            invariant
                self.wf(),
                self.frame(*old(self)),
                log == self.memory_log@,
                len == log.len(),
                end == start + step_width(f),
                full == spec_push_all(m0, log.subrange(start, end), clock).1,
                format_ok(f),
                size == f.size,
                count == operand_count(f),
                types@ == f.operand_types@,
                0 <= start,
                k <= count,
                self.memory_pos == start + size + operands_width(types@, k as int),
                self.replayed(m0, start, clock).0 == self.memory.model(),
                ops@.len() == k,
                end <= len ==> forall|j: int| 0 <= j < k ==> ops@[j] == #[trigger] operand_slot(f, full, j),
            decreases count - k,
        {
            proof {
                lemma_operands_width_monotone(types@, k + 1, count as int);
                lemma_operands_width_monotone(types@, 0, k as int);
            }
            let ghost off = start + size + operands_width(types@, k as int);
            proof {
                lemma_push_all_len(m0, log.subrange(start, self.memory_pos as int), clock);
            }
            let ghost before = self.replayed(m0, start, clock).1;
            proof {
                if end <= len {
                    lemma_push_all_len(m0, log.subrange(start, end), clock);
                }
            }
            match types[k] {
                DataType::Felt => {
                    let a = match self.take_access(clock, Ghost(start), Ghost(m0)) {
                        Some(a) => a,
                        None => {
                            return None;
                        },
                    };
                    proof {
                        if end <= len {
                            lemma_push_all_prefix(m0, log.subrange(start, end), off + 1 - start, clock);
                            assert(log.subrange(start, end).subrange(0, off + 1 - start) =~= log.subrange(
                                start,
                                off + 1,
                            ));
                            assert(self.replayed(m0, start, clock).1 == before + seq![a]);
                            assert(full.subrange(0, off + 1 - start) == before + seq![a]);
                            assert(full.subrange(0, off + 1 - start)[off - start] == a);
                        }
                    }
                    ops.push(
                        Some(
                            DataAccess {
                                address: a.address,
                                prev_clock: a.prev_clock,
                                prev_value: MemoryValue { limb0: a.prev_val, limb1: M31::zero() },
                                value: MemoryValue { limb0: a.value, limb1: M31::zero() },
                            },
                        ),
                    );
                    assert(end <= len ==> ops@[k as int] == operand_slot(f, full, k as int));
                },
                DataType::U32 => {
                    let low = match self.take_access(clock, Ghost(start), Ghost(m0)) {
                        Some(a) => a,
                        None => {
                            return None;
                        },
                    };
                    let high = match self.take_access(clock, Ghost(start), Ghost(m0)) {
                        Some(a) => a,
                        None => {
                            return None;
                        },
                    };
                    proof {
                        if end <= len {
                            lemma_push_all_prefix(m0, log.subrange(start, end), off + 2 - start, clock);
                            assert(log.subrange(start, end).subrange(0, off + 2 - start) =~= log.subrange(
                                start,
                                off + 2,
                            ));
                            assert(full.subrange(0, off + 2 - start) == before + seq![low] + seq![high]);
                            assert(full.subrange(0, off + 2 - start)[off - start] == low);
                            assert(full.subrange(0, off + 2 - start)[off + 1 - start] == high);
                        }
                    }
                    ops.push(
                        Some(
                            DataAccess {
                                address: low.address,
                                prev_clock: low.prev_clock,
                                prev_value: MemoryValue { limb0: low.prev_val, limb1: high.prev_val },
                                value: MemoryValue { limb0: low.value, limb1: high.value },
                            },
                        ),
                    );
                    assert(end <= len ==> ops@[k as int] == operand_slot(f, full, k as int));
                },
            }
            k = k + 1;
        }
        let o0 = if 0 < ops.len() { ops[0] } else { None };
        let o1 = if 1 < ops.len() { ops[1] } else { None };
        let o2 = if 2 < ops.len() { ops[2] } else { None };
        let r = [o0, o1, o2];
        proof {
            assert(self.memory_log@.subrange(start, self.memory_pos as int) =~= log.subrange(start, end));
            assert(r@ =~= seq![operand_slot(f, full, 0), operand_slot(f, full, 1), operand_slot(f, full, 2)]);
        }
        Some(r)
    }

    /// Reads the next logged access and replays it at `clock`, extending the
    /// replay of the accesses read since position `start`.
    fn take_access(&mut self, clock: M31, Ghost(start): Ghost<int>, Ghost(m0): Ghost<MemoryModel>) -> (r: Option<MemoryArg>)
        requires
            old(self).wf(),
            0 <= start <= old(self).memory_pos,
            spec_push_all(m0, old(self).memory_log@.subrange(start, old(self).memory_pos as int), clock).0
                == old(self).memory.model(),
        ensures
            final(self).wf(),
            final(self).trace == old(self).trace,
            final(self).trace_pos == old(self).trace_pos,
            final(self).memory_log == old(self).memory_log,
            final(self).clock == old(self).clock,
            final(self).final_registers == old(self).final_registers,
            final(self).formats == old(self).formats,
            spec_push_all(m0, final(self).memory_log@.subrange(start, final(self).memory_pos as int), clock)
                == (final(self).memory.model(), spec_push_all(
                m0,
                old(self).memory_log@.subrange(start, old(self).memory_pos as int),
                clock,
            ).1 + match r {
                Some(a) => seq![a],
                None => Seq::<MemoryArg>::empty(),
            }),
            old(self).memory_pos < old(self).memory_log@.len() ==> r is Some && final(self).memory_pos
                == old(self).memory_pos + 1,
            old(self).memory_pos >= old(self).memory_log@.len() ==> r is None && final(self).memory_pos
                == old(self).memory_pos,
    {
        let ghost pos = self.memory_pos as int;
        match self.read_entry() {
            Some(e) => {
                proof {
                    lemma_push_all_extend(m0, self.memory_log@, start, pos, clock);
                    lemma_push_keeps_memories_aligned(self.memory.model(), access_at(e, clock));
                }
                let a = self.memory.push(MemoryEntry { address: e.addr, value: e.value, clock });
                proof {
                    let before = spec_push_all(m0, self.memory_log@.subrange(start, pos), clock);
                    assert(before.1 + seq![a] =~= before.1.push(a));
                }
                Some(a)
            },
            None => {
                proof {
                    let before = spec_push_all(m0, self.memory_log@.subrange(start, pos), clock);
                    assert(before.1 + Seq::<MemoryArg>::empty() =~= before.1);
                }
                None
            },
        }
    }
}

} // verus!

verus! {

/// The leaf key of an address below `2^28`: depth 30 in the low half, the
/// address in the high half.
pub open spec fn is_small_leaf(k: u64) -> bool {
    k % 0x1_0000_0000 == TREE_HEIGHT && k / 0x1_0000_0000 < 0x1000_0000
}

/// The memory's cells are leaves of addresses below `2^28`, at most `count`
/// of them, the same in both memories.
pub open spec fn cells_fit(m: MemoryModel, count: nat) -> bool {
    &&& m.0.dom() == m.1.dom()
    &&& m.1.dom().finite()
    &&& m.1.dom().len() <= count
    &&& forall|k: u64| #[trigger] m.1.contains_key(k) ==> is_small_leaf(k)
}

/// The leaf key of a small address is a small leaf, and its high half is
/// the address.
pub proof fn lemma_leaf_key_small(a: M31)
    requires
        a.0 < 0x1000_0000,
    ensures
        is_small_leaf(leaf_key(a)),
        leaf_key(a) / 0x1_0000_0000 == a.0,
        leaf_key(a) == a.0 * 0x1_0000_0000 + TREE_HEIGHT,
{
    let k = a.0 as int * 0x1_0000_0000 + TREE_HEIGHT as int;
    assert(k < 0x1_0000_0000_0000_0000) by (nonlinear_arith)
        requires
            k == a.0 as int * 0x1_0000_0000 + TREE_HEIGHT as int,
            a.0 < 0x1000_0000,
    ;
    assert(leaf_key(a) == k);
    vstd::arithmetic::div_mod::lemma_fundamental_div_mod_converse(k, 0x1_0000_0000, a.0 as int, TREE_HEIGHT as int);
}

/// One access to a small address keeps the cells fitting, with one more cell
/// allowed.
pub proof fn lemma_push_fits(m: MemoryModel, entry: MemoryEntry, count: nat)
    requires
        cells_fit(m, count),
        entry.address.0 < 0x1000_0000,
    ensures
        cells_fit(spec_push(m, entry).0, count + 1),
{
    lemma_push_keeps_memories_aligned(m, entry);
    lemma_leaf_key_small(entry.address);
    let k = leaf_key(entry.address);
    let new_final = spec_push(m, entry).0.1;
    assert(new_final.dom() =~= m.1.dom().insert(k));
    if !m.1.dom().contains(k) {
        assert(new_final.dom().len() == m.1.dom().len() + 1);
    } else {
        assert(m.1.dom().insert(k) =~= m.1.dom());
    }
}

/// Accesses to small addresses keep the cells fitting, with one more cell
/// allowed per access.
pub proof fn lemma_push_all_fits(m: MemoryModel, entries: Seq<LoggedAccess>, clock: M31, count: nat)
    requires
        cells_fit(m, count),
        forall|i: int| 0 <= i < entries.len() ==> (#[trigger] entries[i]).addr.0 < 0x1000_0000,
    ensures
        cells_fit(spec_push_all(m, entries, clock).0, count + entries.len()),
    decreases entries.len(),
{
    if entries.len() > 0 {
        let before = entries.drop_last();
        assert forall|i: int| 0 <= i < before.len() implies (#[trigger] before[i]).addr.0 < 0x1000_0000 by {
            assert(before[i] == entries[i]);
        }
        lemma_push_all_fits(m, before, clock, count);
        assert(entries.last() == entries[entries.len() - 1]);
        lemma_push_fits(
            spec_push_all(m, before, clock).0,
            access_at(entries.last(), clock),
            (count + before.len()) as nat,
        );
    }
}

/// A step of the iterator over a log of small addresses keeps the cells
/// fitting, with one more cell allowed per logged access consumed.
pub proof fn lemma_next_fits(s: IteratorView, base: nat)
    requires
        0 <= s.memory_pos <= s.memory_log.len(),
        cells_fit(s.memory, (base + s.memory_pos) as nat),
        forall|i: int| 0 <= i < s.memory_log.len() ==> (#[trigger] s.memory_log[i]).addr.0 < 0x1000_0000,
    ensures
        spec_next(s).0.memory_log == s.memory_log,
        s.memory_pos <= spec_next(s).0.memory_pos <= s.memory_log.len(),
        cells_fit(spec_next(s).0.memory, (base + spec_next(s).0.memory_pos) as nat),
{
    reveal(spec_next);
    let len = s.memory_log.len() as int;
    if s.trace_pos < s.trace.len() && s.trace_pos + 1 < s.trace.len() && s.memory_pos < len {
        let first = s.memory_log[s.memory_pos];
        let clock = M31(fmod(s.clock as int) as u32);
        match format_of(s.formats, first.value.0) {
            None => {
                lemma_push_fits(s.memory, access_at(first, clock), (base + s.memory_pos) as nat);
            },
            Some(f) => {
                let end = s.memory_pos + step_width(f);
                let stop = if end > len {
                    len
                } else {
                    end
                };
                lemma_operands_width_monotone(f.operand_types@, 0, operand_count(f));
                assert(s.memory_pos <= stop <= len);
                {
                    let taken = s.memory_log.subrange(s.memory_pos, stop);
                    assert forall|i: int| 0 <= i < taken.len() implies (#[trigger] taken[i]).addr.0
                        < 0x1000_0000 by {
                        assert(taken[i] == s.memory_log[s.memory_pos + i]);
                    }
                    lemma_push_all_fits(s.memory, taken, clock, (base + s.memory_pos) as nat);
                }
            },
        }
    }
}

} // verus!
