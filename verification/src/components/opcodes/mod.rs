//! The opcode components.
use crate::memory::ExecutionBundle;
use std::collections::HashMap;
use vstd::prelude::*;

pub mod double_deref_fp_imm;
pub mod jmp_abs_add_fp_imm;
pub mod store_fp_imm;
pub mod store_le_fp_imm;
pub mod store_to_double_deref_fp_fp;
pub mod u32_store_bitwise_fp_fp;
pub mod u32_store_div_fp_imm;
pub mod u32_store_eq_fp_fp;
pub mod u32_store_imm;
pub mod u32_store_mul_fp_imm;

verus! {

broadcast use vstd::std_specs::hash::group_hash_axioms;

/// The bundles a component proving `opcodes` takes from the groups `m`: the
/// group of each opcode in turn, in the order listed; an opcode listed twice
/// finds its group already taken.
pub open spec fn grouped_states(m: Map<u32, Vec<ExecutionBundle>>, opcodes: Seq<u32>) -> Seq<ExecutionBundle>
    decreases opcodes.len(),
{
    if opcodes.len() == 0 {
        Seq::empty()
    } else {
        let prev = grouped_states(m, opcodes.drop_last());
        let op = opcodes.last();
        if m.contains_key(op) && !opcodes.drop_last().contains(op) {
            prev + m[op]@
        } else {
            prev
        }
    }
}

/// The groups after a component took those of `opcodes`: each listed opcode
/// holds an empty group, every other group is unchanged.
pub open spec fn groups_taken(
    before: Map<u32, Vec<ExecutionBundle>>,
    after: Map<u32, Vec<ExecutionBundle>>,
    opcodes: Seq<u32>,
) -> bool {
    &&& after.dom() == before.dom() + opcodes.to_set()
    &&& forall|op: u32| #[trigger] opcodes.contains(op) ==> after[op]@ == Seq::<ExecutionBundle>::empty()
    &&& forall|op: u32|
        #[trigger] before.contains_key(op) && !opcodes.contains(op) ==> after[op] == before[op]
}

/// Takes out of `states_by_opcodes` the bundles of the opcodes one component
/// proves, each opcode's group in turn, leaving their groups empty.
pub fn take_states(states_by_opcodes: &mut HashMap<u32, Vec<ExecutionBundle>>, opcodes: &[u32]) -> (r: Vec<
    ExecutionBundle,
>)
    ensures
        r@ == grouped_states(old(states_by_opcodes)@, opcodes@),
        groups_taken(old(states_by_opcodes)@, final(states_by_opcodes)@, opcodes@),
{
    let ghost m0 = states_by_opcodes@;
    let mut grouped: Vec<ExecutionBundle> = Vec::new();
    let mut i: usize = 0;
    proof {
        assert(opcodes@.take(0).to_set() =~= Set::<u32>::empty());
        assert(states_by_opcodes@.dom() =~= m0.dom() + opcodes@.take(0).to_set());
    }
    while i < opcodes.len()
        invariant
            i <= opcodes@.len(),
            grouped@ == grouped_states(m0, opcodes@.take(i as int)),
            groups_taken(m0, states_by_opcodes@, opcodes@.take(i as int)),
        decreases opcodes@.len() - i,
    {
        let ghost before = states_by_opcodes@;
        let ghost done = opcodes@.take(i as int);
        let op = opcodes[i];
        let mut group = match states_by_opcodes.remove(&op) {
            Some(g) => g,
            None => Vec::new(),
        };
        proof {
            let next = opcodes@.take(i + 1);
            assert(next.drop_last() =~= done);
            assert(next.last() == op);
            if done.contains(op) {
                assert(group@ == Seq::<ExecutionBundle>::empty());
            } else if m0.contains_key(op) {
                assert(group == m0[op]);
            } else {
                assert(!before.contains_key(op));
            }
        }
        grouped.append(&mut group);
        states_by_opcodes.insert(op, group);
        proof {
            let next = opcodes@.take(i + 1);
            let after = states_by_opcodes@;
            assert(next.to_set() =~= done.to_set().insert(op));
            assert(after.dom() =~= m0.dom() + next.to_set());
            assert forall|o: u32| #[trigger] next.contains(o) implies after[o]@ == Seq::<ExecutionBundle>::empty() by {
                if o != op {
                    let j = choose|j: int| 0 <= j < next.len() && next[j] == o;
                    assert(done[j] == o);
                    assert(done.contains(o));
                    assert(after[o] == before[o]);
                } else {
                    assert(after[o] == group);
                }
            }
            assert forall|o: u32| #[trigger] m0.contains_key(o) && !next.contains(o) implies after[o] == m0[o] by {
                assert(!done.contains(o)) by {
                    if done.contains(o) {
                        let j = choose|j: int| 0 <= j < done.len() && done[j] == o;
                        assert(next[j] == o);
                    }
                }
                assert(o != op) by {
                    assert(next[i as int] == op);
                }
            }
        }
        i = i + 1;
    }
    proof {
        assert(opcodes@.take(i as int) =~= opcodes@);
    }
    grouped
}

} // verus!
