use cairo_m_prover::adapter::{import_from_runner_output, Segment};
use cairo_m_prover::components::merkle::{Claim, Eval};
use cairo_m_prover::field::M31;
use cairo_m_prover::io::State;
use cairo_m_prover::memory::{DataType, LoggedAccess, OpcodeFormat};

fn segment() -> Segment {
    let state = |pc: u32| State { pc: M31(pc), fp: M31(10) };
    let access = |addr: u32, value: u32| LoggedAccess { addr: M31(addr), value: M31(value) };
    Segment {
        trace: vec![state(0), state(1), state(2)],
        memory_trace: vec![access(0, 0), access(10, 3), access(1, 0), access(11, 4)],
        initial_memory: vec![M31(0), M31(0), M31(0)],
    }
}

fn formats() -> Vec<Option<OpcodeFormat>> {
    vec![Some(OpcodeFormat { size: 1, memory_accesses: 1, operand_types: vec![DataType::Felt] })]
}

#[test]
fn merkle_trace_of_an_import_satisfies_every_constraint() {
    let input = import_from_runner_output(segment(), vec![M31(2)], formats()).unwrap();
    let trees = &input.merkle_trees;
    let (claim, rows) = Claim::write_trace(trees);
    let n = trees.initial_tree.len() + trees.final_tree.len();
    assert!(rows.len() >= n && rows.len() >= 16);
    assert_eq!(rows.len(), 1 << claim.log_size);
    assert_eq!(rows[0][9], trees.initial_root.unwrap());
    assert_eq!(rows[n - 1][9], trees.final_root.unwrap());
    assert_eq!(rows[n], [M31(0); 10]);
    let eval = Eval { claim };
    assert!(rows.iter().all(|r| eval.evaluate(r).iter().all(|c| *c == M31(0))));
    // Missing siblings are emitted with multiplicity 0.
    assert!(rows[..n].iter().any(|r| r[6] == M31(0) || r[7] == M31(0)));
}

#[test]
fn multiplicity_three_is_caught() {
    let input = import_from_runner_output(segment(), vec![], formats()).unwrap();
    let (claim, mut rows) = Claim::write_trace(&input.merkle_trees);
    rows[0][6] = M31(3);
    assert_ne!(Eval { claim }.evaluate(&rows[0])[1], M31(0));
}
