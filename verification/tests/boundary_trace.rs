use cairo_m_prover::components::memory::{boundary_rows, trace_row, Claim, Eval, MemoryRow};
use cairo_m_prover::field::{M31, QM31};

fn qm31(x: u32) -> QM31 {
    QM31(M31(x), M31(0), M31(0), M31(0))
}

#[test]
fn boundary_rows_take_the_root_of_their_tree() {
    let initial = vec![(M31(3), (qm31(7), M31(0), M31(1))), (M31(4), (qm31(8), M31(0), M31(1)))];
    let final_entries = vec![(M31(3), (qm31(9), M31(12), M31(P_MINUS_ONE)))];
    let rows = boundary_rows(&initial, &final_entries, Some(M31(100)), Some(M31(200)));
    assert_eq!(rows.len(), 3);
    assert_eq!(
        rows[0],
        MemoryRow { address: M31(3), clock: M31(0), value: qm31(7), multiplicity: M31(1), root: M31(100) }
    );
    assert_eq!(rows[1].root, M31(100));
    assert_eq!(
        rows[2],
        MemoryRow { address: M31(3), clock: M31(12), value: qm31(9), multiplicity: M31(P_MINUS_ONE), root: M31(200) }
    );
    // An empty final memory needs no final root.
    assert_eq!(boundary_rows(&initial, &vec![], Some(M31(100)), None).len(), 2);
}

const P_MINUS_ONE: u32 = 0x7fff_fffe;

#[test]
fn boundary_trace_emits_the_four_leaves_of_each_entry() {
    let row = MemoryRow {
        address: M31(5),
        clock: M31(2),
        value: QM31(M31(10), M31(11), M31(12), M31(13)),
        multiplicity: M31(1),
        root: M31(77),
    };
    let (claim, trace, data) = Claim::write_trace(&vec![row]);
    assert_eq!(claim.log_size, 4);
    assert_eq!(trace.len(), 16);
    assert_eq!(data.non_padded_length, 1);
    assert_eq!(trace[0], [1, 5, 2, 10, 11, 12, 13, 1, 77].map(M31));
    assert_eq!(trace[1], [M31(0); 9]);
    assert_eq!(data.lookup_data[0].memory, [5, 2, 10, 11, 12, 13].map(M31));
    assert_eq!(
        data.lookup_data[0].merkle,
        [[20, 30, 10, 77], [21, 30, 11, 77], [22, 30, 12, 77], [23, 30, 13, 77]].map(|l| l.map(M31))
    );
    let eval = Eval { claim };
    for r in &trace {
        assert_eq!(eval.evaluate(r), vec![M31(0)]);
    }
    assert_eq!(trace_row(M31(1), &row), trace[0]);
}

#[test]
fn boundary_row_with_a_non_boolean_enabler_is_caught() {
    let eval = Eval { claim: Claim { log_size: 4 } };
    let mut r = trace_row(M31(1), &MemoryRow { address: M31(1), clock: M31(0), value: qm31(1), multiplicity: M31(1), root: M31(0) });
    r[0] = M31(2);
    assert_ne!(eval.evaluate(&r), vec![M31(0)]);
}
