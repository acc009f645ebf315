use cairo_m_prover::components::clock_update::{row_lookups, trace_row, Claim, Eval};
use cairo_m_prover::field::{M31, QM31};
use cairo_m_prover::memory::RC20_LIMIT;

fn update(address: u32, clock: u32, value: u32) -> (M31, M31, QM31) {
    (M31(address), M31(clock), QM31(M31(value), M31(0), M31(0), M31(0)))
}

#[test]
fn clock_update_row_and_lookups() {
    let u = update(7, 5, 42);
    let row = trace_row(M31(1), &u);
    assert_eq!(row, [1, 7, 5, 42, 0, 0, 0].map(M31));
    assert_eq!(Eval { claim: Claim { log_size: 4 } }.evaluate(&row), vec![M31(0)]);
    let l = row_lookups(&u);
    assert_eq!(l[0], [7, 5, 42, 0, 0, 0].map(M31));
    assert_eq!(l[1], [7, 5 + RC20_LIMIT, 42, 0, 0, 0].map(M31));
}

#[test]
fn clock_updates_chain_in_the_memory_relation() {
    let updates: Vec<_> = (0..3).map(|i| update(9, 2 + i * RC20_LIMIT, 1)).collect();
    for w in updates.windows(2) {
        assert_eq!(row_lookups(&w[0])[1], row_lookups(&w[1])[0]);
    }
    let (claim, rows, data) = Claim::write_trace(&updates);
    assert_eq!(claim.log_size, 4);
    assert_eq!(rows.len(), 16);
    assert_eq!(data.non_padded_length, 3);
    assert_eq!(rows[2][0], M31(1));
    assert_eq!(rows[3], [M31(0); 7]);
    assert_eq!(data.lookup_data[3][1][1], M31(RC20_LIMIT));
}
