use cairo_m_prover::field::{M31, P, QM31};
use cairo_m_prover::io::{
    IoMemoryEntry, IoTraceEntry, MemoryEntryIter, MemoryTraceMetadata, RunnerMemoryEntry, State,
};

#[test]
fn trace_entry_reduces_registers_into_the_field() {
    let state = IoTraceEntry { fp: P + 3, pc: 7 }.to_state();
    assert_eq!(state, State { pc: M31(7), fp: M31(3) });
    let via_from: State = IoTraceEntry { fp: 1, pc: P }.into();
    assert_eq!(via_from, State { pc: M31(0), fp: M31(1) });
}

#[test]
fn memory_entry_keeps_the_raw_coordinates() {
    let entry = IoMemoryEntry { address: P + 5, value: [1, 2, 3, P] }.to_runner_entry();
    assert_eq!(entry.addr, M31(5));
    assert_eq!(entry.value, QM31(M31(1), M31(2), M31(3), M31(P)));
}

#[test]
fn runner_entry_is_replayed_by_its_first_coordinate() {
    let entry = RunnerMemoryEntry { addr: M31(9), value: QM31(M31(4), M31(5), M31(6), M31(7)) };
    let access = entry.to_logged_access();
    assert_eq!(access.addr, M31(9));
    assert_eq!(access.value, M31(4));
}

#[test]
fn memory_reader_reports_the_header_program_length() {
    let mut iter = MemoryEntryIter::with_metadata(vec![1u8, 2, 3], MemoryTraceMetadata { program_length: 12 });
    assert_eq!(iter.program_length(), 12);
    assert_eq!(iter.reader_mut().len(), 3);
    assert_eq!(iter.program_length(), 12);
}
