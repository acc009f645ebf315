use cairo_m_prover::field::{M31, P};
use cairo_m_prover::memory::{memory_key, Memory, MemoryEntry, RC20_LIMIT, TREE_HEIGHT};

fn leaf(address: u32) -> u64 {
    memory_key(M31(address), M31(TREE_HEIGHT))
}

fn minus_one() -> M31 {
    M31(P - 1)
}

#[test]
fn test_memory_push_first_entry() {
    let mut memory = Memory::default();

    // First memory entry - testing uninitialized cell behavior
    let first_entry = MemoryEntry { address: M31(100), value: M31(1), clock: M31(10) };

    let result = memory.push(first_entry);

    // Verify the result of the first push
    assert_eq!(result.address, M31(100));
    assert_eq!(result.prev_clock, M31(0)); // Should be 0 for first access
    assert_eq!(result.clock, M31(10));
    // For a new address, the previous value should be the same as the current value
    assert_eq!(result.prev_val, M31(1));
    assert_eq!(result.value, M31(1));

    // Verify final_memory was updated
    assert_eq!(memory.final_memory[&leaf(100)], (M31(1), M31(10), minus_one()));
    // initial_memory should now contain the first access with multiplicity 1
    assert_eq!(memory.initial_memory[&leaf(100)], (M31(1), M31(0), M31(1)));
}

#[test]
fn test_memory_push_same_address() {
    let mut memory = Memory::default();

    // First entry
    let first_entry = MemoryEntry { address: M31(100), value: M31(1), clock: M31(10) };
    memory.push(first_entry);

    // Second entry to same address
    let second_entry = MemoryEntry { address: M31(100), value: M31(5), clock: M31(20) };

    let result = memory.push(second_entry);

    // Verify the result uses previous values
    assert_eq!(result.address, M31(100));
    assert_eq!(result.prev_clock, M31(10)); // Previous clock from first entry
    assert_eq!(result.clock, M31(20));
    assert_eq!(result.prev_val, M31(1)); // Previous value
    assert_eq!(result.value, M31(5)); // New value

    // Verify final_memory was updated
    assert_eq!(memory.final_memory[&leaf(100)], (M31(5), M31(20), minus_one()));
    // initial_memory should still contain the first access
    assert_eq!(memory.initial_memory[&leaf(100)], (M31(1), M31(0), M31(1)));
}

#[test]
fn test_memory_push_different_addresses() {
    let mut memory = Memory::default();

    // First address
    let first_entry = MemoryEntry { address: M31(100), value: M31(1), clock: M31(10) };
    memory.push(first_entry);

    // Different address
    let second_entry = MemoryEntry { address: M31(200), value: M31(9), clock: M31(30) };

    let result = memory.push(second_entry);

    // Verify the result for new address
    assert_eq!(result.address, M31(200));
    assert_eq!(result.prev_clock, M31(0)); // Should be 0 for first access
    assert_eq!(result.clock, M31(30));
    assert_eq!(result.prev_val, M31(9)); // Should be same value for first access
    assert_eq!(result.value, M31(9));

    // Verify final_memory contains both addresses
    assert_eq!(memory.final_memory.len(), 2);
    assert_eq!(memory.final_memory[&leaf(100)], (M31(1), M31(10), minus_one()));
    assert_eq!(memory.final_memory[&leaf(200)], (M31(9), M31(30), minus_one()));
    // initial_memory should contain both addresses
    assert_eq!(memory.initial_memory.len(), 2);
    assert_eq!(memory.initial_memory[&leaf(100)], (M31(1), M31(0), M31(1)));
    assert_eq!(memory.initial_memory[&leaf(200)], (M31(9), M31(0), M31(1)));
}

#[test]
fn test_memory_push_multiple_large_clock_deltas() {
    let mut memory = Memory::default();

    // First entry
    let first_entry = MemoryEntry { address: M31(100), value: M31(1), clock: M31(10) };
    memory.push(first_entry);

    // Second entry with very large clock delta requiring multiple steps
    let large_delta = 3 * RC20_LIMIT + 500;
    let second_entry = MemoryEntry { address: M31(100), value: M31(5), clock: M31(10 + large_delta) };

    memory.push(second_entry);

    // Verify clock update data was generated for 3 steps
    assert_eq!(memory.clock_update_data.len(), 3);

    // Check first update
    let update1 = &memory.clock_update_data[0];
    assert_eq!(update1.1, M31(10)); // prev_clk

    // Check second update
    let update2 = &memory.clock_update_data[1];
    assert_eq!(update2.1, M31(10 + RC20_LIMIT)); // prev_clk

    // Check third update
    let update3 = &memory.clock_update_data[2];
    assert_eq!(update3.1, M31(10 + 2 * RC20_LIMIT)); // prev_clk
}

#[test]
fn test_memory_push_no_clock_update_for_small_delta() {
    let mut memory = Memory::default();

    // First entry
    let first_entry = MemoryEntry { address: M31(100), value: M31(1), clock: M31(10) };
    memory.push(first_entry);

    // Second entry with small clock delta
    let small_delta = RC20_LIMIT - 1; // Just under the limit
    let second_entry = MemoryEntry { address: M31(100), value: M31(5), clock: M31(10 + small_delta) };

    memory.push(second_entry);

    // Verify no clock update data was generated
    assert!(memory.clock_update_data.is_empty());
}

#[test]
fn test_memory_push_with_preloaded_memory() {
    // Test with some preloaded memory
    let initial_memory = vec![M31(10), M31(50)];
    let mut memory = Memory::new(initial_memory);

    // Verify initial state
    assert_eq!(memory.initial_memory.len(), 2);
    assert_eq!(memory.final_memory.len(), 2);
    assert_eq!(memory.initial_memory[&leaf(0)], (M31(10), M31(0), M31(0)));
    assert_eq!(memory.initial_memory[&leaf(1)], (M31(50), M31(0), M31(0)));

    // First push to address 0 must match the preloaded value
    let entry = MemoryEntry {
        address: M31(0),
        value: M31(10), // Must match preloaded value
        clock: M31(5),
    };
    let result = memory.push(entry);

    // Verify the push result
    assert_eq!(result.address, M31(0));
    assert_eq!(result.prev_clock, M31(0));
    assert_eq!(result.clock, M31(5));
    assert_eq!(result.prev_val, M31(10));
    assert_eq!(result.value, M31(10));

    // Initial memory multiplicity is updated to 1 on first access
    assert_eq!(memory.initial_memory[&leaf(0)], (M31(10), M31(0), M31(1)));
    // Verify final_memory was updated
    assert_eq!(memory.final_memory[&leaf(0)], (M31(10), M31(5), minus_one()));

    // Now push a different value to the same address
    let second_entry = MemoryEntry { address: M31(0), value: M31(100), clock: M31(10) };
    let result = memory.push(second_entry);

    // Verify the second push result
    assert_eq!(result.address, M31(0));
    assert_eq!(result.prev_clock, M31(5));
    assert_eq!(result.clock, M31(10));
    assert_eq!(result.prev_val, M31(10));
    assert_eq!(result.value, M31(100));

    // Verify final_memory was updated again
    assert_eq!(memory.final_memory[&leaf(0)], (M31(100), M31(10), minus_one()));
}

#[test]
fn pushes_keep_initial_and_final_memory_in_step() {
    let mut memory = Memory::new(vec![M31(7), M31(8), M31(9)]);
    let accesses = [(1u32, 5u32, 3u32), (40, 2, 4), (1, 6, 9), (2, 9, 9), (40, 3, 4 + 3 * RC20_LIMIT)];
    for (address, value, clock) in accesses {
        memory.push(MemoryEntry { address: M31(address), value: M31(value), clock: M31(clock) });
        let mut initial: Vec<u64> = memory.initial_memory.keys().copied().collect();
        let mut last: Vec<u64> = memory.final_memory.keys().copied().collect();
        initial.sort();
        last.sort();
        assert_eq!(initial, last);
    }
    for address in [1u32, 2, 40] {
        assert_eq!(memory.initial_memory[&leaf(address)].2, M31(1));
        assert_eq!(memory.final_memory[&leaf(address)].2, minus_one());
    }
    // The cell never accessed keeps multiplicity 0 and its initial value.
    assert_eq!(memory.initial_memory[&leaf(0)], (M31(7), M31(0), M31(0)));
    assert_eq!(memory.final_memory[&leaf(0)], (M31(7), M31(0), M31(0)));
    // The last access to 40 came 3 * RC20_LIMIT after the previous one.
    assert_eq!(memory.clock_update_data.len(), 3);
}

#[test]
fn clock_updates_carry_the_value_of_the_previous_access() {
    let mut memory = Memory::default();
    memory.push(MemoryEntry { address: M31(100), value: M31(1), clock: M31(10) });
    memory.push(MemoryEntry { address: M31(100), value: M31(7), clock: M31(20) });
    let arg = memory.push(MemoryEntry { address: M31(100), value: M31(7), clock: M31(20 + 2 * RC20_LIMIT) });
    assert_eq!(
        memory.clock_update_data,
        vec![(M31(100), M31(20), M31(7)), (M31(100), M31(20 + RC20_LIMIT), M31(7))]
    );
    assert_eq!(arg.prev_clock, M31(20 + 2 * RC20_LIMIT));
    assert_eq!(arg.prev_val, M31(7));
}

#[test]
fn first_access_clock_updates_carry_the_preloaded_value() {
    let mut memory = Memory::new(vec![M31(0), M31(42)]);
    memory.push(MemoryEntry { address: M31(1), value: M31(5), clock: M31(2 * RC20_LIMIT + 1) });
    assert_eq!(memory.clock_update_data, vec![(M31(1), M31(0), M31(42)), (M31(1), M31(RC20_LIMIT), M31(42))]);
    assert_eq!(memory.initial_memory[&leaf(1)], (M31(42), M31(0), M31(1)));
}
