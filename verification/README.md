# cairo_m_prover

Witness preparation for the Cairo-M prover, verified with Verus.

- `src/field.rs` — the Mersenne-31 field `M31` and its extension `QM31`, with
  the field operations and the multiplicative inverse.
- `src/instructions.rs` — the VM's opcodes and their characteristics.
- `src/io.rs` — the records of the runner's binary traces and their conversions.
- `src/memory.rs` — the prover's memory model (`Memory::push`, clock updates) and
  the iterator that turns a register trace and a memory log into execution bundles.
- `src/merkle.rs`, `src/partial_merkle.rs`, `src/poseidon.rs` — partial Merkle
  trees of the memory and the hashes they are built with.
- `src/adapter.rs` — the import of a runner segment into the prover's input.
- `src/components/` — per AIR component: its claim and trace shape, the
  per-row witness arithmetic, and for most components the trace writer (rows
  and the lookups each row makes into the relations), the polynomial
  constraints and the proof that written rows satisfy them.

`app/` holds what needs I/O or outside derives: the readers of the runner's
binary files, the error type with its messages, and serializable claims.
