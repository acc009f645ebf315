//! Witness preparation for the Cairo-M prover: the VM's opcodes, the prover's
//! memory model, partial Merkle commitments of memory, and the per-row witness
//! arithmetic of the AIR components, all over the Mersenne-31 field.
pub mod adapter;
pub mod components;
pub mod field;
pub mod instructions;
pub mod io;
pub mod memory;
pub mod merkle;
pub mod partial_merkle;
pub mod poseidon;
