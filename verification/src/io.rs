//! Records of the runner's binary artifacts and the VM values they decode to.
//!
//! Reading the artifacts is I/O and stays with the caller; the records here are
//! the plain values that the readers fill, and the conversions that the prover
//! applies to them.
use crate::field::{M31, QM31, P};
use crate::memory::LoggedAccess;
use vstd::prelude::*;

verus! {

/// The VM registers at one step of execution.
#[derive(Clone, Copy, Debug, PartialEq, Eq, Structural, Default)]
pub struct State {
    /// Program counter.
    pub pc: M31,
    /// Frame pointer.
    pub fp: M31,
}

/// A memory access as logged by the runner: an address and the QM31 word there.
#[derive(Clone, Copy, Debug, PartialEq, Eq, Structural, Default)]
pub struct RunnerMemoryEntry {
    /// The accessed address.
    pub addr: M31,
    /// The word read or written.
    pub value: QM31,
}

/// One register record of the binary execution trace.
#[derive(Copy, Clone, Default, Debug, PartialEq, Eq, Structural)]
pub struct IoTraceEntry {
    /// Frame pointer, as stored.
    pub fp: u32,
    /// Program counter, as stored.
    pub pc: u32,
}

/// One record of the binary memory trace.
#[derive(Copy, Clone, Default, Debug)]
pub struct IoMemoryEntry {
    /// The accessed address.
    pub address: u32,
    /// The four coordinates of the word, as stored.
    pub value: [u32; 4],
}

/// Header of the binary memory trace.
#[derive(Copy, Clone, Default, Debug)]
pub struct MemoryTraceMetadata {
    /// Number of words of the program at the start of memory.
    pub program_length: u32,
}

/// Errors met while turning runner output into prover input.
#[derive(Debug, Clone, Copy, PartialEq, Eq, Structural)]
pub enum VmImportError {
    /// The segment has no memory.
    NoMemorySegments,
    /// The trace or the memory log ended before an instruction could be read.
    EmptyTrace,
    /// The header of the memory trace could not be read.
    MetadataError,
    /// The memory log ended inside a multi-word instruction or its operands.
    UnexpectedEndOfTrace,
    /// The first word of an instruction names no opcode.
    InvalidOpcode(M31),
    /// The words of an instruction do not decode.
    InvalidInstruction(u32),
    /// The opcode has no prover component.
    UnimplementedOpcode(u32),
    /// A memory access was found where the instruction fetch was expected.
    UnexpectedMemoryAccess { expected: M31, found: M31 },
}

impl IoTraceEntry {
    /// The registers a trace record stands for; both registers are reduced into the field.
    pub fn to_state(self) -> (r: State)
        ensures
            r.pc.0 == self.pc % P,
            r.fp.0 == self.fp % P,
    {
        State { pc: M31::from_u32(self.pc), fp: M31::from_u32(self.fp) }
    }
}

impl From<IoTraceEntry> for State {
    fn from(entry: IoTraceEntry) -> (r: State) {
        entry.to_state()
    }
}

impl vstd::std_specs::convert::FromSpecImpl<IoTraceEntry> for State {
    open spec fn obeys_from_spec() -> bool {
        true
    }

    open spec fn from_spec(entry: IoTraceEntry) -> State {
        State { pc: M31(entry.pc % P), fp: M31(entry.fp % P) }
    }
}

impl IoMemoryEntry {
    /// The runner memory entry a record stands for: the address is reduced into
    /// the field, the four coordinates are kept as stored.
    pub fn to_runner_entry(self) -> (r: RunnerMemoryEntry)
        ensures
            r.addr.0 == self.address % P,
            r.value == QM31(M31(self.value[0]), M31(self.value[1]), M31(self.value[2]), M31(self.value[3])),
    {
        RunnerMemoryEntry {
            addr: M31::from_u32(self.address),
            value: QM31::from_u32_unchecked(self.value[0], self.value[1], self.value[2], self.value[3]),
        }
    }
}

impl From<IoMemoryEntry> for RunnerMemoryEntry {
    fn from(entry: IoMemoryEntry) -> (r: RunnerMemoryEntry) {
        entry.to_runner_entry()
    }
}

impl vstd::std_specs::convert::FromSpecImpl<IoMemoryEntry> for RunnerMemoryEntry {
    open spec fn obeys_from_spec() -> bool {
        true
    }

    open spec fn from_spec(entry: IoMemoryEntry) -> RunnerMemoryEntry {
        RunnerMemoryEntry {
            addr: M31(entry.address % P),
            value: QM31(M31(entry.value[0]), M31(entry.value[1]), M31(entry.value[2]), M31(entry.value[3])),
        }
    }
}

impl RunnerMemoryEntry {
    /// The access the prover's memory replays for this entry. Its cells hold
    /// base-field values, so the word is taken by its first coordinate.
    pub fn to_logged_access(self) -> (r: LoggedAccess)
        ensures
            r.addr == self.addr,
            r.value == self.value.0,
    {
        LoggedAccess { addr: self.addr, value: self.value.0 }
    }
}

/// A reader of execution-trace records; the reading itself is done by the caller.
pub struct TraceIter<R>(pub R);

/// A reader of memory-trace records whose header has already been read.
pub struct MemoryEntryIter<R> {
    reader: R,
    metadata: MemoryTraceMetadata,
}

impl<R> MemoryEntryIter<R> {
    /// The header this reader was built with.
    pub closed spec fn spec_metadata(&self) -> MemoryTraceMetadata {
        self.metadata
    }

    /// The underlying reader.
    pub closed spec fn spec_reader(&self) -> R {
        self.reader
    }

    /// Pairs a reader, positioned after the header, with the header read from it.
    pub fn with_metadata(reader: R, metadata: MemoryTraceMetadata) -> (r: Self)
        ensures
            r.spec_metadata() == metadata,
            r.spec_reader() == reader,
    {
        Self { reader, metadata }
    }

    /// The program length recorded in the header.
    pub fn program_length(&self) -> (r: usize)
        ensures
            r == self.spec_metadata().program_length,
    {
        self.metadata.program_length as usize
    }

    /// The underlying reader, to read the records that follow the header.
    pub fn reader_mut(&mut self) -> (r: &mut R)
        ensures
            *r == old(self).spec_reader(),
            final(self).spec_metadata() == old(self).spec_metadata(),
            final(self).spec_reader() == *final(r),
    {
        &mut self.reader
    }
}

} // verus!
