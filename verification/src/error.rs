//! Error taxonomy of the simulator.
//!
//! Five kinds of failure surface to the driver: ELF loading, CPU execution,
//! memory access, instruction decoding, and configuration.  Every variant
//! carries plain values so that contracts can speak about it exactly.

use vstd::prelude::*;

verus! {

/// Top-level error type for the simulator.
#[derive(Clone, Copy, Debug, PartialEq, Eq, Structural)]
pub enum SimulatorError {
    /// Failure while loading the program image.
    ElfLoadError(ElfError),
    /// Failure raised by the datapath.
    ExecutionError(ExecutionError),
    /// Failure raised by the memory subsystem.
    MemoryError(MemoryError),
    /// Unknown opcode or field combination; carries the raw word and the PC.
    InvalidInstructionError(u32, u32),
    /// A failure of the surrounding I/O layer; details stay at that edge.
    IoError,
    /// An invalid configuration handed in by the surrounding layer.
    ConfigError,
}

/// Errors related to the program image and to trace input.
#[derive(Clone, Copy, Debug, PartialEq, Eq, Structural)]
pub enum ElfError {
    /// The image file could not be read (raised at the I/O edge).
    FileReadError,
    /// The input could not be parsed; carries the offending line number.
    ParseError(usize),
    /// The image is structurally invalid.
    InvalidFormat,
    /// A segment does not fit in the 32-bit address space.
    AddressOutOfBounds(u32),
    /// The image is not for this machine; carries the machine field.
    InvalidMachine(u16),
}

/// Errors related to CPU execution.
#[derive(Clone, Copy, Debug, PartialEq, Eq, Structural)]
pub enum ExecutionError {
    /// The stack pointer left the stack: carries (sp, base, size).
    StackOverflow(u32, u32, u32),
    /// A system call number outside the supported set.
    UnknownSystemCall(i32),
    /// The caller-supplied cycle budget ran out before the program exited.
    ExecutionLimitReached(u64),
    /// A read system call found no more input bytes.
    InputExhausted,
    /// Predictor mismatch in diagnostic modes: (predicted, actual).
    BranchPredictionFailure(bool, bool),
}

/// Errors related to memory operations.
#[derive(Clone, Copy, Debug, PartialEq, Eq, Structural)]
pub enum MemoryError {
    /// A read or write failed at the given address.
    AccessError { address: u32, kind: MemoryErrorKind },
    /// A sized access was not naturally aligned: (address, required alignment).
    AlignmentError(u32, u32),
    /// No page is mapped at the given address.
    PageNotAllocated(u32),
    /// A hierarchy audit found the inclusion or exclusion invariant broken
    /// at the given level.
    CacheInconsistency(usize),
}

/// Specific kinds of memory access errors.
#[derive(Clone, Copy, Debug, PartialEq, Eq, Structural)]
pub enum MemoryErrorKind {
    /// Attempted to read from unallocated memory.
    ReadUnallocated,
    /// Attempted to write to unallocated memory.
    WriteUnallocated,
    /// Attempted to access memory outside the addressable range.
    OutOfBounds,
    /// A sized access with a width other than 1, 2 or 4 bytes.
    InvalidSize(u32),
}

/// Conversion of foreign results into simulator results, implemented by the
/// surrounding I/O layer for its own error types.
pub trait IntoSimulatorResult<T> {
    fn into_simulator_result(self) -> Result<T, SimulatorError>;
}

/// Type alias for `Result` with `SimulatorError`.
pub type SimulatorResult<T> = Result<T, SimulatorError>;

} // verus!
