use vstd::prelude::*;

verus! {

/// Everything that can go wrong while loading or interpreting a program.
///
/// Every error is reported synchronously from the call that detects it and is
/// fatal to the current run: the driver decides whether to halt, reset, or
/// surface it to the user.
#[derive(Debug, PartialEq, Eq)]
pub enum Error {
    /// A recognized opcode category whose concrete form is not executable
    /// (for example the "call machine code routine" instruction).
    InvalidOpcodeError(String),
    /// An opcode whose top-level category itself is not recognized.
    UnknownOpcodeError(u16),
    /// A ROM image larger than the addressable space reserved for it.
    InvalidRomSizeError,
    /// A subroutine call when the call stack is already full.
    StackOverflowError,
    /// A subroutine return when the call stack is empty.
    StackUnderflowError,
    /// The program counter or a data address range runs off the end of memory.
    InvalidRamAddressError,
    /// A cycle was attempted before any ROM was loaded.
    MissingRomError,
}

} // verus!
