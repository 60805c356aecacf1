//! The errors of the virtual machine.

use vstd::prelude::*;
use crate::instruction::{Instruction, InstructionWord};

verus! {

/// Why a cycle of the machine could not be carried out. No error leaves a
/// trace in the machine: the state is as it was before the cycle, so the
/// program counter still names the instruction that failed.
#[derive(Clone, Copy, Debug, PartialEq, Eq, Structural)]
pub enum Error {
    /// The word fetched matches the pattern of no instruction.
    UnrecognizedInstruction(InstructionWord),
    /// The program counter leaves no room in memory for a two-byte word.
    FetchOutOfBounds { pc: u16 },
    /// A call was made with sixteen return addresses already on the stack.
    StackOverflow { pc: u16, instruction: Instruction },
    /// A return was made with no return address on the stack.
    StackUnderflow { pc: u16, instruction: Instruction },
    /// The instruction would read or write memory at or above address 4096.
    OutOfBoundsMemoryAccess { pc: u16, instruction: Instruction },
    /// The instruction asks about a key whose number is above 15.
    KeyOutOfRange { pc: u16, instruction: Instruction },
    /// The instruction is `Sys`, which this machine does not carry out.
    UnsupportedInstruction { pc: u16, instruction: Instruction },
}

impl Error {
    /// A short description of the error.
    pub fn description(&self) -> (text: &'static str)
        ensures
            text@ == (match *self {
                Error::UnrecognizedInstruction(_) => "unrecognized instruction"@,
                Error::FetchOutOfBounds { .. } => "program counter out of bounds"@,
                Error::StackOverflow { .. } => "stack overflow"@,
                Error::StackUnderflow { .. } => "stack underflow"@,
                Error::OutOfBoundsMemoryAccess { .. } => "out of bounds memory access"@,
                Error::KeyOutOfRange { .. } => "key out of range"@,
                Error::UnsupportedInstruction { .. } => "unsupported instruction"@,
            }),
    {
        match *self {
            Error::UnrecognizedInstruction(_) => "unrecognized instruction",
            Error::FetchOutOfBounds { .. } => "program counter out of bounds",
            Error::StackOverflow { .. } => "stack overflow",
            Error::StackUnderflow { .. } => "stack underflow",
            Error::OutOfBoundsMemoryAccess { .. } => "out of bounds memory access",
            Error::KeyOutOfRange { .. } => "key out of range",
            Error::UnsupportedInstruction { .. } => "unsupported instruction",
        }
    }
}

} // verus!
