use vstd::prelude::*;

use crate::machine::instruction::{Instruction, OpCode};

verus! {

/// Why a run of characters could not be read as a number.
#[derive(Clone, Copy, Debug, PartialEq, Eq, Structural)]
pub enum IntErrorKind {
    /// There were no digits at all.
    Empty,
    /// A character that is not a digit of the radix was found.
    InvalidDigit,
    /// The number does not fit in the target type.
    PosOverflow,
}

#[derive(Clone, Debug, PartialEq, Eq)]
pub enum Error {
    ParseIntError(IntErrorKind),
    IntSizeError(String, u32),
    MetaSyntaxError(String),
    SyntaxError(String),
    OpCodeSyntaxError(String),
    NoOpcodeError(Instruction),
    InvalidOpCode(OpCode),
    /// The machine has no behaviour for this instruction.
    UnsupportedInstruction(Instruction),
    /// Reading or writing a file failed; the message says why.
    IoError(String),
    MachineExit,
}

pub type Result<T> = core::result::Result<T, Error>;

/// An error with its message left out: what contracts say of errors.
#[derive(Clone, Copy, Debug, PartialEq, Eq, Structural)]
pub enum ErrorClass {
    ParseInt(IntErrorKind),
    IntSize(u32),
    MetaSyntax,
    Syntax,
    OpCodeSyntax,
    NoOpcode(Instruction),
    InvalidOpCode(OpCode),
    UnsupportedInstruction(Instruction),
    Io,
    MachineExit,
}

impl Error {
    pub open spec fn class(self) -> ErrorClass {
        match self {
            Error::ParseIntError(kind) => ErrorClass::ParseInt(kind),
            Error::IntSizeError(_, v) => ErrorClass::IntSize(v),
            Error::MetaSyntaxError(_) => ErrorClass::MetaSyntax,
            Error::SyntaxError(_) => ErrorClass::Syntax,
            Error::OpCodeSyntaxError(_) => ErrorClass::OpCodeSyntax,
            Error::NoOpcodeError(i) => ErrorClass::NoOpcode(i),
            Error::InvalidOpCode(o) => ErrorClass::InvalidOpCode(o),
            Error::UnsupportedInstruction(i) => ErrorClass::UnsupportedInstruction(i),
            Error::IoError(_) => ErrorClass::Io,
            Error::MachineExit => ErrorClass::MachineExit,
        }
    }
}

/// A result with the message of its error left out.
pub open spec fn classify<T>(r: Result<T>) -> core::result::Result<T, ErrorClass> {
    match r {
        Ok(v) => Ok(v),
        Err(e) => Err(e.class()),
    }
}

} // verus!
