use vstd::prelude::*;

use crate::machine::types::{Address, Byte, Nibble, Register};

verus! {

/// The two count-down timers of the machine.
#[derive(Clone, Copy, Debug, PartialEq, Eq, Structural)]
pub enum Timer {
    Delay,
    Sound,
}

/// Where the result of an arithmetic instruction goes.
#[derive(Clone, Copy, Debug, PartialEq, Eq, Structural)]
pub enum Target {
    Register(Register),
    Timer(Timer),
}

impl Target {
    pub open spec fn wf(self) -> bool {
        match self {
            Target::Register(r) => r.wf(),
            Target::Timer(_) => true,
        }
    }
}

/// Where an operand comes from.
#[derive(Clone, Copy, Debug, PartialEq, Eq, Structural)]
pub enum Source {
    Byte(Byte),
    Register(Register),
    Timer(Timer),
}

impl Source {
    pub open spec fn wf(self) -> bool {
        match self {
            Source::Register(r) => r.wf(),
            _ => true,
        }
    }
}

#[derive(Clone, Copy, Debug, PartialEq, Eq, Structural)]
pub enum BinaryOp {
    Assign,
    Add,
    AddWrapping,
    Subtract,
    /// `VX = VY - VX`
    SubtractAlt,
    BitAnd,
    BitOr,
    BitXor,
    BitShiftLeft,
    BitShiftRight,
    Random,
}

#[derive(Clone, Copy, Debug, PartialEq, Eq, Structural)]
pub struct BinaryOpArgs {
    pub target: Target,
    pub source: Source,
    pub op: BinaryOp,
}

impl BinaryOpArgs {
    pub open spec fn wf(self) -> bool {
        self.target.wf() && self.source.wf()
    }
}

#[derive(Clone, Copy, Debug, PartialEq, Eq, Structural)]
pub enum IndexSource {
    Value(Address),
    Register(Register),
}

impl IndexSource {
    pub open spec fn wf(self) -> bool {
        match self {
            IndexSource::Value(a) => a.wf(),
            IndexSource::Register(r) => r.wf(),
        }
    }
}

#[derive(Clone, Copy, Debug, PartialEq, Eq, Structural)]
pub enum IndexOp {
    Assign,
    Add,
}

#[derive(Clone, Copy, Debug, PartialEq, Eq, Structural)]
pub struct IndexOpArgs {
    pub source: IndexSource,
    pub op: IndexOp,
}

impl IndexOpArgs {
    pub open spec fn wf(self) -> bool {
        self.source.wf()
    }

    /// `I = address`
    pub fn assign(address: Address) -> (args: Self)
        ensures
            args == (IndexOpArgs { source: IndexSource::Value(address), op: IndexOp::Assign }),
    {
        Self { source: IndexSource::Value(address), op: IndexOp::Assign }
    }

    /// `I += register`
    pub fn add(register: Register) -> (args: Self)
        ensures
            args == (IndexOpArgs { source: IndexSource::Register(register), op: IndexOp::Add }),
    {
        Self { source: IndexSource::Register(register), op: IndexOp::Add }
    }
}

#[derive(Clone, Copy, Debug, PartialEq, Eq, Structural)]
pub struct DrawArgs {
    pub x: Register,
    pub y: Register,
    pub height: Nibble,
}

impl DrawArgs {
    pub open spec fn wf(self) -> bool {
        self.x.wf() && self.y.wf() && self.height.wf()
    }
}

#[derive(Clone, Copy, Debug, PartialEq, Eq, Structural)]
pub struct RegisterArgs {
    pub register: Register,
}

impl RegisterArgs {
    pub open spec fn wf(self) -> bool {
        self.register.wf()
    }
}

#[derive(Clone, Copy, Debug, PartialEq, Eq, Structural)]
pub struct JumpArgs {
    pub address: Address,
    pub register: Option<Register>,
}

impl JumpArgs {
    pub open spec fn wf(self) -> bool {
        &&& self.address.wf()
        &&& match self.register {
            Some(r) => r.wf(),
            None => true,
        }
    }
}

#[derive(Clone, Copy, Debug, PartialEq, Eq, Structural)]
pub enum Comparator {
    Equal,
    NotEqual,
}

#[derive(Clone, Copy, Debug, PartialEq, Eq, Structural)]
pub struct BranchArgs {
    pub lhs: Source,
    pub rhs: Source,
    pub comparator: Comparator,
}

impl BranchArgs {
    pub open spec fn wf(self) -> bool {
        self.lhs.wf() && self.rhs.wf()
    }
}

} // verus!
