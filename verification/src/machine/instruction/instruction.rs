use vstd::prelude::*;

use super::args::{BinaryOpArgs, BranchArgs, DrawArgs, IndexOpArgs, JumpArgs, RegisterArgs};

verus! {

#[derive(Clone, Copy, Debug, PartialEq, Eq, Structural)]
pub enum Instruction {
    Exit,
    Graphics(Graphics),
    Flow(Flow),
    Index { args: IndexOpArgs },
    Arithmetic { args: BinaryOpArgs },
    Font { args: RegisterArgs },
    KeyAwait { args: RegisterArgs },
    BinaryCodedDecimal { args: RegisterArgs },
}

#[derive(Clone, Copy, Debug, PartialEq, Eq, Structural)]
pub enum Graphics {
    Clear,
    Draw { args: DrawArgs },
}

#[derive(Clone, Copy, Debug, PartialEq, Eq, Structural)]
pub enum Flow {
    Return,
    Call { args: JumpArgs },
    Jump { args: JumpArgs },
    Sys { args: JumpArgs },
    Branch { args: BranchArgs },
}

impl Instruction {
    /// Every register, nibble and address inside the instruction is in range.
    pub open spec fn wf(self) -> bool {
        match self {
            Instruction::Exit => true,
            Instruction::Graphics(Graphics::Clear) => true,
            Instruction::Graphics(Graphics::Draw { args }) => args.wf(),
            Instruction::Flow(Flow::Return) => true,
            Instruction::Flow(Flow::Call { args }) => args.wf(),
            Instruction::Flow(Flow::Jump { args }) => args.wf(),
            Instruction::Flow(Flow::Sys { args }) => args.wf(),
            Instruction::Flow(Flow::Branch { args }) => args.wf(),
            Instruction::Index { args } => args.wf(),
            Instruction::Arithmetic { args } => args.wf(),
            Instruction::Font { args } => args.wf(),
            Instruction::KeyAwait { args } => args.wf(),
            Instruction::BinaryCodedDecimal { args } => args.wf(),
        }
    }
}

} // verus!
