pub mod args;
pub mod instruction;
pub mod op_code;

pub use args::{BinaryOpArgs, DrawArgs, JumpArgs, RegisterArgs};
pub use instruction::{Flow, Graphics, Instruction};
pub use op_code::OpCode;
