pub mod config;
pub mod draw_options;
pub mod instruction;
pub mod stack;
pub mod types;

pub use instruction::{Instruction, OpCode};
pub use types::{Address, Register, Timer};
pub mod machine;

pub use machine::{Machine, MachineModel};
