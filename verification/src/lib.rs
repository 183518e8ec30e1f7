//! A CHIP-8 virtual machine: instruction decoding and encoding, an assembler
//! for a small textual instruction syntax, and the machine that executes it.

pub mod assembler;
pub mod command;
pub mod emulator;
pub mod errors;
pub mod machine;
pub mod repl;
pub mod ui;

pub use emulator::{Emulator, EmulatorConfig};
pub use errors::{Error, Result};
pub use machine::Machine;
