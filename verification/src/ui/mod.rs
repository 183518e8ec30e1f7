pub mod rom;

pub use rom::Rom;
