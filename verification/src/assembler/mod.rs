pub mod keyword;
pub mod number;
pub mod token;

pub use token::Token;
pub mod tokens;

pub use tokens::Tokens;
pub mod parser;
pub mod text;
pub mod round_trip;
