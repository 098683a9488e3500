//! A scanner for a small expression and statement language: it turns source
//! text into position-tagged tokens, one per call.

pub mod chars;
pub mod decimal;
pub mod error;
pub mod grammar;
pub mod scanner;
pub mod span;
pub mod tokens;

pub use scanner::Lexer;
