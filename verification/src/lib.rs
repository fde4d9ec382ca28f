//! A lexical scanner for a small scripting language.
//!
//! The scanner walks a UTF-8 source buffer byte by byte and classifies, on
//! each call, the single longest lexeme at the cursor, keeping track of line
//! numbers and line-start offsets as it consumes line breaks. Invalid input
//! produces a structured error record and the scan resumes right after it.

pub mod laws;
pub mod model;
pub mod scanner;
pub mod token;

pub use scanner::Scanner;
pub use token::Token;
pub use token::TokenType;
pub use token::UnexpectedSymbolError;

