//! The records the scanner emits: classified tokens and error records,
//! each carrying precise source-position metadata.

use vstd::prelude::*;

verus! {

/// The category of one lexeme: punctuation and operators, reserved words,
/// and the three literal forms.
///
/// Literal tokens carry no copied text: the `Token` that holds the category
/// also holds the byte offsets of the lexeme in the source buffer, and for a
/// string token those offsets exclude the surrounding quotes, so the slice
/// of the source between them is the payload. A number token's payload is
/// the decimal text at those offsets; turning it into a machine number is
/// left to the caller.
#[derive(Debug, Clone, PartialEq)]
#[allow(non_camel_case_types)]
pub enum TokenType {
    // Single-character tokens.
    LEFT_PAREN,
    RIGHT_PAREN,
    LEFT_BRACE,
    RIGHT_BRACE,
    COMMA,
    DOT,
    MINUS,
    PLUS,
    SEMICOLON,
    SLASH,
    STAR,
    // One or two character tokens.
    BANG,
    BANG_EQUAL,
    EQUAL,
    EQUAL_EQUAL,
    GREATER,
    GREATER_EQUAL,
    LESS,
    LESS_EQUAL,
    // Literals.
    IDENTIFIER,
    STRING,
    NUMBER,
    // Keywords.
    AND,
    CLASS,
    ELSE,
    FALSE,
    FUN,
    FOR,
    IF,
    NIL,
    OR,
    PRINT,
    RETURN,
    SUPER,
    THIS,
    TRUE,
    VAR,
    WHILE,
}

/// One classified lexeme with its position: the 0-based line it starts on,
/// the absolute offset of that line's start, and the lexeme's start and end
/// byte offsets, both absolute in the input and relative to the line.
///
/// For a string token the offsets delimit the payload between the quotes;
/// for every other token they delimit the whole lexeme.
#[derive(Debug, Clone)]
pub struct Token {
    pub token_type: TokenType,
    pub line_number: usize,
    pub line_start_index: usize,
    pub start_index_within_input: usize,
    pub end_index_within_input: usize,
    pub start_index_within_line: usize,
    pub end_index_within_line: usize,
}

/// The one error record: an unrecognized unit of input, with the 0-based
/// line it sits on, the absolute offset of that line's start, and the
/// offending unit's offset relative to the line and to the whole input.
#[derive(Debug, Clone)]
pub struct UnexpectedSymbolError {
    pub line_number: usize,
    pub line_start_index_within_input: usize,
    pub error_index_within_line: usize,
    pub error_index_within_input: usize,
}

impl UnexpectedSymbolError {
    /// Renders the diagnostic as `Unexpected symbol at <line>:<column>`.
    ///
    /// Relies on the `format!` macro of std to render the two numbers in
    /// decimal.
    #[verifier::external_body]
    pub fn message(&self) -> String {
        format!(
            "Unexpected symbol at {}:{}",
            self.line_number,
            self.error_index_within_line,
        )
    }
}

} // verus!
