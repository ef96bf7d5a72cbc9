//! The tokens of the source language and the lexical error kinds.

use vstd::prelude::*;

verus! {

/// A lexical error kind.
///
/// `InvalidToken` is an unrecognized character sequence, `InvalidInteger`
/// a numeric literal that does not fit its declared suffix, and
/// `NonAsciiCharacter` an input character outside ASCII.
#[derive(Debug, Clone, PartialEq)]
pub enum LexingError {
    InvalidToken,
    InvalidInteger(String),
    NonAsciiCharacter,
}

/// A token of the source language.
///
/// Float literals keep their source spelling rather than a parsed value:
/// float code generation is an explicit non-goal, so only the literal's
/// type ever matters.
#[derive(Debug, Clone, PartialEq)]
pub enum Token {
    // Operators
    Add,
    Sub,
    Mul,
    Div,
    Assign,
    LessThan,
    GreaterThan,
    LessThanOrEqual,
    GreaterThanOrEqual,
    Equal,
    NotEqual,
    And,
    Or,
    // Keywords
    If,
    Goto,
    Function,
    Begin,
    End,
    Return,
    Load,
    Store,
    // Types and casts
    Type(String),
    Cast(String),
    // Identifiers and dereferences
    Identifier(String),
    Dereference(String),
    // Integer literals
    LiteralI8(i8),
    LiteralI16(i16),
    LiteralI32(i32),
    LiteralI64(i64),
    LiteralU8(u8),
    LiteralU16(u16),
    LiteralU32(u32),
    LiteralU64(u64),
    // Float literals, kept as their source text
    LiteralF32(String),
    LiteralF64(String),
    // String literals, kept with their surrounding quotes
    LiteralString(String),
    // Boolean literals
    LiteralTrue,
    LiteralFalse,
    // Punctuation
    OpenBracket,
    CloseBracket,
    OpenParen,
    CloseParen,
    Colon,
}

} // verus!
