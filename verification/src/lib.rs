//! A verified compiler from a typed three-address-code language to MIPS
//! assembly values.

pub mod ast;
pub mod codegen;
pub mod derivation;
pub mod lexer;
pub mod parser;
pub mod mips;
pub mod numerals;
pub mod text;
pub mod typecheck;
