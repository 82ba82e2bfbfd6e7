//! Lexical analysis for a small Pascal-style procedural language.
//!
//! The crate turns a byte buffer of source text into a stream of classified
//! tokens, each carrying the line and column of its first character.  All
//! malformed input is reported through typed error values; no input makes the
//! scanner panic.

pub mod error;
pub mod laws;
pub mod lexer;
pub mod token;
