//! Source positions and the typed lexical errors.

use vstd::prelude::*;

verus! {

/// A place in the source text.  Both coordinates are 1-based: the first byte
/// of the buffer sits at line 1, column 1, and the column resets to 1
/// immediately after every newline byte.
#[derive(Clone, Copy, Debug, PartialEq, Eq, Structural)]
pub struct SourcePosition {
    pub line: usize,
    pub col: usize,
}

/// The ways one scan step can fail.  Every failure is local and recoverable:
/// the scanner stays usable and has advanced past at least the offending byte.
#[derive(Clone, Copy, Debug, PartialEq, Eq, Structural)]
pub enum LexErrorKind {
    /// An identifier ran past the 32-byte limit.
    IdentifierTooLong,
    /// A number literal does not fit in a signed 32-bit integer.
    NumberOverflow,
    /// A string literal met end-of-input or a newline before its closing quote.
    UnterminatedString,
    /// A byte that starts no known token; the payload is that byte.
    UnknownCharacter(u8),
}

/// A lexical error: what went wrong and where the offending token began.
#[derive(Clone, Copy, Debug, PartialEq, Eq, Structural)]
pub struct LexError {
    pub kind: LexErrorKind,
    pub position: SourcePosition,
}

} // verus!
