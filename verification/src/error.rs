//! Error types surfaced by the parsing engine.
use vstd::prelude::*;

verus! {

/// Why a parse failed.
#[derive(Debug, Clone, Copy, PartialEq, Eq)]
pub enum ParseErrorKind {
    /// A quote character with no closing quote before the end of the input.
    UnterminatedString,
    /// Expected a bare word followed by `{`.
    ExpectedBlock,
    /// A block opened under a keyword this parser does not accept.
    WrongBlockName,
    /// A block body entry that is neither a quoted pair nor a nested block.
    MalformedEntry,
    /// The closing `}` of a block is missing.
    UnclosedBlock,
    /// Input continues after the parsed block.
    TrailingInput,
    /// A key this block does not recognize.
    UnknownKey,
    /// A nested block this block does not recognize.
    UnknownBlock,
    /// A value whose text does not decode to the field's type.
    BadValue,
}

/// A parse failure: the position it was noticed at, and why. For
/// `UnterminatedString` the position is a byte offset into the input;
/// for the other kinds it is a token index.
#[derive(Debug, Clone, Copy, PartialEq, Eq)]
pub struct ParseError {
    pub at: usize,
    pub kind: ParseErrorKind,
}

/// Top-level error type: what can go wrong between opening a file and the
/// parsed document. The I/O and encoding variants are built by callers that
/// own those steps; the engine itself only reports parse failures.
#[derive(Debug, Clone, PartialEq, Eq)]
pub enum VMFError {
    IoError(String),
    Utf8Error(String),
    ParseError(String),
}

/// The parser-facing error type kept beside `ParseError` for callers that
/// carry messages instead of positions: a parse message, or an I/O message
/// from the file layer around the engine.
#[derive(Debug, Clone, PartialEq, Eq)]
pub enum VMFParserError {
    Parser(String),
    IoError(String),
}

} // verus!
