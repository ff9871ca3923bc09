//! Error values for the two stages of reading a board file: lexical errors
//! from the text grammar, and structural errors from the typed layer.

use vstd::prelude::*;

verus! {

/// What went wrong while turning text into an s-expression tree.
#[derive(Clone, Copy, Debug, PartialEq, Eq, Structural)]
pub enum LexErrorKind {
    /// The input ended inside a list, a quoted value, or before any token.
    UnexpectedEnd,
    /// A character that can start no token stood at an expression position.
    BadToken,
    /// A numeric token whose value does not fit the coordinate range.
    NumberOutOfRange,
    /// A hexadecimal token whose value does not fit 64 bits.
    HexOutOfRange,
    /// Text remained after the top-level expression.
    TrailingInput,
    /// The top-level expression was a bare atom, not a list.
    RootNotList,
}

/// A lexical error, carrying the character offset at which it was detected.
#[derive(Clone, Copy, Debug, PartialEq, Eq, Structural)]
pub struct LexError {
    pub kind: LexErrorKind,
    /// Character offset into the input at which the error was detected.
    pub offset: usize,
}

/// What went wrong while turning an s-expression tree into a typed value.
///
/// `WhileParsing` wraps a cause with the name of the entity being read when
/// the failure happened, so a deep failure carries its chain of contexts.
#[derive(Debug)]
pub enum ParserError {
    /// The text itself was not a well-formed s-expression.
    SExpressionError(LexError),
    /// A cursor was asked for another node but none remained.
    UnexpectedEnd,
    /// A cursor was required to be empty but nodes remained.
    UnexpectedLeftover,
    /// A node of one kind stood where another kind was required.
    UnexpectedSExpr { expected: String },
    /// A leading keyword did not match what the target type requires.
    Unexpected { expected: String, found: String },
    /// A tagged list whose tag no routine recognizes.
    UnknownListName { name: String },
    /// A failure wrapped with the name of the entity being read.
    WhileParsing { entity: String, cause: Box<ParserError> },
}

impl ParserError {
    /// Wraps an error with the name of the entity that was being read.
    pub fn in_context(self, entity: String) -> (r: ParserError) {
        ParserError::WhileParsing { entity, cause: Box::new(self) }
    }
}

} // verus!
