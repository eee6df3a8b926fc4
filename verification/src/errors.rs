//! Error types for phoneme parsing and dictionary construction.

use vstd::prelude::*;

verus! {

/// An error from parsing a single phoneme token or a dictionary line.
///
/// Each variant records what was expected and, where one was seen, the
/// offending character, so that a caller can report a precise diagnostic.
#[derive(Debug, Clone, Copy, PartialEq, Eq)]
pub enum ParseError {
    /// A vowel token carried a trailing character that is not one of the
    /// stress digits `0`, `1` or `2`.
    ExpectedStress(char),
    /// Input ended where the named kind of input was expected.
    UnexpectedEOF(&'static str),
    /// Input ended after the named context where more was expected.
    UnexpectedEOFAfter(&'static str, &'static str),
    /// An unexpected character stood at the start of a token.
    UnexpectedCharacter(&'static str, char),
    /// An unexpected character followed the named context.
    UnexpectedCharacterAfter(&'static str, &'static str, char),
}

/// An error from building a dictionary index out of text lines.
#[derive(Debug, Clone, Copy, PartialEq, Eq)]
pub enum Error {
    /// A non-comment line holds no space, so label and pronunciation
    /// cannot be told apart; carries the line's position among all lines.
    InvalidLine(usize),
    /// A line's pronunciation failed to parse.
    RuleParseError(ParseError),
}

} // verus!
