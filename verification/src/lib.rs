//! A pronunciation-dictionary library.
//!
//! Each line of a dictionary file maps a word to a space-separated sequence
//! of phoneme codes.  This crate parses phoneme tokens into typed [`Symbol`]
//! values, parses whole lines into [`Rule`]s, builds a word-to-pronunciations
//! index ([`Cmudict`]), and decides whether two pronunciations rhyme.

pub mod errors;
pub mod index;
pub mod rhyme;
pub mod rules;
pub mod symbols;

pub use errors::{Error, ParseError};
pub use index::Cmudict;
pub use rhyme::rhymes;
pub use rules::{parse_rule, Rule};
pub use symbols::{parse_symbol, Stress, Symbol};
