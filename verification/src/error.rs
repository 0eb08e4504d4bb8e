//! Why a pattern or a configuration is refused.

use vstd::prelude::*;

verus! {

/// Why a pattern string cannot be turned into a matchable pattern.
#[derive(Debug, Clone, Copy, PartialEq, Eq, Structural)]
pub enum PatternError {
    /// The character at `index` of the string is no hexadecimal digit.
    InvalidHex { index: usize },
    /// The character at `index` of the string has no hexspeak lookalike.
    Unmappable { index: usize, character: char },
}

/// Why a search configuration is refused.
#[derive(Debug, Clone, Copy, PartialEq, Eq, Structural)]
pub enum ConfigError {
    /// Neither a prefix nor a suffix pattern is given.
    NoPattern,
    /// The number of addresses to find is zero.
    ZeroTarget,
    /// The number of attempts per round is zero.
    ZeroBatch,
}

/// Which of a search's patterns could not be read, and why.
#[derive(Debug, Clone, Copy, PartialEq, Eq, Structural)]
pub enum SearchError {
    /// The pattern for the start of the address.
    Prefix(PatternError),
    /// The pattern for the end of the address.
    Suffix(PatternError),
}

} // verus!
