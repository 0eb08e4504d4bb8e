//! Patterns that an address is searched for, and how a pattern string is read.

use crate::error::PatternError;
use crate::hex_text::{chars_of, decode_hex_chars, decode_hex_str, has_hex_marker};
use crate::hexspeak::{decode_hexspeak, decode_hexspeak_chars};
use crate::regex_pattern::{regex_compiles, RegexPattern};
use vstd::prelude::*;

verus! {

/// A pattern in matchable form.
#[derive(Debug)]
pub enum ParsedPattern {
    /// Whole bytes to find at one end of the address, and possibly one more
    /// nibble, kept as the high half of a byte whose low half is zero.
    ByteMatch { needle: Vec<u8>, odd_nibble: Option<u8> },
    /// A regular expression to find anywhere in the address as it is written.
    RegexMatch { pattern: RegexPattern },
}

/// What a [`ParsedPattern`] stands for.
pub enum PatternView {
    ByteMatch { needle: Seq<u8>, odd_nibble: Option<u8> },
    RegexMatch { pattern: Seq<char> },
}

impl View for ParsedPattern {
    type V = PatternView;

    open spec fn view(&self) -> PatternView {
        match self {
            ParsedPattern::ByteMatch { needle, odd_nibble } => PatternView::ByteMatch {
                needle: needle@,
                odd_nibble: *odd_nibble,
            },
            ParsedPattern::RegexMatch { pattern } => PatternView::RegexMatch {
                pattern: pattern@,
            },
        }
    }
}

/// Whether `c` is one of the characters `^ $ [ ] ( ) | { } + * ?`, which mark a
/// pattern as a regular expression.
pub open spec fn is_regex_special(c: char) -> bool {
    c == '^' || c == '$' || c == '[' || c == ']' || c == '(' || c == ')' || c == '|' || c == '{'
        || c == '}' || c == '+' || c == '*' || c == '?'
}

/// Whether `s` holds a character that marks a regular expression.
pub open spec fn has_regex_special(s: Seq<char>) -> bool {
    exists|i: int| 0 <= i < s.len() && is_regex_special(#[trigger] s[i])
}

/// The byte pattern for decoded `bytes`. Where the text had an odd number of
/// digits, the last byte holds the unpaired digit and is kept apart from the
/// needle.
pub open spec fn byte_pattern(bytes: Seq<u8>, odd: bool) -> PatternView {
    if odd && bytes.len() > 0 {
        PatternView::ByteMatch { needle: bytes.drop_last(), odd_nibble: Some(bytes.last()) }
    } else {
        PatternView::ByteMatch { needle: bytes, odd_nibble: None }
    }
}

/// The byte pattern of a decoding of `s`, or the decoding's error.
pub open spec fn byte_pattern_of(
    s: Seq<char>,
    decoded: Result<Seq<u8>, PatternError>,
) -> Result<PatternView, PatternError> {
    match decoded {
        Ok(bytes) => Ok(byte_pattern(bytes, s.len() % 2 == 1)),
        Err(e) => Err(e),
    }
}

/// How the pattern string `s` is read. The first rule that applies decides:
/// a string that begins with `0x` is hexadecimal text; a string that holds a
/// character special to regular expressions, and compiles as one, is a regular
/// expression; any other string is hexspeak.
pub open spec fn parse_spec(s: Seq<char>) -> Result<PatternView, PatternError> {
    if has_hex_marker(s) {
        byte_pattern_of(s, decode_hex_str(s))
    } else if has_regex_special(s) && regex_compiles(s) {
        Ok(PatternView::RegexMatch { pattern: s })
    } else {
        byte_pattern_of(s, decode_hexspeak(s))
    }
}

/// Whether `outcome` is what parsing the pattern string `s` gives.
pub open spec fn is_parse_of(s: Seq<char>, outcome: Result<ParsedPattern, PatternError>) -> bool {
    match outcome {
        Ok(pattern) => parse_spec(s) == Ok::<PatternView, PatternError>(pattern@),
        Err(e) => parse_spec(s) == Err::<PatternView, PatternError>(e),
    }
}

/// Whether `c` marks a regular expression.
pub fn regex_special(c: char) -> (b: bool)
    ensures
        b == is_regex_special(c),
{
    c == '^' || c == '$' || c == '[' || c == ']' || c == '(' || c == ')' || c == '|' || c == '{'
        || c == '}' || c == '+' || c == '*' || c == '?'
}

/// Whether `chars` holds a character that marks a regular expression.
pub fn contains_regex_special(chars: &Vec<char>) -> (b: bool)
    ensures
        b == has_regex_special(chars@),
{
    let mut i: usize = 0;
    while i < chars.len()
        invariant
            i <= chars.len(),
            forall|j: int| 0 <= j < i ==> !is_regex_special(#[trigger] chars@[j]),
        decreases chars.len() - i,
    {
        if regex_special(chars[i]) {
            return true;
        }
        i = i + 1;
    }
    false
}

/// Splits decoded bytes into needle and unpaired nibble, as [`byte_pattern`] says.
pub fn split_odd_nibble(bytes: Vec<u8>, odd: bool) -> (p: ParsedPattern)
    ensures
        p@ == byte_pattern(bytes@, odd),
{
    let mut needle = bytes;
    let odd_nibble = if odd {
        needle.pop()
    } else {
        None
    };
    ParsedPattern::ByteMatch { needle, odd_nibble }
}

/// Reads a pattern string: hexadecimal text after `0x`, else a regular
/// expression where the string holds a special character and compiles, else
/// hexspeak.
pub fn parse_pattern(pattern: &str) -> (r: Result<ParsedPattern, PatternError>)
    ensures
        is_parse_of(pattern@, r),
{
    let chars = chars_of(pattern);
    let odd = chars.len() % 2 == 1;
    if chars.len() >= 2 && chars[0] == '0' && chars[1] == 'x' {
        return match decode_hex_chars(&chars) {
            Ok(bytes) => Ok(split_odd_nibble(bytes, odd)),
            Err(e) => Err(e),
        };
    }
    if contains_regex_special(&chars) {
        if let Some(compiled) = RegexPattern::compile(pattern) {
            return Ok(ParsedPattern::RegexMatch { pattern: compiled });
        }
    }
    match decode_hexspeak_chars(&chars) {
        Ok(bytes) => Ok(split_odd_nibble(bytes, odd)),
        Err(e) => Err(e),
    }
}

/// With the marker `0x` in front, a pattern is read as hexadecimal text and as
/// nothing else: it is never taken for a regular expression or for hexspeak,
/// and it fails only for a character that is no hexadecimal digit.
pub proof fn lemma_marker_decides(s: Seq<char>)
    requires
        has_hex_marker(s),
    ensures
        parse_spec(s) == byte_pattern_of(s, decode_hex_str(s)),
        parse_spec(s) matches Ok(p) ==> p is ByteMatch,
        parse_spec(s) matches Err(e) ==> e is InvalidHex,
{
}

/// Parsing is a function of the pattern string: two parses of one string give
/// the same pattern, or the same error.
pub proof fn lemma_parse_deterministic(
    s: Seq<char>,
    first: Result<ParsedPattern, PatternError>,
    second: Result<ParsedPattern, PatternError>,
)
    requires
        is_parse_of(s, first),
        is_parse_of(s, second),
    ensures
        first is Ok <==> second is Ok,
        first matches Ok(p) ==> second matches Ok(q) && p@ == q@,
        first matches Err(e) ==> second matches Err(f) && e == f,
{
}

} // verus!
