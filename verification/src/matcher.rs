//! Testing an address against a parsed pattern.

use crate::hex_text::{hex_bytes, is_hex_text, strip_hex_marker, without_hex_marker};
use crate::pattern::{ParsedPattern, PatternView};
use crate::regex_pattern::regex_finds;
use vstd::prelude::*;

verus! {

/// The end of the address at which a byte pattern is looked for.
#[derive(Debug, Clone, Copy, PartialEq, Eq, Structural)]
pub enum Anchor {
    Prefix,
    Suffix,
}

/// The bytes that the address text stands for: its hexadecimal digits after an
/// optional `0x`, two to a byte. `None` where the digits are odd in number or
/// some character is no digit.
pub open spec fn address_bytes(address: Seq<char>) -> Option<Seq<u8>> {
    let body = without_hex_marker(address);
    if body.len() % 2 == 0 && is_hex_text(body) {
        Some(hex_bytes(body))
    } else {
        None
    }
}

/// Whether `bytes` carries `needle` at the anchored end and, where an unpaired
/// nibble is asked for, the byte next to the needle carries it: after the
/// needle, in its high half, for a prefix; before the needle, in its low half,
/// for a suffix. The unpaired nibble is kept in the high half of `odd_nibble`.
/// Where there is no byte next to the needle, the match fails.
pub open spec fn bytes_match(
    bytes: Seq<u8>,
    needle: Seq<u8>,
    odd_nibble: Option<u8>,
    anchor: Anchor,
) -> bool {
    match anchor {
        Anchor::Prefix => needle.is_prefix_of(bytes) && match odd_nibble {
            Some(nibble) => needle.len() < bytes.len() && bytes[needle.len() as int] & 0xf0
                == nibble,
            None => true,
        },
        Anchor::Suffix => needle.is_suffix_of(bytes) && match odd_nibble {
            Some(nibble) => needle.len() < bytes.len() && bytes[bytes.len() - needle.len() - 1]
                & 0x0f == nibble / 16,
            None => true,
        },
    }
}

/// Whether the address text matches the pattern. A regular expression is
/// searched for anywhere in the text as written, whatever the anchor. A byte
/// pattern is compared with the address's bytes, and an address that does not
/// decode matches nothing.
pub open spec fn pattern_matches(address: Seq<char>, pattern: PatternView, anchor: Anchor) -> bool {
    match pattern {
        PatternView::RegexMatch { pattern } => regex_finds(pattern, address),
        PatternView::ByteMatch { needle, odd_nibble } => match address_bytes(address) {
            Some(bytes) => bytes_match(bytes, needle, odd_nibble, anchor),
            None => false,
        },
    }
}

/// Calls `hex::decode`. Claimed of it, and not proved: it succeeds on exactly
/// the texts that consist of an even number of hexadecimal digits, letters in
/// either case, and then returns one byte for each pair of digits, the first
/// digit of the pair in the high half. On any other text, one of odd length or
/// with another character in it, it fails.
#[verifier::external_body]
fn decode_hex(text: &str) -> (r: Option<Vec<u8>>)
    ensures
        match r {
            Some(bytes) => text@.len() % 2 == 0 && is_hex_text(text@) && bytes@ == hex_bytes(
                text@,
            ),
            None => !(text@.len() % 2 == 0 && is_hex_text(text@)),
        },
{
    hex::decode(text).ok()
}

/// Whether `bytes` begins with `needle`.
pub fn starts_with(bytes: &Vec<u8>, needle: &Vec<u8>) -> (b: bool)
    ensures
        b == needle@.is_prefix_of(bytes@),
{
    let m = needle.len();
    if m > bytes.len() {
        return false;
    }
    let mut i: usize = 0;
    while i < m
        invariant
            m == needle.len(),
            m <= bytes.len(),
            i <= m,
            forall|j: int| 0 <= j < i ==> needle@[j] == bytes@[j],
        decreases m - i,
    {
        if needle[i] != bytes[i] {
            assert(bytes@.subrange(0, m as int)[i as int] == bytes@[i as int]);
            return false;
        }
        i = i + 1;
    }
    assert(needle@ =~= bytes@.subrange(0, m as int));
    true
}

/// Whether `bytes` ends with `needle`.
pub fn ends_with(bytes: &Vec<u8>, needle: &Vec<u8>) -> (b: bool)
    ensures
        b == needle@.is_suffix_of(bytes@),
{
    let m = needle.len();
    let n = bytes.len();
    if m > n {
        return false;
    }
    let offset = n - m;
    let mut i: usize = 0;
    while i < m
        invariant
            m == needle.len(),
            n == bytes.len(),
            m <= n,
            offset == n - m,
            i <= m,
            forall|j: int| 0 <= j < i ==> needle@[j] == bytes@[offset + j],
        decreases m - i,
    {
        if needle[i] != bytes[offset + i] {
            assert(bytes@.subrange(offset as int, n as int)[i as int] == bytes@[offset + i]);
            return false;
        }
        i = i + 1;
    }
    assert(needle@ =~= bytes@.subrange(offset as int, n as int));
    true
}

/// Whether decoded address bytes match a byte pattern, as [`bytes_match`] says.
pub fn match_bytes(
    bytes: &Vec<u8>,
    needle: &Vec<u8>,
    odd_nibble: Option<u8>,
    anchor: Anchor,
) -> (b: bool)
    ensures
        b == bytes_match(bytes@, needle@, odd_nibble, anchor),
{
    match anchor {
        Anchor::Prefix => {
            if !starts_with(bytes, needle) {
                return false;
            }
            match odd_nibble {
                Some(nibble) => needle.len() < bytes.len() && bytes[needle.len()] & 0xf0 == nibble,
                None => true,
            }
        },
        Anchor::Suffix => {
            if !ends_with(bytes, needle) {
                return false;
            }
            match odd_nibble {
                Some(nibble) => needle.len() < bytes.len() && bytes[bytes.len() - needle.len() - 1]
                    & 0x0f == nibble / 16,
                None => true,
            }
        },
    }
}

/// Whether `address` matches `pattern` at the given end.
pub fn matches_pattern(address: &str, pattern: &ParsedPattern, anchor: Anchor) -> (b: bool)
    ensures
        b == pattern_matches(address@, pattern@, anchor),
{
    match pattern {
        ParsedPattern::RegexMatch { pattern } => pattern.is_match(address),
        ParsedPattern::ByteMatch { needle, odd_nibble } => {
            match decode_hex(strip_hex_marker(address)) {
                Some(bytes) => match_bytes(&bytes, needle, *odd_nibble, anchor),
                None => false,
            }
        },
    }
}

/// An address whose bytes begin with the bytes of a needle matches that needle
/// as a prefix.
pub proof fn lemma_prefix_matches(address: Seq<char>, needle: Seq<u8>)
    requires
        address_bytes(address) matches Some(bytes) && needle.is_prefix_of(bytes),
    ensures
        pattern_matches(
            address,
            PatternView::ByteMatch { needle, odd_nibble: None },
            Anchor::Prefix,
        ),
{
}

/// Where an address begins with a needle, an address that differs from it in
/// one of the bytes that the needle covers no longer matches the needle as a
/// prefix.
pub proof fn lemma_changed_byte_breaks_prefix(
    address: Seq<char>,
    changed: Seq<char>,
    needle: Seq<u8>,
    i: int,
    value: u8,
)
    requires
        address_bytes(address) matches Some(bytes) && needle.is_prefix_of(bytes) && 0 <= i
            < needle.len() && value != bytes[i] && address_bytes(changed) == Some(
            bytes.update(i, value),
        ),
    ensures
        !pattern_matches(
            changed,
            PatternView::ByteMatch { needle, odd_nibble: None },
            Anchor::Prefix,
        ),
{
    let bytes = address_bytes(address)->Some_0;
    let other = bytes.update(i, value);
    if needle.is_prefix_of(other) {
        assert(other.subrange(0, needle.len() as int)[i] == other[i]);
        assert(bytes.subrange(0, needle.len() as int)[i] == bytes[i]);
    }
}

} // verus!
