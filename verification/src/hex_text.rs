//! Hexadecimal text: digits, the `0x` marker and decoding into bytes.

use crate::error::PatternError;
use vstd::prelude::*;

verus! {

/// The value of a hexadecimal digit, in either case; `None` for any other character.
pub open spec fn hex_digit_value(c: char) -> Option<u8> {
    let n = c as u32;
    if 0x30 <= n <= 0x39 {
        Some((n - 0x30) as u8)
    } else if 0x61 <= n <= 0x66 {
        Some((n - 0x61 + 10) as u8)
    } else if 0x41 <= n <= 0x46 {
        Some((n - 0x41 + 10) as u8)
    } else {
        None
    }
}

/// Whether every character of `s` is a hexadecimal digit.
pub open spec fn is_hex_text(s: Seq<char>) -> bool {
    forall|i: int| 0 <= i < s.len() ==> (#[trigger] hex_digit_value(s[i])) is Some
}

/// Whether `s` begins with the two characters `0x`.
pub open spec fn has_hex_marker(s: Seq<char>) -> bool {
    s.len() >= 2 && s[0] == '0' && s[1] == 'x'
}

/// `s` without its leading `0x`, if it has one.
pub open spec fn without_hex_marker(s: Seq<char>) -> Seq<char> {
    if has_hex_marker(s) {
        s.skip(2)
    } else {
        s
    }
}

/// The value of each character of `s` as a hexadecimal digit; zero for a
/// character that is none.
pub open spec fn hex_nibbles(s: Seq<char>) -> Seq<u8> {
    Seq::new(
        s.len(),
        |i: int|
            match hex_digit_value(s[i]) {
                Some(v) => v,
                None => 0u8,
            },
    )
}

/// The `k`-th byte packed from `nibbles`: nibble `2k` is the high half and
/// nibble `2k + 1` the low half, which is zero where `nibbles` ends before it.
pub open spec fn packed_byte(nibbles: Seq<u8>, k: int) -> u8 {
    let low: int = if 2 * k + 1 < nibbles.len() {
        nibbles[2 * k + 1] as int
    } else {
        0
    };
    (16 * nibbles[2 * k] + low) as u8
}

/// The nibbles packed two to a byte, the first of each pair in the high half. A
/// last nibble without a partner is paired with zero.
pub open spec fn pack_nibbles(nibbles: Seq<u8>) -> Seq<u8> {
    Seq::new(((nibbles.len() + 1) / 2) as nat, |k: int| packed_byte(nibbles, k))
}

/// The bytes that the digits `s` spell. A last digit without a partner becomes
/// the high nibble of a final byte whose low nibble is zero.
pub open spec fn hex_bytes(s: Seq<char>) -> Seq<u8> {
    pack_nibbles(hex_nibbles(s))
}

/// The least position at or after `from` whose character is no hexadecimal
/// digit; `s.len()` if there is none.
pub open spec fn first_non_hex(s: Seq<char>, from: int) -> int
    decreases s.len() - from,
{
    if from < 0 || from >= s.len() {
        s.len() as int
    } else if hex_digit_value(s[from]) is None {
        from
    } else {
        first_non_hex(s, from + 1)
    }
}

/// The bytes of the hexadecimal text `s`, read after one optional `0x`; or, for
/// a text that holds anything but digits there, the position in `s` of the
/// first character that is no digit.
pub open spec fn decode_hex_str(s: Seq<char>) -> Result<Seq<u8>, PatternError> {
    let start: int = if has_hex_marker(s) {
        2
    } else {
        0
    };
    let bad = first_non_hex(s, start);
    if bad < s.len() {
        Err(PatternError::InvalidHex { index: bad as usize })
    } else {
        Ok(hex_bytes(s.skip(start)))
    }
}

/// Every position from `from` up to `first_non_hex(s, from)` holds a digit, and
/// that position itself, if it lies in `s`, does not.
pub proof fn lemma_first_non_hex(s: Seq<char>, from: int)
    requires
        0 <= from <= s.len(),
    ensures
        from <= first_non_hex(s, from) <= s.len(),
        forall|j: int| from <= j < first_non_hex(s, from) ==> (#[trigger] hex_digit_value(s[j])) is Some,
        first_non_hex(s, from) < s.len() ==> hex_digit_value(s[first_non_hex(s, from)]) is None,
        first_non_hex(s, from) == s.len() <==> is_hex_text(s.skip(from)),
    decreases s.len() - from,
{
    if from < s.len() && hex_digit_value(s[from]) is Some {
        lemma_first_non_hex(s, from + 1);
        if first_non_hex(s, from) == s.len() {
            assert forall|i: int| 0 <= i < s.skip(from).len() implies (#[trigger] hex_digit_value(
                s.skip(from)[i],
            )) is Some by {
                assert(s.skip(from)[i] == s[from + i]);
            }
        } else {
            let bad = first_non_hex(s, from);
            assert(s.skip(from)[bad - from] == s[bad]);
        }
    } else if from < s.len() {
        assert(s.skip(from)[0] == s[from]);
    }
}

/// A text, no longer than a string can be, decodes exactly when all that
/// follows an optional `0x` is a hexadecimal digit. It then gives the bytes that
/// those digits spell, one for every two digits and one more for a digit left
/// over.
pub proof fn lemma_decode_hex_str(s: Seq<char>)
    requires
        s.len() <= usize::MAX,
    ensures
        decode_hex_str(s) is Ok <==> is_hex_text(without_hex_marker(s)),
        decode_hex_str(s) matches Ok(bytes) ==> bytes == hex_bytes(without_hex_marker(s))
            && bytes.len() == (without_hex_marker(s).len() + 1) / 2,
        decode_hex_str(s) matches Err(e) ==> e matches PatternError::InvalidHex { index }
            && index < s.len() && hex_digit_value(s[index as int]) is None,
{
    let start: int = if has_hex_marker(s) {
        2
    } else {
        0
    };
    lemma_first_non_hex(s, start);
    assert(s.skip(0) =~= s);
}

/// The value of the hexadecimal digit `c`, if it is one.
pub fn hex_digit(c: char) -> (r: Option<u8>)
    ensures
        r == hex_digit_value(c),
        r matches Some(v) ==> v < 16,
{
    let n: u32 = c as u32;
    if 0x30 <= n && n <= 0x39 {
        Some((n - 0x30) as u8)
    } else if 0x61 <= n && n <= 0x66 {
        Some((n - 0x61 + 10) as u8)
    } else if 0x41 <= n && n <= 0x46 {
        Some((n - 0x41 + 10) as u8)
    } else {
        None
    }
}

/// The characters of `s`, in order.
pub fn chars_of(s: &str) -> (v: Vec<char>)
    ensures
        v@ == s@,
{
    let mut v: Vec<char> = Vec::new();
    for c in it: s.chars()
        invariant
            v@ == it.seq().take(it.index() as int),
    {
        v.push(c);
    }
    v
}

/// `text` without its leading `0x`, if it has one.
pub fn strip_hex_marker(text: &str) -> (body: &str)
    ensures
        body@ == without_hex_marker(text@),
{
    let n = text.unicode_len();
    if n >= 2 && text.get_char(0) == '0' && text.get_char(1) == 'x' {
        text.substring_char(2, n)
    } else {
        text
    }
}

/// The values of the digits of `chars` from position `start` on; the error is
/// the position of the first character that is no digit.
pub(crate) fn digits_to_nibbles(chars: &Vec<char>, start: usize) -> (r: Result<Vec<u8>, usize>)
    requires
        start <= chars.len(),
    ensures
        match r {
            Ok(nibbles) => first_non_hex(chars@, start as int) == chars@.len() && nibbles@
                == hex_nibbles(chars@.skip(start as int)),
            Err(index) => index < chars.len() && index == first_non_hex(chars@, start as int),
        },
{
    let n = chars.len();
    let ghost body = chars@.skip(start as int);
    let mut nibbles: Vec<u8> = Vec::new();
    let mut i: usize = start;
    while i < n
        invariant
            n == chars.len(),
            body == chars@.skip(start as int),
            start <= i <= n,
            nibbles@.len() == i - start,
            forall|j: int| 0 <= j < nibbles@.len() ==> nibbles@[j] == hex_nibbles(body)[j],
            first_non_hex(chars@, start as int) == first_non_hex(chars@, i as int),
        decreases n - i,
    {
        assert(body[i - start] == chars@[i as int]);
        match hex_digit(chars[i]) {
            Some(v) => {
                nibbles.push(v);
            },
            None => {
                return Err(i);
            },
        }
        i = i + 1;
    }
    assert(nibbles@ =~= hex_nibbles(body));
    Ok(nibbles)
}

/// Packs nibbles two to a byte, as [`pack_nibbles`] says.
pub(crate) fn pack(nibbles: &Vec<u8>) -> (bytes: Vec<u8>)
    requires
        forall|i: int| 0 <= i < nibbles@.len() ==> nibbles@[i] < 16,
    ensures
        bytes@ == pack_nibbles(nibbles@),
{
    let n = nibbles.len();
    let mut bytes: Vec<u8> = Vec::new();
    let mut i: usize = 0;
    while i < n
        invariant
            n == nibbles.len(),
            i <= n,
            i % 2 == 0 || i == n,
            bytes@.len() == (i + 1) / 2,
            forall|i: int| 0 <= i < nibbles@.len() ==> nibbles@[i] < 16,
            forall|k: int| 0 <= k < bytes@.len() ==> bytes@[k] == packed_byte(nibbles@, k),
        decreases n - i,
    {
        let high = nibbles[i];
        if i + 1 < n {
            let low = nibbles[i + 1];
            bytes.push(high * 16 + low);
            i = i + 2;
        } else {
            bytes.push(high * 16);
            i = i + 1;
        }
    }
    assert(bytes@ =~= pack_nibbles(nibbles@));
    bytes
}

/// Decodes the characters of a hexadecimal text, as [`hex_str_to_bytes`] does
/// for a string.
pub fn decode_hex_chars(chars: &Vec<char>) -> (r: Result<Vec<u8>, PatternError>)
    ensures
        match r {
            Ok(bytes) => decode_hex_str(chars@) == Ok::<Seq<u8>, PatternError>(bytes@),
            Err(e) => decode_hex_str(chars@) == Err::<Seq<u8>, PatternError>(e),
        },
{
    let start: usize = if chars.len() >= 2 && chars[0] == '0' && chars[1] == 'x' {
        2
    } else {
        0
    };
    match digits_to_nibbles(chars, start) {
        Ok(nibbles) => Ok(pack(&nibbles)),
        Err(index) => Err(PatternError::InvalidHex { index }),
    }
}

/// Decodes hexadecimal text into bytes. One leading `0x` is skipped. A text of
/// odd length ends in a byte whose high nibble is the last digit and whose low
/// nibble is zero. A character that is no digit is reported with its position
/// in `hex_str`.
pub fn hex_str_to_bytes(hex_str: &str) -> (r: Result<Vec<u8>, PatternError>)
    ensures
        match r {
            Ok(bytes) => decode_hex_str(hex_str@) == Ok::<Seq<u8>, PatternError>(bytes@),
            Err(e) => decode_hex_str(hex_str@) == Err::<Seq<u8>, PatternError>(e),
        },
{
    let chars = chars_of(hex_str);
    decode_hex_chars(&chars)
}

} // verus!
