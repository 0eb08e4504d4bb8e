//! Hexspeak: words spelled with the letters that look like hexadecimal digits.

use crate::error::PatternError;
use crate::hex_text::{chars_of, hex_bytes, hex_digit_value, hex_nibbles, is_hex_text, pack};
use vstd::prelude::*;

verus! {

/// The hexadecimal digit that stands for `c`. Letters count in either case:
/// `a` to `f` stand for themselves, `g` and `q` for 9, `i`, `j` and `l` for 1,
/// `o` for 0, `s` for 5, `t` for 7 and `z` for 2. A decimal digit stands for
/// itself. No other character has a lookalike.
pub open spec fn hexspeak_digit(c: char) -> Option<char> {
    if c == 'a' || c == 'A' {
        Some('a')
    } else if c == 'b' || c == 'B' {
        Some('b')
    } else if c == 'c' || c == 'C' {
        Some('c')
    } else if c == 'd' || c == 'D' {
        Some('d')
    } else if c == 'e' || c == 'E' {
        Some('e')
    } else if c == 'f' || c == 'F' {
        Some('f')
    } else if c == 'g' || c == 'G' || c == 'q' || c == 'Q' {
        Some('9')
    } else if c == 'i' || c == 'I' || c == 'j' || c == 'J' || c == 'l' || c == 'L' {
        Some('1')
    } else if c == 'o' || c == 'O' {
        Some('0')
    } else if c == 's' || c == 'S' {
        Some('5')
    } else if c == 't' || c == 'T' {
        Some('7')
    } else if c == 'z' || c == 'Z' {
        Some('2')
    } else if 0x30 <= c as u32 <= 0x39 {
        Some(c)
    } else {
        None
    }
}

/// The hexadecimal text that `s` spells: each character replaced by its
/// lookalike digit, and by `0` where it has none.
pub open spec fn hexspeak_text(s: Seq<char>) -> Seq<char> {
    Seq::new(
        s.len(),
        |i: int|
            match hexspeak_digit(s[i]) {
                Some(d) => d,
                None => '0',
            },
    )
}

/// The least position at or after `from` whose character has no lookalike;
/// `s.len()` if there is none.
pub open spec fn first_unmappable(s: Seq<char>, from: int) -> int
    decreases s.len() - from,
{
    if from < 0 || from >= s.len() {
        s.len() as int
    } else if hexspeak_digit(s[from]) is None {
        from
    } else {
        first_unmappable(s, from + 1)
    }
}

/// The bytes of the hexadecimal text that `s` spells in hexspeak; or, for a
/// text with a character that has no lookalike, the first such character and
/// its position.
pub open spec fn decode_hexspeak(s: Seq<char>) -> Result<Seq<u8>, PatternError> {
    let bad = first_unmappable(s, 0);
    if bad < s.len() {
        Err(PatternError::Unmappable { index: bad as usize, character: s[bad] })
    } else {
        Ok(hex_bytes(hexspeak_text(s)))
    }
}

/// Every position from `from` up to `first_unmappable(s, from)` has a
/// lookalike, and that position itself, if it lies in `s`, has none.
pub proof fn lemma_first_unmappable(s: Seq<char>, from: int)
    requires
        0 <= from <= s.len(),
    ensures
        from <= first_unmappable(s, from) <= s.len(),
        forall|j: int|
            from <= j < first_unmappable(s, from) ==> (#[trigger] hexspeak_digit(s[j])) is Some,
        first_unmappable(s, from) < s.len() ==> hexspeak_digit(s[first_unmappable(s, from)])
            is None,
    decreases s.len() - from,
{
    if from < s.len() && hexspeak_digit(s[from]) is Some {
        lemma_first_unmappable(s, from + 1);
    }
}

/// Hexspeak is defined on every text, and is a function of the text alone. A
/// text, no longer than a string can be, decodes exactly when each of its characters has a lookalike; it then
/// gives one byte for every two characters and one more for a character left
/// over, and the hexadecimal text that it spells holds digits only. Any other
/// text is refused for its first character without a lookalike.
pub proof fn lemma_hexspeak_total(s: Seq<char>)
    requires
        s.len() <= usize::MAX,
    ensures
        decode_hexspeak(s) is Ok <==> forall|i: int|
            0 <= i < s.len() ==> (#[trigger] hexspeak_digit(s[i])) is Some,
        decode_hexspeak(s) matches Ok(bytes) ==> bytes == hex_bytes(hexspeak_text(s))
            && bytes.len() == (s.len() + 1) / 2 && is_hex_text(hexspeak_text(s)),
        decode_hexspeak(s) matches Err(e) ==> e matches PatternError::Unmappable {
            index,
            character,
        } && index < s.len() && character == s[index as int] && hexspeak_digit(character)
            is None,
{
    lemma_first_unmappable(s, 0);
}

/// The value of the digit that stands for `c`, if `c` has a lookalike.
pub fn hexspeak_nibble(c: char) -> (r: Option<u8>)
    ensures
        match hexspeak_digit(c) {
            Some(d) => r == hex_digit_value(d) && r is Some,
            None => r is None,
        },
        r matches Some(v) ==> v < 16,
{
    if c == 'a' || c == 'A' {
        Some(10)
    } else if c == 'b' || c == 'B' {
        Some(11)
    } else if c == 'c' || c == 'C' {
        Some(12)
    } else if c == 'd' || c == 'D' {
        Some(13)
    } else if c == 'e' || c == 'E' {
        Some(14)
    } else if c == 'f' || c == 'F' {
        Some(15)
    } else if c == 'g' || c == 'G' || c == 'q' || c == 'Q' {
        Some(9)
    } else if c == 'i' || c == 'I' || c == 'j' || c == 'J' || c == 'l' || c == 'L' {
        Some(1)
    } else if c == 'o' || c == 'O' {
        Some(0)
    } else if c == 's' || c == 'S' {
        Some(5)
    } else if c == 't' || c == 'T' {
        Some(7)
    } else if c == 'z' || c == 'Z' {
        Some(2)
    } else {
        let n: u32 = c as u32;
        if 0x30 <= n && n <= 0x39 {
            Some((n - 0x30) as u8)
        } else {
            None
        }
    }
}

/// Decodes the characters of a hexspeak text, as [`string_to_hexspeak`] does
/// for a string.
pub fn decode_hexspeak_chars(chars: &Vec<char>) -> (r: Result<Vec<u8>, PatternError>)
    ensures
        match r {
            Ok(bytes) => decode_hexspeak(chars@) == Ok::<Seq<u8>, PatternError>(bytes@),
            Err(e) => decode_hexspeak(chars@) == Err::<Seq<u8>, PatternError>(e),
        },
{
    let n = chars.len();
    let ghost text = hexspeak_text(chars@);
    let mut nibbles: Vec<u8> = Vec::new();
    let mut i: usize = 0;
    while i < n
        invariant
            n == chars.len(),
            text == hexspeak_text(chars@),
            i <= n,
            nibbles@.len() == i,
            forall|j: int| 0 <= j < i ==> nibbles@[j] == hex_nibbles(text)[j],
            forall|j: int| 0 <= j < i ==> nibbles@[j] < 16,
            first_unmappable(chars@, 0) == first_unmappable(chars@, i as int),
        decreases n - i,
    {
        let c = chars[i];
        match hexspeak_nibble(c) {
            Some(v) => {
                nibbles.push(v);
            },
            None => {
                return Err(PatternError::Unmappable { index: i, character: c });
            },
        }
        i = i + 1;
    }
    assert(nibbles@ =~= hex_nibbles(text));
    Ok(pack(&nibbles))
}

/// Reads `s` as hexspeak and decodes the digits it spells, two to a byte. A
/// text of odd length ends in a byte whose high nibble is the last digit and
/// whose low nibble is zero. The first character without a lookalike is
/// reported with its position in `s`.
pub fn string_to_hexspeak(s: &str) -> (r: Result<Vec<u8>, PatternError>)
    ensures
        match r {
            Ok(bytes) => decode_hexspeak(s@) == Ok::<Seq<u8>, PatternError>(bytes@),
            Err(e) => decode_hexspeak(s@) == Err::<Seq<u8>, PatternError>(e),
        },
{
    let chars = chars_of(s);
    decode_hexspeak_chars(&chars)
}

} // verus!
