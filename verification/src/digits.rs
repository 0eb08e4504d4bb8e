//! What a byte pattern means for the digits of an address: a pattern written
//! in hexadecimal digits matches as a prefix exactly when the address begins
//! with those digits.

use crate::hex_text::{
    has_hex_marker, hex_bytes, hex_digit_value, hex_nibbles, is_hex_text, lemma_decode_hex_str,
    pack_nibbles, without_hex_marker,
};
use crate::hexspeak::{hexspeak_digit, hexspeak_text, lemma_hexspeak_total};
use crate::matcher::{address_bytes, bytes_match, pattern_matches, Anchor};
use crate::pattern::{
    byte_pattern, has_regex_special, is_regex_special, parse_spec, PatternView,
};
use vstd::prelude::*;

verus! {

/// Whether the characters at position `i` of two texts are the same digit,
/// the case of a letter set aside.
pub open spec fn same_digit_at(a: Seq<char>, b: Seq<char>, i: int) -> bool {
    hex_digit_value(a[i]) == hex_digit_value(b[i])
}

/// Whether the text `digits` is at least as long as `begin` and agrees with it,
/// digit for digit, over the length of `begin`.
pub open spec fn digits_begin_with(digits: Seq<char>, begin: Seq<char>) -> bool {
    &&& begin.len() <= digits.len()
    &&& forall|i: int| 0 <= i < begin.len() ==> #[trigger] same_digit_at(digits, begin, i)
}

/// Masking a byte to its high half leaves sixteen times its high nibble.
pub proof fn lemma_high_half(x: u8)
    ensures
        x & 0xf0 == 16 * (x / 16),
{
    assert(x & 0xf0 == 16 * (x / 16)) by (bit_vector);
}

/// The digits of a hexadecimal text have values below sixteen.
pub proof fn lemma_nibbles_below_sixteen(s: Seq<char>)
    ensures
        hex_nibbles(s).len() == s.len(),
        forall|i: int| 0 <= i < s.len() ==> #[trigger] hex_nibbles(s)[i] < 16,
        forall|i: int|
            0 <= i < s.len() && hex_digit_value(s[i]) is Some ==> hex_digit_value(s[i]) == Some(
                #[trigger] hex_nibbles(s)[i],
            ),
{
}

/// Two bytes packed from nibbles are equal exactly when their nibbles are.
pub proof fn lemma_packed_equal(h1: u8, l1: u8, h2: u8, l2: u8)
    requires
        h1 < 16,
        l1 < 16,
        h2 < 16,
        l2 < 16,
    ensures
        ((16 * h1 + l1) as u8 == (16 * h2 + l2) as u8) <==> (h1 == h2 && l1 == l2),
{
}

/// A byte pattern made from hexadecimal digits matches an address as a prefix
/// exactly when the digits of the address begin with the digits of the
/// pattern, whether these are even or odd in number.
pub proof fn lemma_prefix_matches_by_digit(address: Seq<char>, digits: Seq<char>)
    requires
        is_hex_text(digits),
        address_bytes(address) is Some,
    ensures
        pattern_matches(
            address,
            byte_pattern(hex_bytes(digits), digits.len() % 2 == 1),
            Anchor::Prefix,
        ) <==> digits_begin_with(without_hex_marker(address), digits),
{
    let body = without_hex_marker(address);
    let bytes = hex_bytes(body);
    let nb = hex_nibbles(body);
    let np = hex_nibbles(digits);
    let packed = pack_nibbles(np);
    let n = digits.len() as int;
    lemma_nibbles_below_sixteen(body);
    lemma_nibbles_below_sixteen(digits);
    assert(address_bytes(address) == Some(bytes));
    assert(bytes.len() == body.len() / 2);
    assert forall|k: int| 0 <= k < bytes.len() implies bytes[k] == (16 * nb[2 * k] + nb[2 * k
        + 1]) as u8 by {}
    assert forall|i: int| 0 <= i < n && i < body.len() implies (#[trigger] same_digit_at(
        body,
        digits,
        i,
    ) <==> nb[i] == np[i]) by {
        assert(hex_digit_value(digits[i]) is Some);
        assert(hex_digit_value(body[i]) is Some);
    }
    if n % 2 == 0 {
        let needle = packed;
        assert(byte_pattern(packed, false) == PatternView::ByteMatch { needle, odd_nibble: None });
        assert(needle.len() == n / 2);
        assert forall|k: int| 0 <= k < needle.len() implies needle[k] == (16 * np[2 * k] + np[2
            * k + 1]) as u8 by {}
        if needle.is_prefix_of(bytes) {
            assert forall|i: int| 0 <= i < n implies #[trigger] same_digit_at(body, digits, i) by {
                let k = i / 2;
                assert(bytes.subrange(0, needle.len() as int)[k] == bytes[k]);
                assert(needle[k] == bytes[k]);
                lemma_packed_equal(np[2 * k], np[2 * k + 1], nb[2 * k], nb[2 * k + 1]);
            }
            assert(digits_begin_with(body, digits));
        }
        if digits_begin_with(body, digits) {
            assert forall|k: int| 0 <= k < needle.len() implies needle[k] == bytes[k] by {
                assert(same_digit_at(body, digits, 2 * k));
                assert(same_digit_at(body, digits, 2 * k + 1));
            }
            assert(needle =~= bytes.subrange(0, needle.len() as int));
        }
    } else {
        let needle = packed.drop_last();
        let nibble = packed.last();
        let m = (n - 1) / 2;
        assert(packed.len() == m + 1);
        assert(byte_pattern(packed, true) == PatternView::ByteMatch {
            needle,
            odd_nibble: Some(nibble),
        });
        assert(needle.len() == m);
        assert(nibble == (16 * np[n - 1]) as u8);
        assert forall|k: int| 0 <= k < m implies needle[k] == (16 * np[2 * k] + np[2 * k
            + 1]) as u8 by {
            assert(needle[k] == packed[k]);
        }
        if m < bytes.len() {
            lemma_high_half(bytes[m]);
            assert(bytes[m] == (16 * nb[n - 1] + nb[n]) as u8);
            assert(bytes[m] & 0xf0 == 16 * nb[n - 1]);
        }
        if bytes_match(bytes, needle, Some(nibble), Anchor::Prefix) {
            assert(n <= body.len());
            assert forall|i: int| 0 <= i < n implies #[trigger] same_digit_at(body, digits, i) by {
                if i < n - 1 {
                    let k = i / 2;
                    assert(bytes.subrange(0, needle.len() as int)[k] == bytes[k]);
                    assert(needle[k] == bytes[k]);
                    lemma_packed_equal(np[2 * k], np[2 * k + 1], nb[2 * k], nb[2 * k + 1]);
                }
            }
            assert(digits_begin_with(body, digits));
        }
        if digits_begin_with(body, digits) {
            assert(m < bytes.len());
            assert forall|k: int| 0 <= k < needle.len() implies needle[k] == bytes[k] by {
                assert(same_digit_at(body, digits, 2 * k));
                assert(same_digit_at(body, digits, 2 * k + 1));
            }
            assert(needle =~= bytes.subrange(0, needle.len() as int));
            assert(same_digit_at(body, digits, n - 1));
            assert(bytes_match(bytes, needle, Some(nibble), Anchor::Prefix));
        }
    }
}

/// A pattern string of `0x` and hexadecimal digits, read and then matched as a
/// prefix, finds exactly the addresses whose digits begin with the digits of
/// the string.
pub proof fn lemma_hex_pattern_finds_its_digits(pattern: Seq<char>, address: Seq<char>)
    requires
        pattern.len() <= usize::MAX,
        has_hex_marker(pattern),
        is_hex_text(pattern.skip(2)),
        address_bytes(address) is Some,
    ensures
        parse_spec(pattern) matches Ok(parsed) && (pattern_matches(address, parsed, Anchor::Prefix)
            <==> digits_begin_with(without_hex_marker(address), pattern.skip(2))),
{
    lemma_decode_hex_str(pattern);
    lemma_prefix_matches_by_digit(address, pattern.skip(2));
}

/// A hexspeak word, read and then matched as a prefix, finds exactly the
/// addresses whose digits begin with the digits that the word spells.
pub proof fn lemma_hexspeak_pattern_finds_its_digits(pattern: Seq<char>, address: Seq<char>)
    requires
        pattern.len() <= usize::MAX,
        forall|i: int| 0 <= i < pattern.len() ==> (#[trigger] hexspeak_digit(pattern[i])) is Some,
        address_bytes(address) is Some,
    ensures
        parse_spec(pattern) matches Ok(parsed) && (pattern_matches(address, parsed, Anchor::Prefix)
            <==> digits_begin_with(without_hex_marker(address), hexspeak_text(pattern))),
{
    if has_hex_marker(pattern) {
        assert(hexspeak_digit(pattern[1]) is Some);
    }
    if has_regex_special(pattern) {
        let i = choose|i: int| 0 <= i < pattern.len() && is_regex_special(#[trigger] pattern[i]);
        assert(hexspeak_digit(pattern[i]) is Some);
    }
    lemma_hexspeak_total(pattern);
    lemma_prefix_matches_by_digit(address, hexspeak_text(pattern));
}

/// Whether the text `digits` is at least as long as `end` and agrees with it,
/// digit for digit, over its last positions.
pub open spec fn digits_end_with(digits: Seq<char>, end: Seq<char>) -> bool {
    &&& end.len() <= digits.len()
    &&& forall|i: int|
        0 <= i < end.len() ==> hex_digit_value(#[trigger] end[i]) == hex_digit_value(
            digits[digits.len() - end.len() + i],
        )
}

/// A byte pattern made from an even number of hexadecimal digits matches an
/// address as a suffix exactly when the digits of the address end with the
/// digits of the pattern.
pub proof fn lemma_suffix_matches_by_digit(address: Seq<char>, digits: Seq<char>)
    requires
        is_hex_text(digits),
        digits.len() % 2 == 0,
        address_bytes(address) is Some,
    ensures
        pattern_matches(address, byte_pattern(hex_bytes(digits), false), Anchor::Suffix)
            <==> digits_end_with(without_hex_marker(address), digits),
{
    let body = without_hex_marker(address);
    let bytes = hex_bytes(body);
    let nb = hex_nibbles(body);
    let np = hex_nibbles(digits);
    let needle = pack_nibbles(np);
    let n = digits.len() as int;
    lemma_nibbles_below_sixteen(body);
    lemma_nibbles_below_sixteen(digits);
    assert(address_bytes(address) == Some(bytes));
    assert(bytes.len() == body.len() / 2);
    assert(needle.len() == n / 2);
    assert(byte_pattern(needle, false) == PatternView::ByteMatch { needle, odd_nibble: None });
    let shift = bytes.len() - needle.len();
    assert forall|k: int| 0 <= k < bytes.len() implies bytes[k] == (16 * nb[2 * k] + nb[2 * k
        + 1]) as u8 by {}
    assert forall|k: int| 0 <= k < needle.len() implies needle[k] == (16 * np[2 * k] + np[2 * k
        + 1]) as u8 by {}
    if needle.is_suffix_of(bytes) {
        assert forall|i: int| 0 <= i < n implies hex_digit_value(#[trigger] digits[i])
            == hex_digit_value(body[body.len() - n + i]) by {
            let k = i / 2;
            assert(bytes.subrange(shift, bytes.len() as int)[k] == bytes[shift + k]);
            assert(needle[k] == bytes[shift + k]);
            lemma_packed_equal(
                np[2 * k],
                np[2 * k + 1],
                nb[2 * (shift + k)],
                nb[2 * (shift + k) + 1],
            );
            assert(hex_digit_value(body[body.len() - n + i]) is Some);
        }
    }
    if digits_end_with(body, digits) {
        assert forall|k: int| 0 <= k < needle.len() implies needle[k] == bytes[shift + k] by {
            assert(hex_digit_value(digits[2 * k]) == hex_digit_value(body[body.len() - n + 2 * k]));
            assert(hex_digit_value(digits[2 * k + 1]) == hex_digit_value(
                body[body.len() - n + 2 * k + 1],
            ));
            assert(hex_digit_value(body[body.len() - n + 2 * k]) is Some);
            assert(hex_digit_value(body[body.len() - n + 2 * k + 1]) is Some);
        }
        assert(needle =~= bytes.subrange(shift, bytes.len() as int));
    }
}

/// Masking a byte to its low half leaves its low nibble.
pub proof fn lemma_low_half(x: u8)
    ensures
        x & 0x0f == x % 16,
{
    assert(x & 0x0f == x % 16) by (bit_vector);
}

/// The digits that a pattern of an odd number of digits asks for at the end of
/// an address: its unpaired last digit, which goes before the needle, and then
/// its other digits, which make the needle.
pub open spec fn odd_suffix_digits(digits: Seq<char>) -> Seq<char> {
    seq![digits.last()] + digits.drop_last()
}

/// A byte pattern made from an odd number of hexadecimal digits matches an
/// address as a suffix exactly when the digits of the address end with the
/// last digit of the pattern followed by its other digits.
pub proof fn lemma_odd_suffix_matches_by_digit(address: Seq<char>, digits: Seq<char>)
    requires
        is_hex_text(digits),
        digits.len() % 2 == 1,
        address_bytes(address) is Some,
    ensures
        pattern_matches(address, byte_pattern(hex_bytes(digits), true), Anchor::Suffix)
            <==> digits_end_with(without_hex_marker(address), odd_suffix_digits(digits)),
{
    let body = without_hex_marker(address);
    let bytes = hex_bytes(body);
    let nb = hex_nibbles(body);
    let np = hex_nibbles(digits);
    let packed = pack_nibbles(np);
    let n = digits.len() as int;
    let m = (n - 1) / 2;
    let even = digits.drop_last();
    let asked = odd_suffix_digits(digits);
    let needle = packed.drop_last();
    let nibble = packed.last();
    lemma_nibbles_below_sixteen(body);
    lemma_nibbles_below_sixteen(digits);
    lemma_nibbles_below_sixteen(even);
    assert(address_bytes(address) == Some(bytes));
    assert(bytes.len() == body.len() / 2);
    assert(packed.len() == m + 1);
    assert(byte_pattern(packed, true) == PatternView::ByteMatch {
        needle,
        odd_nibble: Some(nibble),
    });
    assert(nibble == (16 * np[n - 1]) as u8);
    assert(nibble / 16 == np[n - 1]);
    assert(needle =~= hex_bytes(even)) by {
        assert forall|k: int| 0 <= k < m implies needle[k] == hex_bytes(even)[k] by {
            assert(needle[k] == packed[k]);
            assert(hex_nibbles(even)[2 * k] == np[2 * k]);
            assert(hex_nibbles(even)[2 * k + 1] == np[2 * k + 1]);
        }
    }
    assert(is_hex_text(even)) by {
        assert forall|i: int| 0 <= i < even.len() implies (#[trigger] hex_digit_value(
            even[i],
        )) is Some by {
            assert(even[i] == digits[i]);
        }
    }
    lemma_suffix_matches_by_digit(address, even);
    assert(byte_pattern(hex_bytes(even), false) == PatternView::ByteMatch {
        needle,
        odd_nibble: None,
    });
    assert(needle.is_suffix_of(bytes) <==> digits_end_with(body, even));
    assert(asked.len() == n);
    assert(asked[0] == digits[n - 1]);
    assert forall|i: int| 0 <= i < n - 1 implies #[trigger] asked[i + 1] == even[i] by {}
    if m < bytes.len() {
        let j = bytes.len() - m - 1;
        lemma_low_half(bytes[j]);
        assert(bytes[j] == (16 * nb[2 * j] + nb[2 * j + 1]) as u8);
        assert(bytes[j] & 0x0f == nb[2 * j + 1]);
        assert(2 * j + 1 == body.len() - n);
        assert(hex_digit_value(body[body.len() - n]) is Some);
        assert(hex_digit_value(digits[n - 1]) is Some);
    }
    if bytes_match(bytes, needle, Some(nibble), Anchor::Suffix) {
        assert(n <= body.len());
        assert forall|i: int| 0 <= i < asked.len() implies hex_digit_value(#[trigger] asked[i])
            == hex_digit_value(body[body.len() - asked.len() + i]) by {
            if i > 0 {
                assert(asked[(i - 1) + 1] == even[i - 1]);
                assert(hex_digit_value(even[i - 1]) == hex_digit_value(
                    body[body.len() - even.len() + (i - 1)],
                ));
            }
        }
    }
    if digits_end_with(body, asked) {
        assert(m < bytes.len());
        assert forall|i: int| 0 <= i < even.len() implies hex_digit_value(#[trigger] even[i])
            == hex_digit_value(body[body.len() - even.len() + i]) by {
            assert(asked[i + 1] == even[i]);
            assert(hex_digit_value(asked[i + 1]) == hex_digit_value(
                body[body.len() - asked.len() + (i + 1)],
            ));
        }
        assert(digits_end_with(body, even));
        assert(hex_digit_value(asked[0]) == hex_digit_value(body[body.len() - asked.len() + 0]));
        assert(bytes_match(bytes, needle, Some(nibble), Anchor::Suffix));
    }
}

} // verus!
