use suix::matcher::{ends_with, match_bytes, matches_pattern, starts_with, Anchor};
use suix::pattern::{parse_pattern, ParsedPattern};

fn address(head: &str, tail: &str) -> String {
    let fill = 64 - head.len() - tail.len();
    format!("0x{}{}{}", head, "5".repeat(fill), tail)
}

fn bytes(needle: &[u8], odd_nibble: Option<u8>) -> ParsedPattern {
    ParsedPattern::ByteMatch { needle: needle.to_vec(), odd_nibble }
}

#[test]
fn prefix_needle_matches_address_that_starts_with_it() {
    let a = address("abcdef", "");
    assert!(matches_pattern(&a, &bytes(&[0xab], None), Anchor::Prefix));
    assert!(matches_pattern(&a, &bytes(&[0xab, 0xcd], None), Anchor::Prefix));
    assert!(matches_pattern(&a, &bytes(&[0xab, 0xcd, 0xef], None), Anchor::Prefix));
    assert!(matches_pattern(&a, &bytes(&[], None), Anchor::Prefix));
}

#[test]
fn prefix_needle_fails_when_a_covered_byte_is_changed() {
    let needle = bytes(&[0xab, 0xcd, 0xef], None);
    assert!(matches_pattern(&address("abcdef", ""), &needle, Anchor::Prefix));
    assert!(!matches_pattern(&address("aacdef", ""), &needle, Anchor::Prefix));
    assert!(!matches_pattern(&address("abcccf", ""), &needle, Anchor::Prefix));
    assert!(!matches_pattern(&address("abcdee", ""), &needle, Anchor::Prefix));
    // a change after the needle does no harm
    assert!(matches_pattern(&address("abcdef00", ""), &needle, Anchor::Prefix));
}

#[test]
fn odd_nibble_after_prefix() {
    let p = parse_pattern("0xabc").unwrap();
    assert!(matches_pattern(&address("abc", ""), &p, Anchor::Prefix));
    assert!(matches_pattern(&address("abc1", ""), &p, Anchor::Prefix));
    assert!(matches_pattern(&address("abcf", ""), &p, Anchor::Prefix));
    assert!(!matches_pattern(&address("abd", ""), &p, Anchor::Prefix));
    assert!(!matches_pattern(&address("ab0c", ""), &p, Anchor::Prefix));
    assert!(!matches_pattern(&address("acc", ""), &p, Anchor::Prefix));
}

#[test]
fn odd_nibble_needs_a_byte_next_to_the_needle() {
    // the address is no longer than the needle: nothing carries the nibble
    assert!(!matches_pattern("0xab", &bytes(&[0xab], Some(0xc0)), Anchor::Prefix));
    assert!(!matches_pattern("0xab", &bytes(&[0xab], Some(0x00)), Anchor::Prefix));
    assert!(!matches_pattern("0xab", &bytes(&[0xab], Some(0x00)), Anchor::Suffix));
    assert!(matches_pattern("0xabc0", &bytes(&[0xab], Some(0xc0)), Anchor::Prefix));
    assert!(!matches_pattern("0x", &bytes(&[], Some(0x00)), Anchor::Prefix));
}

#[test]
fn suffix_needle() {
    let a = address("", "c0ffee");
    assert!(matches_pattern(&a, &bytes(&[0xee], None), Anchor::Suffix));
    assert!(matches_pattern(&a, &bytes(&[0xff, 0xee], None), Anchor::Suffix));
    assert!(matches_pattern(&a, &bytes(&[0xc0, 0xff, 0xee], None), Anchor::Suffix));
    assert!(!matches_pattern(&a, &bytes(&[0xc0, 0xff], None), Anchor::Suffix));
    assert!(!matches_pattern(&a, &bytes(&[0xee], None), Anchor::Prefix));
    assert!(matches_pattern(&a, &bytes(&[], None), Anchor::Suffix));
}

#[test]
fn odd_nibble_before_suffix_is_the_low_half_of_the_byte_before() {
    assert!(matches_pattern("0x1cab", &bytes(&[0xab], Some(0xc0)), Anchor::Suffix));
    assert!(matches_pattern("0x0cab", &bytes(&[0xab], Some(0xc0)), Anchor::Suffix));
    assert!(matches_pattern("0x10ab", &bytes(&[0xab], Some(0x00)), Anchor::Suffix));
    assert!(matches_pattern("0xf0ab", &bytes(&[0xab], Some(0x00)), Anchor::Suffix));
    assert!(!matches_pattern("0x1cab", &bytes(&[0xab], Some(0x00)), Anchor::Suffix));
    assert!(!matches_pattern("0x1dab", &bytes(&[0xab], Some(0xc0)), Anchor::Suffix));
    assert!(!matches_pattern("0xc0ab", &bytes(&[0xab], Some(0xc0)), Anchor::Suffix));
    // the nibble is read from the high half of what is stored
    assert!(!matches_pattern("0x1cab", &bytes(&[0xab], Some(0x0c)), Anchor::Suffix));
    assert!(matches_pattern("0x10ab", &bytes(&[0xab], Some(0x0c)), Anchor::Suffix));
}

#[test]
fn odd_nibble_before_suffix_in_a_full_address() {
    let address = format!("0x{}0cab", "0".repeat(60));
    assert!(matches_pattern(&address, &bytes(&[0xab], Some(0xc0)), Anchor::Suffix));
    let address = format!("0x{}0dab", "0".repeat(60));
    assert!(!matches_pattern(&address, &bytes(&[0xab], Some(0xc0)), Anchor::Suffix));
}

#[test]
fn needle_longer_than_address_matches_nothing() {
    assert!(!matches_pattern("0xab", &bytes(&[0xab, 0xcd], None), Anchor::Prefix));
    assert!(!matches_pattern("0xcd", &bytes(&[0xab, 0xcd], None), Anchor::Suffix));
}

#[test]
fn address_without_marker_and_in_upper_case() {
    assert!(matches_pattern("abcd", &bytes(&[0xab], None), Anchor::Prefix));
    assert!(matches_pattern("0xABCD", &bytes(&[0xab], None), Anchor::Prefix));
    assert!(matches_pattern("ABcd", &bytes(&[0xcd], None), Anchor::Suffix));
}

#[test]
fn address_that_does_not_decode_matches_no_byte_pattern() {
    let any = bytes(&[], None);
    assert!(!matches_pattern("0xabc", &any, Anchor::Prefix));
    assert!(!matches_pattern("0xzz", &any, Anchor::Prefix));
    assert!(!matches_pattern("0x0xab", &any, Anchor::Prefix));
    assert!(!matches_pattern("0xab é", &any, Anchor::Suffix));
    assert!(!matches_pattern("é", &any, Anchor::Suffix));
    assert!(matches_pattern("", &any, Anchor::Prefix));
    assert!(matches_pattern("0x", &any, Anchor::Suffix));
}

#[test]
fn regex_is_searched_in_the_whole_text_whatever_the_anchor() {
    let p = parse_pattern("^0xab").unwrap();
    let a = address("ab", "");
    assert!(matches_pattern(&a, &p, Anchor::Prefix));
    assert!(matches_pattern(&a, &p, Anchor::Suffix));
    let b = address("ba", "");
    assert!(!matches_pattern(&b, &p, Anchor::Prefix));
    assert!(!matches_pattern(&b, &p, Anchor::Suffix));
    let p = parse_pattern("(00){3}").unwrap();
    assert!(matches_pattern(&address("12", "00000034"), &p, Anchor::Prefix));
    assert!(!matches_pattern(&address("12", "34"), &p, Anchor::Suffix));
    // a text that is no address is still searched
    assert!(matches_pattern("not hex 000000", &p, Anchor::Prefix));
}

#[test]
fn starts_and_ends_with() {
    let v = vec![1u8, 2, 3];
    assert!(starts_with(&v, &vec![]));
    assert!(starts_with(&v, &vec![1, 2]));
    assert!(starts_with(&v, &vec![1, 2, 3]));
    assert!(!starts_with(&v, &vec![2]));
    assert!(!starts_with(&v, &vec![1, 2, 3, 4]));
    assert!(ends_with(&v, &vec![]));
    assert!(ends_with(&v, &vec![2, 3]));
    assert!(ends_with(&v, &vec![1, 2, 3]));
    assert!(!ends_with(&v, &vec![2]));
    assert!(!ends_with(&v, &vec![0, 1, 2, 3]));
}

#[test]
fn match_bytes_follows_the_anchor() {
    let v = vec![0xab, 0xcd, 0xe0];
    assert!(match_bytes(&v, &vec![0xab], Some(0xc0), Anchor::Prefix));
    assert!(!match_bytes(&v, &vec![0xab], Some(0xd0), Anchor::Prefix));
    assert!(match_bytes(&v, &vec![0xe0], Some(0xd0), Anchor::Suffix));
    assert!(!match_bytes(&v, &vec![0xe0], Some(0x0d), Anchor::Suffix));
    assert!(!match_bytes(&v, &vec![0xe0], Some(0xc0), Anchor::Suffix));
    assert!(!match_bytes(&v, &vec![0xab, 0xcd, 0xe0], Some(0x00), Anchor::Prefix));
    assert!(!match_bytes(&v, &vec![0xab, 0xcd, 0xe0], Some(0x00), Anchor::Suffix));
}

#[test]
fn hex_pattern_matches_by_digit_whatever_the_case() {
    let p = parse_pattern("0xABC").unwrap();
    assert!(matches_pattern(&address("abc", ""), &p, Anchor::Prefix));
    assert!(matches_pattern(&address("ABC", ""), &p, Anchor::Prefix));
    assert!(!matches_pattern(&address("ab", "c"), &p, Anchor::Prefix));
    let p = parse_pattern("0xbeef").unwrap();
    assert!(matches_pattern(&address("BEEF", ""), &p, Anchor::Prefix));
    assert!(matches_pattern(&address("", "beef"), &p, Anchor::Suffix));
    assert!(!matches_pattern(&address("", "beee"), &p, Anchor::Suffix));
}

#[test]
fn hexspeak_pattern_matches_the_digits_it_spells() {
    let p = parse_pattern("coffee").unwrap();
    assert!(matches_pattern(&address("c0ffee", ""), &p, Anchor::Prefix));
    assert!(!matches_pattern(&address("c0ffe0", ""), &p, Anchor::Prefix));
    let p = parse_pattern("toast").unwrap();
    assert!(matches_pattern(&address("70a57", ""), &p, Anchor::Prefix));
    assert!(!matches_pattern(&address("70a58", ""), &p, Anchor::Prefix));
}

#[test]
fn odd_suffix_pattern_puts_its_last_digit_before_the_needle() {
    let p = parse_pattern("0xabc").unwrap();
    assert!(matches_pattern("0x5cab", &p, Anchor::Suffix));
    assert!(matches_pattern(&address("", "cab"), &p, Anchor::Suffix));
    assert!(!matches_pattern("0x5dab", &p, Anchor::Suffix));
    assert!(!matches_pattern("0xc0ab", &p, Anchor::Suffix));
    assert!(!matches_pattern("0x0abc", &p, Anchor::Suffix));
    let p = parse_pattern("0xab0").unwrap();
    assert!(matches_pattern("0x50ab", &p, Anchor::Suffix));
    assert!(!matches_pattern("0x51ab", &p, Anchor::Suffix));
    let p = parse_pattern("ace").unwrap();
    assert!(matches_pattern(&address("", "eac"), &p, Anchor::Suffix));
    assert!(!matches_pattern(&address("", "ace"), &p, Anchor::Suffix));
}
