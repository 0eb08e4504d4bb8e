use suix::config::VanityConfig;
use suix::pattern::{parse_pattern, ParsedPattern};
use suix::record::MatchRecord;
use suix::report::{
    banner, byte_hex, byte_list, decimal, describe_end, describe_match, describe_pattern, digit,
    progress_line, summary_line,
};
use suix::search::SearchPlan;

#[test]
fn digits_and_numbers() {
    assert_eq!(digit(0), "0");
    assert_eq!(digit(9), "9");
    assert_eq!(digit(10), "a");
    assert_eq!(digit(15), "f");
    assert_eq!(digit(16), "f");
    assert_eq!(decimal(0), "0");
    assert_eq!(decimal(7), "7");
    assert_eq!(decimal(10), "10");
    assert_eq!(decimal(10000), "10000");
    assert_eq!(decimal(9876543210), "9876543210");
    assert_eq!(decimal(usize::MAX), usize::MAX.to_string());
}

#[test]
fn bytes_as_hexadecimal_pairs() {
    assert_eq!(byte_hex(0), "00");
    assert_eq!(byte_hex(0x0c), "0c");
    assert_eq!(byte_hex(0xc0), "c0");
    assert_eq!(byte_hex(0xff), "ff");
    assert_eq!(byte_list(&vec![]), "");
    assert_eq!(byte_list(&vec![0xab]), "ab");
    assert_eq!(byte_list(&vec![0xab, 0x01, 0xf0]), "ab, 01, f0");
}

#[test]
fn pattern_descriptions() {
    assert_eq!(
        describe_pattern(&parse_pattern("0xabcd").unwrap()),
        "  Looking for bytes: [ab, cd]\n"
    );
    assert_eq!(
        describe_pattern(&parse_pattern("0xabc").unwrap()),
        "  Looking for bytes: [ab]\n  Plus uneven nibble: c0\n"
    );
    assert_eq!(describe_pattern(&parse_pattern("0x").unwrap()), "  Looking for bytes: []\n");
    assert_eq!(describe_pattern(&parse_pattern("^0xab").unwrap()), "  Using regex: ^0xab\n");
    let odd = ParsedPattern::ByteMatch { needle: vec![], odd_nibble: Some(0x07) };
    assert_eq!(describe_pattern(&odd), "  Looking for bytes: []\n  Plus uneven nibble: 07\n");
}

#[test]
fn end_descriptions() {
    let parsed = Some(parse_pattern("cafe").unwrap());
    assert_eq!(
        describe_end("Starts with: ", &Some("cafe".to_string()), &parsed),
        "Starts with: cafe\n  Looking for bytes: [ca, fe]\n"
    );
    assert_eq!(describe_end("Ends with: ", &Some("cafe".to_string()), &None), "Ends with: cafe\n");
    assert_eq!(describe_end("Ends with: ", &None, &parsed), "");
    assert_eq!(describe_end("Ends with: ", &None, &None), "");
}

#[test]
fn banner_of_a_search() {
    let config = VanityConfig {
        starts_with: Some("0xabc".to_string()),
        ends_with: Some("00$".to_string()),
        save_path: None,
        threads: 4,
        max_addresses: 2,
        addresses_per_round: 10000,
    };
    let plan = SearchPlan::prepare(&config).unwrap();
    assert_eq!(
        banner(4, &config.starts_with, &config.ends_with, &plan, config.max_addresses),
        "Generating vanity addresses with 4 threads...\n\
         Starts with: 0xabc\n  Looking for bytes: [ab]\n  Plus uneven nibble: c0\n\
         Ends with: 00$\n  Using regex: 00$\n\
         Target: 2 addresses\n"
    );
    let config = VanityConfig { starts_with: None, ends_with: Some("face".to_string()), ..config };
    let plan = SearchPlan::prepare(&config).unwrap();
    assert_eq!(
        banner(16, &config.starts_with, &config.ends_with, &plan, 1),
        "Generating vanity addresses with 16 threads...\n\
         Ends with: face\n  Looking for bytes: [fa, ce]\n\
         Target: 1 addresses\n"
    );
}

#[test]
fn match_with_key_file_shows_no_key() {
    let record = MatchRecord::persisted(2, "0x00ab", "keys");
    assert_eq!(describe_match(&record, 3), "Found match 2/3: 0x00ab -> keys/00ab.key");
}

#[test]
fn match_on_the_terminal_shows_the_encoded_key() {
    let record = MatchRecord::printed(1, "0x00ab", "suiprivkey1q".to_string());
    assert_eq!(
        describe_match(&record, 1),
        "Found match 1/1:\nAddress: 0x00ab\nPrivate Key: suiprivkey1q\n"
    );
}

#[test]
fn progress_and_summary() {
    assert_eq!(progress_line(20000, 1), "\rTried: 20000 addresses, found: 1");
    assert_eq!(progress_line(0, 0), "\rTried: 0 addresses, found: 0");
    assert_eq!(summary_line(3, false), "\nCompleted! Generated 3 vanity addresses.");
    assert_eq!(
        summary_line(1, true),
        "\nCompleted! Generated 1 vanity addresses and saved to files."
    );
}
