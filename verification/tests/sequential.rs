use suix::config::VanityConfig;
use suix::error::{PatternError, SearchError};
use suix::record::MatchOutput;
use suix::search::SearchPlan;
use suix::sequential::{generate_vanity_addresses_from, search_candidates, Candidate};

fn plain(byte: usize) -> String {
    format!("0x{:02x}{}", byte, "ab".repeat(31))
}

fn candidate(byte: usize, key: usize) -> Option<Candidate> {
    Some(Candidate { address: plain(byte), encoded_key: format!("key-{}", key) })
}

fn config(starts: Option<&str>, ends: Option<&str>, target: usize, batch: usize) -> VanityConfig {
    VanityConfig {
        starts_with: starts.map(str::to_string),
        ends_with: ends.map(str::to_string),
        save_path: None,
        threads: 1,
        max_addresses: target,
        addresses_per_round: batch,
    }
}

fn encoded(output: &MatchOutput) -> &str {
    match output {
        MatchOutput::EncodedKey { encoded } => encoded,
        MatchOutput::KeyFile { path } => panic!("a key file is named: {}", path),
    }
}

#[test]
fn one_worker_stops_generating_at_the_match_in_position_37() {
    let mut outcomes = Vec::new();
    for i in 1..=100usize {
        outcomes.push(if i == 37 || i == 50 { candidate(0, i) } else { candidate(i, i) });
    }
    let outcome =
        generate_vanity_addresses_from(&config(Some("0x00"), None, 1, 1000), &outcomes).unwrap();
    assert_eq!(outcome.generated, 37);
    assert_eq!(outcome.rounds, 1);
    assert_eq!(outcome.records.len(), 1);
    assert_eq!(outcome.records[0].ordinal, 1);
    assert_eq!(outcome.records[0].address, plain(0));
    assert_eq!(encoded(&outcome.records[0].output), "key-37");
}

#[test]
fn one_worker_claims_three_matches_in_three_rounds_of_one() {
    let outcomes = vec![candidate(0, 1), candidate(0, 2), candidate(0, 3), candidate(0, 4)];
    let outcome =
        generate_vanity_addresses_from(&config(Some("0x00"), None, 3, 1), &outcomes).unwrap();
    assert_eq!(outcome.generated, 3);
    assert_eq!(outcome.rounds, 3);
    let ordinals: Vec<usize> = outcome.records.iter().map(|r| r.ordinal).collect();
    assert_eq!(ordinals, vec![1, 2, 3]);
    let keys: Vec<&str> = outcome.records.iter().map(|r| encoded(&r.output)).collect();
    assert_eq!(keys, vec!["key-1", "key-2", "key-3"]);
}

#[test]
fn failed_generation_is_dropped_and_the_search_goes_on() {
    let outcomes = vec![None, candidate(1, 2), None, candidate(0, 4), candidate(0, 5)];
    let outcome =
        generate_vanity_addresses_from(&config(Some("0x00"), None, 1, 2), &outcomes).unwrap();
    assert_eq!(outcome.generated, 4);
    assert_eq!(outcome.rounds, 2);
    assert_eq!(outcome.records.len(), 1);
    assert_eq!(encoded(&outcome.records[0].output), "key-4");
}

#[test]
fn search_ends_when_the_candidates_run_out() {
    let outcomes = vec![candidate(1, 1), candidate(0, 2), candidate(2, 3), candidate(3, 4), None];
    let outcome =
        generate_vanity_addresses_from(&config(Some("0x00"), None, 2, 2), &outcomes).unwrap();
    assert_eq!(outcome.generated, 5);
    assert_eq!(outcome.rounds, 3);
    assert_eq!(outcome.records.len(), 1);
    assert_eq!(outcome.records[0].ordinal, 1);
    let none = generate_vanity_addresses_from(&config(Some("0x00"), None, 2, 2), &vec![]).unwrap();
    assert_eq!((none.generated, none.rounds, none.records.len()), (0, 0, 0));
}

#[test]
fn target_reached_at_the_end_of_a_round_starts_no_other() {
    let outcomes = vec![candidate(1, 1), candidate(0, 2), candidate(0, 3)];
    let outcome =
        generate_vanity_addresses_from(&config(Some("0x00"), None, 1, 2), &outcomes).unwrap();
    assert_eq!((outcome.generated, outcome.rounds, outcome.records.len()), (2, 1, 1));
}

#[test]
fn nothing_is_generated_for_a_target_or_a_round_of_zero() {
    let outcomes = vec![candidate(0, 1), candidate(0, 2)];
    let outcome =
        generate_vanity_addresses_from(&config(Some("0x00"), None, 0, 10), &outcomes).unwrap();
    assert_eq!((outcome.generated, outcome.rounds, outcome.records.len()), (0, 0, 0));
    let outcome =
        generate_vanity_addresses_from(&config(Some("0x00"), None, 1, 0), &outcomes).unwrap();
    assert_eq!((outcome.generated, outcome.rounds, outcome.records.len()), (0, 0, 0));
}

#[test]
fn one_worker_rejects_what_matches_only_one_of_two_patterns() {
    let both = format!("0xaa{}bb", "00".repeat(30));
    let outcomes = vec![
        Some(Candidate { address: format!("0xaa{}cc", "00".repeat(30)), encoded_key: "k1".into() }),
        Some(Candidate { address: format!("0xcc{}bb", "00".repeat(30)), encoded_key: "k2".into() }),
        Some(Candidate { address: both.clone(), encoded_key: "k3".into() }),
    ];
    let outcome =
        generate_vanity_addresses_from(&config(Some("0xaa"), Some("0xbb"), 1, 10), &outcomes)
            .unwrap();
    assert_eq!(outcome.generated, 3);
    assert_eq!(outcome.records.len(), 1);
    assert_eq!(outcome.records[0].address, both);
    assert_eq!(encoded(&outcome.records[0].output), "k3");
}

#[test]
fn one_worker_names_the_key_file_and_shows_no_key() {
    let mut cfg = config(Some("0x00"), None, 1, 10);
    cfg.save_path = Some("keys".to_string());
    let outcome = generate_vanity_addresses_from(&cfg, &vec![candidate(0, 1)]).unwrap();
    match &outcome.records[0].output {
        MatchOutput::KeyFile { path } => assert_eq!(path, &format!("keys/00{}.key", "ab".repeat(31))),
        MatchOutput::EncodedKey { .. } => panic!("the key is shown"),
    }
}

#[test]
fn unreadable_pattern_ends_the_search_before_it_starts() {
    let outcomes = vec![candidate(0, 1)];
    let r = generate_vanity_addresses_from(&config(Some("0xzz"), None, 1, 10), &outcomes);
    assert_eq!(r.err(), Some(SearchError::Prefix(PatternError::InvalidHex { index: 2 })));
    let r = generate_vanity_addresses_from(&config(None, Some("hello"), 1, 10), &outcomes);
    assert_eq!(
        r.err(),
        Some(SearchError::Suffix(PatternError::Unmappable { index: 0, character: 'h' }))
    );
}

#[test]
fn search_candidates_takes_a_plan() {
    let plan = SearchPlan::prepare(&config(None, Some("0xab"), 2, 3)).unwrap();
    let outcomes = vec![candidate(1, 1), candidate(2, 2), candidate(3, 3), candidate(4, 4)];
    let outcome = search_candidates(&plan, 2, 3, &None, &outcomes);
    assert_eq!((outcome.generated, outcome.rounds), (2, 1));
    let ordinals: Vec<usize> = outcome.records.iter().map(|r| r.ordinal).collect();
    assert_eq!(ordinals, vec![1, 2]);
    assert_eq!(outcome.records[1].address, plain(2));
}
