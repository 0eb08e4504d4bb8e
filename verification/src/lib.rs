//! Vanity-address search for Sui: pattern parsing, address matching and the
//! bookkeeping of a search run, with machine-checked contracts.

pub mod claim;
pub mod config;
pub mod counter;
pub mod digits;
pub mod error;
pub mod grpc;
pub mod hex_text;
pub mod hexspeak;
pub mod matcher;
pub mod pattern;
pub mod record;
pub mod regex_pattern;
pub mod report;
pub mod rpc;
pub mod search;
pub mod sequential;
