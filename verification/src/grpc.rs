//! Settings of the gRPC client.

use std::time::Duration;
use vstd::prelude::*;

verus! {

/// The span of time that lasts `secs` whole seconds.
pub uninterp spec fn duration_of_secs(secs: u64) -> Duration;

/// `Duration::from_secs` makes the span of the given number of whole seconds.
/// Claimed of it, and not proved: the span depends on the number alone.
pub assume_specification[ Duration::from_secs ](secs: u64) -> (d: Duration)
    ensures
        d == duration_of_secs(secs),
;

/// Claimed of `Duration::clone`, and not proved: the copy is the same span of
/// time.
pub assume_specification[ <Duration as Clone>::clone ](d: &Duration) -> (copy: Duration)
    ensures
        copy == *d,
;

/// Where gRPC calls go, how their answers are printed and how long a call may
/// take.
#[derive(Debug, Clone)]
pub struct GrpcConfig {
    /// The node's endpoint.
    pub url: String,
    /// Whether to print answers indented.
    pub pretty: bool,
    /// Whether to print answers as JSON only, for use in a pipeline.
    pub json: bool,
    /// How long a request may take.
    pub timeout: Duration,
    /// Extra request headers, as name and value.
    pub headers: Vec<(String, String)>,
}

impl Default for GrpcConfig {
    /// The mainnet full node, plain output, thirty seconds and no extra
    /// headers.
    fn default() -> (config: Self)
        ensures
            config.url@ == "https://fullnode.mainnet.sui.io:443"@,
            !config.pretty,
            !config.json,
            config.timeout == duration_of_secs(30),
            config.headers@.len() == 0,
    {
        GrpcConfig {
            url: "https://fullnode.mainnet.sui.io:443".to_owned(),
            pretty: false,
            json: false,
            timeout: Duration::from_secs(30),
            headers: Vec::new(),
        }
    }
}

} // verus!
