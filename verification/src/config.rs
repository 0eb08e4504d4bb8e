//! What a search run is asked to do.

use crate::error::ConfigError;
use vstd::prelude::*;

verus! {

/// The number of attempts in a round unless the configuration says otherwise.
pub const DEFAULT_ADDRESSES_PER_ROUND: usize = 10000;

/// What a search run is asked to do.
#[derive(Debug, Clone)]
pub struct VanityConfig {
    /// The pattern that the address must start with, if any.
    pub starts_with: Option<String>,
    /// The pattern that the address must end with, if any.
    pub ends_with: Option<String>,
    /// The directory that key files go to; without one, keys are printed.
    pub save_path: Option<String>,
    /// The number of worker threads; zero stands for all that the machine
    /// offers.
    pub threads: usize,
    /// The number of matching addresses to find.
    pub max_addresses: usize,
    /// The number of attempts between two progress reports.
    pub addresses_per_round: usize,
}

impl Default for VanityConfig {
    /// No pattern, output to the terminal, all threads, one address, and rounds
    /// of [`DEFAULT_ADDRESSES_PER_ROUND`] attempts.
    fn default() -> (config: Self)
        ensures
            config.starts_with is None,
            config.ends_with is None,
            config.save_path is None,
            config.threads == 0,
            config.max_addresses == 1,
            config.addresses_per_round == DEFAULT_ADDRESSES_PER_ROUND,
    {
        VanityConfig {
            starts_with: None,
            ends_with: None,
            save_path: None,
            threads: 0,
            max_addresses: 1,
            addresses_per_round: DEFAULT_ADDRESSES_PER_ROUND,
        }
    }
}

impl VanityConfig {
    /// A configuration can be run when it names at least one pattern, asks for
    /// at least one address and makes rounds of at least one attempt.
    pub open spec fn is_valid(&self) -> bool {
        &&& self.starts_with is Some || self.ends_with is Some
        &&& self.max_addresses > 0
        &&& self.addresses_per_round > 0
    }

    /// Accepts a configuration that can be run, and says of any other what is
    /// wrong with it: a missing pattern first, then a target of zero, then a
    /// round of zero attempts.
    pub fn validate(&self) -> (r: Result<(), ConfigError>)
        ensures
            r is Ok <==> self.is_valid(),
            r == Err::<(), ConfigError>(ConfigError::NoPattern) <==> self.starts_with is None
                && self.ends_with is None,
            r == Err::<(), ConfigError>(ConfigError::ZeroTarget) <==> (self.starts_with is Some
                || self.ends_with is Some) && self.max_addresses == 0,
            r == Err::<(), ConfigError>(ConfigError::ZeroBatch) <==> (self.starts_with is Some
                || self.ends_with is Some) && self.max_addresses > 0 && self.addresses_per_round
                == 0,
    {
        if self.starts_with.is_none() && self.ends_with.is_none() {
            Err(ConfigError::NoPattern)
        } else if self.max_addresses == 0 {
            Err(ConfigError::ZeroTarget)
        } else if self.addresses_per_round == 0 {
            Err(ConfigError::ZeroBatch)
        } else {
            Ok(())
        }
    }

    /// Whether matches are written to key files rather than printed.
    pub fn persists(&self) -> (b: bool)
        ensures
            b == self.save_path is Some,
    {
        self.save_path.is_some()
    }
}

} // verus!
