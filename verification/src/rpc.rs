//! Settings of the JSON-RPC client.

use vstd::prelude::*;

verus! {

/// Where JSON-RPC calls go and how their answers are printed.
#[derive(Debug, Clone)]
pub struct RpcConfig {
    /// The node's endpoint.
    pub url: String,
    /// Whether to print request and response indented.
    pub pretty: bool,
}

impl Default for RpcConfig {
    /// The mainnet full node, with plain output.
    fn default() -> (config: Self)
        ensures
            config.url@ == "https://fullnode.mainnet.sui.io:443"@,
            !config.pretty,
    {
        RpcConfig { url: "https://fullnode.mainnet.sui.io:443".to_owned(), pretty: false }
    }
}

} // verus!
