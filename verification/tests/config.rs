use suix::config::{VanityConfig, DEFAULT_ADDRESSES_PER_ROUND};
use suix::error::ConfigError;
use suix::grpc::GrpcConfig;
use suix::rpc::RpcConfig;

#[test]
fn test_grpc_config_default() {
    let config = GrpcConfig::default();
    assert_eq!(config.url, "https://fullnode.mainnet.sui.io:443");
    assert!(!config.pretty);
    assert_eq!(config.timeout, std::time::Duration::from_secs(30));
}

#[test]
fn test_rpc_config_default() {
    let config = RpcConfig::default();
    assert_eq!(config.url, "https://fullnode.mainnet.sui.io:443");
    assert!(!config.pretty);
}

#[test]
fn grpc_config_default_has_no_headers_and_plain_output() {
    let config = GrpcConfig::default();
    assert!(!config.json);
    assert!(config.headers.is_empty());
}

#[test]
fn vanity_config_default() {
    let config = VanityConfig::default();
    assert_eq!(config.starts_with, None);
    assert_eq!(config.ends_with, None);
    assert_eq!(config.save_path, None);
    assert_eq!(config.threads, 0);
    assert_eq!(config.max_addresses, 1);
    assert_eq!(config.addresses_per_round, 10000);
    assert_eq!(DEFAULT_ADDRESSES_PER_ROUND, 10000);
    assert!(!config.persists());
}

fn config(starts: Option<&str>, ends: Option<&str>, target: usize, batch: usize) -> VanityConfig {
    VanityConfig {
        starts_with: starts.map(str::to_string),
        ends_with: ends.map(str::to_string),
        save_path: None,
        threads: 1,
        max_addresses: target,
        addresses_per_round: batch,
    }
}

#[test]
fn validate_accepts_a_runnable_configuration() {
    assert_eq!(config(Some("0x00"), None, 1, 1).validate(), Ok(()));
    assert_eq!(config(None, Some("cafe"), 3, 10000).validate(), Ok(()));
    assert_eq!(config(Some("0x00"), Some("ff"), 1, 1).validate(), Ok(()));
}

#[test]
fn validate_names_what_is_wrong() {
    assert_eq!(VanityConfig::default().validate(), Err(ConfigError::NoPattern));
    assert_eq!(config(None, None, 0, 0).validate(), Err(ConfigError::NoPattern));
    assert_eq!(config(Some("a"), None, 0, 0).validate(), Err(ConfigError::ZeroTarget));
    assert_eq!(config(Some("a"), None, 0, 5).validate(), Err(ConfigError::ZeroTarget));
    assert_eq!(config(None, Some("a"), 2, 0).validate(), Err(ConfigError::ZeroBatch));
}

#[test]
fn persists_follows_the_save_path() {
    let mut c = config(Some("a"), None, 1, 1);
    assert!(!c.persists());
    c.save_path = Some("keys".to_string());
    assert!(c.persists());
}
