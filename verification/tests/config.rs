//! Node configuration and bootstrap addresses.

use bitcord_core::config::bootstrap::{bootstrap_candidates, effective_seed_addrs, BOOTSTRAP_NODE};
use bitcord_core::config::{NodeConfig, NodeMode};
use bitcord_core::network::node_addr::{Ip, NodeAddr};
use bitcord_core::table::Table;

fn configured(seeds: Vec<&str>) -> NodeConfig {
    let mut config = NodeConfig::default_in("/data", "/data/identity.key");
    for s in seeds {
        config.seed_nodes.push(s.to_string());
    }
    config
}

fn v4(a: u8, b: u8, c: u8, d: u8, port: u16) -> NodeAddr {
    NodeAddr { ip: Ip::V4(u32::from_be_bytes([a, b, c, d])), port }
}

/// What a resolver without DNS finds: literal addresses and nothing else.
fn literals() -> Table<Vec<NodeAddr>> {
    let mut t = Table::new();
    t.insert("127.0.0.1:9042", vec![v4(127, 0, 0, 1, 9042)]);
    t.insert("10.0.0.1:9042", vec![v4(10, 0, 0, 1, 9042)]);
    t
}

/// What a resolver with DNS finds.
fn with_dns() -> Table<Vec<NodeAddr>> {
    let mut t = literals();
    t.insert(BOOTSTRAP_NODE, vec![v4(93, 184, 216, 34, 9042), v4(93, 184, 216, 35, 9042)]);
    t
}

#[test]
fn empty_config_returns_only_builtin_nodes() {
    let config = configured(vec![]);
    let addrs = effective_seed_addrs(&config, &literals());
    assert!(addrs.len() <= 10, "unexpected address count");
    assert!(addrs.is_empty());
    let addrs = effective_seed_addrs(&config, &with_dns());
    assert!(addrs.len() <= 10, "unexpected address count");
    assert_eq!(addrs, vec![v4(93, 184, 216, 34, 9042), v4(93, 184, 216, 35, 9042)]);
}

#[test]
fn config_seed_nodes_are_included() {
    let config = configured(vec!["127.0.0.1:9042"]);
    let addrs = effective_seed_addrs(&config, &with_dns());
    assert!(!addrs.is_empty());
    assert_eq!(addrs[0].port, 9042);
}

#[test]
fn config_nodes_come_before_builtin_nodes() {
    let config = configured(vec!["10.0.0.1:9042"]);
    let addrs = effective_seed_addrs(&config, &with_dns());
    if !addrs.is_empty() {
        assert_eq!(addrs[0].port, 9042);
    }
    assert_eq!(addrs[0], v4(10, 0, 0, 1, 9042));
    assert_eq!(addrs.len(), 3);
}

#[test]
fn deduplication_removes_repeated_addresses() {
    let config = configured(vec!["127.0.0.1:9042", "127.0.0.1:9042"]);
    let addrs = effective_seed_addrs(&config, &with_dns());
    let count_loopback_9042 =
        addrs.iter().filter(|a| a.port == 9042 && a.ip == Ip::V4(0x7f00_0001)).count();
    assert_eq!(count_loopback_9042, 1);
}

#[test]
fn invalid_address_is_skipped_gracefully() {
    let config = configured(vec!["not-a-valid-address", "also:bad", "127.0.0.1:9042"]);
    let addrs = effective_seed_addrs(&config, &with_dns());
    assert!(addrs.iter().any(|a| a.ip == Ip::V4(0x7f00_0001) && a.port == 9042));
}

#[test]
fn builtin_nodes_are_included_by_default() {
    let config = configured(vec![]);
    let addrs = effective_seed_addrs(&config, &with_dns());
    assert!(addrs.len() <= 10);
    assert_eq!(bootstrap_candidates(&config), vec![BOOTSTRAP_NODE.to_string()]);
}

#[test]
fn a_configured_builtin_name_is_tried_once() {
    let config = configured(vec![BOOTSTRAP_NODE, "a:1"]);
    assert_eq!(bootstrap_candidates(&config), vec![BOOTSTRAP_NODE.to_string(), "a:1".to_string()]);
}

#[test]
fn missing_file_returns_default() {
    let cfg = NodeConfig::load_or_default(None, Some(("/tmp/x", "/tmp/x/identity.key")), ("/d", "/d/k"));
    assert_eq!(cfg.max_connections, 50);
    assert_eq!(cfg.storage_limit_mb, 512);
    assert_eq!(cfg.node_mode, NodeMode::Peer);
    assert_eq!(cfg.data_dir, "/tmp/x");
    assert_eq!(cfg.identity_path, "/tmp/x/identity.key");
}

#[test]
fn defaults_go_to_the_default_place_when_there_is_no_directory() {
    let cfg = NodeConfig::load_or_default(None, None, ("/d", "/d/k"));
    assert_eq!(cfg.data_dir, "/d");
    assert_eq!(cfg.identity_path, "/d/k");
    assert_eq!(cfg.listen_addrs, vec!["0.0.0.0:7332".to_string(), "[::]:7332".to_string()]);
    assert_eq!(cfg.quic_port, 9042);
    assert_eq!(cfg.log_level, "info");
}

#[test]
fn a_stored_configuration_is_kept() {
    let mut stored = configured(vec!["a:1"]);
    stored.max_connections = 7;
    stored.node_mode = NodeMode::GossipClient;
    let cfg = NodeConfig::load_or_default(Some(stored), None, ("/d", "/d/k"));
    assert_eq!(cfg.max_connections, 7);
    assert_eq!(cfg.node_mode, NodeMode::GossipClient);
    assert_eq!(cfg.seed_nodes, vec!["a:1".to_string()]);
    assert_eq!(cfg.clone().data_dir, "/data");
    assert_eq!(NodeMode::default(), NodeMode::Peer);
}
