//! Node configuration.

pub mod bootstrap;

use crate::lists::{copy_text_opt, copy_texts};
use crate::text::text;
use vstd::prelude::*;

verus! {

/// Operating mode of the node.
#[derive(Clone, Copy, Debug, PartialEq, Eq, Structural)]
pub enum NodeMode {
    /// No server, no routing table, no local discovery.
    GossipClient,
    /// Full peer; the default.
    Peer,
    /// Headless host without a user identity.
    HeadlessSeed,
}

impl DeepView for NodeMode {
    type V = NodeMode;

    open spec fn deep_view(&self) -> NodeMode {
        *self
    }
}

impl Default for NodeMode {
    fn default() -> (r: NodeMode)
        ensures
            r == NodeMode::Peer,
    {
        NodeMode::Peer
    }
}

/// Node configuration. Every field has a usable default.
#[derive(Debug)]
pub struct NodeConfig {
    /// Path of the key file.
    pub identity_path: String,
    /// Base data directory.
    pub data_dir: String,
    /// Addresses to listen on.
    pub listen_addrs: Vec<String>,
    /// Bootstrap addresses tried before the built-in ones.
    pub seed_nodes: Vec<String>,
    /// Maximum number of simultaneous connections.
    pub max_connections: usize,
    /// Maximum disk storage for channel state in megabytes.
    pub storage_limit_mb: u64,
    /// Bandwidth limit in kilobits per second.
    pub bandwidth_limit_kbps: Option<u64>,
    /// Operating mode.
    pub node_mode: NodeMode,
    /// Priority for seed node selection (higher is preferred).
    pub seed_priority: u8,
    /// Log level filter.
    pub log_level: String,
    /// UDP port of the transport server.
    pub quic_port: u16,
    /// Display name set during onboarding.
    pub display_name: Option<String>,
    /// Password that clients must supply to register a community here.
    pub join_password: Option<String>,
    /// Whether the passphrase is kept in the keychain.
    pub save_passphrase: bool,
    /// Preferred mailbox node address.
    pub preferred_mailbox_node: Option<String>,
}

/// What a [`NodeConfig`] holds.
pub struct NodeConfigView {
    pub identity_path: Seq<char>,
    pub data_dir: Seq<char>,
    pub listen_addrs: Seq<Seq<char>>,
    pub seed_nodes: Seq<Seq<char>>,
    pub max_connections: usize,
    pub storage_limit_mb: u64,
    pub bandwidth_limit_kbps: Option<u64>,
    pub node_mode: NodeMode,
    pub seed_priority: u8,
    pub log_level: Seq<char>,
    pub quic_port: u16,
    pub display_name: Option<Seq<char>>,
    pub join_password: Option<Seq<char>>,
    pub save_passphrase: bool,
    pub preferred_mailbox_node: Option<Seq<char>>,
}

impl DeepView for NodeConfig {
    type V = NodeConfigView;

    open spec fn deep_view(&self) -> NodeConfigView {
        NodeConfigView {
            identity_path: self.identity_path@,
            data_dir: self.data_dir@,
            listen_addrs: self.listen_addrs.deep_view(),
            seed_nodes: self.seed_nodes.deep_view(),
            max_connections: self.max_connections,
            storage_limit_mb: self.storage_limit_mb,
            bandwidth_limit_kbps: self.bandwidth_limit_kbps,
            node_mode: self.node_mode,
            seed_priority: self.seed_priority,
            log_level: self.log_level@,
            quic_port: self.quic_port,
            display_name: self.display_name.deep_view(),
            join_password: self.join_password.deep_view(),
            save_passphrase: self.save_passphrase,
            preferred_mailbox_node: self.preferred_mailbox_node.deep_view(),
        }
    }
}

impl Clone for NodeConfig {
    fn clone(&self) -> (r: Self)
        ensures
            r.deep_view() == self.deep_view(),
    {
        NodeConfig {
            identity_path: self.identity_path.clone(),
            data_dir: self.data_dir.clone(),
            listen_addrs: copy_texts(&self.listen_addrs),
            seed_nodes: copy_texts(&self.seed_nodes),
            max_connections: self.max_connections,
            storage_limit_mb: self.storage_limit_mb,
            bandwidth_limit_kbps: self.bandwidth_limit_kbps,
            node_mode: self.node_mode,
            seed_priority: self.seed_priority,
            log_level: self.log_level.clone(),
            quic_port: self.quic_port,
            display_name: copy_text_opt(&self.display_name),
            join_password: copy_text_opt(&self.join_password),
            save_passphrase: self.save_passphrase,
            preferred_mailbox_node: copy_text_opt(&self.preferred_mailbox_node),
        }
    }
}

/// The default configuration for a node that keeps its files in `data_dir`.
pub open spec fn default_config(data_dir: Seq<char>, identity_path: Seq<char>) -> NodeConfigView {
    NodeConfigView {
        identity_path,
        data_dir,
        listen_addrs: seq!["0.0.0.0:7332"@, "[::]:7332"@],
        seed_nodes: Seq::empty(),
        max_connections: 50,
        storage_limit_mb: 512,
        bandwidth_limit_kbps: None,
        node_mode: NodeMode::Peer,
        seed_priority: 0,
        log_level: "info"@,
        quic_port: 9042,
        display_name: None,
        join_password: None,
        save_passphrase: false,
        preferred_mailbox_node: None,
    }
}

impl NodeConfig {
    /// The default configuration for a node that keeps its files in `data_dir`.
    pub fn default_in(data_dir: &str, identity_path: &str) -> (r: NodeConfig)
        ensures
            r.deep_view() == default_config(data_dir@, identity_path@),
    {
        let mut listen_addrs: Vec<String> = Vec::new();
        listen_addrs.push(text("0.0.0.0:7332"));
        listen_addrs.push(text("[::]:7332"));
        assert(listen_addrs.deep_view() =~= seq!["0.0.0.0:7332"@, "[::]:7332"@]);
        let seed_nodes: Vec<String> = Vec::new();
        assert(seed_nodes.deep_view() =~= Seq::<Seq<char>>::empty());
        NodeConfig {
            identity_path: text(identity_path),
            data_dir: text(data_dir),
            listen_addrs,
            seed_nodes,
            max_connections: 50,
            storage_limit_mb: 512,
            bandwidth_limit_kbps: None,
            node_mode: NodeMode::Peer,
            seed_priority: 0,
            log_level: text("info"),
            quic_port: 9042,
            display_name: None,
            join_password: None,
            save_passphrase: false,
            preferred_mailbox_node: None,
        }
    }

    /// The stored configuration when there is one; otherwise the defaults, kept
    /// beside the configuration file when that has a directory (given as the
    /// directory and the key file path in it), else in the default place.
    pub fn load_or_default(
        stored: Option<NodeConfig>,
        beside: Option<(&str, &str)>,
        default_place: (&str, &str),
    ) -> (r: NodeConfig)
        ensures
            r.deep_view() == match (stored, beside) {
                (Some(c), _) => c.deep_view(),
                (None, Some(b)) => default_config(b.0@, b.1@),
                (None, None) => default_config(default_place.0@, default_place.1@),
            },
    {
        match stored {
            Some(c) => c,
            None => match beside {
                Some(b) => Self::default_in(b.0, b.1),
                None => Self::default_in(default_place.0, default_place.1),
            },
        }
    }
}

} // verus!
