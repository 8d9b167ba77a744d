//! Networking decisions.

pub mod client;
pub mod connection_manager;
pub mod mdns;
pub mod network_handle;
pub mod nat_traversal;
pub mod node_addr;
pub mod peer_manager;
pub mod protocol;
pub mod tls;
