//! Core of a peer-to-peer community chat node.
//!
//! Every decision the node takes lives in this crate as a function with a
//! contract: cryptographic envelopes, signed community manifests, membership
//! and role rules, message history, peer bookkeeping, routing walks and the
//! handlers that turn an incoming request or network event into a new state
//! and a list of effects. Sockets, files and timers stay with the caller.

pub mod api;
pub mod bytes;
pub mod config;
pub mod crypto;
pub mod dht;
pub mod identity;
pub mod laws;
pub mod lists;
pub mod model;
pub mod network;
pub mod node;
pub mod state;
pub mod table;
pub mod text;
pub mod time;
pub mod wire;
