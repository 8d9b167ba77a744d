//! The network layer's command and event handling.

pub mod command;
pub mod gossip;
pub mod push_reader;
pub mod types;
