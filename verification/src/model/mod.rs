//! The data that communities are made of.

pub mod channel;
pub mod community;
pub mod membership;
pub mod message;
pub mod network_event;
pub mod types;
