//! Locally kept state.

pub mod message_log;
