//! Hosting communities for others.

pub mod store;
