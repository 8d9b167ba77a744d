//! Finding nodes in the distributed routing table.

pub mod kademlia;
