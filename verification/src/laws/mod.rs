//! What the operations of a node are for: relations that hold of every state
//! and every input.

pub mod channels;
pub mod communities;
pub mod conversations;
pub mod envelopes;
pub mod events;
pub mod hosting;
pub mod limits;
pub mod links;
pub mod manifests;
pub mod meanings;
pub mod messages;
pub mod moderation;
pub mod network;
pub mod nodes;
pub mod notices;
pub mod peers;
pub mod persistence;
pub mod reactions;
pub mod signatures;
pub mod startup;
pub mod topics;
pub mod trust;
pub mod waiting;
pub mod walks;
