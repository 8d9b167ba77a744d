//! What a connected node sends unasked.

use crate::network::network_handle::types::{NetworkEvent, NetworkEventView};
use crate::network::protocol::NodePush;
use crate::text::same_text;
use vstd::prelude::*;

verus! {

/// The event that a push stands for. A message that this node published itself
/// comes back and stands for none.
pub open spec fn push_meaning(push: NodePush, own_pk_hex: Seq<char>) -> Option<NetworkEventView> {
    match push {
        NodePush::GossipMessage { topic, source, data } => if source@ == own_pk_hex {
            None
        } else {
            Some(
                NetworkEventView::MessageReceived {
                    topic: topic@,
                    source: Some(source@),
                    data: data@,
                },
            )
        },
        NodePush::NewDm { entry, recipient_pk } => Some(
            NetworkEventView::DmReceived {
                entry: entry.deep_view(),
                recipient_pk: recipient_pk@,
            },
        ),
        _ => None,
    }
}

/// The event that a push stands for, if any.
pub fn push_event(push: NodePush, own_pk_hex: &str) -> (r: Option<NetworkEvent>)
    ensures
        r.deep_view() == push_meaning(push, own_pk_hex@),
{
    match push {
        NodePush::GossipMessage { topic, source, data } => {
            if same_text(source.as_str(), own_pk_hex) {
                None
            } else {
                Some(NetworkEvent::MessageReceived { topic, source: Some(source), data })
            }
        },
        NodePush::NewDm { entry, recipient_pk } => Some(
            NetworkEvent::DmReceived { entry, recipient_pk },
        ),
        _ => None,
    }
}

} // verus!
