//! Events from the network reach the state they are about.

use crate::api::effects::{DhtActionView, EffectView};
use crate::api::event_processor::channel_handler::{
    history_received, message_received, rotation_accepted, rotation_applied, sync_push, verdict,
};
use crate::api::event_processor::community_handler::{
    broadcast_applied, update_accepted, update_handled,
};
use crate::api::event_processor::dm_handler::dm_handled;
use crate::api::event_processor::member_handler::{
    heartbeat_handled, join_accepted, member_left, role_changed,
};
use crate::api::event_processor::peer::{peer_connected, peer_removed, probed};
use crate::api::event_processor::{listen_noted, swarm_event_handled, SurroundingsView};
use crate::api::{channel_topic, community_topic, without_community, AppStateView};
use crate::laws::moderation::accepted_records_are_stored;
use crate::laws::topics::topics_tell_apart;
use crate::laws::waiting::records;
use crate::model::network_event::NetworkEventView;
use crate::network::client::says_not_found;
use crate::network::network_handle::gossip::{outcome_events, Outcome};
use crate::network::network_handle::types::{
    ManifestResponseView, NetworkEventView as SwarmEventView,
};
use crate::time::Timestamp;
use vstd::prelude::*;

verus! {

/// A message on the topic of a channel that can be stored is stored there; an
/// announced rotation that is accepted is taken up.
pub proof fn channel_topics_reach_channels(
    s: AppStateView,
    after: AppStateView,
    c: Seq<char>,
    source: Option<Seq<char>>,
    data: Seq<u8>,
    around: SurroundingsView,
    fx: Seq<EffectView>,
)
    requires
        swarm_event_handled(
            s,
            after,
            SwarmEventView::MessageReceived { topic: channel_topic(c), source, data },
            around,
            fx,
        ),
    ensures
        around.decoded is None ==> after == s && fx.len() == 0,
        around.decoded matches Some(NetworkEventView::NewMessage(m)) ==> {
            &&& after == message_received(s, channel_topic(c), m)
            &&& verdict(s, m) is Stored ==> after.message_log.entries(m.channel_id.name()).len()
                == s.message_log.entries(m.channel_id.name()).len() + 1 && records(
                after.message_log.entries(m.channel_id.name()).last(),
                m,
            )
        },
        around.decoded matches Some(
            NetworkEventView::ChannelKeyRotation { new_manifest, signature },
        ) ==> rotation_accepted(s, new_manifest, signature) ==> after == rotation_applied(
            s,
            new_manifest,
        ) && after.channels[new_manifest.id.name()] == new_manifest,
{
    topics_tell_apart(c, c);
}

/// Events on the topic of a community reach what they are about: manifests, channel
/// manifests, members, roles and presence.
pub proof fn community_topics_reach_communities(
    s: AppStateView,
    after: AppStateView,
    c: Seq<char>,
    source: Option<Seq<char>>,
    data: Seq<u8>,
    around: SurroundingsView,
    fx: Seq<EffectView>,
)
    requires
        swarm_event_handled(
            s,
            after,
            SwarmEventView::MessageReceived { topic: community_topic(c), source, data },
            around,
            fx,
        ),
    ensures
        around.decoded is None ==> after == s && fx.len() == 0,
        around.decoded matches Some(NetworkEventView::ManifestUpdate(m)) ==> {
            &&& update_handled(s, after, m, source, around.parsed, fx)
            &&& update_accepted(s, m) && !m.manifest.deleted
                ==> after.communities[m.manifest.id.name()] == m
            &&& update_accepted(s, m) && m.manifest.deleted ==> !after.communities.contains_key(
                m.manifest.id.name(),
            )
        },
        around.decoded matches Some(NetworkEventView::ChannelManifestBroadcast(m)) ==> after
            == broadcast_applied(s, m) && (s.communities.contains_key(m.community_id.name())
            ==> after.channels.contains_key(m.id.name()) && after.channels[m.id.name()] == m),
        around.decoded matches Some(NetworkEventView::MemberJoined(m)) ==> {
            &&& join_accepted(s, m) ==> after.member_list(m.community_id.name()).contains_key(
                m.user_id.name(),
            ) && after.member_list(m.community_id.name())[m.user_id.name()] == m
            &&& !join_accepted(s, m) ==> after == s && fx.len() == 0
        },
        around.decoded matches Some(
            NetworkEventView::MemberLeft { user_id, community_id, timestamp, signature },
        ) ==> member_left(s, after, user_id, community_id, signature, fx),
        around.decoded matches Some(
            NetworkEventView::MemberRoleUpdated {
                user_id,
                community_id,
                new_role,
                timestamp,
                signature,
            },
        ) ==> role_changed(s, after, user_id, community_id, new_role, signature, fx),
        around.decoded matches Some(
            NetworkEventView::PresenceHeartbeat { user_id, status, timestamp, signature },
        ) ==> heartbeat_handled(s, after, user_id, status, timestamp, signature, fx),
{
    topics_tell_apart(c, c);
    if let Some(NetworkEventView::MemberJoined(m)) = around.decoded {
        if join_accepted(s, m) {
            accepted_records_are_stored(s, after, m, fx);
        }
    }
}

/// Everything else that the network reports reaches what it is about.
pub proof fn reports_reach_the_state(
    s: AppStateView,
    after: AppStateView,
    event: SwarmEventView,
    around: SurroundingsView,
    fx: Seq<EffectView>,
)
    requires
        swarm_event_handled(s, after, event, around, fx),
    ensures
        event matches SwarmEventView::PeerConnected { peer_id, community_id } ==> peer_connected(
            s,
            after,
            peer_id,
            community_id,
            fx,
        ),
        event matches SwarmEventView::LanPeerConnected { peer_id } ==> probed(s, peer_id, fx)
            && after == s,
        event matches SwarmEventView::PeerDisconnected(peer_id) ==> after == peer_removed(
            s,
            peer_id,
        ),
        event matches SwarmEventView::DmReceived { entry, recipient_pk } ==> dm_handled(
            s,
            after,
            entry,
            recipient_pk,
            fx,
        ),
        event matches SwarmEventView::ManifestReceived(m) ==> exists|now: Timestamp| #[trigger]
            m.handled(s, after, now, around.last_seqs, fx),
        event matches SwarmEventView::ChannelHistoryReceived { community_id, channel_id, entries }
            ==> after == history_received(s, channel_id, entries) && fx.contains(
            sync_push(channel_id, true),
        ),
        event matches SwarmEventView::CommunityJoinFailed { community_id, reason } ==> after
            == without_community(s, community_id),
        event matches SwarmEventView::ManifestNotFound { community_id, peer_id } ==> after == s && (
        s.communities.contains_key(community_id) ==> fx.contains(
            EffectView::Dht(
                DhtActionView::DiscoverCommunity {
                    community_pk: s.communities[community_id].manifest.public_key,
                    community_id,
                },
            ),
        )),
        event matches SwarmEventView::SeedPeerConnected { community_id, peer_id }
            ==> after.seed_connected_communities.contains(community_id),
        event matches SwarmEventView::SeedPeerDisconnected { community_id }
            ==> !after.seed_connected_communities.contains(community_id),
        event matches SwarmEventView::PeerAddrKnown { node_pk, addr } ==> fx.contains(
            EffectView::Dht(DhtActionView::AddKnownPeer { node_pk, addr }),
        ),
        event matches SwarmEventView::NewListenAddr(a) ==> listen_noted(
            s,
            after,
            crate::api::event_processor::addr::expanded(a, around.interfaces),
            around.parsed,
            fx,
        ),
{
    match event {
        SwarmEventView::ChannelHistoryReceived { community_id, channel_id, entries } => {
            assert(fx[fx.len() - 2] == sync_push(channel_id, true));
        },
        SwarmEventView::ManifestNotFound { community_id, peer_id } => {
            if s.communities.contains_key(community_id) {
                assert(fx[0] == EffectView::Dht(
                    DhtActionView::DiscoverCommunity {
                        community_pk: s.communities[community_id].manifest.public_key,
                        community_id,
                    },
                ));
            }
        },
        SwarmEventView::SeedPeerConnected { community_id, peer_id } => {
            let before = s.seed_connected_communities;
            if !before.contains(community_id) {
                assert(after.seed_connected_communities[before.len() as int] == community_id);
            }
        },
        SwarmEventView::SeedPeerDisconnected { community_id } => {
            crate::lists::without_text_membership(
                s.seed_connected_communities,
                community_id,
                community_id,
            );
        },
        SwarmEventView::PeerAddrKnown { node_pk, addr } => {
            assert(fx[0] == EffectView::Dht(DhtActionView::AddKnownPeer { node_pk, addr }));
        },
        _ => {},
    }
}

/// What a peer serves is reported as served, and a failure as that failure; a
/// refusal counts as missing only where it says so.
pub proof fn outcomes_are_reported(o: Outcome, own: Seq<u8>)
    ensures
        o matches Outcome::ManifestServed { peer_id, served } ==> outcome_events(o, own).contains(
            SwarmEventView::ManifestReceived(
                ManifestResponseView {
                    from: peer_id@,
                    manifest: served.manifest.deep_view(),
                    channels: served.channels.deep_view(),
                    channel_keys: served.channel_keys.deep_view(),
                    members: served.members.deep_view(),
                },
            ),
        ),
        o matches Outcome::ManifestRefused { peer_id, community_id, error } ==> if says_not_found(
            error@,
        ) {
            outcome_events(o, own).contains(
                SwarmEventView::ManifestNotFound {
                    community_id: community_id@,
                    peer_id: peer_id@,
                },
            )
        } else {
            outcome_events(o, own).len() == 0
        },
        o matches Outcome::HistoryServed { community_id, channel_id, entries } ==> outcome_events(
            o,
            own,
        ).contains(
            SwarmEventView::ChannelHistoryReceived {
                community_id: community_id@,
                channel_id: channel_id@,
                entries: entries.deep_view(),
            },
        ),
        o matches Outcome::DmNotSent { peer_id, message_id } ==> outcome_events(o, own).contains(
            SwarmEventView::DmSendFailed { peer_id: peer_id@, message_id: message_id@ },
        ),
        o matches Outcome::JoinRefused { community_id, reason } ==> outcome_events(
            o,
            own,
        ).contains(
            SwarmEventView::CommunityJoinFailed { community_id: community_id@, reason: reason@ },
        ),
        o matches Outcome::MailboxServed { entries } ==> outcome_events(o, own).len()
            == entries.deep_view().len() && forall|i: int|
            0 <= i < entries.deep_view().len() ==> #[trigger] outcome_events(o, own)[i] == (
            SwarmEventView::DmReceived { entry: entries.deep_view()[i], recipient_pk: own }),
{
    let e = outcome_events(o, own);
    match o {
        Outcome::ManifestServed { peer_id, served } => {
            assert(e[0] == e[0]);
            assert(e.contains(e[0]));
        },
        Outcome::ManifestRefused { peer_id, community_id, error } => {
            if says_not_found(error@) {
                assert(e.contains(e[0]));
            }
        },
        Outcome::HistoryServed { community_id, channel_id, entries } => {
            assert(e.contains(e[0]));
        },
        Outcome::DmNotSent { peer_id, message_id } => {
            assert(e.contains(e[0]));
        },
        Outcome::JoinRefused { community_id, reason } => {
            assert(e.contains(e[0]));
        },
        Outcome::MailboxServed { entries } => {},
    }
}

} // verus!
