//! Handlers for what the network reports.

pub mod addr;
pub mod channel_handler;
pub mod community_handler;
pub mod dm_handler;
pub mod manifest_handler;
pub mod member_handler;
pub mod peer;

use crate::api::effects::{emit, no_effects, DhtAction, DhtActionView, Effect, EffectView};
use crate::api::event_processor::addr::{
    expand_wildcard_addr, expanded, is_publicly_routable, routable, Interface, InterfaceView,
};
use crate::api::event_processor::channel_handler::{
    channel_event_handled, history_effects, history_received,
};
use crate::api::event_processor::community_handler::{
    community_event_handled, forgotten, join_noted, seqs_can_grow, Stored, StoredView,
};
use crate::api::event_processor::dm_handler::dm_handled;
use crate::api::event_processor::peer::{
    peer_connected, peer_removed, probed, seed_effects, seed_push,
};
use crate::api::push_broadcaster::{
    DmSendFailedData, DmSendFailedDataView, PushEvent, PushEventView,
};
use crate::api::{without_community, AppState, AppStateView};
use crate::lists::{add_text, vec_deep_view, views, with_text, without_text};
use crate::model::community::SignedManifestView;
use crate::model::network_event::{NetworkEvent, NetworkEventView};
use crate::network::network_handle::types::{
    NetworkEvent as SwarmEvent, NetworkEventView as SwarmEventView,
};
use crate::network::node_addr::NodeAddr;
use crate::table::{lists, Table};
use crate::text::{after_prefix, begins_with};
use vstd::prelude::*;

verus! {

/// What a handler needs beside the state and the event.
pub struct Surroundings {
    /// What the data of a received message decodes to.
    pub decoded: Option<NetworkEvent>,
    /// The last sequence number per channel in the hosting store, if there is
    /// one.
    pub last_seqs: Option<Table<u64>>,
    /// The addresses among the texts in the event that are well formed.
    pub parsed: Table<NodeAddr>,
    /// What the hosting store holds of the community in question.
    pub stored: Stored,
    /// The local network interfaces.
    pub interfaces: Option<Vec<Interface>>,
}

/// What a [`Surroundings`] holds.
pub struct SurroundingsView {
    pub decoded: Option<NetworkEventView>,
    pub last_seqs: Option<Map<Seq<char>, u64>>,
    pub parsed: Map<Seq<char>, NodeAddr>,
    pub stored: StoredView,
    pub interfaces: Option<Seq<InterfaceView>>,
}

impl DeepView for Surroundings {
    type V = SurroundingsView;

    open spec fn deep_view(&self) -> SurroundingsView {
        SurroundingsView {
            decoded: self.decoded.deep_view(),
            last_seqs: self.last_seqs.deep_view(),
            parsed: self.parsed.deep_view(),
            stored: self.stored.deep_view(),
            interfaces: self.interfaces.deep_view(),
        }
    }
}

/// Whether a text is a publicly routable address.
pub open spec fn is_public(parsed: Map<Seq<char>, NodeAddr>, a: Seq<char>) -> bool {
    parsed.contains_key(a) && routable(parsed[a])
}

/// The state after the node learned that it listens on the given addresses.
/// The first public one becomes the public address, unless there is one.
pub open spec fn listening(
    s: AppStateView,
    list: Seq<Seq<char>>,
    parsed: Map<Seq<char>, NodeAddr>,
) -> AppStateView
    decreases list.len(),
{
    if list.len() == 0 {
        s
    } else {
        let before = listening(s, list.drop_last(), parsed);
        let a = list.last();
        AppStateView {
            actual_listen_addrs: with_text(before.actual_listen_addrs, a),
            public_addr: if before.public_addr is None && is_public(parsed, a) {
                Some(a)
            } else {
                before.public_addr
            },
            ..before
        }
    }
}

/// Announce this node to the peers of every listed community.
pub open spec fn announcements(order: Seq<(Seq<char>, SignedManifestView)>) -> Seq<EffectView> {
    Seq::new(
        order.len(),
        |i: int|
            EffectView::Dht(
                DhtActionView::AnnounceCommunity {
                    community_pk: order[i].1.manifest.public_key,
                },
            ),
    )
}

/// What is done after the node learned that it listens on an address: on the
/// first public one, this node is announced everywhere.
pub open spec fn listening_effects(
    s: AppStateView,
    after: AppStateView,
    order: Seq<(Seq<char>, SignedManifestView)>,
) -> Seq<EffectView> {
    if s.public_addr is None && after.public_addr is Some {
        announcements(order).push(EffectView::Dht(DhtActionView::AnnouncePeerInfo))
    } else {
        Seq::empty()
    }
}

/// What it leads to that the node listens on the given addresses.
pub open spec fn listen_noted(
    s: AppStateView,
    after: AppStateView,
    list: Seq<Seq<char>>,
    parsed: Map<Seq<char>, NodeAddr>,
    fx: Seq<EffectView>,
) -> bool {
    &&& after == listening(s, list, parsed)
    &&& exists|order: Seq<(Seq<char>, SignedManifestView)>|
        lists(order, s.communities) && fx == #[trigger] listening_effects(s, after, order)
}

/// Look for peers of a community that is known.
pub open spec fn discovery(s: AppStateView, community_id: Seq<char>) -> Seq<EffectView> {
    if s.communities.contains_key(community_id) {
        seq![
            EffectView::Dht(
                DhtActionView::DiscoverCommunity {
                    community_pk: s.communities[community_id].manifest.public_key,
                    community_id,
                },
            ),
        ]
    } else {
        Seq::empty()
    }
}

/// What a message on a topic leads to.
pub open spec fn topic_handled(
    s: AppStateView,
    after: AppStateView,
    topic: Seq<char>,
    source: Option<Seq<char>>,
    around: SurroundingsView,
    fx: Seq<EffectView>,
) -> bool {
    match around.decoded {
        None => after == s && fx.len() == 0,
        Some(event) => if begins_with(topic, "/bitcord/channel/"@) {
            channel_event_handled(s, after, topic, event, fx)
        } else if begins_with(topic, "/bitcord/community/"@) {
            community_event_handled(
                s,
                after,
                event,
                source,
                around.last_seqs,
                around.parsed,
                fx,
            )
        } else {
            after == s && fx.len() == 0
        },
    }
}

/// What an event of the network layer leads to.
pub open spec fn swarm_event_handled(
    s: AppStateView,
    after: AppStateView,
    event: SwarmEventView,
    around: SurroundingsView,
    fx: Seq<EffectView>,
) -> bool {
    match event {
        SwarmEventView::PeerConnected { peer_id, community_id } => peer_connected(
            s,
            after,
            peer_id,
            community_id,
            fx,
        ),
        SwarmEventView::LanPeerConnected { peer_id } => after == s && probed(s, peer_id, fx),
        SwarmEventView::PeerDisconnected(peer_id) => after == peer_removed(s, peer_id) && fx.len()
            == 0,
        SwarmEventView::MessageReceived { topic, source, .. } => topic_handled(
            s,
            after,
            topic,
            source,
            around,
            fx,
        ),
        SwarmEventView::NewListenAddr(a) => listen_noted(
            s,
            after,
            expanded(a, around.interfaces),
            around.parsed,
            fx,
        ),
        SwarmEventView::DmReceived { entry, recipient_pk } => dm_handled(
            s,
            after,
            entry,
            recipient_pk,
            fx,
        ),
        SwarmEventView::ManifestReceived(m) => m.taken_up(s, after, around.last_seqs, fx),
        SwarmEventView::ChannelHistoryReceived { community_id, channel_id, entries } => after
            == history_received(s, channel_id, entries) && fx == history_effects(
            s,
            community_id,
            channel_id,
            entries,
        ),
        SwarmEventView::CommunityJoined(c) => join_noted(
            s,
            after,
            c.pk,
            c.id,
            around.stored,
            fx,
        ),
        SwarmEventView::CommunityJoinFailed { community_id, reason } => after
            == without_community(s, community_id) && forgotten(s, community_id, 0, reason, fx),
        SwarmEventView::ManifestNotFound { community_id, .. } => after == s && fx == discovery(
            s,
            community_id,
        ),
        SwarmEventView::SeedPeerConnected { community_id, peer_id } => after == (AppStateView {
            seed_connected_communities: with_text(s.seed_connected_communities, community_id),
            ..s
        }) && fx == seed_effects(s, community_id, peer_id),
        SwarmEventView::SeedPeerDisconnected { community_id } => after == (AppStateView {
            seed_connected_communities: without_text(s.seed_connected_communities, community_id),
            ..s
        }) && fx == seq![seed_push(community_id, false)],
        SwarmEventView::DmSendFailed { peer_id, message_id } => after == s && fx == seq![
            EffectView::Push(
                PushEventView::DmSendFailed(DmSendFailedDataView { peer_id, message_id }),
            ),
        ],
        SwarmEventView::PeerAddrKnown { node_pk, addr } => after == s && fx == seq![
            EffectView::Dht(DhtActionView::AddKnownPeer { node_pk, addr }),
            EffectView::Dht(DhtActionView::AnnouncePeerInfo),
        ],
        SwarmEventView::Error(_) => after == s && fx.len() == 0,
    }
}

impl AppState {
    /// Announce this node to the peers of every community, and its own keys
    /// and address.
    fn announce_everywhere(&self) -> (r: Vec<Effect>)
        ensures
            lists(self.communities.order(), self.deep_view().communities),
            r.deep_view() == announcements(self.communities.order()).push(
                EffectView::Dht(DhtActionView::AnnouncePeerInfo),
            ),
    {
        let mut out = no_effects();
        let n: usize = self.communities.len();
        let ghost order = self.communities.order();
        let mut i: usize = 0;
        assert(out.deep_view() =~= announcements(order.subrange(0, 0)));
        while i < n
            invariant
                i <= n,
                n == order.len(),
                order == self.communities.order(),
                out.deep_view() == announcements(order.subrange(0, i as int)),
            decreases n - i,
        {
            emit(
                &mut out,
                Effect::Dht(
                    DhtAction::AnnounceCommunity {
                        community_pk: self.communities.value_at(i).manifest.public_key,
                    },
                ),
            );
            i += 1;
            assert(announcements(order.subrange(0, i as int)) =~= announcements(
                order.subrange(0, i - 1),
            ).push(
                EffectView::Dht(
                    DhtActionView::AnnounceCommunity {
                        community_pk: order[i - 1].1.manifest.public_key,
                    },
                ),
            ));
        }
        assert(order.subrange(0, order.len() as int) =~= order);
        emit(&mut out, Effect::Dht(DhtAction::AnnouncePeerInfo));
        out
    }

    /// The node learned that it listens on an address.
    pub fn handle_new_listen_addr(
        &mut self,
        addr: &str,
        interfaces: &Option<Vec<Interface>>,
        parsed: &Table<NodeAddr>,
    ) -> (r: Vec<Effect>)
        ensures
            listen_noted(
                old(self).deep_view(),
                final(self).deep_view(),
                expanded(addr@, interfaces.deep_view()),
                parsed.deep_view(),
                r.deep_view(),
            ),
    {
        broadcast use vec_deep_view;

        let ghost s = old(self).deep_view();
        let ghost addrs = parsed.deep_view();
        let list = expand_wildcard_addr(addr, interfaces);
        let ghost all = views(list@);
        let had = self.public_addr.is_some();
        let n: usize = list.len();
        let mut i: usize = 0;
        assert(all.subrange(0, 0) =~= Seq::<Seq<char>>::empty());
        while i < n
            invariant
                i <= n,
                n == list@.len(),
                all == views(list@),
                addrs == parsed.deep_view(),
                self.deep_view() == listening(s, all.subrange(0, i as int), addrs),
                self.deep_view().communities == s.communities,
            decreases n - i,
        {
            let ghost next = all.subrange(0, i + 1);
            assert(next.drop_last() =~= all.subrange(0, i as int));
            let a = list[i].as_str();
            assert(a@ == next.last());
            add_text(&mut self.actual_listen_addrs, a);
            if self.public_addr.is_none() {
                if let Some(p) = parsed.get(a) {
                    if is_publicly_routable(*p) {
                        self.public_addr = Some(list[i].clone());
                    }
                }
            }
            i += 1;
        }
        assert(all.subrange(0, all.len() as int) =~= all);
        let out = if !had && self.public_addr.is_some() {
            self.announce_everywhere()
        } else {
            let m: usize = self.communities.len();
            no_effects()
        };
        proof {
            let order = self.communities.order();
            assert(out.deep_view() =~= listening_effects(s, self.deep_view(), order));
        }
        out
    }

    /// A peer does not have a manifest: look for other peers of the community.
    /// That one peer lacks it does not mean that the community is gone.
    pub fn handle_manifest_not_found(&self, community_id: String) -> (r: Vec<Effect>)
        ensures
            r.deep_view() == discovery(self.deep_view(), community_id@),
    {
        let ghost s = self.deep_view();
        let ghost cid = community_id@;
        let mut out = no_effects();
        if let Some(signed) = self.communities.get(community_id.as_str()) {
            let community_pk: [u8; 32] = signed.manifest.public_key;
            emit(
                &mut out,
                Effect::Dht(DhtAction::DiscoverCommunity { community_pk, community_id }),
            );
        }
        assert(out.deep_view() =~= discovery(s, cid));
        out
    }

    /// Handle a message that came in on a topic.
    fn handle_topic(
        &mut self,
        topic: &str,
        source: Option<String>,
        decoded: Option<NetworkEvent>,
        last_seqs: &Option<Table<u64>>,
        parsed: &Table<NodeAddr>,
    ) -> (r: Vec<Effect>)
        requires
            seqs_can_grow(last_seqs.deep_view()),
        ensures
            match decoded.deep_view() {
                None => final(self).deep_view() == old(self).deep_view() && r.deep_view().len()
                    == 0,
                Some(event) => if begins_with(topic@, "/bitcord/channel/"@) {
                    channel_event_handled(
                        old(self).deep_view(),
                        final(self).deep_view(),
                        topic@,
                        event,
                        r.deep_view(),
                    )
                } else if begins_with(topic@, "/bitcord/community/"@) {
                    community_event_handled(
                        old(self).deep_view(),
                        final(self).deep_view(),
                        event,
                        source.deep_view(),
                        last_seqs.deep_view(),
                        parsed.deep_view(),
                        r.deep_view(),
                    )
                } else {
                    final(self).deep_view() == old(self).deep_view() && r.deep_view().len() == 0
                },
            },
    {
        match decoded {
            None => no_effects(),
            Some(event) => {
                if after_prefix(topic, "/bitcord/channel/").is_some() {
                    self.handle_channel_message(topic, event)
                } else if after_prefix(topic, "/bitcord/community/").is_some() {
                    self.handle_community_message(event, source, last_seqs, parsed)
                } else {
                    no_effects()
                }
            },
        }
    }

    /// Handle one event of the network layer.
    pub fn process_swarm_event(&mut self, event: SwarmEvent, around: Surroundings) -> (r: Vec<
        Effect,
    >)
        requires
            seqs_can_grow(around.last_seqs.deep_view()),
        ensures
            swarm_event_handled(
                old(self).deep_view(),
                final(self).deep_view(),
                event.deep_view(),
                around.deep_view(),
                r.deep_view(),
            ),
    {
        match event {
            SwarmEvent::PeerConnected { peer_id, community_id } => self.handle_peer_connected(peer_id, community_id),
            SwarmEvent::LanPeerConnected { peer_id } => self.handle_lan_peer_connected(peer_id),
            SwarmEvent::PeerDisconnected(peer_id) => {
                self.handle_peer_disconnected(peer_id.as_str());
                no_effects()
            },
            SwarmEvent::MessageReceived { topic, source, .. } => self.handle_topic(
                    topic.as_str(),
                    source,
                    around.decoded,
                    &around.last_seqs,
                    &around.parsed,
                ),
            SwarmEvent::NewListenAddr(addr) => self.handle_new_listen_addr(
                    addr.as_str(),
                    &around.interfaces,
                    &around.parsed,
                ),
            SwarmEvent::DmReceived { entry, recipient_pk } => self.handle_dm_received(entry, recipient_pk),
            SwarmEvent::ManifestReceived(m) => self.handle_manifest_received(m, &around.last_seqs),
            SwarmEvent::ChannelHistoryReceived { community_id, channel_id, entries } => {
                self.handle_channel_history_received(community_id, channel_id, entries)
            },
            SwarmEvent::CommunityJoined(c) => self.handle_community_joined(c.pk, c.id, around.stored),
            SwarmEvent::CommunityJoinFailed { community_id, reason } => self.forget_community(community_id, 0, reason),
            SwarmEvent::ManifestNotFound { community_id, .. } => {
                self.handle_manifest_not_found(community_id)
            },
            SwarmEvent::SeedPeerConnected { community_id, peer_id } => {
                self.handle_seed_peer_connected(community_id, peer_id)
            },
            SwarmEvent::SeedPeerDisconnected { community_id } => {
                self.handle_seed_peer_disconnected(community_id)
            },
            SwarmEvent::DmSendFailed { peer_id, message_id } => {
                let mut out = no_effects();
                emit(
                    &mut out,
                    Effect::Push(
                        PushEvent::DmSendFailed(DmSendFailedData { peer_id, message_id }),
                    ),
                );
                out
            },
            SwarmEvent::PeerAddrKnown { node_pk, addr } => {
                let mut out = no_effects();
                emit(&mut out, Effect::Dht(DhtAction::AddKnownPeer { node_pk, addr }));
                emit(&mut out, Effect::Dht(DhtAction::AnnouncePeerInfo));
                assert(out.deep_view() =~= seq![
                    EffectView::Dht(DhtActionView::AddKnownPeer { node_pk: node_pk@, addr }),
                    EffectView::Dht(DhtActionView::AnnouncePeerInfo),
                ]);
                out
            },
            SwarmEvent::Error(_) => no_effects(),
        }
    }
}

/// A manifest that one peer lacks leaves the community in place.
pub proof fn missing_manifests_delete_nothing(
    s: AppStateView,
    after: AppStateView,
    community_id: Seq<char>,
    peer_id: Seq<char>,
    around: SurroundingsView,
    fx: Seq<EffectView>,
)
    requires
        swarm_event_handled(
            s,
            after,
            SwarmEventView::ManifestNotFound { community_id, peer_id },
            around,
            fx,
        ),
    ensures
        after == s,
{
}

/// The public address, once known, does not change.
pub proof fn public_address_is_stable(
    s: AppStateView,
    list: Seq<Seq<char>>,
    parsed: Map<Seq<char>, NodeAddr>,
)
    ensures
        s.public_addr is Some ==> listening(s, list, parsed).public_addr == s.public_addr,
        s.public_addr is None ==> match listening(s, list, parsed).public_addr {
            Some(a) => is_public(parsed, a),
            None => true,
        },
    decreases list.len(),
{
    if list.len() > 0 {
        public_address_is_stable(s, list.drop_last(), parsed);
    }
}

/// What one listen event tells: the addresses, and what they parse to.
pub type Heard = (Seq<Seq<char>>, Map<Seq<char>, NodeAddr>);

/// The state after a series of listen events.
pub open spec fn listening_through(s: AppStateView, events: Seq<Heard>) -> AppStateView
    decreases events.len(),
{
    if events.len() == 0 {
        s
    } else {
        listening(
            listening_through(s, events.drop_last()),
            events.last().0,
            events.last().1,
        )
    }
}

/// All addresses of a series of listen events, in order.
pub open spec fn addresses_of(events: Seq<Heard>) -> Seq<Seq<char>>
    decreases events.len(),
{
    if events.len() == 0 {
        Seq::empty()
    } else {
        addresses_of(events.drop_last()) + events.last().0
    }
}

/// The first public address of a list.
pub open spec fn first_public(
    list: Seq<Seq<char>>,
    parsed: Map<Seq<char>, NodeAddr>,
) -> Option<Seq<char>>
    decreases list.len(),
{
    if list.len() == 0 {
        None
    } else {
        match first_public(list.drop_last(), parsed) {
            Some(a) => Some(a),
            None => if is_public(parsed, list.last()) {
                Some(list.last())
            } else {
                None
            },
        }
    }
}

/// The first public address of a series of listen events.
pub open spec fn first_public_of(events: Seq<Heard>) -> Option<Seq<char>>
    decreases events.len(),
{
    if events.len() == 0 {
        None
    } else {
        match first_public_of(events.drop_last()) {
            Some(a) => Some(a),
            None => first_public(events.last().0, events.last().1),
        }
    }
}

/// Whether `a` stands in `list` at `i` for the first time.
pub open spec fn first_at(list: Seq<Seq<char>>, a: Seq<char>, i: int) -> bool {
    &&& 0 <= i < list.len()
    &&& list[i] == a
    &&& forall|j: int| 0 <= j < i ==> list[j] != a
}

/// Whether `kept` holds what `list` holds, once each, in the order of the first
/// occurrences.
pub open spec fn is_list_of_firsts(list: Seq<Seq<char>>, kept: Seq<Seq<char>>) -> bool {
    &&& kept.no_duplicates()
    &&& forall|a: Seq<char>| #[trigger] kept.contains(a) <==> list.contains(a)
    &&& forall|i: int, j: int, p: int, q: int|
        0 <= i < j < kept.len() && #[trigger] first_at(list, kept[i], p) && #[trigger] first_at(
            list,
            kept[j],
            q,
        ) ==> p < q
}

/// A list in which nothing occurs twice is the list of its own firsts.
pub proof fn distinct_list_of_firsts(list: Seq<Seq<char>>)
    requires
        list.no_duplicates(),
    ensures
        is_list_of_firsts(list, list),
{
    assert forall|i: int, j: int, p: int, q: int|
        0 <= i < j < list.len() && #[trigger] first_at(list, list[i], p) && #[trigger] first_at(
            list,
            list[j],
            q,
        ) implies p < q by {
        assert(p == i);
        assert(q == j);
    }
}

/// One more address goes to the end, unless it is there.
pub proof fn one_more_first(list: Seq<Seq<char>>, kept: Seq<Seq<char>>, a: Seq<char>)
    requires
        is_list_of_firsts(list, kept),
    ensures
        is_list_of_firsts(list.push(a), with_text(kept, a)),
{
    let more = list.push(a);
    let after = with_text(kept, a);
    assert forall|x: Seq<char>| #[trigger] after.contains(x) <==> more.contains(x) by {
        assert(kept.contains(x) <==> list.contains(x));
        assert(kept.contains(a) <==> list.contains(a));
        assert(more[list.len() as int] == a);
        if list.contains(x) {
            assert(more[list.index_of(x)] == x);
        }
        if kept.contains(x) {
            assert(after[kept.index_of(x)] == x);
        }
        if !kept.contains(a) {
            assert(after[kept.len() as int] == a);
        }
    }
    assert forall|i: int, j: int, p: int, q: int|
        0 <= i < j < after.len() && #[trigger] first_at(more, after[i], p) && #[trigger] first_at(
            more,
            after[j],
            q,
        ) implies p < q by {
        assert(after[i] == kept[i]);
        assert(kept.contains(kept[i]));
        let x = list.index_of(kept[i]);
        assert(more[x] == after[i]);
        assert(p < list.len());
        assert(first_at(list, kept[i], p)) by {
            assert forall|k: int| 0 <= k < p implies list[k] != kept[i] by {
                assert(more[k] == list[k]);
            }
        }
        if j < kept.len() {
            assert(after[j] == kept[j]);
            assert(kept.contains(kept[j]));
            let y = list.index_of(kept[j]);
            assert(more[y] == after[j]);
            assert(q < list.len());
            assert(first_at(list, kept[j], q)) by {
                assert forall|k: int| 0 <= k < q implies list[k] != kept[j] by {
                    assert(more[k] == list[k]);
                }
            }
        } else {
            assert(after[j] == a);
            assert(!list.contains(a)) by {
                assert(!kept.contains(a));
            }
            if q < list.len() {
                assert(list[q] == a);
            }
        }
    }
}

/// Listening on the addresses of one event.
proof fn listening_once(
    s: AppStateView,
    list: Seq<Seq<char>>,
    parsed: Map<Seq<char>, NodeAddr>,
    heard: Seq<Seq<char>>,
)
    requires
        is_list_of_firsts(heard, s.actual_listen_addrs),
    ensures
        is_list_of_firsts(heard + list, listening(s, list, parsed).actual_listen_addrs),
        listening(s, list, parsed).public_addr == match s.public_addr {
            Some(a) => Some(a),
            None => first_public(list, parsed),
        },
    decreases list.len(),
{
    if list.len() == 0 {
        assert(heard + list =~= heard);
    } else {
        listening_once(s, list.drop_last(), parsed, heard);
        let before = listening(s, list.drop_last(), parsed);
        one_more_first(heard + list.drop_last(), before.actual_listen_addrs, list.last());
        assert((heard + list.drop_last()).push(list.last()) =~= heard + list);
    }
}

/// After any series of listen events, the listen addresses are those at the
/// start and those of the events, once each and in the order in which they first
/// came. The public address is the one at the start, else the first public one
/// that came.
pub proof fn listen_addresses_are_kept_in_order(s: AppStateView, events: Seq<Heard>)
    requires
        s.actual_listen_addrs.no_duplicates(),
    ensures
        is_list_of_firsts(
            s.actual_listen_addrs + addresses_of(events),
            listening_through(s, events).actual_listen_addrs,
        ),
        listening_through(s, events).public_addr == match s.public_addr {
            Some(a) => Some(a),
            None => first_public_of(events),
        },
    decreases events.len(),
{
    let start = s.actual_listen_addrs;
    if events.len() == 0 {
        assert(start + addresses_of(events) =~= start);
        distinct_list_of_firsts(start);
    } else {
        listen_addresses_are_kept_in_order(s, events.drop_last());
        let heard = start + addresses_of(events.drop_last());
        let before = listening_through(s, events.drop_last());
        listening_once(before, events.last().0, events.last().1, heard);
        assert(heard + events.last().0 =~= start + addresses_of(events));
    }
}

} // verus!
