//! Peers that come and go.

use crate::api::effects::{emit, no_effects, DhtAction, DhtActionView, Effect, EffectView};
use crate::api::push_broadcaster::{PushEvent, PushEventView, SeedStatusData, SeedStatusDataView};
use crate::api::rpc_server::community::peers_of;
use crate::api::types::{PeerSummary, PeerSummaryView};
use crate::api::{
    community_topic, fetch_manifest, topic_of_community, AppState, AppStateView,
};
use crate::bytes::same_array;
use crate::crypto::primitives::ed25519_public_key;
use crate::lists::{
    add_text, remove_text, vec_deep_view, views, views_push, with_text, without_text,
};
use crate::model::community::SignedManifestView;
use crate::model::membership::{MembershipRecord, MembershipRecordView};
use crate::model::network_event::{
    ChannelManifestBroadcastPayload, NetworkEvent, NetworkEventView,
};
use crate::model::types::ChannelId;
use crate::network::network_handle::types::{NetworkCommand, NetworkCommandView};
use crate::table::{
    entries_map, entries_parallel, entries_push, has_key, keys_distinct, lists, position, Table,
};
use crate::text::{bytes_to_hex, hex, same_text, text};
use vstd::prelude::*;

verus! {

/// Whether a peer's key is the key of a community.
pub open spec fn is_admin_peer(s: AppStateView, peer_id: Seq<char>, community_id: Seq<char>) -> bool {
    s.communities.contains_key(community_id) && hex(
        s.communities[community_id].manifest.public_key,
    ) == peer_id
}

/// Whether a list of peers names the given one.
pub open spec fn has_peer(list: Seq<PeerSummaryView>, peer_id: Seq<char>) -> bool {
    exists|i: int| 0 <= i < list.len() && #[trigger] list[i].peer_id == peer_id
}

/// A peer about which nothing more is known.
pub open spec fn new_peer(s: AppStateView, peer_id: Seq<char>, community_id: Seq<char>) -> PeerSummaryView {
    PeerSummaryView {
        peer_id,
        addresses: Seq::empty(),
        latency_ms: None,
        relay_capable: false,
        reputation: 0,
        is_admin: is_admin_peer(s, peer_id, community_id),
        community_id,
    }
}

/// The state after a peer of a community connected.
pub open spec fn peer_added(s: AppStateView, peer_id: Seq<char>, community_id: Seq<char>) -> AppStateView {
    let list = peers_of(s, community_id);
    AppStateView {
        connected_peers: s.connected_peers.insert(
            community_id,
            if has_peer(list, peer_id) {
                list
            } else {
                list.push(new_peer(s, peer_id, community_id))
            },
        ),
        ..s
    }
}

/// Ask a peer for the manifest of a community that is known.
pub open spec fn fetch_known(s: AppStateView, peer_id: Seq<char>, community_id: Seq<char>) -> Seq<
    EffectView,
> {
    if s.communities.contains_key(community_id) {
        seq![
            fetch_manifest(
                peer_id,
                community_id,
                s.communities[community_id].manifest.public_key,
            ),
        ]
    } else {
        Seq::empty()
    }
}

/// Ask a peer for queued direct messages.
pub open spec fn fetch_mailbox(peer_id: Seq<char>) -> EffectView {
    EffectView::Command(NetworkCommandView::FetchMailbox { peer_id })
}

/// Look for and announce this node to the peers of every listed community.
pub open spec fn discoveries(order: Seq<(Seq<char>, SignedManifestView)>) -> Seq<EffectView>
    decreases order.len(),
{
    if order.len() == 0 {
        Seq::empty()
    } else {
        let pk = order.last().1.manifest.public_key;
        discoveries(order.drop_last()) + seq![
            EffectView::Dht(
                DhtActionView::DiscoverCommunity {
                    community_pk: pk,
                    community_id: order.last().0,
                },
            ),
            EffectView::Dht(DhtActionView::AnnounceCommunity { community_pk: pk }),
        ]
    }
}

/// Publish an event on a community's topic.
pub open spec fn publish(community_id: Seq<char>, event: NetworkEventView) -> EffectView {
    EffectView::Publish { topic: community_topic(community_id), event }
}

/// Broadcast the manifests of the given channels that are at hand.
pub open spec fn channel_broadcasts(
    s: AppStateView,
    community_id: Seq<char>,
    ids: Seq<ChannelId>,
) -> Seq<EffectView>
    decreases ids.len(),
{
    if ids.len() == 0 {
        Seq::empty()
    } else {
        let head = channel_broadcasts(s, community_id, ids.drop_last());
        let c = ids.last().name();
        if s.channels.contains_key(c) {
            head.push(
                publish(
                    community_id,
                    NetworkEventView::ChannelManifestBroadcast(s.channels[c]),
                ),
            )
        } else {
            head
        }
    }
}

/// Broadcast the records of the given members.
pub open spec fn member_broadcasts(
    community_id: Seq<char>,
    people: Seq<(Seq<char>, MembershipRecordView)>,
) -> Seq<EffectView> {
    Seq::new(
        people.len(),
        |i: int| publish(community_id, NetworkEventView::MemberJoined(people[i].1)),
    )
}

/// Whether the local node created a community.
pub open spec fn owned(s: AppStateView, m: SignedManifestView) -> bool {
    m.manifest.public_key == ed25519_public_key(s.local.key)
}

/// Publish everything about every listed community that the local node
/// created; `people` holds the members of each in some order.
pub open spec fn republications(
    s: AppStateView,
    order: Seq<(Seq<char>, SignedManifestView)>,
    people: Seq<Seq<(Seq<char>, MembershipRecordView)>>,
) -> Seq<EffectView>
    decreases order.len(),
{
    if order.len() == 0 {
        Seq::empty()
    } else {
        let head = republications(s, order.drop_last(), people.drop_last());
        let c = order.last().0;
        let m = order.last().1;
        if owned(s, m) {
            head + seq![publish(c, NetworkEventView::ManifestUpdate(m))] + channel_broadcasts(
                s,
                c,
                m.manifest.channel_ids,
            ) + member_broadcasts(c, people.last())
        } else {
            head
        }
    }
}

/// Whether `people` lists the members of each listed community.
pub open spec fn lists_members(
    s: AppStateView,
    order: Seq<(Seq<char>, SignedManifestView)>,
    people: Seq<Seq<(Seq<char>, MembershipRecordView)>>,
) -> bool {
    &&& people.len() == order.len()
    &&& forall|i: int|
        0 <= i < order.len() && owned(s, order[i].1) ==> lists(
            #[trigger] people[i],
            s.member_list(order[i].0),
        )
}

/// Whether `fx` is what is done after a peer of a community connected, with
/// the communities and their members in the given order.
pub open spec fn welcomed(
    s: AppStateView,
    peer_id: Seq<char>,
    community_id: Seq<char>,
    order: Seq<(Seq<char>, SignedManifestView)>,
    people: Seq<Seq<(Seq<char>, MembershipRecordView)>>,
    fx: Seq<EffectView>,
) -> bool {
    &&& lists(order, s.communities)
    &&& lists_members(s, order, people)
    &&& fx == fetch_known(s, peer_id, community_id) + seq![fetch_mailbox(peer_id)] + discoveries(
        order,
    ) + republications(s, order, people)
}

/// What it leads to that a peer of a community connected.
pub open spec fn peer_connected(
    s: AppStateView,
    after: AppStateView,
    peer_id: Seq<char>,
    community_id: Seq<char>,
    fx: Seq<EffectView>,
) -> bool {
    &&& after == peer_added(s, peer_id, community_id)
    &&& exists|
        order: Seq<(Seq<char>, SignedManifestView)>,
        people: Seq<Seq<(Seq<char>, MembershipRecordView)>>,
    |
        #[trigger] welcomed(s, peer_id, community_id, order, people, fx)
}

/// A list of peers without the given one.
pub open spec fn without_peer(list: Seq<PeerSummaryView>, peer_id: Seq<char>) -> Seq<PeerSummaryView>
    decreases list.len(),
{
    if list.len() == 0 {
        list
    } else {
        let head = without_peer(list.drop_last(), peer_id);
        if list.last().peer_id == peer_id {
            head
        } else {
            head.push(list.last())
        }
    }
}

/// The state after a peer disconnected.
pub open spec fn peer_removed(s: AppStateView, peer_id: Seq<char>) -> AppStateView {
    AppStateView {
        connected_peers: Map::new(
            |c: Seq<char>| s.connected_peers.contains_key(c),
            |c: Seq<char>| without_peer(s.connected_peers[c], peer_id),
        ),
        ..s
    }
}

/// How many peers the listed communities have together.
pub open spec fn peer_total(order: Seq<(Seq<char>, Seq<PeerSummaryView>)>) -> nat
    decreases order.len(),
{
    if order.len() == 0 {
        0
    } else {
        peer_total(order.drop_last()) + order.last().1.len()
    }
}

/// A count as far as 64 bits hold it.
pub open spec fn capped(n: nat) -> u64 {
    if n <= u64::MAX {
        n as u64
    } else {
        u64::MAX
    }
}

/// Ask a peer for the manifest of every listed community.
pub open spec fn probes(order: Seq<(Seq<char>, SignedManifestView)>, peer_id: Seq<char>) -> Seq<
    EffectView,
> {
    Seq::new(
        order.len(),
        |i: int| fetch_manifest(peer_id, order[i].0, order[i].1.manifest.public_key),
    )
}

/// Whether `fx` asks a peer for the manifest of every community.
pub open spec fn probed(s: AppStateView, peer_id: Seq<char>, fx: Seq<EffectView>) -> bool {
    exists|order: Seq<(Seq<char>, SignedManifestView)>|
        lists(order, s.communities) && fx == #[trigger] probes(order, peer_id)
}

/// Tell clients whether the seed peer of a community is connected.
pub open spec fn seed_push(community_id: Seq<char>, connected: bool) -> EffectView {
    EffectView::Push(
        PushEventView::SeedStatusChanged(SeedStatusDataView { community_id, connected }),
    )
}

/// What is done after the seed peer of a community connected.
pub open spec fn seed_effects(s: AppStateView, community_id: Seq<char>, peer_id: Seq<char>) -> Seq<
    EffectView,
> {
    let fetches = if peer_id.len() == 0 {
        Seq::empty()
    } else {
        fetch_known(s, peer_id, community_id) + seq![fetch_mailbox(peer_id)]
    };
    seq![seed_push(community_id, true)] + fetches
}

/// Whether a list of peers names the given one.
fn names_peer(list: &Vec<PeerSummary>, peer_id: &str) -> (r: bool)
    ensures
        r == has_peer(list.deep_view(), peer_id@),
{
    let ghost all = list.deep_view();
    let mut i: usize = 0;
    while i < list.len()
        invariant
            i <= list@.len(),
            all == list.deep_view(),
            forall|j: int| 0 <= j < i ==> (#[trigger] all[j]).peer_id != peer_id@,
        decreases list@.len() - i,
    {
        if same_text(list[i].peer_id.as_str(), peer_id) {
            assert(all[i as int].peer_id == peer_id@);
            return true;
        }
        i += 1;
    }
    false
}

/// A copy of a list of peers without the given one.
fn other_peers(list: &Vec<PeerSummary>, peer_id: &str) -> (r: Vec<PeerSummary>)
    ensures
        r.deep_view() == without_peer(list.deep_view(), peer_id@),
{
    broadcast use vec_deep_view, views_push;

    let ghost all = views(list@);
    let mut out: Vec<PeerSummary> = Vec::new();
    let mut i: usize = 0;
    assert(views(out@) =~= without_peer(all.subrange(0, 0), peer_id@));
    while i < list.len()
        invariant
            i <= list@.len(),
            all == views(list@),
            views(out@) == without_peer(all.subrange(0, i as int), peer_id@),
        decreases list@.len() - i,
    {
        assert(all.subrange(0, i + 1).drop_last() =~= all.subrange(0, i as int));
        if !same_text(list[i].peer_id.as_str(), peer_id) {
            out.push(list[i].clone());
        }
        i += 1;
    }
    assert(all.subrange(0, all.len() as int) =~= all);
    out
}

impl AppState {
    /// Note that a peer of a community is connected.
    fn add_peer(&mut self, peer_id: &str, community_id: &str)
        ensures
            final(self).deep_view() == peer_added(
                old(self).deep_view(),
                peer_id@,
                community_id@,
            ),
    {
        broadcast use vec_deep_view, views_push;

        let ghost s = old(self).deep_view();
        let is_admin = match self.communities.get(community_id) {
            Some(signed) => same_text(
                bytes_to_hex(signed.manifest.public_key.as_slice()).as_str(),
                peer_id,
            ),
            None => false,
        };
        let mut list: Vec<PeerSummary> = match self.connected_peers.remove(community_id) {
            Some(l) => l,
            None => Vec::new(),
        };
        assert(views(list@) =~= peers_of(s, community_id@));
        if !names_peer(&list, peer_id) {
            let addresses: Vec<String> = Vec::new();
            assert(addresses.deep_view() =~= Seq::<Seq<char>>::empty());
            let ghost before = views(list@);
            let peer = PeerSummary {
                peer_id: text(peer_id),
                addresses,
                latency_ms: None,
                relay_capable: false,
                reputation: 0,
                is_admin,
                community_id: text(community_id),
            };
            assert(peer.deep_view() == new_peer(s, peer_id@, community_id@));
            list.push(peer);
        }
        self.connected_peers.insert(community_id, list);
        assert(self.deep_view().connected_peers =~= peer_added(
            s,
            peer_id@,
            community_id@,
        ).connected_peers);
    }

    /// Ask a peer for the manifest of a community, if that is known.
    fn fetch_if_known(&self, peer_id: &str, community_id: &str, out: &mut Vec<Effect>)
        ensures
            final(out).deep_view() == old(out).deep_view() + fetch_known(
                self.deep_view(),
                peer_id@,
                community_id@,
            ),
    {
        if let Some(signed) = self.communities.get(community_id) {
            emit(
                out,
                Effect::Command(
                    NetworkCommand::FetchManifest {
                        peer_id: text(peer_id),
                        community_id: text(community_id),
                        community_pk: signed.manifest.public_key,
                    },
                ),
            );
        }
        assert(out.deep_view() =~= old(out).deep_view() + fetch_known(
            self.deep_view(),
            peer_id@,
            community_id@,
        ));
    }

    /// Broadcast the manifests of the given channels that are at hand.
    fn broadcast_channels(&self, community_id: &str, ids: &Vec<ChannelId>, out: &mut Vec<Effect>)
        ensures
            final(out).deep_view() == old(out).deep_view() + channel_broadcasts(
                self.deep_view(),
                community_id@,
                ids@,
            ),
    {
        let ghost s = self.deep_view();
        let ghost start = old(out).deep_view();
        let mut i: usize = 0;
        assert(ids@.subrange(0, 0) =~= Seq::<ChannelId>::empty());
        assert(start + channel_broadcasts(s, community_id@, ids@.subrange(0, 0)) =~= start);
        while i < ids.len()
            invariant
                i <= ids@.len(),
                s == self.deep_view(),
                out.deep_view() == start + channel_broadcasts(
                    s,
                    community_id@,
                    ids@.subrange(0, i as int),
                ),
            decreases ids@.len() - i,
        {
            let ghost next = ids@.subrange(0, i + 1);
            assert(next.drop_last() =~= ids@.subrange(0, i as int));
            if let Some(ch) = self.channels.get(ids[i].to_string().as_str()) {
                emit(
                    out,
                    Effect::Publish {
                        topic: topic_of_community(community_id),
                        event: NetworkEvent::ChannelManifestBroadcast(
                            ChannelManifestBroadcastPayload { manifest: ch.clone() },
                        ),
                    },
                );
            }
            assert(out.deep_view() =~= start + channel_broadcasts(s, community_id@, next));
            i += 1;
        }
        assert(ids@.subrange(0, ids@.len() as int) =~= ids@);
    }

    /// Broadcast the records of a community's members; the answer is the order
    /// in which they went out.
    fn broadcast_members(&self, community_id: &str, out: &mut Vec<Effect>) -> (r: Ghost<
        Seq<(Seq<char>, MembershipRecordView)>,
    >)
        ensures
            lists(r@, self.deep_view().member_list(community_id@)),
            final(out).deep_view() == old(out).deep_view() + member_broadcasts(community_id@, r@),
    {
        let ghost start = old(out).deep_view();
        let none: Table<MembershipRecord> = Table::new();
        let list: &Table<MembershipRecord> = match self.members.get(community_id) {
            Some(l) => l,
            None => &none,
        };
        assert(list.deep_view() =~= self.deep_view().member_list(community_id@));
        let n: usize = list.len();
        let ghost order = list.order();
        let mut i: usize = 0;
        assert(start + member_broadcasts(community_id@, order.subrange(0, 0)) =~= start);
        while i < n
            invariant
                i <= n,
                n == order.len(),
                order == list.order(),
                out.deep_view() == start + member_broadcasts(
                    community_id@,
                    order.subrange(0, i as int),
                ),
            decreases n - i,
        {
            let m = list.value_at(i).clone();
            emit(
                out,
                Effect::Publish {
                    topic: topic_of_community(community_id),
                    event: NetworkEvent::MemberJoined(m),
                },
            );
            i += 1;
            proof {
                let shorter = member_broadcasts(community_id@, order.subrange(0, i - 1));
                let longer = member_broadcasts(community_id@, order.subrange(0, i as int));
                assert(longer =~= shorter.push(
                    publish(community_id@, NetworkEventView::MemberJoined(order[i - 1].1)),
                ));
                assert(out.deep_view() =~= start + longer);
            }
        }
        assert(order.subrange(0, order.len() as int) =~= order);
        Ghost(order)
    }

    /// Look for and announce this node to the peers of every community.
    fn discover_all(&self, out: &mut Vec<Effect>)
        ensures
            final(out).deep_view() == old(out).deep_view() + discoveries(self.communities.order()),
    {
        let ghost start = old(out).deep_view();
        let n: usize = self.communities.len();
        let ghost order = self.communities.order();
        let mut i: usize = 0;
        assert(order.subrange(0, 0) =~= Seq::<(Seq<char>, SignedManifestView)>::empty());
        assert(start + discoveries(order.subrange(0, 0)) =~= start);
        while i < n
            invariant
                i <= n,
                n == order.len(),
                order == self.communities.order(),
                out.deep_view() == start + discoveries(order.subrange(0, i as int)),
            decreases n - i,
        {
            let ghost next = order.subrange(0, i + 1);
            assert(next.drop_last() =~= order.subrange(0, i as int));
            let community_pk: [u8; 32] = self.communities.value_at(i).manifest.public_key;
            emit(
                out,
                Effect::Dht(
                    DhtAction::DiscoverCommunity {
                        community_pk,
                        community_id: self.communities.key_at(i).clone(),
                    },
                ),
            );
            emit(out, Effect::Dht(DhtAction::AnnounceCommunity { community_pk }));
            assert(out.deep_view() =~= start + discoveries(next));
            i += 1;
        }
        assert(order.subrange(0, order.len() as int) =~= order);
    }

    /// Publish everything about the communities that the local node created;
    /// the answer is the order in which the members of each went out.
    #[verifier::rlimit(60)]
    fn republish_owned(&self, out: &mut Vec<Effect>) -> (r: Ghost<
        Seq<Seq<(Seq<char>, MembershipRecordView)>>,
    >)
        ensures
            lists(self.communities.order(), self.deep_view().communities),
            lists_members(self.deep_view(), self.communities.order(), r@),
            final(out).deep_view() == old(out).deep_view() + republications(
                self.deep_view(),
                self.communities.order(),
                r@,
            ),
    {
        let ghost s = self.deep_view();
        let ghost start = old(out).deep_view();
        let n: usize = self.communities.len();
        let ghost order = self.communities.order();
        let ghost mut people: Seq<Seq<(Seq<char>, MembershipRecordView)>> = Seq::empty();
        let own: [u8; 32] = self.local.public_key();
        let mut i: usize = 0;
        assert(order.subrange(0, 0) =~= Seq::<(Seq<char>, SignedManifestView)>::empty());
        assert(start + republications(s, order.subrange(0, 0), people) =~= start);
        while i < n
            invariant
                i <= n,
                n == order.len(),
                order == self.communities.order(),
                s == self.deep_view(),
                own@ == ed25519_public_key(s.local.key),
                lists_members(s, order.subrange(0, i as int), people),
                out.deep_view() == start + republications(
                    s,
                    order.subrange(0, i as int),
                    people,
                ),
            decreases n - i,
        {
            let ghost prev = order.subrange(0, i as int);
            let ghost next = order.subrange(0, i + 1);
            assert(next.drop_last() =~= prev);
            let id = self.communities.key_at(i);
            let signed = self.communities.value_at(i);
            let ghost mut row: Seq<(Seq<char>, MembershipRecordView)> = Seq::empty();
            if same_array(&signed.manifest.public_key, &own) {
                emit(
                    out,
                    Effect::Publish {
                        topic: topic_of_community(id.as_str()),
                        event: NetworkEvent::ManifestUpdate(signed.clone()),
                    },
                );
                self.broadcast_channels(id.as_str(), &signed.manifest.channel_ids, out);
                let listed = self.broadcast_members(id.as_str(), out);
                proof {
                    row = listed@;
                }
            }
            proof {
                let all = people.push(row);
                assert(all.drop_last() =~= people);
                assert(all.last() == row);
                assert forall|j: int|
                    0 <= j < next.len() && owned(s, next[j].1) implies lists(
                    #[trigger] all[j],
                    s.member_list(next[j].0),
                ) by {
                    if j < prev.len() {
                        assert(prev[j] == next[j]);
                        assert(people[j] == all[j]);
                    }
                }
                assert(out.deep_view() =~= start + republications(s, next, all));
                people = all;
            }
            i += 1;
        }
        assert(order.subrange(0, order.len() as int) =~= order);
        Ghost(people)
    }

    /// A peer of a community connected.
    pub fn handle_peer_connected(&mut self, peer_id: String, community_id: String) -> (r: Vec<
        Effect,
    >)
        ensures
            peer_connected(
                old(self).deep_view(),
                final(self).deep_view(),
                peer_id@,
                community_id@,
                r.deep_view(),
            ),
    {
        let ghost s = old(self).deep_view();
        self.add_peer(peer_id.as_str(), community_id.as_str());
        let ghost t = self.deep_view();
        let mut out = no_effects();
        self.fetch_if_known(peer_id.as_str(), community_id.as_str(), &mut out);
        emit(&mut out, Effect::Command(NetworkCommand::FetchMailbox { peer_id }));
        self.discover_all(&mut out);
        let people = self.republish_owned(&mut out);
        proof {
            let order = self.communities.order();
            republications_depend(s, t, order, people@);
            assert(out.deep_view() =~= fetch_known(s, peer_id@, community_id@) + seq![
                fetch_mailbox(peer_id@),
            ] + discoveries(order) + republications(s, order, people@));
            assert(lists(order, s.communities));
            assert(lists_members(s, order, people@)) by {
                assert forall|i: int| 0 <= i < order.len() && owned(s, order[i].1) implies lists(
                    #[trigger] people@[i],
                    s.member_list(order[i].0),
                ) by {
                    assert(owned(t, order[i].1));
                    assert(t.member_list(order[i].0) == s.member_list(order[i].0));
                }
            }
            assert(welcomed(s, peer_id@, community_id@, order, people@, out.deep_view()));
        }
        out
    }

    /// A peer without community context connected: probe it for every
    /// community.
    pub fn handle_lan_peer_connected(&self, peer_id: String) -> (r: Vec<Effect>)
        ensures
            probed(self.deep_view(), peer_id@, r.deep_view()),
    {
        let n: usize = self.communities.len();
        let ghost order = self.communities.order();
        let mut out = no_effects();
        let mut i: usize = 0;
        assert(out.deep_view() =~= probes(order.subrange(0, 0), peer_id@));
        while i < n
            invariant
                i <= n,
                n == order.len(),
                order == self.communities.order(),
                out.deep_view() == probes(order.subrange(0, i as int), peer_id@),
            decreases n - i,
        {
            emit(
                &mut out,
                Effect::Command(
                    NetworkCommand::FetchManifest {
                        peer_id: peer_id.clone(),
                        community_id: self.communities.key_at(i).clone(),
                        community_pk: self.communities.value_at(i).manifest.public_key,
                    },
                ),
            );
            i += 1;
            assert(probes(order.subrange(0, i as int), peer_id@) =~= probes(
                order.subrange(0, i - 1),
                peer_id@,
            ).push(
                fetch_manifest(peer_id@, order[i - 1].0, order[i - 1].1.manifest.public_key),
            ));
        }
        assert(order.subrange(0, order.len() as int) =~= order);
        out
    }

    /// The number of connected peers, each counted once per community.
    pub fn connected_total(&self) -> (r: u64)
        ensures
            exists|order: Seq<(Seq<char>, Seq<PeerSummaryView>)>| #[trigger]
                lists(order, self.deep_view().connected_peers) && r == capped(peer_total(order)),
    {
        let ghost order = self.connected_peers.order();
        let n: usize = self.connected_peers.len();
        let mut total: u64 = 0;
        let mut i: usize = 0;
        assert(order.subrange(0, 0) =~= Seq::empty());
        while i < n
            invariant
                i <= n,
                n == order.len(),
                order == self.connected_peers.order(),
                total == capped(peer_total(order.subrange(0, i as int))),
            decreases n - i,
        {
            assert(order.subrange(0, i + 1).drop_last() =~= order.subrange(0, i as int));
            total = total.saturating_add(self.connected_peers.value_at(i).len() as u64);
            i += 1;
        }
        assert(order.subrange(0, order.len() as int) =~= order);
        assert(lists(order, self.deep_view().connected_peers));
        total
    }

    /// A peer disconnected.
    pub fn handle_peer_disconnected(&mut self, peer_id: &str)
        ensures
            final(self).deep_view() == peer_removed(old(self).deep_view(), peer_id@),
    {
        let ghost s = old(self).deep_view();
        let n: usize = self.connected_peers.len();
        let ghost order = self.connected_peers.order();
        let ghost mut done: Seq<(Seq<char>, Seq<PeerSummaryView>)> = Seq::empty();
        let mut kept: Table<Vec<PeerSummary>> = Table::new();
        let mut i: usize = 0;
        assert(kept.deep_view() =~= entries_map(done));
        while i < n
            invariant
                i <= n,
                n == order.len(),
                order == self.connected_peers.order(),
                self.deep_view() == s,
                lists(order, s.connected_peers),
                done.len() == i,
                keys_distinct(done),
                kept.deep_view() == entries_map(done),
                forall|j: int|
                    0 <= j < i ==> #[trigger] done[j] == (
                        order[j].0,
                        without_peer(order[j].1, peer_id@),
                    ),
            decreases n - i,
        {
            let c = self.connected_peers.key_at(i);
            let rest = other_peers(self.connected_peers.value_at(i), peer_id);
            let ghost entry = (order[i as int].0, without_peer(order[i as int].1, peer_id@));
            proof {
                assert(!has_key(done, entry.0)) by {
                    if has_key(done, entry.0) {
                        let q = position(done, entry.0);
                        assert(done[q].0 == order[q].0);
                        assert(order[q].0 != order[i as int].0);
                    }
                }
                entries_push(done, entry.0, entry.1);
            }
            kept.insert(c.as_str(), rest);
            proof {
                done = done.push(entry);
            }
            i += 1;
        }
        proof {
            entries_parallel(order, done);
            let want = peer_removed(s, peer_id@).connected_peers;
            assert forall|c: Seq<char>| s.connected_peers.contains_key(c) implies entries_map(done)[c]
                == want[c] by {
                let q = position(order, c);
                assert(has_key(order, c));
                assert(order[q].0 == c);
                assert(done[q].0 == c);
            }
            assert(kept.deep_view() =~= want);
        }
        self.connected_peers = kept;
    }

    /// The seed peer of a community connected.
    pub fn handle_seed_peer_connected(&mut self, community_id: String, peer_id: String) -> (r: Vec<
        Effect,
    >)
        ensures
            final(self).deep_view() == (AppStateView {
                seed_connected_communities: with_text(
                    old(self).deep_view().seed_connected_communities,
                    community_id@,
                ),
                ..old(self).deep_view()
            }),
            r.deep_view() == seed_effects(old(self).deep_view(), community_id@, peer_id@),
    {
        let ghost s = old(self).deep_view();
        let ghost cid = community_id@;
        let ghost pid = peer_id@;
        add_text(&mut self.seed_connected_communities, community_id.as_str());
        let mut out = no_effects();
        emit(
            &mut out,
            Effect::Push(
                PushEvent::SeedStatusChanged(
                    SeedStatusData { community_id: community_id.clone(), connected: true },
                ),
            ),
        );
        if !peer_id.as_str().is_empty() {
            self.fetch_if_known(peer_id.as_str(), community_id.as_str(), &mut out);
            emit(&mut out, Effect::Command(NetworkCommand::FetchMailbox { peer_id }));
        }
        assert(out.deep_view() =~= seed_effects(s, cid, pid));
        out
    }

    /// The seed peer of a community disconnected.
    pub fn handle_seed_peer_disconnected(&mut self, community_id: String) -> (r: Vec<Effect>)
        ensures
            final(self).deep_view() == (AppStateView {
                seed_connected_communities: without_text(
                    old(self).deep_view().seed_connected_communities,
                    community_id@,
                ),
                ..old(self).deep_view()
            }),
            r.deep_view() == seq![seed_push(community_id@, false)],
    {
        remove_text(&mut self.seed_connected_communities, community_id.as_str());
        let mut out = no_effects();
        emit(
            &mut out,
            Effect::Push(
                PushEvent::SeedStatusChanged(SeedStatusData { community_id, connected: false }),
            ),
        );
        out
    }
}

/// Republication depends on the channels and on the local key alone.
proof fn republications_depend(
    s: AppStateView,
    t: AppStateView,
    order: Seq<(Seq<char>, SignedManifestView)>,
    people: Seq<Seq<(Seq<char>, MembershipRecordView)>>,
)
    requires
        s.local == t.local,
        s.channels == t.channels,
    ensures
        republications(s, order, people) == republications(t, order, people),
    decreases order.len(),
{
    if order.len() > 0 {
        republications_depend(s, t, order.drop_last(), people.drop_last());
        broadcasts_depend(s, t, order.last().0, order.last().1.manifest.channel_ids);
    }
}

/// Channel broadcasts depend on the channels alone.
proof fn broadcasts_depend(
    s: AppStateView,
    t: AppStateView,
    community_id: Seq<char>,
    ids: Seq<ChannelId>,
)
    requires
        s.channels == t.channels,
    ensures
        channel_broadcasts(s, community_id, ids) == channel_broadcasts(t, community_id, ids),
    decreases ids.len(),
{
    if ids.len() > 0 {
        broadcasts_depend(s, t, community_id, ids.drop_last());
    }
}

/// A peer that connects twice is listed once.
pub proof fn peers_are_listed_once(s: AppStateView, peer_id: Seq<char>, community_id: Seq<char>)
    ensures
        ({
            let t = peer_added(s, peer_id, community_id);
            &&& has_peer(peers_of(t, community_id), peer_id)
            &&& peer_added(t, peer_id, community_id) == t
        }),
{
    let t = peer_added(s, peer_id, community_id);
    let list = peers_of(t, community_id);
    if !has_peer(peers_of(s, community_id), peer_id) {
        assert(list[list.len() - 1].peer_id == peer_id);
    }
    assert(peer_added(t, peer_id, community_id).connected_peers =~= t.connected_peers);
}

/// After a peer disconnected, no community lists it, and every other peer is
/// still listed.
pub proof fn disconnected_peers_are_gone(
    list: Seq<PeerSummaryView>,
    peer_id: Seq<char>,
    other: Seq<char>,
)
    ensures
        !has_peer(without_peer(list, peer_id), peer_id),
        other != peer_id ==> (has_peer(without_peer(list, peer_id), other) <==> has_peer(
            list,
            other,
        )),
    decreases list.len(),
{
    if list.len() > 0 {
        let short = list.drop_last();
        disconnected_peers_are_gone(short, peer_id, other);
        let head = without_peer(short, peer_id);
        let all = without_peer(list, peer_id);
        if has_peer(all, peer_id) {
            let i = choose|i: int| 0 <= i < all.len() && #[trigger] all[i].peer_id == peer_id;
            assert(i < head.len());
            assert(head[i].peer_id == peer_id);
        }
        if other != peer_id {
            if has_peer(list, other) {
                let i = choose|i: int| 0 <= i < list.len() && #[trigger] list[i].peer_id == other;
                if i < short.len() {
                    assert(short[i].peer_id == other);
                    let j = choose|j: int| 0 <= j < head.len() && #[trigger] head[j].peer_id == other;
                    assert(all[j].peer_id == other);
                } else {
                    assert(all[head.len() as int].peer_id == other);
                }
            }
            if has_peer(all, other) {
                let i = choose|i: int| 0 <= i < all.len() && #[trigger] all[i].peer_id == other;
                if i < head.len() {
                    assert(head[i].peer_id == other);
                    let j = choose|j: int|
                        0 <= j < short.len() && #[trigger] short[j].peer_id == other;
                    assert(list[j].peer_id == other);
                } else {
                    assert(list[list.len() - 1].peer_id == other);
                }
            }
        }
    }
}

} // verus!
