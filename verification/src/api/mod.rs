//! The application layer.
//!
//! [`AppState`] is everything a node knows. Handlers take a request or a
//! network event, change the state and answer with a list of effects for the
//! surrounding program to carry out in order.

pub mod dialing;
pub mod effects;
pub mod event_processor;
pub mod invite;
pub mod local;
pub mod push_broadcaster;
pub mod rpc_server;
pub mod seed_sync;
pub mod startup;
pub mod types;

use crate::api::effects::{emit, no_effects, Effect, EffectView, StoreUpdate, StoreUpdateView, TableFile};
use crate::api::local::{LocalNode, LocalNodeView};
use crate::api::types::{
    DmMessageInfo, DmMessageInfoView, IdentityState, IdentityStateView, PeerSummary,
    PeerSummaryView, UserStatus,
};
use crate::config::{NodeConfig, NodeConfigView};
use crate::lists::{has_text, vec_deep_view, views, views_push};
use crate::model::channel::{ChannelManifest, ChannelManifestView};
use crate::model::community::{SignedManifest, SignedManifestView};
use crate::model::membership::{MembershipRecord, MembershipRecordView};
use crate::model::message::{RawMessage, RawMessageView};
use crate::network::network_handle::types::{NetworkCommand, NetworkCommandView};
use crate::state::message_log::{MessageLog, MessageLogView};
use crate::table::{entry_in_map, lists, position, remove_all, Table};
use crate::text::{join3, same_text};
use vstd::prelude::*;

verus! {

/// What is remembered of a peer so that direct messages reach them after a
/// shared community is gone.
#[derive(Debug)]
pub struct DmPeerInfo {
    pub display_name: String,
    pub x25519_public_key: [u8; 32],
}

/// What a [`DmPeerInfo`] holds.
pub struct DmPeerInfoView {
    pub display_name: Seq<char>,
    pub x25519_public_key: Seq<u8>,
}

impl DeepView for DmPeerInfo {
    type V = DmPeerInfoView;

    open spec fn deep_view(&self) -> DmPeerInfoView {
        DmPeerInfoView {
            display_name: self.display_name@,
            x25519_public_key: self.x25519_public_key@,
        }
    }
}

/// A channel message that could not be decrypted yet, and where it came in.
#[derive(Debug)]
pub struct BufferedMessage {
    pub topic: String,
    pub message: RawMessage,
}

/// What a [`BufferedMessage`] holds.
pub struct BufferedMessageView {
    pub topic: Seq<char>,
    pub message: RawMessageView,
}

impl DeepView for BufferedMessage {
    type V = BufferedMessageView;

    open spec fn deep_view(&self) -> BufferedMessageView {
        BufferedMessageView {
            topic: self.topic@,
            message: self.message.deep_view(),
        }
    }
}

/// Everything a node knows.
pub struct AppState {
    /// The local identity.
    pub local: LocalNode,
    /// Display name and presence status.
    pub identity_state: IdentityState,
    /// Node configuration.
    pub config: NodeConfig,
    /// All channel messages, encrypted.
    pub message_log: MessageLog,
    /// Connected peers per community.
    pub connected_peers: Table<Vec<PeerSummary>>,
    /// Signed manifest per community id.
    pub communities: Table<SignedManifest>,
    /// Channel manifest per channel id.
    pub channels: Table<ChannelManifest>,
    /// Current key per channel id.
    pub channel_keys: Table<[u8; 32]>,
    /// Key before the last rotation per channel id.
    pub previous_channel_keys: Table<[u8; 32]>,
    /// Direct messages per other peer.
    pub dms: Table<Vec<DmMessageInfo>>,
    /// Peers that direct messages can reach.
    pub dm_peers: Table<DmPeerInfo>,
    /// Membership records per community id and user id.
    pub members: Table<Table<MembershipRecord>>,
    /// Banned users per community id.
    pub bans: Table<Vec<String>>,
    /// Communities whose manifest is to be fetched from the next peer.
    pub pending_manifest_syncs: Vec<String>,
    /// Listen addresses reported by the network layer.
    pub actual_listen_addrs: Vec<String>,
    /// The publicly routable address of this node.
    pub public_addr: Option<String>,
    /// Presence per user id.
    pub presence: Table<UserStatus>,
    /// Last-read sequence number per channel id.
    pub read_state: Table<u64>,
    /// Hosting password per community id.
    pub hosting_passwords: Table<String>,
    /// Communities whose seed peer is connected.
    pub seed_connected_communities: Vec<String>,
    /// Messages that wait for a rotated key, per channel id.
    pub pending_rotation_messages: Table<Vec<BufferedMessage>>,
    /// TLS certificate fingerprint per seed address.
    pub seed_fingerprints: Table<[u8; 32]>,
    /// Fingerprint of this node's own TLS certificate.
    pub local_tls_fingerprint_hex: Option<String>,
}

/// What a [`AppState`] holds.
pub struct AppStateView {
    pub local: LocalNodeView,
    pub identity_state: IdentityStateView,
    pub config: NodeConfigView,
    pub message_log: MessageLogView,
    pub connected_peers: Map<Seq<char>, Seq<PeerSummaryView>>,
    pub communities: Map<Seq<char>, SignedManifestView>,
    pub channels: Map<Seq<char>, ChannelManifestView>,
    pub channel_keys: Map<Seq<char>, Seq<u8>>,
    pub previous_channel_keys: Map<Seq<char>, Seq<u8>>,
    pub dms: Map<Seq<char>, Seq<DmMessageInfoView>>,
    pub dm_peers: Map<Seq<char>, DmPeerInfoView>,
    pub members: Map<Seq<char>, Map<Seq<char>, MembershipRecordView>>,
    pub bans: Map<Seq<char>, Seq<Seq<char>>>,
    pub pending_manifest_syncs: Seq<Seq<char>>,
    pub actual_listen_addrs: Seq<Seq<char>>,
    pub public_addr: Option<Seq<char>>,
    pub presence: Map<Seq<char>, UserStatus>,
    pub read_state: Map<Seq<char>, u64>,
    pub hosting_passwords: Map<Seq<char>, Seq<char>>,
    pub seed_connected_communities: Seq<Seq<char>>,
    pub pending_rotation_messages: Map<Seq<char>, Seq<BufferedMessageView>>,
    pub seed_fingerprints: Map<Seq<char>, Seq<u8>>,
    pub local_tls_fingerprint_hex: Option<Seq<char>>,
}

impl DeepView for AppState {
    type V = AppStateView;

    open spec fn deep_view(&self) -> AppStateView {
        AppStateView {
            local: self.local.deep_view(),
            identity_state: self.identity_state.deep_view(),
            config: self.config.deep_view(),
            message_log: self.message_log.deep_view(),
            connected_peers: self.connected_peers.deep_view(),
            communities: self.communities.deep_view(),
            channels: self.channels.deep_view(),
            channel_keys: self.channel_keys.deep_view(),
            previous_channel_keys: self.previous_channel_keys.deep_view(),
            dms: self.dms.deep_view(),
            dm_peers: self.dm_peers.deep_view(),
            members: self.members.deep_view(),
            bans: self.bans.deep_view(),
            pending_manifest_syncs: self.pending_manifest_syncs.deep_view(),
            actual_listen_addrs: self.actual_listen_addrs.deep_view(),
            public_addr: self.public_addr.deep_view(),
            presence: self.presence.deep_view(),
            read_state: self.read_state.deep_view(),
            hosting_passwords: self.hosting_passwords.deep_view(),
            seed_connected_communities: self.seed_connected_communities.deep_view(),
            pending_rotation_messages: self.pending_rotation_messages.deep_view(),
            seed_fingerprints: self.seed_fingerprints.deep_view(),
            local_tls_fingerprint_hex: self.local_tls_fingerprint_hex.deep_view(),
        }
    }
}

/// The topic on which a community's events are published.
pub open spec fn community_topic(community_id: Seq<char>) -> Seq<char> {
    "/bitcord/community/"@ + community_id + "/1.0.0"@
}

/// The topic on which a channel's events are published.
pub open spec fn channel_topic(channel_id: Seq<char>) -> Seq<char> {
    "/bitcord/channel/"@ + channel_id + "/1.0.0"@
}

/// The topic on which a community's events are published.
pub fn topic_of_community(community_id: &str) -> (r: String)
    ensures
        r@ == community_topic(community_id@),
{
    join3("/bitcord/community/", community_id, "/1.0.0")
}

/// The topic on which a channel's events are published.
pub fn topic_of_channel(channel_id: &str) -> (r: String)
    ensures
        r@ == channel_topic(channel_id@),
{
    join3("/bitcord/channel/", channel_id, "/1.0.0")
}

/// Subscribe to a topic.
pub open spec fn subscribe(topic: Seq<char>) -> EffectView {
    EffectView::Command(NetworkCommandView::Subscribe(topic))
}

/// Unsubscribe from a topic.
pub open spec fn unsubscribe(topic: Seq<char>) -> EffectView {
    EffectView::Command(NetworkCommandView::Unsubscribe(topic))
}

/// Ask a peer for a community's manifest.
pub open spec fn fetch_manifest(
    peer_id: Seq<char>,
    community_id: Seq<char>,
    community_pk: Seq<u8>,
) -> EffectView {
    EffectView::Command(NetworkCommandView::FetchManifest { peer_id, community_id, community_pk })
}

/// Whether some seed address is one of this node's own.
pub open spec fn hosts_itself(
    seed_nodes: Seq<Seq<char>>,
    public_addr: Option<Seq<char>>,
    listen: Seq<Seq<char>>,
) -> bool {
    ||| public_addr matches Some(a) && seed_nodes.contains(a)
    ||| exists|i: int| 0 <= i < seed_nodes.len() && listen.contains(#[trigger] seed_nodes[i])
}

impl AppStateView {
    /// The text form of the local user's id.
    pub open spec fn me(self) -> Seq<char> {
        self.local.user_id.name()
    }

    /// The member list of a community; empty when there is none.
    pub open spec fn member_list(self, community_id: Seq<char>) -> Map<
        Seq<char>,
        MembershipRecordView,
    > {
        if self.members.contains_key(community_id) {
            self.members[community_id]
        } else {
            Map::empty()
        }
    }

    /// Whether this node itself is a seed of a community with these seeds.
    pub open spec fn is_own_seed(self, seed_nodes: Seq<Seq<char>>) -> bool {
        hosts_itself(seed_nodes, self.public_addr, self.actual_listen_addrs)
    }

    /// Whether a community with these seeds can be used now: it needs no
    /// seed, this node is one, or a seed is connected.
    pub open spec fn is_reachable(self, community_id: Seq<char>, seed_nodes: Seq<Seq<char>>) -> bool {
        ||| seed_nodes.len() == 0
        ||| self.is_own_seed(seed_nodes)
        ||| self.seed_connected_communities.contains(community_id)
    }

    /// The names of the channels of a community.
    pub open spec fn channels_of(self, community_id: Seq<char>) -> Set<Seq<char>> {
        Set::new(
            |name: Seq<char>|
                exists|k: Seq<char>|
                    self.channels.contains_key(k) && #[trigger] self.channels[k].community_id.name()
                        == community_id && self.channels[k].id.name() == name,
        )
    }
}

/// Whether `m` is a membership record of `user` in some community.
pub open spec fn is_record_of(s: AppStateView, user: Seq<char>, m: MembershipRecordView) -> bool {
    exists|c: Seq<char>, u: Seq<char>|
        #![trigger s.members[c][u]]
        s.members.contains_key(c) && s.members[c].contains_key(u) && s.members[c][u] == m
            && m.user_id.name() == user
}

/// Whether no community lists `user` as a member.
pub open spec fn not_a_member(s: AppStateView, user: Seq<char>) -> bool {
    forall|c: Seq<char>, u: Seq<char>|
        #![trigger s.members[c][u]]
        s.members.contains_key(c) && s.members[c].contains_key(u)
            ==> s.members[c][u].user_id.name() != user
}

impl AppState {
    /// A membership record of `user` in any community.
    pub fn record_of(&self, user: &str) -> (r: Option<&MembershipRecord>)
        ensures
            match r {
                Some(m) => is_record_of(self.deep_view(), user@, m.deep_view()),
                None => not_a_member(self.deep_view(), user@),
            },
    {
        let ghost s = self.deep_view();
        let n: usize = self.members.len();
        let ghost outer = self.members.order();
        let mut i: usize = 0;
        while i < n
            invariant
                i <= n,
                n == outer.len(),
                outer == self.members.order(),
                s == self.deep_view(),
                lists(outer, s.members),
                forall|j: int, u: Seq<char>|
                    #![trigger outer[j].1[u]]
                    0 <= j < i && outer[j].1.contains_key(u) ==> outer[j].1[u].user_id.name()
                        != user@,
            decreases n - i,
        {
            let list = self.members.value_at(i);
            let k: usize = list.len();
            let ghost inner = list.order();
            let ghost c = outer[i as int].0;
            proof {
                entry_in_map(outer, i as int);
            }
            let mut j: usize = 0;
            while j < k
                invariant
                    i < n,
                    n == outer.len(),
                    outer == self.members.order(),
                    j <= k,
                    k == inner.len(),
                    inner == list.order(),
                    s == self.deep_view(),
                    c == outer[i as int].0,
                    s.members.contains_key(c),
                    s.members[c] == list.deep_view(),
                    lists(inner, list.deep_view()),
                    forall|q: int| 0 <= q < j ==> (#[trigger] inner[q]).1.user_id.name() != user@,
                decreases k - j,
            {
                let m = list.value_at(j);
                if same_text(m.user_id.to_string().as_str(), user) {
                    proof {
                        entry_in_map(inner, j as int);
                        let u = inner[j as int].0;
                        assert(s.members[c][u] == m.deep_view());
                    }
                    return Some(m);
                }
                j += 1;
            }
            assert forall|u: Seq<char>| list.deep_view().contains_key(u) implies (
            #[trigger] list.deep_view()[u]).user_id.name() != user@ by {
                let q = position(inner, u);
                entry_in_map(inner, q);
            }
            i += 1;
        }
        assert(not_a_member(s, user@)) by {
            assert forall|c: Seq<char>, u: Seq<char>|
                #![trigger s.members[c][u]]
                s.members.contains_key(c) && s.members[c].contains_key(u) implies s.members[c][u].user_id.name()
                != user@ by {
                let j = position(outer, c);
                entry_in_map(outer, j);
                assert(outer[j].1[u].user_id.name() != user@);
            }
        }
        None
    }

    /// Whether any of the seed nodes points back at this node.
    pub fn we_are_seed(&self, seed_nodes: &Vec<String>) -> (r: bool)
        ensures
            r == self.deep_view().is_own_seed(seed_nodes.deep_view()),
    {
        let ghost seeds = seed_nodes.deep_view();
        if let Some(a) = &self.public_addr {
            if has_text(seed_nodes, a.as_str()) {
                return true;
            }
        }
        let mut i: usize = 0;
        while i < seed_nodes.len()
            invariant
                i <= seed_nodes@.len(),
                seeds == seed_nodes.deep_view(),
                forall|j: int|
                    0 <= j < i ==> !self.actual_listen_addrs.deep_view().contains(
                        #[trigger] seeds[j],
                    ),
            decreases seed_nodes@.len() - i,
        {
            if has_text(&self.actual_listen_addrs, seed_nodes[i].as_str()) {
                assert(self.actual_listen_addrs.deep_view().contains(seeds[i as int]));
                return true;
            }
            i += 1;
        }
        false
    }

    /// Whether a community with these seeds can be used now.
    pub fn reachable(&self, community_id: &str, seed_nodes: &Vec<String>) -> (r: bool)
        ensures
            r == self.deep_view().is_reachable(community_id@, seed_nodes.deep_view()),
    {
        seed_nodes.len() == 0 || self.we_are_seed(seed_nodes) || has_text(
            &self.seed_connected_communities,
            community_id,
        )
    }

    /// The names of the channels of a community.
    fn channel_names_of(&self, community_id: &str) -> (r: Vec<String>)
        ensures
            r.deep_view().to_set() == self.deep_view().channels_of(community_id@),
    {
        broadcast use vec_deep_view, views_push;

        let ghost cid = community_id@;
        let n: usize = self.channels.len();
        let ghost order = self.channels.order();
        let ghost state = self.deep_view();
        let mut out: Vec<String> = Vec::new();
        let mut i: usize = 0;
        while i < n
            invariant
                i <= n,
                n == order.len(),
                cid == community_id@,
                order == self.channels.order(),
                state == self.deep_view(),
                lists(order, state.channels),
                forall|t: Seq<char>|
                    #[trigger] views(out@).contains(t) <==> exists|j: int|
                        0 <= j < i && (#[trigger] order[j]).1.community_id.name() == cid
                            && order[j].1.id.name() == t,
            decreases n - i,
        {
            let c = self.channels.value_at(i);
            let ghost before = views(out@);
            if same_text(c.community_id.to_string().as_str(), community_id) {
                out.push(c.id.to_string());
            }
            proof {
                let name = order[i as int].1.id.name();
                let hit = order[i as int].1.community_id.name() == cid;
                assert forall|t: Seq<char>| #[trigger] views(out@).contains(t) <==> exists|j: int|
                    0 <= j < i + 1 && (#[trigger] order[j]).1.community_id.name() == cid
                        && order[j].1.id.name() == t by {
                    if hit {
                        assert(views(out@) == before.push(name));
                        assert(views(out@)[before.len() as int] == name);
                        if before.contains(t) {
                            let q = before.index_of(t);
                            assert(views(out@)[q] == t);
                        }
                        if views(out@).contains(t) && t != name {
                            let q = views(out@).index_of(t);
                            assert(before[q] == t);
                        }
                    }
                    if exists|j: int|
                        0 <= j < i + 1 && (#[trigger] order[j]).1.community_id.name() == cid
                            && order[j].1.id.name() == t {
                        let j = choose|j: int|
                            0 <= j < i + 1 && (#[trigger] order[j]).1.community_id.name() == cid
                                && order[j].1.id.name() == t;
                        if j < i {
                            assert(before.contains(t));
                        }
                    }
                }
            }
            i += 1;
        }
        assert forall|t: Seq<char>| views(out@).contains(t) <==> state.channels_of(cid).contains(t) by {
            if views(out@).contains(t) {
                let j = choose|j: int|
                    0 <= j < n && (#[trigger] order[j]).1.community_id.name() == cid
                        && order[j].1.id.name() == t;
                entry_in_map(order, j);
                assert(state.channels[order[j].0].community_id.name() == cid);
            }
            if state.channels_of(cid).contains(t) {
                let k = choose|k: Seq<char>|
                    state.channels.contains_key(k)
                        && #[trigger] state.channels[k].community_id.name() == cid
                        && state.channels[k].id.name() == t;
                let j = position(order, k);
                entry_in_map(order, j);
                assert(order[j].1.community_id.name() == cid);
            }
        }
        assert(views(out@).to_set() =~= state.channels_of(cid));
        out
    }

    /// Forget a community: its manifest, members, channels, channel keys and
    /// hosting password, and leave its topics.
    pub fn remove_community_local(&mut self, community_id: &str) -> (r: Vec<Effect>)
        ensures
            final(self).deep_view() == without_community(old(self).deep_view(), community_id@),
            exists|names: Seq<Seq<char>>|
                names.to_set() == old(self).deep_view().channels_of(community_id@)
                    && r.deep_view() == #[trigger] removal_effects(
                    old(self).deep_view(),
                    community_id@,
                    names,
                ),
    {
        let names = self.channel_names_of(community_id);
        let ghost before = self.deep_view();
        let ghost ids = names.deep_view();
        let pk: Option<[u8; 32]> = match self.communities.get(community_id) {
            Some(s) => Some(s.manifest.public_key),
            None => None,
        };
        self.communities.remove(community_id);
        self.members.remove(community_id);
        remove_all(&mut self.channels, &names);
        remove_all(&mut self.channel_keys, &names);
        self.hosting_passwords.remove(community_id);
        let mut out = no_effects();
        emit(&mut out, Effect::Save(TableFile::Communities));
        emit(&mut out, Effect::Save(TableFile::Members));
        emit(&mut out, Effect::Save(TableFile::Channels));
        emit(&mut out, Effect::Save(TableFile::ChannelKeys));
        emit(&mut out, Effect::Save(TableFile::HostingPasswords));
        if let Some(community_pk) = pk {
            emit(&mut out, Effect::Store(StoreUpdate::RemoveCommunity { community_pk }));
        }
        emit(
            &mut out,
            Effect::Command(NetworkCommand::Unsubscribe(topic_of_community(community_id))),
        );
        let ghost head = out.deep_view();
        let mut i: usize = 0;
        assert(head + unsubscribe_all(ids.subrange(0, 0)) =~= head);
        while i < names.len()
            invariant
                i <= names@.len(),
                ids == names.deep_view(),
                out.deep_view() == head + unsubscribe_all(ids.subrange(0, i as int)),
            decreases names@.len() - i,
        {
            emit(
                &mut out,
                Effect::Command(NetworkCommand::Unsubscribe(topic_of_channel(names[i].as_str()))),
            );
            i += 1;
            assert(unsubscribe_all(ids.subrange(0, i as int)) =~= unsubscribe_all(
                ids.subrange(0, i - 1),
            ).push(unsubscribe(channel_topic(ids[i - 1]))));
            assert(out.deep_view() =~= head + unsubscribe_all(ids.subrange(0, i as int)));
        }
        assert(ids.subrange(0, ids.len() as int) =~= ids);
        assert(out.deep_view() =~= removal_effects(before, community_id@, ids));
        out
    }
}

/// Unsubscribe from the topics of the given channels.
pub open spec fn unsubscribe_all(names: Seq<Seq<char>>) -> Seq<EffectView> {
    Seq::new(names.len(), |i: int| unsubscribe(channel_topic(names[i])))
}

/// The state after a community is forgotten.
pub open spec fn without_community(s: AppStateView, community_id: Seq<char>) -> AppStateView {
    let names = s.channels_of(community_id);
    AppStateView {
        communities: s.communities.remove(community_id),
        members: s.members.remove(community_id),
        channels: s.channels.remove_keys(names),
        channel_keys: s.channel_keys.remove_keys(names),
        hosting_passwords: s.hosting_passwords.remove(community_id),
        ..s
    }
}

/// What is done when a community with the given channels is forgotten.
pub open spec fn removal_effects(
    s: AppStateView,
    community_id: Seq<char>,
    names: Seq<Seq<char>>,
) -> Seq<EffectView> {
    let saves = seq![
        EffectView::Save(TableFile::Communities),
        EffectView::Save(TableFile::Members),
        EffectView::Save(TableFile::Channels),
        EffectView::Save(TableFile::ChannelKeys),
        EffectView::Save(TableFile::HostingPasswords),
    ];
    let store = if s.communities.contains_key(community_id) {
        seq![
            EffectView::Store(
                StoreUpdateView::RemoveCommunity {
                    community_pk: s.communities[community_id].manifest.public_key,
                },
            ),
        ]
    } else {
        Seq::empty()
    };
    saves + store + seq![unsubscribe(community_topic(community_id))] + unsubscribe_all(names)
}

/// Forgetting a community leaves no trace of it: no manifest, no member list,
/// no channel, and what belongs to other communities stays as it was.
pub proof fn forgetting_is_complete(s: AppStateView, community_id: Seq<char>, k: Seq<char>)
    requires
        forall|n: Seq<char>|
            s.channels.contains_key(n) ==> #[trigger] s.channels[n].id.name() == n,
    ensures
        ({
            let t = without_community(s, community_id);
            &&& !t.communities.contains_key(community_id)
            &&& !t.members.contains_key(community_id)
            &&& !t.hosting_passwords.contains_key(community_id)
            &&& t.channels.contains_key(k) <==> s.channels.contains_key(k)
                && s.channels[k].community_id.name() != community_id
            &&& t.channels.contains_key(k) ==> t.channels[k] == s.channels[k]
            &&& k != community_id ==> (t.communities.contains_key(k) <==> s.communities.contains_key(k))
            &&& k != community_id && s.communities.contains_key(k) ==> t.communities[k]
                == s.communities[k]
        }),
{
    let t = without_community(s, community_id);
    if s.channels.contains_key(k) {
        assert(s.channels[k].id.name() == k);
        if s.channels[k].community_id.name() == community_id {
            assert(s.channels_of(community_id).contains(k));
        }
        if s.channels_of(community_id).contains(k) {
            let q = choose|q: Seq<char>|
                s.channels.contains_key(q) && #[trigger] s.channels[q].community_id.name()
                    == community_id && s.channels[q].id.name() == k;
            assert(s.channels[q].id.name() == q);
        }
    }
}

} // verus!
