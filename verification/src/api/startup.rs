//! Building the state at start, and joining the network with it.

use crate::api::dialing::{dial_seeds, seed_dials, OwnAddresses, OwnAddressesView};
use crate::api::effects::{emit, no_effects, DhtAction, DhtActionView, Effect, EffectView};
use crate::api::event_processor::channel_handler::{apply_content, with_content};
use crate::api::event_processor::community_handler::{hosting_password, subscribe_all};
use crate::api::event_processor::manifest_handler::acquainted;
use crate::api::local::{LocalNode, LocalNodeView};
use crate::api::rpc_server::community::{fetch_from_peers, peers_of};
use crate::api::rpc_server::message::keys_of;
use crate::api::types::{DmMessageInfo, IdentityState, IdentityStateView, UserStatus};
use crate::api::{
    channel_topic, community_topic, subscribe, topic_of_channel, topic_of_community, AppState,
    AppStateView, DmPeerInfo,
};
use crate::config::{NodeConfig, NodeConfigView};
use crate::crypto::channel_keys::{decrypt_with_fallback, opened_with_fallback};
use crate::identity::peer_id_of;
use crate::lists::{add_text, array_deep_view, copy_text_opt, vec_deep_view, views, with_text};
use crate::model::channel::{ChannelManifest, ChannelManifestView};
use crate::model::community::{SignedManifest, SignedManifestView};
use crate::model::membership::{MembershipRecord, MembershipRecordView};
use crate::model::message::{decoded_content, MessageContent};
use crate::model::types::{ulid_parse, ChannelId};
use crate::network::network_handle::types::{CommunityRef, NetworkCommand};
use crate::network::node_addr::{Ip, NodeAddr};
use crate::node::store::{CommunityMeta, CommunityMetaView};
use crate::state::message_log::{LogEntry, LogEntryView, MessageLog, MessageLogView};
use crate::table::{entry_in_map, has_key, lists, position, Table};
use vstd::prelude::*;

verus! {

/// The tables that are kept on disk.
pub struct Tables {
    pub communities: Table<SignedManifest>,
    pub channels: Table<ChannelManifest>,
    pub channel_keys: Table<[u8; 32]>,
    pub previous_channel_keys: Table<[u8; 32]>,
    pub dms: Table<Vec<DmMessageInfo>>,
    pub dm_peers: Table<DmPeerInfo>,
    pub members: Table<Table<MembershipRecord>>,
    pub bans: Table<Vec<String>>,
    pub read_state: Table<u64>,
    pub hosting_passwords: Table<String>,
    pub seed_fingerprints: Table<[u8; 32]>,
}

/// The state right after the tables were read.
pub open spec fn loaded(
    t: Tables,
    local: LocalNodeView,
    config: NodeConfigView,
    log: MessageLogView,
    tls_fingerprint: Option<Seq<char>>,
) -> AppStateView {
    AppStateView {
        local,
        identity_state: IdentityStateView {
            display_name: config.display_name,
            status: UserStatus::Online,
        },
        config,
        message_log: log,
        connected_peers: Map::empty(),
        communities: t.communities.deep_view(),
        channels: t.channels.deep_view(),
        channel_keys: t.channel_keys.deep_view(),
        previous_channel_keys: t.previous_channel_keys.deep_view(),
        dms: t.dms.deep_view(),
        dm_peers: t.dm_peers.deep_view(),
        members: t.members.deep_view(),
        bans: t.bans.deep_view(),
        pending_manifest_syncs: Seq::empty(),
        actual_listen_addrs: Seq::empty(),
        public_addr: None,
        presence: Map::empty(),
        read_state: t.read_state.deep_view(),
        hosting_passwords: t.hosting_passwords.deep_view(),
        seed_connected_communities: Seq::empty(),
        pending_rotation_messages: Map::empty(),
        seed_fingerprints: t.seed_fingerprints.deep_view(),
        local_tls_fingerprint_hex: tls_fingerprint,
    }
}

/// A map with the entries of another added whose keys it lacks.
pub open spec fn filled<V>(m: Map<Seq<char>, V>, from: Map<Seq<char>, V>) -> Map<Seq<char>, V> {
    Map::new(
        |k: Seq<char>| m.contains_key(k) || from.contains_key(k),
        |k: Seq<char>|
            if m.contains_key(k) {
                m[k]
            } else {
                from[k]
            },
    )
}

/// Channels with those of a list added whose ids are missing.
pub open spec fn filled_channels(
    m: Map<Seq<char>, ChannelManifestView>,
    list: Seq<ChannelManifestView>,
) -> Map<Seq<char>, ChannelManifestView>
    decreases list.len(),
{
    if list.len() == 0 {
        m
    } else {
        let before = filled_channels(m, list.drop_last());
        let c = list.last().id.name();
        if before.contains_key(c) {
            before
        } else {
            before.insert(c, list.last())
        }
    }
}

/// The entries of a map whose value has the length of a key.
pub open spec fn well_sized(m: Map<Seq<char>, Seq<u8>>) -> Map<Seq<char>, Seq<u8>> {
    Map::new(|k: Seq<char>| m.contains_key(k) && m[k].len() == 32, |k: Seq<char>| m[k])
}

/// The state with what the hosting store holds of a community added where it
/// is missing. A record without a manifest adds nothing.
pub open spec fn absorbed(s: AppStateView, meta: CommunityMetaView) -> AppStateView {
    match meta.manifest {
        None => s,
        Some(m) => {
            let c = m.manifest.id.name();
            AppStateView {
                communities: if s.communities.contains_key(c) {
                    s.communities
                } else {
                    s.communities.insert(c, m)
                },
                channels: filled_channels(s.channels, meta.channels),
                channel_keys: filled(s.channel_keys, well_sized(meta.channel_keys)),
                members: s.members.insert(c, filled(s.member_list(c), meta.members)),
                ..s
            }
        },
    }
}

/// The state with all hosted communities added.
pub open spec fn absorbed_all(s: AppStateView, metas: Seq<CommunityMetaView>) -> AppStateView
    decreases metas.len(),
{
    if metas.len() == 0 {
        s
    } else {
        absorbed(absorbed_all(s, metas.drop_last()), metas.last())
    }
}

/// The log after the stored entries of a channel were read back: reactions
/// take effect, and every entry is appended.
pub open spec fn restored(
    log: MessageLogView,
    channel: Seq<char>,
    keys: (Option<Seq<u8>>, Option<Seq<u8>>),
    entries: Seq<LogEntryView>,
) -> MessageLogView
    decreases entries.len(),
{
    if entries.len() == 0 {
        log
    } else {
        let before = restored(log, channel, keys, entries.drop_last());
        let e = entries.last();
        let content = match opened_with_fallback(keys.0, keys.1, e.nonce, e.ciphertext) {
            Some(plain) => decoded_content(plain),
            None => None,
        };
        with_content(before, content, e.author_id).appended(channel, e)
    }
}

/// Whether the stored history of a channel is read back: its id is well
/// formed, its community is known and there is a history.
pub open spec fn has_history(
    s: AppStateView,
    c: Seq<char>,
    history: Map<Seq<char>, Seq<LogEntryView>>,
) -> bool {
    &&& ulid_parse(c) is Some
    &&& s.channels.contains_key(c)
    &&& s.communities.contains_key(s.channels[c].community_id.name())
    &&& history.contains_key(c)
}

/// The log after the histories of the listed channels were read back.
pub open spec fn restored_all(
    s: AppStateView,
    order: Seq<(Seq<char>, ChannelManifestView)>,
    history: Map<Seq<char>, Seq<LogEntryView>>,
) -> MessageLogView
    decreases order.len(),
{
    if order.len() == 0 {
        s.message_log
    } else {
        let before = restored_all(s, order.drop_last(), history);
        let c = order.last().0;
        if has_history(s, c, history) {
            restored(before, c, keys_of(s, c), history[c])
        } else {
            before
        }
    }
}

/// Whether `people` lists all membership records, in some order.
pub open spec fn lists_people(s: AppStateView, people: Seq<MembershipRecordView>) -> bool {
    &&& forall|c: Seq<char>, u: Seq<char>|
        #![trigger s.members[c][u]]
        s.members.contains_key(c) && s.members[c].contains_key(u) ==> people.contains(
            s.members[c][u],
        )
    &&& forall|i: int|
        0 <= i < people.len() ==> exists|c: Seq<char>, u: Seq<char>|
            #![trigger s.members[c][u]]
            s.members.contains_key(c) && s.members[c].contains_key(u) && s.members[c][u]
                == #[trigger] people[i]
}

/// Whether `after` is the state at start: the tables, what the hosting store
/// adds, the stored histories, and every member among the peers that direct
/// messages can reach.
pub open spec fn started(
    start: AppStateView,
    metas: Seq<CommunityMetaView>,
    history: Map<Seq<char>, Seq<LogEntryView>>,
    order: Seq<(Seq<char>, ChannelManifestView)>,
    people: Seq<MembershipRecordView>,
    after: AppStateView,
) -> bool {
    let s = absorbed_all(start, metas);
    &&& lists(order, s.channels)
    &&& lists_people(s, people)
    &&& after == (AppStateView {
        message_log: restored_all(s, order, history),
        dm_peers: acquainted(s.dm_peers, people),
        ..s
    })
}

/// Add the entries of a table whose keys are missing.
fn fill_members(list: &mut Table<MembershipRecord>, from: &Table<MembershipRecord>)
    ensures
        final(list).deep_view() == filled(old(list).deep_view(), from.deep_view()),
{
    let ghost start = list.deep_view();
    let ghost all = from.deep_view();
    let n: usize = from.len();
    let ghost order = from.order();
    let mut i: usize = 0;
    while i < n
        invariant
            i <= n,
            n == order.len(),
            order == from.order(),
            all == from.deep_view(),
            lists(order, all),
            forall|k: Seq<char>|
                #[trigger] list.deep_view().contains_key(k) <==> start.contains_key(k) || (exists|
                    j: int,
                | 0 <= j < i && (#[trigger] order[j]).0 == k),
            forall|k: Seq<char>|
                #[trigger] list.deep_view().contains_key(k) ==> list.deep_view()[k]
                    == if start.contains_key(k) {
                    start[k]
                } else {
                    all[k]
                },
        decreases n - i,
    {
        let k = from.key_at(i);
        let ghost before = list.deep_view();
        proof {
            entry_in_map(order, i as int);
        }
        if !list.contains_key(k.as_str()) {
            list.insert(k.as_str(), from.value_at(i).clone());
        }
        proof {
            let now = list.deep_view();
            assert forall|q: Seq<char>| #[trigger] now.contains_key(q) <==> start.contains_key(q)
                || (exists|j: int| 0 <= j < i + 1 && (#[trigger] order[j]).0 == q) by {
                if now.contains_key(q) && !before.contains_key(q) {
                    assert(order[i as int].0 == q);
                }
                if before.contains_key(q) && !start.contains_key(q) {
                    let j = choose|j: int| 0 <= j < i && (#[trigger] order[j]).0 == q;
                    assert(order[j].0 == q);
                }
                if exists|j: int| 0 <= j < i + 1 && (#[trigger] order[j]).0 == q {
                    let j = choose|j: int| 0 <= j < i + 1 && (#[trigger] order[j]).0 == q;
                    if j < i {
                        assert(before.contains_key(q));
                    }
                }
            }
        }
        i += 1;
    }
    proof {
        assert forall|k: Seq<char>| all.contains_key(k) implies exists|j: int|
            0 <= j < n && (#[trigger] order[j]).0 == k by {
            let j = position(order, k);
            assert(has_key(order, k));
            assert(order[j].0 == k);
        }
        assert forall|j: int| 0 <= j < n implies all.contains_key((#[trigger] order[j]).0) by {
            entry_in_map(order, j);
        }
        assert(list.deep_view() =~= filled(start, all));
    }
}

impl AppState {
    /// Add keys of the right length for channels that have none.
    fn fill_keys(&mut self, from: &Table<Vec<u8>>)
        ensures
            final(self).deep_view() == (AppStateView {
                channel_keys: filled(
                    old(self).deep_view().channel_keys,
                    well_sized(from.deep_view()),
                ),
                ..old(self).deep_view()
            }),
    {
        self.take_plain_keys(from);
        assert(self.deep_view().channel_keys =~= filled(
            old(self).deep_view().channel_keys,
            well_sized(from.deep_view()),
        ));
    }

    /// Add what the hosting store holds of a community where it is missing.
    fn absorb(&mut self, meta: &CommunityMeta)
        ensures
            final(self).deep_view() == absorbed(old(self).deep_view(), meta.deep_view()),
    {
        broadcast use vec_deep_view;

        let ghost s = old(self).deep_view();
        let ghost all = views(meta.channels@);
        let signed = match &meta.manifest {
            Some(m) => m,
            None => {
                return;
            },
        };
        let community = signed.manifest.id.to_string();
        if !self.communities.contains_key(community.as_str()) {
            self.communities.insert(community.as_str(), signed.clone());
        }
        let ghost mid = self.deep_view();
        let mut i: usize = 0;
        assert(all.subrange(0, 0) =~= Seq::<ChannelManifestView>::empty());
        while i < meta.channels.len()
            invariant
                i <= meta.channels@.len(),
                all == views(meta.channels@),
                mid.channels == s.channels,
                self.deep_view() == (AppStateView {
                    channels: filled_channels(s.channels, all.subrange(0, i as int)),
                    ..mid
                }),
            decreases meta.channels@.len() - i,
        {
            let ghost next = all.subrange(0, i + 1);
            assert(next.drop_last() =~= all.subrange(0, i as int));
            let ch = &meta.channels[i];
            assert(ch.deep_view() == next.last());
            let id = ch.id.to_string();
            if !self.channels.contains_key(id.as_str()) {
                self.channels.insert(id.as_str(), ch.clone());
            }
            i += 1;
        }
        assert(all.subrange(0, all.len() as int) =~= all);
        self.fill_keys(&meta.channel_keys);
        let mut list: Table<MembershipRecord> = match self.members.remove(community.as_str()) {
            Some(l) => l,
            None => Table::new(),
        };
        assert(list.deep_view() =~= s.member_list(community@));
        fill_members(&mut list, &meta.members);
        self.members.insert(community.as_str(), list);
        assert(self.deep_view().members =~= absorbed(s, meta.deep_view()).members);
    }

    /// Read back the stored histories; the answer is the order of channels.
    #[verifier::rlimit(60)]
    fn restore_history(&mut self, history: &Table<Vec<LogEntry>>) -> (r: Ghost<
        Seq<(Seq<char>, ChannelManifestView)>,
    >)
        ensures
            lists(r@, old(self).deep_view().channels),
            final(self).deep_view() == (AppStateView {
                message_log: restored_all(old(self).deep_view(), r@, history.deep_view()),
                ..old(self).deep_view()
            }),
    {
        broadcast use array_deep_view;

        let ghost s = old(self).deep_view();
        let ghost h = history.deep_view();
        let n: usize = self.channels.len();
        let ghost order = self.channels.order();
        let mut i: usize = 0;
        assert(order.subrange(0, 0) =~= Seq::<(Seq<char>, ChannelManifestView)>::empty());
        while i < n
            invariant
                i <= n,
                n == order.len(),
                order == self.channels.order(),
                lists(order, s.channels),
                h == history.deep_view(),
                self.deep_view() == (AppStateView {
                    message_log: restored_all(s, order.subrange(0, i as int), h),
                    ..s
                }),
            decreases n - i,
        {
            let ghost next = order.subrange(0, i + 1);
            assert(next.drop_last() =~= order.subrange(0, i as int));
            proof {
                entry_in_map(order, i as int);
            }
            let c = self.channels.key_at(i).as_str();
            let community = self.channels.value_at(i).community_id.to_string();
            assert(c@ == next.last().0);
            assert(s.channels[c@] == next.last().1);
            if ChannelId::from_string(c).is_some() && self.communities.contains_key(
                community.as_str(),
            ) {
                if let Some(entries) = history.get(c) {
                    let key: Option<[u8; 32]> = match self.channel_keys.get(c) {
                        Some(k) => Some(*k),
                        None => None,
                    };
                    let previous: Option<[u8; 32]> = match self.previous_channel_keys.get(c) {
                        Some(k) => Some(*k),
                        None => None,
                    };
                    assert(key.deep_view() == keys_of(s, c@).0);
                    assert(previous.deep_view() == keys_of(s, c@).1);
                    restore_channel(&mut self.message_log, c, key, previous, entries);
                }
            }
            i += 1;
        }
        assert(order.subrange(0, order.len() as int) =~= order);
        Ghost(order)
    }

    /// Remember every member among the peers that direct messages can reach;
    /// the answer is the order in which they were taken.
    #[verifier::rlimit(60)]
    fn acquaint_members(&mut self) -> (r: Ghost<Seq<MembershipRecordView>>)
        ensures
            lists_people(old(self).deep_view(), r@),
            final(self).deep_view() == (AppStateView {
                dm_peers: acquainted(old(self).deep_view().dm_peers, r@),
                ..old(self).deep_view()
            }),
    {
        broadcast use array_deep_view;

        let ghost s = old(self).deep_view();
        let ghost mut people: Seq<MembershipRecordView> = Seq::empty();
        let n: usize = self.members.len();
        let ghost outer = self.members.order();
        let mut i: usize = 0;
        while i < n
            invariant
                i <= n,
                n == outer.len(),
                outer == self.members.order(),
                lists(outer, s.members),
                self.deep_view() == (AppStateView {
                    dm_peers: acquainted(s.dm_peers, people),
                    ..s
                }),
                forall|j: int, u: Seq<char>|
                    #![trigger outer[j].1[u]]
                    0 <= j < i && outer[j].1.contains_key(u) ==> people.contains(outer[j].1[u]),
                forall|q: int|
                    0 <= q < people.len() ==> exists|c: Seq<char>, u: Seq<char>|
                        #![trigger s.members[c][u]]
                        s.members.contains_key(c) && s.members[c].contains_key(u)
                            && s.members[c][u] == #[trigger] people[q],
            decreases n - i,
        {
            proof {
                entry_in_map(outer, i as int);
            }
            let ghost c = outer[i as int].0;
            let ghost start = people;
            let list = self.members.value_at(i);
            let k: usize = list.len();
            let ghost inner = list.order();
            let mut j: usize = 0;
            while j < k
                invariant
                    i < n,
                    n == outer.len(),
                    outer == self.members.order(),
                    list.deep_view() == outer[i as int].1,
                    c == outer[i as int].0,
                    s.members.contains_key(c),
                    s.members[c] == list.deep_view(),
                    j <= k,
                    k == inner.len(),
                    inner == list.order(),
                    lists(inner, list.deep_view()),
                    self.deep_view() == (AppStateView {
                        dm_peers: acquainted(s.dm_peers, people),
                        ..s
                    }),
                    start.len() <= people.len(),
                    people.subrange(0, start.len() as int) == start,
                    forall|q: int| 0 <= q < j ==> people.contains((#[trigger] inner[q]).1),
                    forall|q: int|
                        0 <= q < people.len() ==> exists|c: Seq<char>, u: Seq<char>|
                            #![trigger s.members[c][u]]
                            s.members.contains_key(c) && s.members[c].contains_key(u)
                                && s.members[c][u] == #[trigger] people[q],
                decreases k - j,
            {
                let m = list.value_at(j);
                let user = m.user_id.to_string();
                let ghost before = people;
                let ghost mv = inner[j as int].1;
                proof {
                    entry_in_map(inner, j as int);
                    people = people.push(mv);
                    assert(people.drop_last() =~= before);
                    assert(people[before.len() as int] == mv);
                    assert(people.subrange(0, start.len() as int) =~= start);
                    assert forall|q: int| 0 <= q < j + 1 implies people.contains(
                        (#[trigger] inner[q]).1,
                    ) by {
                        if q < j {
                            let p = before.index_of(inner[q].1);
                            assert(people[p] == inner[q].1);
                        }
                    }
                    assert forall|q: int| 0 <= q < people.len() implies exists|
                        c: Seq<char>,
                        u: Seq<char>,
                    |
                        #![trigger s.members[c][u]]
                        s.members.contains_key(c) && s.members[c].contains_key(u)
                            && s.members[c][u] == #[trigger] people[q] by {
                        if q < before.len() {
                            assert(people[q] == before[q]);
                        } else {
                            assert(s.members[c][inner[j as int].0] == mv);
                        }
                    }
                }
                if !self.dm_peers.contains_key(user.as_str()) {
                    self.dm_peers.insert(
                        user.as_str(),
                        DmPeerInfo {
                            display_name: m.display_name.clone(),
                            x25519_public_key: m.x25519_public_key,
                        },
                    );
                }
                j += 1;
            }
            assert forall|q: int, u: Seq<char>|
                #![trigger outer[q].1[u]]
                0 <= q < i + 1 && outer[q].1.contains_key(u) implies people.contains(
                outer[q].1[u],
            ) by {
                if q < i {
                    let p = start.index_of(outer[q].1[u]);
                    assert(people.subrange(0, start.len() as int)[p] == start[p]);
                    assert(people[p] == outer[q].1[u]);
                } else {
                    let p = position(inner, u);
                    assert(has_key(inner, u));
                    entry_in_map(inner, p);
                    assert(inner[p].1 == outer[q].1[u]);
                }
            }
            i += 1;
        }
        proof {
            assert forall|c: Seq<char>, u: Seq<char>|
                #![trigger s.members[c][u]]
                s.members.contains_key(c) && s.members[c].contains_key(u) implies people.contains(
                s.members[c][u],
            ) by {
                let j = position(outer, c);
                assert(has_key(outer, c));
                entry_in_map(outer, j);
                assert(outer[j].1[u] == s.members[c][u]);
            }
        }
        Ghost(people)
    }

    /// The state at start: from the tables on disk, the records of the hosting
    /// store and the histories stored there.
    pub fn new(
        signing_key: &[u8; 32],
        config: NodeConfig,
        message_log: MessageLog,
        tables: Tables,
        hosted: &Vec<CommunityMeta>,
        history: &Table<Vec<LogEntry>>,
        local_tls_fingerprint_hex: Option<String>,
    ) -> (r: AppState)
        ensures
            r.deep_view().local.key == signing_key@,
            r.deep_view().local.user_id.0@ == peer_id_of(signing_key@),
            exists|
                order: Seq<(Seq<char>, ChannelManifestView)>,
                people: Seq<MembershipRecordView>,
            |
                #[trigger] started(
                    loaded(
                        tables,
                        r.deep_view().local,
                        config.deep_view(),
                        message_log.deep_view(),
                        local_tls_fingerprint_hex.deep_view(),
                    ),
                    hosted.deep_view(),
                    history.deep_view(),
                    order,
                    people,
                    r.deep_view(),
                ),
    {
        broadcast use vec_deep_view;

        let local = LocalNode::new(signing_key);
        let pending_manifest_syncs: Vec<String> = Vec::new();
        let actual_listen_addrs: Vec<String> = Vec::new();
        let seed_connected_communities: Vec<String> = Vec::new();
        let mut state = AppState {
            local,
            identity_state: IdentityState {
                display_name: copy_text_opt(&config.display_name),
                status: UserStatus::Online,
            },
            config,
            message_log,
            connected_peers: Table::new(),
            communities: tables.communities,
            channels: tables.channels,
            channel_keys: tables.channel_keys,
            previous_channel_keys: tables.previous_channel_keys,
            dms: tables.dms,
            dm_peers: tables.dm_peers,
            members: tables.members,
            bans: tables.bans,
            pending_manifest_syncs,
            actual_listen_addrs,
            public_addr: None,
            presence: Table::new(),
            read_state: tables.read_state,
            hosting_passwords: tables.hosting_passwords,
            seed_connected_communities,
            pending_rotation_messages: Table::new(),
            seed_fingerprints: tables.seed_fingerprints,
            local_tls_fingerprint_hex,
        };
        let ghost start = state.deep_view();
        proof {
            let want = loaded(
                tables,
                start.local,
                config.deep_view(),
                message_log.deep_view(),
                local_tls_fingerprint_hex.deep_view(),
            );
            assert(start.pending_manifest_syncs =~= want.pending_manifest_syncs);
            assert(start.actual_listen_addrs =~= want.actual_listen_addrs);
            assert(start.seed_connected_communities =~= want.seed_connected_communities);
            assert(start.connected_peers =~= want.connected_peers);
            assert(start.presence =~= want.presence);
            assert(start.pending_rotation_messages =~= want.pending_rotation_messages);
            assert(start == want);
        }
        let ghost metas = views(hosted@);
        let n: usize = hosted.len();
        let mut i: usize = 0;
        assert(metas.subrange(0, 0) =~= Seq::<CommunityMetaView>::empty());
        while i < n
            invariant
                i <= n,
                n == hosted@.len(),
                metas == views(hosted@),
                state.deep_view() == absorbed_all(start, metas.subrange(0, i as int)),
                state.deep_view().local == start.local,
            decreases n - i,
        {
            let ghost next = metas.subrange(0, i + 1);
            assert(next.drop_last() =~= metas.subrange(0, i as int));
            state.absorb(&hosted[i]);
            i += 1;
        }
        assert(metas.subrange(0, metas.len() as int) =~= metas);
        let ghost s = state.deep_view();
        let order = state.restore_history(history);
        let people = state.acquaint_members();
        assert(started(start, metas, history.deep_view(), order@, people@, state.deep_view()));
        assert(started(
            loaded(
                tables,
                state.deep_view().local,
                config.deep_view(),
                message_log.deep_view(),
                local_tls_fingerprint_hex.deep_view(),
            ),
            hosted.deep_view(),
            history.deep_view(),
            order@,
            people@,
            state.deep_view(),
        ));
        state
    }
}

/// Read back the stored history of a channel.
fn restore_channel(
    log: &mut MessageLog,
    channel: &str,
    key: Option<[u8; 32]>,
    previous: Option<[u8; 32]>,
    entries: &Vec<LogEntry>,
)
    ensures
        final(log).deep_view() == restored(
            old(log).deep_view(),
            channel@,
            (key.deep_view(), previous.deep_view()),
            entries.deep_view(),
        ),
{
    broadcast use array_deep_view, vec_deep_view;

    let ghost start = old(log).deep_view();
    let ghost all = views(entries@);
    let ghost kv = (key.deep_view(), previous.deep_view());
    assert(match key {
        Some(k) => kv.0 == Some(k@),
        None => kv.0 is None,
    });
    assert(match previous {
        Some(k) => kv.1 == Some(k@),
        None => kv.1 is None,
    });
    let n: usize = entries.len();
    let mut i: usize = 0;
    assert(all.subrange(0, 0) =~= Seq::<LogEntryView>::empty());
    while i < n
        invariant
            i <= n,
            n == entries@.len(),
            all == views(entries@),
            match key {
                Some(k) => kv.0 == Some(k@),
                None => kv.0 is None,
            },
            match previous {
                Some(k) => kv.1 == Some(k@),
                None => kv.1 is None,
            },
            log.deep_view() == restored(start, channel@, kv, all.subrange(0, i as int)),
        decreases n - i,
    {
        let ghost next = all.subrange(0, i + 1);
        assert(next.drop_last() =~= all.subrange(0, i as int));
        let e = &entries[i];
        assert(e.deep_view() == next.last());
        let content: Option<MessageContent> = match decrypt_with_fallback(
            key,
            previous,
            &e.nonce,
            e.ciphertext.as_slice(),
        ) {
            Some(plain) => MessageContent::decode(plain.as_slice()),
            None => None,
        };
        apply_content(log, &content, e.author_id.as_str());
        log.append_entry(channel, e.clone());
        i += 1;
    }
    assert(all.subrange(0, all.len() as int) =~= all);
}

/// The addresses of the local node that the state knows, beside those of its
/// interfaces.
pub open spec fn own_addresses(
    s: AppStateView,
    ips: Seq<Ip>,
    parsed: Map<Seq<char>, NodeAddr>,
) -> OwnAddressesView {
    OwnAddressesView {
        ips,
        port: s.config.quic_port,
        listen: parsed_addrs(s.actual_listen_addrs, parsed),
        public_addr: s.public_addr,
    }
}

/// The addresses among the given texts that are well formed.
pub open spec fn parsed_addrs(list: Seq<Seq<char>>, parsed: Map<Seq<char>, NodeAddr>) -> Seq<NodeAddr>
    decreases list.len(),
{
    if list.len() == 0 {
        Seq::empty()
    } else {
        let head = parsed_addrs(list.drop_last(), parsed);
        if parsed.contains_key(list.last()) {
            head.push(parsed[list.last()])
        } else {
            head
        }
    }
}

/// What is done at start for one community: fetch its manifest from connected
/// peers, subscribe to its topic and dial its pinned seed nodes.
pub open spec fn rejoin_effects(
    s: AppStateView,
    id: Seq<char>,
    m: SignedManifestView,
    own: OwnAddressesView,
    parsed: Map<Seq<char>, NodeAddr>,
) -> Seq<EffectView> {
    fetch_from_peers(peers_of(s, id), id, m.manifest.public_key) + seq![
        subscribe(community_topic(id)),
    ] + seed_dials(
        m.manifest.seed_nodes,
        parsed,
        Some(own),
        m.manifest.public_key,
        id,
        hosting_password(s, id),
        None,
        s.seed_fingerprints,
    )
}

/// What is done at start for the listed communities.
pub open spec fn rejoin_all(
    s: AppStateView,
    order: Seq<(Seq<char>, SignedManifestView)>,
    own: OwnAddressesView,
    parsed: Map<Seq<char>, NodeAddr>,
) -> Seq<EffectView>
    decreases order.len(),
{
    if order.len() == 0 {
        Seq::empty()
    } else {
        rejoin_all(s, order.drop_last(), own, parsed) + rejoin_effects(
            s,
            order.last().0,
            order.last().1,
            own,
            parsed,
        )
    }
}

/// The manifest fetches that are pending, with the listed communities added.
pub open spec fn pending_all(
    pending: Seq<Seq<char>>,
    order: Seq<(Seq<char>, SignedManifestView)>,
) -> Seq<Seq<char>>
    decreases order.len(),
{
    if order.len() == 0 {
        pending
    } else {
        with_text(pending_all(pending, order.drop_last()), order.last().0)
    }
}

/// The keys of a listing.
pub open spec fn keys<X>(order: Seq<(Seq<char>, X)>) -> Seq<Seq<char>> {
    Seq::new(order.len(), |i: int| order[i].0)
}

/// Whether the node joined the network, with communities and channels in the
/// given order.
pub open spec fn bootstrapped(
    s: AppStateView,
    after: AppStateView,
    ips: Seq<Ip>,
    parsed: Map<Seq<char>, NodeAddr>,
    order: Seq<(Seq<char>, SignedManifestView)>,
    channels: Seq<(Seq<char>, ChannelManifestView)>,
    fx: Seq<EffectView>,
) -> bool {
    let own = own_addresses(s, ips, parsed);
    &&& lists(order, s.communities)
    &&& lists(channels, s.channels)
    &&& after == (AppStateView {
        pending_manifest_syncs: pending_all(s.pending_manifest_syncs, order),
        ..s
    })
    &&& fx == seq![EffectView::Dht(DhtActionView::Bootstrap)] + rejoin_all(s, order, own, parsed)
        + subscribe_all(keys(channels))
}

/// The addresses among the given texts that are well formed.
fn well_formed(list: &Vec<String>, parsed: &Table<NodeAddr>) -> (r: Vec<NodeAddr>)
    ensures
        r@ == parsed_addrs(list.deep_view(), parsed.deep_view()),
{
    let ghost all = list.deep_view();
    let ghost addrs = parsed.deep_view();
    let mut out: Vec<NodeAddr> = Vec::new();
    let mut i: usize = 0;
    assert(out@ =~= parsed_addrs(all.subrange(0, 0), addrs));
    while i < list.len()
        invariant
            i <= list@.len(),
            all == list.deep_view(),
            addrs == parsed.deep_view(),
            out@ == parsed_addrs(all.subrange(0, i as int), addrs),
        decreases list@.len() - i,
    {
        let ghost next = all.subrange(0, i + 1);
        assert(next.drop_last() =~= all.subrange(0, i as int));
        assert(list@[i as int]@ == next.last());
        if let Some(a) = parsed.get(list[i].as_str()) {
            out.push(*a);
        }
        i += 1;
    }
    assert(all.subrange(0, all.len() as int) =~= all);
    out
}

impl AppState {
    /// Join the network: mark every community for a manifest fetch, ask the
    /// peers that are connected, subscribe to all topics and dial the
    /// pinned seed nodes that are not this node itself. `ips` are the addresses of the
    /// local interfaces.
    #[verifier::rlimit(80)]
    pub fn bootstrap_network(&mut self, ips: Vec<Ip>, parsed: &Table<NodeAddr>) -> (r: Vec<Effect>)
        ensures
            exists|
                order: Seq<(Seq<char>, SignedManifestView)>,
                channels: Seq<(Seq<char>, ChannelManifestView)>,
            |
                #[trigger] bootstrapped(
                    old(self).deep_view(),
                    final(self).deep_view(),
                    ips@,
                    parsed.deep_view(),
                    order,
                    channels,
                    r.deep_view(),
                ),
    {
        let ghost s = old(self).deep_view();
        let ghost addrs = parsed.deep_view();
        let ghost ipv = ips@;
        let own = OwnAddresses {
            ips,
            port: self.config.quic_port,
            listen: well_formed(&self.actual_listen_addrs, parsed),
            public_addr: copy_text_opt(&self.public_addr),
        };
        let ghost ov = own_addresses(s, ipv, addrs);
        assert(own.deep_view() == ov);
        let mut out = no_effects();
        emit(&mut out, Effect::Dht(DhtAction::Bootstrap));
        let ghost head = out.deep_view();
        let n: usize = self.communities.len();
        let ghost order = self.communities.order();
        let mut i: usize = 0;
        assert(order.subrange(0, 0) =~= Seq::<(Seq<char>, SignedManifestView)>::empty());
        assert(head + rejoin_all(s, order.subrange(0, 0), ov, addrs) =~= head);
        while i < n
            invariant
                i <= n,
                n == order.len(),
                order == self.communities.order(),
                lists(order, s.communities),
                own.deep_view() == ov,
                addrs == parsed.deep_view(),
                self.deep_view() == (AppStateView {
                    pending_manifest_syncs: pending_all(
                        s.pending_manifest_syncs,
                        order.subrange(0, i as int),
                    ),
                    ..s
                }),
                out.deep_view() == head + rejoin_all(s, order.subrange(0, i as int), ov, addrs),
            decreases n - i,
        {
            let ghost next = order.subrange(0, i + 1);
            assert(next.drop_last() =~= order.subrange(0, i as int));
            let id = self.communities.key_at(i).clone();
            let pk: [u8; 32] = self.communities.value_at(i).manifest.public_key;
            let ghost before = out.deep_view();
            add_text(&mut self.pending_manifest_syncs, id.as_str());
            assert(peers_of(self.deep_view(), id@) == peers_of(s, id@));
            self.fetch_from_connected(&mut out, id.as_str(), pk);
            emit(
                &mut out,
                Effect::Command(NetworkCommand::Subscribe(topic_of_community(id.as_str()))),
            );
            let password: Option<String> = match self.hosting_passwords.get(id.as_str()) {
                Some(p) => Some(p.clone()),
                None => None,
            };
            assert(password.deep_view() == hosting_password(s, id@));
            dial_seeds(
                &mut out,
                &self.communities.value_at(i).manifest.seed_nodes,
                parsed,
                Some(&own),
                &CommunityRef { pk, id },
                &password,
                None,
                &self.seed_fingerprints,
            );
            assert(out.deep_view() =~= head + rejoin_all(s, next, ov, addrs));
            i += 1;
        }
        assert(order.subrange(0, order.len() as int) =~= order);
        let ghost mid = out.deep_view();
        let k: usize = self.channels.len();
        let ghost channels = self.channels.order();
        let mut j: usize = 0;
        assert(mid + subscribe_all(keys(channels.subrange(0, 0))) =~= mid);
        while j < k
            invariant
                j <= k,
                k == channels.len(),
                channels == self.channels.order(),
                out.deep_view() == mid + subscribe_all(keys(channels.subrange(0, j as int))),
            decreases k - j,
        {
            emit(
                &mut out,
                Effect::Command(
                    NetworkCommand::Subscribe(topic_of_channel(self.channels.key_at(j).as_str())),
                ),
            );
            j += 1;
            proof {
                let shorter = subscribe_all(keys(channels.subrange(0, j - 1)));
                let longer = subscribe_all(keys(channels.subrange(0, j as int)));
                assert(longer =~= shorter.push(subscribe(channel_topic(channels[j - 1].0))));
                assert(out.deep_view() =~= mid + longer);
            }
        }
        assert(channels.subrange(0, channels.len() as int) =~= channels);
        proof {
            assert(out.deep_view() =~= seq![EffectView::Dht(DhtActionView::Bootstrap)] + rejoin_all(
                s,
                order,
                ov,
                addrs,
            ) + subscribe_all(keys(channels)));
            assert(bootstrapped(
                s,
                self.deep_view(),
                ipv,
                addrs,
                order,
                channels,
                out.deep_view(),
            ));
        }
        out
    }
}

/// What is on disk wins over what the hosting store holds: nothing that the
/// state has is replaced.
pub proof fn hosted_records_never_overwrite(s: AppStateView, meta: CommunityMetaView, k: Seq<char>)
    ensures
        s.communities.contains_key(k) ==> absorbed(s, meta).communities.contains_key(k) && absorbed(
            s,
            meta,
        ).communities[k] == s.communities[k],
        s.channels.contains_key(k) ==> absorbed(s, meta).channels.contains_key(k) && absorbed(
            s,
            meta,
        ).channels[k] == s.channels[k],
        s.channel_keys.contains_key(k) ==> absorbed(s, meta).channel_keys.contains_key(k)
            && absorbed(s, meta).channel_keys[k] == s.channel_keys[k],
{
    channels_stay(s.channels, meta.channels, k);
}

/// Filling in channels replaces none.
proof fn channels_stay(
    m: Map<Seq<char>, ChannelManifestView>,
    list: Seq<ChannelManifestView>,
    k: Seq<char>,
)
    ensures
        m.contains_key(k) ==> filled_channels(m, list).contains_key(k) && filled_channels(m, list)[k]
            == m[k],
    decreases list.len(),
{
    if list.len() > 0 {
        channels_stay(m, list.drop_last(), k);
    }
}

} // verus!
