//! Events on community topics.

use crate::api::dialing::{fingerprint_for, seed_dial};
use crate::api::effects::{
    emit, no_effects, Effect, EffectView, StoreUpdate, StoreUpdateView, TableFile,
};
use crate::api::event_processor::channel_handler::{push_sync, sync_peer, sync_push};
use crate::api::event_processor::member_handler::{
    heartbeat_handled, member_joined, member_left, role_changed,
};
use crate::api::push_broadcaster::{
    ChannelEventData, ChannelEventDataView, CommunityEventData, CommunityEventDataView, PushEvent,
    PushEventView,
};
use crate::api::rpc_server::channel::{retained, retained_effects};
use crate::api::rpc_server::community::{
    first_seed, first_seed_text, moves_seed, peers_of, push_updated, seed_moves, updated_push,
};
use crate::api::{
    channel_topic, community_topic, fetch_manifest, subscribe, topic_of_channel,
    topic_of_community, unsubscribe, without_community, AppState, AppStateView,
};
use crate::bytes::{is_zero, same_array, zeros};
use crate::crypto::channel_keys::{delivers, unwrapped_key, ChannelKey};
use crate::crypto::primitives::x25519_public_key;
use crate::crypto::CryptoError;
use crate::identity::x25519_secret_of;
use crate::lists::{add_text, array_deep_view, with_text};
use crate::model::channel::{member_key, ChannelManifest, ChannelManifestView};
use crate::model::community::{
    channel_names, channel_texts, CommunityManifest, CommunityManifestView, SignedManifest,
    SignedManifestView,
};
use crate::model::network_event::{NetworkEvent, NetworkEventView};
use crate::model::types::{ulid_parse, ChannelId, CommunityId, UserId};
use crate::network::network_handle::types::{CommunityRef, NetworkCommand, NetworkCommandView};
use crate::network::node_addr::NodeAddr;
use crate::table::{remove_all, Table};
use crate::text::text;
use crate::time::Timestamp;
use vstd::prelude::*;

verus! {

/// What the hosting store holds of a community.
#[derive(Debug)]
pub enum Stored {
    /// No record, or no store at all.
    Nothing,
    /// A record without a manifest.
    Placeholder,
    /// A record with a manifest.
    Manifest(SignedManifest),
}

/// What a [`Stored`] holds.
pub enum StoredView {
    Nothing,
    Placeholder,
    Manifest(SignedManifestView),
}

impl DeepView for Stored {
    type V = StoredView;

    open spec fn deep_view(&self) -> StoredView {
        match self {
            Stored::Nothing => StoredView::Nothing,
            Stored::Placeholder => StoredView::Placeholder,
            Stored::Manifest(m) => StoredView::Manifest(m.deep_view()),
        }
    }
}

/// The stand-in for a manifest that is still to be fetched.
pub open spec fn placeholder(
    community_id: Seq<char>,
    community_pk: Seq<u8>,
    fresh: CommunityId,
    now: Timestamp,
) -> SignedManifestView {
    SignedManifestView {
        manifest: CommunityManifestView {
            id: match ulid_parse(community_id) {
                Some(v) => CommunityId(v),
                None => fresh,
            },
            name: "Syncing..."@,
            description: Seq::empty(),
            public_key: community_pk,
            created_at: now,
            admin_ids: Seq::empty(),
            channel_ids: Seq::empty(),
            seed_nodes: Seq::empty(),
            version: 0,
            deleted: false,
        },
        signature: zeros(64),
    }
}

/// The state after this node was told that it joined a community.
pub open spec fn joined_state(
    s: AppStateView,
    community_pk: Seq<u8>,
    community_id: Seq<char>,
    stored: StoredView,
    fresh: CommunityId,
    now: Timestamp,
) -> AppStateView {
    if s.communities.contains_key(community_id) {
        s
    } else {
        match stored {
            StoredView::Nothing => s,
            StoredView::Manifest(m) => AppStateView {
                communities: s.communities.insert(community_id, m),
                ..s
            },
            StoredView::Placeholder => AppStateView {
                communities: s.communities.insert(
                    community_id,
                    placeholder(community_id, community_pk, fresh, now),
                ),
                pending_manifest_syncs: with_text(s.pending_manifest_syncs, community_id),
                ..s
            },
        }
    }
}

/// What is done after this node was told that it joined a community. A
/// placeholder is not saved.
pub open spec fn joined_effects(
    s: AppStateView,
    community_id: Seq<char>,
    stored: StoredView,
) -> Seq<EffectView> {
    let save = if !s.communities.contains_key(community_id) && stored is Manifest {
        seq![EffectView::Save(TableFile::Communities)]
    } else {
        Seq::empty()
    };
    seq![subscribe(community_topic(community_id))] + save
}

/// What it leads to that this node was told that it joined a community.
pub open spec fn join_noted(
    s: AppStateView,
    after: AppStateView,
    community_pk: Seq<u8>,
    community_id: Seq<char>,
    stored: StoredView,
    fx: Seq<EffectView>,
) -> bool {
    &&& fx == joined_effects(s, community_id, stored)
    &&& exists|fresh: CommunityId, now: Timestamp|
        after == #[trigger] joined_state(s, community_pk, community_id, stored, fresh, now)
}

/// From where on the history of a channel is missing: after the last entry of
/// the hosting store, or of the log where there is no such store.
pub open spec fn resume_point(
    s: AppStateView,
    last_seqs: Option<Map<Seq<char>, u64>>,
    channel: Seq<char>,
) -> u64 {
    match last_seqs {
        Some(t) => if t.contains_key(channel) {
            (t[channel] + 1) as u64
        } else {
            0
        },
        None => s.message_log.entries(channel).len() as u64,
    }
}

/// Sequence numbers can still grow.
pub open spec fn seqs_can_grow(last_seqs: Option<Map<Seq<char>, u64>>) -> bool {
    last_seqs matches Some(t) ==> forall|k: Seq<char>| t.contains_key(k) ==> #[trigger] t[k]
        < u64::MAX
}

/// Ask a peer for the history of a channel.
pub open spec fn fetch_history(
    peer_id: Seq<char>,
    community_id: Seq<char>,
    community_pk: Seq<u8>,
    channel_id: Seq<char>,
    since_seq: u64,
) -> EffectView {
    EffectView::Command(
        NetworkCommandView::FetchChannelHistory {
            peer_id,
            community_id,
            community_pk,
            channel_id,
            since_seq,
        },
    )
}

/// The channel key that a manifest delivers to the local user, if any.
pub open spec fn delivered_key(s: AppStateView, m: ChannelManifestView) -> Option<Seq<u8>> {
    match member_key(m.encrypted_channel_key, s.local.user_id) {
        Some(w) => match unwrapped_key(x25519_secret_of(s.local.key), w) {
            Ok(k) => Some(k),
            Err(_) => None,
        },
        None => None,
    }
}

/// The state after a channel manifest was broadcast.
pub open spec fn broadcast_applied(s: AppStateView, m: ChannelManifestView) -> AppStateView {
    let channel = m.id.name();
    if !s.communities.contains_key(m.community_id.name()) {
        s
    } else {
        match delivered_key(s, m) {
            Some(k) => AppStateView {
                channels: s.channels.insert(channel, m),
                channel_keys: s.channel_keys.insert(channel, k),
                previous_channel_keys: retained(s, channel, k),
                ..s
            },
            None => AppStateView { channels: s.channels.insert(channel, m), ..s },
        }
    }
}

/// What is done after a channel manifest was broadcast.
pub open spec fn broadcast_effects(
    s: AppStateView,
    m: ChannelManifestView,
    last_seqs: Option<Map<Seq<char>, u64>>,
) -> Seq<EffectView> {
    let channel = m.id.name();
    let community = m.community_id.name();
    if !s.communities.contains_key(community) {
        Seq::empty()
    } else {
        let key_part = match delivered_key(s, m) {
            Some(k) => {
                let catch_up = match sync_peer(s, community) {
                    Some(peer) => seq![
                        sync_push(channel, false),
                        fetch_history(
                            peer,
                            community,
                            s.communities[community].manifest.public_key,
                            channel,
                            resume_point(s, last_seqs, channel),
                        ),
                    ],
                    None => Seq::empty(),
                };
                retained_effects(s, channel, k) + seq![EffectView::Save(TableFile::ChannelKeys)]
                    + catch_up
            },
            None => Seq::empty(),
        };
        seq![EffectView::Save(TableFile::Channels)] + key_part + seq![
            EffectView::Store(
                StoreUpdateView::SyncChannel {
                    community_id: community,
                    channel_id: channel,
                    with_key: false,
                },
            ),
            subscribe(channel_topic(channel)),
        ]
    }
}

/// The channels of `list` that `other` does not name.
pub open spec fn ids_missing(list: Seq<ChannelId>, other: Seq<ChannelId>) -> Seq<ChannelId>
    decreases list.len(),
{
    if list.len() == 0 {
        list
    } else {
        let head = ids_missing(list.drop_last(), other);
        if other.contains(list.last()) {
            head
        } else {
            head.push(list.last())
        }
    }
}

/// Whether `list` names a channel.
pub fn has_id(list: &Vec<ChannelId>, id: ChannelId) -> (r: bool)
    ensures
        r == list@.contains(id),
{
    let mut i: usize = 0;
    while i < list.len()
        invariant
            i <= list@.len(),
            forall|j: int| 0 <= j < i ==> list@[j] != id,
        decreases list@.len() - i,
    {
        if list[i] == id {
            assert(list@[i as int] == id);
            return true;
        }
        i += 1;
    }
    false
}

/// The channels of `list` that `other` does not name.
pub fn missing_ids(list: &Vec<ChannelId>, other: &Vec<ChannelId>) -> (r: Vec<ChannelId>)
    ensures
        r@ == ids_missing(list@, other@),
{
    let mut out: Vec<ChannelId> = Vec::new();
    let mut i: usize = 0;
    assert(list@.subrange(0, 0) =~= Seq::<ChannelId>::empty());
    assert(out@ =~= ids_missing(list@.subrange(0, 0), other@));
    while i < list.len()
        invariant
            i <= list@.len(),
            out@ == ids_missing(list@.subrange(0, i as int), other@),
        decreases list@.len() - i,
    {
        assert(list@.subrange(0, i + 1).drop_last() =~= list@.subrange(0, i as int));
        if !has_id(other, list[i]) {
            out.push(list[i]);
        }
        i += 1;
    }
    assert(list@.subrange(0, list@.len() as int) =~= list@);
    out
}

/// A channel is missing exactly when it is in the one list and not in the
/// other.
pub proof fn ids_missing_membership(list: Seq<ChannelId>, other: Seq<ChannelId>, id: ChannelId)
    ensures
        ids_missing(list, other).contains(id) <==> list.contains(id) && !other.contains(id),
    decreases list.len(),
{
    if list.len() > 0 {
        let head = ids_missing(list.drop_last(), other);
        ids_missing_membership(list.drop_last(), other, id);
        if list.contains(id) {
            let i = list.index_of(id);
            if i < list.len() - 1 {
                assert(list.drop_last()[i] == id);
            }
        }
        if list.drop_last().contains(id) {
            let i = list.drop_last().index_of(id);
            assert(list[i] == id);
        }
        if !other.contains(list.last()) {
            let all = head.push(list.last());
            assert(all[head.len() as int] == list.last());
            if head.contains(id) {
                assert(all[head.index_of(id)] == id);
            }
            if all.contains(id) && id != list.last() {
                assert(head[all.index_of(id)] == id);
            }
        }
    }
}

/// Subscribe to the topics of the given channels.
pub open spec fn subscribe_all(names: Seq<Seq<char>>) -> Seq<EffectView> {
    Seq::new(names.len(), |i: int| subscribe(channel_topic(names[i])))
}

/// Tell clients that the given channels are gone.
pub open spec fn channels_gone(community_id: Seq<char>, names: Seq<Seq<char>>) -> Seq<EffectView> {
    Seq::new(
        names.len(),
        |i: int|
            EffectView::Push(
                PushEventView::ChannelDeleted(
                    ChannelEventDataView { channel_id: names[i], community_id, name: Seq::empty() },
                ),
            ),
    )
}

/// Whether a manifest stands under the key that its community has had: the
/// creator's key never changes. The placeholder of version zero that joining
/// leaves gives way to any key.
pub open spec fn key_kept(s: AppStateView, m: SignedManifestView) -> bool {
    let community = m.manifest.id.name();
    s.communities.contains_key(community) && s.communities[community].manifest.version > 0
        ==> s.communities[community].manifest.public_key == m.manifest.public_key
}

/// Whether a manifest update is accepted: it is signed, its community is
/// known under the same key, and it is newer than the manifest at hand.
pub open spec fn update_accepted(s: AppStateView, m: SignedManifestView) -> bool {
    &&& m.valid()
    &&& s.communities.contains_key(m.manifest.id.name())
    &&& m.manifest.version > s.communities[m.manifest.id.name()].manifest.version
    &&& key_kept(s, m)
}

/// The channels that an update drops.
pub open spec fn dropped_channels(s: AppStateView, m: SignedManifestView) -> Seq<ChannelId> {
    ids_missing(
        s.communities[m.manifest.id.name()].manifest.channel_ids,
        m.manifest.channel_ids,
    )
}

/// The state after an accepted update that does not delete the community.
pub open spec fn update_applied(
    s: AppStateView,
    m: SignedManifestView,
    source: Option<Seq<char>>,
) -> AppStateView {
    let community = m.manifest.id.name();
    AppStateView {
        communities: s.communities.insert(community, m),
        channels: s.channels.remove_keys(channel_names(dropped_channels(s, m)).to_set()),
        pending_manifest_syncs: if source is Some {
            s.pending_manifest_syncs
        } else {
            with_text(s.pending_manifest_syncs, community)
        },
        ..s
    }
}

/// The hosting password of a community.
pub open spec fn hosting_password(s: AppStateView, community_id: Seq<char>) -> Option<Seq<char>> {
    if s.hosting_passwords.contains_key(community_id) {
        Some(s.hosting_passwords[community_id])
    } else {
        None
    }
}

/// Dial the first seed of a manifest when it differs from the one before and
/// its fingerprint is pinned.
pub open spec fn new_seed_dial(
    s: AppStateView,
    m: SignedManifestView,
    parsed: Map<Seq<char>, NodeAddr>,
) -> Seq<EffectView> {
    let community = m.manifest.id.name();
    let seed = first_seed(m.manifest.seed_nodes);
    if seed_moves(s.communities[community].manifest.seed_nodes, m.manifest.seed_nodes)
        && parsed.contains_key(seed) && fingerprint_for(None, s.seed_fingerprints, seed) != zeros(
        32,
    ) {
        seq![
            seed_dial(
                parsed[seed],
                m.manifest.public_key,
                community,
                hosting_password(s, community),
                fingerprint_for(None, s.seed_fingerprints, seed),
            ),
        ]
    } else {
        Seq::empty()
    }
}

/// What is done for the channels that an update drops.
pub open spec fn drop_effects(community_id: Seq<char>, names: Seq<Seq<char>>) -> Seq<EffectView> {
    if names.len() == 0 {
        Seq::empty()
    } else {
        crate::api::unsubscribe_all(names) + seq![EffectView::Save(TableFile::Channels)]
            + channels_gone(community_id, names)
    }
}

/// What is done after an accepted update that does not delete the community.
pub open spec fn update_effects(
    s: AppStateView,
    m: SignedManifestView,
    source: Option<Seq<char>>,
    parsed: Map<Seq<char>, NodeAddr>,
) -> Seq<EffectView> {
    let community = m.manifest.id.name();
    let added = ids_missing(
        m.manifest.channel_ids,
        s.communities[community].manifest.channel_ids,
    );
    let fetch = match source {
        Some(peer) => seq![fetch_manifest(peer, community, m.manifest.public_key)],
        None => Seq::empty(),
    };
    seq![
        EffectView::Save(TableFile::Communities),
        EffectView::Store(StoreUpdateView::SyncManifest { community_id: community }),
    ] + subscribe_all(channel_names(added)) + drop_effects(
        community,
        channel_names(dropped_channels(s, m)),
    ) + fetch + new_seed_dial(s, m, parsed) + seq![updated_push(community, m.manifest.version)]
}

/// Tell clients that a community is gone.
pub open spec fn gone_push(community_id: Seq<char>, version: u64, reason: Seq<char>) -> EffectView {
    EffectView::Push(
        PushEventView::CommunityDeleted(CommunityEventDataView { community_id, version, reason }),
    )
}

/// Whether `fx` forgets a community and tells clients so.
pub open spec fn forgotten(
    s: AppStateView,
    community_id: Seq<char>,
    version: u64,
    reason: Seq<char>,
    fx: Seq<EffectView>,
) -> bool {
    exists|names: Seq<Seq<char>>|
        names.to_set() == s.channels_of(community_id) && fx
            == #[trigger] crate::api::removal_effects(s, community_id, names) + seq![
            gone_push(community_id, version, reason),
        ]
}

/// What a manifest update that came in leads to.
pub open spec fn update_handled(
    s: AppStateView,
    after: AppStateView,
    m: SignedManifestView,
    source: Option<Seq<char>>,
    parsed: Map<Seq<char>, NodeAddr>,
    fx: Seq<EffectView>,
) -> bool {
    let community = m.manifest.id.name();
    if !update_accepted(s, m) {
        after == s && fx.len() == 0
    } else if m.manifest.deleted {
        after == without_community(s, community) && forgotten(
            s,
            community,
            m.manifest.version,
            Seq::empty(),
            fx,
        )
    } else {
        after == update_applied(s, m, source) && fx == update_effects(s, m, source, parsed)
    }
}

/// Subscribe to the topics of the given channels.
pub fn subscribe_channels(out: &mut Vec<Effect>, names: &Vec<String>)
    ensures
        final(out).deep_view() == old(out).deep_view() + subscribe_all(names.deep_view()),
{
    let ghost start = out.deep_view();
    let ghost all = names.deep_view();
    let mut i: usize = 0;
    assert(start + subscribe_all(all.subrange(0, 0)) =~= start);
    while i < names.len()
        invariant
            i <= names@.len(),
            all == names.deep_view(),
            out.deep_view() == start + subscribe_all(all.subrange(0, i as int)),
        decreases names@.len() - i,
    {
        emit(
            out,
            Effect::Command(NetworkCommand::Subscribe(topic_of_channel(names[i].as_str()))),
        );
        i += 1;
        assert(subscribe_all(all.subrange(0, i as int)) =~= subscribe_all(
            all.subrange(0, i - 1),
        ).push(subscribe(channel_topic(all[i - 1]))));
        assert(out.deep_view() =~= start + subscribe_all(all.subrange(0, i as int)));
    }
    assert(all.subrange(0, all.len() as int) =~= all);
}

/// Leave the topics of the dropped channels and tell clients.
fn drop_channels(out: &mut Vec<Effect>, community_id: &str, names: &Vec<String>)
    ensures
        final(out).deep_view() == old(out).deep_view() + drop_effects(
            community_id@,
            names.deep_view(),
        ),
{
    let ghost start = out.deep_view();
    let ghost all = names.deep_view();
    if names.len() == 0 {
        assert(start + drop_effects(community_id@, all) =~= start);
        return;
    }
    let mut i: usize = 0;
    assert(start + crate::api::unsubscribe_all(all.subrange(0, 0)) =~= start);
    while i < names.len()
        invariant
            i <= names@.len(),
            all == names.deep_view(),
            out.deep_view() == start + crate::api::unsubscribe_all(all.subrange(0, i as int)),
        decreases names@.len() - i,
    {
        emit(
            out,
            Effect::Command(NetworkCommand::Unsubscribe(topic_of_channel(names[i].as_str()))),
        );
        i += 1;
        assert(crate::api::unsubscribe_all(all.subrange(0, i as int))
            =~= crate::api::unsubscribe_all(all.subrange(0, i - 1)).push(
            unsubscribe(channel_topic(all[i - 1])),
        ));
        assert(out.deep_view() =~= start + crate::api::unsubscribe_all(
            all.subrange(0, i as int),
        ));
    }
    assert(all.subrange(0, all.len() as int) =~= all);
    emit(out, Effect::Save(TableFile::Channels));
    let ghost mid = out.deep_view();
    let mut j: usize = 0;
    assert(mid + channels_gone(community_id@, all.subrange(0, 0)) =~= mid);
    while j < names.len()
        invariant
            j <= names@.len(),
            all == names.deep_view(),
            out.deep_view() == mid + channels_gone(community_id@, all.subrange(0, j as int)),
        decreases names@.len() - j,
    {
        let ghost before = out.deep_view();
        emit(
            out,
            Effect::Push(
                PushEvent::ChannelDeleted(
                    ChannelEventData {
                        channel_id: names[j].clone(),
                        community_id: text(community_id),
                        name: String::new(),
                    },
                ),
            ),
        );
        j += 1;
        proof {
            let shorter = channels_gone(community_id@, all.subrange(0, j - 1));
            let longer = channels_gone(community_id@, all.subrange(0, j as int));
            assert(longer =~= shorter.push(out.deep_view().last()));
            assert(out.deep_view() =~= mid + longer);
        }
    }
    assert(out.deep_view() =~= start + drop_effects(community_id@, all));
}

impl AppState {
    /// From where on the history of a channel is missing.
    pub fn history_gap(&self, last_seqs: &Option<Table<u64>>, channel: &str) -> (r: u64)
        requires
            seqs_can_grow(last_seqs.deep_view()),
        ensures
            r == resume_point(self.deep_view(), last_seqs.deep_view(), channel@),
    {
        match last_seqs {
            Some(t) => match t.get(channel) {
                Some(last) => {
                    let ghost seqs = last_seqs.deep_view()->0;
                    assert(seqs == t.deep_view());
                    assert(seqs.contains_key(channel@) && seqs[channel@] == *last);
                    *last + 1
                },
                None => 0,
            },
            None => self.message_log.len(channel),
        }
    }

    /// React to the news that this node joined a community at its own server.
    pub fn handle_community_joined_with(
        &mut self,
        community_pk: [u8; 32],
        community_id: String,
        stored: Stored,
        fresh: CommunityId,
        now: Timestamp,
    ) -> (r: Vec<Effect>)
        ensures
            final(self).deep_view() == joined_state(
                old(self).deep_view(),
                community_pk@,
                community_id@,
                stored.deep_view(),
                fresh,
                now,
            ),
            r.deep_view() == joined_effects(
                old(self).deep_view(),
                community_id@,
                stored.deep_view(),
            ),
    {
        let ghost s = old(self).deep_view();
        let ghost sv = stored.deep_view();
        let mut out = no_effects();
        emit(
            &mut out,
            Effect::Command(NetworkCommand::Subscribe(topic_of_community(community_id.as_str()))),
        );
        if !self.communities.contains_key(community_id.as_str()) {
            match stored {
                Stored::Nothing => {},
                Stored::Manifest(m) => {
                    self.communities.insert(community_id.as_str(), m);
                    emit(&mut out, Effect::Save(TableFile::Communities));
                },
                Stored::Placeholder => {
                    let id = match CommunityId::from_string(community_id.as_str()) {
                        Some(id) => id,
                        None => fresh,
                    };
                    let admin_ids: Vec<UserId> = Vec::new();
                    let channel_ids: Vec<ChannelId> = Vec::new();
                    let seed_nodes: Vec<String> = Vec::new();
                    let signature: Vec<u8> = vec![0u8; 64];
                    let p = SignedManifest {
                        manifest: CommunityManifest {
                            id,
                            name: text("Syncing..."),
                            description: String::new(),
                            public_key: community_pk,
                            created_at: now,
                            admin_ids,
                            channel_ids,
                            seed_nodes,
                            version: 0,
                            deleted: false,
                        },
                        signature,
                    };
                    proof {
                        let want = placeholder(community_id@, community_pk@, fresh, now);
                        assert(p.deep_view().signature =~= want.signature);
                        assert(p.deep_view().manifest.admin_ids =~= want.manifest.admin_ids);
                        assert(p.deep_view().manifest.channel_ids =~= want.manifest.channel_ids);
                        assert(p.deep_view().manifest.seed_nodes =~= want.manifest.seed_nodes);
                        assert(p.deep_view().manifest.description =~= want.manifest.description);
                    }
                    self.communities.insert(community_id.as_str(), p);
                    add_text(&mut self.pending_manifest_syncs, community_id.as_str());
                },
            }
        }
        assert(out.deep_view() =~= joined_effects(s, community_id@, sv));
        out
    }

    /// React to the news that this node joined a community at its own server.
    pub fn handle_community_joined(
        &mut self,
        community_pk: [u8; 32],
        community_id: String,
        stored: Stored,
    ) -> (r: Vec<Effect>)
        ensures
            join_noted(
                old(self).deep_view(),
                final(self).deep_view(),
                community_pk@,
                community_id@,
                stored.deep_view(),
                r.deep_view(),
            ),
    {
        let fresh = CommunityId::new();
        let now = Timestamp::now();
        self.handle_community_joined_with(community_pk, community_id, stored, fresh, now)
    }

    /// The channel key that a manifest delivers to the local user.
    pub fn unwrap_own_key(&self, m: &ChannelManifest) -> (r: Option<[u8; 32]>)
        ensures
            match r {
                Some(k) => delivered_key(self.deep_view(), m.deep_view()) == Some(k@),
                None => delivered_key(self.deep_view(), m.deep_view()) is None,
            },
    {
        match m.key_for(&self.local.user_id()) {
            Some(wrapped) => match ChannelKey::decrypt_for_self(
                self.local.x25519_secret(),
                wrapped.as_slice(),
            ) {
                Ok(k) => Some(*k.as_bytes()),
                Err(_) => None,
            },
            None => None,
        }
    }

    /// Store a channel manifest that was broadcast, and the key that it
    /// delivers to the local user; with a key, ask for the missing history.
    #[verifier::rlimit(60)]
    pub fn handle_channel_manifest(
        &mut self,
        manifest: ChannelManifest,
        last_seqs: &Option<Table<u64>>,
    ) -> (r: Vec<Effect>)
        requires
            seqs_can_grow(last_seqs.deep_view()),
        ensures
            final(self).deep_view() == broadcast_applied(
                old(self).deep_view(),
                manifest.deep_view(),
            ),
            r.deep_view() == broadcast_effects(
                old(self).deep_view(),
                manifest.deep_view(),
                last_seqs.deep_view(),
            ),
    {
        broadcast use array_deep_view;

        let ghost s = old(self).deep_view();
        let ghost m = manifest.deep_view();
        let ghost seqs = last_seqs.deep_view();
        let channel = manifest.id.to_string();
        let community = manifest.community_id.to_string();
        let pk: [u8; 32] = match self.communities.get(community.as_str()) {
            Some(signed) => signed.manifest.public_key,
            None => {
                return no_effects();
            },
        };
        let key = self.unwrap_own_key(&manifest);
        self.channels.insert(channel.as_str(), manifest);
        let mut out = no_effects();
        emit(&mut out, Effect::Save(TableFile::Channels));
        if let Some(k) = key {
            self.retain_key(channel.as_str(), &k, &mut out);
            self.channel_keys.insert(channel.as_str(), k);
            emit(&mut out, Effect::Save(TableFile::ChannelKeys));
            assert(peers_of(self.deep_view(), community@) == peers_of(s, community@));
            if let Some(peer_id) = self.peer_for_sync(community.as_str()) {
                let since_seq: u64 = self.history_gap(last_seqs, channel.as_str());
                push_sync(&mut out, channel.as_str(), false);
                emit(
                    &mut out,
                    Effect::Command(
                        NetworkCommand::FetchChannelHistory {
                            peer_id,
                            community_id: community.clone(),
                            community_pk: pk,
                            channel_id: channel.clone(),
                            since_seq,
                        },
                    ),
                );
            }
        }
        emit(
            &mut out,
            Effect::Store(
                StoreUpdate::SyncChannel {
                    community_id: community,
                    channel_id: channel.clone(),
                    with_key: false,
                },
            ),
        );
        emit(
            &mut out,
            Effect::Command(NetworkCommand::Subscribe(topic_of_channel(channel.as_str()))),
        );
        assert(out.deep_view() =~= broadcast_effects(s, m, seqs));
        out
    }

    /// Forget a community and tell clients why.
    pub fn forget_community(&mut self, community_id: String, version: u64, reason: String) -> (r:
        Vec<Effect>)
        ensures
            final(self).deep_view() == without_community(old(self).deep_view(), community_id@),
            forgotten(old(self).deep_view(), community_id@, version, reason@, r.deep_view()),
    {
        let ghost s = old(self).deep_view();
        let ghost cid = community_id@;
        let ghost why = reason@;
        let mut out = self.remove_community_local(community_id.as_str());
        let ghost names = choose|names: Seq<Seq<char>>|
            names.to_set() == s.channels_of(cid) && out.deep_view()
                == #[trigger] crate::api::removal_effects(s, cid, names);
        emit(
            &mut out,
            Effect::Push(
                PushEvent::CommunityDeleted(CommunityEventData { community_id, version, reason }),
            ),
        );
        assert(out.deep_view() =~= crate::api::removal_effects(s, cid, names) + seq![
            gone_push(cid, version, why),
        ]);
        out
    }

    /// Apply a manifest update that came in from `source`. `parsed` holds the
    /// seed addresses that are well formed.
    #[verifier::rlimit(80)]
    pub fn handle_manifest_update(
        &mut self,
        signed: SignedManifest,
        source: Option<String>,
        parsed: &Table<NodeAddr>,
    ) -> (r: Vec<Effect>)
        ensures
            update_handled(
                old(self).deep_view(),
                final(self).deep_view(),
                signed.deep_view(),
                source.deep_view(),
                parsed.deep_view(),
                r.deep_view(),
            ),
    {
        broadcast use array_deep_view;

        let ghost s = old(self).deep_view();
        let ghost m = signed.deep_view();
        let ghost src = source.deep_view();
        let ghost addrs = parsed.deep_view();
        if !signed.verify() {
            return no_effects();
        }
        let community = signed.manifest.id.to_string();
        let version: u64 = signed.manifest.version;
        let (added, dropped, moves): (Vec<ChannelId>, Vec<ChannelId>, bool) =
            match self.communities.get(community.as_str()) {
            Some(current) => {
                if version <= current.manifest.version {
                    return no_effects();
                }
                if current.manifest.version > 0 && !same_array(
                    &current.manifest.public_key,
                    &signed.manifest.public_key,
                ) {
                    return no_effects();
                }
                (
                    missing_ids(&signed.manifest.channel_ids, &current.manifest.channel_ids),
                    missing_ids(&current.manifest.channel_ids, &signed.manifest.channel_ids),
                    moves_seed(&current.manifest.seed_nodes, &signed.manifest.seed_nodes),
                )
            },
            None => {
                return no_effects();
            },
        };
        if signed.manifest.deleted {
            let reason = String::new();
            assert(reason@ =~= Seq::<char>::empty());
            return self.forget_community(community, version, reason);
        }
        let pk: [u8; 32] = signed.manifest.public_key;
        let seed = first_seed_text(&signed.manifest.seed_nodes);
        self.communities.insert(community.as_str(), signed);
        let mut out = no_effects();
        emit(&mut out, Effect::Save(TableFile::Communities));
        emit(
            &mut out,
            Effect::Store(StoreUpdate::SyncManifest { community_id: community.clone() }),
        );
        subscribe_channels(&mut out, &channel_texts(&added));
        let names = channel_texts(&dropped);
        remove_all(&mut self.channels, &names);
        drop_channels(&mut out, community.as_str(), &names);
        match source {
            Some(peer_id) => {
                emit(
                    &mut out,
                    Effect::Command(
                        NetworkCommand::FetchManifest {
                            peer_id,
                            community_id: community.clone(),
                            community_pk: pk,
                        },
                    ),
                );
            },
            None => {
                add_text(&mut self.pending_manifest_syncs, community.as_str());
            },
        }
        if moves {
            if let Some(addr) = parsed.get(seed.as_str()) {
                let join_community_password: Option<String> = match self.hosting_passwords.get(
                    community.as_str(),
                ) {
                    Some(p) => Some(p.clone()),
                    None => None,
                };
                let cert_fingerprint: [u8; 32] = match self.seed_fingerprints.get(seed.as_str()) {
                    Some(f) => *f,
                    None => [0u8; 32],
                };
                assert(cert_fingerprint@ =~= fingerprint_for(None, s.seed_fingerprints, seed@));
                if !is_zero(&cert_fingerprint) {
                    emit(
                        &mut out,
                        Effect::Command(
                            NetworkCommand::Dial {
                                addr: *addr,
                                is_seed: true,
                                join_community: Some(
                                    CommunityRef { pk, id: community.clone() },
                                ),
                                join_community_password,
                                cert_fingerprint,
                            },
                        ),
                    );
                }
            }
        }
        push_updated(&mut out, community.as_str(), version);
        proof {
            assert(self.deep_view() == update_applied(s, m, src));
            assert(out.deep_view() =~= update_effects(s, m, src, addrs));
        }
        out
    }

    /// Handle an event that came in on a community topic.
    pub fn handle_community_message(
        &mut self,
        event: NetworkEvent,
        source: Option<String>,
        last_seqs: &Option<Table<u64>>,
        parsed: &Table<NodeAddr>,
    ) -> (r: Vec<Effect>)
        requires
            seqs_can_grow(last_seqs.deep_view()),
        ensures
            community_event_handled(
                old(self).deep_view(),
                final(self).deep_view(),
                event.deep_view(),
                source.deep_view(),
                last_seqs.deep_view(),
                parsed.deep_view(),
                r.deep_view(),
            ),
    {
        match event {
            NetworkEvent::ChannelManifestBroadcast(p) => self.handle_channel_manifest(
                p.manifest,
                last_seqs,
            ),
            NetworkEvent::ManifestUpdate(m) => self.handle_manifest_update(m, source, parsed),
            NetworkEvent::MemberJoined(record) => self.handle_member_joined(record),
            NetworkEvent::MemberLeft(p) => self.handle_member_left(p),
            NetworkEvent::MemberRoleUpdated(p) => self.handle_member_role_updated(p),
            NetworkEvent::PresenceHeartbeat(p) => self.handle_presence_heartbeat(p),
            _ => no_effects(),
        }
    }
}

/// What an event on a community topic leads to.
pub open spec fn community_event_handled(
    s: AppStateView,
    after: AppStateView,
    event: NetworkEventView,
    source: Option<Seq<char>>,
    last_seqs: Option<Map<Seq<char>, u64>>,
    parsed: Map<Seq<char>, NodeAddr>,
    fx: Seq<EffectView>,
) -> bool {
    match event {
        NetworkEventView::ChannelManifestBroadcast(m) => after == broadcast_applied(s, m) && fx
            == broadcast_effects(s, m, last_seqs),
        NetworkEventView::ManifestUpdate(m) => update_handled(s, after, m, source, parsed, fx),
        NetworkEventView::MemberJoined(m) => member_joined(s, after, m, fx),
        NetworkEventView::MemberLeft { user_id, community_id, signature, .. } => member_left(
            s,
            after,
            user_id,
            community_id,
            signature,
            fx,
        ),
        NetworkEventView::MemberRoleUpdated { user_id, community_id, new_role, signature, .. } => {
            role_changed(s, after, user_id, community_id, new_role, signature, fx)
        },
        NetworkEventView::PresenceHeartbeat { user_id, status, timestamp, signature } => {
            heartbeat_handled(s, after, user_id, status, timestamp, signature, fx)
        },
        _ => after == s && fx.len() == 0,
    }
}

/// Once an update is applied, it and every older one change nothing.
pub proof fn manifests_only_move_forward(
    s: AppStateView,
    m: SignedManifestView,
    older: SignedManifestView,
    source: Option<Seq<char>>,
)
    requires
        update_accepted(s, m),
        older.manifest.id.name() == m.manifest.id.name(),
        older.manifest.version <= m.manifest.version,
    ensures
        !update_accepted(update_applied(s, m, source), older),
{
}

/// A seed that a manifest update brings is dialled only with a pin.
pub proof fn new_seeds_are_dialled_pinned(
    s: AppStateView,
    m: SignedManifestView,
    parsed: Map<Seq<char>, NodeAddr>,
)
    ensures
        new_seed_dial(s, m, parsed).len() > 0 ==> {
            let seed = first_seed(m.manifest.seed_nodes);
            let fp = fingerprint_for(None, s.seed_fingerprints, seed);
            &&& fp != zeros(32)
            &&& new_seed_dial(s, m, parsed) == seq![
                seed_dial(
                    parsed[seed],
                    m.manifest.public_key,
                    m.manifest.id.name(),
                    hosting_password(s, m.manifest.id.name()),
                    fp,
                ),
            ]
        },
{
}

/// A manifest update under another key than the community has had changes
/// nothing, and no update ever changes that key: what is stored afterwards still
/// stands under it.
pub proof fn updates_keep_the_creator_key(
    s: AppStateView,
    after: AppStateView,
    m: SignedManifestView,
    source: Option<Seq<char>>,
    parsed: Map<Seq<char>, NodeAddr>,
    fx: Seq<EffectView>,
    community: Seq<char>,
)
    requires
        update_handled(s, after, m, source, parsed, fx),
        s.communities.contains_key(community),
        s.communities[community].manifest.version > 0,
    ensures
        community == m.manifest.id.name() && m.manifest.public_key
            != s.communities[community].manifest.public_key ==> after == s && fx.len() == 0,
        after.communities.contains_key(community) ==> {
            &&& after.communities[community].manifest.public_key
                == s.communities[community].manifest.public_key
            &&& after.communities[community].manifest.version
                >= s.communities[community].manifest.version
        },
{
}

/// A channel key that was in use before a broadcast delivered another one stays
/// at hand as the previous key.
pub proof fn broadcasts_retain_the_old_key(s: AppStateView, m: ChannelManifestView)
    requires
        s.communities.contains_key(m.community_id.name()),
        s.channel_keys.contains_key(m.id.name()),
        delivered_key(s, m) matches Some(k) && k != s.channel_keys[m.id.name()],
    ensures
        ({
            let t = broadcast_applied(s, m);
            &&& t.channel_keys[m.id.name()] == delivered_key(s, m)->0
            &&& t.previous_channel_keys[m.id.name()] == s.channel_keys[m.id.name()]
        }),
{
}

/// A member for whom the creator wrapped a channel's key holds that key once the
/// channel manifest was broadcast to them.
pub proof fn shared_keys_arrive(
    s: AppStateView,
    m: ChannelManifestView,
    key: Seq<u8>,
    w: Seq<u8>,
)
    requires
        s.communities.contains_key(m.community_id.name()),
        x25519_secret_of(s.local.key).len() == 32,
        member_key(m.encrypted_channel_key, s.local.user_id) == Some(w),
        delivers(key, x25519_public_key(x25519_secret_of(s.local.key)), w),
    ensures
        broadcast_applied(s, m).channel_keys.contains_key(m.id.name()),
        broadcast_applied(s, m).channel_keys[m.id.name()] == key,
{
    assert(unwrapped_key(x25519_secret_of(s.local.key), w) == Ok::<Seq<u8>, CryptoError>(key));
}

/// A node without an entry in the broadcast learns no key from it.
pub proof fn relays_learn_no_key(s: AppStateView, m: ChannelManifestView)
    requires
        member_key(m.encrypted_channel_key, s.local.user_id) is None,
    ensures
        broadcast_applied(s, m).channel_keys == s.channel_keys,
        broadcast_applied(s, m).previous_channel_keys == s.previous_channel_keys,
{
}

} // verus!
