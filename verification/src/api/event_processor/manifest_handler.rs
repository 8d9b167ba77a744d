//! A community manifest that a peer served.

use crate::api::effects::{
    emit, no_effects, Effect, EffectView, StoreUpdate, StoreUpdateView, TableFile,
};
use crate::api::event_processor::channel_handler::{
    message_received, push_sync, received_effects, sync_push,
};
use crate::api::event_processor::community_handler::{
    delivered_key, fetch_history, forgotten, key_kept, resume_point, seqs_can_grow, subscribe_all,
    subscribe_channels,
};
use crate::api::event_processor::member_handler::{
    add_wrap, channels_to_share, join_accepted, member_joined, member_joined_effects,
    member_joined_state, sharing_only_adds, wraps_open,
};
use crate::api::rpc_server::channel::{key_changes, retained};
use crate::api::rpc_server::community::{
    append_effects, own_display_name, peers_of, push_updated, updated_push,
};
use crate::api::rpc_server::member::{ban_list, is_creator};
use crate::api::types::PeerSummaryView;
use crate::api::{
    community_topic, fetch_manifest, subscribe, topic_of_community, without_community, AppState,
    AppStateView, BufferedMessage, BufferedMessageView, DmPeerInfo, DmPeerInfoView,
};
use crate::bytes::{same_array, to_array};
use crate::crypto::channel_keys::{delivers, is_wrapping};
use crate::crypto::primitives::{ed25519_public_key, x25519_public_key};
use crate::identity::x25519_secret_of;
use crate::lists::{
    array_deep_view, copy_all, has_text, remove_text, vec_deep_view, views, views_push,
    without_text,
};
use crate::model::channel::{has_member_key, ChannelManifest, ChannelManifestView};
use crate::model::community::{channel_names, channel_texts, SignedManifest, SignedManifestView};
use crate::model::membership::{new_record, MembershipRecord, MembershipRecordView, Role};
use crate::model::network_event::{
    ChannelManifestBroadcastPayload, NetworkEvent, NetworkEventView,
};
use crate::model::types::UserId;
use crate::network::network_handle::types::{
    ManifestResponse, ManifestResponseView, NetworkCommand,
};
use crate::table::{entry_in_map, has_key, lists, position, remove_all, Table};
use crate::text::{same_text, text};
use crate::time::Timestamp;
use vstd::prelude::*;

verus! {

/// The text forms of the ids of the given channels.
pub open spec fn names_of(channels: Seq<ChannelManifestView>) -> Seq<Seq<char>> {
    Seq::new(channels.len(), |i: int| channels[i].id.name())
}

/// A table of channels with the given ones added or replaced.
pub open spec fn installed(
    channels: Map<Seq<char>, ChannelManifestView>,
    list: Seq<ChannelManifestView>,
) -> Map<Seq<char>, ChannelManifestView>
    decreases list.len(),
{
    if list.len() == 0 {
        channels
    } else {
        installed(channels, list.drop_last()).insert(list.last().id.name(), list.last())
    }
}

/// Whether a channel stays: it is of another community, or still listed.
pub open spec fn stays(
    channels: Map<Seq<char>, ChannelManifestView>,
    community_id: Seq<char>,
    live: Seq<Seq<char>>,
    k: Seq<char>,
) -> bool {
    channels[k].community_id.name() != community_id || live.contains(k)
}

/// The channels without those of a community that are no longer listed.
pub open spec fn live_channels(
    channels: Map<Seq<char>, ChannelManifestView>,
    community_id: Seq<char>,
    live: Seq<Seq<char>>,
) -> Map<Seq<char>, ChannelManifestView> {
    Map::new(
        |k: Seq<char>| channels.contains_key(k) && stays(channels, community_id, live, k),
        |k: Seq<char>| channels[k],
    )
}

/// The pending manifest fetches after one of the given version came in.
pub open spec fn sync_done(
    pending: Seq<Seq<char>>,
    community_id: Seq<char>,
    version: u64,
) -> Seq<Seq<char>> {
    if version > 0 {
        without_text(pending, community_id)
    } else {
        pending
    }
}

/// The state with a manifest and its channels stored.
pub open spec fn with_manifest(
    s: AppStateView,
    m: SignedManifestView,
    channels: Seq<ChannelManifestView>,
) -> AppStateView {
    let community = m.manifest.id.name();
    AppStateView {
        communities: s.communities.insert(community, m),
        channels: live_channels(
            installed(s.channels, channels),
            community,
            channel_names(m.manifest.channel_ids),
        ),
        ..s
    }
}

/// The state with the keys taken that the given manifests deliver.
pub open spec fn keys_taken(s: AppStateView, list: Seq<ChannelManifestView>) -> AppStateView
    decreases list.len(),
{
    if list.len() == 0 {
        s
    } else {
        let before = keys_taken(s, list.drop_last());
        let channel = list.last().id.name();
        match delivered_key(s, list.last()) {
            Some(k) => AppStateView {
                channel_keys: before.channel_keys.insert(channel, k),
                previous_channel_keys: retained(before, channel, k),
                ..before
            },
            None => before,
        }
    }
}

/// The channels whose key changed when keys were taken.
pub open spec fn rotated(s: AppStateView, list: Seq<ChannelManifestView>) -> Seq<Seq<char>>
    decreases list.len(),
{
    if list.len() == 0 {
        Seq::empty()
    } else {
        let head = rotated(s, list.drop_last());
        let before = keys_taken(s, list.drop_last());
        let channel = list.last().id.name();
        match delivered_key(s, list.last()) {
            Some(k) => if key_changes(before, channel, k) {
                head.push(channel)
            } else {
                head
            },
            None => head,
        }
    }
}

/// The channel keys with those of the plain ones added that have the right
/// length and whose channel has no key yet.
pub open spec fn with_plain_keys(
    keys: Map<Seq<char>, Seq<u8>>,
    plain: Map<Seq<char>, Seq<u8>>,
) -> Map<Seq<char>, Seq<u8>> {
    Map::new(
        |k: Seq<char>| keys.contains_key(k) || (plain.contains_key(k) && plain[k].len() == 32),
        |k: Seq<char>|
            if keys.contains_key(k) {
                keys[k]
            } else {
                plain[k]
            },
    )
}

/// Whether the local node created the community of a manifest.
pub open spec fn is_own(s: AppStateView, m: SignedManifestView) -> bool {
    m.manifest.public_key == ed25519_public_key(s.local.key)
}

/// The channels whose keys are taken from a manifest response. The creator of
/// a community takes none: a peer might serve keys from before a rotation.
pub open spec fn keyed_channels(
    s: AppStateView,
    m: SignedManifestView,
    channels: Seq<ChannelManifestView>,
) -> Seq<ChannelManifestView> {
    if is_own(s, m) {
        Seq::empty()
    } else {
        channels
    }
}

/// The state after the keys of a manifest response were taken.
pub open spec fn with_keys(
    s: AppStateView,
    m: SignedManifestView,
    channels: Seq<ChannelManifestView>,
    plain: Map<Seq<char>, Seq<u8>>,
) -> AppStateView {
    let t = keys_taken(s, keyed_channels(s, m, channels));
    AppStateView { channel_keys: with_plain_keys(t.channel_keys, plain), ..t }
}

/// The state after kept messages were handled again.
pub open spec fn replayed(s: AppStateView, msgs: Seq<BufferedMessageView>) -> AppStateView
    decreases msgs.len(),
{
    if msgs.len() == 0 {
        s
    } else {
        message_received(
            replayed(s, msgs.drop_last()),
            msgs.last().topic,
            msgs.last().message,
        )
    }
}

/// What is done when kept messages are handled again.
pub open spec fn replay_effects(s: AppStateView, msgs: Seq<BufferedMessageView>) -> Seq<EffectView>
    decreases msgs.len(),
{
    if msgs.len() == 0 {
        Seq::empty()
    } else {
        replay_effects(s, msgs.drop_last()) + received_effects(
            replayed(s, msgs.drop_last()),
            msgs.last().message,
        )
    }
}

/// The state with the messages of one channel no longer kept.
pub open spec fn unbuffered(s: AppStateView, channel: Seq<char>) -> AppStateView {
    AppStateView {
        pending_rotation_messages: s.pending_rotation_messages.remove(channel),
        ..s
    }
}

/// The state after the messages that waited for new keys of the given channels
/// were handled again.
pub open spec fn drained(s: AppStateView, names: Seq<Seq<char>>) -> AppStateView
    decreases names.len(),
{
    if names.len() == 0 {
        s
    } else {
        let before = drained(s, names.drop_last());
        let c = names.last();
        if before.pending_rotation_messages.contains_key(c) {
            replayed(unbuffered(before, c), before.pending_rotation_messages[c])
        } else {
            before
        }
    }
}

/// What is done when the messages that waited for new keys are handled again.
pub open spec fn drain_effects(s: AppStateView, names: Seq<Seq<char>>) -> Seq<EffectView>
    decreases names.len(),
{
    if names.len() == 0 {
        Seq::empty()
    } else {
        let head = drain_effects(s, names.drop_last());
        let before = drained(s, names.drop_last());
        let c = names.last();
        if before.pending_rotation_messages.contains_key(c) {
            head + replay_effects(unbuffered(before, c), before.pending_rotation_messages[c])
        } else {
            head
        }
    }
}

/// Whether a channel among `names` still waits for a new key.
pub open spec fn still_waiting(
    s: AppStateView,
    names: Seq<Seq<char>>,
    rotated: Seq<Seq<char>>,
) -> bool {
    exists|i: int|
        0 <= i < names.len() && s.pending_rotation_messages.contains_key(#[trigger] names[i])
            && !rotated.contains(names[i])
}

/// Where a peer other than `from` stands, from `i` on.
pub open spec fn other_peer(peers: Seq<PeerSummaryView>, from: Seq<char>, i: int) -> Option<int>
    decreases peers.len() - i,
{
    if i < 0 || i >= peers.len() {
        None
    } else if peers[i].peer_id != from {
        Some(i)
    } else {
        other_peer(peers, from, i + 1)
    }
}

/// Ask another peer when a channel still waits for its new key.
pub open spec fn retry_effects(
    s: AppStateView,
    community_id: Seq<char>,
    community_pk: Seq<u8>,
    from: Seq<char>,
    names: Seq<Seq<char>>,
    rotated: Seq<Seq<char>>,
) -> Seq<EffectView> {
    let peers = peers_of(s, community_id);
    match other_peer(peers, from, 0) {
        Some(i) => if still_waiting(s, names, rotated) {
            seq![fetch_manifest(peers[i].peer_id, community_id, community_pk)]
        } else {
            Seq::empty()
        },
        None => Seq::empty(),
    }
}

/// A record as it is kept: the creator's roles stay as they are.
pub open spec fn settled(
    s: AppStateView,
    community_id: Seq<char>,
    m: MembershipRecordView,
) -> MembershipRecordView {
    if is_creator(s, community_id, m.user_id.name()) {
        MembershipRecordView {
            roles: s.member_list(community_id)[m.user_id.name()].roles,
            ..m
        }
    } else {
        m
    }
}

/// Whether a served record is taken: its identifier belongs to its public key,
/// and the user is not banned. The user's signature is no condition: a record
/// whose role or name has changed since still counts.
pub open spec fn record_taken(
    s: AppStateView,
    community_id: Seq<char>,
    m: MembershipRecordView,
) -> bool {
    m.owns_id() && !ban_list(s, community_id).contains(m.user_id.name())
}

/// The served records that are taken, as they are kept.
pub open spec fn taken_members(
    s: AppStateView,
    community_id: Seq<char>,
    members: Seq<MembershipRecordView>,
) -> Seq<MembershipRecordView>
    decreases members.len(),
{
    if members.len() == 0 {
        Seq::empty()
    } else {
        let head = taken_members(s, community_id, members.drop_last());
        if record_taken(s, community_id, members.last()) {
            head.push(settled(s, community_id, members.last()))
        } else {
            head
        }
    }
}

/// A member list with the given records added or replaced.
pub open spec fn upserted(
    list: Map<Seq<char>, MembershipRecordView>,
    members: Seq<MembershipRecordView>,
) -> Map<Seq<char>, MembershipRecordView>
    decreases members.len(),
{
    if members.len() == 0 {
        list
    } else {
        upserted(list, members.drop_last()).insert(members.last().user_id.name(), members.last())
    }
}

/// The peers that direct messages can reach, with those of the given members
/// added who were not known.
pub open spec fn acquainted(
    peers: Map<Seq<char>, DmPeerInfoView>,
    members: Seq<MembershipRecordView>,
) -> Map<Seq<char>, DmPeerInfoView>
    decreases members.len(),
{
    if members.len() == 0 {
        peers
    } else {
        let before = acquainted(peers, members.drop_last());
        let m = members.last();
        if before.contains_key(m.user_id.name()) {
            before
        } else {
            before.insert(
                m.user_id.name(),
                DmPeerInfoView {
                    display_name: m.display_name,
                    x25519_public_key: m.x25519_public_key,
                },
            )
        }
    }
}

/// The state with the members of a manifest response stored.
pub open spec fn with_members(
    s: AppStateView,
    community_id: Seq<char>,
    members: Seq<MembershipRecordView>,
) -> AppStateView {
    if members.len() == 0 {
        s
    } else {
        AppStateView {
            members: s.members.insert(
                community_id,
                upserted(s.member_list(community_id), members),
            ),
            dm_peers: acquainted(s.dm_peers, members),
            ..s
        }
    }
}

/// What is done for the members of a manifest response.
pub open spec fn members_effects(members: Seq<MembershipRecordView>) -> Seq<EffectView> {
    if members.len() == 0 {
        Seq::empty()
    } else {
        seq![EffectView::Save(TableFile::Members), EffectView::Save(TableFile::DmPeers)]
    }
}

/// A channel with its key wrapped for every listed member who had none;
/// `wraps` holds one wrapping per member.
pub open spec fn completed(
    ch: ChannelManifestView,
    order: Seq<(Seq<char>, MembershipRecordView)>,
    wraps: Seq<Seq<u8>>,
) -> ChannelManifestView
    decreases order.len(),
{
    if order.len() == 0 {
        ch
    } else {
        let before = completed(ch, order.drop_last(), wraps.drop_last());
        let user = order.last().1.user_id;
        if has_member_key(before.encrypted_channel_key, user) {
            before
        } else {
            ChannelManifestView {
                encrypted_channel_key: before.encrypted_channel_key.push((user, wraps.last())),
                ..before
            }
        }
    }
}

/// Whether every wrapping that is used opens to `key` for its member.
pub open spec fn wraps_fit(
    ch: ChannelManifestView,
    key: Seq<u8>,
    order: Seq<(Seq<char>, MembershipRecordView)>,
    wraps: Seq<Seq<u8>>,
) -> bool
    decreases order.len(),
{
    &&& wraps.len() == order.len()
    &&& order.len() > 0 ==> {
        let before = completed(ch, order.drop_last(), wraps.drop_last());
        let m = order.last().1;
        &&& wraps_fit(ch, key, order.drop_last(), wraps.drop_last())
        &&& !has_member_key(before.encrypted_channel_key, m.user_id) ==> is_wrapping(
            key,
            m.x25519_public_key,
            wraps.last(),
        ) && delivers(key, m.x25519_public_key, wraps.last())
    }
}

/// Whether a channel has more wrapped keys than before.
pub open spec fn grew(before: ChannelManifestView, after: ChannelManifestView) -> bool {
    after.encrypted_channel_key.len() > before.encrypted_channel_key.len()
}

/// Whether a channel and its key are at hand.
pub open spec fn can_complete(
    channels: Map<Seq<char>, ChannelManifestView>,
    keys: Map<Seq<char>, Seq<u8>>,
    c: Seq<char>,
) -> bool {
    keys.contains_key(c) && channels.contains_key(c)
}

/// The channels with the keys of the named ones wrapped for every member.
pub open spec fn completed_all(
    channels: Map<Seq<char>, ChannelManifestView>,
    keys: Map<Seq<char>, Seq<u8>>,
    names: Seq<Seq<char>>,
    order: Seq<(Seq<char>, MembershipRecordView)>,
    wraps: Seq<Seq<Seq<u8>>>,
) -> Map<Seq<char>, ChannelManifestView>
    decreases names.len(),
{
    if names.len() == 0 {
        channels
    } else {
        let before = completed_all(channels, keys, names.drop_last(), order, wraps.drop_last());
        let c = names.last();
        if can_complete(before, keys, c) {
            before.insert(c, completed(before[c], order, wraps.last()))
        } else {
            before
        }
    }
}

/// Whether every wrapping that is used for the named channels opens.
pub open spec fn all_wraps_fit(
    channels: Map<Seq<char>, ChannelManifestView>,
    keys: Map<Seq<char>, Seq<u8>>,
    names: Seq<Seq<char>>,
    order: Seq<(Seq<char>, MembershipRecordView)>,
    wraps: Seq<Seq<Seq<u8>>>,
) -> bool
    decreases names.len(),
{
    &&& wraps.len() == names.len()
    &&& names.len() > 0 ==> {
        let before = completed_all(channels, keys, names.drop_last(), order, wraps.drop_last());
        let c = names.last();
        &&& all_wraps_fit(channels, keys, names.drop_last(), order, wraps.drop_last())
        &&& can_complete(before, keys, c) ==> wraps_fit(before[c], keys[c], order, wraps.last())
    }
}

/// Announce each channel for which keys were wrapped.
pub open spec fn completed_broadcasts(
    community_id: Seq<char>,
    channels: Map<Seq<char>, ChannelManifestView>,
    keys: Map<Seq<char>, Seq<u8>>,
    names: Seq<Seq<char>>,
    order: Seq<(Seq<char>, MembershipRecordView)>,
    wraps: Seq<Seq<Seq<u8>>>,
) -> Seq<EffectView>
    decreases names.len(),
{
    if names.len() == 0 {
        Seq::empty()
    } else {
        let head = completed_broadcasts(
            community_id,
            channels,
            keys,
            names.drop_last(),
            order,
            wraps.drop_last(),
        );
        let before = completed_all(channels, keys, names.drop_last(), order, wraps.drop_last());
        let c = names.last();
        let after = completed(before[c], order, wraps.last());
        if can_complete(before, keys, c) && grew(before[c], after) {
            head.push(
                EffectView::Publish {
                    topic: community_topic(community_id),
                    event: NetworkEventView::ChannelManifestBroadcast(after),
                },
            )
        } else {
            head
        }
    }
}

/// Announce and, where there is anything new, save the channels.
pub open spec fn completed_effects(
    community_id: Seq<char>,
    channels: Map<Seq<char>, ChannelManifestView>,
    keys: Map<Seq<char>, Seq<u8>>,
    names: Seq<Seq<char>>,
    order: Seq<(Seq<char>, MembershipRecordView)>,
    wraps: Seq<Seq<Seq<u8>>>,
) -> Seq<EffectView> {
    let head = completed_broadcasts(community_id, channels, keys, names, order, wraps);
    if head.len() > 0 {
        head.push(EffectView::Save(TableFile::Channels))
    } else {
        head
    }
}

/// The roles of the local user in a community: admin if the manifest says so,
/// else those on record.
pub open spec fn own_roles(s: AppStateView, m: SignedManifestView) -> Seq<Role> {
    if m.manifest.admin_ids.contains(s.local.user_id) {
        seq![Role::Admin]
    } else {
        s.member_list(m.manifest.id.name())[s.me()].roles
    }
}

/// The record by which the local user announces itself.
pub open spec fn own_announcement(
    s: AppStateView,
    m: SignedManifestView,
    now: Timestamp,
) -> MembershipRecordView {
    new_record(
        s.local.key,
        s.local.user_id,
        m.manifest.id,
        own_display_name(s, s.me()),
        now,
        own_roles(s, m),
        ed25519_public_key(s.local.key),
        x25519_public_key(x25519_secret_of(s.local.key)),
    )
}

/// Whether the local user, if a member, announced itself: `fx` is what was
/// done.
pub open spec fn announced(
    s: AppStateView,
    after: AppStateView,
    m: SignedManifestView,
    now: Timestamp,
    fx: Seq<EffectView>,
) -> bool {
    let community = m.manifest.id.name();
    if s.member_list(community).contains_key(s.me()) {
        let record = own_announcement(s, m, now);
        &&& fx.len() > 0
        &&& fx.last() == (EffectView::Publish {
            topic: community_topic(community),
            event: NetworkEventView::MemberJoined(record),
        })
        &&& member_joined(s, after, record, fx.drop_last())
    } else {
        after == s && fx.len() == 0
    }
}

/// Ask for the missing history of each named channel with a key.
pub open spec fn catch_up(
    s: AppStateView,
    from: Seq<char>,
    community_id: Seq<char>,
    community_pk: Seq<u8>,
    names: Seq<Seq<char>>,
    last_seqs: Option<Map<Seq<char>, u64>>,
) -> Seq<EffectView>
    decreases names.len(),
{
    if names.len() == 0 {
        Seq::empty()
    } else {
        let head = catch_up(s, from, community_id, community_pk, names.drop_last(), last_seqs);
        let c = names.last();
        if s.channel_keys.contains_key(c) {
            head + seq![
                sync_push(c, false),
                fetch_history(
                    from,
                    community_id,
                    community_pk,
                    c,
                    resume_point(s, last_seqs, c),
                ),
            ]
        } else {
            head
        }
    }
}

/// Whether some named channel has no key.
pub open spec fn lacks_key(keys: Map<Seq<char>, Seq<u8>>, names: Seq<Seq<char>>) -> bool {
    exists|i: int| 0 <= i < names.len() && !keys.contains_key(#[trigger] names[i])
}

/// Save the keys that were taken.
pub open spec fn key_saves(rotated: Seq<Seq<char>>) -> Seq<EffectView> {
    if rotated.len() > 0 {
        seq![
            EffectView::Save(TableFile::ChannelKeys),
            EffectView::Save(TableFile::PreviousChannelKeys),
        ]
    } else {
        seq![EffectView::Save(TableFile::ChannelKeys)]
    }
}

impl ManifestResponseView {
    /// The community in question.
    pub open spec fn community(self) -> Seq<char> {
        self.manifest.manifest.id.name()
    }

    /// The names of the channels in the response.
    pub open spec fn names(self) -> Seq<Seq<char>> {
        names_of(self.channels)
    }

    /// The state in which the response is taken up.
    pub open spec fn begun(self, s: AppStateView) -> AppStateView {
        AppStateView {
            pending_manifest_syncs: sync_done(
                s.pending_manifest_syncs,
                self.community(),
                self.manifest.manifest.version,
            ),
            ..s
        }
    }

    /// The state with the manifest and the channels stored.
    pub open spec fn stored(self, s: AppStateView) -> AppStateView {
        with_manifest(self.begun(s), self.manifest, self.channels)
    }

    /// The channels whose key changed.
    pub open spec fn rotated(self, s: AppStateView) -> Seq<Seq<char>> {
        rotated(
            self.stored(s),
            keyed_channels(self.stored(s), self.manifest, self.channels),
        )
    }

    /// The state with the keys taken as well.
    pub open spec fn keyed(self, s: AppStateView) -> AppStateView {
        with_keys(self.stored(s), self.manifest, self.channels, self.channel_keys)
    }

    /// The state after waiting messages were handled again.
    pub open spec fn caught_up(self, s: AppStateView) -> AppStateView {
        drained(self.keyed(s), self.rotated(s))
    }

    /// The members that are taken.
    pub open spec fn people(self, s: AppStateView) -> Seq<MembershipRecordView> {
        taken_members(self.caught_up(s), self.community(), self.members)
    }

    /// The state with the members stored as well.
    pub open spec fn peopled(self, s: AppStateView) -> AppStateView {
        with_members(self.caught_up(s), self.community(), self.people(s))
    }

    /// The state after the creator wrapped keys for members who had none.
    pub open spec fn shared(
        self,
        s: AppStateView,
        order: Seq<(Seq<char>, MembershipRecordView)>,
        wraps: Seq<Seq<Seq<u8>>>,
    ) -> AppStateView {
        let t = self.peopled(s);
        if is_own(s, self.manifest) {
            AppStateView {
                channels: completed_all(t.channels, t.channel_keys, self.names(), order, wraps),
                ..t
            }
        } else {
            t
        }
    }

    /// What is done up to the storing of the members.
    pub open spec fn first_effects(self, s: AppStateView) -> Seq<EffectView> {
        seq![EffectView::Save(TableFile::Communities), EffectView::Save(TableFile::Channels)]
            + key_saves(self.rotated(s)) + drain_effects(self.keyed(s), self.rotated(s))
            + retry_effects(
            self.caught_up(s),
            self.community(),
            self.manifest.manifest.public_key,
            self.from,
            self.names(),
            self.rotated(s),
        ) + seq![
            EffectView::Store(
                StoreUpdateView::ReplaceCommunity {
                    community_id: self.community(),
                    channels: self.channels,
                    members: self.people(s),
                },
            ),
        ] + members_effects(self.people(s))
    }

    /// What is done for keys that members lacked.
    pub open spec fn share_effects(
        self,
        s: AppStateView,
        order: Seq<(Seq<char>, MembershipRecordView)>,
        wraps: Seq<Seq<Seq<u8>>>,
    ) -> Seq<EffectView> {
        let t = self.peopled(s);
        if is_own(s, self.manifest) {
            completed_effects(
                self.community(),
                t.channels,
                t.channel_keys,
                self.names(),
                order,
                wraps,
            )
        } else {
            Seq::empty()
        }
    }

    /// What is done at the end, in the state `after`.
    pub open spec fn last_effects(
        self,
        s: AppStateView,
        after: AppStateView,
        last_seqs: Option<Map<Seq<char>, u64>>,
    ) -> Seq<EffectView> {
        let history = if lacks_key(self.keyed(s).channel_keys, self.names()) {
            Seq::empty()
        } else {
            catch_up(
                after,
                self.from,
                self.community(),
                self.manifest.manifest.public_key,
                self.names(),
                last_seqs,
            )
        };
        seq![updated_push(self.community(), self.manifest.manifest.version)] + history
    }

    /// Whether the response was applied, with keys wrapped for the members in
    /// the given order and under the given wrappings, and `own_fx` done to
    /// announce the local user.
    pub open spec fn applied(
        self,
        s: AppStateView,
        after: AppStateView,
        now: Timestamp,
        last_seqs: Option<Map<Seq<char>, u64>>,
        order: Seq<(Seq<char>, MembershipRecordView)>,
        wraps: Seq<Seq<Seq<u8>>>,
        own_fx: Seq<EffectView>,
        fx: Seq<EffectView>,
    ) -> bool {
        let t = self.peopled(s);
        &&& is_own(s, self.manifest) ==> lists(order, t.member_list(self.community()))
            && all_wraps_fit(t.channels, t.channel_keys, self.names(), order, wraps)
        &&& announced(self.shared(s, order, wraps), after, self.manifest, now, own_fx)
        &&& fx == self.first_effects(s) + self.share_effects(s, order, wraps) + subscribe_all(
            self.names(),
        ) + seq![subscribe(community_topic(self.community()))] + own_fx + self.last_effects(
            s,
            after,
            last_seqs,
        )
    }

    /// What the response leads to. A manifest that is not signed, or that stands
    /// under another key than its community has had, is discarded.
    pub open spec fn handled(
        self,
        s: AppStateView,
        after: AppStateView,
        now: Timestamp,
        last_seqs: Option<Map<Seq<char>, u64>>,
        fx: Seq<EffectView>,
    ) -> bool {
        if !self.manifest.valid() || !key_kept(s, self.manifest) {
            after == s && fx.len() == 0
        } else if self.manifest.manifest.deleted {
            after == without_community(self.begun(s), self.community()) && forgotten(
                self.begun(s),
                self.community(),
                self.manifest.manifest.version,
                Seq::empty(),
                fx,
            )
        } else {
            exists|
                order: Seq<(Seq<char>, MembershipRecordView)>,
                wraps: Seq<Seq<Seq<u8>>>,
                own_fx: Seq<EffectView>,
            |
                #[trigger] self.applied(s, after, now, last_seqs, order, wraps, own_fx, fx)
        }
    }
}

impl ManifestResponseView {
    /// What the response leads to at some time.
    pub open spec fn taken_up(
        self,
        s: AppStateView,
        after: AppStateView,
        last_seqs: Option<Map<Seq<char>, u64>>,
        fx: Seq<EffectView>,
    ) -> bool {
        exists|now: Timestamp| #[trigger] self.handled(s, after, now, last_seqs, fx)
    }
}

/// The text forms of the ids of the given channels.
pub fn channel_ids_of(channels: &Vec<ChannelManifest>) -> (r: Vec<String>)
    ensures
        r.deep_view() == names_of(channels.deep_view()),
{
    broadcast use vec_deep_view, views_push;

    let ghost all = views(channels@);
    let mut out: Vec<String> = Vec::new();
    let mut i: usize = 0;
    while i < channels.len()
        invariant
            i <= channels@.len(),
            all == views(channels@),
            views(out@) == names_of(all).subrange(0, i as int),
        decreases channels@.len() - i,
    {
        out.push(channels[i].id.to_string());
        i += 1;
        assert(names_of(all).subrange(0, i as int) =~= names_of(all).subrange(0, i - 1).push(
            all[i - 1].id.name(),
        ));
    }
    assert(views(out@) =~= names_of(all));
    out
}

/// A copy of a list of channels.
pub fn copy_channels(channels: &Vec<ChannelManifest>) -> (r: Vec<ChannelManifest>)
    ensures
        r.deep_view() == channels.deep_view(),
{
    broadcast use vec_deep_view, views_push;

    let ghost all = views(channels@);
    let mut out: Vec<ChannelManifest> = Vec::new();
    let mut i: usize = 0;
    while i < channels.len()
        invariant
            i <= channels@.len(),
            all == views(channels@),
            views(out@) == all.subrange(0, i as int),
        decreases channels@.len() - i,
    {
        out.push(channels[i].clone());
        i += 1;
        assert(all.subrange(0, i as int) =~= all.subrange(0, i - 1).push(all[i - 1]));
    }
    assert(views(out@) =~= all);
    out
}

/// A copy of a list of members.
pub fn copy_records(members: &Vec<MembershipRecord>) -> (r: Vec<MembershipRecord>)
    ensures
        r.deep_view() == members.deep_view(),
{
    broadcast use vec_deep_view, views_push;

    let ghost all = views(members@);
    let mut out: Vec<MembershipRecord> = Vec::new();
    let mut i: usize = 0;
    while i < members.len()
        invariant
            i <= members@.len(),
            all == views(members@),
            views(out@) == all.subrange(0, i as int),
        decreases members@.len() - i,
    {
        out.push(members[i].clone());
        i += 1;
        assert(all.subrange(0, i as int) =~= all.subrange(0, i - 1).push(all[i - 1]));
    }
    assert(views(out@) =~= all);
    out
}

impl AppState {
    /// Drop the channels of a community that are no longer listed.
    fn retain_live(&mut self, community_id: &str, live: &Vec<String>)
        ensures
            final(self).deep_view() == (AppStateView {
                channels: live_channels(
                    old(self).deep_view().channels,
                    community_id@,
                    live.deep_view(),
                ),
                ..old(self).deep_view()
            }),
    {
        broadcast use vec_deep_view, views_push;

        let ghost s = old(self).deep_view();
        let ghost order = self.channels.order();
        let ghost lv = live.deep_view();
        let n: usize = self.channels.len();
        let mut stale: Vec<String> = Vec::new();
        let mut i: usize = 0;
        while i < n
            invariant
                i <= n,
                n == order.len(),
                order == self.channels.order(),
                lists(order, s.channels),
                self.deep_view() == s,
                lv == live.deep_view(),
                forall|k: Seq<char>|
                    #[trigger] views(stale@).contains(k) <==> exists|j: int|
                        0 <= j < i && (#[trigger] order[j]).0 == k && !stays(
                            s.channels,
                            community_id@,
                            lv,
                            k,
                        ),
            decreases n - i,
        {
            let k = self.channels.key_at(i);
            let ch = self.channels.value_at(i);
            let ghost before = views(stale@);
            let ghost key = order[i as int].0;
            proof {
                entry_in_map(order, i as int);
                assert(s.channels[key] == order[i as int].1);
            }
            let gone = same_text(ch.community_id.to_string().as_str(), community_id) && !has_text(
                live,
                k.as_str(),
            );
            if gone {
                stale.push(k.clone());
            }
            proof {
                assert(gone == !stays(s.channels, community_id@, lv, key));
                assert forall|q: Seq<char>| #[trigger] views(stale@).contains(q) <==> exists|j: int|
                    0 <= j < i + 1 && (#[trigger] order[j]).0 == q && !stays(
                        s.channels,
                        community_id@,
                        lv,
                        q,
                    ) by {
                    if gone {
                        assert(views(stale@) == before.push(key));
                        assert(views(stale@)[before.len() as int] == key);
                        if before.contains(q) {
                            assert(views(stale@)[before.index_of(q)] == q);
                        }
                        if views(stale@).contains(q) && q != key {
                            assert(before[views(stale@).index_of(q)] == q);
                        }
                        if q == key {
                            assert(order[i as int].0 == q);
                        }
                    }
                    if exists|j: int|
                        0 <= j < i + 1 && (#[trigger] order[j]).0 == q && !stays(
                            s.channels,
                            community_id@,
                            lv,
                            q,
                        ) {
                        let j = choose|j: int|
                            0 <= j < i + 1 && (#[trigger] order[j]).0 == q && !stays(
                                s.channels,
                                community_id@,
                                lv,
                                q,
                            );
                        if j < i {
                            assert(before.contains(q));
                        }
                    }
                }
            }
            i += 1;
        }
        remove_all(&mut self.channels, &stale);
        proof {
            let want = live_channels(s.channels, community_id@, lv);
            assert forall|k: Seq<char>| s.channels.contains_key(k) implies (views(stale@).contains(
                k,
            ) <==> !stays(s.channels, community_id@, lv, k)) by {
                let j = position(order, k);
                assert(has_key(order, k));
                assert(order[j].0 == k);
            }
            assert(self.deep_view().channels =~= want);
        }
    }

    /// Store a manifest and the given channels.
    fn store_manifest(&mut self, signed: &SignedManifest, channels: &Vec<ChannelManifest>)
        ensures
            final(self).deep_view() == with_manifest(
                old(self).deep_view(),
                signed.deep_view(),
                channels.deep_view(),
            ),
    {
        broadcast use vec_deep_view;

        let ghost s = old(self).deep_view();
        let ghost all = views(channels@);
        let community = signed.manifest.id.to_string();
        self.communities.insert(community.as_str(), signed.clone());
        let ghost mid = self.deep_view();
        let n: usize = channels.len();
        let mut i: usize = 0;
        while i < n
            invariant
                i <= n,
                n == channels@.len(),
                all == views(channels@),
                mid.channels == s.channels,
                self.deep_view() == (AppStateView {
                    channels: installed(s.channels, all.subrange(0, i as int)),
                    ..mid
                }),
            decreases n - i,
        {
            assert(all.subrange(0, i + 1).drop_last() =~= all.subrange(0, i as int));
            let ch = &channels[i];
            self.channels.insert(ch.id.to_string().as_str(), ch.clone());
            i += 1;
        }
        assert(all.subrange(0, all.len() as int) =~= all);
        let live = channel_texts(&signed.manifest.channel_ids);
        self.retain_live(community.as_str(), &live);
    }

    /// Take the keys that the given manifests deliver; the answer names the
    /// channels whose key changed.
    fn take_keys(&mut self, channels: &Vec<ChannelManifest>) -> (r: Vec<String>)
        ensures
            final(self).deep_view() == keys_taken(old(self).deep_view(), channels.deep_view()),
            r.deep_view() == rotated(old(self).deep_view(), channels.deep_view()),
    {
        broadcast use array_deep_view, vec_deep_view, views_push;

        let ghost s = old(self).deep_view();
        let ghost all = views(channels@);
        let mut changed: Vec<String> = Vec::new();
        let n: usize = channels.len();
        let mut i: usize = 0;
        assert(all.subrange(0, 0) =~= Seq::<ChannelManifestView>::empty());
        assert(views(changed@) =~= rotated(s, all.subrange(0, 0)));
        while i < n
            invariant
                i <= n,
                n == channels@.len(),
                all == views(channels@),
                self.deep_view() == keys_taken(s, all.subrange(0, i as int)),
                self.deep_view().local == s.local,
                views(changed@) == rotated(s, all.subrange(0, i as int)),
            decreases n - i,
        {
            let ghost prev = all.subrange(0, i as int);
            let ghost next = all.subrange(0, i + 1);
            assert(next.drop_last() =~= prev);
            let ch = &channels[i];
            assert(ch.deep_view() == next.last());
            assert(delivered_key(self.deep_view(), ch.deep_view()) == delivered_key(
                s,
                ch.deep_view(),
            ));
            if let Some(k) = self.unwrap_own_key(ch) {
                assert(k.deep_view() =~= k@);
                let name = ch.id.to_string();
                if self.keep_previous_key(name.as_str(), &k) {
                    changed.push(name.clone());
                }
                self.channel_keys.insert(name.as_str(), k);
            }
            i += 1;
        }
        assert(all.subrange(0, all.len() as int) =~= all);
        changed
    }

    /// Take plain keys of the right length for channels that have none.
    pub fn take_plain_keys(&mut self, plain: &Table<Vec<u8>>)
        ensures
            final(self).deep_view() == (AppStateView {
                channel_keys: with_plain_keys(
                    old(self).deep_view().channel_keys,
                    plain.deep_view(),
                ),
                ..old(self).deep_view()
            }),
    {
        broadcast use array_deep_view, crate::lists::bytes_deep_view;

        let ghost s = old(self).deep_view();
        let ghost order = plain.order();
        let ghost all = plain.deep_view();
        let n: usize = plain.len();
        let mut i: usize = 0;
        while i < n
            invariant
                i <= n,
                n == order.len(),
                order == plain.order(),
                all == plain.deep_view(),
                lists(order, all),
                self.deep_view() == (AppStateView {
                    channel_keys: self.deep_view().channel_keys,
                    ..s
                }),
                forall|k: Seq<char>|
                    #[trigger] self.deep_view().channel_keys.contains_key(k)
                        <==> s.channel_keys.contains_key(k) || (exists|j: int|
                        0 <= j < i && (#[trigger] order[j]).0 == k && all[k].len() == 32),
                forall|k: Seq<char>|
                    #[trigger] self.deep_view().channel_keys.contains_key(k)
                        ==> self.deep_view().channel_keys[k] == if s.channel_keys.contains_key(k) {
                        s.channel_keys[k]
                    } else {
                        all[k]
                    },
            decreases n - i,
        {
            let id = plain.key_at(i);
            let bytes = plain.value_at(i);
            let ghost before = self.deep_view().channel_keys;
            proof {
                entry_in_map(order, i as int);
                assert(bytes.deep_view() == bytes@);
                assert(all[id@] == bytes@);
            }
            if !self.channel_keys.contains_key(id.as_str()) {
                if let Some(k) = to_array::<32>(bytes.as_slice()) {
                    assert(k.deep_view() =~= k@);
                    self.channel_keys.insert(id.as_str(), k);
                }
            }
            proof {
                let now = self.deep_view().channel_keys;
                assert forall|k: Seq<char>| #[trigger] now.contains_key(k)
                    <==> s.channel_keys.contains_key(k) || (exists|j: int|
                    0 <= j < i + 1 && (#[trigger] order[j]).0 == k && all[k].len() == 32) by {
                    if now.contains_key(k) && !before.contains_key(k) {
                        assert(order[i as int].0 == k);
                    }
                    if exists|j: int|
                        0 <= j < i + 1 && (#[trigger] order[j]).0 == k && all[k].len() == 32 {
                        let j = choose|j: int|
                            0 <= j < i + 1 && (#[trigger] order[j]).0 == k && all[k].len() == 32;
                        if j < i {
                            assert(before.contains_key(k));
                        }
                    }
                    if before.contains_key(k) && !s.channel_keys.contains_key(k) {
                        let j = choose|j: int|
                            0 <= j < i && (#[trigger] order[j]).0 == k && all[k].len() == 32;
                        assert(order[j].0 == k);
                    }
                }
            }
            i += 1;
        }
        proof {
            let want = with_plain_keys(s.channel_keys, all);
            assert forall|k: Seq<char>| all.contains_key(k) && all[k].len() == 32 implies exists|
                j: int,
            | 0 <= j < n && (#[trigger] order[j]).0 == k && all[k].len() == 32 by {
                let j = position(order, k);
                assert(has_key(order, k));
                assert(order[j].0 == k);
            }
            assert forall|j: int| 0 <= j < n implies all.contains_key((#[trigger] order[j]).0) by {
                entry_in_map(order, j);
            }
            assert(self.deep_view().channel_keys =~= want);
        }
    }

    /// Handle kept messages again.
    fn replay(&mut self, msgs: &Vec<BufferedMessage>, out: &mut Vec<Effect>)
        ensures
            final(self).deep_view() == replayed(old(self).deep_view(), msgs.deep_view()),
            final(out).deep_view() == old(out).deep_view() + replay_effects(
                old(self).deep_view(),
                msgs.deep_view(),
            ),
    {
        broadcast use vec_deep_view;

        let ghost s = old(self).deep_view();
        let ghost start = old(out).deep_view();
        let ghost all = views(msgs@);
        let n: usize = msgs.len();
        let mut i: usize = 0;
        assert(all.subrange(0, 0) =~= Seq::<BufferedMessageView>::empty());
        assert(start + replay_effects(s, all.subrange(0, 0)) =~= start);
        while i < n
            invariant
                i <= n,
                n == msgs@.len(),
                all == views(msgs@),
                self.deep_view() == replayed(s, all.subrange(0, i as int)),
                out.deep_view() == start + replay_effects(s, all.subrange(0, i as int)),
            decreases n - i,
        {
            let ghost next = all.subrange(0, i + 1);
            assert(next.drop_last() =~= all.subrange(0, i as int));
            assert(msgs@[i as int].deep_view() == next.last());
            let fx = self.handle_new_message(msgs[i].topic.as_str(), msgs[i].message.clone());
            append_effects(out, fx);
            assert(out.deep_view() =~= start + replay_effects(s, next));
            i += 1;
        }
        assert(all.subrange(0, all.len() as int) =~= all);
    }

    /// Handle the messages again that waited for new keys of the given
    /// channels.
    fn drain_waiting(&mut self, names: &Vec<String>, out: &mut Vec<Effect>)
        ensures
            final(self).deep_view() == drained(old(self).deep_view(), names.deep_view()),
            final(out).deep_view() == old(out).deep_view() + drain_effects(
                old(self).deep_view(),
                names.deep_view(),
            ),
    {
        broadcast use vec_deep_view;

        let ghost s = old(self).deep_view();
        let ghost start = old(out).deep_view();
        let ghost all = views(names@);
        let n: usize = names.len();
        let mut i: usize = 0;
        assert(all.subrange(0, 0) =~= Seq::<Seq<char>>::empty());
        assert(start + drain_effects(s, all.subrange(0, 0)) =~= start);
        while i < n
            invariant
                i <= n,
                n == names@.len(),
                all == views(names@),
                self.deep_view() == drained(s, all.subrange(0, i as int)),
                out.deep_view() == start + drain_effects(s, all.subrange(0, i as int)),
            decreases n - i,
        {
            let ghost next = all.subrange(0, i + 1);
            let ghost before = self.deep_view();
            assert(next.drop_last() =~= all.subrange(0, i as int));
            assert(names@[i as int].deep_view() == next.last());
            if let Some(msgs) = self.pending_rotation_messages.remove(names[i].as_str()) {
                assert(self.deep_view() == unbuffered(before, next.last()));
                self.replay(&msgs, out);
            } else {
                assert(self.deep_view().pending_rotation_messages
                    =~= before.pending_rotation_messages);
            }
            assert(out.deep_view() =~= start + drain_effects(s, next));
            i += 1;
        }
        assert(all.subrange(0, all.len() as int) =~= all);
    }

    /// Ask a peer other than `from` when a channel still waits for its key.
    fn retry_elsewhere(
        &self,
        community_id: &str,
        community_pk: [u8; 32],
        from: &str,
        names: &Vec<String>,
        rotated: &Vec<String>,
        out: &mut Vec<Effect>,
    )
        ensures
            final(out).deep_view() == old(out).deep_view() + retry_effects(
                self.deep_view(),
                community_id@,
                community_pk@,
                from@,
                names.deep_view(),
                rotated.deep_view(),
            ),
    {
        broadcast use vec_deep_view;

        let ghost s = self.deep_view();
        let ghost start = old(out).deep_view();
        let ghost all = views(names@);
        let ghost done = views(rotated@);
        let mut waiting = false;
        let mut i: usize = 0;
        while i < names.len()
            invariant
                i <= names@.len(),
                all == views(names@),
                done == views(rotated@),
                s == self.deep_view(),
                waiting == still_waiting(s, all.subrange(0, i as int), done),
            decreases names@.len() - i,
        {
            let here = self.pending_rotation_messages.contains_key(names[i].as_str()) && !has_text(
                rotated,
                names[i].as_str(),
            );
            proof {
                let prev = all.subrange(0, i as int);
                let next = all.subrange(0, i + 1);
                if still_waiting(s, prev, done) {
                    let j = choose|j: int|
                        0 <= j < prev.len() && s.pending_rotation_messages.contains_key(
                            #[trigger] prev[j],
                        ) && !done.contains(prev[j]);
                    assert(next[j] == prev[j]);
                }
                if here {
                    assert(next[i as int] == all[i as int]);
                }
                if still_waiting(s, next, done) {
                    let j = choose|j: int|
                        0 <= j < next.len() && s.pending_rotation_messages.contains_key(
                            #[trigger] next[j],
                        ) && !done.contains(next[j]);
                    if j < i {
                        assert(prev[j] == next[j]);
                    }
                }
            }
            waiting = waiting || here;
            i += 1;
        }
        assert(all.subrange(0, all.len() as int) =~= all);
        let ghost peers = peers_of(s, community_id@);
        if waiting {
            if let Some(list) = self.connected_peers.get(community_id) {
                let mut j: usize = 0;
                while j < list.len()
                    invariant
                        j <= list@.len(),
                        peers == views(list@),
                        other_peer(peers, from@, 0) == other_peer(peers, from@, j as int),
                        waiting == still_waiting(s, all, done),
                        waiting,
                        all == views(names@),
                        done == views(rotated@),
                        peers == peers_of(s, community_id@),
                        s == self.deep_view(),
                        out.deep_view() == start,
                        start == old(out).deep_view(),
                    decreases list@.len() - j,
                {
                    if !same_text(list[j].peer_id.as_str(), from) {
                        emit(
                            out,
                            Effect::Command(
                                NetworkCommand::FetchManifest {
                                    peer_id: list[j].peer_id.clone(),
                                    community_id: text(community_id),
                                    community_pk,
                                },
                            ),
                        );
                        assert(other_peer(peers, from@, 0) == Some(j as int));
                        assert(out.deep_view() =~= start + retry_effects(
                            s,
                            community_id@,
                            community_pk@,
                            from@,
                            all,
                            done,
                        ));
                        return;
                    }
                    j += 1;
                }
            }
        }
        assert(out.deep_view() =~= start + retry_effects(
            s,
            community_id@,
            community_pk@,
            from@,
            all,
            done,
        ));
    }

    /// The records of a manifest response that are taken, as they are kept.
    fn take_members(&self, community_id: &str, members: &Vec<MembershipRecord>) -> (r: Vec<
        MembershipRecord,
    >)
        ensures
            r.deep_view() == taken_members(self.deep_view(), community_id@, members.deep_view()),
    {
        broadcast use array_deep_view, vec_deep_view, views_push;

        let ghost s = self.deep_view();
        let ghost all = views(members@);
        let mut out: Vec<MembershipRecord> = Vec::new();
        let mut i: usize = 0;
        assert(views(out@) =~= taken_members(s, community_id@, all.subrange(0, 0)));
        while i < members.len()
            invariant
                i <= members@.len(),
                all == views(members@),
                s == self.deep_view(),
                views(out@) == taken_members(s, community_id@, all.subrange(0, i as int)),
            decreases members@.len() - i,
        {
            let ghost next = all.subrange(0, i + 1);
            assert(next.drop_last() =~= all.subrange(0, i as int));
            let m = &members[i];
            assert(m.deep_view() == next.last());
            let user = m.user_id.to_string();
            if m.owns_id() && !self.is_banned(community_id, user.as_str()) {
                let mut kept = m.clone();
                if self.holds_community_key(community_id, user.as_str()) {
                    if let Some(list) = self.members.get(community_id) {
                        if let Some(known) = list.get(user.as_str()) {
                            kept.roles = copy_all(&known.roles);
                        }
                    }
                }
                assert(kept.deep_view() == settled(s, community_id@, next.last()));
                out.push(kept);
            }
            i += 1;
        }
        assert(all.subrange(0, all.len() as int) =~= all);
        out
    }

    /// Store the members of a manifest response.
    fn store_members(
        &mut self,
        community_id: &str,
        members: &Vec<MembershipRecord>,
        out: &mut Vec<Effect>,
    )
        ensures
            final(self).deep_view() == with_members(
                old(self).deep_view(),
                community_id@,
                members.deep_view(),
            ),
            final(out).deep_view() == old(out).deep_view() + members_effects(members.deep_view()),
    {
        broadcast use array_deep_view, vec_deep_view;

        let ghost s = old(self).deep_view();
        let ghost start = old(out).deep_view();
        let ghost all = views(members@);
        if members.len() == 0 {
            assert(out.deep_view() =~= start + members_effects(all));
            return;
        }
        let mut list: Table<MembershipRecord> = match self.members.remove(community_id) {
            Some(l) => l,
            None => Table::new(),
        };
        assert(list.deep_view() =~= s.member_list(community_id@));
        let n: usize = members.len();
        let mut i: usize = 0;
        let ghost mid = self.deep_view();
        assert(all.subrange(0, 0) =~= Seq::<MembershipRecordView>::empty());
        while i < n
            invariant
                i <= n,
                n == members@.len(),
                all == views(members@),
                mid.dm_peers == s.dm_peers,
                list.deep_view() == upserted(
                    s.member_list(community_id@),
                    all.subrange(0, i as int),
                ),
                self.deep_view() == (AppStateView {
                    dm_peers: acquainted(s.dm_peers, all.subrange(0, i as int)),
                    ..mid
                }),
            decreases n - i,
        {
            let ghost next = all.subrange(0, i + 1);
            assert(next.drop_last() =~= all.subrange(0, i as int));
            let m = &members[i];
            assert(m.deep_view() == next.last());
            let user = m.user_id.to_string();
            list.insert(user.as_str(), m.clone());
            if !self.dm_peers.contains_key(user.as_str()) {
                self.dm_peers.insert(
                    user.as_str(),
                    DmPeerInfo {
                        display_name: m.display_name.clone(),
                        x25519_public_key: m.x25519_public_key,
                    },
                );
            }
            i += 1;
        }
        assert(all.subrange(0, all.len() as int) =~= all);
        self.members.insert(community_id, list);
        emit(out, Effect::Save(TableFile::Members));
        emit(out, Effect::Save(TableFile::DmPeers));
        assert(self.deep_view().members =~= with_members(s, community_id@, all).members);
        assert(out.deep_view() =~= start + members_effects(all));
    }

    /// Wrap the keys of the named channels for every member who has none.
    #[verifier::rlimit(100)]
    fn complete_keys(&mut self, community_id: &str, names: &Vec<String>, out: &mut Vec<Effect>)
        ensures
            exists|
                order: Seq<(Seq<char>, MembershipRecordView)>,
                wraps: Seq<Seq<Seq<u8>>>,
            |
                #[trigger] keys_completed(
                    old(self).deep_view(),
                    final(self).deep_view(),
                    community_id@,
                    names.deep_view(),
                    order,
                    wraps,
                    old(out).deep_view(),
                    final(out).deep_view(),
                ),
    {
        broadcast use array_deep_view, vec_deep_view;

        let ghost s = old(self).deep_view();
        let ghost start = old(out).deep_view();
        let ghost all = views(names@);
        let none: Table<MembershipRecord> = Table::new();
        let people: &Table<MembershipRecord> = match self.members.get(community_id) {
            Some(l) => l,
            None => &none,
        };
        let ghost order = people.order();
        assert(people.deep_view() =~= s.member_list(community_id@));
        let ghost mut wraps: Seq<Seq<Seq<u8>>> = Seq::empty();
        let n: usize = names.len();
        let k: usize = people.len();
        let mut i: usize = 0;
        let mut any = false;
        assert(all.subrange(0, 0) =~= Seq::<Seq<char>>::empty());
        while i < n
            invariant
                i <= n,
                n == names@.len(),
                k == order.len(),
                order == people.order(),
                all == views(names@),
                all_wraps_fit(
                    s.channels,
                    s.channel_keys,
                    all.subrange(0, i as int),
                    order,
                    wraps,
                ),
                self.deep_view() == (AppStateView {
                    channels: completed_all(
                        s.channels,
                        s.channel_keys,
                        all.subrange(0, i as int),
                        order,
                        wraps,
                    ),
                    ..s
                }),
                out.deep_view() =~= start + completed_broadcasts(
                    community_id@,
                    s.channels,
                    s.channel_keys,
                    all.subrange(0, i as int),
                    order,
                    wraps,
                ),
                any == (completed_broadcasts(
                    community_id@,
                    s.channels,
                    s.channel_keys,
                    all.subrange(0, i as int),
                    order,
                    wraps,
                ).len() > 0),
            decreases n - i,
        {
            let ghost prev = all.subrange(0, i as int);
            let ghost next = all.subrange(0, i + 1);
            let ghost before = self.deep_view().channels;
            let ghost mut row: Seq<Seq<u8>> = Seq::empty();
            assert(next.drop_last() =~= prev);
            let name = names[i].as_str();
            assert(name@ == next.last());
            let key: Option<[u8; 32]> = match self.channel_keys.get(name) {
                Some(key) => Some(*key),
                None => None,
            };
            if let Some(key) = key {
                assert(key.deep_view() =~= key@);
                assert(s.channel_keys[name@] == key@);
                if let Some(c) = self.channels.remove(name) {
                    let ghost first = before[name@];
                    let mut ch = c;
                    let mut updated = false;
                    let mut j: usize = 0;
                    assert(order.subrange(0, 0) =~= Seq::<(Seq<char>, MembershipRecordView)>::empty());
                    while j < k
                        invariant
                            j <= k,
                            k == order.len(),
                            order == people.order(),
                            wraps_fit(first, key@, order.subrange(0, j as int), row),
                            ch.deep_view() == completed(first, order.subrange(0, j as int), row),
                            updated == grew(first, ch.deep_view()),
                            first.encrypted_channel_key.len()
                                <= ch.deep_view().encrypted_channel_key.len(),
                        decreases k - j,
                    {
                        let ghost done = order.subrange(0, j as int);
                        let ghost more = order.subrange(0, j + 1);
                        assert(more.drop_last() =~= done);
                        let m = people.value_at(j);
                        assert(m.deep_view() == more.last().1);
                        let added = add_wrap(&mut ch, &key, &m.user_id, &m.x25519_public_key);
                        proof {
                            let w: Seq<u8> = if added {
                                ch.deep_view().encrypted_channel_key.last().1
                            } else {
                                Seq::empty()
                            };
                            let longer = row.push(w);
                            assert(longer.drop_last() =~= row);
                            assert(longer.last() == w);
                            assert(wraps_fit(first, key@, more, longer));
                            assert(ch.deep_view() == completed(first, more, longer));
                            row = longer;
                        }
                        updated = updated || added;
                        j += 1;
                    }
                    assert(order.subrange(0, order.len() as int) =~= order);
                    self.channels.insert(name, ch.clone());
                    if updated {
                        emit(
                            out,
                            Effect::Publish {
                                topic: topic_of_community(community_id),
                                event: NetworkEvent::ChannelManifestBroadcast(
                                    ChannelManifestBroadcastPayload { manifest: ch },
                                ),
                            },
                        );
                        any = true;
                    }
                }
            }
            proof {
                let longer = wraps.push(row);
                assert(longer.drop_last() =~= wraps);
                assert(longer.last() == row);
                let c = next.last();
                assert(all_wraps_fit(s.channels, s.channel_keys, next, order, longer));
                assert(self.deep_view().channels =~= completed_all(
                    s.channels,
                    s.channel_keys,
                    next,
                    order,
                    longer,
                ));
                assert(out.deep_view() =~= start + completed_broadcasts(
                    community_id@,
                    s.channels,
                    s.channel_keys,
                    next,
                    order,
                    longer,
                ));
                wraps = longer;
            }
            i += 1;
        }
        assert(all.subrange(0, all.len() as int) =~= all);
        if any {
            emit(out, Effect::Save(TableFile::Channels));
        }
        assert(keys_completed(
            s,
            self.deep_view(),
            community_id@,
            names.deep_view(),
            order,
            wraps,
            start,
            out.deep_view(),
        ));
    }

    /// Announce the local user on a community's topic, if a member: at the
    /// given time, under the roles that the manifest or the record gives.
    #[verifier::rlimit(60)]
    fn announce_self(&mut self, signed: &SignedManifest, now: Timestamp) -> (r: Vec<Effect>)
        ensures
            announced(
                old(self).deep_view(),
                final(self).deep_view(),
                signed.deep_view(),
                now,
                r.deep_view(),
            ),
    {
        let ghost s = old(self).deep_view();
        let ghost m = signed.deep_view();
        let community = signed.manifest.id.to_string();
        let me = self.local.peer_id();
        let own = self.local.user_id();
        let on_record: Option<Vec<Role>> = match self.members.get(community.as_str()) {
            Some(list) => match list.get(me.as_str()) {
                Some(r) => Some(copy_all(&r.roles)),
                None => None,
            },
            None => None,
        };
        let kept: Vec<Role> = match on_record {
            Some(r) => r,
            None => {
                return no_effects();
            },
        };
        let roles: Vec<Role> = if lists_user(&signed.manifest.admin_ids, &own) {
            let mut admin: Vec<Role> = Vec::new();
            admin.push(Role::Admin);
            assert(admin@ =~= seq![Role::Admin]);
            admin
        } else {
            kept
        };
        proof {
            crate::model::types::user_id_round_trip(s.local.user_id);
        }
        let display_name = self.own_name(me.as_str());
        let record = MembershipRecord::create(
            self.local.signing_key(),
            own,
            signed.manifest.id,
            display_name,
            now,
            roles,
            self.local.public_key(),
            self.local.x25519_public(),
        );
        assert(record.deep_view() == own_announcement(s, m, now));
        let mut out = self.handle_member_joined(record.clone());
        let ghost head = out.deep_view();
        emit(
            &mut out,
            Effect::Publish {
                topic: topic_of_community(community.as_str()),
                event: NetworkEvent::MemberJoined(record),
            },
        );
        assert(out.deep_view().drop_last() =~= head);
        out
    }

    /// Ask for the missing history of each named channel with a key.
    fn fetch_missing(
        &self,
        from: &str,
        community_id: &str,
        community_pk: [u8; 32],
        names: &Vec<String>,
        last_seqs: &Option<Table<u64>>,
        out: &mut Vec<Effect>,
    )
        requires
            seqs_can_grow(last_seqs.deep_view()),
        ensures
            final(out).deep_view() == old(out).deep_view() + catch_up(
                self.deep_view(),
                from@,
                community_id@,
                community_pk@,
                names.deep_view(),
                last_seqs.deep_view(),
            ),
    {
        broadcast use vec_deep_view;

        let ghost s = self.deep_view();
        let ghost start = old(out).deep_view();
        let ghost all = views(names@);
        let ghost seqs = last_seqs.deep_view();
        let n: usize = names.len();
        let mut i: usize = 0;
        assert(all.subrange(0, 0) =~= Seq::<Seq<char>>::empty());
        assert(start + catch_up(
            s,
            from@,
            community_id@,
            community_pk@,
            all.subrange(0, 0),
            seqs,
        ) =~= start);
        while i < n
            invariant
                i <= n,
                n == names@.len(),
                all == views(names@),
                s == self.deep_view(),
                seqs == last_seqs.deep_view(),
                seqs_can_grow(seqs),
                out.deep_view() == start + catch_up(
                    s,
                    from@,
                    community_id@,
                    community_pk@,
                    all.subrange(0, i as int),
                    seqs,
                ),
            decreases n - i,
        {
            let ghost next = all.subrange(0, i + 1);
            assert(next.drop_last() =~= all.subrange(0, i as int));
            let name = names[i].as_str();
            assert(name@ == next.last());
            if self.channel_keys.contains_key(name) {
                let since_seq: u64 = self.history_gap(last_seqs, name);
                push_sync(out, name, false);
                emit(
                    out,
                    Effect::Command(
                        NetworkCommand::FetchChannelHistory {
                            peer_id: text(from),
                            community_id: text(community_id),
                            community_pk,
                            channel_id: names[i].clone(),
                            since_seq,
                        },
                    ),
                );
            }
            assert(out.deep_view() =~= start + catch_up(
                s,
                from@,
                community_id@,
                community_pk@,
                next,
                seqs,
            ));
            i += 1;
        }
        assert(all.subrange(0, all.len() as int) =~= all);
    }

    /// Whether some named channel has no key.
    fn misses_key(&self, names: &Vec<String>) -> (r: bool)
        ensures
            r == lacks_key(self.deep_view().channel_keys, names.deep_view()),
    {
        let ghost all = names.deep_view();
        let mut i: usize = 0;
        while i < names.len()
            invariant
                i <= names@.len(),
                all == names.deep_view(),
                forall|j: int|
                    0 <= j < i ==> self.deep_view().channel_keys.contains_key(#[trigger] all[j]),
            decreases names@.len() - i,
        {
            if !self.channel_keys.contains_key(names[i].as_str()) {
                assert(!self.deep_view().channel_keys.contains_key(all[i as int]));
                return true;
            }
            i += 1;
        }
        false
    }

    /// Take up a manifest response at the given time.
    #[verifier::rlimit(100)]
    pub fn handle_manifest_received_at(
        &mut self,
        response: ManifestResponse,
        last_seqs: &Option<Table<u64>>,
        now: Timestamp,
    ) -> (r: Vec<Effect>)
        requires
            seqs_can_grow(last_seqs.deep_view()),
        ensures
            response.deep_view().handled(
                old(self).deep_view(),
                final(self).deep_view(),
                now,
                last_seqs.deep_view(),
                r.deep_view(),
            ),
    {
        let ghost s = old(self).deep_view();
        let ghost p = response.deep_view();
        let ghost seqs = last_seqs.deep_view();
        let signed = &response.manifest;
        if !signed.verify() {
            return no_effects();
        }
        let community = signed.manifest.id.to_string();
        if let Some(current) = self.communities.get(community.as_str()) {
            if current.manifest.version > 0 && !same_array(
                &current.manifest.public_key,
                &signed.manifest.public_key,
            ) {
                return no_effects();
            }
        }
        let version: u64 = signed.manifest.version;
        let pk: [u8; 32] = signed.manifest.public_key;
        if version > 0 {
            remove_text(&mut self.pending_manifest_syncs, community.as_str());
        }
        assert(self.deep_view() == p.begun(s));
        if signed.manifest.deleted {
            let reason = String::new();
            assert(reason@ =~= Seq::<char>::empty());
            return self.forget_community(community, version, reason);
        }
        let mut out = no_effects();
        self.store_manifest(signed, &response.channels);
        emit(&mut out, Effect::Save(TableFile::Communities));
        emit(&mut out, Effect::Save(TableFile::Channels));
        assert(self.deep_view() == p.stored(s));
        let own = same_array(&pk, &self.local.public_key());
        assert(own == is_own(s, p.manifest));
        let changed: Vec<String> = if own {
            let none: Vec<String> = Vec::new();
            assert(none.deep_view() =~= Seq::<Seq<char>>::empty());
            none
        } else {
            self.take_keys(&response.channels)
        };
        self.take_plain_keys(&response.channel_keys);
        assert(changed.deep_view() == p.rotated(s));
        assert(self.deep_view() == p.keyed(s));
        emit(&mut out, Effect::Save(TableFile::ChannelKeys));
        if changed.len() > 0 {
            emit(&mut out, Effect::Save(TableFile::PreviousChannelKeys));
        }
        let names = channel_ids_of(&response.channels);
        let refetch = self.misses_key(&names);
        let ghost fx0 = seq![
            EffectView::Save(TableFile::Communities),
            EffectView::Save(TableFile::Channels),
        ];
        assert(out.deep_view() =~= fx0 + key_saves(p.rotated(s)));
        self.drain_waiting(&changed, &mut out);
        assert(self.deep_view() == p.caught_up(s));
        self.retry_elsewhere(
            community.as_str(),
            pk,
            response.from.as_str(),
            &names,
            &changed,
            &mut out,
        );
        let people = self.take_members(community.as_str(), &response.members);
        emit(
            &mut out,
            Effect::Store(
                StoreUpdate::ReplaceCommunity {
                    community_id: community.clone(),
                    channels: copy_channels(&response.channels),
                    members: copy_records(&people),
                },
            ),
        );
        self.store_members(community.as_str(), &people, &mut out);
        assert(self.deep_view() == p.peopled(s));
        assert(out.deep_view() =~= p.first_effects(s));
        let ghost fx1 = out.deep_view();
        let ghost mut order: Seq<(Seq<char>, MembershipRecordView)> = Seq::empty();
        let ghost mut wraps: Seq<Seq<Seq<u8>>> = Seq::empty();
        let ghost mid = self.deep_view();
        if own {
            self.complete_keys(community.as_str(), &names, &mut out);
            proof {
                let (o, w) = choose|
                    o: Seq<(Seq<char>, MembershipRecordView)>,
                    w: Seq<Seq<Seq<u8>>>,
                |
                    #[trigger] keys_completed(
                        mid,
                        self.deep_view(),
                        community@,
                        p.names(),
                        o,
                        w,
                        fx1,
                        out.deep_view(),
                    );
                order = o;
                wraps = w;
            }
        }
        assert(self.deep_view() == p.shared(s, order, wraps));
        assert(out.deep_view() =~= fx1 + p.share_effects(s, order, wraps));
        let ghost fx2 = out.deep_view();
        subscribe_channels(&mut out, &names);
        emit(
            &mut out,
            Effect::Command(NetworkCommand::Subscribe(topic_of_community(community.as_str()))),
        );
        let ghost fx3 = out.deep_view();
        let own_effects = self.announce_self(signed, now);
        let ghost own_fx = own_effects.deep_view();
        append_effects(&mut out, own_effects);
        push_updated(&mut out, community.as_str(), version);
        let ghost fx4 = out.deep_view();
        if !refetch {
            self.fetch_missing(
                response.from.as_str(),
                community.as_str(),
                pk,
                &names,
                last_seqs,
                &mut out,
            );
        }
        proof {
            assert(fx3 =~= fx2 + subscribe_all(p.names()) + seq![
                subscribe(community_topic(p.community())),
            ]);
            assert(out.deep_view() =~= fx3 + own_fx + p.last_effects(s, self.deep_view(), seqs));
            assert(p.applied(
                s,
                self.deep_view(),
                now,
                seqs,
                order,
                wraps,
                own_fx,
                out.deep_view(),
            ));
        }
        out
    }

    /// Take up a manifest response now.
    pub fn handle_manifest_received(
        &mut self,
        response: ManifestResponse,
        last_seqs: &Option<Table<u64>>,
    ) -> (r: Vec<Effect>)
        requires
            seqs_can_grow(last_seqs.deep_view()),
        ensures
            response.deep_view().taken_up(
                old(self).deep_view(),
                final(self).deep_view(),
                last_seqs.deep_view(),
                r.deep_view(),
            ),
    {
        let now = Timestamp::now();
        self.handle_manifest_received_at(response, last_seqs, now)
    }
}

/// Whether the keys of the named channels were wrapped for the members in the
/// given order, and the effects `start` extended accordingly.
pub open spec fn keys_completed(
    s: AppStateView,
    after: AppStateView,
    community_id: Seq<char>,
    names: Seq<Seq<char>>,
    order: Seq<(Seq<char>, MembershipRecordView)>,
    wraps: Seq<Seq<Seq<u8>>>,
    start: Seq<EffectView>,
    fx: Seq<EffectView>,
) -> bool {
    &&& lists(order, s.member_list(community_id))
    &&& all_wraps_fit(s.channels, s.channel_keys, names, order, wraps)
    &&& after == (AppStateView {
        channels: completed_all(s.channels, s.channel_keys, names, order, wraps),
        ..s
    })
    &&& fx == start + completed_effects(
        community_id,
        s.channels,
        s.channel_keys,
        names,
        order,
        wraps,
    )
}

/// Whether a list names a user.
fn lists_user(ids: &Vec<UserId>, user: &UserId) -> (r: bool)
    ensures
        r == ids@.contains(*user),
{
    let mut i: usize = 0;
    while i < ids.len()
        invariant
            i <= ids@.len(),
            forall|j: int| 0 <= j < i ==> ids@[j] != *user,
        decreases ids@.len() - i,
    {
        if ids[i].same(user) {
            assert(ids@[i as int] == *user);
            return true;
        }
        i += 1;
    }
    false
}

/// A manifest that its own key did not sign, or that stands under another key
/// than its community has had, changes nothing.
pub proof fn foreign_manifests_are_discarded(
    p: ManifestResponseView,
    s: AppStateView,
    after: AppStateView,
    now: Timestamp,
    last_seqs: Option<Map<Seq<char>, u64>>,
    fx: Seq<EffectView>,
)
    requires
        p.handled(s, after, now, last_seqs, fx),
        !p.manifest.valid() || !key_kept(s, p.manifest),
    ensures
        after == s,
        fx.len() == 0,
{
}

/// Taking keys leaves the local user's own state aside and never loses a key:
/// a channel that had one has one.
pub proof fn keys_are_never_lost(
    s: AppStateView,
    m: SignedManifestView,
    channels: Seq<ChannelManifestView>,
    plain: Map<Seq<char>, Seq<u8>>,
    c: Seq<char>,
)
    requires
        s.channel_keys.contains_key(c),
    ensures
        with_keys(s, m, channels, plain).channel_keys.contains_key(c),
        is_own(s, m) ==> with_keys(s, m, channels, plain).channel_keys[c] == s.channel_keys[c],
{
    taken_keys_stay(s, keyed_channels(s, m, channels), c);
}

/// Taking keys never removes one.
proof fn taken_keys_stay(s: AppStateView, list: Seq<ChannelManifestView>, c: Seq<char>)
    requires
        s.channel_keys.contains_key(c),
    ensures
        keys_taken(s, list).channel_keys.contains_key(c),
        list.len() == 0 ==> keys_taken(s, list).channel_keys[c] == s.channel_keys[c],
    decreases list.len(),
{
    if list.len() > 0 {
        taken_keys_stay(s, list.drop_last(), c);
    }
}

/// A plain key never replaces one that was unwrapped or already at hand.
pub proof fn plain_keys_never_overwrite(
    keys: Map<Seq<char>, Seq<u8>>,
    plain: Map<Seq<char>, Seq<u8>>,
    c: Seq<char>,
)
    requires
        keys.contains_key(c),
    ensures
        with_plain_keys(keys, plain)[c] == keys[c],
{
}

/// After a manifest response, every channel of its community is one that the
/// manifest lists.
pub proof fn deleted_channels_are_evicted(
    s: AppStateView,
    m: SignedManifestView,
    channels: Seq<ChannelManifestView>,
    c: Seq<char>,
)
    requires
        with_manifest(s, m, channels).channels.contains_key(c),
        with_manifest(s, m, channels).channels[c].community_id.name() == m.manifest.id.name(),
    ensures
        channel_names(m.manifest.channel_ids).contains(c),
{
}

/// Handling kept messages again touches nothing but the log and the messages
/// that still wait.
pub proof fn replaying_keeps(s: AppStateView, msgs: Seq<BufferedMessageView>)
    ensures
        replayed(s, msgs) == (AppStateView {
            message_log: replayed(s, msgs).message_log,
            pending_rotation_messages: replayed(s, msgs).pending_rotation_messages,
            ..s
        }),
    decreases msgs.len(),
{
    if msgs.len() > 0 {
        replaying_keeps(s, msgs.drop_last());
    }
}

/// Draining the messages that waited touches nothing but the log and the
/// messages that still wait.
pub proof fn draining_keeps(s: AppStateView, names: Seq<Seq<char>>)
    ensures
        drained(s, names) == (AppStateView {
            message_log: drained(s, names).message_log,
            pending_rotation_messages: drained(s, names).pending_rotation_messages,
            ..s
        }),
    decreases names.len(),
{
    if names.len() > 0 {
        draining_keeps(s, names.drop_last());
        let before = drained(s, names.drop_last());
        let c = names.last();
        if before.pending_rotation_messages.contains_key(c) {
            replaying_keeps(unbuffered(before, c), before.pending_rotation_messages[c]);
        }
    }
}

/// Taking keys touches nothing but the keys.
pub proof fn taking_keeps(s: AppStateView, list: Seq<ChannelManifestView>)
    ensures
        keys_taken(s, list) == (AppStateView {
            channel_keys: keys_taken(s, list).channel_keys,
            previous_channel_keys: keys_taken(s, list).previous_channel_keys,
            ..s
        }),
    decreases list.len(),
{
    if list.len() > 0 {
        taking_keeps(s, list.drop_last());
    }
}

/// Up to the storing of the members, a response stores its manifest and leaves
/// members, bans and the local user as they are.
pub proof fn catching_up_keeps(p: ManifestResponseView, s: AppStateView)
    ensures
        p.caught_up(s).communities == s.communities.insert(p.community(), p.manifest),
        p.caught_up(s).members == s.members,
        p.caught_up(s).bans == s.bans,
        p.caught_up(s).local == s.local,
{
    taking_keeps(p.stored(s), keyed_channels(p.stored(s), p.manifest, p.channels));
    draining_keeps(p.keyed(s), p.rotated(s));
}

/// No manifest response ever changes the key of a community: what is stored
/// afterwards still stands under the creator's key.
pub proof fn responses_keep_the_creator_key(
    p: ManifestResponseView,
    s: AppStateView,
    after: AppStateView,
    now: Timestamp,
    last_seqs: Option<Map<Seq<char>, u64>>,
    fx: Seq<EffectView>,
    community: Seq<char>,
)
    requires
        p.handled(s, after, now, last_seqs, fx),
        s.communities.contains_key(community),
        s.communities[community].manifest.version > 0,
    ensures
        after.communities.contains_key(community)
            ==> after.communities[community].manifest.public_key
            == s.communities[community].manifest.public_key,
{
    catching_up_keeps(p, s);
}

/// Where a record of a member list comes from once the given records were added.
proof fn upserted_from(
    list: Map<Seq<char>, MembershipRecordView>,
    members: Seq<MembershipRecordView>,
    k: Seq<char>,
)
    requires
        upserted(list, members).contains_key(k),
    ensures
        upserted(list, members)[k] == list[k] && list.contains_key(k) || exists|i: int|
            0 <= i < members.len() && (#[trigger] members[i]).user_id.name() == k && upserted(
                list,
                members,
            )[k] == members[i],
    decreases members.len(),
{
    if members.len() > 0 {
        if members.last().user_id.name() == k {
            assert(members[members.len() - 1].user_id.name() == k);
        } else {
            upserted_from(list, members.drop_last(), k);
            if exists|i: int|
                0 <= i < members.len() - 1 && (#[trigger] members.drop_last()[i]).user_id.name()
                    == k && upserted(list, members.drop_last())[k] == members.drop_last()[i] {
                let i = choose|i: int|
                    0 <= i < members.len() - 1 && (#[trigger] members.drop_last()[i]).user_id.name()
                        == k && upserted(list, members.drop_last())[k] == members.drop_last()[i];
                assert(members[i] == members.drop_last()[i]);
            }
        }
    }
}

/// Adding records removes nobody.
proof fn upserted_keeps(
    list: Map<Seq<char>, MembershipRecordView>,
    members: Seq<MembershipRecordView>,
    k: Seq<char>,
)
    requires
        list.contains_key(k),
    ensures
        upserted(list, members).contains_key(k),
    decreases members.len(),
{
    if members.len() > 0 {
        upserted_keeps(list, members.drop_last(), k);
    }
}

/// Where a taken record comes from.
proof fn taken_from(
    s: AppStateView,
    community_id: Seq<char>,
    members: Seq<MembershipRecordView>,
    i: int,
)
    requires
        0 <= i < taken_members(s, community_id, members).len(),
    ensures
        exists|j: int|
            0 <= j < members.len() && record_taken(s, community_id, #[trigger] members[j])
                && taken_members(s, community_id, members)[i] == settled(
                s,
                community_id,
                members[j],
            ),
    decreases members.len(),
{
    if members.len() > 0 {
        let head = taken_members(s, community_id, members.drop_last());
        if i < head.len() {
            taken_from(s, community_id, members.drop_last(), i);
            let j = choose|j: int|
                0 <= j < members.len() - 1 && record_taken(
                    s,
                    community_id,
                    #[trigger] members.drop_last()[j],
                ) && head[i] == settled(s, community_id, members.drop_last()[j]);
            assert(members[j] == members.drop_last()[j]);
        } else {
            let j = members.len() - 1;
            assert(record_taken(s, community_id, members[j]));
        }
    }
}

/// Whether `m` is how some record of the response is kept, one whose identifier
/// belongs to its key and whose user is not banned.
pub open spec fn well_served(
    p: ManifestResponseView,
    s: AppStateView,
    m: MembershipRecordView,
) -> bool {
    exists|j: int|
        0 <= j < p.members.len() && record_taken(s, p.community(), #[trigger] p.members[j]) && m
            == settled(p.caught_up(s), p.community(), p.members[j])
}

/// A manifest response removes no member. A record that it adds or replaces is
/// one whose identifier belongs to its key, of a user who is not banned, and the
/// creator's roles stay as they are.
pub proof fn served_records_are_checked(p: ManifestResponseView, s: AppStateView, k: Seq<char>)
    ensures
        ({
            let before = s.member_list(p.community());
            let after = p.peopled(s).member_list(p.community());
            &&& before.contains_key(k) ==> after.contains_key(k)
            &&& after.contains_key(k) ==> (before.contains_key(k) && after[k] == before[k])
                || well_served(p, s, after[k])
            &&& ban_list(s, p.community()).contains(k) && after.contains_key(k)
                ==> before.contains_key(k) && after[k] == before[k]
            &&& is_creator(p.caught_up(s), p.community(), k) ==> after[k].roles
                == before[k].roles
        }),
{
    catching_up_keeps(p, s);
    let t = p.caught_up(s);
    let c = p.community();
    let before = s.member_list(c);
    let after = p.peopled(s).member_list(c);
    let people = p.people(s);
    if people.len() > 0 {
        assert(after == upserted(before, people));
        if before.contains_key(k) {
            upserted_keeps(before, people, k);
        }
        if after.contains_key(k) {
            upserted_from(before, people, k);
            if !(before.contains_key(k) && after[k] == before[k]) {
                let i = choose|i: int|
                    0 <= i < people.len() && (#[trigger] people[i]).user_id.name() == k && after[k]
                        == people[i];
                taken_from(t, c, p.members, i);
                let j = choose|j: int|
                    0 <= j < p.members.len() && record_taken(t, c, #[trigger] p.members[j])
                        && people[i] == settled(t, c, p.members[j]);
                assert(record_taken(s, c, p.members[j]));
                assert(well_served(p, s, after[k]));
            }
        }
    }
}

/// Adding records leaves the user of each of them on the list.
proof fn upserted_adds(
    list: Map<Seq<char>, MembershipRecordView>,
    members: Seq<MembershipRecordView>,
    i: int,
)
    requires
        0 <= i < members.len(),
    ensures
        upserted(list, members).contains_key(members[i].user_id.name()),
    decreases members.len(),
{
    if i < members.len() - 1 {
        upserted_adds(list, members.drop_last(), i);
    }
}

/// Every record that is to be taken is among those taken.
proof fn taken_where(
    s: AppStateView,
    community_id: Seq<char>,
    members: Seq<MembershipRecordView>,
    j: int,
) -> (i: int)
    requires
        0 <= j < members.len(),
        record_taken(s, community_id, members[j]),
    ensures
        0 <= i < taken_members(s, community_id, members).len(),
        taken_members(s, community_id, members)[i] == settled(s, community_id, members[j]),
    decreases members.len(),
{
    let head = taken_members(s, community_id, members.drop_last());
    if j < members.len() - 1 {
        taken_where(s, community_id, members.drop_last(), j)
    } else {
        head.len() as int
    }
}

/// No member is lost to a late joiner: whoever a manifest response lists is
/// known afterwards, unless banned, also when the record's roles or name have
/// changed since its user signed it.
pub proof fn served_members_are_known(
    p: ManifestResponseView,
    s: AppStateView,
    j: int,
    original: MembershipRecordView,
)
    requires
        0 <= j < p.members.len(),
        original.self_signed(),
        p.members[j] == (MembershipRecordView {
            roles: p.members[j].roles,
            display_name: p.members[j].display_name,
            ..original
        }),
        !ban_list(s, p.community()).contains(original.user_id.name()),
    ensures
        p.peopled(s).member_list(p.community()).contains_key(original.user_id.name()),
{
    catching_up_keeps(p, s);
    let t = p.caught_up(s);
    let i = taken_where(t, p.community(), p.members, j);
    upserted_adds(t.member_list(p.community()), p.people(s), i);
}

/// Wrapping a channel's key for the listed members keeps what was wrapped, and
/// leaves a wrapped key for each of them.
pub proof fn completion_covers(
    ch: ChannelManifestView,
    order: Seq<(Seq<char>, MembershipRecordView)>,
    wraps: Seq<Seq<u8>>,
    user: UserId,
)
    ensures
        has_member_key(ch.encrypted_channel_key, user) ==> has_member_key(
            completed(ch, order, wraps).encrypted_channel_key,
            user,
        ),
        (exists|i: int| 0 <= i < order.len() && (#[trigger] order[i]).1.user_id == user)
            ==> has_member_key(completed(ch, order, wraps).encrypted_channel_key, user),
    decreases order.len(),
{
    if order.len() > 0 {
        completion_covers(ch, order.drop_last(), wraps.drop_last(), user);
        let before = completed(ch, order.drop_last(), wraps.drop_last()).encrypted_channel_key;
        let after = completed(ch, order, wraps).encrypted_channel_key;
        if has_member_key(before, user) {
            let j = choose|j: int| 0 <= j < before.len() && #[trigger] before[j].0 == user;
            assert(after[j].0 == user);
        }
        if exists|i: int| 0 <= i < order.len() && (#[trigger] order[i]).1.user_id == user {
            let i = choose|i: int| 0 <= i < order.len() && (#[trigger] order[i]).1.user_id == user;
            if i < order.len() - 1 {
                assert(order.drop_last()[i].1.user_id == user);
            } else if !has_member_key(before, user) {
                assert(after[before.len() as int].0 == user);
            }
        }
    }
}

/// Wrapping the keys of the named channels takes no wrapped key away, and leaves
/// one in each named channel for every listed member.
pub proof fn completion_covers_all(
    channels: Map<Seq<char>, ChannelManifestView>,
    keys: Map<Seq<char>, Seq<u8>>,
    names: Seq<Seq<char>>,
    order: Seq<(Seq<char>, MembershipRecordView)>,
    wraps: Seq<Seq<Seq<u8>>>,
    c: Seq<char>,
    user: UserId,
)
    requires
        can_complete(channels, keys, c),
    ensures
        ({
            let t = completed_all(channels, keys, names, order, wraps);
            &&& t.contains_key(c)
            &&& has_member_key(channels[c].encrypted_channel_key, user) ==> has_member_key(
                t[c].encrypted_channel_key,
                user,
            )
            &&& names.contains(c) && (exists|i: int|
                0 <= i < order.len() && (#[trigger] order[i]).1.user_id == user)
                ==> has_member_key(t[c].encrypted_channel_key, user)
        }),
    decreases names.len(),
{
    if names.len() > 0 {
        let head = names.drop_last();
        completion_covers_all(channels, keys, head, order, wraps.drop_last(), c, user);
        let before = completed_all(channels, keys, head, order, wraps.drop_last());
        if names.last() == c {
            completion_covers(before[c], order, wraps.last(), user);
        } else if names.contains(c) {
            let i = names.index_of(c);
            assert(head[i] == c);
        }
    }
}

/// Once the creator of a community takes up a manifest response, every member
/// that is known then has a wrapped key in each of its channels whose key is at
/// hand.
pub proof fn every_member_gets_every_key(
    p: ManifestResponseView,
    s: AppStateView,
    after: AppStateView,
    now: Timestamp,
    last_seqs: Option<Map<Seq<char>, u64>>,
    fx: Seq<EffectView>,
    c: Seq<char>,
    k: Seq<char>,
)
    requires
        p.handled(s, after, now, last_seqs, fx),
        p.manifest.valid(),
        key_kept(s, p.manifest),
        !p.manifest.manifest.deleted,
        is_own(s, p.manifest),
        p.names().contains(c),
        can_complete(p.peopled(s).channels, p.peopled(s).channel_keys, c),
        p.peopled(s).member_list(p.community()).contains_key(k),
    ensures
        after.channels.contains_key(c),
        has_member_key(
            after.channels[c].encrypted_channel_key,
            p.peopled(s).member_list(p.community())[k].user_id,
        ),
{
    let t = p.peopled(s);
    let user = t.member_list(p.community())[k].user_id;
    let (order, wraps, own_fx) = choose|
        order: Seq<(Seq<char>, MembershipRecordView)>,
        wraps: Seq<Seq<Seq<u8>>>,
        own_fx: Seq<EffectView>,
    |
        #[trigger] p.applied(s, after, now, last_seqs, order, wraps, own_fx, fx);
    let i = position(order, k);
    assert(has_key(order, k));
    assert(order[i].1.user_id == user);
    completion_covers_all(t.channels, t.channel_keys, p.names(), order, wraps, c, user);
    let u = p.shared(s, order, wraps);
    if u.member_list(p.community()).contains_key(u.me()) {
        let record = own_announcement(u, p.manifest, now);
        if join_accepted(u, record) {
            let more = choose|more: Seq<Seq<u8>>|
                {
                    &&& #[trigger] wraps_open(
                        u.channels,
                        u.channel_keys,
                        channels_to_share(u, record.community_id.name()),
                        record.user_id,
                        record.x25519_public_key,
                        more,
                    )
                    &&& after == member_joined_state(u, record, more)
                    &&& own_fx.drop_last() == member_joined_effects(u, record, more)
                };
            sharing_only_adds(
                u.channels,
                u.channel_keys,
                channels_to_share(u, record.community_id.name()),
                record.user_id,
                more,
                c,
                user,
            );
        }
    }
}

} // verus!
