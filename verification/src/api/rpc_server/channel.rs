//! Channel requests.

use crate::api::effects::{emit, no_effects, Effect, EffectView, StoreUpdate, StoreUpdateView, TableFile};
use crate::api::push_broadcaster::{
    ChannelEventData, ChannelEventDataView, CommunityEventData, CommunityEventDataView, PushEvent,
    PushEventView,
};
use crate::api::rpc_server::{made_elsewhere, seed_check, RpcError};
use crate::api::types::{
    ChannelInfo, ChannelInfoView, ChannelKindDto, CreateChannelParams, DeleteChannelParams,
    RotateKeyParams,
};
use crate::api::{
    channel_topic, community_topic, subscribe, topic_of_channel, topic_of_community, unsubscribe,
    AppState, AppStateView,
};
use crate::bytes::same_array;
use crate::crypto::channel_keys::{delivers, is_wrapping, ChannelKey};
use crate::crypto::primitives::ed25519_signature;
use crate::lists::{array_deep_view, vec_deep_view, views, views_push};
use crate::model::channel::{
    ChannelKind, ChannelManifest, ChannelManifestView, MemberKey,
};
use crate::model::community::CommunityManifestView;
use crate::model::membership::{MembershipRecord, MembershipRecordView};
use crate::model::network_event::{
    sign_bytes, ChannelKeyRotationPayload, ChannelManifestBroadcastPayload, NetworkEvent,
    NetworkEventView,
};
use crate::model::types::{ulid_parse, ChannelId, CommunityId, UserId};
use crate::network::network_handle::types::NetworkCommand;
use crate::table::{lists, Table};
use crate::text::{byte_len, same_text};
use crate::time::Timestamp;
use vstd::prelude::*;
use vstd::string::*;
use vstd::utf8::*;

verus! {

/// The kind of a channel in responses.
pub open spec fn kind_dto(kind: ChannelKind) -> ChannelKindDto {
    match kind {
        ChannelKind::Text => ChannelKindDto::Text,
        ChannelKind::Announcement => ChannelKindDto::Announcement,
        ChannelKind::Voice => ChannelKindDto::Voice,
    }
}

/// The kind of a channel that a request names.
pub open spec fn kind_of_dto(kind: ChannelKindDto) -> ChannelKind {
    match kind {
        ChannelKindDto::Text => ChannelKind::Text,
        ChannelKindDto::Announcement => ChannelKind::Announcement,
        ChannelKindDto::Voice => ChannelKind::Voice,
    }
}

/// A channel as shown to clients.
pub open spec fn channel_info(m: ChannelManifestView) -> ChannelInfoView {
    ChannelInfoView {
        id: m.id.name(),
        community_id: m.community_id.name(),
        name: m.name,
        kind: kind_dto(m.kind),
        version: m.version,
        created_at: m.created_at,
    }
}

/// The channels of a community, in the order of the listing.
pub open spec fn channel_infos(
    order: Seq<(Seq<char>, ChannelManifestView)>,
    community_id: Seq<char>,
) -> Seq<ChannelInfoView>
    decreases order.len(),
{
    if order.len() == 0 {
        Seq::empty()
    } else {
        let head = channel_infos(order.drop_last(), community_id);
        let m = order.last().1;
        if m.community_id.name() == community_id {
            head.push(channel_info(m))
        } else {
            head
        }
    }
}

/// A channel as shown to clients.
pub fn channel_manifest_to_info(m: &ChannelManifest) -> (r: ChannelInfo)
    ensures
        r.deep_view() == channel_info(m.deep_view()),
{
    ChannelInfo {
        id: m.id.to_string(),
        community_id: m.community_id.to_string(),
        name: m.name.clone(),
        kind: match m.kind {
            ChannelKind::Text => ChannelKindDto::Text,
            ChannelKind::Announcement => ChannelKindDto::Announcement,
            ChannelKind::Voice => ChannelKindDto::Voice,
        },
        version: m.version,
        created_at: m.created_at,
    }
}

/// Whether `keys` holds, for each listed member in order, a wrapping of `key`
/// that the member can open.
pub open spec fn wrapped_for_all(
    keys: Seq<(UserId, Seq<u8>)>,
    key: Seq<u8>,
    order: Seq<(Seq<char>, MembershipRecordView)>,
) -> bool {
    &&& keys.len() == order.len()
    &&& forall|i: int|
        0 <= i < keys.len() ==> (#[trigger] keys[i]).0 == order[i].1.user_id && is_wrapping(
            key,
            order[i].1.x25519_public_key,
            keys[i].1,
        ) && delivers(key, order[i].1.x25519_public_key, keys[i].1)
}

/// Whether `keys` wraps `key` for every member of `members`, in some order.
pub open spec fn wrapped_for_members(
    keys: Seq<(UserId, Seq<u8>)>,
    key: Seq<u8>,
    members: Map<Seq<char>, MembershipRecordView>,
) -> bool {
    exists|order: Seq<(Seq<char>, MembershipRecordView)>|
        #[trigger] lists(order, members) && wrapped_for_all(keys, key, order)
}

/// Wrap `key` for every member of the table.
pub fn wrap_for_members(key: &ChannelKey, members: &Table<MembershipRecord>) -> (r: Vec<MemberKey>)
    ensures
        wrapped_for_members(r.deep_view(), key@, members.deep_view()),
{
    broadcast use vec_deep_view, views_push;

    let n: usize = members.len();
    let ghost order = members.order();
    let mut out: Vec<MemberKey> = Vec::new();
    let mut i: usize = 0;
    while i < n
        invariant
            i <= n,
            n == order.len(),
            order == members.order(),
            views(out@).len() == i,
            forall|j: int|
                0 <= j < i ==> (#[trigger] views(out@)[j]).0 == order[j].1.user_id && is_wrapping(
                    key@,
                    order[j].1.x25519_public_key,
                    views(out@)[j].1,
                ) && delivers(key@, order[j].1.x25519_public_key, views(out@)[j].1),
        decreases n - i,
    {
        let m = members.value_at(i);
        let ghost before = views(out@);
        match key.encrypt_for_member(&m.x25519_public_key) {
            Ok(wrapped) => {
                out.push(MemberKey { user_id: m.user_id, wrapped });
            },
            Err(_) => {
                assert(false);
            },
        }
        assert(views(out@) == before.push(views(out@)[i as int]));
        i += 1;
    }
    assert(lists(order, members.deep_view()) && wrapped_for_all(views(out@), key@, order));
    out
}

/// Whether a name has a length between 1 and 100 bytes.
pub open spec fn good_name(name: Seq<char>) -> bool {
    1 <= encode_utf8(name).len() <= 100
}

/// Why a channel cannot be created. Only the creator of a community can sign
/// the manifest that lists the new channel.
pub open spec fn create_refusal(
    s: AppStateView,
    community_id: Seq<char>,
    name: Seq<char>,
) -> Option<RpcError> {
    if made_elsewhere(s, community_id) {
        Some(RpcError::CreatorOnly)
    } else if !good_name(name) {
        Some(RpcError::NameLength)
    } else if !s.communities.contains_key(community_id) {
        Some(RpcError::CommunityNotFound)
    } else if ulid_parse(community_id) is None {
        Some(RpcError::InvalidCommunityId)
    } else {
        None
    }
}

/// A manifest that lists one more channel.
pub open spec fn with_channel(m: CommunityManifestView, id: ChannelId) -> CommunityManifestView {
    CommunityManifestView {
        channel_ids: m.channel_ids.push(id),
        version: (m.version + 1) as u64,
        ..m
    }
}

/// A manifest that lists a channel no more.
pub open spec fn without_channel(m: CommunityManifestView, id: ChannelId) -> CommunityManifestView {
    CommunityManifestView {
        channel_ids: other_channels(m.channel_ids, id),
        version: (m.version + 1) as u64,
        ..m
    }
}

/// The manifest of a new channel.
pub open spec fn new_channel(
    id: ChannelId,
    community_id: Seq<char>,
    name: Seq<char>,
    kind: ChannelKindDto,
    keys: Seq<(UserId, Seq<u8>)>,
    now: Timestamp,
) -> ChannelManifestView {
    ChannelManifestView {
        id,
        community_id: CommunityId(ulid_parse(community_id)->0),
        name,
        kind: kind_of_dto(kind),
        encrypted_channel_key: keys,
        created_at: now,
        version: 1,
    }
}

/// The state after a channel was created.
pub open spec fn channel_created(
    s: AppStateView,
    community_id: Seq<char>,
    channel: ChannelManifestView,
    key: Seq<u8>,
) -> AppStateView {
    let id = channel.id.name();
    let manifest = with_channel(s.communities[community_id].manifest, channel.id);
    AppStateView {
        channels: s.channels.insert(id, channel),
        channel_keys: s.channel_keys.insert(id, key),
        communities: s.communities.insert(community_id, manifest.signed_with(s.local.key)),
        ..s
    }
}

/// What is done after a channel was created.
pub open spec fn channel_created_effects(
    s: AppStateView,
    community_id: Seq<char>,
    channel: ChannelManifestView,
) -> Seq<EffectView> {
    let id = channel.id.name();
    let manifest = with_channel(s.communities[community_id].manifest, channel.id);
    seq![
        EffectView::Save(TableFile::Channels),
        EffectView::Save(TableFile::ChannelKeys),
        EffectView::Save(TableFile::Communities),
        EffectView::Store(StoreUpdateView::SyncManifest { community_id }),
        EffectView::Store(
            StoreUpdateView::SyncChannel { community_id, channel_id: id, with_key: true },
        ),
        EffectView::Publish {
            topic: community_topic(community_id),
            event: NetworkEventView::ManifestUpdate(manifest.signed_with(s.local.key)),
        },
        EffectView::Publish {
            topic: community_topic(community_id),
            event: NetworkEventView::ChannelManifestBroadcast(channel),
        },
        EffectView::Push(
            PushEventView::CommunityManifestUpdated(
                CommunityEventDataView {
                    community_id,
                    version: manifest.version,
                    reason: Seq::empty(),
                },
            ),
        ),
        subscribe(channel_topic(id)),
        EffectView::Push(
            PushEventView::ChannelCreated(
                ChannelEventDataView { channel_id: id, community_id, name: channel.name },
            ),
        ),
    ]
}

/// The version of a community's manifest can still grow.
pub open spec fn version_can_grow(s: AppStateView, community_id: Seq<char>) -> bool {
    s.communities.contains_key(community_id) ==> s.communities[community_id].manifest.version
        < u64::MAX
}

impl AppState {
    /// The channels of a community.
    pub fn channel_list(&self, community_id: &str) -> (r: Vec<ChannelInfo>)
        ensures
            exists|order: Seq<(Seq<char>, ChannelManifestView)>|
                lists(order, self.deep_view().channels) && r.deep_view()
                    == #[trigger] channel_infos(order, community_id@),
    {
        broadcast use vec_deep_view, views_push;

        let n: usize = self.channels.len();
        let ghost order = self.channels.order();
        let mut out: Vec<ChannelInfo> = Vec::new();
        assert(views(out@) =~= channel_infos(order.subrange(0, 0), community_id@));
        let mut i: usize = 0;
        while i < n
            invariant
                i <= n,
                n == order.len(),
                order == self.channels.order(),
                views(out@) == channel_infos(order.subrange(0, i as int), community_id@),
            decreases n - i,
        {
            let c = self.channels.value_at(i);
            assert(order.subrange(0, i + 1).drop_last() =~= order.subrange(0, i as int));
            if same_text(c.community_id.to_string().as_str(), community_id) {
                out.push(channel_manifest_to_info(c));
            }
            i += 1;
        }
        assert(order.subrange(0, order.len() as int) =~= order);
        out
    }

    /// One channel.
    pub fn channel_get(&self, channel_id: &str) -> (r: Result<ChannelInfo, RpcError>)
        ensures
            match r {
                Ok(info) => self.deep_view().channels.contains_key(channel_id@) && info.deep_view()
                    == channel_info(self.deep_view().channels[channel_id@]),
                Err(e) => !self.deep_view().channels.contains_key(channel_id@) && e
                    == RpcError::ChannelNotFound,
            },
    {
        match self.channels.get(channel_id) {
            Some(c) => Ok(channel_manifest_to_info(c)),
            None => Err(RpcError::ChannelNotFound),
        }
    }

    /// Create a channel with the given id, key, per-member wraps and time.
    pub fn channel_create_with(
        &mut self,
        p: CreateChannelParams,
        id: ChannelId,
        key: [u8; 32],
        keys: Vec<MemberKey>,
        now: Timestamp,
    ) -> (r: (Result<ChannelInfo, RpcError>, Vec<Effect>))
        requires
            version_can_grow(old(self).deep_view(), p.community_id@),
        ensures
            r.0 is Ok ==> final(self).deep_view().communities[p.community_id@].valid(),
            match create_refusal(old(self).deep_view(), p.community_id@, p.name@) {
                Some(e) => r.0 == Err::<ChannelInfo, RpcError>(e) && r.1.deep_view().len() == 0
                    && final(self).deep_view() == old(self).deep_view(),
                None => {
                    let channel = new_channel(
                        id,
                        p.community_id@,
                        p.name@,
                        p.kind,
                        keys.deep_view(),
                        now,
                    );
                    &&& r.0 matches Ok(info) && info.deep_view() == channel_info(channel)
                    &&& final(self).deep_view() == channel_created(
                        old(self).deep_view(),
                        p.community_id@,
                        channel,
                        key@,
                    )
                    &&& r.1.deep_view() == channel_created_effects(
                        old(self).deep_view(),
                        p.community_id@,
                        channel,
                    )
                },
            },
    {
        broadcast use array_deep_view;

        if self.is_made_elsewhere(p.community_id.as_str()) {
            return (Err(RpcError::CreatorOnly), no_effects());
        }
        let n: usize = byte_len(p.name.as_str());
        if n == 0 || n > 100 {
            return (Err(RpcError::NameLength), no_effects());
        }
        if !self.communities.contains_key(p.community_id.as_str()) {
            return (Err(RpcError::CommunityNotFound), no_effects());
        }
        let community_id = match CommunityId::from_string(p.community_id.as_str()) {
            Some(c) => c,
            None => {
                return (Err(RpcError::InvalidCommunityId), no_effects());
            },
        };
        let kind = match p.kind {
            ChannelKindDto::Text => ChannelKind::Text,
            ChannelKindDto::Announcement => ChannelKind::Announcement,
            ChannelKindDto::Voice => ChannelKind::Voice,
        };
        let manifest = ChannelManifest {
            id,
            community_id,
            name: p.name,
            kind,
            encrypted_channel_key: keys,
            created_at: now,
            version: 1,
        };
        let info = channel_manifest_to_info(&manifest);
        let channel_id = id.to_string();
        let cid = p.community_id;
        self.channels.insert(channel_id.as_str(), manifest.clone());
        self.channel_keys.insert(channel_id.as_str(), key);
        let mut out = no_effects();
        emit(&mut out, Effect::Save(TableFile::Channels));
        emit(&mut out, Effect::Save(TableFile::ChannelKeys));
        if let Some(signed) = self.communities.remove(cid.as_str()) {
            let mut updated = signed.manifest;
            updated.channel_ids.push(id);
            updated.version = updated.version + 1;
            let version: u64 = updated.version;
            let new_signed = updated.sign(self.local.signing_key());
            self.communities.insert(cid.as_str(), new_signed.clone());
            emit(&mut out, Effect::Save(TableFile::Communities));
            emit(&mut out, Effect::Store(StoreUpdate::SyncManifest { community_id: cid.clone() }));
            emit(
                &mut out,
                Effect::Store(
                    StoreUpdate::SyncChannel {
                        community_id: cid.clone(),
                        channel_id: channel_id.clone(),
                        with_key: true,
                    },
                ),
            );
            emit(
                &mut out,
                Effect::Publish {
                    topic: topic_of_community(cid.as_str()),
                    event: NetworkEvent::ManifestUpdate(new_signed),
                },
            );
            emit(
                &mut out,
                Effect::Publish {
                    topic: topic_of_community(cid.as_str()),
                    event: NetworkEvent::ChannelManifestBroadcast(
                        ChannelManifestBroadcastPayload { manifest },
                    ),
                },
            );
            emit(
                &mut out,
                Effect::Push(
                    PushEvent::CommunityManifestUpdated(
                        CommunityEventData {
                            community_id: cid.clone(),
                            version,
                            reason: String::new(),
                        },
                    ),
                ),
            );
        }
        emit(
            &mut out,
            Effect::Command(
                NetworkCommand::Subscribe(
                    topic_of_channel(channel_id.as_str()),
                ),
            ),
        );
        emit(
            &mut out,
            Effect::Push(
                PushEvent::ChannelCreated(
                    ChannelEventData { channel_id, community_id: cid, name: info.name.clone() },
                ),
            ),
        );
        proof {
            let s = old(self).deep_view();
            let c = manifest.deep_view();
            let after = channel_created(s, p.community_id@, c, key@);
            assert(self.deep_view().communities =~= after.communities);
            assert(out.deep_view() =~= channel_created_effects(s, p.community_id@, c));
        }
        (Ok(info), out)
    }

    /// Wrap `key` for every member of a community.
    fn wraps_for(&self, community_id: &str, key: &ChannelKey) -> (r: Vec<MemberKey>)
        ensures
            wrapped_for_members(r.deep_view(), key@, self.deep_view().member_list(community_id@)),
    {
        match self.members.get(community_id) {
            Some(list) => wrap_for_members(key, list),
            None => {
                let empty: Table<MembershipRecord> = Table::new();
                wrap_for_members(key, &empty)
            },
        }
    }

    /// Create a channel: a fresh id, a random key wrapped for every community
    /// member, and the community manifest re-signed to list it. Only the
    /// community's creator may.
    pub fn channel_create(&mut self, p: CreateChannelParams) -> (r: (
        Result<ChannelInfo, RpcError>,
        Vec<Effect>,
    ))
        requires
            version_can_grow(old(self).deep_view(), p.community_id@),
        ensures
            r.0 is Ok ==> final(self).deep_view().communities[p.community_id@].valid(),
            match create_refusal(old(self).deep_view(), p.community_id@, p.name@) {
                Some(e) => r.0 == Err::<ChannelInfo, RpcError>(e) && r.1.deep_view().len() == 0
                    && final(self).deep_view() == old(self).deep_view(),
                None => exists|channel: ChannelManifestView, key: Seq<u8>|
                    {
                        &&& channel == new_channel(
                            channel.id,
                            p.community_id@,
                            p.name@,
                            p.kind,
                            channel.encrypted_channel_key,
                            channel.created_at,
                        )
                        &&& wrapped_for_members(
                            channel.encrypted_channel_key,
                            key,
                            old(self).deep_view().member_list(p.community_id@),
                        )
                        &&& r.0 matches Ok(info) && info.deep_view() == channel_info(channel)
                        &&& final(self).deep_view() == #[trigger] channel_created(
                            old(self).deep_view(),
                            p.community_id@,
                            channel,
                            key,
                        )
                        &&& r.1.deep_view() == channel_created_effects(
                            old(self).deep_view(),
                            p.community_id@,
                            channel,
                        )
                    },
            },
    {
        let key = ChannelKey::generate();
        let keys = self.wraps_for(p.community_id.as_str(), &key);
        let id = ChannelId::new();
        let now = Timestamp::now();
        let key_bytes = *key.as_bytes();
        let ghost s = old(self).deep_view();
        let ghost channel = new_channel(id, p.community_id@, p.name@, p.kind, keys.deep_view(), now);
        let ghost cid = p.community_id@;
        let r = self.channel_create_with(p, id, key_bytes, keys, now);
        proof {
            if create_refusal(s, cid, p.name@) is None {
                assert(self.deep_view() == channel_created(s, cid, channel, key@));
            }
        }
        r
    }

    /// Delete a channel and re-sign the community manifest without it. Only the
    /// community's creator may.
    #[verifier::rlimit(60)]
    pub fn channel_delete(&mut self, p: DeleteChannelParams) -> (r: (
        Result<bool, RpcError>,
        Vec<Effect>,
    ))
        requires
            version_can_grow(old(self).deep_view(), p.community_id@),
        ensures
            r.0 is Ok ==> final(self).deep_view().communities[p.community_id@].valid(),
            final(self).deep_view() == channel_deleted(
                old(self).deep_view(),
                p.community_id@,
                p.channel_id@,
            ),
            r.0 == match delete_refusal(old(self).deep_view(), p.community_id@, p.channel_id@) {
                Some(e) => Err(e),
                None => Ok(true),
            },
            r.1.deep_view() == channel_deleted_effects(
                old(self).deep_view(),
                p.community_id@,
                p.channel_id@,
            ),
    {
        let ghost s = old(self).deep_view();
        if self.is_made_elsewhere(p.community_id.as_str()) {
            return (Err(RpcError::CreatorOnly), no_effects());
        }
        if let Err(e) = self.require_seed_connected(p.community_id.as_str()) {
            return (Err(e), no_effects());
        }
        let name = match self.channels.get(p.channel_id.as_str()) {
            Some(c) => c.name.clone(),
            None => {
                return (Err(RpcError::ChannelNotFound), no_effects());
            },
        };
        self.channels.remove(p.channel_id.as_str());
        self.channel_keys.remove(p.channel_id.as_str());
        let mut out = no_effects();
        emit(&mut out, Effect::Save(TableFile::Channels));
        emit(&mut out, Effect::Save(TableFile::ChannelKeys));
        let id = match ChannelId::from_string(p.channel_id.as_str()) {
            Some(id) => id,
            None => {
                assert(out.deep_view() =~= channel_deleted_effects(s, p.community_id@, p.channel_id@));
                return (Err(RpcError::InvalidChannelId), out);
            },
        };
        if let Some(signed) = self.communities.remove(p.community_id.as_str()) {
            let mut updated = signed.manifest;
            updated.channel_ids = filter_channel(&updated.channel_ids, id);
            updated.version = updated.version + 1;
            let new_signed = updated.sign(self.local.signing_key());
            self.communities.insert(p.community_id.as_str(), new_signed.clone());
            emit(&mut out, Effect::Save(TableFile::Communities));
            emit(
                &mut out,
                Effect::Store(
                    StoreUpdate::DropChannel {
                        community_id: p.community_id.clone(),
                        channel_id: p.channel_id.clone(),
                    },
                ),
            );
            emit(
                &mut out,
                Effect::Command(
                    NetworkCommand::Unsubscribe(topic_of_channel(p.channel_id.as_str())),
                ),
            );
            emit(
                &mut out,
                Effect::Publish {
                    topic: topic_of_community(p.community_id.as_str()),
                    event: NetworkEvent::ManifestUpdate(new_signed),
                },
            );
        }
        emit(
            &mut out,
            Effect::Push(
                PushEvent::ChannelDeleted(
                    ChannelEventData {
                        channel_id: p.channel_id,
                        community_id: p.community_id,
                        name,
                    },
                ),
            ),
        );
        proof {
            let after = channel_deleted(s, p.community_id@, p.channel_id@);
            assert(self.deep_view().communities =~= after.communities);
            assert(out.deep_view() =~= channel_deleted_effects(s, p.community_id@, p.channel_id@));
        }
        (Ok(true), out)
    }

    /// Replace a channel's key by the given one, with the given per-member
    /// wraps. The old key is retained for decryption of older messages.
    pub fn channel_rotate_key_with(
        &mut self,
        p: RotateKeyParams,
        key: [u8; 32],
        keys: Vec<MemberKey>,
    ) -> (r: (Result<bool, RpcError>, Vec<Effect>))
        requires
            channel_version_can_grow(old(self).deep_view(), p.channel_id@),
        ensures
            match rotate_refusal(old(self).deep_view(), p.community_id@, p.channel_id@) {
                Some(e) => r.0 == Err::<bool, RpcError>(e) && r.1.deep_view().len() == 0 && final(self).deep_view() == old(self).deep_view(),
                None => {
                    &&& r.0 == Ok::<bool, RpcError>(true)
                    &&& final(self).deep_view() == key_rotated(
                        old(self).deep_view(),
                        p.channel_id@,
                        key@,
                        keys.deep_view(),
                    )
                    &&& r.1.deep_view() == key_rotated_effects(
                        old(self).deep_view(),
                        p.community_id@,
                        p.channel_id@,
                        key@,
                        keys.deep_view(),
                    )
                },
            },
    {
        broadcast use array_deep_view;

        let ghost s = old(self).deep_view();
        if self.is_made_elsewhere(p.community_id.as_str()) {
            return (Err(RpcError::CreatorOnly), no_effects());
        }
        if let Err(e) = self.require_seed_connected(p.community_id.as_str()) {
            return (Err(e), no_effects());
        }
        if !self.channels.contains_key(p.channel_id.as_str()) {
            return (Err(RpcError::ChannelNotFound), no_effects());
        }
        let mut out = no_effects();
        self.retain_key(p.channel_id.as_str(), &key, &mut out);
        self.channel_keys.insert(p.channel_id.as_str(), key);
        emit(&mut out, Effect::Save(TableFile::ChannelKeys));
        if let Some(old_manifest) = self.channels.remove(p.channel_id.as_str()) {
            let mut updated = old_manifest;
            updated.version = updated.version + 1;
            updated.encrypted_channel_key = keys;
            let signature = sign_bytes(
                self.local.signing_key(),
                updated.canonical_bytes().as_slice(),
            );
            self.channels.insert(p.channel_id.as_str(), updated.clone());
            emit(&mut out, Effect::Save(TableFile::Channels));
            emit(
                &mut out,
                Effect::Store(
                    StoreUpdate::RotateChannel {
                        community_id: p.community_id.clone(),
                        channel_id: p.channel_id.clone(),
                    },
                ),
            );
            emit(
                &mut out,
                Effect::Publish {
                    topic: topic_of_channel(p.channel_id.as_str()),
                    event: NetworkEvent::ChannelKeyRotation(
                        ChannelKeyRotationPayload { new_manifest: updated.clone(), signature },
                    ),
                },
            );
            emit(
                &mut out,
                Effect::Publish {
                    topic: topic_of_community(p.community_id.as_str()),
                    event: NetworkEvent::ChannelManifestBroadcast(
                        ChannelManifestBroadcastPayload { manifest: updated },
                    ),
                },
            );
        }
        proof {
            let after = key_rotated(s, p.channel_id@, key@, keys.deep_view());
            assert(self.deep_view().channels =~= after.channels);
            assert(out.deep_view() =~= key_rotated_effects(
                s,
                p.community_id@,
                p.channel_id@,
                key@,
                keys.deep_view(),
            ));
        }
        (Ok(true), out)
    }

    /// Rotate a channel's key: a random key, wrapped for every member. Only the
    /// community's creator may.
    pub fn channel_rotate_key(&mut self, p: RotateKeyParams) -> (r: (
        Result<bool, RpcError>,
        Vec<Effect>,
    ))
        requires
            channel_version_can_grow(old(self).deep_view(), p.channel_id@),
        ensures
            match rotate_refusal(old(self).deep_view(), p.community_id@, p.channel_id@) {
                Some(e) => r.0 == Err::<bool, RpcError>(e) && r.1.deep_view().len() == 0 && final(self).deep_view() == old(self).deep_view(),
                None => r.0 == Ok::<bool, RpcError>(true) && exists|
                    key: Seq<u8>,
                    keys: Seq<(UserId, Seq<u8>)>,
                |
                    {
                        &&& wrapped_for_members(
                            keys,
                            key,
                            old(self).deep_view().member_list(p.community_id@),
                        )
                        &&& final(self).deep_view() == #[trigger] key_rotated(
                            old(self).deep_view(),
                            p.channel_id@,
                            key,
                            keys,
                        )
                        &&& r.1.deep_view() == key_rotated_effects(
                            old(self).deep_view(),
                            p.community_id@,
                            p.channel_id@,
                            key,
                            keys,
                        )
                    },
            },
    {
        let key = ChannelKey::generate();
        let keys = self.wraps_for(p.community_id.as_str(), &key);
        let ghost s = old(self).deep_view();
        let ghost cid = p.community_id@;
        let ghost ch = p.channel_id@;
        let ghost wraps = keys.deep_view();
        let r = self.channel_rotate_key_with(p, *key.as_bytes(), keys);
        proof {
            if rotate_refusal(s, cid, ch) is None {
                assert(self.deep_view() == key_rotated(s, ch, key@, wraps));
            }
        }
        r
    }

    /// Keep the current key of a channel as the previous one, when the channel
    /// has a key that differs from `new_key`. Says whether that is so.
    pub fn keep_previous_key(&mut self, channel_id: &str, new_key: &[u8; 32]) -> (r: bool)
        ensures
            r == key_changes(old(self).deep_view(), channel_id@, new_key@),
            final(self).deep_view() == (AppStateView {
                previous_channel_keys: retained(old(self).deep_view(), channel_id@, new_key@),
                ..old(self).deep_view()
            }),
    {
        broadcast use array_deep_view;

        let mut changed: Option<[u8; 32]> = None;
        if let Some(current) = self.channel_keys.get(channel_id) {
            if !same_array(current, new_key) {
                changed = Some(*current);
            }
        }
        match changed {
            Some(current) => {
                self.previous_channel_keys.insert(channel_id, current);
                true
            },
            None => false,
        }
    }

    /// Keep the current key of a channel as the previous one and save it, when
    /// the channel has a key that differs from `new_key`.
    pub fn retain_key(&mut self, channel_id: &str, new_key: &[u8; 32], out: &mut Vec<Effect>)
        ensures
            final(self).deep_view() == (AppStateView {
                previous_channel_keys: retained(old(self).deep_view(), channel_id@, new_key@),
                ..old(self).deep_view()
            }),
            final(out).deep_view() == old(out).deep_view() + retained_effects(
                old(self).deep_view(),
                channel_id@,
                new_key@,
            ),
    {
        if self.keep_previous_key(channel_id, new_key) {
            emit(out, Effect::Save(TableFile::PreviousChannelKeys));
        }
        assert(out.deep_view() =~= old(out).deep_view() + retained_effects(
            old(self).deep_view(),
            channel_id@,
            new_key@,
        ));
    }
}

/// Whether a channel is about to get a key that differs from its current one.
pub open spec fn key_changes(s: AppStateView, channel_id: Seq<char>, new_key: Seq<u8>) -> bool {
    s.channel_keys.contains_key(channel_id) && s.channel_keys[channel_id] != new_key
}

/// The previous keys after a channel gets a new key.
pub open spec fn retained(s: AppStateView, channel_id: Seq<char>, new_key: Seq<u8>) -> Map<
    Seq<char>,
    Seq<u8>,
> {
    if key_changes(s, channel_id, new_key) {
        s.previous_channel_keys.insert(channel_id, s.channel_keys[channel_id])
    } else {
        s.previous_channel_keys
    }
}

/// What is done for the previous keys when a channel gets a new key.
pub open spec fn retained_effects(s: AppStateView, channel_id: Seq<char>, new_key: Seq<u8>) -> Seq<
    EffectView,
> {
    if key_changes(s, channel_id, new_key) {
        seq![EffectView::Save(TableFile::PreviousChannelKeys)]
    } else {
        Seq::empty()
    }
}

/// The channels of `ids` other than `id`.
pub open spec fn other_channels(ids: Seq<ChannelId>, id: ChannelId) -> Seq<ChannelId>
    decreases ids.len(),
{
    if ids.len() == 0 {
        Seq::empty()
    } else {
        let head = other_channels(ids.drop_last(), id);
        if ids.last() != id {
            head.push(ids.last())
        } else {
            head
        }
    }
}

/// The channels of `ids` other than `id`.
pub fn filter_channel(ids: &Vec<ChannelId>, id: ChannelId) -> (r: Vec<ChannelId>)
    ensures
        r@ == other_channels(ids@, id),
{
    let mut out: Vec<ChannelId> = Vec::new();
    let mut i: usize = 0;
    while i < ids.len()
        invariant
            i <= ids@.len(),
            out@ == other_channels(ids@.subrange(0, i as int), id),
        decreases ids@.len() - i,
    {
        assert(ids@.subrange(0, i + 1).drop_last() =~= ids@.subrange(0, i as int));
        if ids[i] != id {
            out.push(ids[i]);
        }
        i += 1;
    }
    assert(ids@.subrange(0, ids@.len() as int) =~= ids@);
    out
}

/// Striking a channel off a list leaves every other one and not itself.
pub proof fn other_channels_membership(ids: Seq<ChannelId>, id: ChannelId, c: ChannelId)
    ensures
        other_channels(ids, id).contains(c) <==> ids.contains(c) && c != id,
    decreases ids.len(),
{
    if ids.len() > 0 {
        let head = other_channels(ids.drop_last(), id);
        let x = ids.last();
        other_channels_membership(ids.drop_last(), id, c);
        assert(ids.contains(c) <==> ids.drop_last().contains(c) || x == c) by {
            if ids.contains(c) {
                let i = ids.index_of(c);
                if i < ids.len() - 1 {
                    assert(ids.drop_last()[i] == c);
                }
            }
            if ids.drop_last().contains(c) {
                let i = ids.drop_last().index_of(c);
                assert(ids[i] == c);
            }
        }
        assert(head.push(x).contains(c) <==> head.contains(c) || x == c) by {
            if head.contains(c) {
                let i = head.index_of(c);
                assert(head.push(x)[i] == c);
            }
            assert(head.push(x)[head.len() as int] == x);
        }
    }
}

/// Why a channel cannot be deleted, or cannot be struck off the manifest.
pub open spec fn delete_refusal(
    s: AppStateView,
    community_id: Seq<char>,
    channel_id: Seq<char>,
) -> Option<RpcError> {
    if made_elsewhere(s, community_id) {
        Some(RpcError::CreatorOnly)
    } else {
        match seed_check(s, community_id) {
            Err(e) => Some(e),
            Ok(_) => if !s.channels.contains_key(channel_id) {
                Some(RpcError::ChannelNotFound)
            } else if ulid_parse(channel_id) is None {
                Some(RpcError::InvalidChannelId)
            } else {
                None
            },
        }
    }
}

/// The state after a request to delete a channel.
pub open spec fn channel_deleted(
    s: AppStateView,
    community_id: Seq<char>,
    channel_id: Seq<char>,
) -> AppStateView {
    if made_elsewhere(s, community_id) || seed_check(s, community_id) is Err
        || !s.channels.contains_key(channel_id) {
        s
    } else {
        let dropped = AppStateView {
            channels: s.channels.remove(channel_id),
            channel_keys: s.channel_keys.remove(channel_id),
            ..s
        };
        match ulid_parse(channel_id) {
            None => dropped,
            Some(id) => AppStateView {
                communities: s.communities.insert(
                    community_id,
                    without_channel(
                        s.communities[community_id].manifest,
                        ChannelId(id),
                    ).signed_with(s.local.key),
                ),
                ..dropped
            },
        }
    }
}

/// What is done on a request to delete a channel.
pub open spec fn channel_deleted_effects(
    s: AppStateView,
    community_id: Seq<char>,
    channel_id: Seq<char>,
) -> Seq<EffectView> {
    if made_elsewhere(s, community_id) || seed_check(s, community_id) is Err
        || !s.channels.contains_key(channel_id) {
        Seq::empty()
    } else {
        let saves = seq![
            EffectView::Save(TableFile::Channels),
            EffectView::Save(TableFile::ChannelKeys),
        ];
        match ulid_parse(channel_id) {
            None => saves,
            Some(id) => saves + seq![
                EffectView::Save(TableFile::Communities),
                EffectView::Store(StoreUpdateView::DropChannel { community_id, channel_id }),
                unsubscribe(channel_topic(channel_id)),
                EffectView::Publish {
                    topic: community_topic(community_id),
                    event: NetworkEventView::ManifestUpdate(
                        without_channel(
                            s.communities[community_id].manifest,
                            ChannelId(id),
                        ).signed_with(s.local.key),
                    ),
                },
                EffectView::Push(
                    PushEventView::ChannelDeleted(
                        ChannelEventDataView {
                            channel_id,
                            community_id,
                            name: s.channels[channel_id].name,
                        },
                    ),
                ),
            ],
        }
    }
}

/// The version of a channel's manifest can still grow.
pub open spec fn channel_version_can_grow(s: AppStateView, channel_id: Seq<char>) -> bool {
    s.channels.contains_key(channel_id) ==> s.channels[channel_id].version < u64::MAX
}

/// Why a key cannot be rotated.
pub open spec fn rotate_refusal(
    s: AppStateView,
    community_id: Seq<char>,
    channel_id: Seq<char>,
) -> Option<RpcError> {
    if made_elsewhere(s, community_id) {
        Some(RpcError::CreatorOnly)
    } else {
        match seed_check(s, community_id) {
            Err(e) => Some(e),
            Ok(_) => if !s.channels.contains_key(channel_id) {
                Some(RpcError::ChannelNotFound)
            } else {
                None
            },
        }
    }
}

/// The channel manifest after a rotation.
pub open spec fn rotated_manifest(
    m: ChannelManifestView,
    keys: Seq<(UserId, Seq<u8>)>,
) -> ChannelManifestView {
    ChannelManifestView { version: (m.version + 1) as u64, encrypted_channel_key: keys, ..m }
}

/// The state after a key rotation.
pub open spec fn key_rotated(
    s: AppStateView,
    channel_id: Seq<char>,
    key: Seq<u8>,
    keys: Seq<(UserId, Seq<u8>)>,
) -> AppStateView {
    AppStateView {
        previous_channel_keys: retained(s, channel_id, key),
        channel_keys: s.channel_keys.insert(channel_id, key),
        channels: s.channels.insert(channel_id, rotated_manifest(s.channels[channel_id], keys)),
        ..s
    }
}

/// What is done after a key rotation.
pub open spec fn key_rotated_effects(
    s: AppStateView,
    community_id: Seq<char>,
    channel_id: Seq<char>,
    key: Seq<u8>,
    keys: Seq<(UserId, Seq<u8>)>,
) -> Seq<EffectView> {
    let manifest = rotated_manifest(s.channels[channel_id], keys);
    retained_effects(s, channel_id, key) + seq![
        EffectView::Save(TableFile::ChannelKeys),
        EffectView::Save(TableFile::Channels),
        EffectView::Store(StoreUpdateView::RotateChannel { community_id, channel_id }),
        EffectView::Publish {
            topic: channel_topic(channel_id),
            event: NetworkEventView::ChannelKeyRotation {
                new_manifest: manifest,
                signature: ed25519_signature(s.local.key, manifest.canonical()),
            },
        },
        EffectView::Publish {
            topic: community_topic(community_id),
            event: NetworkEventView::ChannelManifestBroadcast(manifest),
        },
    ]
}

/// After a rotation to a different key, the old key is still at hand for
/// messages encrypted before it.
pub proof fn rotation_retains_the_old_key(
    s: AppStateView,
    channel_id: Seq<char>,
    key: Seq<u8>,
    keys: Seq<(UserId, Seq<u8>)>,
)
    requires
        s.channel_keys.contains_key(channel_id),
        s.channel_keys[channel_id] != key,
    ensures
        ({
            let t = key_rotated(s, channel_id, key, keys);
            &&& t.channel_keys[channel_id] == key
            &&& t.previous_channel_keys.contains_key(channel_id)
            &&& t.previous_channel_keys[channel_id] == s.channel_keys[channel_id]
            &&& t.channels[channel_id].version == s.channels[channel_id].version + 1
                || s.channels[channel_id].version == u64::MAX
        }),
{
}

/// Every manifest that a creator's own change produces carries a higher
/// version, so that it replaces the older one everywhere.
pub proof fn channel_changes_raise_the_version(
    m: CommunityManifestView,
    id: ChannelId,
)
    requires
        m.version < u64::MAX,
    ensures
        with_channel(m, id).version > m.version,
        without_channel(m, id).version > m.version,
        !without_channel(m, id).channel_ids.contains(id),
        with_channel(m, id).channel_ids.contains(id),
{
    other_channels_membership(m.channel_ids, id, id);
    let after = m.channel_ids.push(id);
    assert(after[m.channel_ids.len() as int] == id);
}

} // verus!
