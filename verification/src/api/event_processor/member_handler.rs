//! Events about the members of a community.

use crate::api::effects::{
    emit, no_effects, Effect, EffectView, StoreUpdate, StoreUpdateView, TableFile,
};
use crate::api::push_broadcaster::{
    MemberEventData, MemberEventDataView, MemberRoleUpdatedData, PresenceChangedData, PushEvent,
    PushEventView,
};
use crate::api::rpc_server::community::with_record;
use crate::api::rpc_server::member::{
    ban_list, is_creator, member_left_push, presence_push, role_push, role_text, status_name,
    status_text, with_role, without_member,
};
use crate::api::types::UserStatus;
use crate::api::{
    community_topic, is_record_of, not_a_member, topic_of_community, AppState, AppStateView,
    DmPeerInfo, DmPeerInfoView,
};
use crate::bytes::{same_array, to_array, zeros};
use crate::crypto::channel_keys::{delivers, is_wrapping, ChannelKey};
use crate::crypto::primitives::{ed25519_accepts, ed25519_public_key, ed25519_verify};
use crate::lists::{array_deep_view, copy_all, has_text, vec_deep_view, views, views_push};
use crate::model::channel::{
    added_key_counts, has_member_key, member_key, member_key_iff_listed, ChannelManifest,
    ChannelManifestView, MemberKey,
};
use crate::model::membership::{MembershipRecord, MembershipRecordView, Role};
use crate::model::network_event::{
    accepts, leave_bytes, leave_message, presence_bytes, presence_message, role_bytes,
    role_message, verify_bytes, ChannelManifestBroadcastPayload, MemberLeftPayload,
    MemberRoleUpdatedPayload, NetworkEvent, NetworkEventView, PresenceHeartbeatPayload,
};
use crate::model::types::{ChannelId, CommunityId, UserId};
use crate::table::{entry_in_map, lists, position};
use crate::text::same_text;
use crate::time::Timestamp;
use vstd::prelude::*;

verus! {

/// Whether `after` is `before` with a wrapping `w` of `key` added for a member
/// who can open it.
pub open spec fn wrap_added(
    before: ChannelManifestView,
    after: ChannelManifestView,
    user: UserId,
    pk: Seq<u8>,
    key: Seq<u8>,
    w: Seq<u8>,
) -> bool {
    &&& after == (ChannelManifestView {
        encrypted_channel_key: before.encrypted_channel_key.push((user, w)),
        ..before
    })
    &&& is_wrapping(key, pk, w)
    &&& delivers(key, pk, w)
}

/// Wrap a channel's key for a member who has none yet. False when the member
/// has one.
pub fn add_wrap(ch: &mut ChannelManifest, key: &[u8; 32], user: &UserId, pk: &[u8; 32]) -> (r: bool)
    ensures
        r == !has_member_key(old(ch).deep_view().encrypted_channel_key, *user),
        r ==> wrap_added(
            old(ch).deep_view(),
            final(ch).deep_view(),
            *user,
            pk@,
            key@,
            final(ch).deep_view().encrypted_channel_key.last().1,
        ),
        !r ==> final(ch).deep_view() == old(ch).deep_view(),
{
    broadcast use vec_deep_view, views_push;

    proof {
        member_key_iff_listed(old(ch).deep_view().encrypted_channel_key, *user);
    }
    if ch.key_for(user).is_some() {
        return false;
    }
    match ChannelKey::from_bytes(*key).encrypt_for_member(pk) {
        Ok(wrapped) => {
            let ghost before = views(ch.encrypted_channel_key@);
            let ghost w = wrapped@;
            ch.encrypted_channel_key.push(MemberKey { user_id: *user, wrapped });
            assert(views(ch.encrypted_channel_key@) == before.push((*user, w)));
        },
        Err(_) => {
            assert(false);
        },
    }
    true
}

/// Whether a channel's key is at hand and not yet wrapped for a member.
pub open spec fn needs_wrap(
    channels: Map<Seq<char>, ChannelManifestView>,
    keys: Map<Seq<char>, Seq<u8>>,
    channel: Seq<char>,
    user: UserId,
) -> bool {
    keys.contains_key(channel) && channels.contains_key(channel) && !has_member_key(
        channels[channel].encrypted_channel_key,
        user,
    )
}

/// The channels after their keys were shared with a member; `wraps` holds one
/// wrapping per channel, used where the member had none.
pub open spec fn shared(
    channels: Map<Seq<char>, ChannelManifestView>,
    keys: Map<Seq<char>, Seq<u8>>,
    ids: Seq<ChannelId>,
    user: UserId,
    wraps: Seq<Seq<u8>>,
) -> Map<Seq<char>, ChannelManifestView>
    decreases ids.len(),
{
    if ids.len() == 0 {
        channels
    } else {
        let before = shared(channels, keys, ids.drop_last(), user, wraps.drop_last());
        let c = ids.last().name();
        if needs_wrap(before, keys, c, user) {
            before.insert(
                c,
                ChannelManifestView {
                    encrypted_channel_key: before[c].encrypted_channel_key.push(
                        (user, wraps.last()),
                    ),
                    ..before[c]
                },
            )
        } else {
            before
        }
    }
}

/// Whether every wrapping that is used opens to the channel's key.
pub open spec fn wraps_open(
    channels: Map<Seq<char>, ChannelManifestView>,
    keys: Map<Seq<char>, Seq<u8>>,
    ids: Seq<ChannelId>,
    user: UserId,
    pk: Seq<u8>,
    wraps: Seq<Seq<u8>>,
) -> bool
    decreases ids.len(),
{
    &&& wraps.len() == ids.len()
    &&& ids.len() > 0 ==> {
        let before = shared(channels, keys, ids.drop_last(), user, wraps.drop_last());
        let c = ids.last().name();
        &&& wraps_open(channels, keys, ids.drop_last(), user, pk, wraps.drop_last())
        &&& needs_wrap(before, keys, c, user) ==> is_wrapping(keys[c], pk, wraps.last())
            && delivers(keys[c], pk, wraps.last())
    }
}

/// Announce and save each channel whose key was shared.
pub open spec fn shared_effects(
    community_id: Seq<char>,
    channels: Map<Seq<char>, ChannelManifestView>,
    keys: Map<Seq<char>, Seq<u8>>,
    ids: Seq<ChannelId>,
    user: UserId,
    wraps: Seq<Seq<u8>>,
) -> Seq<EffectView>
    decreases ids.len(),
{
    if ids.len() == 0 {
        Seq::empty()
    } else {
        let head = shared_effects(
            community_id,
            channels,
            keys,
            ids.drop_last(),
            user,
            wraps.drop_last(),
        );
        let before = shared(channels, keys, ids.drop_last(), user, wraps.drop_last());
        let c = ids.last().name();
        if needs_wrap(before, keys, c, user) {
            head + seq![
                EffectView::Publish {
                    topic: community_topic(community_id),
                    event: NetworkEventView::ChannelManifestBroadcast(
                        shared(channels, keys, ids, user, wraps)[c],
                    ),
                },
                EffectView::Save(TableFile::Channels),
            ]
        } else {
            head
        }
    }
}

/// Whether a membership record is accepted: its own user signed it, and is not
/// banned from the community.
pub open spec fn join_accepted(s: AppStateView, m: MembershipRecordView) -> bool {
    m.self_signed() && !ban_list(s, m.community_id.name()).contains(m.user_id.name())
}

/// The channels whose keys the local node shares with new members: those of a
/// community that it created.
pub open spec fn channels_to_share(s: AppStateView, community_id: Seq<char>) -> Seq<ChannelId> {
    if s.communities.contains_key(community_id) && s.communities[community_id].manifest.public_key
        == ed25519_public_key(s.local.key) {
        s.communities[community_id].manifest.channel_ids
    } else {
        Seq::empty()
    }
}

/// The state after a member joined.
pub open spec fn member_joined_state(
    s: AppStateView,
    m: MembershipRecordView,
    wraps: Seq<Seq<u8>>,
) -> AppStateView {
    let community = m.community_id.name();
    let user = m.user_id.name();
    AppStateView {
        members: with_record(s, community, user, m),
        dm_peers: s.dm_peers.insert(
            user,
            DmPeerInfoView {
                display_name: m.display_name,
                x25519_public_key: m.x25519_public_key,
            },
        ),
        channels: shared(
            s.channels,
            s.channel_keys,
            channels_to_share(s, community),
            m.user_id,
            wraps,
        ),
        ..s
    }
}

/// What is done after a member joined.
pub open spec fn member_joined_effects(
    s: AppStateView,
    m: MembershipRecordView,
    wraps: Seq<Seq<u8>>,
) -> Seq<EffectView> {
    let community = m.community_id.name();
    let user = m.user_id.name();
    let store = if s.communities.contains_key(community) {
        seq![
            EffectView::Store(
                StoreUpdateView::SyncMember { community_id: community, user_id: user },
            ),
        ]
    } else {
        Seq::empty()
    };
    seq![EffectView::Save(TableFile::Members), EffectView::Save(TableFile::DmPeers)] + store
        + shared_effects(
        community,
        s.channels,
        s.channel_keys,
        channels_to_share(s, community),
        m.user_id,
        wraps,
    ) + seq![
        EffectView::Push(
            PushEventView::MemberJoined(
                MemberEventDataView {
                    user_id: user,
                    community_id: community,
                    display_name: m.display_name,
                },
            ),
        ),
    ]
}

/// What a membership record that came in leads to.
pub open spec fn member_joined(
    s: AppStateView,
    after: AppStateView,
    m: MembershipRecordView,
    fx: Seq<EffectView>,
) -> bool {
    if !join_accepted(s, m) {
        after == s && fx.len() == 0
    } else {
        exists|wraps: Seq<Seq<u8>>|
            {
                &&& #[trigger] wraps_open(
                    s.channels,
                    s.channel_keys,
                    channels_to_share(s, m.community_id.name()),
                    m.user_id,
                    m.x25519_public_key,
                    wraps,
                )
                &&& after == member_joined_state(s, m, wraps)
                &&& fx == member_joined_effects(s, m, wraps)
            }
    }
}

/// Whether a record of a member list may sign the departure of `user`: it is
/// the user's own, or that of an admin or moderator.
pub open spec fn may_remove(m: MembershipRecordView, user: UserId) -> bool {
    m.user_id == user || m.is_privileged()
}

/// Whether a departure is signed by the member themselves or by an admin or
/// moderator of the community.
pub open spec fn departure_signed(
    s: AppStateView,
    user: UserId,
    community: CommunityId,
    signature: Seq<u8>,
) -> bool {
    exists|k: Seq<char>|
        #![trigger s.member_list(community.name())[k]]
        s.member_list(community.name()).contains_key(k) && may_remove(
            s.member_list(community.name())[k],
            user,
        ) && accepts(
            s.member_list(community.name())[k].public_key,
            leave_message(user, community),
            signature,
        )
}

/// What is done after a member left.
pub open spec fn departure_effects(
    s: AppStateView,
    community_id: Seq<char>,
    user_id: Seq<char>,
) -> Seq<EffectView> {
    let store = if s.communities.contains_key(community_id) {
        seq![EffectView::Store(StoreUpdateView::DropMember { community_id, user_id })]
    } else {
        Seq::empty()
    };
    seq![EffectView::Save(TableFile::Members)] + store + seq![
        member_left_push(
            community_id,
            user_id,
            s.members[community_id][user_id].display_name,
        ),
    ]
}

/// What a departure that came in leads to.
pub open spec fn member_left(
    s: AppStateView,
    after: AppStateView,
    user: UserId,
    community: CommunityId,
    signature: Seq<u8>,
    fx: Seq<EffectView>,
) -> bool {
    if departure_signed(s, user, community, signature) && s.member_list(
        community.name(),
    ).contains_key(user.name()) {
        &&& after == without_member(s, community.name(), user.name())
        &&& fx == departure_effects(s, community.name(), user.name())
    } else {
        after == s && fx.len() == 0
    }
}

/// Whether a role change is signed by an admin of the community.
pub open spec fn role_change_signed(
    s: AppStateView,
    user: UserId,
    community: CommunityId,
    role: Role,
    signature: Seq<u8>,
) -> bool {
    exists|k: Seq<char>|
        #![trigger s.member_list(community.name())[k]]
        s.member_list(community.name()).contains_key(k) && s.member_list(
            community.name(),
        )[k].is_admin() && accepts(
            s.member_list(community.name())[k].public_key,
            role_message(user, community, role),
            signature,
        )
}

/// What a role change that came in leads to. The role of the creator never
/// changes.
pub open spec fn role_changed(
    s: AppStateView,
    after: AppStateView,
    user: UserId,
    community: CommunityId,
    role: Role,
    signature: Seq<u8>,
    fx: Seq<EffectView>,
) -> bool {
    if role_change_signed(s, user, community, role, signature) && s.member_list(
        community.name(),
    ).contains_key(user.name()) && !is_creator(s, community.name(), user.name()) {
        &&& after == with_role(s, community.name(), user.name(), role)
        &&& fx == seq![
            EffectView::Save(TableFile::Members),
            role_push(community.name(), user.name(), role),
        ]
    } else {
        after == s && fx.len() == 0
    }
}

/// The status that a heartbeat names; offline for an unknown text.
pub open spec fn status_of_text(t: Seq<char>) -> UserStatus {
    if t == "online"@ {
        UserStatus::Online
    } else if t == "idle"@ {
        UserStatus::Idle
    } else if t == "do_not_disturb"@ {
        UserStatus::DoNotDisturb
    } else if t == "invisible"@ {
        UserStatus::Invisible
    } else {
        UserStatus::Offline
    }
}

/// The status that a heartbeat names.
pub fn parse_status(t: &str) -> (r: UserStatus)
    ensures
        r == status_of_text(t@),
{
    if same_text(t, "online") {
        UserStatus::Online
    } else if same_text(t, "idle") {
        UserStatus::Idle
    } else if same_text(t, "do_not_disturb") {
        UserStatus::DoNotDisturb
    } else if same_text(t, "invisible") {
        UserStatus::Invisible
    } else {
        UserStatus::Offline
    }
}

/// Whether `pk` signed a heartbeat. A signature of the wrong length counts as
/// all zero.
pub open spec fn heartbeat_signed(
    pk: Seq<u8>,
    user: UserId,
    status: Seq<char>,
    at: Timestamp,
    signature: Seq<u8>,
) -> bool {
    ed25519_accepts(
        pk,
        presence_message(user, status, at),
        if signature.len() == 64 {
            signature
        } else {
            zeros(64)
        },
    )
}

/// What a heartbeat that came in leads to. Any record of the user may supply
/// the key that decides.
pub open spec fn heartbeat_handled(
    s: AppStateView,
    after: AppStateView,
    user: UserId,
    status: Seq<char>,
    at: Timestamp,
    signature: Seq<u8>,
    fx: Seq<EffectView>,
) -> bool {
    if not_a_member(s, user.name()) {
        after == s && fx.len() == 0
    } else {
        exists|m: MembershipRecordView|
            #[trigger] is_record_of(s, user.name(), m) && if heartbeat_signed(
                m.public_key,
                user,
                status,
                at,
                signature,
            ) {
                &&& after == (AppStateView {
                    presence: s.presence.insert(user.name(), status_of_text(status)),
                    ..s
                })
                &&& fx == seq![
                    presence_push(user.name(), status_name(status_of_text(status)), at),
                ]
            } else {
                after == s && fx.len() == 0
            }
    }
}

/// Whether the keys of the given channels were shared with a member under the
/// given wrappings, and the effects `start` extended accordingly.
pub open spec fn keys_shared(
    s: AppStateView,
    after: AppStateView,
    community_id: Seq<char>,
    ids: Seq<ChannelId>,
    user: UserId,
    pk: Seq<u8>,
    wraps: Seq<Seq<u8>>,
    start: Seq<EffectView>,
    fx: Seq<EffectView>,
) -> bool {
    &&& wraps_open(s.channels, s.channel_keys, ids, user, pk, wraps)
    &&& after == (AppStateView {
        channels: shared(s.channels, s.channel_keys, ids, user, wraps),
        ..s
    })
    &&& fx == start + shared_effects(
        community_id,
        s.channels,
        s.channel_keys,
        ids,
        user,
        wraps,
    )
}

impl AppState {
    /// Whether the local node created a community.
    pub fn created_here(&self, community_id: &str) -> (r: bool)
        ensures
            r == (self.deep_view().communities.contains_key(community_id@)
                && self.deep_view().communities[community_id@].manifest.public_key
                == ed25519_public_key(self.deep_view().local.key)),
    {
        match self.communities.get(community_id) {
            Some(signed) => same_array(&signed.manifest.public_key, &self.local.public_key()),
            None => false,
        }
    }

    /// Share the keys of the given channels with a member.
    #[verifier::rlimit(60)]
    fn share_keys(
        &mut self,
        community_id: &str,
        ids: &Vec<ChannelId>,
        user: &UserId,
        pk: &[u8; 32],
        out: &mut Vec<Effect>,
    )
        ensures
            exists|wraps: Seq<Seq<u8>>|
                #[trigger] keys_shared(
                    old(self).deep_view(),
                    final(self).deep_view(),
                    community_id@,
                    ids@,
                    *user,
                    pk@,
                    wraps,
                    old(out).deep_view(),
                    final(out).deep_view(),
                ),
    {
        broadcast use array_deep_view;

        let ghost s = old(self).deep_view();
        let ghost start = old(out).deep_view();
        let ghost mut wraps: Seq<Seq<u8>> = Seq::empty();
        let ghost none = shared_effects(
            community_id@,
            s.channels,
            s.channel_keys,
            Seq::empty(),
            *user,
            wraps,
        );
        assert(start + none =~= start);
        let n: usize = ids.len();
        let mut i: usize = 0;
        assert(ids@.subrange(0, 0) =~= Seq::<ChannelId>::empty());
        while i < n
            invariant
                i <= n,
                n == ids@.len(),
                wraps_open(
                    s.channels,
                    s.channel_keys,
                    ids@.subrange(0, i as int),
                    *user,
                    pk@,
                    wraps,
                ),
                self.deep_view() == (AppStateView {
                    channels: shared(
                        s.channels,
                        s.channel_keys,
                        ids@.subrange(0, i as int),
                        *user,
                        wraps,
                    ),
                    ..s
                }),
                out.deep_view() == start + shared_effects(
                    community_id@,
                    s.channels,
                    s.channel_keys,
                    ids@.subrange(0, i as int),
                    *user,
                    wraps,
                ),
            decreases n - i,
        {
            let ghost prev = ids@.subrange(0, i as int);
            let ghost next = ids@.subrange(0, i + 1);
            let ghost before = self.deep_view().channels;
            let ghost fx = out.deep_view();
            let ghost mut w: Seq<u8> = Seq::empty();
            assert(next.drop_last() =~= prev);
            let channel = ids[i].to_string();
            let key: Option<[u8; 32]> = match self.channel_keys.get(channel.as_str()) {
                Some(k) => Some(*k),
                None => None,
            };
            if let Some(k) = key {
                assert(k.deep_view() =~= k@);
                assert(s.channel_keys[channel@] == k@);
                if let Some(c) = self.channels.remove(channel.as_str()) {
                    let mut ch = c;
                    let added = add_wrap(&mut ch, &k, user, pk);
                    if added {
                        proof {
                            w = ch.deep_view().encrypted_channel_key.last().1;
                        }
                        self.channels.insert(channel.as_str(), ch.clone());
                        emit(
                            out,
                            Effect::Publish {
                                topic: topic_of_community(community_id),
                                event: NetworkEvent::ChannelManifestBroadcast(
                                    ChannelManifestBroadcastPayload { manifest: ch },
                                ),
                            },
                        );
                        emit(out, Effect::Save(TableFile::Channels));
                    } else {
                        self.channels.insert(channel.as_str(), ch);
                    }
                }
            }
            proof {
                let all = wraps.push(w);
                assert(all.drop_last() =~= wraps);
                assert(all.last() == w);
                let c = next.last().name();
                assert(c == channel@);
                if needs_wrap(before, s.channel_keys, c, *user) {
                    assert(is_wrapping(s.channel_keys[c], pk@, w));
                    assert(delivers(s.channel_keys[c], pk@, w));
                }
                assert(wraps_open(s.channels, s.channel_keys, next, *user, pk@, all));
                assert(self.deep_view().channels =~= shared(
                    s.channels,
                    s.channel_keys,
                    next,
                    *user,
                    all,
                ));
                assert(out.deep_view() =~= start + shared_effects(
                    community_id@,
                    s.channels,
                    s.channel_keys,
                    next,
                    *user,
                    all,
                ));
                wraps = all;
            }
            i += 1;
        }
        assert(ids@.subrange(0, ids@.len() as int) =~= ids@);
        assert(keys_shared(
            s,
            self.deep_view(),
            community_id@,
            ids@,
            *user,
            pk@,
            wraps,
            start,
            out.deep_view(),
        ));
    }

    /// Whether a membership record is accepted.
    pub fn accepts_join(&self, record: &MembershipRecord) -> (r: bool)
        ensures
            r == join_accepted(self.deep_view(), record.deep_view()),
    {
        if !record.verify() {
            return false;
        }
        !self.is_banned(
            record.community_id.to_string().as_str(),
            record.user_id.to_string().as_str(),
        )
    }

    /// Whether a user is banned from a community.
    pub fn is_banned(&self, community_id: &str, user_id: &str) -> (r: bool)
        ensures
            r == ban_list(self.deep_view(), community_id@).contains(user_id@),
    {
        match self.bans.get(community_id) {
            Some(list) => has_text(list, user_id),
            None => false,
        }
    }

    /// Store a membership record that came in.
    #[verifier::rlimit(60)]
    pub fn handle_member_joined(&mut self, record: MembershipRecord) -> (r: Vec<Effect>)
        ensures
            member_joined(
                old(self).deep_view(),
                final(self).deep_view(),
                record.deep_view(),
                r.deep_view(),
            ),
    {
        broadcast use array_deep_view;

        let ghost s = old(self).deep_view();
        let ghost m = record.deep_view();
        if !self.accepts_join(&record) {
            return no_effects();
        }
        let community = record.community_id.to_string();
        let user = record.user_id.to_string();
        let display_name = record.display_name.clone();
        let user_id = record.user_id;
        let pk: [u8; 32] = record.x25519_public_key;
        self.put_member(community.as_str(), user.as_str(), record);
        let mut out = no_effects();
        emit(&mut out, Effect::Save(TableFile::Members));
        self.dm_peers.insert(
            user.as_str(),
            DmPeerInfo { display_name: display_name.clone(), x25519_public_key: pk },
        );
        emit(&mut out, Effect::Save(TableFile::DmPeers));
        if self.communities.contains_key(community.as_str()) {
            emit(
                &mut out,
                Effect::Store(
                    StoreUpdate::SyncMember {
                        community_id: community.clone(),
                        user_id: user.clone(),
                    },
                ),
            );
        }
        let ghost head = out.deep_view();
        let mut ids: Vec<ChannelId> = Vec::new();
        if self.created_here(community.as_str()) {
            if let Some(signed) = self.communities.get(community.as_str()) {
                ids = copy_all(&signed.manifest.channel_ids);
            }
        }
        assert(ids@ =~= channels_to_share(s, community@));
        let ghost mid = self.deep_view();
        self.share_keys(community.as_str(), &ids, &user_id, &pk, &mut out);
        let ghost wraps = choose|wraps: Seq<Seq<u8>>|
            #[trigger] keys_shared(
                mid,
                self.deep_view(),
                community@,
                ids@,
                user_id,
                pk@,
                wraps,
                head,
                out.deep_view(),
            );
        emit(
            &mut out,
            Effect::Push(
                PushEvent::MemberJoined(
                    MemberEventData { user_id: user, community_id: community, display_name },
                ),
            ),
        );
        proof {
            assert(wraps_open(
                s.channels,
                s.channel_keys,
                channels_to_share(s, m.community_id.name()),
                m.user_id,
                m.x25519_public_key,
                wraps,
            ));
            assert(self.deep_view() == member_joined_state(s, m, wraps));
            assert(out.deep_view() =~= member_joined_effects(s, m, wraps));
        }
        out
    }

    /// Whether some member who may remove `user` signed the departure.
    fn departure_is_signed(&self, p: &MemberLeftPayload) -> (r: bool)
        ensures
            r == departure_signed(
                self.deep_view(),
                p.user_id,
                p.community_id,
                p.signature@,
            ),
    {
        let ghost s = self.deep_view();
        let ghost list_view = s.member_list(p.community_id.name());
        let msg = leave_bytes(&p.user_id, &p.community_id);
        if let Some(list) = self.members.get(p.community_id.to_string().as_str()) {
            let n: usize = list.len();
            let ghost order = list.order();
            let mut i: usize = 0;
            while i < n
                invariant
                    i <= n,
                    n == order.len(),
                    order == list.order(),
                    lists(order, list_view),
                    list_view == s.member_list(p.community_id.name()),
                    s == self.deep_view(),
                    msg@ == leave_message(p.user_id, p.community_id),
                    forall|j: int|
                        0 <= j < i ==> !(may_remove((#[trigger] order[j]).1, p.user_id) && accepts(
                            order[j].1.public_key,
                            msg@,
                            p.signature@,
                        )),
                decreases n - i,
            {
                let m = list.value_at(i);
                proof {
                    entry_in_map(order, i as int);
                }
                if (m.user_id.same(&p.user_id) || m.is_privileged()) && verify_bytes(
                    &m.public_key,
                    msg.as_slice(),
                    p.signature.as_slice(),
                ) {
                    assert(s.member_list(p.community_id.name())[order[i as int].0]
                        == m.deep_view());
                    return true;
                }
                i += 1;
            }
            assert forall|k: Seq<char>| list_view.contains_key(k) implies !(may_remove(
                #[trigger] list_view[k],
                p.user_id,
            ) && accepts(list_view[k].public_key, msg@, p.signature@)) by {
                let j = position(order, k);
                entry_in_map(order, j);
            }
        }
        false
    }

    /// Remove a member whose departure came in.
    pub fn handle_member_left(&mut self, p: MemberLeftPayload) -> (r: Vec<Effect>)
        ensures
            member_left(
                old(self).deep_view(),
                final(self).deep_view(),
                p.user_id,
                p.community_id,
                p.signature@,
                r.deep_view(),
            ),
    {
        let ghost s = old(self).deep_view();
        if !self.departure_is_signed(&p) {
            return no_effects();
        }
        let community = p.community_id.to_string();
        let user = p.user_id.to_string();
        let mut out = no_effects();
        if let Some(removed) = self.take_member(community.as_str(), user.as_str()) {
            emit(&mut out, Effect::Save(TableFile::Members));
            if self.communities.contains_key(community.as_str()) {
                emit(
                    &mut out,
                    Effect::Store(
                        StoreUpdate::DropMember {
                            community_id: community.clone(),
                            user_id: user.clone(),
                        },
                    ),
                );
            }
            emit(
                &mut out,
                Effect::Push(
                    PushEvent::MemberLeft(
                        MemberEventData {
                            user_id: user,
                            community_id: community,
                            display_name: removed.display_name,
                        },
                    ),
                ),
            );
            assert(out.deep_view() =~= departure_effects(
                s,
                p.community_id.name(),
                p.user_id.name(),
            ));
        }
        out
    }

    /// Whether some admin signed the role change.
    fn role_change_is_signed(&self, p: &MemberRoleUpdatedPayload) -> (r: bool)
        ensures
            r == role_change_signed(
                self.deep_view(),
                p.user_id,
                p.community_id,
                p.new_role,
                p.signature@,
            ),
    {
        let ghost s = self.deep_view();
        let ghost list_view = s.member_list(p.community_id.name());
        let msg = role_bytes(&p.user_id, &p.community_id, p.new_role);
        if let Some(list) = self.members.get(p.community_id.to_string().as_str()) {
            let n: usize = list.len();
            let ghost order = list.order();
            let mut i: usize = 0;
            while i < n
                invariant
                    i <= n,
                    n == order.len(),
                    order == list.order(),
                    lists(order, list_view),
                    list_view == s.member_list(p.community_id.name()),
                    s == self.deep_view(),
                    msg@ == role_message(p.user_id, p.community_id, p.new_role),
                    forall|j: int|
                        0 <= j < i ==> !((#[trigger] order[j]).1.is_admin() && accepts(
                            order[j].1.public_key,
                            msg@,
                            p.signature@,
                        )),
                decreases n - i,
            {
                let m = list.value_at(i);
                proof {
                    entry_in_map(order, i as int);
                }
                if m.is_admin() && verify_bytes(
                    &m.public_key,
                    msg.as_slice(),
                    p.signature.as_slice(),
                ) {
                    assert(s.member_list(p.community_id.name())[order[i as int].0]
                        == m.deep_view());
                    return true;
                }
                i += 1;
            }
            assert forall|k: Seq<char>| list_view.contains_key(k) implies !((
            #[trigger] list_view[k]).is_admin() && accepts(
                list_view[k].public_key,
                msg@,
                p.signature@,
            )) by {
                let j = position(order, k);
                entry_in_map(order, j);
            }
        }
        false
    }

    /// Whether a member holds the key of the community.
    pub fn holds_community_key(&self, community_id: &str, user_id: &str) -> (r: bool)
        ensures
            r == is_creator(self.deep_view(), community_id@, user_id@),
    {
        match (self.communities.get(community_id), self.members.get(community_id)) {
            (Some(signed), Some(list)) => match list.get(user_id) {
                Some(m) => same_array(&m.public_key, &signed.manifest.public_key),
                None => false,
            },
            _ => false,
        }
    }

    /// Apply a role change that came in.
    pub fn handle_member_role_updated(&mut self, p: MemberRoleUpdatedPayload) -> (r: Vec<Effect>)
        ensures
            role_changed(
                old(self).deep_view(),
                final(self).deep_view(),
                p.user_id,
                p.community_id,
                p.new_role,
                p.signature@,
                r.deep_view(),
            ),
    {
        if !self.role_change_is_signed(&p) {
            return no_effects();
        }
        let community = p.community_id.to_string();
        let user = p.user_id.to_string();
        if self.holds_community_key(community.as_str(), user.as_str()) {
            return no_effects();
        }
        if !self.set_role(community.as_str(), user.as_str(), p.new_role) {
            return no_effects();
        }
        let mut out = no_effects();
        emit(&mut out, Effect::Save(TableFile::Members));
        emit(
            &mut out,
            Effect::Push(
                PushEvent::MemberRoleUpdated(
                    MemberRoleUpdatedData {
                        user_id: user,
                        community_id: community,
                        new_role: role_text(p.new_role),
                    },
                ),
            ),
        );
        assert(out.deep_view() =~= seq![
            EffectView::Save(TableFile::Members),
            role_push(p.community_id.name(), p.user_id.name(), p.new_role),
        ]);
        out
    }

    /// Note the presence that a heartbeat reports.
    pub fn handle_presence_heartbeat(&mut self, p: PresenceHeartbeatPayload) -> (r: Vec<Effect>)
        ensures
            heartbeat_handled(
                old(self).deep_view(),
                final(self).deep_view(),
                p.user_id,
                p.status@,
                p.timestamp,
                p.signature@,
                r.deep_view(),
            ),
    {
        let ghost s = old(self).deep_view();
        let user = p.user_id.to_string();
        let (pk, record): ([u8; 32], Ghost<MembershipRecordView>) = match self.record_of(
            user.as_str(),
        ) {
            Some(m) => (m.public_key, Ghost(m.deep_view())),
            None => {
                return no_effects();
            },
        };
        assert(is_record_of(s, user@, record@));
        assert(!not_a_member(s, user@));
        let signature: [u8; 64] = match to_array::<64>(p.signature.as_slice()) {
            Some(b) => b,
            None => [0u8; 64],
        };
        assert(signature@ =~= if p.signature@.len() == 64 {
            p.signature@
        } else {
            zeros(64)
        });
        let msg = presence_bytes(&p.user_id, p.status.as_str(), &p.timestamp);
        if !ed25519_verify(&pk, msg.as_slice(), &signature) {
            return no_effects();
        }
        let status = parse_status(p.status.as_str());
        self.presence.insert(user.as_str(), status);
        let mut out = no_effects();
        emit(
            &mut out,
            Effect::Push(
                PushEvent::PresenceChanged(
                    PresenceChangedData {
                        user_id: user,
                        status: status_text(status),
                        last_seen: p.timestamp,
                    },
                ),
            ),
        );
        out
    }
}

/// A record whose user did not sign it, or who is banned, is discarded.
pub proof fn unsigned_or_banned_joins_are_discarded(
    s: AppStateView,
    after: AppStateView,
    m: MembershipRecordView,
    fx: Seq<EffectView>,
)
    requires
        member_joined(s, after, m, fx),
        !m.self_signed() || ban_list(s, m.community_id.name()).contains(m.user_id.name()),
    ensures
        after == s,
        fx.len() == 0,
{
}

/// Sharing keys never takes a wrapped key away from anybody, and changes
/// nothing else about a channel.
pub proof fn sharing_only_adds(
    channels: Map<Seq<char>, ChannelManifestView>,
    keys: Map<Seq<char>, Seq<u8>>,
    ids: Seq<ChannelId>,
    user: UserId,
    wraps: Seq<Seq<u8>>,
    c: Seq<char>,
    other: UserId,
)
    requires
        channels.contains_key(c),
    ensures
        ({
            let t = shared(channels, keys, ids, user, wraps);
            &&& t.contains_key(c)
            &&& has_member_key(channels[c].encrypted_channel_key, other) ==> has_member_key(
                t[c].encrypted_channel_key,
                other,
            )
            &&& t[c] == (ChannelManifestView {
                encrypted_channel_key: t[c].encrypted_channel_key,
                ..channels[c]
            })
        }),
    decreases ids.len(),
{
    if ids.len() > 0 {
        sharing_only_adds(channels, keys, ids.drop_last(), user, wraps.drop_last(), c, other);
        let before = shared(channels, keys, ids.drop_last(), user, wraps.drop_last());
        let t = shared(channels, keys, ids, user, wraps);
        if has_member_key(before[c].encrypted_channel_key, other) {
            let i = choose|i: int|
                0 <= i < before[c].encrypted_channel_key.len()
                    && #[trigger] before[c].encrypted_channel_key[i].0 == other;
            assert(t[c].encrypted_channel_key[i].0 == other);
        }
    }
}

/// After a member joined a community that the local node created, every
/// channel of it whose key is at hand holds a wrapped key for the member.
pub proof fn new_members_get_every_key(
    channels: Map<Seq<char>, ChannelManifestView>,
    keys: Map<Seq<char>, Seq<u8>>,
    ids: Seq<ChannelId>,
    user: UserId,
    wraps: Seq<Seq<u8>>,
    i: int,
)
    requires
        0 <= i < ids.len(),
        keys.contains_key(ids[i].name()),
        channels.contains_key(ids[i].name()),
    ensures
        has_member_key(
            shared(channels, keys, ids, user, wraps)[ids[i].name()].encrypted_channel_key,
            user,
        ),
    decreases ids.len(),
{
    let c = ids[i].name();
    let before = shared(channels, keys, ids.drop_last(), user, wraps.drop_last());
    let t = shared(channels, keys, ids, user, wraps);
    sharing_only_adds(channels, keys, ids.drop_last(), user, wraps.drop_last(), c, user);
    if i < ids.len() - 1 {
        new_members_get_every_key(
            channels,
            keys,
            ids.drop_last(),
            user,
            wraps.drop_last(),
            i,
        );
        let j = choose|j: int|
            0 <= j < before[c].encrypted_channel_key.len()
                && #[trigger] before[c].encrypted_channel_key[j].0 == user;
        assert(t[c].encrypted_channel_key[j].0 == user);
    } else if needs_wrap(before, keys, c, user) {
        let n = before[c].encrypted_channel_key.len() as int;
        assert(t[c].encrypted_channel_key[n].0 == user);
    }
}

/// Whether a list of channels names one.
pub open spec fn names_channel(ids: Seq<ChannelId>, c: Seq<char>) -> bool {
    exists|i: int| 0 <= i < ids.len() && (#[trigger] ids[i]).name() == c
}

/// A member who had no wrapped key for a channel finds one there once the
/// channel's key was shared, and it opens to that key with the member's own
/// secret.
pub proof fn new_members_can_unwrap(
    channels: Map<Seq<char>, ChannelManifestView>,
    keys: Map<Seq<char>, Seq<u8>>,
    ids: Seq<ChannelId>,
    user: UserId,
    pk: Seq<u8>,
    wraps: Seq<Seq<u8>>,
    c: Seq<char>,
)
    requires
        wraps_open(channels, keys, ids, user, pk, wraps),
        channels.contains_key(c),
        keys.contains_key(c),
        !has_member_key(channels[c].encrypted_channel_key, user),
    ensures
        ({
            let t = shared(channels, keys, ids, user, wraps);
            &&& t.contains_key(c)
            &&& names_channel(ids, c) ==> (member_key(t[c].encrypted_channel_key, user) matches Some(
                w,
            ) && delivers(keys[c], pk, w))
            &&& !names_channel(ids, c) ==> !has_member_key(t[c].encrypted_channel_key, user)
        }),
    decreases ids.len(),
{
    if ids.len() > 0 {
        let prefix = ids.drop_last();
        let last = ids.last().name();
        let before = shared(channels, keys, prefix, user, wraps.drop_last());
        new_members_can_unwrap(channels, keys, prefix, user, pk, wraps.drop_last(), c);
        if names_channel(prefix, c) {
            let i = choose|i: int| 0 <= i < prefix.len() && (#[trigger] prefix[i]).name() == c;
            assert(ids[i].name() == c);
            member_key_iff_listed(before[c].encrypted_channel_key, user);
        }
        if names_channel(ids, c) && last != c {
            let i = choose|i: int| 0 <= i < ids.len() && (#[trigger] ids[i]).name() == c;
            assert(prefix[i].name() == c);
        }
        if last == c {
            assert(ids[ids.len() - 1].name() == c);
            if !names_channel(prefix, c) {
                added_key_counts(before[c].encrypted_channel_key, user, wraps.last());
            }
        }
    }
}

/// The creator keeps their role, whoever signed the change.
pub proof fn creators_keep_their_role(
    s: AppStateView,
    after: AppStateView,
    user: UserId,
    community: CommunityId,
    role: Role,
    signature: Seq<u8>,
    fx: Seq<EffectView>,
)
    requires
        role_changed(s, after, user, community, role, signature, fx),
        is_creator(s, community.name(), user.name()),
    ensures
        after == s,
{
}

} // verus!
