//! What a hosting node keeps of a community.

use crate::api::effects::{StoreUpdate, StoreUpdateView};
use crate::api::event_processor::manifest_handler::{
    channel_ids_of, copy_channels, names_of, upserted,
};
use crate::api::{AppState, AppStateView};
use crate::bytes::{to_vec, zeros};
use crate::crypto::certificate::HostingCert;
use crate::crypto::primitives::{ed25519_public_key, ed25519_signature};
use crate::lists::{array_deep_view, bytes_deep_view, vec_deep_view, views, views_push};
use crate::model::channel::{ChannelManifest, ChannelManifestView};
use crate::model::community::{SignedManifest, SignedManifestView};
use crate::model::membership::{MembershipRecord, MembershipRecordView};
use crate::table::{lists, Table};
use crate::text::same_text;
use vstd::prelude::*;

verus! {

/// The record of a hosted community.
pub struct CommunityMeta {
    /// The certificate under which this node hosts the community.
    pub cert: HostingCert,
    pub manifest: Option<SignedManifest>,
    pub channels: Vec<ChannelManifest>,
    /// Channel keys by channel id.
    pub channel_keys: Table<Vec<u8>>,
    /// Members by user id.
    pub members: Table<MembershipRecord>,
}

/// What a [`CommunityMeta`] holds.
#[verifier::ext_equal]
pub struct CommunityMetaView {
    pub cert: HostingCert,
    pub manifest: Option<SignedManifestView>,
    pub channels: Seq<ChannelManifestView>,
    pub channel_keys: Map<Seq<char>, Seq<u8>>,
    pub members: Map<Seq<char>, MembershipRecordView>,
}

impl DeepView for CommunityMeta {
    type V = CommunityMetaView;

    open spec fn deep_view(&self) -> CommunityMetaView {
        CommunityMetaView {
            cert: self.cert,
            manifest: self.manifest.deep_view(),
            channels: self.channels.deep_view(),
            channel_keys: self.channel_keys.deep_view(),
            members: self.members.deep_view(),
        }
    }
}

/// Where the channel with id `id` first stands, from `from` on.
pub open spec fn channel_index(
    list: Seq<ChannelManifestView>,
    id: Seq<char>,
    from: int,
) -> Option<int>
    decreases list.len() - from,
{
    if from < 0 || from >= list.len() {
        None
    } else if list[from].id.name() == id {
        Some(from)
    } else {
        channel_index(list, id, from + 1)
    }
}

/// A list of channels with one added, or put in the place of the first with the
/// same id.
pub open spec fn with_channel(
    list: Seq<ChannelManifestView>,
    ch: ChannelManifestView,
) -> Seq<ChannelManifestView> {
    match channel_index(list, ch.id.name(), 0) {
        Some(i) => list.update(i, ch),
        None => list.push(ch),
    }
}

/// A list of channels with `ch` in the place of the first with id `id`, if there
/// is one.
pub open spec fn replaced_channel(
    list: Seq<ChannelManifestView>,
    id: Seq<char>,
    ch: ChannelManifestView,
) -> Seq<ChannelManifestView> {
    match channel_index(list, id, 0) {
        Some(i) => list.update(i, ch),
        None => list,
    }
}

/// A list of channels without those with id `id`.
pub open spec fn without_channel(list: Seq<ChannelManifestView>, id: Seq<char>) -> Seq<
    ChannelManifestView,
>
    decreases list.len(),
{
    if list.len() == 0 {
        list
    } else {
        let head = without_channel(list.drop_last(), id);
        if list.last().id.name() == id {
            head
        } else {
            head.push(list.last())
        }
    }
}

/// The part of a map whose keys are among `names`.
pub open spec fn part_of<V>(m: Map<Seq<char>, V>, names: Seq<Seq<char>>) -> Map<Seq<char>, V> {
    Map::new(|k: Seq<char>| m.contains_key(k) && names.contains(k), |k: Seq<char>| m[k])
}

/// Members that a record lacks, added under their user id.
pub open spec fn with_missing(
    members: Map<Seq<char>, MembershipRecordView>,
    order: Seq<(Seq<char>, MembershipRecordView)>,
) -> Map<Seq<char>, MembershipRecordView>
    decreases order.len(),
{
    if order.len() == 0 {
        members
    } else {
        let before = with_missing(members, order.drop_last());
        let m = order.last().1;
        if before.contains_key(m.user_id.name()) {
            before
        } else {
            before.insert(m.user_id.name(), m)
        }
    }
}

/// Whether `cert` is a stand-in: it names the community and the local node,
/// never expires and carries no signature.
pub open spec fn unsigned_cert(s: AppStateView, community_pk: Seq<u8>, cert: HostingCert) -> bool {
    &&& cert.community_pk@ == community_pk
    &&& cert.node_pk@ == ed25519_public_key(s.local.key)
    &&& cert.expires_at == u64::MAX
    &&& cert.signature@ == zeros(64)
}

/// Whether `cert` is one that the local node issued to itself.
pub open spec fn own_cert(s: AppStateView, cert: HostingCert) -> bool {
    &&& cert.community_pk@ == ed25519_public_key(s.local.key)
    &&& cert.node_pk@ == ed25519_public_key(s.local.key)
    &&& cert.expires_at == u64::MAX
    &&& cert.signature@ == ed25519_signature(s.local.key, cert.message())
}

/// Whether `after` is the record of a community once an update took effect on
/// `before`. A missing record stays missing, unless the update creates one.
pub open spec fn updated(
    s: AppStateView,
    update: StoreUpdateView,
    before: Option<CommunityMetaView>,
    after: Option<CommunityMetaView>,
) -> bool {
    match update {
        StoreUpdateView::CreateCommunity { community_id } => {
            if s.communities.contains_key(community_id) && s.member_list(
                community_id,
            ).contains_key(s.me()) {
                after matches Some(m) && own_cert(s, m.cert) && m == (CommunityMetaView {
                    cert: m.cert,
                    manifest: Some(s.communities[community_id]),
                    channels: Seq::empty(),
                    channel_keys: Map::empty(),
                    members: Map::empty().insert(
                        s.me(),
                        s.member_list(community_id)[s.me()],
                    ),
                })
            } else {
                after == before
            }
        },
        StoreUpdateView::ReplaceCommunity { community_id, channels, members } => {
            if s.communities.contains_key(community_id) {
                after matches Some(m) && unsigned_cert(
                    s,
                    s.communities[community_id].manifest.public_key,
                    m.cert,
                ) && m == (CommunityMetaView {
                    cert: m.cert,
                    manifest: Some(s.communities[community_id]),
                    channels,
                    channel_keys: part_of(s.channel_keys, names_of(channels)),
                    members: upserted(Map::empty(), members),
                })
            } else {
                after == before
            }
        },
        StoreUpdateView::SyncManifest { community_id } => match before {
            Some(m) => if s.communities.contains_key(community_id) {
                after == Some(
                    CommunityMetaView { manifest: Some(s.communities[community_id]), ..m },
                )
            } else {
                after == before
            },
            None => after is None,
        },
        StoreUpdateView::SyncChannel { channel_id, with_key, .. } => match before {
            Some(m) => after == Some(
                CommunityMetaView {
                    channels: if s.channels.contains_key(channel_id) {
                        with_channel(m.channels, s.channels[channel_id])
                    } else {
                        m.channels
                    },
                    channel_keys: if with_key && s.channel_keys.contains_key(channel_id) {
                        m.channel_keys.insert(channel_id, s.channel_keys[channel_id])
                    } else {
                        m.channel_keys
                    },
                    ..m
                },
            ),
            None => after is None,
        },
        StoreUpdateView::RotateChannel { channel_id, .. } => match before {
            Some(m) => after == Some(
                CommunityMetaView {
                    channels: if s.channels.contains_key(channel_id) {
                        replaced_channel(m.channels, channel_id, s.channels[channel_id])
                    } else {
                        m.channels
                    },
                    channel_keys: if s.channel_keys.contains_key(channel_id) {
                        m.channel_keys.insert(channel_id, s.channel_keys[channel_id])
                    } else {
                        m.channel_keys
                    },
                    ..m
                },
            ),
            None => after is None,
        },
        StoreUpdateView::DropChannel { channel_id, .. } => match before {
            Some(m) => after == Some(
                CommunityMetaView {
                    channels: without_channel(m.channels, channel_id),
                    channel_keys: m.channel_keys.remove(channel_id),
                    ..m
                },
            ),
            None => after is None,
        },
        StoreUpdateView::SyncMember { community_id, user_id } => {
            if s.communities.contains_key(community_id) && s.member_list(
                community_id,
            ).contains_key(user_id) {
                let record = s.member_list(community_id)[user_id];
                match before {
                    Some(m) => after == Some(
                        CommunityMetaView { members: m.members.insert(user_id, record), ..m },
                    ),
                    None => after matches Some(m) && unsigned_cert(
                        s,
                        s.communities[community_id].manifest.public_key,
                        m.cert,
                    ) && m == (CommunityMetaView {
                        cert: m.cert,
                        manifest: Some(s.communities[community_id]),
                        channels: Seq::empty(),
                        channel_keys: Map::empty(),
                        members: Map::empty().insert(user_id, record),
                    }),
                }
            } else {
                after == before
            }
        },
        StoreUpdateView::DropMember { user_id, .. } => match before {
            Some(m) => after == Some(
                CommunityMetaView { members: m.members.remove(user_id), ..m },
            ),
            None => after is None,
        },
        StoreUpdateView::RemoveCommunity { .. } => after is None,
        StoreUpdateView::AppendMessage { .. } => after == before,
    }
}

impl CommunityMeta {
    /// Add a channel, or replace the first one with the same id.
    pub fn put_channel(&mut self, ch: ChannelManifest)
        ensures
            final(self).deep_view() == (CommunityMetaView {
                channels: with_channel(old(self).deep_view().channels, ch.deep_view()),
                ..old(self).deep_view()
            }),
    {
        broadcast use vec_deep_view, views_push;

        let ghost all = views(self.channels@);
        let ghost new = ch.deep_view();
        let mut i: usize = 0;
        while i < self.channels.len()
            invariant
                i <= self.channels@.len(),
                all == views(self.channels@),
                *self == *old(self),
                new == ch.deep_view(),
                channel_index(all, ch.id.name(), 0) == channel_index(all, ch.id.name(), i as int),
            decreases self.channels@.len() - i,
        {
            if self.channels[i].id == ch.id {
                self.channels.set(i, ch);
                assert(views(self.channels@) =~= all.update(i as int, new));
                return;
            }
            proof {
                if all[i as int].id.name() == ch.id.name() {
                    crate::model::types::ulid_text_injective(all[i as int].id.0, ch.id.0);
                }
            }
            i += 1;
        }
        self.channels.push(ch);
    }

    /// Put a channel in the place of the first one with id `id`, if there is
    /// one.
    pub fn replace_channel(&mut self, id: &str, ch: ChannelManifest)
        ensures
            final(self).deep_view() == (CommunityMetaView {
                channels: replaced_channel(old(self).deep_view().channels, id@, ch.deep_view()),
                ..old(self).deep_view()
            }),
    {
        broadcast use vec_deep_view, views_push;

        let ghost all = views(self.channels@);
        let ghost new = ch.deep_view();
        let mut i: usize = 0;
        while i < self.channels.len()
            invariant
                i <= self.channels@.len(),
                all == views(self.channels@),
                *self == *old(self),
                new == ch.deep_view(),
                channel_index(all, id@, 0) == channel_index(all, id@, i as int),
            decreases self.channels@.len() - i,
        {
            if same_text(self.channels[i].id.to_string().as_str(), id) {
                self.channels.set(i, ch);
                assert(views(self.channels@) =~= all.update(i as int, new));
                return;
            }
            i += 1;
        }
    }

    /// Remove a channel and its key.
    pub fn drop_channel(&mut self, id: &str)
        ensures
            final(self).deep_view() == (CommunityMetaView {
                channels: without_channel(old(self).deep_view().channels, id@),
                channel_keys: old(self).deep_view().channel_keys.remove(id@),
                ..old(self).deep_view()
            }),
    {
        broadcast use vec_deep_view, views_push;

        let ghost all = views(self.channels@);
        let mut kept: Vec<ChannelManifest> = Vec::new();
        let mut i: usize = 0;
        assert(views(kept@) =~= without_channel(all.subrange(0, 0), id@));
        while i < self.channels.len()
            invariant
                i <= self.channels@.len(),
                all == views(self.channels@),
                *self == *old(self),
                views(kept@) == without_channel(all.subrange(0, i as int), id@),
            decreases self.channels@.len() - i,
        {
            assert(all.subrange(0, i + 1).drop_last() =~= all.subrange(0, i as int));
            if !same_text(self.channels[i].id.to_string().as_str(), id) {
                kept.push(self.channels[i].clone());
            }
            i += 1;
        }
        assert(all.subrange(0, all.len() as int) =~= all);
        self.channels = kept;
        self.channel_keys.remove(id);
    }

    /// Add the members of a list that the record lacks. Says whether there
    /// were any.
    pub fn merge_members(&mut self, list: &Table<MembershipRecord>) -> (r: bool)
        ensures
            exists|order: Seq<(Seq<char>, MembershipRecordView)>|
                lists(order, list.deep_view()) && final(self).deep_view() == (CommunityMetaView {
                    members: #[trigger] with_missing(old(self).deep_view().members, order),
                    ..old(self).deep_view()
                }),
            !r ==> final(self).deep_view() == old(self).deep_view(),
    {
        let ghost before = self.deep_view();
        let n: usize = list.len();
        let ghost order = list.order();
        let mut changed = false;
        let mut i: usize = 0;
        assert(order.subrange(0, 0) =~= Seq::<(Seq<char>, MembershipRecordView)>::empty());
        while i < n
            invariant
                i <= n,
                n == order.len(),
                order == list.order(),
                !changed ==> self.deep_view() == before,
                self.deep_view() == (CommunityMetaView {
                    members: with_missing(before.members, order.subrange(0, i as int)),
                    ..before
                }),
            decreases n - i,
        {
            assert(order.subrange(0, i + 1).drop_last() =~= order.subrange(0, i as int));
            let m = list.value_at(i);
            let user = m.user_id.to_string();
            if !self.members.contains_key(user.as_str()) {
                self.members.insert(user.as_str(), m.clone());
                changed = true;
            }
            i += 1;
        }
        assert(order.subrange(0, order.len() as int) =~= order);
        changed
    }
}

impl AppState {
    /// A certificate that names the local node but carries no signature.
    fn stand_in_cert(&self, community_pk: [u8; 32]) -> (r: HostingCert)
        ensures
            unsigned_cert(self.deep_view(), community_pk@, r),
    {
        let signature: [u8; 64] = [0u8; 64];
        assert(signature@ =~= zeros(64));
        HostingCert {
            community_pk,
            node_pk: self.local.public_key(),
            expires_at: u64::MAX,
            signature,
        }
    }

    /// The keys of the named channels that the state holds.
    fn gather_keys(&self, names: &Vec<String>) -> (r: Table<Vec<u8>>)
        ensures
            r.deep_view() == part_of(self.deep_view().channel_keys, names.deep_view()),
    {
        broadcast use array_deep_view, bytes_deep_view;

        let ghost keys = self.deep_view().channel_keys;
        let ghost all = names.deep_view();
        let mut out: Table<Vec<u8>> = Table::new();
        let mut i: usize = 0;
        assert(out.deep_view() =~= part_of(keys, all.subrange(0, 0)));
        while i < names.len()
            invariant
                i <= names@.len(),
                all == names.deep_view(),
                keys == self.deep_view().channel_keys,
                out.deep_view() == part_of(keys, all.subrange(0, i as int)),
            decreases names@.len() - i,
        {
            let ghost prev = all.subrange(0, i as int);
            let ghost next = all.subrange(0, i + 1);
            let name = names[i].as_str();
            assert(next =~= prev.push(name@));
            if let Some(k) = self.channel_keys.get(name) {
                let bytes = to_vec(k.as_slice());
                assert(bytes.deep_view() == bytes@);
                assert(k.deep_view() =~= k@);
                assert(keys[name@] == bytes@);
                out.insert(name, bytes);
            }
            proof {
                contains_pushed(prev, name@);
                assert(out.deep_view() =~= part_of(keys, next));
            }
            i += 1;
        }
        assert(all.subrange(0, all.len() as int) =~= all);
        out
    }

    /// A copy of the record of a member.
    fn copy_member(&self, community_id: &str, user_id: &str) -> (r: Option<MembershipRecord>)
        ensures
            match r {
                Some(m) => self.deep_view().member_list(community_id@).contains_key(user_id@)
                    && m.deep_view() == self.deep_view().member_list(community_id@)[user_id@],
                None => !self.deep_view().member_list(community_id@).contains_key(user_id@),
            },
    {
        match self.members.get(community_id) {
            Some(list) => match list.get(user_id) {
                Some(m) => Some(m.clone()),
                None => None,
            },
            None => None,
        }
    }

    /// The record of a community after an update, given the record before.
    #[verifier::rlimit(60)]
    pub fn stored_after(&self, update: &StoreUpdate, meta: Option<CommunityMeta>) -> (r: Option<
        CommunityMeta,
    >)
        ensures
            updated(self.deep_view(), update.deep_view(), meta.deep_view(), r.deep_view()),
    {
        broadcast use array_deep_view, bytes_deep_view;

        match update {
            StoreUpdate::CreateCommunity { community_id } => {
                let me = self.local.peer_id();
                match (
                    self.communities.get(community_id.as_str()),
                    self.copy_member(community_id.as_str(), me.as_str()),
                ) {
                    (Some(signed), Some(own)) => {
                        let channels: Vec<ChannelManifest> = Vec::new();
                        assert(channels.deep_view() =~= Seq::<ChannelManifestView>::empty());
                        let channel_keys: Table<Vec<u8>> = Table::new();
                        let mut members: Table<MembershipRecord> = Table::new();
                        members.insert(me.as_str(), own);
                        Some(
                            CommunityMeta {
                                cert: HostingCert::new(
                                    self.local.signing_key(),
                                    self.local.public_key(),
                                    u64::MAX,
                                ),
                                manifest: Some(signed.clone()),
                                channels,
                                channel_keys,
                                members,
                            },
                        )
                    },
                    _ => meta,
                }
            },
            StoreUpdate::ReplaceCommunity { community_id, channels, members } => {
                match self.communities.get(community_id.as_str()) {
                    Some(signed) => Some(
                        CommunityMeta {
                            cert: self.stand_in_cert(signed.manifest.public_key),
                            manifest: Some(signed.clone()),
                            channels: copy_channels(channels),
                            channel_keys: self.gather_keys(&channel_ids_of(channels)),
                            members: by_user(members),
                        },
                    ),
                    None => meta,
                }
            },
            StoreUpdate::SyncManifest { community_id } => match meta {
                Some(m) => {
                    let mut m = m;
                    if let Some(signed) = self.communities.get(community_id.as_str()) {
                        m.manifest = Some(signed.clone());
                    }
                    Some(m)
                },
                None => None,
            },
            StoreUpdate::SyncChannel { channel_id, with_key, .. } => match meta {
                Some(m) => {
                    let mut m = m;
                    if let Some(ch) = self.channels.get(channel_id.as_str()) {
                        m.put_channel(ch.clone());
                    }
                    if *with_key {
                        if let Some(k) = self.channel_keys.get(channel_id.as_str()) {
                            let bytes = to_vec(k.as_slice());
                            assert(bytes.deep_view() == bytes@);
                            assert(k.deep_view() =~= k@);
                            m.channel_keys.insert(channel_id.as_str(), bytes);
                        }
                    }
                    Some(m)
                },
                None => None,
            },
            StoreUpdate::RotateChannel { channel_id, .. } => match meta {
                Some(m) => {
                    let mut m = m;
                    if let Some(ch) = self.channels.get(channel_id.as_str()) {
                        m.replace_channel(channel_id.as_str(), ch.clone());
                    }
                    if let Some(k) = self.channel_keys.get(channel_id.as_str()) {
                        let bytes = to_vec(k.as_slice());
                        assert(bytes.deep_view() == bytes@);
                        assert(k.deep_view() =~= k@);
                        m.channel_keys.insert(channel_id.as_str(), bytes);
                    }
                    Some(m)
                },
                None => None,
            },
            StoreUpdate::DropChannel { channel_id, .. } => match meta {
                Some(m) => {
                    let mut m = m;
                    m.drop_channel(channel_id.as_str());
                    Some(m)
                },
                None => None,
            },
            StoreUpdate::SyncMember { community_id, user_id } => {
                match (
                    self.communities.get(community_id.as_str()),
                    self.copy_member(community_id.as_str(), user_id.as_str()),
                ) {
                    (Some(signed), Some(record)) => {
                        let mut m = match meta {
                            Some(m) => m,
                            None => {
                                let channels: Vec<ChannelManifest> = Vec::new();
                                assert(channels.deep_view() =~= Seq::<
                                    ChannelManifestView,
                                >::empty());
                                CommunityMeta {
                                    cert: self.stand_in_cert(signed.manifest.public_key),
                                    manifest: Some(signed.clone()),
                                    channels,
                                    channel_keys: Table::new(),
                                    members: Table::new(),
                                }
                            },
                        };
                        m.members.insert(user_id.as_str(), record);
                        Some(m)
                    },
                    _ => meta,
                }
            },
            StoreUpdate::DropMember { user_id, .. } => match meta {
                Some(m) => {
                    let mut m = m;
                    m.members.remove(user_id.as_str());
                    Some(m)
                },
                None => None,
            },
            StoreUpdate::RemoveCommunity { .. } => None,
            StoreUpdate::AppendMessage { .. } => meta,
        }
    }
}

/// The given records by user id. Of two of the same user, the later counts.
fn by_user(members: &Vec<MembershipRecord>) -> (r: Table<MembershipRecord>)
    ensures
        r.deep_view() == upserted(Map::empty(), members.deep_view()),
{
    broadcast use vec_deep_view;

    let ghost all = views(members@);
    let mut out: Table<MembershipRecord> = Table::new();
    let mut i: usize = 0;
    assert(out.deep_view() =~= upserted(Map::empty(), all.subrange(0, 0)));
    while i < members.len()
        invariant
            i <= members@.len(),
            all == views(members@),
            out.deep_view() == upserted(Map::empty(), all.subrange(0, i as int)),
        decreases members@.len() - i,
    {
        assert(all.subrange(0, i + 1).drop_last() =~= all.subrange(0, i as int));
        out.insert(members[i].user_id.to_string().as_str(), members[i].clone());
        i += 1;
    }
    assert(all.subrange(0, all.len() as int) =~= all);
    out
}

/// What a list holds after one more item was appended.
proof fn contains_pushed(list: Seq<Seq<char>>, x: Seq<char>)
    ensures
        forall|k: Seq<char>| #[trigger] list.push(x).contains(k) <==> list.contains(k) || k == x,
{
    assert forall|k: Seq<char>| #[trigger] list.push(x).contains(k) <==> list.contains(k) || k
        == x by {
        let all = list.push(x);
        assert(all[list.len() as int] == x);
        if list.contains(k) {
            assert(all[list.index_of(k)] == k);
        }
        if all.contains(k) && k != x {
            assert(list[all.index_of(k)] == k);
        }
    }
}

/// Rotating a key adds no channel to the store and removes none.
pub proof fn rotation_keeps_the_channels(
    s: AppStateView,
    community_id: Seq<char>,
    channel_id: Seq<char>,
    before: CommunityMetaView,
    after: Option<CommunityMetaView>,
)
    requires
        updated(
            s,
            StoreUpdateView::RotateChannel { community_id, channel_id },
            Some(before),
            after,
        ),
    ensures
        after matches Some(m) && m.channels.len() == before.channels.len() && m.members
            == before.members && m.manifest == before.manifest,
{
    channel_index_bound(before.channels, channel_id, 0);
}

/// Where a channel stands is in the list.
proof fn channel_index_bound(list: Seq<ChannelManifestView>, id: Seq<char>, from: int)
    requires
        0 <= from,
    ensures
        channel_index(list, id, from) matches Some(i) ==> 0 <= i < list.len(),
    decreases list.len() - from,
{
    if from < list.len() {
        channel_index_bound(list, id, from + 1);
    }
}

/// An update that came in by gossip never gives the store a key: only the
/// updates that this node itself makes carry one.
pub proof fn gossip_stores_no_key(
    s: AppStateView,
    community_id: Seq<char>,
    channel_id: Seq<char>,
    before: CommunityMetaView,
    after: Option<CommunityMetaView>,
)
    requires
        updated(
            s,
            StoreUpdateView::SyncChannel { community_id, channel_id, with_key: false },
            Some(before),
            after,
        ),
    ensures
        after matches Some(m) && m.channel_keys == before.channel_keys,
{
}

} // verus!
