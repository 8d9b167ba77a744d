//! Channel manifests.

use crate::bytes::to_vec;
use crate::lists::{vec_deep_view, views, views_push};
use crate::model::types::{ChannelId, CommunityId, UserId};
use crate::time::{rfc3339_text, Timestamp};
use crate::wire::{channel_encoding, encode_channel};
use vstd::prelude::*;

verus! {

/// The purpose of a channel.
#[derive(Clone, Copy, Debug, PartialEq, Eq, Structural)]
pub enum ChannelKind {
    Text,
    Announcement,
    Voice,
}

/// The channel key of one member: the member and the wrapped key bytes.
#[derive(Debug)]
pub struct MemberKey {
    pub user_id: UserId,
    pub wrapped: Vec<u8>,
}

/// Channel manifest distributed to members.
#[derive(Debug)]
pub struct ChannelManifest {
    pub id: ChannelId,
    pub community_id: CommunityId,
    pub name: String,
    pub kind: ChannelKind,
    /// The channel key, encrypted for each member.
    pub encrypted_channel_key: Vec<MemberKey>,
    pub created_at: Timestamp,
    /// Monotonically increasing version.
    pub version: u64,
}

/// What a [`ChannelManifest`] holds.
pub struct ChannelManifestView {
    pub id: ChannelId,
    pub community_id: CommunityId,
    pub name: Seq<char>,
    pub kind: ChannelKind,
    pub encrypted_channel_key: Seq<(UserId, Seq<u8>)>,
    pub created_at: Timestamp,
    pub version: u64,
}

impl DeepView for MemberKey {
    type V = (UserId, Seq<u8>);

    open spec fn deep_view(&self) -> (UserId, Seq<u8>) {
        (self.user_id, self.wrapped@)
    }
}

impl DeepView for ChannelManifest {
    type V = ChannelManifestView;

    open spec fn deep_view(&self) -> ChannelManifestView {
        ChannelManifestView {
            id: self.id,
            community_id: self.community_id,
            name: self.name@,
            kind: self.kind,
            encrypted_channel_key: self.encrypted_channel_key.deep_view(),
            created_at: self.created_at,
            version: self.version,
        }
    }
}

/// The variant index of a channel kind.
pub open spec fn kind_index(kind: ChannelKind) -> u32 {
    match kind {
        ChannelKind::Text => 0,
        ChannelKind::Announcement => 1,
        ChannelKind::Voice => 2,
    }
}

/// Whether some member of the list has a wrapped key.
pub open spec fn has_member_key(keys: Seq<(UserId, Seq<u8>)>, user: UserId) -> bool {
    exists|i: int| 0 <= i < keys.len() && #[trigger] keys[i].0 == user
}

/// The wrapped key of a member: the first one listed.
pub open spec fn member_key(keys: Seq<(UserId, Seq<u8>)>, user: UserId) -> Option<Seq<u8>>
    decreases keys.len(),
{
    if keys.len() == 0 {
        None
    } else if keys[0].0 == user {
        Some(keys[0].1)
    } else {
        member_key(keys.subrange(1, keys.len() as int), user)
    }
}

/// A member has a wrapped key exactly when the list names them.
pub proof fn member_key_iff_listed(keys: Seq<(UserId, Seq<u8>)>, user: UserId)
    ensures
        member_key(keys, user) is Some <==> has_member_key(keys, user),
    decreases keys.len(),
{
    if keys.len() > 0 && keys[0].0 != user {
        let rest = keys.subrange(1, keys.len() as int);
        member_key_iff_listed(rest, user);
        if has_member_key(keys, user) {
            let i = choose|i: int| 0 <= i < keys.len() && #[trigger] keys[i].0 == user;
            assert(rest[i - 1].0 == user);
        }
        if has_member_key(rest, user) {
            let i = choose|i: int| 0 <= i < rest.len() && #[trigger] rest[i].0 == user;
            assert(keys[i + 1].0 == user);
        }
    } else if keys.len() > 0 {
        assert(keys[0].0 == user);
    }
}

/// A member without a wrapped key gets the one that is added for them.
pub proof fn added_key_counts(keys: Seq<(UserId, Seq<u8>)>, user: UserId, w: Seq<u8>)
    requires
        !has_member_key(keys, user),
    ensures
        member_key(keys.push((user, w)), user) == Some(w),
    decreases keys.len(),
{
    let all = keys.push((user, w));
    if keys.len() > 0 {
        let rest = keys.subrange(1, keys.len() as int);
        assert(keys[0].0 != user);
        assert(all.subrange(1, all.len() as int) =~= rest.push((user, w)));
        if has_member_key(rest, user) {
            let i = choose|i: int| 0 <= i < rest.len() && #[trigger] rest[i].0 == user;
            assert(keys[i + 1].0 == user);
        }
        added_key_counts(rest, user, w);
    }
}

/// The wrapped keys with the members' text forms, as they are encoded.
pub open spec fn named_keys(keys: Seq<(UserId, Seq<u8>)>) -> Seq<(Seq<char>, Seq<u8>)> {
    Seq::new(keys.len(), |i: int| (keys[i].0.name(), keys[i].1))
}

impl ChannelManifestView {
    /// The bytes that a key rotation signs.
    pub open spec fn canonical(self) -> Seq<u8> {
        channel_encoding(
            self.id.name(),
            self.community_id.name(),
            self.name,
            kind_index(self.kind),
            named_keys(self.encrypted_channel_key),
            rfc3339_text(self.created_at.secs, self.created_at.nanos),
            self.version,
        )
    }
}

impl Clone for MemberKey {
    fn clone(&self) -> (r: Self)
        ensures
            r.deep_view() == self.deep_view(),
    {
        MemberKey { user_id: self.user_id, wrapped: to_vec(self.wrapped.as_slice()) }
    }
}

/// A copy of a list of wrapped keys.
pub fn copy_member_keys(keys: &Vec<MemberKey>) -> (r: Vec<MemberKey>)
    ensures
        r.deep_view() == keys.deep_view(),
{
    broadcast use vec_deep_view, views_push;

    let mut out: Vec<MemberKey> = Vec::new();
    let mut i: usize = 0;
    while i < keys.len()
        invariant
            i <= keys@.len(),
            views(out@) == views(keys@).subrange(0, i as int),
        decreases keys@.len() - i,
    {
        out.push(keys[i].clone());
        i += 1;
        assert(views(keys@).subrange(0, i as int) =~= views(keys@).subrange(0, i - 1).push(
            keys@[i - 1].deep_view(),
        ));
    }
    assert(views(keys@).subrange(0, keys@.len() as int) =~= views(keys@));
    out
}

impl Clone for ChannelManifest {
    fn clone(&self) -> (r: Self)
        ensures
            r.deep_view() == self.deep_view(),
    {
        ChannelManifest {
            id: self.id,
            community_id: self.community_id,
            name: self.name.clone(),
            kind: self.kind,
            encrypted_channel_key: copy_member_keys(&self.encrypted_channel_key),
            created_at: self.created_at,
            version: self.version,
        }
    }
}

impl ChannelManifest {
    /// Serialise the manifest to canonical bytes for signing and verification.
    pub fn canonical_bytes(&self) -> (r: Vec<u8>)
        ensures
            r@ == self.deep_view().canonical(),
    {
        broadcast use vec_deep_view, views_push;

        let id = self.id.to_string();
        let community_id = self.community_id.to_string();
        let created_at = self.created_at.to_rfc3339();
        let kind: u32 = match self.kind {
            ChannelKind::Text => 0,
            ChannelKind::Announcement => 1,
            ChannelKind::Voice => 2,
        };
        let mut keys: Vec<(String, Vec<u8>)> = Vec::new();
        let src = &self.encrypted_channel_key;
        let mut i: usize = 0;
        while i < src.len()
            invariant
                i <= src@.len(),
                views(keys@) == named_keys(views(src@).subrange(0, i as int)),
            decreases src@.len() - i,
        {
            let pair = (src[i].user_id.to_string(), to_vec(src[i].wrapped.as_slice()));
            assert(pair.deep_view().1 =~= src@[i as int].wrapped@);
            assert(pair.deep_view() == (src@[i as int].user_id.name(), src@[i as int].wrapped@));
            keys.push(pair);
            i += 1;
            assert(named_keys(views(src@).subrange(0, i as int)) =~= named_keys(
                views(src@).subrange(0, i - 1),
            ).push((src@[i - 1].user_id.name(), src@[i - 1].wrapped@)));
        }
        assert(views(src@).subrange(0, src@.len() as int) =~= views(src@));
        encode_channel(
            id.as_str(),
            community_id.as_str(),
            self.name.as_str(),
            kind,
            &keys,
            created_at.as_str(),
            self.version,
        )
    }

    /// The wrapped channel key of `user`.
    pub fn key_for(&self, user: &UserId) -> (r: Option<&Vec<u8>>)
        ensures
            match r {
                Some(w) => member_key(self.deep_view().encrypted_channel_key, *user) == Some(w@),
                None => member_key(self.deep_view().encrypted_channel_key, *user) is None,
            },
    {
        broadcast use vec_deep_view;

        let keys = &self.encrypted_channel_key;
        let ghost all = views(keys@);
        let mut i: usize = 0;
        assert(all.subrange(0, all.len() as int) =~= all);
        while i < keys.len()
            invariant
                i <= keys@.len(),
                *keys == self.encrypted_channel_key,
                all == views(keys@),
                member_key(all, *user) == member_key(all.subrange(i as int, all.len() as int), *user),
            decreases keys@.len() - i,
        {
            let ghost rest = all.subrange(i as int, all.len() as int);
            if keys[i].user_id.same(user) {
                return Some(&keys[i].wrapped);
            }
            assert(rest.subrange(1, rest.len() as int) =~= all.subrange(i + 1, all.len() as int));
            i += 1;
        }
        None
    }
}

} // verus!
