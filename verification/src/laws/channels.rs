//! Channels: creating, deleting, rotating keys, listing.

use crate::api::effects::EffectView;
use crate::api::event_processor::channel_handler::rotation_accepted;
use crate::api::event_processor::community_handler::{broadcast_applied, delivered_key};
use crate::api::rpc_server::channel::{
    channel_created, channel_created_effects, channel_deleted, channel_deleted_effects,
    channel_infos, create_refusal, delete_refusal, key_rotated, key_rotated_effects, kind_dto,
    kind_of_dto, new_channel, other_channels_membership, rotate_refusal, wrapped_for_members,
};
use crate::api::rpc_server::seed_check;
use crate::api::types::ChannelKindDto;
use crate::api::{channel_topic, community_topic, subscribe, unsubscribe, AppStateView};
use crate::crypto::channel_keys::delivers;
use crate::crypto::primitives::{ed25519_public_key, ed25519_signature, x25519_public_key};
use crate::identity::x25519_secret_of;
use crate::model::channel::{member_key, ChannelKind, ChannelManifestView};
use crate::model::membership::MembershipRecordView;
use crate::model::network_event::{accepts, NetworkEventView};
use crate::model::types::{ulid_parse, ulid_text_round_trip, ChannelId, UserId};
use crate::table::{entry_in_map, has_key, lists, position};
use crate::time::Timestamp;
use vstd::prelude::*;

verus! {

/// Whether the records of a community are filed under their own users.
pub open spec fn filed_by_user(members: Map<Seq<char>, MembershipRecordView>) -> bool {
    forall|k: Seq<char>|
        members.contains_key(k) ==> (#[trigger] members[k]).user_id.name() == k
}

/// A key that is wrapped for the members of a community reaches every one of
/// them: each finds a wrapping under their own id, and it opens to that key with
/// their own secret. Nobody else is on the list.
pub proof fn wrapped_keys_reach_every_member(
    keys: Seq<(UserId, Seq<u8>)>,
    key: Seq<u8>,
    members: Map<Seq<char>, MembershipRecordView>,
    k: Seq<char>,
)
    requires
        wrapped_for_members(keys, key, members),
        filed_by_user(members),
    ensures
        members.contains_key(k) ==> (member_key(keys, members[k].user_id) matches Some(w)
            && delivers(key, members[k].x25519_public_key, w)),
        forall|i: int|
            0 <= i < keys.len() ==> members.contains_key((#[trigger] keys[i]).0.name()),
{
    let order = choose|order: Seq<(Seq<char>, MembershipRecordView)>|
        #[trigger] lists(order, members) && crate::api::rpc_server::channel::wrapped_for_all(
            keys,
            key,
            order,
        );
    assert forall|i: int| 0 <= i < keys.len() implies members.contains_key(
        (#[trigger] keys[i]).0.name(),
    ) by {
        entry_in_map(order, i);
        assert(members[order[i].0].user_id.name() == order[i].0);
    }
    if members.contains_key(k) {
        assert(has_key(order, k));
        let i = position(order, k);
        entry_in_map(order, i);
        let user = members[k].user_id;
        assert(keys[i].0 == user);
        assert forall|j: int| 0 <= j < keys.len() && j != i implies (#[trigger] keys[j]).0
            != user by {
            entry_in_map(order, j);
            assert(members[order[j].0].user_id.name() == order[j].0);
            assert(order[j].0 != order[i].0);
        }
        only_key_found(keys, user, i);
    }
}

proof fn only_key_found(keys: Seq<(UserId, Seq<u8>)>, user: UserId, i: int)
    requires
        0 <= i < keys.len(),
        keys[i].0 == user,
        forall|j: int| 0 <= j < keys.len() && j != i ==> (#[trigger] keys[j]).0 != user,
    ensures
        member_key(keys, user) == Some(keys[i].1),
    decreases keys.len(),
{
    if i > 0 {
        let rest = keys.subrange(1, keys.len() as int);
        assert(keys[0].0 != user);
        assert forall|j: int| 0 <= j < rest.len() && j != i - 1 implies (#[trigger] rest[j]).0
            != user by {
            assert(keys[j + 1].0 != user);
        }
        assert(rest[i - 1] == keys[i]);
        only_key_found(rest, user, i - 1);
    }
}

/// A channel that is created stands as asked for, with its key, and the community
/// lists it in its next version; other channels, keys and communities stay. The
/// members hear of both manifests, and the node listens to the channel.
pub proof fn created_channels_stand(
    s: AppStateView,
    c: Seq<char>,
    id: ChannelId,
    name: Seq<char>,
    kind: ChannelKindDto,
    keys: Seq<(UserId, Seq<u8>)>,
    now: Timestamp,
    key: Seq<u8>,
    d: Seq<char>,
)
    requires
        s.communities.contains_key(c),
        s.communities[c].manifest.version < u64::MAX,
        ulid_parse(c) is Some,
    ensures
        ({
            let ch = new_channel(id, c, name, kind, keys, now);
            let t = channel_created(s, c, ch, key);
            let fx = channel_created_effects(s, c, ch);
            let before = s.communities[c].manifest;
            let m = t.communities[c].manifest;
            &&& t.channels.contains_key(id.name())
            &&& t.channels[id.name()].name == name
            &&& t.channels[id.name()].id == id
            &&& t.channels[id.name()].community_id.0 == ulid_parse(c)->0
            &&& kind_dto(t.channels[id.name()].kind) == kind
            &&& t.channels[id.name()].encrypted_channel_key == keys
            &&& t.channels[id.name()].version == 1
            &&& t.channel_keys.contains_key(id.name())
            &&& t.channel_keys[id.name()] == key
            &&& m.version == before.version + 1
            &&& m.channel_ids.len() == before.channel_ids.len() + 1
            &&& m.channel_ids.last() == id
            &&& m.channel_ids.drop_last() == before.channel_ids
            &&& m.public_key == before.public_key
            &&& m.name == before.name
            &&& m.admin_ids == before.admin_ids
            &&& m.seed_nodes == before.seed_nodes
            &&& t.communities[c] == m.signed_with(s.local.key)
            &&& d != id.name() ==> t.channels.contains_key(d) == s.channels.contains_key(d)
                && t.channels[d] == s.channels[d]
            &&& d != id.name() ==> t.channel_keys.contains_key(d) == s.channel_keys.contains_key(d)
                && t.channel_keys[d] == s.channel_keys[d]
            &&& d != c ==> t.communities.contains_key(d) == s.communities.contains_key(d)
                && t.communities[d] == s.communities[d]
            &&& t.members == s.members
            &&& t.message_log == s.message_log
            &&& fx.contains(
                EffectView::Publish {
                    topic: community_topic(c),
                    event: NetworkEventView::ManifestUpdate(t.communities[c]),
                },
            )
            &&& fx.contains(
                EffectView::Publish {
                    topic: community_topic(c),
                    event: NetworkEventView::ChannelManifestBroadcast(t.channels[id.name()]),
                },
            )
            &&& fx.contains(subscribe(channel_topic(id.name())))
        }),
{
    let ch = new_channel(id, c, name, kind, keys, now);
    let t = channel_created(s, c, ch, key);
    let fx = channel_created_effects(s, c, ch);
    assert(t.communities[c].manifest.channel_ids.drop_last()
        =~= s.communities[c].manifest.channel_ids);
    assert(fx[5] == EffectView::Publish {
        topic: community_topic(c),
        event: NetworkEventView::ManifestUpdate(t.communities[c]),
    });
    assert(fx[6] == EffectView::Publish {
        topic: community_topic(c),
        event: NetworkEventView::ChannelManifestBroadcast(t.channels[id.name()]),
    });
    assert(fx[8] == subscribe(channel_topic(id.name())));
}

/// A member who is told of a new channel has it and reads it: the broadcast
/// brings the manifest, and the wrapping under their id brings the key.
pub proof fn members_can_read_new_channels(
    s: AppStateView,
    member: AppStateView,
    ch: ChannelManifestView,
    key: Seq<u8>,
    members: Map<Seq<char>, MembershipRecordView>,
)
    requires
        wrapped_for_members(ch.encrypted_channel_key, key, members),
        filed_by_user(members),
        members.contains_key(member.local.user_id.name()),
        members[member.local.user_id.name()].x25519_public_key == x25519_public_key(
            x25519_secret_of(member.local.key),
        ),
        x25519_secret_of(member.local.key).len() == 32,
        member.communities.contains_key(ch.community_id.name()),
    ensures
        ({
            let t = broadcast_applied(member, ch);
            &&& t.channels.contains_key(ch.id.name())
            &&& t.channels[ch.id.name()] == ch
            &&& t.channel_keys.contains_key(ch.id.name())
            &&& t.channel_keys[ch.id.name()] == key
        }),
{
    let k = member.local.user_id.name();
    wrapped_keys_reach_every_member(ch.encrypted_channel_key, key, members, k);
    crate::model::types::user_name_injective(members[k].user_id, member.local.user_id);
    assert(delivered_key(member, ch) == Some(key));
}

/// A channel that is deleted is gone with its key, the community lists it no more
/// in its next version, and the members hear of it; other channels stay.
pub proof fn deleted_channels_are_gone(
    s: AppStateView,
    c: Seq<char>,
    id: ChannelId,
    d: Seq<char>,
    other: ChannelId,
)
    requires
        delete_refusal(s, c, id.name()) is None,
        s.communities[c].manifest.version < u64::MAX,
    ensures
        ({
            let t = channel_deleted(s, c, id.name());
            let fx = channel_deleted_effects(s, c, id.name());
            let before = s.communities[c].manifest;
            let m = t.communities[c].manifest;
            &&& !t.channels.contains_key(id.name())
            &&& !t.channel_keys.contains_key(id.name())
            &&& m.version == before.version + 1
            &&& !m.channel_ids.contains(id)
            &&& other != id ==> (m.channel_ids.contains(other) <==> before.channel_ids.contains(
                other,
            ))
            &&& m.public_key == before.public_key
            &&& m.name == before.name
            &&& t.communities[c] == m.signed_with(s.local.key)
            &&& d != id.name() ==> t.channels.contains_key(d) == s.channels.contains_key(d)
            &&& d != id.name() && s.channels.contains_key(d) ==> t.channels[d] == s.channels[d]
            &&& d != id.name() ==> t.channel_keys.contains_key(d) == s.channel_keys.contains_key(d)
            &&& d != id.name() && s.channel_keys.contains_key(d) ==> t.channel_keys[d]
                == s.channel_keys[d]
            &&& t.members == s.members
            &&& t.message_log == s.message_log
            &&& fx.contains(
                EffectView::Publish {
                    topic: community_topic(c),
                    event: NetworkEventView::ManifestUpdate(t.communities[c]),
                },
            )
            &&& fx.contains(unsubscribe(channel_topic(id.name())))
        }),
{
    ulid_text_round_trip(id.0);
    let t = channel_deleted(s, c, id.name());
    let fx = channel_deleted_effects(s, c, id.name());
    other_channels_membership(s.communities[c].manifest.channel_ids, id, id);
    other_channels_membership(s.communities[c].manifest.channel_ids, id, other);
    assert(fx[4] == unsubscribe(channel_topic(id.name())));
    assert(fx[5] == EffectView::Publish {
        topic: community_topic(c),
        event: NetworkEventView::ManifestUpdate(t.communities[c]),
    });
}

/// A rotation gives one channel another key and its next version; other channels
/// and keys stay. The announcement is signed with the community's key, and the
/// wrapped keys go to the members.
pub proof fn rotations_touch_one_channel(
    s: AppStateView,
    c: Seq<char>,
    channel: Seq<char>,
    key: Seq<u8>,
    keys: Seq<(UserId, Seq<u8>)>,
    d: Seq<char>,
)
    requires
        s.channels.contains_key(channel),
        s.channels[channel].version < u64::MAX,
    ensures
        ({
            let t = key_rotated(s, channel, key, keys);
            let fx = key_rotated_effects(s, c, channel, key, keys);
            let before = s.channels[channel];
            let ch = t.channels[channel];
            &&& t.channel_keys.contains_key(channel)
            &&& t.channel_keys[channel] == key
            &&& t.channels.contains_key(channel)
            &&& ch.version == before.version + 1
            &&& ch.encrypted_channel_key == keys
            &&& ch.id == before.id
            &&& ch.name == before.name
            &&& ch.kind == before.kind
            &&& ch.community_id == before.community_id
            &&& d != channel ==> t.channels.contains_key(d) == s.channels.contains_key(d)
                && t.channels[d] == s.channels[d]
            &&& d != channel ==> t.channel_keys.contains_key(d) == s.channel_keys.contains_key(d)
                && t.channel_keys[d] == s.channel_keys[d]
            &&& d != channel && s.previous_channel_keys.contains_key(d)
                ==> t.previous_channel_keys.contains_key(d) && t.previous_channel_keys[d]
                == s.previous_channel_keys[d]
            &&& t.communities == s.communities
            &&& t.members == s.members
            &&& t.message_log == s.message_log
            &&& fx.contains(
                EffectView::Publish {
                    topic: channel_topic(channel),
                    event: NetworkEventView::ChannelKeyRotation {
                        new_manifest: ch,
                        signature: ed25519_signature(s.local.key, ch.canonical()),
                    },
                },
            )
            &&& fx.contains(
                EffectView::Publish {
                    topic: community_topic(c),
                    event: NetworkEventView::ChannelManifestBroadcast(ch),
                },
            )
        }),
{
    let t = key_rotated(s, channel, key, keys);
    let fx = key_rotated_effects(s, c, channel, key, keys);
    let ch = t.channels[channel];
    let n = fx.len();
    assert(fx[n - 2] == EffectView::Publish {
        topic: channel_topic(channel),
        event: NetworkEventView::ChannelKeyRotation {
            new_manifest: ch,
            signature: ed25519_signature(s.local.key, ch.canonical()),
        },
    });
    assert(fx[n - 1] == EffectView::Publish {
        topic: community_topic(c),
        event: NetworkEventView::ChannelManifestBroadcast(ch),
    });
}

/// A member who knows the channel accepts a rotation that the creator announces.
pub proof fn announced_rotations_are_accepted(
    s: AppStateView,
    member: AppStateView,
    channel: Seq<char>,
    key: Seq<u8>,
    keys: Seq<(UserId, Seq<u8>)>,
)
    requires
        s.channels.contains_key(channel),
        s.channels[channel].version < u64::MAX,
        ({
            let ch = key_rotated(s, channel, key, keys).channels[channel];
            &&& accepts(
                ed25519_public_key(s.local.key),
                ch.canonical(),
                ed25519_signature(s.local.key, ch.canonical()),
            )
            &&& member.communities.contains_key(ch.community_id.name())
            &&& member.communities[ch.community_id.name()].manifest.public_key
                == ed25519_public_key(s.local.key)
            &&& member.channels.contains_key(ch.id.name())
            &&& member.channels[ch.id.name()].version <= s.channels[channel].version
        }),
    ensures
        ({
            let ch = key_rotated(s, channel, key, keys).channels[channel];
            rotation_accepted(member, ch, ed25519_signature(s.local.key, ch.canonical()))
        }),
{
}

/// The creator can create, delete and rotate.
pub proof fn creators_can_change_channels(s: AppStateView, c: Seq<char>, id: ChannelId, name: Seq<char>)
    requires
        s.communities.contains_key(c),
        s.communities[c].manifest.public_key == ed25519_public_key(s.local.key),
    ensures
        1 <= vstd::utf8::encode_utf8(name).len() <= 100 && ulid_parse(c) is Some ==> create_refusal(
            s,
            c,
            name,
        ) is None,
        seed_check(s, c) is Ok && s.channels.contains_key(id.name()) ==> delete_refusal(
            s,
            c,
            id.name(),
        ) is None && rotate_refusal(s, c, id.name()) is None,
{
    ulid_text_round_trip(id.0);
}

/// Every kind of channel survives the way to clients and back.
pub proof fn kinds_read_back(kind: ChannelKind, dto: ChannelKindDto)
    ensures
        kind_of_dto(kind_dto(kind)) == kind,
        kind_dto(kind_of_dto(dto)) == dto,
{
}

/// A list of channels shows exactly those of the community, each as it is.
pub proof fn channel_lists_show_the_community(
    order: Seq<(Seq<char>, ChannelManifestView)>,
    c: Seq<char>,
)
    ensures
        ({
            let kept = order.filter(
                |e: (Seq<char>, ChannelManifestView)| e.1.community_id.name() == c,
            );
            let shown = channel_infos(order, c);
            &&& shown.len() == kept.len()
            &&& forall|i: int|
                0 <= i < shown.len() ==> {
                    &&& (#[trigger] shown[i]).id == kept[i].1.id.name()
                    &&& shown[i].name == kept[i].1.name
                    &&& shown[i].community_id == kept[i].1.community_id.name()
                    &&& kind_of_dto(shown[i].kind) == kept[i].1.kind
                    &&& shown[i].version == kept[i].1.version
                    &&& shown[i].created_at == kept[i].1.created_at
                }
        }),
    decreases order.len(),
{
    reveal(Seq::filter);
    if order.len() > 0 {
        channel_lists_show_the_community(order.drop_last(), c);
    }
}

} // verus!
