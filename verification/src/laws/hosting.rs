//! What a hosting node keeps, and what a new seed node is handed.

use crate::api::effects::StoreUpdateView;
use crate::api::event_processor::manifest_handler::upserted;
use crate::api::seed_sync::{batches, histories, manifest_channels, records, HISTORY_BATCH};
use crate::api::AppStateView;
use crate::model::channel::ChannelManifestView;
use crate::model::membership::MembershipRecordView;
use crate::model::types::ChannelId;
use crate::node::store::{
    channel_index, replaced_channel, updated, with_channel, with_missing, without_channel,
    CommunityMetaView,
};
use vstd::prelude::*;

verus! {

/// Whether a list holds a channel with the given id.
pub open spec fn holds_channel(list: Seq<ChannelManifestView>, id: Seq<char>) -> bool {
    exists|i: int| 0 <= i < list.len() && (#[trigger] list[i]).id.name() == id
}

proof fn index_tells(list: Seq<ChannelManifestView>, id: Seq<char>, from: int)
    requires
        0 <= from,
    ensures
        match channel_index(list, id, from) {
            Some(i) => from <= i < list.len() && list[i].id.name() == id && forall|j: int|
                from <= j < i ==> (#[trigger] list[j]).id.name() != id,
            None => forall|j: int| from <= j < list.len() ==> (#[trigger] list[j]).id.name() != id,
        },
    decreases list.len() - from,
{
    if from < list.len() && list[from].id.name() != id {
        index_tells(list, id, from + 1);
    }
}

/// Storing a channel puts it where the channel with its id stood, or at the end;
/// every other channel stays where it is.
pub proof fn stored_channels_replace_their_own(
    list: Seq<ChannelManifestView>,
    ch: ChannelManifestView,
    d: Seq<char>,
)
    ensures
        ({
            let t = with_channel(list, ch);
            &&& t.contains(ch)
            &&& holds_channel(t, ch.id.name())
            &&& holds_channel(list, ch.id.name()) ==> t.len() == list.len()
            &&& !holds_channel(list, ch.id.name()) ==> t == list.push(ch)
            &&& forall|i: int|
                0 <= i < list.len() && (#[trigger] list[i]).id.name() != ch.id.name() ==> t[i]
                    == list[i]
            &&& d != ch.id.name() ==> (holds_channel(t, d) <==> holds_channel(list, d))
        }),
{
    let id = ch.id.name();
    let t = with_channel(list, ch);
    index_tells(list, id, 0);
    match channel_index(list, id, 0) {
        Some(i) => {
            assert(list[i].id.name() == id);
            assert(t[i] == ch);
        },
        None => {
            assert(t[list.len() as int] == ch);
        },
    }
    if d != id {
        if holds_channel(list, d) {
            let j = choose|j: int| 0 <= j < list.len() && (#[trigger] list[j]).id.name() == d;
            assert(t[j].id.name() == d);
        }
        if holds_channel(t, d) {
            let j = choose|j: int| 0 <= j < t.len() && (#[trigger] t[j]).id.name() == d;
            assert(list[j].id.name() == d);
        }
    }
}

/// A rotation replaces the channel where it stands, and adds none.
pub proof fn rotated_channels_replace_their_own(
    list: Seq<ChannelManifestView>,
    id: Seq<char>,
    ch: ChannelManifestView,
)
    ensures
        ({
            let t = replaced_channel(list, id, ch);
            &&& t.len() == list.len()
            &&& holds_channel(list, id) ==> t.contains(ch)
            &&& !holds_channel(list, id) ==> t == list
            &&& forall|i: int|
                0 <= i < list.len() && (#[trigger] list[i]).id.name() != id ==> t[i] == list[i]
        }),
{
    let t = replaced_channel(list, id, ch);
    index_tells(list, id, 0);
    match channel_index(list, id, 0) {
        Some(i) => {
            assert(list[i].id.name() == id);
            assert(t[i] == ch);
        },
        None => {},
    }
}

/// Dropping a channel leaves the others, in order.
pub proof fn dropped_channels_leave_the_others(list: Seq<ChannelManifestView>, id: Seq<char>)
    ensures
        without_channel(list, id) == list.filter(|c: ChannelManifestView| c.id.name() != id),
        !holds_channel(without_channel(list, id), id),
    decreases list.len(),
{
    reveal(Seq::filter);
    let out = without_channel(list, id);
    if list.len() > 0 {
        let head = without_channel(list.drop_last(), id);
        dropped_channels_leave_the_others(list.drop_last(), id);
        if holds_channel(out, id) {
            let i = choose|i: int| 0 <= i < out.len() && (#[trigger] out[i]).id.name() == id;
            if i < head.len() {
                assert(head[i].id.name() == id);
            }
        }
    }
}

/// What each update leaves of a hosting record: the piece that it is about is as
/// the state has it, and every other piece stays.
pub proof fn updates_touch_one_piece(
    s: AppStateView,
    update: StoreUpdateView,
    m: CommunityMetaView,
    after: Option<CommunityMetaView>,
    k: Seq<char>,
)
    requires
        updated(s, update, Some(m), after),
    ensures
        update matches StoreUpdateView::SyncManifest { community_id } ==> s.communities.contains_key(
            community_id,
        ) ==> (after matches Some(t) && t.manifest == Some(s.communities[community_id])
            && t.channels == m.channels && t.channel_keys == m.channel_keys && t.members
            == m.members),
        update matches StoreUpdateView::SyncMember { community_id, user_id }
            ==> s.communities.contains_key(community_id) && s.member_list(
            community_id,
        ).contains_key(user_id) ==> (after matches Some(t) && t.members.contains_key(user_id)
            && t.members[user_id] == s.member_list(community_id)[user_id] && t.channels
            == m.channels && t.channel_keys == m.channel_keys && (k != user_id
            && m.members.contains_key(k) ==> t.members.contains_key(k) && t.members[k]
            == m.members[k])),
        update matches StoreUpdateView::DropMember { community_id, user_id } ==> (after matches Some(
            t,
        ) && !t.members.contains_key(user_id) && t.channels == m.channels && t.channel_keys
            == m.channel_keys && (k != user_id && m.members.contains_key(k)
            ==> t.members.contains_key(k) && t.members[k] == m.members[k])),
        update matches StoreUpdateView::SyncChannel { community_id, channel_id, with_key } ==> (
        after matches Some(t) && (s.channels.contains_key(channel_id) ==> t.channels.contains(
            s.channels[channel_id],
        )) && (!with_key ==> t.channel_keys == m.channel_keys) && (with_key
            && s.channel_keys.contains_key(channel_id) ==> t.channel_keys.contains_key(channel_id)
            && t.channel_keys[channel_id] == s.channel_keys[channel_id]) && t.members == m.members
            && t.manifest == m.manifest),
        update matches StoreUpdateView::RotateChannel { community_id, channel_id } ==> (
        after matches Some(t) && (s.channel_keys.contains_key(channel_id)
            ==> t.channel_keys.contains_key(channel_id) && t.channel_keys[channel_id]
            == s.channel_keys[channel_id]) && (k != channel_id && m.channel_keys.contains_key(k)
            ==> t.channel_keys.contains_key(k) && t.channel_keys[k] == m.channel_keys[k])),
        update matches StoreUpdateView::DropChannel { community_id, channel_id } ==> (
        after matches Some(t) && !t.channel_keys.contains_key(channel_id) && !holds_channel(
            t.channels,
            channel_id,
        ) && t.members == m.members && (k != channel_id && m.channel_keys.contains_key(k)
            ==> t.channel_keys.contains_key(k) && t.channel_keys[k] == m.channel_keys[k])),
        update matches StoreUpdateView::RemoveCommunity { community_pk } ==> after is None,
        update matches StoreUpdateView::AppendMessage { community_id, channel_id, message_id }
            ==> after == Some(m),
{
    match update {
        StoreUpdateView::SyncChannel { community_id, channel_id, with_key } => {
            if s.channels.contains_key(channel_id) {
                stored_channels_replace_their_own(m.channels, s.channels[channel_id], channel_id);
            }
        },
        StoreUpdateView::DropChannel { community_id, channel_id } => {
            dropped_channels_leave_the_others(m.channels, channel_id);
        },
        _ => {},
    }
}

/// A community that a peer served is stored as served: its manifest, its channels,
/// the keys of these that are at hand, and its members, each under their own id.
pub proof fn served_communities_are_stored(
    s: AppStateView,
    c: Seq<char>,
    channels: Seq<ChannelManifestView>,
    members: Seq<MembershipRecordView>,
    before: Option<CommunityMetaView>,
    after: Option<CommunityMetaView>,
    i: int,
)
    requires
        updated(
            s,
            StoreUpdateView::ReplaceCommunity { community_id: c, channels, members },
            before,
            after,
        ),
        s.communities.contains_key(c),
    ensures
        after matches Some(t) && {
            &&& t.manifest == Some(s.communities[c])
            &&& t.channels == channels
            &&& t.cert.community_pk@ == s.communities[c].manifest.public_key
            &&& 0 <= i < members.len() ==> t.members.contains_key(members[i].user_id.name())
            &&& 0 <= i < channels.len() && s.channel_keys.contains_key(channels[i].id.name())
                ==> t.channel_keys.contains_key(channels[i].id.name())
                && t.channel_keys[channels[i].id.name()] == s.channel_keys[channels[i].id.name()]
        },
{
    if 0 <= i < members.len() {
        everyone_is_filed(members, i);
    }
    if 0 <= i < channels.len() {
        let names = crate::api::event_processor::manifest_handler::names_of(channels);
        assert(names[i] == channels[i].id.name());
        assert(names.contains(channels[i].id.name()));
    }
}

proof fn everyone_is_filed(members: Seq<MembershipRecordView>, i: int)
    requires
        0 <= i < members.len(),
    ensures
        upserted(Map::empty(), members).contains_key(members[i].user_id.name()),
    decreases members.len(),
{
    if i < members.len() - 1 {
        everyone_is_filed(members.drop_last(), i);
    }
}

/// Members that a record lacks are added, and no record is replaced.
pub proof fn missing_members_are_added(
    members: Map<Seq<char>, MembershipRecordView>,
    order: Seq<(Seq<char>, MembershipRecordView)>,
    k: Seq<char>,
)
    ensures
        ({
            let t = with_missing(members, order);
            &&& members.contains_key(k) ==> t.contains_key(k) && t[k] == members[k]
            &&& forall|i: int|
                0 <= i < order.len() ==> t.contains_key((#[trigger] order[i]).1.user_id.name())
        }),
    decreases order.len(),
{
    if order.len() > 0 {
        let short = order.drop_last();
        missing_members_are_added(members, short, k);
        let u = with_missing(members, short);
        let t = with_missing(members, order);
        assert forall|i: int| 0 <= i < order.len() implies t.contains_key(
            (#[trigger] order[i]).1.user_id.name(),
        ) by {
            if i < short.len() {
                assert(u.contains_key(short[i].1.user_id.name()));
            }
        }
    }
}

/// A new seed node gets every channel of the manifest that is at hand, and nothing
/// that the manifest does not list.
pub proof fn seeds_get_every_channel(s: AppStateView, ids: Seq<ChannelId>, id: ChannelId)
    ensures
        ids.contains(id) && s.channels.contains_key(id.name()) ==> manifest_channels(
            s,
            ids,
        ).contains(s.channels[id.name()]),
        forall|i: int|
            0 <= i < manifest_channels(s, ids).len() ==> exists|j: int|
                0 <= j < ids.len() && s.channels.contains_key((#[trigger] ids[j]).name())
                    && #[trigger] manifest_channels(s, ids)[i] == s.channels[ids[j].name()],
    decreases ids.len(),
{
    if ids.len() > 0 {
        let short = ids.drop_last();
        let head = manifest_channels(s, short);
        let all = manifest_channels(s, ids);
        seeds_get_every_channel(s, short, id);
        if ids.contains(id) && s.channels.contains_key(id.name()) {
            let i = ids.index_of(id);
            if i < short.len() {
                assert(short[i] == id);
                let ch = s.channels[id.name()];
                assert(all[head.index_of(ch)] == ch);
            } else {
                assert(all[all.len() - 1] == s.channels[id.name()]);
            }
        }
        assert forall|i: int| 0 <= i < all.len() implies exists|j: int|
            0 <= j < ids.len() && s.channels.contains_key((#[trigger] ids[j]).name())
                && #[trigger] all[i] == s.channels[ids[j].name()] by {
            if i < head.len() {
                assert(all[i] == head[i]);
                let j = choose|j: int|
                    0 <= j < short.len() && s.channels.contains_key((#[trigger] short[j]).name())
                        && head[i] == s.channels[short[j].name()];
                assert(ids[j] == short[j]);
                assert(s.channels.contains_key(ids[j].name()));
            } else {
                let j = ids.len() - 1;
                assert(s.channels.contains_key(ids[j].name()));
            }
        }
    }
}

/// A new seed node gets the whole history of every channel that has one.
pub proof fn seeds_get_every_history(
    s: AppStateView,
    channels: Seq<ChannelManifestView>,
    i: int,
)
    requires
        0 <= i < channels.len(),
        s.message_log.entries(channels[i].id.name()).len() > 0,
    ensures
        exists|j: int|
            0 <= j < histories(s, channels).len() && (#[trigger] histories(s, channels)[j]).channel_id
                == channels[i].id && crate::api::seed_sync::joined(
                histories(s, channels)[j].batches,
            ) == s.message_log.entries(channels[i].id.name()),
    decreases channels.len(),
{
    let short = channels.drop_last();
    let head = histories(s, short);
    let all = histories(s, channels);
    if i < short.len() {
        assert(short[i] == channels[i]);
        seeds_get_every_history(s, short, i);
        let j = choose|j: int|
            0 <= j < head.len() && (#[trigger] head[j]).channel_id == channels[i].id
                && crate::api::seed_sync::joined(head[j].batches) == s.message_log.entries(
                channels[i].id.name(),
            );
        assert(all[j] == head[j]);
    } else {
        let entries = s.message_log.entries(channels[i].id.name());
        crate::api::seed_sync::batches_lose_nothing(entries, HISTORY_BATCH as nat);
        let j = all.len() - 1;
        assert(all[j].channel_id == channels[i].id);
    }
}

/// A new seed node gets every member's record.
pub proof fn seeds_get_every_member(order: Seq<(Seq<char>, MembershipRecordView)>, i: int)
    requires
        0 <= i < order.len(),
    ensures
        records(order).len() == order.len(),
        records(order)[i] == order[i].1,
{
}

} // verus!
