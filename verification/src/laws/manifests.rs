//! Manifests: what a fetched or announced one changes.

use crate::api::effects::{DhtActionView, EffectView, StoreUpdateView, TableFile};
use crate::api::event_processor::channel_handler::{admin_index, sync_peer};
use crate::api::event_processor::community_handler::{
    broadcast_applied, broadcast_effects, delivered_key, dropped_channels, fetch_history,
    ids_missing, ids_missing_membership, joined_state, key_kept, resume_point, update_accepted,
    update_handled, StoredView,
};
use crate::api::event_processor::manifest_handler::{
    can_complete, catch_up, completed, completed_all, completed_broadcasts, installed, is_own,
    lacks_key, other_peer, own_announcement, retry_effects, wraps_fit,
};
use crate::api::event_processor::manifest_handler::{draining_keeps, taking_keeps};
use crate::api::event_processor::member_handler::{
    channels_to_share, join_accepted, member_joined_state, shared, shared_effects,
};
use crate::api::event_processor::{listen_noted, listening_effects};
use crate::api::rpc_server::community::peers_of;
use crate::api::types::PeerSummaryView;
use crate::api::{
    channel_topic, community_topic, fetch_manifest, subscribe, unsubscribe, AppStateView,
};
use crate::crypto::channel_keys::delivers;
use crate::crypto::primitives::{ed25519_public_key, x25519_public_key};
use crate::identity::x25519_secret_of;
use crate::laws::startup::acquaintances_stay;
use crate::laws::waiting::only_one;
use crate::model::channel::{has_member_key, member_key, ChannelManifestView};
use crate::model::community::{channel_names, SignedManifestView};
use crate::model::membership::{MembershipRecordView, Role};
use crate::model::network_event::NetworkEventView;
use crate::model::types::{ulid_text_injective, ChannelId, CommunityId, UserId};
use crate::network::network_handle::types::ManifestResponseView;
use crate::network::node_addr::NodeAddr;
use crate::table::{entry_in_map, has_key, lists, position};
use crate::time::Timestamp;
use vstd::prelude::*;

verus! {

/// Whether a channel is `a` but for the wrapped keys.
pub open spec fn same_but_keys(a: ChannelManifestView, b: ChannelManifestView) -> bool {
    b == (ChannelManifestView { encrypted_channel_key: b.encrypted_channel_key, ..a })
}

/// Storing channels: those given stand as given, the others stay.
proof fn installing(
    channels: Map<Seq<char>, ChannelManifestView>,
    list: Seq<ChannelManifestView>,
    c: Seq<char>,
)
    ensures
        ({
            let t = installed(channels, list);
            &&& (forall|i: int| 0 <= i < list.len() ==> (#[trigger] list[i]).id.name() != c) ==> {
                &&& t.contains_key(c) == channels.contains_key(c)
                &&& t[c] == channels[c]
            }
            &&& forall|i: int|
                0 <= i < list.len() && only_one(list, i) && (#[trigger] list[i]).id.name() == c
                    ==> t.contains_key(c) && t[c] == list[i]
        }),
    decreases list.len(),
{
    if list.len() > 0 {
        let short = list.drop_last();
        let n = list.len() - 1;
        let t = installed(channels, list);
        installing(channels, short, c);
        if forall|i: int| 0 <= i < list.len() ==> (#[trigger] list[i]).id.name() != c {
            assert forall|i: int| 0 <= i < short.len() implies (#[trigger] short[i]).id.name()
                != c by {
                assert(list[i].id.name() != c);
            }
            assert(list[n].id.name() != c);
        }
        assert forall|i: int|
            0 <= i < list.len() && only_one(list, i) && (#[trigger] list[i]).id.name()
                == c implies t.contains_key(c) && t[c] == list[i] by {
            if i < n {
                assert(short[i] == list[i]);
                assert(only_one(short, i)) by {
                    assert forall|j: int| 0 <= j < short.len() && j != i implies (
                    #[trigger] short[j]).id.name() != short[i].id.name() by {
                        assert(list[j].id.name() != list[i].id.name());
                    }
                }
                assert(list[n].id.name() != list[i].id.name());
            }
        }
    }
}

/// Wrapping keys for more members changes nothing else about a channel.
proof fn completing_adds_keys(
    ch: ChannelManifestView,
    order: Seq<(Seq<char>, MembershipRecordView)>,
    wraps: Seq<Seq<u8>>,
)
    ensures
        same_but_keys(ch, completed(ch, order, wraps)),
    decreases order.len(),
{
    if order.len() > 0 {
        completing_adds_keys(ch, order.drop_last(), wraps.drop_last());
    }
}

proof fn completing_all_adds_keys(
    channels: Map<Seq<char>, ChannelManifestView>,
    keys: Map<Seq<char>, Seq<u8>>,
    names: Seq<Seq<char>>,
    order: Seq<(Seq<char>, MembershipRecordView)>,
    wraps: Seq<Seq<Seq<u8>>>,
    c: Seq<char>,
)
    ensures
        ({
            let t = completed_all(channels, keys, names, order, wraps);
            &&& t.contains_key(c) == channels.contains_key(c)
            &&& channels.contains_key(c) ==> same_but_keys(channels[c], t[c])
            &&& !names.contains(c) && channels.contains_key(c) ==> t[c] == channels[c]
        }),
    decreases names.len(),
{
    if names.len() > 0 {
        let short = names.drop_last();
        completing_all_adds_keys(channels, keys, short, order, wraps.drop_last(), c);
        let before = completed_all(channels, keys, short, order, wraps.drop_last());
        if short.contains(c) {
            assert(names[short.index_of(c)] == c);
        }
        assert(names[names.len() - 1] == names.last());
        if names.last() == c && can_complete(before, keys, c) {
            completing_adds_keys(before[c], order, wraps.last());
        }
    }
}

proof fn sharing_changes_keys_only(
    channels: Map<Seq<char>, ChannelManifestView>,
    keys: Map<Seq<char>, Seq<u8>>,
    ids: Seq<ChannelId>,
    user: crate::model::types::UserId,
    wraps: Seq<Seq<u8>>,
    c: Seq<char>,
)
    ensures
        ({
            let t = shared(channels, keys, ids, user, wraps);
            &&& t.contains_key(c) == channels.contains_key(c)
            &&& channels.contains_key(c) ==> same_but_keys(channels[c], t[c])
        }),
    decreases ids.len(),
{
    if ids.len() > 0 {
        sharing_changes_keys_only(channels, keys, ids.drop_last(), user, wraps.drop_last(), c);
    }
}

/// Whether a manifest lists a channel.
pub open spec fn lists_channel(m: SignedManifestView, c: Seq<char>) -> bool {
    exists|i: int|
        0 <= i < m.manifest.channel_ids.len() && (#[trigger] m.manifest.channel_ids[i]).name() == c
}

proof fn listed_names(m: SignedManifestView, c: Seq<char>)
    ensures
        channel_names(m.manifest.channel_ids).contains(c) <==> lists_channel(m, c),
{
    let names = channel_names(m.manifest.channel_ids);
    if names.contains(c) {
        let i = names.index_of(c);
        assert(m.manifest.channel_ids[i].name() == c);
    }
    if lists_channel(m, c) {
        let i = choose|i: int|
            0 <= i < m.manifest.channel_ids.len() && (#[trigger] m.manifest.channel_ids[i]).name()
                == c;
        assert(names[i] == c);
    }
}

/// A manifest response that is taken up stands as it was served: its manifest,
/// and each channel that the manifest lists, but for keys that the creator wraps
/// in addition. Other communities and their channels stay as they are, and the
/// node listens on every topic that was served.
#[verifier::rlimit(60)]
pub proof fn served_manifests_stand(
    p: ManifestResponseView,
    s: AppStateView,
    after: AppStateView,
    now: Timestamp,
    last_seqs: Option<Map<Seq<char>, u64>>,
    fx: Seq<EffectView>,
    c: Seq<char>,
)
    requires
        p.handled(s, after, now, last_seqs, fx),
        p.manifest.valid(),
        key_kept(s, p.manifest),
        !p.manifest.manifest.deleted,
    ensures
        after.communities.contains_key(p.community()),
        after.communities[p.community()] == p.manifest,
        forall|d: Seq<char>|
            d != p.community() ==> (#[trigger] after.communities.contains_key(d)
                == s.communities.contains_key(d)),
        forall|d: Seq<char>|
            d != p.community() ==> #[trigger] after.communities[d] == s.communities[d],
        forall|i: int|
            0 <= i < p.channels.len() && only_one(p.channels, i) && (
            #[trigger] p.channels[i]).id.name() == c && lists_channel(p.manifest, c) ==> {
                &&& after.channels.contains_key(c)
                &&& same_but_keys(p.channels[i], after.channels[c])
                &&& !is_own(s, p.manifest) ==> after.channels[c] == p.channels[i]
            },
        (forall|i: int| 0 <= i < p.channels.len() ==> (#[trigger] p.channels[i]).id.name() != c)
            && s.channels.contains_key(c) && s.channels[c].community_id.name() != p.community()
            && !is_own(s, p.manifest) ==> after.channels.contains_key(c) && after.channels[c]
            == s.channels[c],
        forall|i: int|
            0 <= i < p.channels.len() ==> fx.contains(
                subscribe(channel_topic((#[trigger] p.channels[i]).id.name())),
            ),
        fx.contains(subscribe(community_topic(p.community()))),
        after.dms == s.dms,
        after.bans == s.bans,
        after.config == s.config,
        after.local == s.local,
        after.presence == s.presence,
        after.read_state == s.read_state,
{
    let list = crate::api::event_processor::manifest_handler::keyed_channels(
        p.stored(s),
        p.manifest,
        p.channels,
    );
    taking_keeps(p.stored(s), list);
    draining_keeps(p.keyed(s), p.rotated(s));
    let (order, wraps, own_fx) = choose|
        order: Seq<(Seq<char>, MembershipRecordView)>,
        wraps: Seq<Seq<Seq<u8>>>,
        own_fx: Seq<EffectView>,
    |
        #[trigger] p.applied(s, after, now, last_seqs, order, wraps, own_fx, fx);
    let t = p.peopled(s);
    let u = p.shared(s, order, wraps);
    let community = p.community();
    installing(s.channels, p.channels, c);
    listed_names(p.manifest, c);
    assert(t.channels == p.stored(s).channels);
    completing_all_adds_keys(t.channels, t.channel_keys, p.names(), order, wraps, c);
    if u.member_list(community).contains_key(u.me()) {
        let record = own_announcement(u, p.manifest, now);
        if join_accepted(u, record) {
            let more = choose|more: Seq<Seq<u8>>|
                {
                    &&& #[trigger] crate::api::event_processor::member_handler::wraps_open(
                        u.channels,
                        u.channel_keys,
                        channels_to_share(u, record.community_id.name()),
                        record.user_id,
                        record.x25519_public_key,
                        more,
                    )
                    &&& after == member_joined_state(u, record, more)
                    &&& own_fx.drop_last()
                        == crate::api::event_processor::member_handler::member_joined_effects(
                        u,
                        record,
                        more,
                    )
                };
            sharing_changes_keys_only(
                u.channels,
                u.channel_keys,
                channels_to_share(u, record.community_id.name()),
                record.user_id,
                more,
                c,
            );
        }
    }
    let a = p.first_effects(s) + p.share_effects(s, order, wraps);
    let subs = crate::api::event_processor::community_handler::subscribe_all(p.names());
    assert forall|i: int| 0 <= i < p.channels.len() implies fx.contains(
        subscribe(channel_topic((#[trigger] p.channels[i]).id.name())),
    ) by {
        assert(subs[i] == subscribe(channel_topic(p.channels[i].id.name())));
        assert(fx[a.len() + i] == subs[i]);
    }
    assert(fx[(a.len() + subs.len()) as int] == subscribe(community_topic(community)));
}

/// Asking for history: every named channel with a key is asked for, from where it
/// is missing.
proof fn catching_up_asks(
    s: AppStateView,
    from: Seq<char>,
    community: Seq<char>,
    pk: Seq<u8>,
    names: Seq<Seq<char>>,
    seqs: Option<Map<Seq<char>, u64>>,
    i: int,
)
    requires
        0 <= i < names.len(),
        s.channel_keys.contains_key(names[i]),
    ensures
        catch_up(s, from, community, pk, names, seqs).contains(
            fetch_history(from, community, pk, names[i], resume_point(s, seqs, names[i])),
        ),
    decreases names.len(),
{
    let short = names.drop_last();
    let all = catch_up(s, from, community, pk, names, seqs);
    let head = catch_up(s, from, community, pk, short, seqs);
    let x = fetch_history(from, community, pk, names[i], resume_point(s, seqs, names[i]));
    if i < short.len() {
        assert(short[i] == names[i]);
        catching_up_asks(s, from, community, pk, short, seqs, i);
        assert(all[head.index_of(x)] == x);
    } else {
        assert(all[all.len() - 1] == x);
    }
}

/// After a manifest response that leaves no channel without a key, the peer who
/// served it is asked for what is missing of every channel.
pub proof fn missing_history_is_asked_for(
    p: ManifestResponseView,
    s: AppStateView,
    after: AppStateView,
    now: Timestamp,
    last_seqs: Option<Map<Seq<char>, u64>>,
    fx: Seq<EffectView>,
    i: int,
)
    requires
        p.handled(s, after, now, last_seqs, fx),
        p.manifest.valid(),
        key_kept(s, p.manifest),
        !p.manifest.manifest.deleted,
        0 <= i < p.channels.len(),
        forall|j: int|
            0 <= j < p.channels.len() ==> p.keyed(s).channel_keys.contains_key(
                (#[trigger] p.channels[j]).id.name(),
            ),
        after.channel_keys.contains_key(p.channels[i].id.name()),
    ensures
        fx.contains(
            fetch_history(
                p.from,
                p.community(),
                p.manifest.manifest.public_key,
                p.channels[i].id.name(),
                resume_point(after, last_seqs, p.channels[i].id.name()),
            ),
        ),
{
    let (order, wraps, own_fx) = choose|
        order: Seq<(Seq<char>, MembershipRecordView)>,
        wraps: Seq<Seq<Seq<u8>>>,
        own_fx: Seq<EffectView>,
    |
        #[trigger] p.applied(s, after, now, last_seqs, order, wraps, own_fx, fx);
    let pk = p.manifest.manifest.public_key;
    let c = p.channels[i].id.name();
    assert(p.names()[i] == c);
    assert(!lacks_key(p.keyed(s).channel_keys, p.names())) by {
        if lacks_key(p.keyed(s).channel_keys, p.names()) {
            let j = choose|j: int|
                0 <= j < p.names().len() && !p.keyed(s).channel_keys.contains_key(
                    #[trigger] p.names()[j],
                );
            assert(p.keyed(s).channel_keys.contains_key(p.channels[j].id.name()));
        }
    }
    catching_up_asks(after, p.from, p.community(), pk, p.names(), last_seqs, i);
    let asked = catch_up(after, p.from, p.community(), pk, p.names(), last_seqs);
    let x = fetch_history(p.from, p.community(), pk, c, resume_point(after, last_seqs, c));
    let j = asked.index_of(x);
    let k = fx.len() - asked.len() + j;
    assert(fx[k] == asked[j]);
}

/// History is missing from just behind the last entry that is held.
pub proof fn history_resumes_behind_the_last(
    s: AppStateView,
    seqs: Option<Map<Seq<char>, u64>>,
    c: Seq<char>,
)
    ensures
        seqs is None && s.message_log.entries(c).len() <= u64::MAX ==> resume_point(s, seqs, c)
            == s.message_log.entries(c).len(),
        seqs is Some && seqs->0.contains_key(c) && seqs->0[c] < u64::MAX ==> resume_point(
            s,
            seqs,
            c,
        ) == seqs->0[c] + 1,
        seqs is Some && !seqs->0.contains_key(c) ==> resume_point(s, seqs, c) == 0,
{
}

/// A manifest update that is accepted stands as announced. Channels that it lists
/// no more are gone, every other channel stays, and what it newly lists is
/// listened to.
pub proof fn accepted_updates_stand(
    s: AppStateView,
    after: AppStateView,
    m: SignedManifestView,
    source: Option<Seq<char>>,
    parsed: Map<Seq<char>, NodeAddr>,
    fx: Seq<EffectView>,
    c: ChannelId,
)
    requires
        update_handled(s, after, m, source, parsed, fx),
        update_accepted(s, m),
        !m.manifest.deleted,
    ensures
        ({
            let community = m.manifest.id.name();
            let before = s.communities[community].manifest.channel_ids;
            let listed = m.manifest.channel_ids;
            &&& after.communities.contains_key(community)
            &&& after.communities[community] == m
            &&& forall|d: Seq<char>|
                d != community ==> (#[trigger] after.communities.contains_key(d)
                    == s.communities.contains_key(d))
            &&& before.contains(c) && !listed.contains(c) ==> !after.channels.contains_key(c.name())
            &&& !(before.contains(c) && !listed.contains(c)) ==> after.channels.contains_key(
                c.name(),
            ) == s.channels.contains_key(c.name())
            &&& after.channels.contains_key(c.name()) ==> after.channels[c.name()]
                == s.channels[c.name()]
            &&& listed.contains(c) && !before.contains(c) ==> fx.contains(
                subscribe(channel_topic(c.name())),
            )
            &&& before.contains(c) && !listed.contains(c) ==> fx.contains(
                unsubscribe(channel_topic(c.name())),
            )
            &&& source matches Some(peer) ==> fx.contains(
                fetch_manifest(peer, community, m.manifest.public_key),
            )
            &&& source is None ==> after.pending_manifest_syncs.contains(community)
            &&& after.members == s.members
            &&& after.channel_keys == s.channel_keys
            &&& after.message_log == s.message_log
            &&& after.dms == s.dms
        }),
{
    let community = m.manifest.id.name();
    let before = s.communities[community].manifest.channel_ids;
    let listed = m.manifest.channel_ids;
    let dropped = dropped_channels(s, m);
    let added = ids_missing(listed, before);
    ids_missing_membership(before, listed, c);
    ids_missing_membership(listed, before, c);
    let names = channel_names(dropped);
    assert(names.to_set().contains(c.name()) <==> dropped.contains(c)) by {
        if dropped.contains(c) {
            assert(names[dropped.index_of(c)] == c.name());
        }
        if names.contains(c.name()) {
            let i = names.index_of(c.name());
            ulid_text_injective(dropped[i].0, c.0);
        }
    }
    let saves = seq![
        EffectView::Save(crate::api::effects::TableFile::Communities),
        EffectView::Store(
            crate::api::effects::StoreUpdateView::SyncManifest { community_id: community },
        ),
    ];
    let subs = crate::api::event_processor::community_handler::subscribe_all(channel_names(added));
    let drops = crate::api::event_processor::community_handler::drop_effects(community, names);
    if added.contains(c) {
        let i = added.index_of(c);
        assert(subs[i] == subscribe(channel_topic(c.name())));
        assert(fx[2 + i] == subs[i]);
    }
    if dropped.contains(c) {
        let i = dropped.index_of(c);
        let unsubs = crate::api::unsubscribe_all(names);
        assert(unsubs[i] == unsubscribe(channel_topic(c.name())));
        assert(drops[i] == unsubs[i]);
        assert(fx[2 + subs.len() + i] == drops[i]);
    }
    if let Some(peer) = source {
        let k = 2 + subs.len() + drops.len();
        assert(fx[k as int] == fetch_manifest(peer, community, m.manifest.public_key));
    } else {
        let pending = s.pending_manifest_syncs;
        let grown = after.pending_manifest_syncs;
        if !pending.contains(community) {
            assert(grown[pending.len() as int] == community);
        }
    }
}

/// A channel manifest that is broadcast stands as announced when its community
/// is known, the key that it wraps for the local user becomes the channel's key,
/// and the channel is listened to. For an unknown community it changes nothing.
pub proof fn broadcasts_stand(
    s: AppStateView,
    m: ChannelManifestView,
    seqs: Option<Map<Seq<char>, u64>>,
    d: Seq<char>,
)
    ensures
        ({
            let t = broadcast_applied(s, m);
            let c = m.id.name();
            let known = s.communities.contains_key(m.community_id.name());
            &&& !known ==> t == s && broadcast_effects(s, m, seqs).len() == 0
            &&& known ==> {
                &&& t.channels.contains_key(c)
                &&& t.channels[c] == m
                &&& delivered_key(s, m) matches Some(k) ==> t.channel_keys.contains_key(c)
                    && t.channel_keys[c] == k
                &&& delivered_key(s, m) is None ==> t.channel_keys == s.channel_keys
                &&& broadcast_effects(s, m, seqs).contains(subscribe(channel_topic(c)))
            }
            &&& d != c && s.channels.contains_key(d) ==> t.channels.contains_key(d)
                && t.channels[d] == s.channels[d]
            &&& d != c && s.channel_keys.contains_key(d) ==> t.channel_keys.contains_key(d)
                && t.channel_keys[d] == s.channel_keys[d]
            &&& t.message_log == s.message_log
            &&& t.members == s.members
        }),
{
    let fx = broadcast_effects(s, m, seqs);
    if s.communities.contains_key(m.community_id.name()) {
        assert(fx[fx.len() - 1] == subscribe(channel_topic(m.id.name())));
    }
}

/// Being told of a community that is known changes nothing; a stored manifest of
/// an unknown one is taken over; without one a placeholder of version zero under
/// the right key waits for the manifest.
pub proof fn told_communities_are_noted(
    s: AppStateView,
    pk: Seq<u8>,
    c: Seq<char>,
    stored: StoredView,
    fresh: CommunityId,
    now: Timestamp,
)
    ensures
        ({
            let t = joined_state(s, pk, c, stored, fresh, now);
            &&& s.communities.contains_key(c) ==> t == s
            &&& !s.communities.contains_key(c) && stored is Nothing ==> t == s
            &&& !s.communities.contains_key(c) && stored is Manifest ==> t.communities[c]
                == stored->Manifest_0 && t.communities.contains_key(c)
            &&& !s.communities.contains_key(c) && stored is Placeholder ==> {
                &&& t.communities.contains_key(c)
                &&& t.communities[c].manifest.version == 0
                &&& t.communities[c].manifest.public_key == pk
                &&& !t.communities[c].manifest.deleted
                &&& t.pending_manifest_syncs.contains(c)
            }
            &&& t.channels == s.channels
            &&& t.members == s.members
            &&& forall|d: Seq<char>|
                d != c ==> (#[trigger] t.communities.contains_key(d) == s.communities.contains_key(
                    d,
                )) && t.communities[d] == s.communities[d]
        }),
{
    let t = joined_state(s, pk, c, stored, fresh, now);
    let before = s.pending_manifest_syncs;
    if !s.communities.contains_key(c) && stored is Placeholder && !before.contains(c) {
        assert(t.pending_manifest_syncs[before.len() as int] == c);
    }
}

/// Every key that the creator wraps for a member opens to the channel's own key
/// for that member.
pub proof fn completed_keys_open(
    ch: ChannelManifestView,
    key: Seq<u8>,
    order: Seq<(Seq<char>, MembershipRecordView)>,
    wraps: Seq<Seq<u8>>,
    i: int,
)
    requires
        wraps_fit(ch, key, order, wraps),
        0 <= i < order.len(),
        !has_member_key(ch.encrypted_channel_key, order[i].1.user_id),
        forall|j: int|
            0 <= j < order.len() && j != i ==> (#[trigger] order[j]).1.user_id
                != order[i].1.user_id,
    ensures
        member_key(completed(ch, order, wraps).encrypted_channel_key, order[i].1.user_id) matches Some(
            w,
        ) && delivers(key, order[i].1.x25519_public_key, w),
    decreases order.len(),
{
    let user = order[i].1.user_id;
    let short = order.drop_last();
    let before = completed(ch, short, wraps.drop_last()).encrypted_channel_key;
    let n = order.len() - 1;
    if i < n {
        assert forall|j: int| 0 <= j < short.len() && j != i implies (#[trigger] short[j]).1.user_id
            != short[i].1.user_id by {
            assert(order[j].1.user_id != order[i].1.user_id);
        }
        completed_keys_open(ch, key, short, wraps.drop_last(), i);
        assert(order[n].1.user_id != user);
        crate::model::channel::member_key_iff_listed(before, user);
        if !has_member_key(before, order[n].1.user_id) {
            other_keys_stay(before, order[n].1.user_id, wraps.last(), user);
        }
    } else {
        others_give_no_key(ch, short, wraps.drop_last(), user);
        crate::model::channel::added_key_counts(before, user, wraps.last());
    }
}

proof fn other_keys_stay(
    keys: Seq<(crate::model::types::UserId, Seq<u8>)>,
    other: crate::model::types::UserId,
    w: Seq<u8>,
    user: crate::model::types::UserId,
)
    requires
        other != user,
    ensures
        member_key(keys.push((other, w)), user) == member_key(keys, user),
    decreases keys.len(),
{
    let all = keys.push((other, w));
    if keys.len() > 0 {
        let rest = keys.subrange(1, keys.len() as int);
        other_keys_stay(rest, other, w, user);
        assert(all.subrange(1, all.len() as int) =~= rest.push((other, w)));
        assert(all.drop_last() =~= keys);
        assert(all[0] == keys[0]);
    } else {
        assert(all.drop_last() =~= keys);
        assert(all.subrange(1, all.len() as int) =~= keys);
        assert(member_key(keys, user) is None);
    }
}

proof fn others_give_no_key(
    ch: ChannelManifestView,
    order: Seq<(Seq<char>, MembershipRecordView)>,
    wraps: Seq<Seq<u8>>,
    user: crate::model::types::UserId,
)
    requires
        !has_member_key(ch.encrypted_channel_key, user),
        forall|j: int| 0 <= j < order.len() ==> (#[trigger] order[j]).1.user_id != user,
    ensures
        !has_member_key(completed(ch, order, wraps).encrypted_channel_key, user),
    decreases order.len(),
{
    if order.len() > 0 {
        let short = order.drop_last();
        assert forall|j: int| 0 <= j < short.len() implies (#[trigger] short[j]).1.user_id
            != user by {
            assert(order[j].1.user_id != user);
        }
        others_give_no_key(ch, short, wraps.drop_last(), user);
        assert(order[order.len() - 1].1.user_id != user);
        let before = completed(ch, short, wraps.drop_last()).encrypted_channel_key;
        let after = completed(ch, order, wraps).encrypted_channel_key;
        if has_member_key(after, user) {
            let i = choose|i: int| 0 <= i < after.len() && #[trigger] after[i].0 == user;
            if i < before.len() {
                assert(before[i].0 == user);
            }
        }
    }
}

/// The peer to sync from is an admin if one is connected, else the first peer, else
/// nobody.
pub proof fn admins_are_asked_first(s: AppStateView, c: Seq<char>)
    ensures
        ({
            let peers = peers_of(s, c);
            let chosen = sync_peer(s, c);
            &&& chosen is Some <==> peers.len() > 0
            &&& (exists|i: int| 0 <= i < peers.len() && (#[trigger] peers[i]).is_admin) ==> exists|
                i: int,
            |
                0 <= i < peers.len() && (#[trigger] peers[i]).is_admin && chosen == Some(
                    peers[i].peer_id,
                )
            &&& (forall|i: int| 0 <= i < peers.len() ==> !(#[trigger] peers[i]).is_admin)
                && peers.len() > 0 ==> chosen == Some(peers[0].peer_id)
        }),
{
    admin_found(peers_of(s, c), 0);
}

proof fn admin_found(peers: Seq<PeerSummaryView>, from: int)
    requires
        0 <= from,
    ensures
        match admin_index(peers, from) {
            Some(i) => from <= i < peers.len() && peers[i].is_admin,
            None => forall|i: int| from <= i < peers.len() ==> !(#[trigger] peers[i]).is_admin,
        },
    decreases peers.len() - from,
{
    if from < peers.len() && !peers[from].is_admin {
        admin_found(peers, from + 1);
    }
}

/// While a channel of a response still waits for its new key, another connected
/// peer is asked, if there is one, and never the one that just answered.
pub proof fn other_peers_are_asked_for_missing_keys(
    s: AppStateView,
    c: Seq<char>,
    pk: Seq<u8>,
    from: Seq<char>,
    names: Seq<Seq<char>>,
    rotated: Seq<Seq<char>>,
    k: int,
)
    requires
        0 <= k < names.len(),
        s.pending_rotation_messages.contains_key(names[k]),
        !rotated.contains(names[k]),
    ensures
        ({
            let peers = peers_of(s, c);
            let fx = retry_effects(s, c, pk, from, names, rotated);
            &&& (exists|i: int| 0 <= i < peers.len() && (#[trigger] peers[i]).peer_id != from)
                ==> exists|i: int|
                0 <= i < peers.len() && (#[trigger] peers[i]).peer_id != from && fx == seq![
                    fetch_manifest(peers[i].peer_id, c, pk),
                ]
            &&& (forall|i: int| 0 <= i < peers.len() ==> (#[trigger] peers[i]).peer_id == from)
                ==> fx.len() == 0
        }),
{
    other_found(peers_of(s, c), from, 0);
}

proof fn other_found(peers: Seq<PeerSummaryView>, from: Seq<char>, i: int)
    requires
        0 <= i,
    ensures
        match other_peer(peers, from, i) {
            Some(j) => i <= j < peers.len() && peers[j].peer_id != from,
            None => forall|j: int| i <= j < peers.len() ==> (#[trigger] peers[j]).peer_id == from,
        },
    decreases peers.len() - i,
{
    if i < peers.len() && peers[i].peer_id == from {
        other_found(peers, from, i + 1);
    }
}

/// Every channel for which the creator wrapped a key is broadcast as it then
/// stands, and the channels are saved.
pub proof fn wrapped_keys_are_broadcast(
    c: Seq<char>,
    channels: Map<Seq<char>, ChannelManifestView>,
    keys: Map<Seq<char>, Seq<u8>>,
    names: Seq<Seq<char>>,
    order: Seq<(Seq<char>, MembershipRecordView)>,
    wraps: Seq<Seq<Seq<u8>>>,
    i: int,
)
    requires
        0 <= i < names.len(),
        wraps.len() == names.len(),
        channels.contains_key(names[i]),
        forall|j: int| 0 <= j < names.len() && j != i ==> #[trigger] names[j] != names[i],
        completed_all(channels, keys, names, order, wraps)[names[i]].encrypted_channel_key.len()
            > channels[names[i]].encrypted_channel_key.len(),
    ensures
        completed_broadcasts(c, channels, keys, names, order, wraps).contains(
            EffectView::Publish {
                topic: community_topic(c),
                event: NetworkEventView::ChannelManifestBroadcast(
                    completed_all(channels, keys, names, order, wraps)[names[i]],
                ),
            },
        ),
    decreases names.len(),
{
    let short = names.drop_last();
    let w = wraps.drop_last();
    let head = completed_broadcasts(c, channels, keys, short, order, w);
    let all = completed_broadcasts(c, channels, keys, names, order, wraps);
    let before = completed_all(channels, keys, short, order, w);
    let after = completed_all(channels, keys, names, order, wraps);
    let n = names.len() - 1;
    let x = EffectView::Publish {
        topic: community_topic(c),
        event: NetworkEventView::ChannelManifestBroadcast(after[names[i]]),
    };
    if i < n {
        assert(names[n] != names[i]);
        assert(after[names[i]] == before[names[i]]);
        assert forall|j: int| 0 <= j < short.len() && j != i implies #[trigger] short[j]
            != short[i] by {
            assert(names[j] != names[i]);
        }
        assert(short[i] == names[i]);
        wrapped_keys_are_broadcast(c, channels, keys, short, order, w, i);
        assert(all[head.index_of(x)] == x);
    } else {
        assert(!short.contains(names[i])) by {
            if short.contains(names[i]) {
                let j = short.index_of(names[i]);
                assert(names[j] != names[i]);
            }
        }
        completing_all_adds_keys(channels, keys, short, order, w, names[i]);
        assert(all[all.len() - 1] == x);
    }
}

/// A member announces itself once a manifest was taken up: as admin if the manifest
/// lists them, else with the roles on record; under their own keys.
pub proof fn members_announce_themselves(s: AppStateView, m: SignedManifestView, now: Timestamp)
    ensures
        ({
            let r = own_announcement(s, m, now);
            &&& r.user_id == s.local.user_id
            &&& r.community_id == m.manifest.id
            &&& r.public_key == ed25519_public_key(s.local.key)
            &&& r.x25519_public_key == x25519_public_key(x25519_secret_of(s.local.key))
            &&& r.joined_at == now
            &&& m.manifest.admin_ids.contains(s.local.user_id) ==> r.roles == seq![Role::Admin]
            &&& !m.manifest.admin_ids.contains(s.local.user_id) ==> r.roles == s.member_list(
                m.manifest.id.name(),
            )[s.me()].roles
            &&& s.identity_state.display_name is Some ==> r.display_name
                == s.identity_state.display_name->0
        }),
{
}

/// A member who joins a community of the local node hears of every channel for which
/// their key was wrapped, as it then stands.
pub proof fn new_members_hear_of_their_keys(
    c: Seq<char>,
    channels: Map<Seq<char>, ChannelManifestView>,
    keys: Map<Seq<char>, Seq<u8>>,
    ids: Seq<ChannelId>,
    user: UserId,
    wraps: Seq<Seq<u8>>,
    i: int,
)
    requires
        0 <= i < ids.len(),
        channels.contains_key(ids[i].name()),
        keys.contains_key(ids[i].name()),
        !has_member_key(channels[ids[i].name()].encrypted_channel_key, user),
        forall|j: int| 0 <= j < ids.len() && j != i ==> #[trigger] ids[j] != ids[i],
    ensures
        shared_effects(c, channels, keys, ids, user, wraps).contains(
            EffectView::Publish {
                topic: community_topic(c),
                event: NetworkEventView::ChannelManifestBroadcast(
                    shared(channels, keys, ids, user, wraps)[ids[i].name()],
                ),
            },
        ),
    decreases ids.len(),
{
    let short = ids.drop_last();
    let w = wraps.drop_last();
    let head = shared_effects(c, channels, keys, short, user, w);
    let all = shared_effects(c, channels, keys, ids, user, wraps);
    let before = shared(channels, keys, short, user, w);
    let after = shared(channels, keys, ids, user, wraps);
    let n = ids.len() - 1;
    let name = ids[i].name();
    let x = EffectView::Publish {
        topic: community_topic(c),
        event: NetworkEventView::ChannelManifestBroadcast(after[name]),
    };
    if i < n {
        assert(ids[n] != ids[i]);
        ulid_text_injective(ids[n].0, ids[i].0);
        assert(after[name] == before[name]);
        assert forall|j: int| 0 <= j < short.len() && j != i implies #[trigger] short[j]
            != short[i] by {
            assert(ids[j] != ids[i]);
        }
        assert(short[i] == ids[i]);
        new_members_hear_of_their_keys(c, channels, keys, short, user, w, i);
        assert(all[head.index_of(x)] == x);
    } else {
        untouched_by_others(channels, keys, short, user, w, ids[i]);
        assert(all[head.len() as int] == x);
    }
}

proof fn untouched_by_others(
    channels: Map<Seq<char>, ChannelManifestView>,
    keys: Map<Seq<char>, Seq<u8>>,
    ids: Seq<ChannelId>,
    user: UserId,
    wraps: Seq<Seq<u8>>,
    id: ChannelId,
)
    requires
        forall|j: int| 0 <= j < ids.len() ==> #[trigger] ids[j] != id,
        channels.contains_key(id.name()),
    ensures
        shared(channels, keys, ids, user, wraps).contains_key(id.name()),
        shared(channels, keys, ids, user, wraps)[id.name()] == channels[id.name()],
    decreases ids.len(),
{
    if ids.len() > 0 {
        let short = ids.drop_last();
        assert forall|j: int| 0 <= j < short.len() implies #[trigger] short[j] != id by {
            assert(ids[j] != id);
        }
        untouched_by_others(channels, keys, short, user, wraps.drop_last(), id);
        assert(ids[ids.len() - 1] != id);
        ulid_text_injective(ids.last().0, id.0);
    }
}

/// Once a node learns its public address, it is announced to the peers of every
/// community, and its own keys with it.
pub proof fn public_nodes_are_announced(
    s: AppStateView,
    after: AppStateView,
    list: Seq<Seq<char>>,
    parsed: Map<Seq<char>, NodeAddr>,
    fx: Seq<EffectView>,
    c: Seq<char>,
)
    requires
        listen_noted(s, after, list, parsed, fx),
        s.public_addr is None,
        after.public_addr is Some,
    ensures
        s.communities.contains_key(c) ==> fx.contains(
            EffectView::Dht(
                DhtActionView::AnnounceCommunity {
                    community_pk: s.communities[c].manifest.public_key,
                },
            ),
        ),
        fx.contains(EffectView::Dht(DhtActionView::AnnouncePeerInfo)),
{
    let order = choose|order: Seq<(Seq<char>, SignedManifestView)>|
        lists(order, s.communities) && fx == #[trigger] listening_effects(s, after, order);
    assert(fx[fx.len() - 1] == EffectView::Dht(DhtActionView::AnnouncePeerInfo));
    if s.communities.contains_key(c) {
        assert(has_key(order, c));
        let i = position(order, c);
        entry_in_map(order, i);
        assert(fx[i] == EffectView::Dht(
            DhtActionView::AnnounceCommunity {
                community_pk: s.communities[c].manifest.public_key,
            },
        ));
    }
}

/// Whoever a manifest response brings can be written to, and what it brings is saved.
pub proof fn served_members_can_be_written_to(p: ManifestResponseView, s: AppStateView, i: int)
    requires
        0 <= i < p.people(s).len(),
    ensures
        p.peopled(s).dm_peers.contains_key(p.people(s)[i].user_id.name()),
        forall|k: Seq<char>|
            s.dm_peers.contains_key(k) ==> #[trigger] p.peopled(s).dm_peers.contains_key(k)
                && p.peopled(s).dm_peers[k] == s.dm_peers[k],
        p.first_effects(s).contains(EffectView::Save(TableFile::Members)),
        p.first_effects(s).contains(EffectView::Save(TableFile::DmPeers)),
{
    let list = crate::api::event_processor::manifest_handler::keyed_channels(
        p.stored(s),
        p.manifest,
        p.channels,
    );
    taking_keeps(p.stored(s), list);
    draining_keeps(p.keyed(s), p.rotated(s));
    let k0 = p.people(s)[i].user_id.name();
    acquaintances_stay(s.dm_peers, p.people(s), k0);
    assert forall|k: Seq<char>|
        s.dm_peers.contains_key(k) implies #[trigger] p.peopled(s).dm_peers.contains_key(k)
        && p.peopled(s).dm_peers[k] == s.dm_peers[k] by {
        acquaintances_stay(s.dm_peers, p.people(s), k);
    }
    let fx = p.first_effects(s);
    assert(fx[fx.len() - 2] == EffectView::Save(TableFile::Members));
    assert(fx[fx.len() - 1] == EffectView::Save(TableFile::DmPeers));
}

/// What a manifest response changes is saved: the community, the channels, the keys
/// and the keys before them, and the hosting store gets what was served.
#[verifier::rlimit(60)]
pub proof fn responses_are_saved(
    p: ManifestResponseView,
    s: AppStateView,
    after: AppStateView,
    now: Timestamp,
    last_seqs: Option<Map<Seq<char>, u64>>,
    fx: Seq<EffectView>,
)
    requires
        p.handled(s, after, now, last_seqs, fx),
        p.manifest.valid(),
        key_kept(s, p.manifest),
        !p.manifest.manifest.deleted,
    ensures
        fx.contains(EffectView::Save(TableFile::Communities)),
        fx.contains(EffectView::Save(TableFile::Channels)),
        fx.contains(EffectView::Save(TableFile::ChannelKeys)),
        p.rotated(s).len() > 0 ==> fx.contains(EffectView::Save(TableFile::PreviousChannelKeys)),
        fx.contains(
            EffectView::Store(
                StoreUpdateView::ReplaceCommunity {
                    community_id: p.community(),
                    channels: p.channels,
                    members: p.people(s),
                },
            ),
        ),
        p.shared(s, Seq::empty(), Seq::empty()).member_list(p.community()).contains_key(s.me())
            ==> exists|r: MembershipRecordView|
            r.user_id == s.local.user_id && #[trigger] fx.contains(
                EffectView::Publish {
                    topic: community_topic(p.community()),
                    event: NetworkEventView::MemberJoined(r),
                },
            ),
{
    let (order, wraps, own_fx) = choose|
        order: Seq<(Seq<char>, MembershipRecordView)>,
        wraps: Seq<Seq<Seq<u8>>>,
        own_fx: Seq<EffectView>,
    |
        #[trigger] p.applied(s, after, now, last_seqs, order, wraps, own_fx, fx);
    let list = crate::api::event_processor::manifest_handler::keyed_channels(
        p.stored(s),
        p.manifest,
        p.channels,
    );
    taking_keeps(p.stored(s), list);
    draining_keeps(p.keyed(s), p.rotated(s));
    assert(fx[0] == EffectView::Save(TableFile::Communities));
    assert(fx[1] == EffectView::Save(TableFile::Channels));
    assert(fx[2] == EffectView::Save(TableFile::ChannelKeys));
    if p.rotated(s).len() > 0 {
        assert(fx[3] == EffectView::Save(TableFile::PreviousChannelKeys));
    }
    let first = p.first_effects(s);
    let tail: int = if p.people(s).len() == 0 {
        0
    } else {
        2
    };
    let x = EffectView::Store(
        StoreUpdateView::ReplaceCommunity {
            community_id: p.community(),
            channels: p.channels,
            members: p.people(s),
        },
    );
    assert(first[first.len() - tail - 1] == x);
    assert(fx[first.len() - tail - 1] == x);
    let u = p.shared(s, order, wraps);
    if u.member_list(p.community()).contains_key(s.me()) {
        let r = own_announcement(u, p.manifest, now);
        let y = EffectView::Publish {
            topic: community_topic(p.community()),
            event: NetworkEventView::MemberJoined(r),
        };
        let head = first + p.share_effects(s, order, wraps)
            + crate::api::event_processor::community_handler::subscribe_all(p.names()) + seq![
            subscribe(community_topic(p.community())),
        ];
        assert(own_fx[own_fx.len() - 1] == y);
        assert(fx[head.len() + own_fx.len() - 1] == y);
        assert(fx.contains(y));
    }
}

} // verus!
