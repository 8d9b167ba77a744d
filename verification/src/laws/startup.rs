//! Starting a node: what is read back, and how it joins the network.

use crate::api::dialing::{fingerprint_for, seed_dial, seed_dials, OwnAddressesView};
use crate::api::effects::EffectView;
use crate::api::event_processor::channel_handler::merged;
use crate::api::event_processor::community_handler::hosting_password;
use crate::api::event_processor::manifest_handler::acquainted;
use crate::api::rpc_server::community::{fetch_from_peers, peers_of};
use crate::api::startup::{
    absorbed, absorbed_all, bootstrapped, filled_channels, has_history, keys, own_addresses,
    parsed_addrs, pending_all, rejoin_all, rejoin_effects, restored, restored_all, started,
};
use crate::api::{
    channel_topic, community_topic, fetch_manifest, subscribe, AppStateView, DmPeerInfoView,
};
use crate::bytes::zeros;
use crate::laws::reactions::merging_adds_the_named_ids;
use crate::model::channel::ChannelManifestView;
use crate::model::community::SignedManifestView;
use crate::model::membership::MembershipRecordView;
use crate::network::node_addr::{Ip, NodeAddr};
use crate::node::store::CommunityMetaView;
use crate::state::message_log::{LogEntryView, MessageLogView};
use crate::table::{entry_in_map, has_key, lists, position};
use vstd::prelude::*;

verus! {

/// Every seed with an address, other than this node itself, whose fingerprint is
/// pinned is dialled, with that fingerprint, the community and its password.
pub proof fn pinned_seeds_are_dialled(
    seeds: Seq<Seq<char>>,
    parsed: Map<Seq<char>, NodeAddr>,
    own: Option<OwnAddressesView>,
    pk: Seq<u8>,
    c: Seq<char>,
    password: Option<Seq<char>>,
    fixed: Option<Seq<u8>>,
    stored: Map<Seq<char>, Seq<u8>>,
    i: int,
)
    requires
        0 <= i < seeds.len(),
        parsed.contains_key(seeds[i]),
        own matches Some(o) ==> !o.is_self(seeds[i], parsed[seeds[i]]),
        fixed is Some ==> fixed->0 != zeros(32),
        fixed is None ==> stored.contains_key(seeds[i]) && stored[seeds[i]] != zeros(32),
    ensures
        seed_dials(seeds, parsed, own, pk, c, password, fixed, stored).contains(
            seed_dial(
                parsed[seeds[i]],
                pk,
                c,
                password,
                match fixed {
                    Some(f) => f,
                    None => stored[seeds[i]],
                },
            ),
        ),
    decreases seeds.len(),
{
    let all = seed_dials(seeds, parsed, own, pk, c, password, fixed, stored);
    let short = seeds.drop_last();
    let head = seed_dials(short, parsed, own, pk, c, password, fixed, stored);
    let fp = match fixed {
        Some(f) => f,
        None => stored[seeds[i]],
    };
    let x = seed_dial(parsed[seeds[i]], pk, c, password, fp);
    assert(fingerprint_for(fixed, stored, seeds[i]) == fp);
    if i < short.len() {
        assert(short[i] == seeds[i]);
        pinned_seeds_are_dialled(short, parsed, own, pk, c, password, fixed, stored, i);
        assert(all[head.index_of(x)] == x);
    } else {
        assert(all[all.len() - 1] == x);
    }
}

/// This node's own addresses are those of its interfaces with its port, every
/// address that it listens on and its public address.
pub proof fn own_addresses_are_known(
    s: AppStateView,
    ips: Seq<Ip>,
    parsed: Map<Seq<char>, NodeAddr>,
    name: Seq<char>,
    addr: NodeAddr,
)
    ensures
        ips.contains(addr.ip) && addr.port == s.config.quic_port ==> own_addresses(
            s,
            ips,
            parsed,
        ).is_self(name, addr),
        s.public_addr == Some(name) ==> own_addresses(s, ips, parsed).is_self(name, addr),
        s.actual_listen_addrs.contains(name) && parsed.contains_key(name) && parsed[name] == addr
            ==> own_addresses(s, ips, parsed).is_self(name, addr),
{
    if s.actual_listen_addrs.contains(name) && parsed.contains_key(name) {
        parsed_contains(s.actual_listen_addrs, parsed, name);
    }
}

proof fn parsed_contains(
    list: Seq<Seq<char>>,
    parsed: Map<Seq<char>, NodeAddr>,
    name: Seq<char>,
)
    requires
        list.contains(name),
        parsed.contains_key(name),
    ensures
        parsed_addrs(list, parsed).contains(parsed[name]),
    decreases list.len(),
{
    let short = list.drop_last();
    let head = parsed_addrs(short, parsed);
    let all = parsed_addrs(list, parsed);
    let i = list.index_of(name);
    if i < short.len() {
        assert(short[i] == name);
        parsed_contains(short, parsed, name);
        assert(all[head.index_of(parsed[name])] == parsed[name]);
    } else {
        assert(all[all.len() - 1] == parsed[name]);
    }
}

proof fn rejoining_holds(
    s: AppStateView,
    order: Seq<(Seq<char>, SignedManifestView)>,
    own: OwnAddressesView,
    parsed: Map<Seq<char>, NodeAddr>,
    i: int,
    x: EffectView,
)
    requires
        0 <= i < order.len(),
        rejoin_effects(s, order[i].0, order[i].1, own, parsed).contains(x),
    ensures
        rejoin_all(s, order, own, parsed).contains(x),
    decreases order.len(),
{
    let short = order.drop_last();
    let head = rejoin_all(s, short, own, parsed);
    let all = rejoin_all(s, order, own, parsed);
    if i < short.len() {
        assert(short[i] == order[i]);
        rejoining_holds(s, short, own, parsed, i, x);
        assert(all[head.index_of(x)] == x);
    } else {
        let last = rejoin_effects(s, order[i].0, order[i].1, own, parsed);
        assert(all[head.len() + last.index_of(x)] == x);
    }
}

proof fn pending_covers(
    pending: Seq<Seq<char>>,
    order: Seq<(Seq<char>, SignedManifestView)>,
    c: Seq<char>,
)
    ensures
        pending_all(pending, order).contains(c) <==> pending.contains(c) || exists|i: int|
            0 <= i < order.len() && (#[trigger] order[i]).0 == c,
    decreases order.len(),
{
    if order.len() > 0 {
        let short = order.drop_last();
        pending_covers(pending, short, c);
        let before = pending_all(pending, short);
        let after = pending_all(pending, order);
        let last = order.last().0;
        assert(after.contains(c) <==> before.contains(c) || c == last) by {
            if before.contains(c) {
                assert(after[before.index_of(c)] == c);
            }
            if !before.contains(last) {
                assert(after[before.len() as int] == last);
            }
            if after.contains(c) && c != last {
                assert(before[after.index_of(c)] == c);
            }
        }
        if exists|i: int| 0 <= i < short.len() && (#[trigger] short[i]).0 == c {
            let i = choose|i: int| 0 <= i < short.len() && (#[trigger] short[i]).0 == c;
            assert(order[i].0 == c);
        }
        if exists|i: int| 0 <= i < order.len() && (#[trigger] order[i]).0 == c {
            let i = choose|i: int| 0 <= i < order.len() && (#[trigger] order[i]).0 == c;
            if i < short.len() {
                assert(short[i].0 == c);
            }
        }
        assert(order[order.len() - 1].0 == last);
    }
}

/// A node that joins the network takes up every community and every channel: each
/// topic is listened to, each manifest is asked for from every connected peer and
/// marked as pending, and every pinned seed that is not the node itself is
/// dialled. Nothing else about the state changes.
pub proof fn nothing_is_left_out_at_start(
    s: AppStateView,
    after: AppStateView,
    ips: Seq<Ip>,
    parsed: Map<Seq<char>, NodeAddr>,
    order: Seq<(Seq<char>, SignedManifestView)>,
    channels: Seq<(Seq<char>, ChannelManifestView)>,
    fx: Seq<EffectView>,
    c: Seq<char>,
    k: int,
    i: int,
    ch: Seq<char>,
)
    requires
        bootstrapped(s, after, ips, parsed, order, channels, fx),
        s.communities.contains_key(c),
    ensures
        ({
            let m = s.communities[c].manifest;
            let seed = m.seed_nodes[i];
            &&& after == (AppStateView {
                pending_manifest_syncs: after.pending_manifest_syncs,
                ..s
            })
            &&& after.pending_manifest_syncs.contains(c)
            &&& fx.contains(subscribe(community_topic(c)))
            &&& 0 <= k < peers_of(s, c).len() ==> fx.contains(
                fetch_manifest(peers_of(s, c)[k].peer_id, c, m.public_key),
            )
            &&& 0 <= i < m.seed_nodes.len() && parsed.contains_key(seed) && !own_addresses(
                s,
                ips,
                parsed,
            ).is_self(seed, parsed[seed]) && s.seed_fingerprints.contains_key(seed)
                && s.seed_fingerprints[seed] != zeros(32) ==> fx.contains(
                seed_dial(
                    parsed[seed],
                    m.public_key,
                    c,
                    hosting_password(s, c),
                    s.seed_fingerprints[seed],
                ),
            )
            &&& s.channels.contains_key(ch) ==> fx.contains(subscribe(channel_topic(ch)))
        }),
{
    let own = own_addresses(s, ips, parsed);
    let q = position(order, c);
    assert(has_key(order, c));
    entry_in_map(order, q);
    let m = s.communities[c];
    let mine = rejoin_effects(s, c, m, own, parsed);
    let asked = fetch_from_peers(peers_of(s, c), c, m.manifest.public_key);
    let all = rejoin_all(s, order, own, parsed);
    pending_covers(s.pending_manifest_syncs, order, c);
    assert(order[q].0 == c);
    assert forall|x: EffectView| mine.contains(x) implies fx.contains(x) by {
        rejoining_holds(s, order, own, parsed, q, x);
        assert(fx[1 + all.index_of(x)] == x);
    }
    assert(mine[asked.len() as int] == subscribe(community_topic(c)));
    assert(mine.contains(subscribe(community_topic(c))));
    if 0 <= k < peers_of(s, c).len() {
        let x = fetch_manifest(peers_of(s, c)[k].peer_id, c, m.manifest.public_key);
        assert(asked[k] == x);
        assert(mine[k] == x);
        assert(mine.contains(x));
    }
    let seeds = m.manifest.seed_nodes;
    if 0 <= i < seeds.len() && parsed.contains_key(seeds[i]) && !own.is_self(
        seeds[i],
        parsed[seeds[i]],
    ) && s.seed_fingerprints.contains_key(seeds[i]) && s.seed_fingerprints[seeds[i]] != zeros(32) {
        pinned_seeds_are_dialled(
            seeds,
            parsed,
            Some(own),
            m.manifest.public_key,
            c,
            hosting_password(s, c),
            None,
            s.seed_fingerprints,
            i,
        );
        let dials = seed_dials(
            seeds,
            parsed,
            Some(own),
            m.manifest.public_key,
            c,
            hosting_password(s, c),
            None,
            s.seed_fingerprints,
        );
        let x = seed_dial(
            parsed[seeds[i]],
            m.manifest.public_key,
            c,
            hosting_password(s, c),
            s.seed_fingerprints[seeds[i]],
        );
        assert(mine[asked.len() + 1 + dials.index_of(x)] == x);
        assert(mine.contains(x));
    }
    if s.channels.contains_key(ch) {
        assert(has_key(channels, ch));
        let j = position(channels, ch);
        let subs = crate::api::event_processor::community_handler::subscribe_all(keys(channels));
        assert(subs[j] == subscribe(channel_topic(ch)));
        assert(fx[1 + all.len() + j] == subs[j]);
    }
}

proof fn absorbing_keeps(s: AppStateView, metas: Seq<CommunityMetaView>)
    ensures
        ({
            let t = absorbed_all(s, metas);
            &&& t == (AppStateView {
                communities: t.communities,
                channels: t.channels,
                channel_keys: t.channel_keys,
                members: t.members,
                ..s
            })
            &&& forall|k: Seq<char>|
                s.communities.contains_key(k) ==> #[trigger] t.communities.contains_key(k)
                    && t.communities[k] == s.communities[k]
            &&& forall|k: Seq<char>|
                s.channels.contains_key(k) ==> #[trigger] t.channels.contains_key(k)
                    && t.channels[k] == s.channels[k]
            &&& forall|k: Seq<char>|
                s.channel_keys.contains_key(k) ==> #[trigger] t.channel_keys.contains_key(k)
                    && t.channel_keys[k] == s.channel_keys[k]
            &&& forall|k: Seq<char>, u: Seq<char>|
                s.member_list(k).contains_key(u) ==> #[trigger] t.member_list(k).contains_key(u)
                    && t.member_list(k)[u] == s.member_list(k)[u]
        }),
    decreases metas.len(),
{
    if metas.len() > 0 {
        let short = metas.drop_last();
        absorbing_keeps(s, short);
        let u = absorbed_all(s, short);
        let t = absorbed_all(s, metas);
        assert forall|k: Seq<char>| u.channels.contains_key(k) implies #[trigger] t.channels.contains_key(
            k,
        ) && t.channels[k] == u.channels[k] by {
            crate::api::startup::hosted_records_never_overwrite(u, metas.last(), k);
        }
        assert forall|k: Seq<char>|
            s.channels.contains_key(k) implies #[trigger] t.channels.contains_key(k)
            && t.channels[k] == s.channels[k] by {
            assert(u.channels.contains_key(k));
        }
        assert forall|k: Seq<char>|
            s.communities.contains_key(k) implies #[trigger] t.communities.contains_key(k)
            && t.communities[k] == s.communities[k] by {
            assert(u.communities.contains_key(k));
        }
        assert forall|k: Seq<char>|
            s.channel_keys.contains_key(k) implies #[trigger] t.channel_keys.contains_key(k)
            && t.channel_keys[k] == s.channel_keys[k] by {
            assert(u.channel_keys.contains_key(k));
        }
        assert forall|k: Seq<char>, x: Seq<char>|
            s.member_list(k).contains_key(x) implies #[trigger] t.member_list(k).contains_key(x)
            && t.member_list(k)[x] == s.member_list(k)[x] by {
            assert(u.member_list(k).contains_key(x));
        }
    }
}

/// A start loses nothing that was on disk: communities, channels, keys, members,
/// bans, conversations, what was read, passwords and fingerprints are back as
/// they were.
pub proof fn starts_lose_nothing(
    start: AppStateView,
    metas: Seq<CommunityMetaView>,
    history: Map<Seq<char>, Seq<LogEntryView>>,
    order: Seq<(Seq<char>, ChannelManifestView)>,
    people: Seq<MembershipRecordView>,
    after: AppStateView,
)
    requires
        started(start, metas, history, order, people, after),
    ensures
        forall|k: Seq<char>|
            start.communities.contains_key(k) ==> #[trigger] after.communities.contains_key(k)
                && after.communities[k] == start.communities[k],
        forall|k: Seq<char>|
            start.channels.contains_key(k) ==> #[trigger] after.channels.contains_key(k)
                && after.channels[k] == start.channels[k],
        forall|k: Seq<char>|
            start.channel_keys.contains_key(k) ==> #[trigger] after.channel_keys.contains_key(k)
                && after.channel_keys[k] == start.channel_keys[k],
        forall|k: Seq<char>, u: Seq<char>|
            start.member_list(k).contains_key(u) ==> #[trigger] after.member_list(k).contains_key(u)
                && after.member_list(k)[u] == start.member_list(k)[u],
        forall|k: Seq<char>|
            start.dm_peers.contains_key(k) ==> #[trigger] after.dm_peers.contains_key(k)
                && after.dm_peers[k] == start.dm_peers[k],
        after.previous_channel_keys == start.previous_channel_keys,
        after.bans == start.bans,
        after.dms == start.dms,
        after.read_state == start.read_state,
        after.hosting_passwords == start.hosting_passwords,
        after.seed_fingerprints == start.seed_fingerprints,
        after.config == start.config,
        after.local == start.local,
{
    absorbing_keeps(start, metas);
    let s = absorbed_all(start, metas);
    assert forall|k: Seq<char>, u: Seq<char>|
        start.member_list(k).contains_key(u) implies #[trigger] after.member_list(k).contains_key(u)
        && after.member_list(k)[u] == start.member_list(k)[u] by {
        assert(s.member_list(k).contains_key(u));
        assert(after.member_list(k) == s.member_list(k));
    }
    assert forall|k: Seq<char>|
        start.dm_peers.contains_key(k) implies #[trigger] after.dm_peers.contains_key(k)
        && after.dm_peers[k] == start.dm_peers[k] by {
        acquaintances_stay(s.dm_peers, people, k);
    }
}

/// Getting to know members replaces no peer that is known, and every member is
/// known afterwards, under their own key unless they were known before.
pub proof fn acquaintances_stay(
    peers: Map<Seq<char>, DmPeerInfoView>,
    people: Seq<MembershipRecordView>,
    k: Seq<char>,
)
    ensures
        ({
            let t = acquainted(peers, people);
            &&& peers.contains_key(k) ==> t.contains_key(k) && t[k] == peers[k]
            &&& forall|i: int|
                0 <= i < people.len() ==> t.contains_key((#[trigger] people[i]).user_id.name())
            &&& t.contains_key(k) && !peers.contains_key(k) ==> exists|i: int|
                0 <= i < people.len() && (#[trigger] people[i]).user_id.name() == k
                    && t[k].x25519_public_key == people[i].x25519_public_key && t[k].display_name
                    == people[i].display_name
        }),
    decreases people.len(),
{
    if people.len() > 0 {
        let short = people.drop_last();
        let n = people.len() - 1;
        acquaintances_stay(peers, short, k);
        acquaintances_stay(peers, short, people.last().user_id.name());
        let u = acquainted(peers, short);
        let t = acquainted(peers, people);
        assert forall|i: int| 0 <= i < people.len() implies t.contains_key(
            (#[trigger] people[i]).user_id.name(),
        ) by {
            if i < n {
                assert(u.contains_key(short[i].user_id.name()));
            }
        }
        if t.contains_key(k) && !peers.contains_key(k) {
            if u.contains_key(k) {
                let i = choose|i: int|
                    0 <= i < short.len() && (#[trigger] short[i]).user_id.name() == k
                        && u[k].x25519_public_key == short[i].x25519_public_key
                        && u[k].display_name == short[i].display_name;
                assert(people[i].user_id.name() == k);
            } else {
                assert(people[n].user_id.name() == k);
            }
        }
    }
}

/// What the hosting store adds: a community with a manifest is known afterwards,
/// with its channels, its members and its keys of the right length.
pub proof fn hosted_communities_are_known(s: AppStateView, meta: CommunityMetaView, k: Seq<char>)
    requires
        meta.manifest is Some,
    ensures
        ({
            let t = absorbed(s, meta);
            let c = meta.manifest->0.manifest.id.name();
            &&& t.communities.contains_key(c)
            &&& !s.communities.contains_key(c) ==> t.communities[c] == meta.manifest->0
            &&& meta.members.contains_key(k) ==> t.member_list(c).contains_key(k)
            &&& meta.members.contains_key(k) && !s.member_list(c).contains_key(k)
                ==> t.member_list(c)[k] == meta.members[k]
            &&& meta.channel_keys.contains_key(k) && meta.channel_keys[k].len() == 32
                ==> t.channel_keys.contains_key(k)
            &&& meta.channel_keys.contains_key(k) && meta.channel_keys[k].len() == 32
                && !s.channel_keys.contains_key(k) ==> t.channel_keys[k] == meta.channel_keys[k]
            &&& forall|i: int|
                0 <= i < meta.channels.len() ==> t.channels.contains_key(
                    (#[trigger] meta.channels[i]).id.name(),
                )
            &&& k != c ==> t.member_list(k) == s.member_list(k)
        }),
{
    let t = absorbed(s, meta);
    assert forall|i: int| 0 <= i < meta.channels.len() implies t.channels.contains_key(
        (#[trigger] meta.channels[i]).id.name(),
    ) by {
        filling_covers(s.channels, meta.channels, i);
    }
}

proof fn filling_covers(
    m: Map<Seq<char>, ChannelManifestView>,
    list: Seq<ChannelManifestView>,
    i: int,
)
    requires
        0 <= i < list.len(),
    ensures
        filled_channels(m, list).contains_key(list[i].id.name()),
    decreases list.len(),
{
    if i < list.len() - 1 {
        filling_covers(m, list.drop_last(), i);
    }
}

/// Reading a stored history back leaves what catching up on it would leave,
/// reactions included, when the log has none of its entries.
pub proof fn restoring_equals_catching_up(
    log: MessageLogView,
    c: Seq<char>,
    key: Option<Seq<u8>>,
    entries: Seq<LogEntryView>,
)
    requires
        forall|i: int|
            0 <= i < entries.len() ==> log.entry(c, (#[trigger] entries[i]).message_id) is None,
        forall|i: int, j: int|
            0 <= i < j < entries.len() ==> (#[trigger] entries[i]).message_id != (
            #[trigger] entries[j]).message_id,
    ensures
        restored(log, c, (key, None), entries) == merged(log, c, key, entries),
    decreases entries.len(),
{
    if entries.len() > 0 {
        let short = entries.drop_last();
        let x = entries.last();
        let n = entries.len() - 1;
        assert forall|i: int| 0 <= i < short.len() implies log.entry(
            c,
            (#[trigger] short[i]).message_id,
        ) is None by {
            assert(log.entry(c, entries[i].message_id) is None);
        }
        assert forall|i: int, j: int| 0 <= i < j < short.len() implies (
        #[trigger] short[i]).message_id != (#[trigger] short[j]).message_id by {
            assert(entries[i].message_id != entries[j].message_id);
        }
        restoring_equals_catching_up(log, c, key, short);
        merging_adds_the_named_ids(log, c, key, short, x.message_id);
        assert(log.entry(c, entries[n].message_id) is None);
        if merged(log, c, key, short).entry(c, x.message_id) is Some {
            let i = choose|i: int| 0 <= i < short.len() && (#[trigger] short[i]).message_id
                == x.message_id;
            assert(entries[i].message_id != entries[n].message_id);
        }
    }
}

/// Reading a stored history back appends all of it, in order, to its own channel.
pub proof fn stored_histories_come_back(
    log: MessageLogView,
    c: Seq<char>,
    ks: (Option<Seq<u8>>, Option<Seq<u8>>),
    entries: Seq<LogEntryView>,
    d: Seq<char>,
)
    ensures
        restored(log, c, ks, entries).entries(c) == log.entries(c) + entries,
        d != c ==> restored(log, c, ks, entries).entries(d) == log.entries(d),
    decreases entries.len(),
{
    if entries.len() > 0 {
        stored_histories_come_back(log, c, ks, entries.drop_last(), d);
        assert(restored(log, c, ks, entries).entries(c) =~= log.entries(c) + entries);
    } else {
        assert(log.entries(c) + entries =~= log.entries(c));
    }
}

/// At start every channel of a known community has the history that was stored
/// for it.
pub proof fn every_history_comes_back(
    s: AppStateView,
    order: Seq<(Seq<char>, ChannelManifestView)>,
    history: Map<Seq<char>, Seq<LogEntryView>>,
    c: Seq<char>,
)
    requires
        lists(order, s.channels),
    ensures
        has_history(s, c, history) ==> restored_all(s, order, history).entries(c)
            == s.message_log.entries(c) + history[c],
        !has_history(s, c, history) ==> restored_all(s, order, history).entries(c)
            == s.message_log.entries(c),
{
    if has_history(s, c, history) {
        assert(has_key(order, c));
        let i = position(order, c);
        assert(order[i].0 == c);
    }
    histories_of_prefix(s, order, history, c);
}

proof fn histories_of_prefix(
    s: AppStateView,
    order: Seq<(Seq<char>, ChannelManifestView)>,
    history: Map<Seq<char>, Seq<LogEntryView>>,
    c: Seq<char>,
)
    requires
        crate::table::keys_distinct(order),
    ensures
        ({
            let t = restored_all(s, order, history).entries(c);
            let listed = exists|i: int| 0 <= i < order.len() && (#[trigger] order[i]).0 == c;
            &&& listed && has_history(s, c, history) ==> t == s.message_log.entries(c) + history[c]
            &&& !(listed && has_history(s, c, history)) ==> t == s.message_log.entries(c)
        }),
    decreases order.len(),
{
    if order.len() > 0 {
        let short = order.drop_last();
        let n = order.len() - 1;
        assert(crate::table::keys_distinct(short)) by {
            assert forall|i: int, j: int|
                0 <= i < short.len() && 0 <= j < short.len() && i != j implies (
            #[trigger] short[i]).0 != (#[trigger] short[j]).0 by {
                assert(order[i].0 != order[j].0);
            }
        }
        histories_of_prefix(s, short, history, c);
        let before = restored_all(s, short, history);
        let d = order.last().0;
        if has_history(s, d, history) {
            stored_histories_come_back(
                before,
                d,
                crate::api::rpc_server::message::keys_of(s, d),
                history[d],
                c,
            );
        }
        if exists|i: int| 0 <= i < short.len() && (#[trigger] short[i]).0 == c {
            let i = choose|i: int| 0 <= i < short.len() && (#[trigger] short[i]).0 == c;
            assert(order[i].0 == c);
            assert(order[i].0 != order[n].0);
        }
        if exists|i: int| 0 <= i < order.len() && (#[trigger] order[i]).0 == c {
            let i = choose|i: int| 0 <= i < order.len() && (#[trigger] order[i]).0 == c;
            if i < n {
                assert(short[i].0 == c);
            }
        }
        if d == c {
            assert(order[n].0 == c);
        }
    }
}

/// What is on disk is what the node starts with: each table is read back into its
/// own place. Nobody is connected, nothing is pending, and the user is online.
pub proof fn tables_are_read_back(
    t: crate::api::startup::Tables,
    local: crate::api::local::LocalNodeView,
    config: crate::config::NodeConfigView,
    log: MessageLogView,
    fp: Option<Seq<char>>,
)
    ensures
        ({
            let s = crate::api::startup::loaded(t, local, config, log, fp);
            &&& s.communities == t.communities.deep_view()
            &&& s.channels == t.channels.deep_view()
            &&& s.channel_keys == t.channel_keys.deep_view()
            &&& s.previous_channel_keys == t.previous_channel_keys.deep_view()
            &&& s.dms == t.dms.deep_view()
            &&& s.dm_peers == t.dm_peers.deep_view()
            &&& s.members == t.members.deep_view()
            &&& s.bans == t.bans.deep_view()
            &&& s.read_state == t.read_state.deep_view()
            &&& s.hosting_passwords == t.hosting_passwords.deep_view()
            &&& s.seed_fingerprints == t.seed_fingerprints.deep_view()
            &&& s.message_log == log
            &&& s.config == config
            &&& s.local == local
            &&& s.identity_state.display_name == config.display_name
            &&& s.identity_state.status == crate::api::types::UserStatus::Online
            &&& s.local_tls_fingerprint_hex == fp
            &&& s.connected_peers == Map::<Seq<char>, Seq<crate::api::types::PeerSummaryView>>::empty()
            &&& s.seed_connected_communities.len() == 0
            &&& s.public_addr is None
        }),
{
}

} // verus!
