//! Peers that come and go.

use crate::api::effects::{DhtActionView, EffectView};
use crate::api::event_processor::peer::{
    channel_broadcasts, discoveries, fetch_mailbox, has_peer, member_broadcasts, owned,
    peer_added, peer_connected, peer_removed, peer_total, probed, probes, publish, republications,
    seed_effects, welcomed, without_peer,
};
use crate::api::rpc_server::community::peers_of;
use crate::api::rpc_server::{seed_check, RpcError};
use crate::api::types::PeerSummaryView;
use crate::api::{fetch_manifest, AppStateView};
use crate::lists::{with_text, without_text, without_text_membership};
use crate::model::community::SignedManifestView;
use crate::model::membership::MembershipRecordView;
use crate::model::network_event::NetworkEventView;
use crate::model::types::ChannelId;
use crate::table::{entry_in_map, has_key, lists, position};
use crate::text::hex;
use vstd::prelude::*;

verus! {

/// A peer that connects is listed with its community, marked as admin exactly when
/// its key is the community's; the peers that were listed stay, and so do those of
/// other communities.
pub proof fn newcomers_are_listed(s: AppStateView, peer: Seq<char>, c: Seq<char>, d: Seq<char>)
    ensures
        ({
            let t = peer_added(s, peer, c);
            let before = peers_of(s, c);
            let after = peers_of(t, c);
            &&& has_peer(after, peer)
            &&& before.is_prefix_of(after)
            &&& has_peer(before, peer) ==> after == before
            &&& !has_peer(before, peer) ==> {
                &&& after.len() == before.len() + 1
                &&& after.last().peer_id == peer
                &&& after.last().community_id == c
                &&& after.last().is_admin <==> s.communities.contains_key(c) && hex(
                    s.communities[c].manifest.public_key,
                ) == peer
            }
            &&& d != c ==> peers_of(t, d) == peers_of(s, d)
            &&& t == (AppStateView { connected_peers: t.connected_peers, ..s })
        }),
{
    let before = peers_of(s, c);
    let after = peers_of(peer_added(s, peer, c), c);
    if !has_peer(before, peer) {
        assert(after[before.len() as int].peer_id == peer);
    }
}

/// A peer that disconnects is taken off every list; the others stay, in order.
pub proof fn leavers_are_struck_off(s: AppStateView, peer: Seq<char>, c: Seq<char>)
    ensures
        peers_of(peer_removed(s, peer), c) == peers_of(s, c).filter(
            |p: PeerSummaryView| p.peer_id != peer,
        ),
        peer_removed(s, peer) == (AppStateView {
            connected_peers: peer_removed(s, peer).connected_peers,
            ..s
        }),
{
    striking_filters(peers_of(s, c), peer);
    reveal(Seq::filter);
    let f = |p: PeerSummaryView| p.peer_id != peer;
    assert(Seq::<PeerSummaryView>::empty().filter(f) =~= Seq::empty());
}

proof fn striking_filters(list: Seq<PeerSummaryView>, peer: Seq<char>)
    ensures
        without_peer(list, peer) == list.filter(|p: PeerSummaryView| p.peer_id != peer),
    decreases list.len(),
{
    reveal(Seq::filter);
    if list.len() > 0 {
        striking_filters(list.drop_last(), peer);
    }
}

proof fn discovers_each(order: Seq<(Seq<char>, SignedManifestView)>, i: int)
    requires
        0 <= i < order.len(),
    ensures
        discoveries(order).contains(
            EffectView::Dht(
                DhtActionView::DiscoverCommunity {
                    community_pk: order[i].1.manifest.public_key,
                    community_id: order[i].0,
                },
            ),
        ),
        discoveries(order).contains(
            EffectView::Dht(
                DhtActionView::AnnounceCommunity { community_pk: order[i].1.manifest.public_key },
            ),
        ),
    decreases order.len(),
{
    let short = order.drop_last();
    let head = discoveries(short);
    let all = discoveries(order);
    let a = EffectView::Dht(
        DhtActionView::DiscoverCommunity {
            community_pk: order[i].1.manifest.public_key,
            community_id: order[i].0,
        },
    );
    let b = EffectView::Dht(
        DhtActionView::AnnounceCommunity { community_pk: order[i].1.manifest.public_key },
    );
    if i < short.len() {
        assert(short[i] == order[i]);
        discovers_each(short, i);
        assert(all[head.index_of(a)] == a);
        assert(all[head.index_of(b)] == b);
    } else {
        assert(all[all.len() - 2] == a);
        assert(all[all.len() - 1] == b);
    }
}

proof fn broadcasts_each(s: AppStateView, c: Seq<char>, ids: Seq<ChannelId>, id: ChannelId)
    requires
        ids.contains(id),
        s.channels.contains_key(id.name()),
    ensures
        channel_broadcasts(s, c, ids).contains(
            publish(c, NetworkEventView::ChannelManifestBroadcast(s.channels[id.name()])),
        ),
    decreases ids.len(),
{
    let short = ids.drop_last();
    let head = channel_broadcasts(s, c, short);
    let all = channel_broadcasts(s, c, ids);
    let x = publish(c, NetworkEventView::ChannelManifestBroadcast(s.channels[id.name()]));
    let i = ids.index_of(id);
    if i < short.len() {
        assert(short[i] == id);
        broadcasts_each(s, c, short, id);
        assert(all[head.index_of(x)] == x);
    } else {
        assert(all[all.len() - 1] == x);
    }
}

proof fn republishes_each(
    s: AppStateView,
    order: Seq<(Seq<char>, SignedManifestView)>,
    people: Seq<Seq<(Seq<char>, MembershipRecordView)>>,
    i: int,
    x: EffectView,
)
    requires
        people.len() == order.len(),
        0 <= i < order.len(),
        owned(s, order[i].1),
        (seq![publish(order[i].0, NetworkEventView::ManifestUpdate(order[i].1))]
            + channel_broadcasts(s, order[i].0, order[i].1.manifest.channel_ids)
            + member_broadcasts(order[i].0, people[i])).contains(x),
    ensures
        republications(s, order, people).contains(x),
    decreases order.len(),
{
    let short = order.drop_last();
    let head = republications(s, short, people.drop_last());
    let all = republications(s, order, people);
    if i < short.len() {
        assert(short[i] == order[i]);
        assert(people.drop_last()[i] == people[i]);
        republishes_each(s, short, people.drop_last(), i, x);
        assert(all[head.index_of(x)] == x);
    } else {
        let mine = seq![publish(order[i].0, NetworkEventView::ManifestUpdate(order[i].1))]
            + channel_broadcasts(s, order[i].0, order[i].1.manifest.channel_ids)
            + member_broadcasts(order[i].0, people[i]);
        assert(all =~= head + mine);
        assert(all[head.len() + mine.index_of(x)] == x);
    }
}

/// A peer that connects is asked for the manifest of its community and for waiting
/// direct messages, every community is looked for and announced, and it is told
/// everything about the communities that this node created: the manifest, every
/// channel and every member.
pub proof fn newcomers_are_told_everything(
    s: AppStateView,
    after: AppStateView,
    peer: Seq<char>,
    c: Seq<char>,
    fx: Seq<EffectView>,
    d: Seq<char>,
    id: ChannelId,
    u: Seq<char>,
)
    requires
        peer_connected(s, after, peer, c, fx),
    ensures
        has_peer(peers_of(after, c), peer),
        s.communities.contains_key(c) ==> fx.contains(
            fetch_manifest(peer, c, s.communities[c].manifest.public_key),
        ),
        fx.contains(fetch_mailbox(peer)),
        s.communities.contains_key(d) ==> fx.contains(
            EffectView::Dht(
                DhtActionView::DiscoverCommunity {
                    community_pk: s.communities[d].manifest.public_key,
                    community_id: d,
                },
            ),
        ),
        s.communities.contains_key(d) && s.communities[d].manifest.public_key
            == crate::crypto::primitives::ed25519_public_key(s.local.key) ==> {
            &&& fx.contains(publish(d, NetworkEventView::ManifestUpdate(s.communities[d])))
            &&& s.communities[d].manifest.channel_ids.contains(id) && s.channels.contains_key(
                id.name(),
            ) ==> fx.contains(
                publish(d, NetworkEventView::ChannelManifestBroadcast(s.channels[id.name()])),
            )
            &&& s.member_list(d).contains_key(u) ==> fx.contains(
                publish(d, NetworkEventView::MemberJoined(s.member_list(d)[u])),
            )
        },
{
    newcomers_are_listed(s, peer, c, c);
    let (order, people) = choose|
        order: Seq<(Seq<char>, SignedManifestView)>,
        people: Seq<Seq<(Seq<char>, MembershipRecordView)>>,
    |
        #[trigger] welcomed(s, peer, c, order, people, fx);
    let known: int = if s.communities.contains_key(c) {
        1
    } else {
        0
    };
    if s.communities.contains_key(c) {
        assert(fx[0] == fetch_manifest(peer, c, s.communities[c].manifest.public_key));
    }
    assert(fx[known] == fetch_mailbox(peer));
    if s.communities.contains_key(d) {
        assert(has_key(order, d));
        let i = position(order, d);
        entry_in_map(order, i);
        discovers_each(order, i);
        let found = discoveries(order);
        let x = EffectView::Dht(
            DhtActionView::DiscoverCommunity {
                community_pk: s.communities[d].manifest.public_key,
                community_id: d,
            },
        );
        assert(fx[known + 1 + found.index_of(x)] == x);
        if owned(s, s.communities[d]) {
            let told = republications(s, order, people);
            let m = s.communities[d];
            let chans = channel_broadcasts(s, d, m.manifest.channel_ids);
            let folk = member_broadcasts(d, people[i]);
            let first = publish(d, NetworkEventView::ManifestUpdate(m));
            let mine = seq![first] + chans + folk;
            assert forall|y: EffectView| mine.contains(y) implies fx.contains(y) by {
                republishes_each(s, order, people, i, y);
                assert(fx[known + 1 + found.len() + told.index_of(y)] == y);
            }
            assert(mine[0] == first);
            assert(mine.contains(first));
            if m.manifest.channel_ids.contains(id) && s.channels.contains_key(id.name()) {
                broadcasts_each(s, d, m.manifest.channel_ids, id);
                let y = publish(
                    d,
                    NetworkEventView::ChannelManifestBroadcast(s.channels[id.name()]),
                );
                assert(mine[1 + chans.index_of(y)] == y);
                assert(mine.contains(y));
            }
            if s.member_list(d).contains_key(u) {
                assert(lists(people[i], s.member_list(order[i].0)));
                assert(has_key(people[i], u));
                let j = position(people[i], u);
                entry_in_map(people[i], j);
                let y = publish(d, NetworkEventView::MemberJoined(s.member_list(d)[u]));
                assert(folk[j] == y);
                assert(mine[1 + chans.len() + j] == y);
                assert(mine.contains(y));
            }
        }
    }
}

/// A peer of the local network is asked about every community.
pub proof fn local_peers_are_asked_about_everything(
    s: AppStateView,
    peer: Seq<char>,
    fx: Seq<EffectView>,
    c: Seq<char>,
)
    requires
        probed(s, peer, fx),
        s.communities.contains_key(c),
    ensures
        fx.contains(fetch_manifest(peer, c, s.communities[c].manifest.public_key)),
{
    let order = choose|order: Seq<(Seq<char>, SignedManifestView)>|
        lists(order, s.communities) && fx == #[trigger] probes(order, peer);
    assert(has_key(order, c));
    let i = position(order, c);
    entry_in_map(order, i);
    assert(fx[i] == fetch_manifest(peer, c, s.communities[c].manifest.public_key));
}

/// While a seed of a community is connected, requests on it go ahead; once it is
/// gone they do not, unless the community needs no seed or this node is one. Other
/// communities are not affected.
pub proof fn seeds_open_and_close_a_community(s: AppStateView, c: Seq<char>, d: Seq<char>)
    requires
        s.communities.contains_key(c),
    ensures
        ({
            let up = AppStateView {
                seed_connected_communities: with_text(s.seed_connected_communities, c),
                ..s
            };
            let down = AppStateView {
                seed_connected_communities: without_text(s.seed_connected_communities, c),
                ..s
            };
            &&& seed_check(up, c) is Ok
            &&& s.communities[c].manifest.seed_nodes.len() > 0 && !s.is_own_seed(
                s.communities[c].manifest.seed_nodes,
            ) ==> seed_check(down, c) == Err::<(), RpcError>(RpcError::SeedUnavailable)
            &&& d != c ==> seed_check(up, d) == seed_check(s, d) && seed_check(down, d)
                == seed_check(s, d)
        }),
{
    let list = s.seed_connected_communities;
    let up = with_text(list, c);
    if !list.contains(c) {
        assert(up[list.len() as int] == c);
    }
    without_text_membership(list, c, c);
    without_text_membership(list, c, d);
    if d != c {
        assert(up.contains(d) <==> list.contains(d)) by {
            if list.contains(d) {
                assert(up[list.index_of(d)] == d);
            }
            if up.contains(d) {
                assert(list[up.index_of(d)] == d);
            }
        }
    }
}

/// A seed that connects is asked for the manifest and for waiting messages, and
/// clients are told.
pub proof fn seeds_are_asked(s: AppStateView, c: Seq<char>, peer: Seq<char>)
    ensures
        seed_effects(s, c, peer).contains(crate::api::event_processor::peer::seed_push(c, true)),
        peer.len() > 0 ==> seed_effects(s, c, peer).contains(fetch_mailbox(peer)),
        peer.len() > 0 && s.communities.contains_key(c) ==> seed_effects(s, c, peer).contains(
            fetch_manifest(peer, c, s.communities[c].manifest.public_key),
        ),
{
    let fx = seed_effects(s, c, peer);
    assert(fx[0] == crate::api::event_processor::peer::seed_push(c, true));
    if peer.len() > 0 {
        assert(fx[fx.len() - 1] == fetch_mailbox(peer));
        if s.communities.contains_key(c) {
            assert(fx[1] == fetch_manifest(peer, c, s.communities[c].manifest.public_key));
        }
    }
}

/// The number of connected peers counts every peer of every listed community.
pub proof fn every_peer_counts(order: Seq<(Seq<char>, Seq<PeerSummaryView>)>, i: int)
    requires
        0 <= i < order.len(),
    ensures
        peer_total(order) == peer_total(order.remove(i)) + order[i].1.len(),
    decreases order.len(),
{
    let short = order.drop_last();
    if i < short.len() {
        every_peer_counts(short, i);
        assert(order.remove(i).drop_last() =~= short.remove(i));
        assert(order.remove(i).last() == order.last());
        assert(short[i] == order[i]);
    } else {
        assert(order.remove(i) =~= short);
    }
}

} // verus!
