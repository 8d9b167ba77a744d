//! Connections: who is connected, and where a message goes.

use crate::api::event_processor::{is_list_of_firsts, one_more_first};
use crate::api::local::LocalNodeView;
use crate::crypto::certificate::HostingCert;
use crate::crypto::primitives::{ed25519_public_key, sha256_digest};
use crate::lists::without_text_membership;
use crate::network::network_handle::command::{
    bare_cert, distinct_addrs, dm_route, issued_cert, listen_events, loss_events, lost_all,
    registered,
    registration_events, seed_down, seeds_to_reach, DmRouteView, LinksView, RegistrationView,
    SeedPeerView,
};
use crate::network::mdns::lan_dial;
use crate::network::network_handle::gossip::{
    command_actions, registration_of, LinkActionView,
};
use crate::network::network_handle::types::{
    CommunityRefView, NetworkCommand, NetworkCommandView, NetworkEventView,
};
use crate::network::node_addr::NodeAddr;
use crate::text::hex;
use vstd::prelude::*;

verus! {

/// A user whose node is connected is reached over that connection, whatever else
/// is known; the user is found by the hash of the node's key.
pub proof fn connected_users_are_reached(
    l: LinksView,
    reg: RegistrationView,
    mailbox: Option<NodeAddr>,
    direct: Option<NodeAddr>,
)
    requires
        !l.peers.contains(reg.peer_id),
    ensures
        dm_route(registered(l, reg), hex(sha256_digest(reg.node_pk)), mailbox, direct)
            == DmRouteView::Peer(reg.peer_id),
        registered(l, reg).peers.contains(reg.peer_id),
        forall|p: Seq<char>|
            l.peers.contains(p) ==> #[trigger] registered(l, reg).peers.contains(p),
        forall|p: Seq<char>|
            #[trigger] registered(l, reg).peers.contains(p) ==> p == reg.peer_id
                || l.peers.contains(p),
        reg.is_seed ==> registered(l, reg).seeds.contains_key(reg.peer_id) && registered(
            l,
            reg,
        ).seeds[reg.peer_id] == reg.seed,
        registered(l, reg).own_addrs == l.own_addrs,
{
    let t = registered(l, reg);
    assert(t.peers[l.peers.len() as int] == reg.peer_id);
    assert forall|p: Seq<char>| l.peers.contains(p) implies #[trigger] t.peers.contains(p) by {
        assert(t.peers[l.peers.index_of(p)] == p);
    }
    assert forall|p: Seq<char>| #[trigger] t.peers.contains(p) implies p == reg.peer_id
        || l.peers.contains(p) by {
        let i = t.peers.index_of(p);
        if i < l.peers.len() {
            assert(l.peers[i] == p);
        }
    }
}

/// Without a connection a message goes to the mailbox, without a mailbox to the
/// recipient's own address, and without that nowhere.
pub proof fn routes_have_an_order(
    l: LinksView,
    user: Seq<char>,
    mailbox: Option<NodeAddr>,
    direct: Option<NodeAddr>,
)
    requires
        !l.peers.contains(user),
        l.by_user.contains_key(user) ==> !l.peers.contains(l.by_user[user]),
    ensures
        mailbox matches Some(a) ==> dm_route(l, user, mailbox, direct) == DmRouteView::Mailbox(a),
        mailbox is None && direct is Some ==> dm_route(l, user, mailbox, direct)
            == DmRouteView::Direct(direct->0),
        mailbox is None && direct is None ==> dm_route(l, user, mailbox, direct)
            == DmRouteView::Unreachable,
{
}

/// A new connection is reported: its address, and the peer or the seed that it is.
pub proof fn arrivals_are_reported(l: LinksView, reg: RegistrationView)
    requires
        !l.peers.contains(reg.peer_id),
    ensures
        ({
            let events = registration_events(l, reg);
            &&& events.contains(
                NetworkEventView::PeerAddrKnown { node_pk: reg.node_pk, addr: reg.seed.addr },
            )
            &&& !reg.is_seed && reg.seed.join_community is Some ==> events.contains(
                NetworkEventView::PeerConnected {
                    peer_id: reg.peer_id,
                    community_id: reg.seed.join_community->0.id,
                },
            )
            &&& !reg.is_seed && reg.seed.join_community is None ==> events.contains(
                NetworkEventView::LanPeerConnected { peer_id: reg.peer_id },
            )
            &&& reg.is_seed && reg.seed.join_community is Some ==> events.contains(
                NetworkEventView::SeedPeerConnected {
                    community_id: reg.seed.join_community->0.id,
                    peer_id: reg.peer_id,
                },
            )
        }),
{
    let events = registration_events(l, reg);
    assert(events[0] == NetworkEventView::PeerAddrKnown {
        node_pk: reg.node_pk,
        addr: reg.seed.addr,
    });
    if reg.is_seed {
        if reg.seed.join_community is Some {
            assert(events[1] == NetworkEventView::SeedPeerConnected {
                community_id: reg.seed.join_community->0.id,
                peer_id: reg.peer_id,
            });
        }
    } else if reg.seed.join_community is Some {
        assert(events[1] == NetworkEventView::PeerConnected {
            peer_id: reg.peer_id,
            community_id: reg.seed.join_community->0.id,
        });
    } else {
        assert(events[1] == NetworkEventView::LanPeerConnected { peer_id: reg.peer_id });
    }
}

/// Losing connections takes out exactly those: the others stay connected, stay
/// seeds, and their users are still found.
pub proof fn losses_take_out_the_lost(l: LinksView, dead: Seq<Seq<char>>, p: Seq<char>, u: Seq<char>)
    ensures
        ({
            let t = lost_all(l, dead);
            &&& t.peers.contains(p) <==> l.peers.contains(p) && !dead.contains(p)
            &&& t.seeds.contains_key(p) <==> l.seeds.contains_key(p) && !dead.contains(p)
            &&& t.seeds.contains_key(p) ==> t.seeds[p] == l.seeds[p]
            &&& l.by_user.contains_key(u) && t.peers.contains(l.by_user[u])
                ==> t.by_user.contains_key(u) && t.by_user[u] == l.by_user[u]
            &&& t.by_user.contains_key(u) ==> l.by_user.contains_key(u) && t.by_user[u]
                == l.by_user[u]
            &&& t.own_addrs == l.own_addrs
        }),
    decreases dead.len(),
{
    if dead.len() > 0 {
        let short = dead.drop_last();
        let x = dead.last();
        let b = lost_all(l, short);
        losses_take_out_the_lost(l, short, p, u);
        without_text_membership(b.peers, x, p);
        if l.by_user.contains_key(u) {
            losses_take_out_the_lost(l, short, l.by_user[u], u);
            without_text_membership(b.peers, x, l.by_user[u]);
        }
        assert(dead.contains(p) <==> short.contains(p) || p == x) by {
            if short.contains(p) {
                assert(dead[short.index_of(p)] == p);
            }
            if dead.contains(p) && p != x {
                assert(short[dead.index_of(p)] == p);
            }
            assert(dead[dead.len() - 1] == x);
        }
    }
}

/// Every loss is reported, and every seed that was lost is to be reached again, as
/// it was.
pub proof fn lost_seeds_are_reached_again(l: LinksView, dead: Seq<Seq<char>>, i: int)
    requires
        0 <= i < dead.len(),
    ensures
        loss_events(l, dead).contains(NetworkEventView::PeerDisconnected(dead[i])),
        l.seeds.contains_key(dead[i]) ==> {
            &&& seeds_to_reach(l, dead).contains(l.seeds[dead[i]])
            &&& l.seeds[dead[i]].join_community matches Some(c) ==> loss_events(l, dead).contains(
                NetworkEventView::SeedPeerDisconnected { community_id: c.id },
            )
        },
    decreases dead.len(),
{
    let short = dead.drop_last();
    let x = dead.last();
    let b = lost_all(l, short);
    let head = loss_events(l, short);
    let all = loss_events(l, dead);
    let again = seeds_to_reach(l, short);
    let more = seeds_to_reach(l, dead);
    let gone = NetworkEventView::PeerDisconnected(dead[i]);
    let seed = l.seeds[dead[i]];
    losses_take_out_the_lost(l, short, x, x);
    if i < short.len() {
        assert(short[i] == dead[i]);
        lost_seeds_are_reached_again(l, short, i);
        assert(all[head.index_of(gone)] == gone);
        if l.seeds.contains_key(dead[i]) {
            assert(more[again.index_of(seed)] == seed);
            if let Some(c) = seed.join_community {
                let e = NetworkEventView::SeedPeerDisconnected { community_id: c.id };
                assert(all[head.index_of(e)] == e);
            }
        }
    } else {
        assert(all[head.len() as int] == gone);
        if l.seeds.contains_key(x) {
            if short.contains(x) {
                let j = short.index_of(x);
                lost_seeds_are_reached_again(l, short, j);
                assert(short[j] == x);
                assert(more[again.index_of(seed)] == seed);
                if let Some(c) = seed.join_community {
                    let e = NetworkEventView::SeedPeerDisconnected { community_id: c.id };
                    assert(all[head.index_of(e)] == e);
                }
            } else {
                assert(b.seeds.contains_key(x));
                assert(more[more.len() - 1] == seed);
                if let Some(c) = seed.join_community {
                    let e = NetworkEventView::SeedPeerDisconnected { community_id: c.id };
                    assert(seed_down(seed.join_community)[0] == e);
                    assert(all[all.len() - 1] == e);
                }
            }
        }
    }
}

/// A node's own addresses are those it was given, once each, in order.
pub proof fn own_addresses_are_listed_once(addrs: Seq<Seq<char>>)
    ensures
        is_list_of_firsts(addrs, distinct_addrs(addrs)),
    decreases addrs.len(),
{
    if addrs.len() == 0 {
        assert(is_list_of_firsts(addrs, addrs));
    } else {
        let short = addrs.drop_last();
        own_addresses_are_listed_once(short);
        one_more_first(short, distinct_addrs(short), addrs.last());
        assert(short.push(addrs.last()) =~= addrs);
    }
}

/// What is asked of a connected peer is asked of that peer, for that community and
/// that channel, from that point on.
pub proof fn connected_peers_are_asked(l: LinksView, own_pk: Seq<u8>, cmd: NetworkCommand)
    ensures
        cmd matches NetworkCommand::FetchManifest { peer_id, community_id, community_pk }
            ==> l.peers.contains(peer_id@) ==> command_actions(l, own_pk, cmd).contains(
            LinkActionView::FetchManifest {
                peer_id: peer_id@,
                community: CommunityRefView { pk: community_pk@, id: community_id@ },
            },
        ),
        cmd matches NetworkCommand::FetchMailbox { peer_id } ==> l.peers.contains(peer_id@)
            ==> command_actions(l, own_pk, cmd).contains(
            LinkActionView::FetchMailbox { peer_id: peer_id@ },
        ),
        cmd matches NetworkCommand::FetchChannelHistory {
            peer_id,
            community_id,
            community_pk,
            channel_id,
            since_seq,
        } ==> l.peers.contains(peer_id@) && crate::model::types::ulid_parse(channel_id@) is Some
            ==> (command_actions(l, own_pk, cmd).len() == 1 && (command_actions(
            l,
            own_pk,
            cmd,
        )[0] matches LinkActionView::FetchHistory {
            peer_id: p,
            community,
            channel_id: ch,
            since_seq: since,
            channel,
            ..
        } && p == peer_id@ && community.id == community_id@ && community.pk == community_pk@ && ch
            == channel_id@ && since == since_seq && Some(channel.0)
            == crate::model::types::ulid_parse(channel_id@))),
        cmd matches NetworkCommand::Dial {
            addr,
            is_seed,
            join_community,
            join_community_password,
            cert_fingerprint,
        } ==> command_actions(l, own_pk, cmd).contains(
            LinkActionView::Dial {
                is_seed,
                seed: SeedPeerView {
                    addr,
                    join_community: join_community.deep_view(),
                    password: join_community_password.deep_view(),
                    cert_fingerprint: cert_fingerprint@,
                },
            },
        ),
{
    let a = command_actions(l, own_pk, cmd);
    match cmd {
        NetworkCommand::FetchManifest { peer_id, community_id, community_pk } => {
            if l.peers.contains(peer_id@) {
                assert(a[0] == LinkActionView::FetchManifest {
                    peer_id: peer_id@,
                    community: CommunityRefView { pk: community_pk@, id: community_id@ },
                });
            }
        },
        NetworkCommand::FetchMailbox { peer_id } => {
            if l.peers.contains(peer_id@) {
                assert(a[0] == LinkActionView::FetchMailbox { peer_id: peer_id@ });
            }
        },
        NetworkCommand::Dial {
            addr,
            is_seed,
            join_community,
            join_community_password,
            cert_fingerprint,
        } => {
            assert(a[0] == LinkActionView::Dial {
                is_seed,
                seed: SeedPeerView {
                    addr,
                    join_community: join_community.deep_view(),
                    password: join_community_password.deep_view(),
                    cert_fingerprint: cert_fingerprint@,
                },
            });
        },
        _ => {},
    }
}

/// A connection is registered under the key of the node that answered, with what is
/// needed to reach it again.
pub proof fn connections_bear_the_nodes_key(
    node_pk: Seq<u8>,
    is_seed: bool,
    seed: SeedPeerView,
)
    ensures
        ({
            let r = registration_of(node_pk, is_seed, seed);
            &&& r.peer_id == hex(node_pk)
            &&& r.node_pk == node_pk
            &&& r.is_seed == is_seed
            &&& r.seed == seed
        }),
{
}

/// A certificate that the creator issued to a node is accepted under the
/// community's key at any time; one without a creator names the community and the
/// node all the same.
pub proof fn issued_certificates_are_accepted(
    local: LocalNodeView,
    community_pk: Seq<u8>,
    node_pk: Seq<u8>,
    cert: HostingCert,
    now: u64,
)
    ensures
        issued_cert(local, node_pk, cert) && cert.signed() ==> cert.verdict(
            ed25519_public_key(local.key),
            now,
        ) is Ok && cert.node_pk@ == node_pk,
        bare_cert(community_pk, node_pk, cert) ==> cert.community_pk@ == community_pk
            && cert.node_pk@ == node_pk && cert.expires_at == u64::MAX,
{
}

/// Every address on which the node listens is reported.
pub proof fn listen_addresses_are_reported(addrs: Seq<Seq<char>>, i: int)
    requires
        0 <= i < addrs.len(),
    ensures
        listen_events(addrs).len() == addrs.len(),
        listen_events(addrs)[i] == NetworkEventView::NewListenAddr(addrs[i]),
{
}

/// A peer of the local network is dialled as a peer, without a community.
pub proof fn local_dials_are_plain(addr: NodeAddr)
    ensures
        lan_dial(addr) matches NetworkCommandView::Dial {
            addr: a,
            is_seed,
            join_community,
            ..
        } && a == addr && !is_seed && join_community is None,
{
}

} // verus!
