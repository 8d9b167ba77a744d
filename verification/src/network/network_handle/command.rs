//! The connections of a node, and what commands and failures do to them.

use crate::api::local::{LocalNode, LocalNodeView};
use crate::bytes::{same_array, zeros};
use crate::crypto::certificate::HostingCert;
use crate::crypto::primitives::{ed25519_public_key, ed25519_signature, sha256, sha256_digest};
use crate::lists::{
    add_text, has_text, remove_text, vec_deep_view, views, views_push, with_text, without_text,
    without_text_membership,
};
use crate::network::network_handle::types::{
    CommunityRef, CommunityRefView, NetworkEvent, NetworkEventView,
};
use crate::network::node_addr::NodeAddr;
use crate::table::{entry_in_map, has_key, lists, position, remove_all, Table};
use crate::text::{bytes_to_hex, hex, text};
use vstd::prelude::*;

verus! {

/// A seed node and how to reach it again.
#[derive(Debug)]
pub struct SeedPeer {
    pub addr: NodeAddr,
    pub join_community: Option<CommunityRef>,
    pub password: Option<String>,
    pub cert_fingerprint: [u8; 32],
}

/// What a [`SeedPeer`] holds.
pub struct SeedPeerView {
    pub addr: NodeAddr,
    pub join_community: Option<CommunityRefView>,
    pub password: Option<Seq<char>>,
    pub cert_fingerprint: Seq<u8>,
}

impl DeepView for SeedPeer {
    type V = SeedPeerView;

    open spec fn deep_view(&self) -> SeedPeerView {
        SeedPeerView {
            addr: self.addr,
            join_community: self.join_community.deep_view(),
            password: self.password.deep_view(),
            cert_fingerprint: self.cert_fingerprint@,
        }
    }
}

/// A connection that was just made.
#[derive(Debug)]
pub struct Registration {
    /// Hexadecimal public key of the peer.
    pub peer_id: String,
    pub node_pk: [u8; 32],
    pub is_seed: bool,
    pub seed: SeedPeer,
}

/// What a [`Registration`] holds.
pub struct RegistrationView {
    pub peer_id: Seq<char>,
    pub node_pk: Seq<u8>,
    pub is_seed: bool,
    pub seed: SeedPeerView,
}

impl DeepView for Registration {
    type V = RegistrationView;

    open spec fn deep_view(&self) -> RegistrationView {
        RegistrationView {
            peer_id: self.peer_id@,
            node_pk: self.node_pk@,
            is_seed: self.is_seed,
            seed: self.seed.deep_view(),
        }
    }
}

/// The connections of a node.
pub struct Links {
    /// Connected peers, by hexadecimal public key.
    pub peers: Vec<String>,
    /// Public key by the hash of the public key, which identifies users.
    pub by_user: Table<String>,
    /// Connected seed nodes.
    pub seeds: Table<SeedPeer>,
    /// This node's own addresses.
    pub own_addrs: Vec<String>,
}

/// What [`Links`] hold.
pub struct LinksView {
    pub peers: Seq<Seq<char>>,
    pub by_user: Map<Seq<char>, Seq<char>>,
    pub seeds: Map<Seq<char>, SeedPeerView>,
    pub own_addrs: Seq<Seq<char>>,
}

impl DeepView for Links {
    type V = LinksView;

    open spec fn deep_view(&self) -> LinksView {
        LinksView {
            peers: self.peers.deep_view(),
            by_user: self.by_user.deep_view(),
            seeds: self.seeds.deep_view(),
            own_addrs: self.own_addrs.deep_view(),
        }
    }
}

/// Whether `cert` names a community and a node, never expires and carries no
/// signature.
pub open spec fn bare_cert(community_pk: Seq<u8>, node_pk: Seq<u8>, cert: HostingCert) -> bool {
    &&& cert.community_pk@ == community_pk
    &&& cert.node_pk@ == node_pk
    &&& cert.expires_at == u64::MAX
    &&& cert.signature@ == zeros(64)
}

/// Whether `cert` is one that the local node issued to a node.
pub open spec fn issued_cert(local: LocalNodeView, node_pk: Seq<u8>, cert: HostingCert) -> bool {
    &&& cert.community_pk@ == ed25519_public_key(local.key)
    &&& cert.node_pk@ == node_pk
    &&& cert.expires_at == u64::MAX
    &&& cert.signature@ == ed25519_signature(local.key, cert.message())
}

/// The certificate with which the local node has a node host a community: only
/// the creator of the community can issue one.
pub fn hosting_cert(local: &LocalNode, node_pk: [u8; 32], community_pk: &[u8; 32]) -> (r: Option<
    HostingCert,
>)
    ensures
        match r {
            Some(c) => community_pk@ == ed25519_public_key(local.deep_view().key) && issued_cert(
                local.deep_view(),
                node_pk@,
                c,
            ) && c.signed(),
            None => community_pk@ != ed25519_public_key(local.deep_view().key),
        },
{
    if same_array(&local.public_key(), community_pk) {
        Some(HostingCert::new(local.signing_key(), node_pk, u64::MAX))
    } else {
        None
    }
}

/// A certificate without a signature, with which a member joins.
pub fn unsigned_cert(node_pk: [u8; 32], community_pk: [u8; 32]) -> (r: HostingCert)
    ensures
        bare_cert(community_pk@, node_pk@, r),
{
    let signature: [u8; 64] = [0u8; 64];
    assert(signature@ =~= zeros(64));
    HostingCert { community_pk, node_pk, expires_at: u64::MAX, signature }
}

/// The certificate for a peer found in the routing table: signed by the
/// creator of the community, unsigned by a member.
pub fn discovery_cert(local: &LocalNode, node_pk: [u8; 32], community_pk: [u8; 32]) -> (r:
    HostingCert)
    ensures
        if community_pk@ == ed25519_public_key(local.deep_view().key) {
            issued_cert(local.deep_view(), node_pk@, r)
        } else {
            bare_cert(community_pk@, node_pk@, r)
        },
{
    match hosting_cert(local, node_pk, &community_pk) {
        Some(c) => c,
        None => unsigned_cert(node_pk, community_pk),
    }
}

/// The peers of a list other than the given one.
pub open spec fn others(list: Seq<([u8; 32], NodeAddr)>, own_pk: Seq<u8>) -> Seq<NodeAddr>
    decreases list.len(),
{
    if list.len() == 0 {
        Seq::empty()
    } else {
        let head = others(list.drop_last(), own_pk);
        if list.last().0@ == own_pk {
            head
        } else {
            head.push(list.last().1)
        }
    }
}

/// The peers found in the routing table that are dialled: all but this node
/// itself.
pub fn peers_to_dial(list: &Vec<([u8; 32], NodeAddr)>, own_pk: &[u8; 32]) -> (r: Vec<NodeAddr>)
    ensures
        r@ == others(list@, own_pk@),
{
    let mut out: Vec<NodeAddr> = Vec::new();
    let mut i: usize = 0;
    assert(out@ =~= others(list@.subrange(0, 0), own_pk@));
    while i < list.len()
        invariant
            i <= list@.len(),
            out@ == others(list@.subrange(0, i as int), own_pk@),
        decreases list@.len() - i,
    {
        assert(list@.subrange(0, i + 1).drop_last() =~= list@.subrange(0, i as int));
        if !same_array(&list[i].0, own_pk) {
            out.push(list[i].1);
        }
        i += 1;
    }
    assert(list@.subrange(0, list@.len() as int) =~= list@);
    out
}

/// The seed peer of a community connected.
pub open spec fn seed_up(join: Option<CommunityRefView>, peer_id: Seq<char>) -> Seq<NetworkEventView> {
    match join {
        Some(c) => seq![NetworkEventView::SeedPeerConnected { community_id: c.id, peer_id }],
        None => Seq::empty(),
    }
}

/// The seed peer of a community disconnected.
pub open spec fn seed_down(join: Option<CommunityRefView>) -> Seq<NetworkEventView> {
    match join {
        Some(c) => seq![NetworkEventView::SeedPeerDisconnected { community_id: c.id }],
        None => Seq::empty(),
    }
}

/// What a failed dial leads to.
pub struct DialFailure {
    pub events: Vec<NetworkEvent>,
    /// Whether to keep trying.
    pub reconnect: bool,
}

/// The events of a new connection.
pub open spec fn arrival_events(reg: RegistrationView) -> Seq<NetworkEventView> {
    let known = NetworkEventView::PeerAddrKnown { node_pk: reg.node_pk, addr: reg.seed.addr };
    let peer_id = reg.peer_id;
    if reg.is_seed {
        seq![known] + seed_up(reg.seed.join_community, peer_id)
    } else {
        match reg.seed.join_community {
            Some(c) => seq![
                known,
                NetworkEventView::PeerConnected { peer_id, community_id: c.id },
            ],
            None => seq![known, NetworkEventView::LanPeerConnected { peer_id }],
        }
    }
}

/// The connections after a new one was registered. A second connection to the
/// same peer is dropped.
pub open spec fn registered(l: LinksView, reg: RegistrationView) -> LinksView {
    if l.peers.contains(reg.peer_id) {
        l
    } else {
        LinksView {
            peers: l.peers.push(reg.peer_id),
            by_user: l.by_user.insert(hex(sha256_digest(reg.node_pk)), reg.peer_id),
            seeds: if reg.is_seed {
                l.seeds.insert(reg.peer_id, reg.seed)
            } else {
                l.seeds
            },
            ..l
        }
    }
}

/// The events of a registration.
pub open spec fn registration_events(l: LinksView, reg: RegistrationView) -> Seq<NetworkEventView> {
    if l.peers.contains(reg.peer_id) {
        if reg.is_seed {
            seed_up(reg.seed.join_community, reg.peer_id)
        } else {
            Seq::empty()
        }
    } else {
        arrival_events(reg)
    }
}

/// The entries whose value is a connected peer.
pub open spec fn of_peers(by_user: Map<Seq<char>, Seq<char>>, peers: Seq<Seq<char>>) -> Map<
    Seq<char>,
    Seq<char>,
> {
    Map::new(
        |k: Seq<char>| by_user.contains_key(k) && peers.contains(by_user[k]),
        |k: Seq<char>| by_user[k],
    )
}

/// The connections after one was lost.
pub open spec fn lost(l: LinksView, id: Seq<char>) -> LinksView {
    let peers = without_text(l.peers, id);
    LinksView { peers, by_user: of_peers(l.by_user, peers), seeds: l.seeds.remove(id), ..l }
}

/// The connections after several were lost.
pub open spec fn lost_all(l: LinksView, dead: Seq<Seq<char>>) -> LinksView
    decreases dead.len(),
{
    if dead.len() == 0 {
        l
    } else {
        lost(lost_all(l, dead.drop_last()), dead.last())
    }
}

/// The events after several connections were lost.
pub open spec fn loss_events(l: LinksView, dead: Seq<Seq<char>>) -> Seq<NetworkEventView>
    decreases dead.len(),
{
    if dead.len() == 0 {
        Seq::empty()
    } else {
        let before = lost_all(l, dead.drop_last());
        let id = dead.last();
        let gone = loss_events(l, dead.drop_last()).push(NetworkEventView::PeerDisconnected(id));
        if before.seeds.contains_key(id) {
            gone + seed_down(before.seeds[id].join_community)
        } else {
            gone
        }
    }
}

/// The seed nodes to reach again after several connections were lost.
pub open spec fn seeds_to_reach(l: LinksView, dead: Seq<Seq<char>>) -> Seq<SeedPeerView>
    decreases dead.len(),
{
    if dead.len() == 0 {
        Seq::empty()
    } else {
        let before = lost_all(l, dead.drop_last());
        let head = seeds_to_reach(l, dead.drop_last());
        if before.seeds.contains_key(dead.last()) {
            head.push(before.seeds[dead.last()])
        } else {
            head
        }
    }
}

/// How a direct message reaches its recipient.
#[derive(Debug)]
pub enum DmRoute {
    /// Over the connection to this peer.
    Peer(String),
    /// To the mailbox at this address.
    Mailbox(NodeAddr),
    /// To the recipient's own node at this address.
    Direct(NodeAddr),
    /// Not at all.
    Unreachable,
}

/// What a [`DmRoute`] says.
pub enum DmRouteView {
    Peer(Seq<char>),
    Mailbox(NodeAddr),
    Direct(NodeAddr),
    Unreachable,
}

impl DeepView for DmRoute {
    type V = DmRouteView;

    open spec fn deep_view(&self) -> DmRouteView {
        match self {
            DmRoute::Peer(p) => DmRouteView::Peer(p@),
            DmRoute::Mailbox(a) => DmRouteView::Mailbox(*a),
            DmRoute::Direct(a) => DmRouteView::Direct(*a),
            DmRoute::Unreachable => DmRouteView::Unreachable,
        }
    }
}

/// The public key under which a user may be connected.
pub open spec fn peer_of_user(l: LinksView, id: Seq<char>) -> Seq<char> {
    if l.by_user.contains_key(id) {
        l.by_user[id]
    } else {
        id
    }
}

/// How a direct message reaches its recipient: a direct connection before the
/// mailbox, the mailbox before the recipient's own address.
pub open spec fn dm_route(
    l: LinksView,
    peer_id: Seq<char>,
    mailbox: Option<NodeAddr>,
    direct: Option<NodeAddr>,
) -> DmRouteView {
    let peer = peer_of_user(l, peer_id);
    if l.peers.contains(peer) {
        DmRouteView::Peer(peer)
    } else {
        match mailbox {
            Some(a) => DmRouteView::Mailbox(a),
            None => match direct {
                Some(a) => DmRouteView::Direct(a),
                None => DmRouteView::Unreachable,
            },
        }
    }
}

/// Append an event.
fn report(out: &mut Vec<NetworkEvent>, e: NetworkEvent)
    ensures
        final(out).deep_view() == old(out).deep_view().push(e.deep_view()),
{
    broadcast use vec_deep_view, views_push;

    let ghost before = out.deep_view();
    out.push(e);
    assert(out.deep_view() =~= before.push(e.deep_view()));
}

/// No events yet.
fn no_events() -> (r: Vec<NetworkEvent>)
    ensures
        r.deep_view() == Seq::<NetworkEventView>::empty(),
{
    let r: Vec<NetworkEvent> = Vec::new();
    assert(r.deep_view() =~= Seq::<NetworkEventView>::empty());
    r
}

/// Copy of a community reference, if there is one.
fn copy_ref(c: &Option<CommunityRef>) -> (r: Option<CommunityRef>)
    ensures
        r.deep_view() == c.deep_view(),
{
    match c {
        Some(c) => Some(c.clone()),
        None => None,
    }
}

/// The events that report the addresses on which a node listens.
pub open spec fn listen_events(addrs: Seq<Seq<char>>) -> Seq<NetworkEventView> {
    Seq::new(addrs.len(), |i: int| NetworkEventView::NewListenAddr(addrs[i]))
}

/// The distinct addresses of a list, in order.
pub open spec fn distinct_addrs(addrs: Seq<Seq<char>>) -> Seq<Seq<char>>
    decreases addrs.len(),
{
    if addrs.len() == 0 {
        addrs
    } else {
        with_text(distinct_addrs(addrs.drop_last()), addrs.last())
    }
}

impl Links {
    /// No connections yet; the local listen addresses are reported.
    pub fn new(local_listen_addrs: Vec<String>) -> (r: (Links, Vec<NetworkEvent>))
        ensures
            r.0.deep_view() == (LinksView {
                peers: Seq::empty(),
                by_user: Map::empty(),
                seeds: Map::empty(),
                own_addrs: distinct_addrs(local_listen_addrs.deep_view()),
            }),
            r.1.deep_view() == listen_events(local_listen_addrs.deep_view()),
    {
        broadcast use vec_deep_view;

        let ghost all = views(local_listen_addrs@);
        let mut own_addrs: Vec<String> = Vec::new();
        let mut events = no_events();
        let mut i: usize = 0;
        assert(own_addrs.deep_view() =~= distinct_addrs(all.subrange(0, 0)));
        assert(events.deep_view() =~= listen_events(all.subrange(0, 0)));
        while i < local_listen_addrs.len()
            invariant
                i <= local_listen_addrs@.len(),
                all == views(local_listen_addrs@),
                own_addrs.deep_view() == distinct_addrs(all.subrange(0, i as int)),
                events.deep_view() == listen_events(all.subrange(0, i as int)),
            decreases local_listen_addrs@.len() - i,
        {
            let ghost next = all.subrange(0, i + 1);
            assert(next.drop_last() =~= all.subrange(0, i as int));
            let a = &local_listen_addrs[i];
            assert(a@ == next.last());
            add_text(&mut own_addrs, a.as_str());
            report(&mut events, NetworkEvent::NewListenAddr(a.clone()));
            assert(events.deep_view() =~= listen_events(next));
            i += 1;
        }
        assert(all.subrange(0, all.len() as int) =~= all);
        let peers: Vec<String> = Vec::new();
        assert(peers.deep_view() =~= Seq::<Seq<char>>::empty());
        (Links { peers, by_user: Table::new(), seeds: Table::new(), own_addrs }, events)
    }

    /// A dial failed. A seed node is tried again, unless it turns out to be
    /// this node itself: then it counts as connected.
    pub fn dial_failed(&self, is_seed: bool, addr: &str, join: &Option<CommunityRef>) -> (r:
        DialFailure)
        ensures
            r.reconnect == (is_seed && !self.deep_view().own_addrs.contains(addr@)),
            r.events.deep_view() == if !is_seed {
                Seq::empty()
            } else if self.deep_view().own_addrs.contains(addr@) {
                seed_up(join.deep_view(), Seq::empty())
            } else {
                seed_down(join.deep_view())
            },
    {
        let mut events = no_events();
        if !is_seed {
            return DialFailure { events, reconnect: false };
        }
        let own = has_text(&self.own_addrs, addr);
        if let Some(c) = join {
            if own {
                let peer_id = String::new();
                assert(peer_id@ =~= Seq::<char>::empty());
                report(
                    &mut events,
                    NetworkEvent::SeedPeerConnected { community_id: c.id.clone(), peer_id },
                );
            } else {
                report(
                    &mut events,
                    NetworkEvent::SeedPeerDisconnected { community_id: c.id.clone() },
                );
            }
        }
        assert(events.deep_view() =~= if own {
            seed_up(join.deep_view(), Seq::empty())
        } else {
            seed_down(join.deep_view())
        });
        DialFailure { events, reconnect: !own }
    }

    /// Whether to keep trying to reach a seed node: not once its address turns
    /// out to be this node's own.
    pub fn keep_trying(&self, addr: &str) -> (r: bool)
        ensures
            r == !self.deep_view().own_addrs.contains(addr@),
    {
        !has_text(&self.own_addrs, addr)
    }

    /// Register a new connection. Says whether it is kept.
    pub fn register(&mut self, reg: Registration) -> (r: (bool, Vec<NetworkEvent>))
        ensures
            r.0 == !old(self).deep_view().peers.contains(reg.peer_id@),
            final(self).deep_view() == registered(old(self).deep_view(), reg.deep_view()),
            r.1.deep_view() == registration_events(old(self).deep_view(), reg.deep_view()),
    {
        broadcast use vec_deep_view, views_push;

        let ghost l = self.deep_view();
        let ghost rv = reg.deep_view();
        let mut events = no_events();
        let join = copy_ref(&reg.seed.join_community);
        if has_text(&self.peers, reg.peer_id.as_str()) {
            if reg.is_seed {
                if let Some(c) = join {
                    report(
                        &mut events,
                        NetworkEvent::SeedPeerConnected { community_id: c.id, peer_id: reg.peer_id },
                    );
                }
            }
            assert(events.deep_view() =~= registration_events(l, rv));
            return (false, events);
        }
        report(
            &mut events,
            NetworkEvent::PeerAddrKnown { node_pk: reg.node_pk, addr: reg.seed.addr },
        );
        let user = bytes_to_hex(sha256(reg.node_pk.as_slice()).as_slice());
        self.by_user.insert(user.as_str(), reg.peer_id.clone());
        self.peers.push(reg.peer_id.clone());
        if reg.is_seed {
            self.seeds.insert(reg.peer_id.as_str(), reg.seed);
            if let Some(c) = join {
                report(
                    &mut events,
                    NetworkEvent::SeedPeerConnected { community_id: c.id, peer_id: reg.peer_id },
                );
            }
        } else {
            match join {
                Some(c) => {
                    report(
                        &mut events,
                        NetworkEvent::PeerConnected { peer_id: reg.peer_id, community_id: c.id },
                    );
                },
                None => {
                    report(&mut events, NetworkEvent::LanPeerConnected { peer_id: reg.peer_id });
                },
            }
        }
        assert(events.deep_view() =~= registration_events(l, rv));
        assert(self.deep_view().peers =~= registered(l, rv).peers);
        (true, events)
    }

    /// Forget the users whose peer is no longer connected.
    fn retain_users(&mut self)
        ensures
            final(self).deep_view() == (LinksView {
                by_user: of_peers(
                    old(self).deep_view().by_user,
                    old(self).deep_view().peers,
                ),
                ..old(self).deep_view()
            }),
    {
        broadcast use vec_deep_view, views_push;

        let ghost l = self.deep_view();
        let ghost order = self.by_user.order();
        let n: usize = self.by_user.len();
        let mut stale: Vec<String> = Vec::new();
        let mut i: usize = 0;
        while i < n
            invariant
                i <= n,
                n == order.len(),
                order == self.by_user.order(),
                lists(order, l.by_user),
                self.deep_view() == l,
                forall|k: Seq<char>|
                    #[trigger] views(stale@).contains(k) <==> exists|j: int|
                        0 <= j < i && (#[trigger] order[j]).0 == k && !l.peers.contains(order[j].1),
            decreases n - i,
        {
            let ghost before = views(stale@);
            let ghost key = order[i as int].0;
            let gone = !has_text(&self.peers, self.by_user.value_at(i).as_str());
            if gone {
                stale.push(self.by_user.key_at(i).clone());
            }
            proof {
                assert(gone == !l.peers.contains(order[i as int].1));
                assert forall|q: Seq<char>| #[trigger] views(stale@).contains(q) <==> exists|j: int|
                    0 <= j < i + 1 && (#[trigger] order[j]).0 == q && !l.peers.contains(
                        order[j].1,
                    ) by {
                    if gone {
                        assert(views(stale@) == before.push(key));
                        assert(views(stale@)[before.len() as int] == key);
                        if before.contains(q) {
                            assert(views(stale@)[before.index_of(q)] == q);
                        }
                        if views(stale@).contains(q) && q != key {
                            assert(before[views(stale@).index_of(q)] == q);
                        }
                        if q == key {
                            assert(order[i as int].0 == q);
                        }
                    }
                    if exists|j: int|
                        0 <= j < i + 1 && (#[trigger] order[j]).0 == q && !l.peers.contains(
                            order[j].1,
                        ) {
                        let j = choose|j: int|
                            0 <= j < i + 1 && (#[trigger] order[j]).0 == q && !l.peers.contains(
                                order[j].1,
                            );
                        if j < i {
                            assert(before.contains(q));
                        }
                    }
                }
            }
            i += 1;
        }
        remove_all(&mut self.by_user, &stale);
        proof {
            assert forall|k: Seq<char>| l.by_user.contains_key(k) implies (views(stale@).contains(k)
                <==> !l.peers.contains(l.by_user[k])) by {
                let j = position(order, k);
                assert(has_key(order, k));
                entry_in_map(order, j);
                assert(order[j].0 == k);
                if views(stale@).contains(k) {
                    let q = choose|q: int|
                        0 <= q < n && (#[trigger] order[q]).0 == k && !l.peers.contains(order[q].1);
                    entry_in_map(order, q);
                }
            }
            assert(self.deep_view().by_user =~= of_peers(l.by_user, l.peers));
        }
    }

    /// Connections were lost: seed nodes among them are to be reached again.
    #[verifier::rlimit(60)]
    pub fn peers_lost(&mut self, dead: &Vec<String>) -> (r: (Vec<NetworkEvent>, Vec<SeedPeer>))
        ensures
            final(self).deep_view() == lost_all(old(self).deep_view(), dead.deep_view()),
            r.0.deep_view() == loss_events(old(self).deep_view(), dead.deep_view()),
            r.1.deep_view() == seeds_to_reach(old(self).deep_view(), dead.deep_view()),
    {
        broadcast use vec_deep_view, views_push;

        let ghost l = self.deep_view();
        let ghost all = views(dead@);
        let mut events = no_events();
        let mut again: Vec<SeedPeer> = Vec::new();
        let n: usize = dead.len();
        let mut i: usize = 0;
        assert(all.subrange(0, 0) =~= Seq::<Seq<char>>::empty());
        assert(views(again@) =~= seeds_to_reach(l, all.subrange(0, 0)));
        while i < n
            invariant
                i <= n,
                n == dead@.len(),
                all == views(dead@),
                self.deep_view() == lost_all(l, all.subrange(0, i as int)),
                events.deep_view() == loss_events(l, all.subrange(0, i as int)),
                views(again@) == seeds_to_reach(l, all.subrange(0, i as int)),
            decreases n - i,
        {
            let ghost next = all.subrange(0, i + 1);
            let ghost before = self.deep_view();
            assert(next.drop_last() =~= all.subrange(0, i as int));
            let id = dead[i].as_str();
            assert(id@ == next.last());
            remove_text(&mut self.peers, id);
            self.retain_users();
            report(&mut events, NetworkEvent::PeerDisconnected(dead[i].clone()));
            if let Some(seed) = self.seeds.remove(id) {
                if let Some(c) = &seed.join_community {
                    report(
                        &mut events,
                        NetworkEvent::SeedPeerDisconnected { community_id: c.id.clone() },
                    );
                }
                again.push(seed);
            }
            assert(self.deep_view().seeds =~= before.seeds.remove(id@));
            assert(events.deep_view() =~= loss_events(l, next));
            i += 1;
        }
        assert(all.subrange(0, all.len() as int) =~= all);
        (events, again)
    }

    /// Decide how a direct message reaches its recipient.
    pub fn route_dm(
        &self,
        peer_id: &str,
        mailbox: Option<NodeAddr>,
        direct: Option<NodeAddr>,
    ) -> (r: DmRoute)
        ensures
            r.deep_view() == dm_route(self.deep_view(), peer_id@, mailbox, direct),
    {
        let peer: String = match self.by_user.get(peer_id) {
            Some(p) => p.clone(),
            None => text(peer_id),
        };
        if has_text(&self.peers, peer.as_str()) {
            return DmRoute::Peer(peer);
        }
        match mailbox {
            Some(a) => DmRoute::Mailbox(a),
            None => match direct {
                Some(a) => DmRoute::Direct(a),
                None => DmRoute::Unreachable,
            },
        }
    }

    /// Note an address that was discovered elsewhere.
    pub fn add_listen_addr(&mut self, addr: String) -> (r: NetworkEvent)
        ensures
            final(self).deep_view() == (LinksView {
                own_addrs: with_text(old(self).deep_view().own_addrs, addr@),
                ..old(self).deep_view()
            }),
            r.deep_view() == NetworkEventView::NewListenAddr(addr@),
    {
        add_text(&mut self.own_addrs, addr.as_str());
        NetworkEvent::NewListenAddr(addr)
    }
}

/// A second connection to the same peer is dropped, so that no message is
/// delivered twice.
pub proof fn duplicate_connections_are_dropped(l: LinksView, reg: RegistrationView)
    ensures
        registered(registered(l, reg), reg) == registered(l, reg),
        registered(l, reg).peers.contains(reg.peer_id),
{
    let t = registered(l, reg);
    if !l.peers.contains(reg.peer_id) {
        assert(t.peers[t.peers.len() - 1] == reg.peer_id);
    }
}

/// A lost peer is no longer connected, and its user no longer resolves to it.
pub proof fn lost_peers_are_forgotten(l: LinksView, id: Seq<char>, user: Seq<char>)
    ensures
        !lost(l, id).peers.contains(id),
        !lost(l, id).seeds.contains_key(id),
        lost(l, id).by_user.contains_key(user) ==> lost(l, id).by_user[user] != id,
{
    without_text_membership(l.peers, id, id);
    if lost(l, id).by_user.contains_key(user) {
        without_text_membership(l.peers, id, l.by_user[user]);
    }
}

/// Of the peers found in the routing table exactly those with another key than
/// this node's own are dialled.
pub proof fn own_key_is_never_dialled(list: Seq<([u8; 32], NodeAddr)>, own_pk: Seq<u8>)
    ensures
        forall|a: NodeAddr| #[trigger]
            others(list, own_pk).contains(a) <==> exists|i: int|
                0 <= i < list.len() && (#[trigger] list[i]).0@ != own_pk && list[i].1 == a,
    decreases list.len(),
{
    if list.len() > 0 {
        let short = list.drop_last();
        let x = list.last();
        own_key_is_never_dialled(short, own_pk);
        let head = others(short, own_pk);
        let all = others(list, own_pk);
        assert forall|a: NodeAddr| #[trigger] all.contains(a) <==> exists|i: int|
            0 <= i < list.len() && (#[trigger] list[i]).0@ != own_pk && list[i].1 == a by {
            if all.contains(a) {
                let k = all.index_of(a);
                if k < head.len() {
                    assert(head[k] == a);
                    assert(head.contains(a));
                    let i = choose|i: int|
                        0 <= i < short.len() && (#[trigger] short[i]).0@ != own_pk && short[i].1
                            == a;
                    assert(list[i].0@ != own_pk && list[i].1 == a);
                } else {
                    assert(list[list.len() - 1].0@ != own_pk && list[list.len() - 1].1 == a);
                }
            }
            if exists|i: int|
                0 <= i < list.len() && (#[trigger] list[i]).0@ != own_pk && list[i].1 == a {
                let i = choose|i: int|
                    0 <= i < list.len() && (#[trigger] list[i]).0@ != own_pk && list[i].1 == a;
                if i < short.len() {
                    assert(short[i].0@ != own_pk && short[i].1 == a);
                    assert(head.contains(a));
                    let k = head.index_of(a);
                    assert(all[k] == a);
                } else {
                    assert(all[head.len() as int] == a);
                }
            }
        }
    }
}

} // verus!
