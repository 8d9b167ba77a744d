//! What the network task does on a command, and what it reports of the outcome.

use crate::api::local::LocalNode;
use crate::bytes::{to_vec, zeros};
use crate::crypto::certificate::HostingCert;
use crate::crypto::dm::{DmEnvelope, DmEnvelopeView};
use crate::crypto::primitives::ed25519_public_key;
use crate::lists::{
    copy_text_opt, copy_texts, has_text, vec_deep_view, views, views_push, with_text,
};
use crate::model::types::{ulid_parse, ChannelId};
use crate::network::client::{is_not_found, says_not_found, ServedManifest};
use crate::network::network_handle::command::{
    bare_cert, discovery_cert, dm_route, hosting_cert, issued_cert, others, peers_to_dial,
    unsigned_cert, DmRoute, DmRouteView, Links, LinksView, Registration, RegistrationView,
    SeedPeer, SeedPeerView,
};
use crate::network::network_handle::types::{
    CommunityRef, CommunityRefView, ManifestResponse, ManifestResponseView, NetworkCommand,
    NetworkEvent, NetworkEventView,
};
use crate::network::node_addr::NodeAddr;
use crate::state::message_log::{LogEntry, LogEntryView};
use crate::text::{bytes_to_hex, hex};
use vstd::prelude::*;

verus! {

/// What the network task has to do.
#[derive(Debug)]
pub enum LinkAction {
    /// Connect to a node.
    Dial {
        is_seed: bool,
        seed: SeedPeer,
    },
    /// Connect to a community peer that was found in the routing table.
    Discover {
        addr: NodeAddr,
        community: CommunityRef,
    },
    /// Relay data through the given peers.
    Gossip {
        peers: Vec<String>,
        topic: String,
        data: Vec<u8>,
    },
    /// Send data to the clients of this node's own server.
    Broadcast {
        topic: String,
        source: String,
        data: Vec<u8>,
    },
    /// Ask a peer for a manifest.
    FetchManifest {
        peer_id: String,
        community: CommunityRef,
    },
    /// Join a community on a peer with the given certificate, then ask for the
    /// history of a channel.
    FetchHistory {
        peer_id: String,
        community: CommunityRef,
        cert: HostingCert,
        channel: ChannelId,
        channel_id: String,
        since_seq: u64,
    },
    /// Send a direct message.
    SendDm {
        route: DmRoute,
        peer_id: String,
        message_id: String,
        recipient_x25519_pk: [u8; 32],
        envelope: DmEnvelope,
    },
    /// Ask a peer for the messages in the local user's mailbox.
    FetchMailbox {
        peer_id: String,
    },
}

/// What a [`LinkAction`] holds.
pub enum LinkActionView {
    Dial {
        is_seed: bool,
        seed: SeedPeerView,
    },
    Discover {
        addr: NodeAddr,
        community: CommunityRefView,
    },
    Gossip {
        peers: Seq<Seq<char>>,
        topic: Seq<char>,
        data: Seq<u8>,
    },
    Broadcast {
        topic: Seq<char>,
        source: Seq<char>,
        data: Seq<u8>,
    },
    FetchManifest {
        peer_id: Seq<char>,
        community: CommunityRefView,
    },
    FetchHistory {
        peer_id: Seq<char>,
        community: CommunityRefView,
        cert: (Seq<u8>, Seq<u8>, u64, Seq<u8>),
        channel: ChannelId,
        channel_id: Seq<char>,
        since_seq: u64,
    },
    SendDm {
        route: DmRouteView,
        peer_id: Seq<char>,
        message_id: Seq<char>,
        recipient_x25519_pk: Seq<u8>,
        envelope: DmEnvelopeView,
    },
    FetchMailbox {
        peer_id: Seq<char>,
    },
}

impl DeepView for LinkAction {
    type V = LinkActionView;

    open spec fn deep_view(&self) -> LinkActionView {
        match self {
            LinkAction::Dial { is_seed, seed } => LinkActionView::Dial {
                is_seed: *is_seed,
                seed: seed.deep_view(),
            },
            LinkAction::Discover { addr, community } => LinkActionView::Discover {
                addr: *addr,
                community: community.deep_view(),
            },
            LinkAction::Gossip { peers, topic, data } => LinkActionView::Gossip {
                peers: peers.deep_view(),
                topic: topic@,
                data: data@,
            },
            LinkAction::Broadcast { topic, source, data } => LinkActionView::Broadcast {
                topic: topic@,
                source: source@,
                data: data@,
            },
            LinkAction::FetchManifest { peer_id, community } => LinkActionView::FetchManifest {
                peer_id: peer_id@,
                community: community.deep_view(),
            },
            LinkAction::FetchHistory { peer_id, community, cert, channel, channel_id, since_seq } => {
                LinkActionView::FetchHistory {
                    peer_id: peer_id@,
                    community: community.deep_view(),
                    cert: cert_fields(*cert),
                    channel: *channel,
                    channel_id: channel_id@,
                    since_seq: *since_seq,
                }
            },
            LinkAction::SendDm { route, peer_id, message_id, recipient_x25519_pk, envelope } => {
                LinkActionView::SendDm {
                    route: route.deep_view(),
                    peer_id: peer_id@,
                    message_id: message_id@,
                    recipient_x25519_pk: recipient_x25519_pk@,
                    envelope: envelope.deep_view(),
                }
            },
            LinkAction::FetchMailbox { peer_id } => LinkActionView::FetchMailbox {
                peer_id: peer_id@,
            },
        }
    }
}

/// The fields of a certificate.
pub open spec fn cert_fields(c: HostingCert) -> (Seq<u8>, Seq<u8>, u64, Seq<u8>) {
    (c.community_pk@, c.node_pk@, c.expires_at, c.signature@)
}

/// One connection attempt per address.
pub open spec fn discoveries(addrs: Seq<NodeAddr>, community: CommunityRefView) -> Seq<
    LinkActionView,
> {
    Seq::new(addrs.len(), |i: int| LinkActionView::Discover { addr: addrs[i], community })
}

/// The attempt to reach a node.
pub open spec fn dial_action(
    addr: NodeAddr,
    is_seed: bool,
    join_community: Option<CommunityRefView>,
    password: Option<Seq<char>>,
    cert_fingerprint: Seq<u8>,
) -> LinkActionView {
    LinkActionView::Dial {
        is_seed,
        seed: SeedPeerView { addr, join_community, password, cert_fingerprint },
    }
}

/// What a command asks the network task to do. Peers that are not connected
/// are not asked.
pub open spec fn command_actions(l: LinksView, own_pk: Seq<u8>, cmd: NetworkCommand) -> Seq<
    LinkActionView,
> {
    match cmd {
        NetworkCommand::Dial {
            addr,
            is_seed,
            join_community,
            join_community_password,
            cert_fingerprint,
        } => seq![
            dial_action(
                addr,
                is_seed,
                join_community.deep_view(),
                join_community_password.deep_view(),
                cert_fingerprint@,
            ),
        ],
        NetworkCommand::DiscoverAndDial { peers, community_pk, community_id } => discoveries(
            others(peers@, own_pk),
            CommunityRefView { pk: community_pk@, id: community_id@ },
        ),
        NetworkCommand::Publish { topic, data } => seq![
            LinkActionView::Gossip { peers: l.peers, topic: topic@, data: data@ },
            LinkActionView::Broadcast { topic: topic@, source: hex(own_pk), data: data@ },
        ],
        NetworkCommand::FetchManifest { peer_id, community_id, community_pk } => if l.peers.contains(
            peer_id@,
        ) {
            seq![
                LinkActionView::FetchManifest {
                    peer_id: peer_id@,
                    community: CommunityRefView { pk: community_pk@, id: community_id@ },
                },
            ]
        } else {
            Seq::empty()
        },
        NetworkCommand::FetchChannelHistory {
            peer_id,
            community_id,
            community_pk,
            channel_id,
            since_seq,
        } => match ulid_parse(channel_id@) {
            Some(u) => if l.peers.contains(peer_id@) {
                seq![
                    LinkActionView::FetchHistory {
                        peer_id: peer_id@,
                        community: CommunityRefView { pk: community_pk@, id: community_id@ },
                        cert: (community_pk@, zeros(32), u64::MAX, zeros(64)),
                        channel: ChannelId(u),
                        channel_id: channel_id@,
                        since_seq,
                    },
                ]
            } else {
                Seq::empty()
            },
            None => Seq::empty(),
        },
        NetworkCommand::SendDm {
            peer_id,
            message_id,
            recipient_x25519_pk,
            envelope,
            mailbox_addr,
            peer_node_addr,
        } => {
            let route = dm_route(l, peer_id@, mailbox_addr, peer_node_addr);
            if route is Unreachable {
                Seq::empty()
            } else {
                seq![
                    LinkActionView::SendDm {
                        route,
                        peer_id: peer_id@,
                        message_id: message_id@,
                        recipient_x25519_pk: recipient_x25519_pk@,
                        envelope: envelope.deep_view(),
                    },
                ]
            }
        },
        NetworkCommand::FetchMailbox { peer_id } => if l.peers.contains(peer_id@) {
            seq![LinkActionView::FetchMailbox { peer_id: peer_id@ }]
        } else {
            Seq::empty()
        },
        _ => Seq::empty(),
    }
}

/// What a command leads the network task to report at once.
pub open spec fn command_events(l: LinksView, cmd: NetworkCommand) -> Seq<NetworkEventView> {
    match cmd {
        NetworkCommand::AddListenAddr(addr) => seq![NetworkEventView::NewListenAddr(addr@)],
        NetworkCommand::NotifyCommunityJoined(c) => seq![
            NetworkEventView::CommunityJoined(c.deep_view()),
        ],
        NetworkCommand::SendDm { peer_id, message_id, mailbox_addr, peer_node_addr, .. } => if dm_route(
            l,
            peer_id@,
            mailbox_addr,
            peer_node_addr,
        ) is Unreachable {
            seq![
                NetworkEventView::DmSendFailed { peer_id: peer_id@, message_id: message_id@ },
            ]
        } else {
            Seq::empty()
        },
        _ => Seq::empty(),
    }
}

/// The connections after a command. Only a new listen address changes them.
pub open spec fn after_command(l: LinksView, cmd: NetworkCommand) -> LinksView {
    match cmd {
        NetworkCommand::AddListenAddr(addr) => LinksView {
            own_addrs: with_text(l.own_addrs, addr@),
            ..l
        },
        _ => l,
    }
}

/// What a command comes to.
pub struct Plan {
    pub actions: Vec<LinkAction>,
    pub events: Vec<NetworkEvent>,
    /// Whether the task goes on.
    pub go_on: bool,
}

/// One action as a list.
fn single(a: LinkAction) -> (r: Vec<LinkAction>)
    ensures
        r.deep_view() == seq![a.deep_view()],
{
    let mut r: Vec<LinkAction> = Vec::new();
    r.push(a);
    assert(r.deep_view() =~= seq![a.deep_view()]);
    r
}

/// One event as a list.
fn one_event(e: NetworkEvent) -> (r: Vec<NetworkEvent>)
    ensures
        r.deep_view() == seq![e.deep_view()],
{
    let mut r: Vec<NetworkEvent> = Vec::new();
    r.push(e);
    assert(r.deep_view() =~= seq![e.deep_view()]);
    r
}

/// No actions.
fn nothing() -> (r: Vec<LinkAction>)
    ensures
        r.deep_view() == Seq::<LinkActionView>::empty(),
{
    let r: Vec<LinkAction> = Vec::new();
    assert(r.deep_view() =~= Seq::<LinkActionView>::empty());
    r
}

/// No events.
fn silence() -> (r: Vec<NetworkEvent>)
    ensures
        r.deep_view() == Seq::<NetworkEventView>::empty(),
{
    let r: Vec<NetworkEvent> = Vec::new();
    assert(r.deep_view() =~= Seq::<NetworkEventView>::empty());
    r
}

/// One connection attempt per address.
fn discover_all(addrs: &Vec<NodeAddr>, community: &CommunityRef) -> (r: Vec<LinkAction>)
    ensures
        r.deep_view() == discoveries(addrs@, community.deep_view()),
{
    broadcast use vec_deep_view, views_push;

    let mut out: Vec<LinkAction> = Vec::new();
    let mut i: usize = 0;
    while i < addrs.len()
        invariant
            i <= addrs@.len(),
            views(out@) == discoveries(addrs@.subrange(0, i as int), community.deep_view()),
        decreases addrs@.len() - i,
    {
        let ghost c = community.deep_view();
        let ghost shorter = addrs@.subrange(0, i as int);
        out.push(LinkAction::Discover { addr: addrs[i], community: community.clone() });
        i += 1;
        assert(addrs@.subrange(0, i as int) =~= shorter.push(addrs@[i - 1]));
        assert(discoveries(addrs@.subrange(0, i as int), c) =~= discoveries(shorter, c).push(
            LinkActionView::Discover { addr: addrs@[i - 1], community: c },
        ));
    }
    assert(addrs@.subrange(0, addrs@.len() as int) =~= addrs@);
    out
}

impl Links {
    /// Decide what a command comes to.
    pub fn handle_command(&mut self, own_pk: &[u8; 32], cmd: NetworkCommand) -> (r: Plan)
        ensures
            r.actions.deep_view() == command_actions(old(self).deep_view(), own_pk@, cmd),
            r.events.deep_view() == command_events(old(self).deep_view(), cmd),
            r.go_on == !(cmd is Shutdown),
            final(self).deep_view() == after_command(old(self).deep_view(), cmd),
    {
        match cmd {
            NetworkCommand::Dial {
                addr,
                is_seed,
                join_community,
                join_community_password,
                cert_fingerprint,
            } => {
                let seed = SeedPeer {
                    addr,
                    join_community,
                    password: join_community_password,
                    cert_fingerprint,
                };
                Plan {
                    actions: single(LinkAction::Dial { is_seed, seed }),
                    events: silence(),
                    go_on: true,
                }
            },
            NetworkCommand::DiscoverAndDial { peers, community_pk, community_id } => {
                let community = CommunityRef { pk: community_pk, id: community_id };
                let addrs = peers_to_dial(&peers, own_pk);
                Plan {
                    actions: discover_all(&addrs, &community),
                    events: silence(),
                    go_on: true,
                }
            },
            NetworkCommand::Publish { topic, data } => {
                let source = bytes_to_hex(own_pk.as_slice());
                let relay = LinkAction::Gossip {
                    peers: copy_texts(&self.peers),
                    topic: topic.clone(),
                    data: to_vec(data.as_slice()),
                };
                let own = LinkAction::Broadcast { topic, source, data };
                let mut actions: Vec<LinkAction> = Vec::new();
                actions.push(relay);
                actions.push(own);
                assert(actions.deep_view() =~= seq![relay.deep_view(), own.deep_view()]);
                Plan { actions, events: silence(), go_on: true }
            },
            NetworkCommand::FetchManifest { peer_id, community_id, community_pk } => {
                let actions = if has_text(&self.peers, peer_id.as_str()) {
                    let community = CommunityRef { pk: community_pk, id: community_id };
                    single(LinkAction::FetchManifest { peer_id, community })
                } else {
                    nothing()
                };
                Plan { actions, events: silence(), go_on: true }
            },
            NetworkCommand::FetchChannelHistory {
                peer_id,
                community_id,
                community_pk,
                channel_id,
                since_seq,
            } => {
                let actions = match ChannelId::from_string(channel_id.as_str()) {
                    Some(channel) => if has_text(&self.peers, peer_id.as_str()) {
                        let zero: [u8; 32] = [0u8; 32];
                        assert(zero@ =~= zeros(32));
                        let cert = unsigned_cert(zero, community_pk);
                        let community = CommunityRef { pk: community_pk, id: community_id };
                        single(
                            LinkAction::FetchHistory {
                                peer_id,
                                community,
                                cert,
                                channel,
                                channel_id,
                                since_seq,
                            },
                        )
                    } else {
                        nothing()
                    },
                    None => nothing(),
                };
                Plan { actions, events: silence(), go_on: true }
            },
            NetworkCommand::SendDm {
                peer_id,
                message_id,
                recipient_x25519_pk,
                envelope,
                mailbox_addr,
                peer_node_addr,
            } => {
                let route = self.route_dm(peer_id.as_str(), mailbox_addr, peer_node_addr);
                match route {
                    DmRoute::Unreachable => Plan {
                        actions: nothing(),
                        events: one_event(NetworkEvent::DmSendFailed { peer_id, message_id }),
                        go_on: true,
                    },
                    route => Plan {
                        actions: single(
                            LinkAction::SendDm {
                                route,
                                peer_id,
                                message_id,
                                recipient_x25519_pk,
                                envelope,
                            },
                        ),
                        events: silence(),
                        go_on: true,
                    },
                }
            },
            NetworkCommand::AddListenAddr(addr) => {
                let e = self.add_listen_addr(addr);
                Plan { actions: nothing(), events: one_event(e), go_on: true }
            },
            NetworkCommand::NotifyCommunityJoined(c) => Plan {
                actions: nothing(),
                events: one_event(NetworkEvent::CommunityJoined(c)),
                go_on: true,
            },
            NetworkCommand::FetchMailbox { peer_id } => {
                let actions = if has_text(&self.peers, peer_id.as_str()) {
                    single(LinkAction::FetchMailbox { peer_id })
                } else {
                    nothing()
                };
                Plan { actions, events: silence(), go_on: true }
            },
            NetworkCommand::Subscribe(_) => Plan {
                actions: nothing(),
                events: silence(),
                go_on: true,
            },
            NetworkCommand::Unsubscribe(_) => Plan {
                actions: nothing(),
                events: silence(),
                go_on: true,
            },
            NetworkCommand::Shutdown => Plan {
                actions: nothing(),
                events: silence(),
                go_on: false,
            },
        }
    }
}

/// A request to join a community on a node.
#[derive(Debug)]
pub struct JoinRequest {
    pub cert: HostingCert,
    pub community_id: String,
    pub password: Option<String>,
}

/// The registration of a connection to the node with the given key.
pub open spec fn registration_of(node_pk: Seq<u8>, is_seed: bool, seed: SeedPeerView) -> RegistrationView {
    RegistrationView { peer_id: hex(node_pk), node_pk, is_seed, seed }
}

/// What follows a successful dial: the connection is registered, and the node
/// is asked to host the community when the local user created it.
pub fn dialled(local: &LocalNode, node_pk: [u8; 32], is_seed: bool, seed: SeedPeer) -> (r: (
    Registration,
    Option<JoinRequest>,
))
    ensures
        r.0.deep_view() == registration_of(node_pk@, is_seed, seed.deep_view()),
        match (seed.join_community, r.1) {
            (Some(c), Some(j)) => {
                &&& c.pk@ == ed25519_public_key(local.deep_view().key)
                &&& issued_cert(local.deep_view(), node_pk@, j.cert)
                &&& j.community_id@ == c.id@
                &&& j.password.deep_view() == seed.password.deep_view()
            },
            (Some(c), None) => c.pk@ != ed25519_public_key(local.deep_view().key),
            (None, j) => j is None,
        },
{
    let join = match &seed.join_community {
        Some(c) => match hosting_cert(local, node_pk, &c.pk) {
            Some(cert) => Some(
                JoinRequest {
                    cert,
                    community_id: c.id.clone(),
                    password: copy_text_opt(&seed.password),
                },
            ),
            None => None,
        },
        None => None,
    };
    let peer_id = bytes_to_hex(node_pk.as_slice());
    (Registration { peer_id, node_pk, is_seed, seed }, join)
}

/// What follows when a peer from the routing table was reached: it is asked to
/// let this node join the community, then the connection is registered.
pub fn discovered(
    local: &LocalNode,
    node_pk: [u8; 32],
    addr: NodeAddr,
    community: CommunityRef,
) -> (r: (Registration, JoinRequest))
    ensures
        r.0.deep_view() == registration_of(
            node_pk@,
            false,
            SeedPeerView {
                addr,
                join_community: Some(community.deep_view()),
                password: None,
                cert_fingerprint: zeros(32),
            },
        ),
        r.1.community_id@ == community.id@,
        r.1.password is None,
        if community.pk@ == ed25519_public_key(local.deep_view().key) {
            issued_cert(local.deep_view(), node_pk@, r.1.cert)
        } else {
            bare_cert(community.pk@, node_pk@, r.1.cert)
        },
{
    let join = JoinRequest {
        cert: discovery_cert(local, node_pk, community.pk),
        community_id: community.id.clone(),
        password: None,
    };
    let zero: [u8; 32] = [0u8; 32];
    assert(zero@ =~= zeros(32));
    let seed = SeedPeer {
        addr,
        join_community: Some(community),
        password: None,
        cert_fingerprint: zero,
    };
    let peer_id = bytes_to_hex(node_pk.as_slice());
    (Registration { peer_id, node_pk, is_seed: false, seed }, join)
}

/// How an action ended.
pub enum Outcome {
    /// A node that was dialled refused to host the community.
    JoinRefused {
        community_id: String,
        reason: String,
    },
    /// A peer served a manifest.
    ManifestServed {
        peer_id: String,
        served: ServedManifest,
    },
    /// A peer did not serve a manifest.
    ManifestRefused {
        peer_id: String,
        community_id: String,
        error: String,
    },
    /// A peer served the history of a channel.
    HistoryServed {
        community_id: String,
        channel_id: String,
        entries: Vec<LogEntry>,
    },
    /// A direct message could not be sent.
    DmNotSent {
        peer_id: String,
        message_id: String,
    },
    /// A peer served the local user's mailbox.
    MailboxServed {
        entries: Vec<LogEntry>,
    },
}

/// The direct messages of a mailbox, all addressed to the given key.
pub open spec fn mailbox_events(entries: Seq<LogEntryView>, own_x25519: Seq<u8>) -> Seq<
    NetworkEventView,
> {
    Seq::new(
        entries.len(),
        |i: int| NetworkEventView::DmReceived { entry: entries[i], recipient_pk: own_x25519 },
    )
}

/// What is reported of an outcome.
pub open spec fn outcome_events(o: Outcome, own_x25519: Seq<u8>) -> Seq<NetworkEventView> {
    match o {
        Outcome::JoinRefused { community_id, reason } => seq![
            NetworkEventView::CommunityJoinFailed { community_id: community_id@, reason: reason@ },
        ],
        Outcome::ManifestServed { peer_id, served } => seq![
            NetworkEventView::ManifestReceived(
                ManifestResponseView {
                    from: peer_id@,
                    manifest: served.manifest.deep_view(),
                    channels: served.channels.deep_view(),
                    channel_keys: served.channel_keys.deep_view(),
                    members: served.members.deep_view(),
                },
            ),
        ],
        Outcome::ManifestRefused { peer_id, community_id, error } => if says_not_found(error@) {
            seq![
                NetworkEventView::ManifestNotFound {
                    community_id: community_id@,
                    peer_id: peer_id@,
                },
            ]
        } else {
            Seq::empty()
        },
        Outcome::HistoryServed { community_id, channel_id, entries } => seq![
            NetworkEventView::ChannelHistoryReceived {
                community_id: community_id@,
                channel_id: channel_id@,
                entries: entries.deep_view(),
            },
        ],
        Outcome::DmNotSent { peer_id, message_id } => seq![
            NetworkEventView::DmSendFailed { peer_id: peer_id@, message_id: message_id@ },
        ],
        Outcome::MailboxServed { entries } => mailbox_events(entries.deep_view(), own_x25519),
    }
}

/// What to report of an outcome.
pub fn report_outcome(o: Outcome, own_x25519: [u8; 32]) -> (r: Vec<NetworkEvent>)
    ensures
        r.deep_view() == outcome_events(o, own_x25519@),
{
    broadcast use vec_deep_view, views_push;

    match o {
        Outcome::JoinRefused { community_id, reason } => one_event(
            NetworkEvent::CommunityJoinFailed { community_id, reason },
        ),
        Outcome::ManifestServed { peer_id, served } => one_event(
            NetworkEvent::ManifestReceived(
                ManifestResponse {
                    from: peer_id,
                    manifest: served.manifest,
                    channels: served.channels,
                    channel_keys: served.channel_keys,
                    members: served.members,
                },
            ),
        ),
        Outcome::ManifestRefused { peer_id, community_id, error } => if is_not_found(
            error.as_str(),
        ) {
            one_event(NetworkEvent::ManifestNotFound { community_id, peer_id })
        } else {
            silence()
        },
        Outcome::HistoryServed { community_id, channel_id, entries } => one_event(
            NetworkEvent::ChannelHistoryReceived { community_id, channel_id, entries },
        ),
        Outcome::DmNotSent { peer_id, message_id } => one_event(
            NetworkEvent::DmSendFailed { peer_id, message_id },
        ),
        Outcome::MailboxServed { entries } => {
            let ghost all = views(entries@);
            let mut out: Vec<NetworkEvent> = Vec::new();
            let mut i: usize = 0;
            while i < entries.len()
                invariant
                    i <= entries@.len(),
                    all == views(entries@),
                    views(out@) == mailbox_events(all.subrange(0, i as int), own_x25519@),
                decreases entries@.len() - i,
            {
                let ghost shorter = all.subrange(0, i as int);
                out.push(
                    NetworkEvent::DmReceived {
                        entry: entries[i].clone(),
                        recipient_pk: own_x25519,
                    },
                );
                i += 1;
                assert(all.subrange(0, i as int) =~= shorter.push(all[i - 1]));
                assert(mailbox_events(all.subrange(0, i as int), own_x25519@) =~= mailbox_events(
                    shorter,
                    own_x25519@,
                ).push(
                    NetworkEventView::DmReceived {
                        entry: all[i - 1],
                        recipient_pk: own_x25519@,
                    },
                ));
            }
            assert(all.subrange(0, all.len() as int) =~= all);
            out
        },
    }
}

/// A peer that is not connected is asked for nothing: neither manifests, nor
/// history, nor mail.
pub proof fn absent_peers_are_not_asked(l: LinksView, own_pk: Seq<u8>, cmd: NetworkCommand)
    requires
        match cmd {
            NetworkCommand::FetchManifest { peer_id, .. } => !l.peers.contains(peer_id@),
            NetworkCommand::FetchChannelHistory { peer_id, .. } => !l.peers.contains(peer_id@),
            NetworkCommand::FetchMailbox { peer_id } => !l.peers.contains(peer_id@),
            _ => false,
        },
    ensures
        command_actions(l, own_pk, cmd).len() == 0,
        command_events(l, cmd).len() == 0,
        after_command(l, cmd) == l,
{
}

/// A direct message is either on its way or reported as failed, never both and
/// never neither.
pub proof fn direct_messages_are_accounted_for(
    l: LinksView,
    own_pk: Seq<u8>,
    cmd: NetworkCommand,
)
    requires
        cmd is SendDm,
    ensures
        command_actions(l, own_pk, cmd).len() + command_events(l, cmd).len() == 1,
{
}

/// What is published goes to every connected peer and to the clients of this
/// node's own server, under this node's own name.
pub proof fn publications_reach_everyone(
    l: LinksView,
    own_pk: Seq<u8>,
    topic: String,
    data: Vec<u8>,
)
    ensures
        ({
            let actions = command_actions(l, own_pk, NetworkCommand::Publish { topic, data });
            &&& actions.len() == 2
            &&& actions[0] matches LinkActionView::Gossip { peers, .. } && peers == l.peers
            &&& actions[1] matches LinkActionView::Broadcast { source, .. } && source == hex(own_pk)
        }),
{
}

} // verus!
