//! Commands to and events from the network layer.

use crate::crypto::dm::{DmEnvelope, DmEnvelopeView};
use crate::model::channel::{ChannelManifest, ChannelManifestView};
use crate::model::community::{SignedManifest, SignedManifestView};
use crate::model::membership::{MembershipRecord, MembershipRecordView};
use crate::network::node_addr::NodeAddr;
use crate::state::message_log::{LogEntry, LogEntryView};
use crate::table::Table;
use vstd::prelude::*;

verus! {

/// A community by public key and id.
#[derive(Debug)]
pub struct CommunityRef {
    pub pk: [u8; 32],
    pub id: String,
}

/// What a [`CommunityRef`] holds.
pub struct CommunityRefView {
    pub pk: Seq<u8>,
    pub id: Seq<char>,
}

impl DeepView for CommunityRef {
    type V = CommunityRefView;

    open spec fn deep_view(&self) -> CommunityRefView {
        CommunityRefView {
            pk: self.pk@,
            id: self.id@,
        }
    }
}

impl Clone for CommunityRef {
    fn clone(&self) -> (r: Self)
        ensures
            r.deep_view() == self.deep_view(),
    {
        CommunityRef {
            pk: self.pk,
            id: self.id.clone(),
        }
    }
}

/// Commands from the application layer to the network layer.
#[derive(Debug)]
pub enum NetworkCommand {
    /// Dial a peer. With `join_community` the network layer joins the community
    /// on the peer right after authentication. An all-zero fingerprint accepts
    /// any certificate.
    Dial {
        addr: NodeAddr,
        is_seed: bool,
        join_community: Option<CommunityRef>,
        join_community_password: Option<String>,
        cert_fingerprint: [u8; 32],
    },
    /// Subscribe to a topic.
    Subscribe(String),
    /// Unsubscribe from a topic.
    Unsubscribe(String),
    /// Publish encoded data on a topic.
    Publish {
        topic: String,
        data: Vec<u8>,
    },
    /// Send a direct message: over a direct connection, else to the mailbox,
    /// else by dialling the peer's own address.
    SendDm {
        peer_id: String,
        message_id: String,
        recipient_x25519_pk: [u8; 32],
        envelope: DmEnvelope,
        mailbox_addr: Option<NodeAddr>,
        peer_node_addr: Option<NodeAddr>,
    },
    /// Request a community manifest from a peer.
    FetchManifest {
        peer_id: String,
        community_id: String,
        community_pk: [u8; 32],
    },
    /// Request channel history from a peer.
    FetchChannelHistory {
        peer_id: String,
        community_id: String,
        community_pk: [u8; 32],
        channel_id: String,
        since_seq: u64,
    },
    /// Report a listen address discovered elsewhere.
    AddListenAddr(String),
    /// Report that a community was joined through this node's server.
    NotifyCommunityJoined(CommunityRef),
    /// Fetch all queued direct messages from a peer's mailbox.
    FetchMailbox {
        peer_id: String,
    },
    /// Dial community peers that were found in the routing table.
    DiscoverAndDial {
        peers: Vec<([u8; 32], NodeAddr)>,
        community_pk: [u8; 32],
        community_id: String,
    },
    /// Shut the network layer down.
    Shutdown,
}

/// What a [`NetworkCommand`] holds.
pub enum NetworkCommandView {
    Dial {
        addr: NodeAddr,
        is_seed: bool,
        join_community: Option<CommunityRefView>,
        join_community_password: Option<Seq<char>>,
        cert_fingerprint: Seq<u8>,
    },
    Subscribe(Seq<char>),
    Unsubscribe(Seq<char>),
    Publish {
        topic: Seq<char>,
        data: Seq<u8>,
    },
    SendDm {
        peer_id: Seq<char>,
        message_id: Seq<char>,
        recipient_x25519_pk: Seq<u8>,
        envelope: DmEnvelopeView,
        mailbox_addr: Option<NodeAddr>,
        peer_node_addr: Option<NodeAddr>,
    },
    FetchManifest {
        peer_id: Seq<char>,
        community_id: Seq<char>,
        community_pk: Seq<u8>,
    },
    FetchChannelHistory {
        peer_id: Seq<char>,
        community_id: Seq<char>,
        community_pk: Seq<u8>,
        channel_id: Seq<char>,
        since_seq: u64,
    },
    AddListenAddr(Seq<char>),
    NotifyCommunityJoined(CommunityRefView),
    FetchMailbox {
        peer_id: Seq<char>,
    },
    DiscoverAndDial {
        peers: Seq<(Seq<u8>, NodeAddr)>,
        community_pk: Seq<u8>,
        community_id: Seq<char>,
    },
    Shutdown,
}

impl DeepView for NetworkCommand {
    type V = NetworkCommandView;

    open spec fn deep_view(&self) -> NetworkCommandView {
        match self {
            NetworkCommand::Dial { addr, is_seed, join_community, join_community_password, cert_fingerprint } => NetworkCommandView::Dial {
                addr: *addr,
                is_seed: *is_seed,
                join_community: join_community.deep_view(),
                join_community_password: join_community_password.deep_view(),
                cert_fingerprint: cert_fingerprint@,
            },
            NetworkCommand::Subscribe(a) => NetworkCommandView::Subscribe(a@),
            NetworkCommand::Unsubscribe(a) => NetworkCommandView::Unsubscribe(a@),
            NetworkCommand::Publish { topic, data } => NetworkCommandView::Publish {
                topic: topic@,
                data: data@,
            },
            NetworkCommand::SendDm { peer_id, message_id, recipient_x25519_pk, envelope, mailbox_addr, peer_node_addr } => NetworkCommandView::SendDm {
                peer_id: peer_id@,
                message_id: message_id@,
                recipient_x25519_pk: recipient_x25519_pk@,
                envelope: envelope.deep_view(),
                mailbox_addr: *mailbox_addr,
                peer_node_addr: *peer_node_addr,
            },
            NetworkCommand::FetchManifest { peer_id, community_id, community_pk } => NetworkCommandView::FetchManifest {
                peer_id: peer_id@,
                community_id: community_id@,
                community_pk: community_pk@,
            },
            NetworkCommand::FetchChannelHistory { peer_id, community_id, community_pk, channel_id, since_seq } => NetworkCommandView::FetchChannelHistory {
                peer_id: peer_id@,
                community_id: community_id@,
                community_pk: community_pk@,
                channel_id: channel_id@,
                since_seq: *since_seq,
            },
            NetworkCommand::AddListenAddr(a) => NetworkCommandView::AddListenAddr(a@),
            NetworkCommand::NotifyCommunityJoined(a) => NetworkCommandView::NotifyCommunityJoined(a.deep_view()),
            NetworkCommand::FetchMailbox { peer_id } => NetworkCommandView::FetchMailbox {
                peer_id: peer_id@,
            },
            NetworkCommand::DiscoverAndDial { peers, community_pk, community_id } => NetworkCommandView::DiscoverAndDial {
                peers: peers.deep_view(),
                community_pk: community_pk@,
                community_id: community_id@,
            },
            NetworkCommand::Shutdown => NetworkCommandView::Shutdown,
        }
    }
}

/// A manifest response.
pub struct ManifestResponse {
    pub from: String,
    pub manifest: SignedManifest,
    pub channels: Vec<ChannelManifest>,
    /// Plain channel keys, from a peer that does not wrap them.
    pub channel_keys: Table<Vec<u8>>,
    pub members: Vec<MembershipRecord>,
}

/// What a [`ManifestResponse`] holds.
pub struct ManifestResponseView {
    pub from: Seq<char>,
    pub manifest: SignedManifestView,
    pub channels: Seq<ChannelManifestView>,
    pub channel_keys: Map<Seq<char>, Seq<u8>>,
    pub members: Seq<MembershipRecordView>,
}

impl DeepView for ManifestResponse {
    type V = ManifestResponseView;

    open spec fn deep_view(&self) -> ManifestResponseView {
        ManifestResponseView {
            from: self.from@,
            manifest: self.manifest.deep_view(),
            channels: self.channels.deep_view(),
            channel_keys: self.channel_keys.deep_view(),
            members: self.members.deep_view(),
        }
    }
}

/// Events from the network layer to the application layer.
pub enum NetworkEvent {
    /// A peer of a community connected.
    PeerConnected {
        peer_id: String,
        community_id: String,
    },
    /// A peer connected that was found on the local network.
    LanPeerConnected {
        peer_id: String,
    },
    /// A peer connection was closed.
    PeerDisconnected(String),
    /// Data was received on a topic.
    MessageReceived {
        topic: String,
        source: Option<String>,
        data: Vec<u8>,
    },
    /// The node listens on this address.
    NewListenAddr(String),
    /// A direct message was received.
    DmReceived {
        entry: LogEntry,
        recipient_pk: [u8; 32],
    },
    /// A peer sent a full community manifest.
    ManifestReceived(ManifestResponse),
    /// A peer sent channel history.
    ChannelHistoryReceived {
        community_id: String,
        channel_id: String,
        entries: Vec<LogEntry>,
    },
    /// A community was joined through this node's server.
    CommunityJoined(CommunityRef),
    /// A seed node refused to let a community join.
    CommunityJoinFailed {
        community_id: String,
        reason: String,
    },
    /// A peer does not have the requested manifest.
    ManifestNotFound {
        community_id: String,
        peer_id: String,
    },
    /// The seed peer of a community connected.
    SeedPeerConnected {
        community_id: String,
        peer_id: String,
    },
    /// The seed peer of a community disconnected.
    SeedPeerDisconnected {
        community_id: String,
    },
    /// A direct message could not be delivered.
    DmSendFailed {
        peer_id: String,
        message_id: String,
    },
    /// The address of a peer became known.
    PeerAddrKnown {
        node_pk: [u8; 32],
        addr: NodeAddr,
    },
    /// An error of the network layer.
    Error(String),
}

/// What a [`NetworkEvent`] holds.
pub enum NetworkEventView {
    PeerConnected {
        peer_id: Seq<char>,
        community_id: Seq<char>,
    },
    LanPeerConnected {
        peer_id: Seq<char>,
    },
    PeerDisconnected(Seq<char>),
    MessageReceived {
        topic: Seq<char>,
        source: Option<Seq<char>>,
        data: Seq<u8>,
    },
    NewListenAddr(Seq<char>),
    DmReceived {
        entry: LogEntryView,
        recipient_pk: Seq<u8>,
    },
    ManifestReceived(ManifestResponseView),
    ChannelHistoryReceived {
        community_id: Seq<char>,
        channel_id: Seq<char>,
        entries: Seq<LogEntryView>,
    },
    CommunityJoined(CommunityRefView),
    CommunityJoinFailed {
        community_id: Seq<char>,
        reason: Seq<char>,
    },
    ManifestNotFound {
        community_id: Seq<char>,
        peer_id: Seq<char>,
    },
    SeedPeerConnected {
        community_id: Seq<char>,
        peer_id: Seq<char>,
    },
    SeedPeerDisconnected {
        community_id: Seq<char>,
    },
    DmSendFailed {
        peer_id: Seq<char>,
        message_id: Seq<char>,
    },
    PeerAddrKnown {
        node_pk: Seq<u8>,
        addr: NodeAddr,
    },
    Error(Seq<char>),
}

impl DeepView for NetworkEvent {
    type V = NetworkEventView;

    open spec fn deep_view(&self) -> NetworkEventView {
        match self {
            NetworkEvent::PeerConnected { peer_id, community_id } => {
                NetworkEventView::PeerConnected {
                    peer_id: peer_id@,
                    community_id: community_id@,
                }
            },
            NetworkEvent::LanPeerConnected { peer_id } => NetworkEventView::LanPeerConnected {
                peer_id: peer_id@,
            },
            NetworkEvent::PeerDisconnected(p) => NetworkEventView::PeerDisconnected(p@),
            NetworkEvent::MessageReceived { topic, source, data } => {
                NetworkEventView::MessageReceived {
                    topic: topic@,
                    source: source.deep_view(),
                    data: data@,
                }
            },
            NetworkEvent::NewListenAddr(a) => NetworkEventView::NewListenAddr(a@),
            NetworkEvent::DmReceived { entry, recipient_pk } => NetworkEventView::DmReceived {
                entry: entry.deep_view(),
                recipient_pk: recipient_pk@,
            },
            NetworkEvent::ManifestReceived(m) => {
                NetworkEventView::ManifestReceived(m.deep_view())
            },
            NetworkEvent::ChannelHistoryReceived { community_id, channel_id, entries } => {
                NetworkEventView::ChannelHistoryReceived {
                    community_id: community_id@,
                    channel_id: channel_id@,
                    entries: entries.deep_view(),
                }
            },
            NetworkEvent::CommunityJoined(c) => NetworkEventView::CommunityJoined(c.deep_view()),
            NetworkEvent::CommunityJoinFailed { community_id, reason } => {
                NetworkEventView::CommunityJoinFailed {
                    community_id: community_id@,
                    reason: reason@,
                }
            },
            NetworkEvent::ManifestNotFound { community_id, peer_id } => {
                NetworkEventView::ManifestNotFound {
                    community_id: community_id@,
                    peer_id: peer_id@,
                }
            },
            NetworkEvent::SeedPeerConnected { community_id, peer_id } => {
                NetworkEventView::SeedPeerConnected {
                    community_id: community_id@,
                    peer_id: peer_id@,
                }
            },
            NetworkEvent::SeedPeerDisconnected { community_id } => {
                NetworkEventView::SeedPeerDisconnected { community_id: community_id@ }
            },
            NetworkEvent::DmSendFailed { peer_id, message_id } => {
                NetworkEventView::DmSendFailed { peer_id: peer_id@, message_id: message_id@ }
            },
            NetworkEvent::PeerAddrKnown { node_pk, addr } => NetworkEventView::PeerAddrKnown {
                node_pk: node_pk@,
                addr: *addr,
            },
            NetworkEvent::Error(e) => NetworkEventView::Error(e@),
        }
    }
}

} // verus!
