//! Messages between clients and nodes, and their framing.
//!
//! A frame is the length of its payload as four bytes, the highest first,
//! followed by the payload.

use crate::bytes::append;
use crate::crypto::certificate::HostingCert;
use crate::crypto::dm::DmEnvelope;
use crate::model::channel::ChannelManifest;
use crate::model::community::SignedManifest;
use crate::model::membership::MembershipRecord;
use crate::model::types::ChannelId;
use crate::network::node_addr::NodeAddr;
use crate::state::message_log::LogEntry;
use crate::table::Table;
use vstd::prelude::*;

verus! {

/// A peer of a community, as the routing table knows it.
#[derive(Clone, Copy, Debug)]
pub struct CommunityPeerRecord {
    pub node_pk: [u8; 32],
    pub addr: NodeAddr,
    pub announced_at: u64,
}

/// Requests from a client to a node.
#[allow(inconsistent_fields)]
pub enum ClientRequest {
    /// Prove ownership of a key by a signature over a nonce. The signature is
    /// split in two halves.
    Authenticate {
        pk: [u8; 32],
        sig_r: [u8; 32],
        sig_s: [u8; 32],
        nonce: [u8; 32],
    },
    /// Join a community with a hosting certificate.
    JoinCommunity {
        cert: HostingCert,
        community_id: Option<String>,
        password: Option<String>,
    },
    /// Send an encrypted message to a channel.
    SendMessage {
        community_pk: [u8; 32],
        channel_id: ChannelId,
        nonce: [u8; 24],
        ciphertext: Vec<u8>,
    },
    /// Retrieve the messages of a channel from a sequence number on.
    GetMessages {
        community_pk: [u8; 32],
        channel_id: ChannelId,
        since_seq: u64,
    },
    /// Send an encrypted direct message.
    SendDm {
        recipient_pk: [u8; 32],
        envelope: DmEnvelope,
    },
    /// Retrieve direct messages from a sequence number on.
    GetDms {
        since_seq: u64,
    },
    /// Request the manifest of a community.
    FetchManifest {
        community_pk: [u8; 32],
    },
    /// Ask for the peers closest to a target, and its mailbox if known.
    FindNode {
        target_id: [u8; 32],
    },
    /// Store where the mailbox of a user is.
    StoreDhtRecord {
        user_pk: [u8; 32],
        addr: NodeAddr,
    },
    /// Keep the connection alive.
    Heartbeat,
    /// Relay a message on a topic.
    Gossip {
        topic: String,
        data: Vec<u8>,
    },
    /// Hand a community over to a seed node.
    PushManifest {
        community_pk: [u8; 32],
        manifest: SignedManifest,
        channels: Vec<ChannelManifest>,
        channel_keys: Table<Vec<u8>>,
        members: Vec<MembershipRecord>,
    },
    /// Hand a batch of history over to a seed node.
    PushHistory {
        community_pk: [u8; 32],
        channel_id: ChannelId,
        entries: Vec<LogEntry>,
    },
    /// Store that a node is a peer of a community.
    StoreCommunityPeer {
        community_pk: [u8; 32],
        node_pk: [u8; 32],
        addr: NodeAddr,
    },
    /// Ask for the known peers of a community.
    FindCommunityPeers {
        community_pk: [u8; 32],
    },
    /// Store the key and address of a peer, signed by the peer. The signature
    /// is split in two halves.
    StorePeerInfo {
        peer_id: [u8; 32],
        ed25519_pk: [u8; 32],
        x25519_pk: [u8; 32],
        addr: NodeAddr,
        display_name: String,
        sig_r: [u8; 32],
        sig_s: [u8; 32],
    },
    /// Ask for the key and address of a peer.
    FindPeerInfo {
        peer_id: [u8; 32],
    },
}

/// Responses of a node to a client.
pub enum NodeResponse {
    /// Authentication or joining succeeded.
    Authenticated {
        pk: [u8; 32],
    },
    /// A message was stored.
    MessageAck {
        seq: u64,
    },
    /// Messages of a channel.
    Messages {
        entries: Vec<LogEntry>,
    },
    /// A direct message was stored.
    DmAck {
        seq: u64,
    },
    /// Direct messages.
    Dms {
        entries: Vec<LogEntry>,
    },
    /// The manifest of a community.
    Manifest {
        manifest: SignedManifest,
        channels: Vec<ChannelManifest>,
        channel_keys: Table<Vec<u8>>,
        members: Vec<MembershipRecord>,
    },
    /// The closest known peers to a target, and its mailbox if known.
    ClosestPeers {
        peers: Vec<([u8; 32], NodeAddr)>,
        mailbox: Option<NodeAddr>,
    },
    /// A routing record was stored.
    DhtAck,
    /// A message was relayed.
    GossipAck,
    /// A hand-over was accepted.
    PushAck,
    /// A community peer was stored.
    CommunityPeerAck,
    /// The known peers of a community.
    CommunityPeers(Vec<CommunityPeerRecord>),
    /// The key and address of a peer.
    PeerInfo {
        x25519_pk: [u8; 32],
        addr: NodeAddr,
        display_name: String,
    },
    /// A peer's key and address were stored.
    PeerInfoAck,
    /// The request was refused, with a code as in HTTP.
    Error {
        code: u16,
        msg: String,
    },
}

/// Messages that a node sends unasked.
pub enum NodePush {
    /// A message arrived in a channel.
    NewMessage {
        channel_id: ChannelId,
        entry: LogEntry,
    },
    /// A direct message arrived.
    NewDm {
        entry: LogEntry,
        recipient_pk: [u8; 32],
    },
    /// A peer's presence changed: 0 offline, 1 online, 2 away, 3 busy.
    Presence {
        user_pk: [u8; 32],
        status: u8,
    },
    /// A message on a topic.
    GossipMessage {
        topic: String,
        source: String,
        data: Vec<u8>,
    },
}

/// A length as four bytes, the highest first.
pub open spec fn be_len(n: nat) -> Seq<u8> {
    seq![
        (n / 0x100_0000 % 256) as u8,
        (n / 0x1_0000 % 256) as u8,
        (n / 0x100 % 256) as u8,
        (n % 256) as u8,
    ]
}

/// The number that four bytes stand for.
pub open spec fn len_of(b: Seq<u8>) -> nat {
    (b[0] * 0x100_0000 + b[1] * 0x1_0000 + b[2] * 0x100 + b[3]) as nat
}

/// Frame an encoded value; none when it is longer than four bytes can say.
pub fn encode_frame(payload: &[u8]) -> (r: Option<Vec<u8>>)
    ensures
        match r {
            Some(f) => payload@.len() <= u32::MAX && f@ == be_len(payload@.len()) + payload@,
            None => payload@.len() > u32::MAX,
        },
{
    let n: usize = payload.len();
    if n > 0xffff_ffff {
        return None;
    }
    let mut out: Vec<u8> = Vec::new();
    out.push((n / 0x100_0000 % 256) as u8);
    out.push((n / 0x1_0000 % 256) as u8);
    out.push((n / 0x100 % 256) as u8);
    out.push((n % 256) as u8);
    assert(out@ =~= be_len(payload@.len()));
    append(&mut out, payload);
    Some(out)
}

/// The length that the first four bytes of a frame announce.
pub fn frame_len(head: &[u8; 4]) -> (r: u32)
    ensures
        r == len_of(head@),
{
    head[0] as u32 * 0x100_0000 + head[1] as u32 * 0x1_0000 + head[2] as u32 * 0x100 + head[3] as u32
}

/// A reader learns the length of the payload from its frame, and finds the
/// payload behind it.
pub proof fn frames_read_back(payload: Seq<u8>)
    requires
        payload.len() <= u32::MAX,
    ensures
        ({
            let f = be_len(payload.len()) + payload;
            &&& len_of(f.subrange(0, 4)) == payload.len()
            &&& f.subrange(4, f.len() as int) == payload
        }),
{
    let f = be_len(payload.len()) + payload;
    assert(f.subrange(0, 4) =~= be_len(payload.len()));
    assert(f.subrange(4, f.len() as int) =~= payload);
}

} // verus!
