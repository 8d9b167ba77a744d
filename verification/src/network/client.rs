//! The client's side of the requests: what is sent, and what the answer means.

use crate::bytes::array_at;
use crate::crypto::primitives::{
    ed25519_public, ed25519_public_key, ed25519_sign, ed25519_signature, random_array,
};
use crate::model::channel::ChannelManifest;
use crate::model::community::SignedManifest;
use crate::model::membership::MembershipRecord;
use crate::network::node_addr::NodeAddr;
use crate::network::protocol::{ClientRequest, CommunityPeerRecord, NodeResponse};
use crate::state::message_log::LogEntry;
use crate::table::Table;
use crate::text::{contains_text, decimal, decimal_text, join3, occurs_in};
use vstd::prelude::*;

verus! {

/// Why a request had no result.
#[derive(Debug)]
pub enum ClientError {
    /// The node refused.
    Refused {
        code: u16,
        msg: String,
    },
    /// The node answered something else.
    Unexpected,
}

/// Whether `e` is the refusal that the answer carries, or says that it was
/// something else.
pub open spec fn explains(resp: NodeResponse, e: ClientError) -> bool {
    match resp {
        NodeResponse::Error { code, msg } => e matches ClientError::Refused { code: c, msg: m }
            && c == code && m@ == msg@,
        _ => e is Unexpected,
    }
}

/// The error that an answer without a result stands for.
fn error_of(resp: NodeResponse) -> (e: ClientError)
    ensures
        explains(resp, e),
{
    match resp {
        NodeResponse::Error { code, msg } => ClientError::Refused { code, msg },
        _ => ClientError::Unexpected,
    }
}

/// What a refused request is reported as.
pub open spec fn refusal_text(what: Seq<char>, code: u16, msg: Seq<char>) -> Seq<char> {
    what + " failed (code="@ + decimal(code as nat) + "): "@ + msg
}

/// What an error is reported as.
pub open spec fn error_text(what: Seq<char>, e: ClientError) -> Seq<char> {
    match e {
        ClientError::Refused { code, msg } => refusal_text(what, code, msg@),
        ClientError::Unexpected => "unexpected "@ + what + " response"@,
    }
}

impl ClientError {
    /// What the error of the named request is reported as.
    pub fn report(&self, what: &str) -> (r: String)
        ensures
            r@ == error_text(what@, *self),
    {
        match self {
            ClientError::Refused { code, msg } => {
                let head = join3(what, " failed (code=", decimal_text(*code).as_str());
                join3(head.as_str(), "): ", msg.as_str())
            },
            ClientError::Unexpected => join3("unexpected ", what, " response"),
        }
    }
}

/// Whether a signature is split in two halves.
pub open spec fn halves(sig: Seq<u8>, r: Seq<u8>, s: Seq<u8>) -> bool {
    r == sig.subrange(0, 32) && s == sig.subrange(32, 64)
}

/// The request that proves ownership of a key with the given nonce.
pub fn authenticate_with(signing_key: &[u8; 32], nonce: [u8; 32]) -> (r: ClientRequest)
    ensures
        r matches ClientRequest::Authenticate { pk, sig_r, sig_s, nonce: n } && pk@
            == ed25519_public_key(signing_key@) && n == nonce && halves(
            ed25519_signature(signing_key@, nonce@),
            sig_r@,
            sig_s@,
        ),
{
    let sig = ed25519_sign(signing_key, nonce.as_slice());
    ClientRequest::Authenticate {
        pk: ed25519_public(signing_key),
        sig_r: array_at::<32>(sig.as_slice(), 0),
        sig_s: array_at::<32>(sig.as_slice(), 32),
        nonce,
    }
}

/// The request that proves ownership of a key with a random nonce.
pub fn authenticate(signing_key: &[u8; 32]) -> (r: ClientRequest)
    ensures
        r matches ClientRequest::Authenticate { pk, sig_r, sig_s, nonce } && pk@
            == ed25519_public_key(signing_key@) && halves(
            ed25519_signature(signing_key@, nonce@),
            sig_r@,
            sig_s@,
        ),
{
    let nonce = random_array::<32>();
    authenticate_with(signing_key, nonce)
}

/// The bytes that the announcement of a peer signs: its id, its X25519 key and
/// its encoded address, so that neither can be swapped.
pub open spec fn peer_info_message(peer_id: Seq<u8>, x25519_pk: Seq<u8>, addr: Seq<u8>) -> Seq<u8> {
    peer_id + x25519_pk + addr
}

/// The request that announces a peer. `addr_bytes` is the encoded address.
pub fn announce_peer(
    signing_key: &[u8; 32],
    peer_id: [u8; 32],
    x25519_pk: [u8; 32],
    addr: NodeAddr,
    addr_bytes: &[u8],
    display_name: String,
) -> (r: ClientRequest)
    ensures
        r matches ClientRequest::StorePeerInfo {
            peer_id: p,
            ed25519_pk,
            x25519_pk: x,
            addr: a,
            display_name: n,
            sig_r,
            sig_s,
        } && p == peer_id && x == x25519_pk && a == addr && n@ == display_name@ && ed25519_pk@
            == ed25519_public_key(signing_key@) && halves(
            ed25519_signature(
                signing_key@,
                peer_info_message(peer_id@, x25519_pk@, addr_bytes@),
            ),
            sig_r@,
            sig_s@,
        ),
{
    let mut msg = crate::bytes::concat(peer_id.as_slice(), x25519_pk.as_slice());
    crate::bytes::append(&mut msg, addr_bytes);
    let sig = ed25519_sign(signing_key, msg.as_slice());
    ClientRequest::StorePeerInfo {
        peer_id,
        ed25519_pk: ed25519_public(signing_key),
        x25519_pk,
        addr,
        display_name,
        sig_r: array_at::<32>(sig.as_slice(), 0),
        sig_s: array_at::<32>(sig.as_slice(), 32),
    }
}

/// The answer to an authentication: the node's public key.
pub fn authenticated(resp: NodeResponse) -> (r: Result<[u8; 32], ClientError>)
    ensures
        match r {
            Ok(pk) => resp matches NodeResponse::Authenticated { pk: p } && p == pk,
            Err(e) => !(resp is Authenticated) && explains(resp, e),
        },
{
    match resp {
        NodeResponse::Authenticated { pk } => Ok(pk),
        other => Err(error_of(other)),
    }
}

/// The answer to a request to join: a node confirms as for authentication.
pub fn join_community(resp: NodeResponse) -> (r: Result<(), ClientError>)
    ensures
        match r {
            Ok(_) => resp is Authenticated,
            Err(e) => !(resp is Authenticated) && explains(resp, e),
        },
{
    match resp {
        NodeResponse::Authenticated { .. } => Ok(()),
        other => Err(error_of(other)),
    }
}

/// A community as a node served it.
pub struct ServedManifest {
    pub manifest: SignedManifest,
    pub channels: Vec<ChannelManifest>,
    pub channel_keys: Table<Vec<u8>>,
    pub members: Vec<MembershipRecord>,
}

/// The answer to a request for a manifest.
pub fn fetch_manifest(resp: NodeResponse) -> (r: Result<ServedManifest, ClientError>)
    ensures
        match r {
            Ok(m) => resp matches NodeResponse::Manifest {
                manifest,
                channels,
                channel_keys,
                members,
            } && m.manifest == manifest && m.channels == channels && m.channel_keys == channel_keys
                && m.members == members,
            Err(e) => !(resp is Manifest) && explains(resp, e),
        },
{
    match resp {
        NodeResponse::Manifest { manifest, channels, channel_keys, members } => Ok(
            ServedManifest { manifest, channels, channel_keys, members },
        ),
        other => Err(error_of(other)),
    }
}

/// The answer to a message: its sequence number.
pub fn send_message(resp: NodeResponse) -> (r: Result<u64, ClientError>)
    ensures
        match r {
            Ok(n) => resp matches NodeResponse::MessageAck { seq } && seq == n,
            Err(e) => !(resp is MessageAck) && explains(resp, e),
        },
{
    match resp {
        NodeResponse::MessageAck { seq } => Ok(seq),
        other => Err(error_of(other)),
    }
}

/// The answer to a request for messages.
pub fn get_messages(resp: NodeResponse) -> (r: Result<Vec<LogEntry>, ClientError>)
    ensures
        match r {
            Ok(v) => resp matches NodeResponse::Messages { entries } && entries == v,
            Err(e) => !(resp is Messages) && explains(resp, e),
        },
{
    match resp {
        NodeResponse::Messages { entries } => Ok(entries),
        other => Err(error_of(other)),
    }
}

/// The answer to a direct message: its sequence number in the mailbox.
pub fn send_dm(resp: NodeResponse) -> (r: Result<u64, ClientError>)
    ensures
        match r {
            Ok(n) => resp matches NodeResponse::DmAck { seq } && seq == n,
            Err(e) => !(resp is DmAck) && explains(resp, e),
        },
{
    match resp {
        NodeResponse::DmAck { seq } => Ok(seq),
        other => Err(error_of(other)),
    }
}

/// The answer to a request for direct messages.
pub fn get_dms(resp: NodeResponse) -> (r: Result<Vec<LogEntry>, ClientError>)
    ensures
        match r {
            Ok(v) => resp matches NodeResponse::Dms { entries } && entries == v,
            Err(e) => !(resp is Dms) && explains(resp, e),
        },
{
    match resp {
        NodeResponse::Dms { entries } => Ok(entries),
        other => Err(error_of(other)),
    }
}

/// What a node knows about a target.
pub struct NodeReply {
    pub peers: Vec<([u8; 32], NodeAddr)>,
    pub mailbox: Option<NodeAddr>,
}

/// The answer to a request for the closest peers.
pub fn find_node(resp: NodeResponse) -> (r: Result<NodeReply, ClientError>)
    ensures
        match r {
            Ok(n) => resp matches NodeResponse::ClosestPeers { peers, mailbox } && n.peers == peers
                && n.mailbox == mailbox,
            Err(e) => !(resp is ClosestPeers) && explains(resp, e),
        },
{
    match resp {
        NodeResponse::ClosestPeers { peers, mailbox } => Ok(NodeReply { peers, mailbox }),
        other => Err(error_of(other)),
    }
}

/// The answer to a routing record.
pub fn store_dht_record(resp: NodeResponse) -> (r: Result<(), ClientError>)
    ensures
        match r {
            Ok(_) => resp is DhtAck,
            Err(e) => !(resp is DhtAck) && explains(resp, e),
        },
{
    match resp {
        NodeResponse::DhtAck => Ok(()),
        other => Err(error_of(other)),
    }
}

/// The answer to a community peer record.
pub fn store_community_peer(resp: NodeResponse) -> (r: Result<(), ClientError>)
    ensures
        match r {
            Ok(_) => resp is CommunityPeerAck,
            Err(e) => !(resp is CommunityPeerAck) && explains(resp, e),
        },
{
    match resp {
        NodeResponse::CommunityPeerAck => Ok(()),
        other => Err(error_of(other)),
    }
}

/// The answer to a request for the peers of a community.
pub fn find_community_peers(resp: NodeResponse) -> (r: Result<
    Vec<CommunityPeerRecord>,
    ClientError,
>)
    ensures
        match r {
            Ok(v) => resp matches NodeResponse::CommunityPeers(records) && records == v,
            Err(e) => !(resp is CommunityPeers) && explains(resp, e),
        },
{
    match resp {
        NodeResponse::CommunityPeers(records) => Ok(records),
        other => Err(error_of(other)),
    }
}

/// The answer to an announcement of a peer.
pub fn store_peer_info(resp: NodeResponse) -> (r: Result<(), ClientError>)
    ensures
        match r {
            Ok(_) => resp is PeerInfoAck,
            Err(e) => !(resp is PeerInfoAck) && explains(resp, e),
        },
{
    match resp {
        NodeResponse::PeerInfoAck => Ok(()),
        other => Err(error_of(other)),
    }
}

/// The key and address of a peer, with the time at which they were learnt.
#[derive(Debug)]
pub struct PeerInfoRecord {
    pub x25519_pk: [u8; 32],
    pub addr: NodeAddr,
    pub announced_at: u64,
    pub display_name: String,
}

/// The answer, at time `now`, to a request for a peer's key and address. A
/// node that has no record of the peer says so with code 404.
pub fn find_peer_info(resp: NodeResponse, now: u64) -> (r: Result<
    Option<PeerInfoRecord>,
    ClientError,
>)
    ensures
        match r {
            Ok(Some(p)) => resp matches NodeResponse::PeerInfo { x25519_pk, addr, display_name }
                && p.x25519_pk == x25519_pk && p.addr == addr && p.display_name@ == display_name@
                && p.announced_at == now,
            Ok(None) => resp matches NodeResponse::Error { code, .. } && code == 404,
            Err(e) => !(resp is PeerInfo) && !(resp matches NodeResponse::Error { code, .. }
                && code == 404) && explains(resp, e),
        },
{
    match resp {
        NodeResponse::PeerInfo { x25519_pk, addr, display_name } => Ok(
            Some(PeerInfoRecord { x25519_pk, addr, announced_at: now, display_name }),
        ),
        NodeResponse::Error { code, msg } => {
            if code == 404 {
                Ok(None)
            } else {
                Err(ClientError::Refused { code, msg })
            }
        },
        other => Err(error_of(other)),
    }
}

/// The answer to a relayed message.
pub fn send_gossip(resp: NodeResponse) -> (r: Result<(), ClientError>)
    ensures
        match r {
            Ok(_) => resp is GossipAck,
            Err(e) => !(resp is GossipAck) && explains(resp, e),
        },
{
    match resp {
        NodeResponse::GossipAck => Ok(()),
        other => Err(error_of(other)),
    }
}

/// The answer to a heartbeat: anything but a refusal will do.
pub fn heartbeat(resp: NodeResponse) -> (r: Result<(), ClientError>)
    ensures
        match r {
            Ok(_) => !(resp is Error),
            Err(e) => resp is Error && explains(resp, e),
        },
{
    match resp {
        NodeResponse::Error { code, msg } => Err(ClientError::Refused { code, msg }),
        _ => Ok(()),
    }
}

/// The answer to a hand-over of a community or of history.
pub fn pushed(resp: NodeResponse) -> (r: Result<(), ClientError>)
    ensures
        match r {
            Ok(_) => resp is PushAck,
            Err(e) => !(resp is PushAck) && explains(resp, e),
        },
{
    match resp {
        NodeResponse::PushAck => Ok(()),
        other => Err(error_of(other)),
    }
}

/// Whether an error says that the node does not have a manifest.
pub open spec fn says_not_found(error: Seq<char>) -> bool {
    occurs_in("404"@, error) || occurs_in("not found"@, error)
}

/// Whether an error says that the node does not have a manifest.
pub fn is_not_found(error: &str) -> (r: bool)
    ensures
        r == says_not_found(error@),
{
    contains_text(error, "404") || contains_text(error, "not found")
}

/// What to do after a join that precedes a history request failed.
#[derive(Clone, Copy, Debug, PartialEq, Eq, Structural)]
pub enum JoinRetry {
    /// Try again after a second.
    Again,
    /// Give up.
    GiveUp,
}

/// How often a join that precedes a history request is tried.
pub const JOIN_ATTEMPTS: u32 = 15;

/// What to do after such a join failed: a node that is not ready yet answers
/// with code 403; one that wants a password is not asked again.
pub open spec fn join_retry(error: Seq<char>, attempt: u32) -> JoinRetry {
    if occurs_in("invalid node join password"@, error) {
        JoinRetry::GiveUp
    } else if occurs_in("403"@, error) && attempt < JOIN_ATTEMPTS {
        JoinRetry::Again
    } else {
        JoinRetry::GiveUp
    }
}

/// What to do after a join that precedes a history request failed.
pub fn after_failed_join(error: &str, attempt: u32) -> (r: JoinRetry)
    ensures
        r == join_retry(error@, attempt),
{
    if contains_text(error, "invalid node join password") {
        JoinRetry::GiveUp
    } else if contains_text(error, "403") && attempt < JOIN_ATTEMPTS {
        JoinRetry::Again
    } else {
        JoinRetry::GiveUp
    }
}

/// A refusal with code 404 is understood as a missing manifest.
pub proof fn refused_manifests_are_not_found(msg: Seq<char>)
    ensures
        says_not_found(refusal_text("fetch_manifest"@, 404, msg)),
{
    let t = refusal_text("fetch_manifest"@, 404, msg);
    let head = "fetch_manifest"@ + " failed (code="@;
    reveal_strlit("404");
    reveal_with_fuel(decimal, 4);
    assert(decimal(404) =~= "404"@);
    assert(t.subrange(head.len() as int, head.len() as int + "404"@.len()) =~= "404"@);
}

} // verus!
