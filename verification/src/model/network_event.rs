//! Events that nodes gossip to each other.

use crate::bytes::{append, le64, le64_bytes, to_array, to_vec};
use crate::crypto::primitives::{ed25519_accepts, ed25519_sign, ed25519_signature, ed25519_verify};
use crate::model::channel::{ChannelManifest, ChannelManifestView};
use crate::model::community::{SignedManifest, SignedManifestView};
use crate::model::membership::{index_of_role, role_index, MembershipRecord, MembershipRecordView, Role};
use crate::model::message::{RawMessage, RawMessageView};
use crate::model::types::{ulid_bytes, ChannelId, CommunityId, MessageId, UserId};
use crate::time::Timestamp;
use crate::wire::encode_index;
use vstd::prelude::*;
use vstd::string::*;
use vstd::utf8::*;

verus! {

/// An in-place message edit.
#[derive(Debug)]
pub struct EditMessagePayload {
    pub message_id: MessageId,
    pub channel_id: ChannelId,
    pub author_id: UserId,
    pub new_ciphertext: Vec<u8>,
    pub new_nonce: [u8; 24],
    /// Signature over `message_id || channel_id || new_ciphertext`.
    pub signature: Vec<u8>,
    pub timestamp: Timestamp,
}

/// A message deletion.
#[derive(Debug)]
pub struct DeleteMessagePayload {
    pub message_id: MessageId,
    pub channel_id: ChannelId,
    pub author_id: UserId,
    /// Signature over `message_id || channel_id || "delete"`.
    pub signature: Vec<u8>,
    pub timestamp: Timestamp,
}

/// A member departing a community.
#[derive(Debug)]
pub struct MemberLeftPayload {
    pub user_id: UserId,
    pub community_id: CommunityId,
    pub timestamp: Timestamp,
    /// Signature over `user_id || community_id || "leave"`.
    pub signature: Vec<u8>,
}

/// A channel key rotation.
#[derive(Debug)]
pub struct ChannelKeyRotationPayload {
    pub new_manifest: ChannelManifest,
    /// Signature over the encoded `new_manifest`.
    pub signature: Vec<u8>,
}

/// A change of a member's role.
#[derive(Debug)]
pub struct MemberRoleUpdatedPayload {
    pub user_id: UserId,
    pub community_id: CommunityId,
    pub new_role: Role,
    pub timestamp: Timestamp,
    /// Signature over `user_id || community_id || new_role || "role_update"`
    /// by the acting admin.
    pub signature: Vec<u8>,
}

/// A new or updated channel manifest.
#[derive(Debug)]
pub struct ChannelManifestBroadcastPayload {
    pub manifest: ChannelManifest,
}

/// A presence status.
#[derive(Debug)]
pub struct PresenceHeartbeatPayload {
    pub user_id: UserId,
    pub status: String,
    pub timestamp: Timestamp,
    /// Signature over `user_id || status || timestamp_ms_le`.
    pub signature: Vec<u8>,
}

/// All events that travel between nodes.
#[derive(Debug)]
pub enum NetworkEvent {
    NewMessage(RawMessage),
    EditMessage(EditMessagePayload),
    DeleteMessage(DeleteMessagePayload),
    MemberJoined(MembershipRecord),
    MemberLeft(MemberLeftPayload),
    ChannelKeyRotation(ChannelKeyRotationPayload),
    ManifestUpdate(SignedManifest),
    PresenceHeartbeat(PresenceHeartbeatPayload),
    ChannelManifestBroadcast(ChannelManifestBroadcastPayload),
    MemberRoleUpdated(MemberRoleUpdatedPayload),
}

/// What a [`NetworkEvent`] holds.
pub enum NetworkEventView {
    NewMessage(RawMessageView),
    EditMessage {
        message_id: MessageId,
        channel_id: ChannelId,
        author_id: UserId,
        new_ciphertext: Seq<u8>,
        new_nonce: Seq<u8>,
        signature: Seq<u8>,
        timestamp: Timestamp,
    },
    DeleteMessage {
        message_id: MessageId,
        channel_id: ChannelId,
        author_id: UserId,
        signature: Seq<u8>,
        timestamp: Timestamp,
    },
    MemberJoined(MembershipRecordView),
    MemberLeft {
        user_id: UserId,
        community_id: CommunityId,
        timestamp: Timestamp,
        signature: Seq<u8>,
    },
    ChannelKeyRotation { new_manifest: ChannelManifestView, signature: Seq<u8> },
    ManifestUpdate(SignedManifestView),
    PresenceHeartbeat {
        user_id: UserId,
        status: Seq<char>,
        timestamp: Timestamp,
        signature: Seq<u8>,
    },
    ChannelManifestBroadcast(ChannelManifestView),
    MemberRoleUpdated {
        user_id: UserId,
        community_id: CommunityId,
        new_role: Role,
        timestamp: Timestamp,
        signature: Seq<u8>,
    },
}

impl DeepView for NetworkEvent {
    type V = NetworkEventView;

    open spec fn deep_view(&self) -> NetworkEventView {
        match self {
            NetworkEvent::NewMessage(m) => NetworkEventView::NewMessage(m.deep_view()),
            NetworkEvent::EditMessage(p) => NetworkEventView::EditMessage {
                message_id: p.message_id,
                channel_id: p.channel_id,
                author_id: p.author_id,
                new_ciphertext: p.new_ciphertext@,
                new_nonce: p.new_nonce@,
                signature: p.signature@,
                timestamp: p.timestamp,
            },
            NetworkEvent::DeleteMessage(p) => NetworkEventView::DeleteMessage {
                message_id: p.message_id,
                channel_id: p.channel_id,
                author_id: p.author_id,
                signature: p.signature@,
                timestamp: p.timestamp,
            },
            NetworkEvent::MemberJoined(r) => NetworkEventView::MemberJoined(r.deep_view()),
            NetworkEvent::MemberLeft(p) => NetworkEventView::MemberLeft {
                user_id: p.user_id,
                community_id: p.community_id,
                timestamp: p.timestamp,
                signature: p.signature@,
            },
            NetworkEvent::ChannelKeyRotation(p) => NetworkEventView::ChannelKeyRotation {
                new_manifest: p.new_manifest.deep_view(),
                signature: p.signature@,
            },
            NetworkEvent::ManifestUpdate(m) => NetworkEventView::ManifestUpdate(m.deep_view()),
            NetworkEvent::PresenceHeartbeat(p) => NetworkEventView::PresenceHeartbeat {
                user_id: p.user_id,
                status: p.status@,
                timestamp: p.timestamp,
                signature: p.signature@,
            },
            NetworkEvent::ChannelManifestBroadcast(p) => {
                NetworkEventView::ChannelManifestBroadcast(p.manifest.deep_view())
            },
            NetworkEvent::MemberRoleUpdated(p) => NetworkEventView::MemberRoleUpdated {
                user_id: p.user_id,
                community_id: p.community_id,
                new_role: p.new_role,
                timestamp: p.timestamp,
                signature: p.signature@,
            },
        }
    }
}

/// Whether a signature of any length verifies: it must have 64 bytes.
pub open spec fn accepts(pk: Seq<u8>, msg: Seq<u8>, sig: Seq<u8>) -> bool {
    sig.len() == 64 && ed25519_accepts(pk, msg, sig)
}

/// Verify a signature given as a byte string of any length.
pub fn verify_bytes(pk: &[u8; 32], msg: &[u8], sig: &[u8]) -> (r: bool)
    ensures
        r == accepts(pk@, msg@, sig@),
{
    match to_array::<64>(sig) {
        Some(s) => ed25519_verify(pk, msg, &s),
        None => false,
    }
}

/// The signature bytes of `msg` under `sk`.
pub fn sign_bytes(sk: &[u8; 32], msg: &[u8]) -> (r: Vec<u8>)
    ensures
        r@ == ed25519_signature(sk@, msg@),
        accepts(crate::crypto::primitives::ed25519_public_key(sk@), msg@, r@),
{
    to_vec(ed25519_sign(sk, msg).as_slice())
}

/// What an edit signs.
pub open spec fn edit_message(m: MessageId, c: ChannelId, ciphertext: Seq<u8>) -> Seq<u8> {
    ulid_bytes(m.0) + ulid_bytes(c.0) + ciphertext
}

/// What a deletion signs.
pub open spec fn delete_message(m: MessageId, c: ChannelId) -> Seq<u8> {
    ulid_bytes(m.0) + ulid_bytes(c.0) + encode_utf8("delete"@)
}

/// What a departure signs.
pub open spec fn leave_message(u: UserId, c: CommunityId) -> Seq<u8> {
    u.0@ + ulid_bytes(c.0) + encode_utf8("leave"@)
}

/// What a role change signs.
pub open spec fn role_message(u: UserId, c: CommunityId, role: Role) -> Seq<u8> {
    u.0@ + ulid_bytes(c.0) + seq![role_index(role) as u8] + encode_utf8("role_update"@)
}

/// What a heartbeat signs.
pub open spec fn presence_message(u: UserId, status: Seq<char>, at: Timestamp) -> Seq<u8> {
    u.0@ + encode_utf8(status) + le64(at.millis_spec() as u64)
}

/// What an edit signs.
pub fn edit_bytes(m: &MessageId, c: &ChannelId, ciphertext: &[u8]) -> (r: Vec<u8>)
    ensures
        r@ == edit_message(*m, *c, ciphertext@),
{
    let mut out = to_vec(m.to_bytes().as_slice());
    append(&mut out, c.to_bytes().as_slice());
    append(&mut out, ciphertext);
    out
}

/// What a deletion signs.
pub fn delete_bytes(m: &MessageId, c: &ChannelId) -> (r: Vec<u8>)
    ensures
        r@ == delete_message(*m, *c),
{
    let mut out = to_vec(m.to_bytes().as_slice());
    append(&mut out, c.to_bytes().as_slice());
    append(&mut out, "delete".as_bytes());
    out
}

/// What a departure signs.
pub fn leave_bytes(u: &UserId, c: &CommunityId) -> (r: Vec<u8>)
    ensures
        r@ == leave_message(*u, *c),
{
    let mut out = to_vec(u.0.as_slice());
    append(&mut out, c.to_bytes().as_slice());
    append(&mut out, "leave".as_bytes());
    out
}

/// What a role change signs.
pub fn role_bytes(u: &UserId, c: &CommunityId, role: Role) -> (r: Vec<u8>)
    ensures
        r@ == role_message(*u, *c, role),
{
    let mut out = to_vec(u.0.as_slice());
    append(&mut out, c.to_bytes().as_slice());
    append(&mut out, encode_index(index_of_role(role)).as_slice());
    append(&mut out, "role_update".as_bytes());
    out
}

/// What a heartbeat signs.
pub fn presence_bytes(u: &UserId, status: &str, at: &Timestamp) -> (r: Vec<u8>)
    ensures
        r@ == presence_message(*u, status@, *at),
{
    let mut out = to_vec(u.0.as_slice());
    append(&mut out, status.as_bytes());
    append(&mut out, le64_bytes(at.millis() as u64).as_slice());
    out
}

} // verus!
