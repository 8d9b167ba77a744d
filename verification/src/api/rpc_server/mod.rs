//! Request handlers.

pub mod channel;
pub mod community;
pub mod dm;
pub mod identity;
pub mod member;
pub mod message;
pub mod node;

use crate::api::{AppState, AppStateView};
use crate::bytes::same_array;
use crate::crypto::primitives::ed25519_public_key;
use vstd::prelude::*;

verus! {

/// Why a request was refused.
#[derive(Clone, Copy, Debug, PartialEq, Eq, Structural)]
pub enum RpcError {
    CommunityNotFound,
    ChannelNotFound,
    MessageNotFound,
    MemberNotFound,
    SeedUnavailable,
    NameLength,
    DescriptionLength,
    DisplayNameLength,
    PassphraseLength,
    WrongPassphrase,
    EmptyBody,
    BodyTooLong,
    InvalidCommunityId,
    InvalidChannelId,
    InvalidMessageId,
    NotAMember,
    AnnouncementOnly,
    NotTheAuthorOfEdit,
    NotTheAuthorOfDelete,
    ModeratorRequired,
    AdminRequired,
    CreatorRole,
    GossipClientNeedsSeed,
    SeedFingerprintRequired,
    NewSeedFingerprintRequired,
    InviteEncoding,
    InviteWithoutName,
    InviteCommunityId,
    InviteSignature,
    InviteFingerprintMalformed,
    InviteFingerprintLength,
    AlreadyMember,
    Banned,
    InviteByAdminOnly,
    UpdateByAdminOnly,
    DeleteByAdminOnly,
    CreatorOnly,
    NoSeedNodes,
    BadSeedAddress,
    CertificateFailed,
}

impl RpcError {
    /// The JSON-RPC error code.
    pub open spec fn code_spec(self) -> int {
        match self {
            RpcError::CommunityNotFound
            | RpcError::ChannelNotFound
            | RpcError::MessageNotFound
            | RpcError::MemberNotFound => -32001,
            RpcError::SeedUnavailable => -32004,
            RpcError::NotAMember
            | RpcError::AnnouncementOnly
            | RpcError::NotTheAuthorOfEdit
            | RpcError::NotTheAuthorOfDelete
            | RpcError::ModeratorRequired
            | RpcError::AdminRequired
            | RpcError::CreatorRole
            | RpcError::GossipClientNeedsSeed
            | RpcError::Banned
            | RpcError::InviteByAdminOnly
            | RpcError::UpdateByAdminOnly
            | RpcError::DeleteByAdminOnly
            | RpcError::CreatorOnly => -32003,
            RpcError::BodyTooLong | RpcError::NoSeedNodes | RpcError::CertificateFailed => -32603,
            _ => -32602,
        }
    }

    /// The JSON-RPC error code.
    pub fn code(&self) -> (r: i32)
        ensures
            r == self.code_spec(),
    {
        match self {
            RpcError::CommunityNotFound
            | RpcError::ChannelNotFound
            | RpcError::MessageNotFound
            | RpcError::MemberNotFound => -32001,
            RpcError::SeedUnavailable => -32004,
            RpcError::NotAMember
            | RpcError::AnnouncementOnly
            | RpcError::NotTheAuthorOfEdit
            | RpcError::NotTheAuthorOfDelete
            | RpcError::ModeratorRequired
            | RpcError::AdminRequired
            | RpcError::CreatorRole
            | RpcError::GossipClientNeedsSeed
            | RpcError::Banned
            | RpcError::InviteByAdminOnly
            | RpcError::UpdateByAdminOnly
            | RpcError::DeleteByAdminOnly
            | RpcError::CreatorOnly => -32003,
            RpcError::BodyTooLong | RpcError::NoSeedNodes | RpcError::CertificateFailed => -32603,
            _ => -32602,
        }
    }

    /// The text that goes with the code.
    pub fn message(&self) -> (r: &'static str)
        ensures
            r@ == self.message_spec(),
    {
        match self {
            RpcError::CommunityNotFound => "community not found",
            RpcError::ChannelNotFound => "channel not found",
            RpcError::MessageNotFound => "message not found",
            RpcError::MemberNotFound => "member not found",
            RpcError::SeedUnavailable => "seed peer is not connected — this community is currently unreachable",
            RpcError::NameLength => "name must be 1–100 characters",
            RpcError::DescriptionLength => "description must be ≤500 characters",
            RpcError::DisplayNameLength => "display_name must be 1–64 characters",
            RpcError::PassphraseLength => "new passphrase must be at least 8 characters",
            RpcError::WrongPassphrase => "incorrect current passphrase",
            RpcError::EmptyBody => "body must not be empty",
            RpcError::BodyTooLong => "encrypt message: message too long",
            RpcError::InvalidCommunityId => "invalid community_id",
            RpcError::InvalidChannelId => "invalid channel_id",
            RpcError::InvalidMessageId => "invalid message_id",
            RpcError::NotAMember => "not a member of this community",
            RpcError::AnnouncementOnly => "only admins and moderators can post in announcement channels",
            RpcError::NotTheAuthorOfEdit => "only the author can edit a message",
            RpcError::NotTheAuthorOfDelete => "only the author can delete a message",
            RpcError::ModeratorRequired => "insufficient permissions: moderator or admin required",
            RpcError::AdminRequired => "insufficient permissions: admin required",
            RpcError::CreatorRole => "cannot change the role of the community creator",
            RpcError::GossipClientNeedsSeed => "GossipClient mode — add at least one external seed node address",
            RpcError::SeedFingerprintRequired => "seed_fingerprint_hex is required when seed_nodes is non-empty (64-char hex SHA-256 of the seed node's TLS certificate)",
            RpcError::NewSeedFingerprintRequired => "seed_fingerprint_hex is required when changing seed_nodes (64-char hex SHA-256 of the new seed node's TLS certificate)",
            RpcError::InviteEncoding => "invalid invite: bad base64url encoding",
            RpcError::InviteWithoutName => "invalid invite: missing community name",
            RpcError::InviteCommunityId => "invalid invite: bad community_id",
            RpcError::InviteSignature => "invalid invite: admin signature verification failed",
            RpcError::InviteFingerprintMalformed => "invalid invite: cert_fingerprint_hex is present but malformed",
            RpcError::InviteFingerprintLength => "invalid invite: cert_fingerprint_hex must be exactly 64 hex characters",
            RpcError::AlreadyMember => "already a member of this community",
            RpcError::Banned => "you have been banned from this community",
            RpcError::InviteByAdminOnly => "only community admins can generate signed invite links",
            RpcError::UpdateByAdminOnly => "only admins may update the community manifest",
            RpcError::DeleteByAdminOnly => "only admins can delete a community",
            RpcError::CreatorOnly => "only the creator of the community can do this",
            RpcError::NoSeedNodes => "community has no seed nodes configured",
            RpcError::BadSeedAddress => "invalid seed node address",
            RpcError::CertificateFailed => "failed to generate TLS cert for fingerprint",
        }
    }

    /// The text that goes with the code.
    pub open spec fn message_spec(self) -> Seq<char> {
        match self {
            RpcError::CommunityNotFound => "community not found"@,
            RpcError::ChannelNotFound => "channel not found"@,
            RpcError::MessageNotFound => "message not found"@,
            RpcError::MemberNotFound => "member not found"@,
            RpcError::SeedUnavailable => "seed peer is not connected — this community is currently unreachable"@,
            RpcError::NameLength => "name must be 1–100 characters"@,
            RpcError::DescriptionLength => "description must be ≤500 characters"@,
            RpcError::DisplayNameLength => "display_name must be 1–64 characters"@,
            RpcError::PassphraseLength => "new passphrase must be at least 8 characters"@,
            RpcError::WrongPassphrase => "incorrect current passphrase"@,
            RpcError::EmptyBody => "body must not be empty"@,
            RpcError::BodyTooLong => "encrypt message: message too long"@,
            RpcError::InvalidCommunityId => "invalid community_id"@,
            RpcError::InvalidChannelId => "invalid channel_id"@,
            RpcError::InvalidMessageId => "invalid message_id"@,
            RpcError::NotAMember => "not a member of this community"@,
            RpcError::AnnouncementOnly => "only admins and moderators can post in announcement channels"@,
            RpcError::NotTheAuthorOfEdit => "only the author can edit a message"@,
            RpcError::NotTheAuthorOfDelete => "only the author can delete a message"@,
            RpcError::ModeratorRequired => "insufficient permissions: moderator or admin required"@,
            RpcError::AdminRequired => "insufficient permissions: admin required"@,
            RpcError::CreatorRole => "cannot change the role of the community creator"@,
            RpcError::GossipClientNeedsSeed => "GossipClient mode — add at least one external seed node address"@,
            RpcError::SeedFingerprintRequired => "seed_fingerprint_hex is required when seed_nodes is non-empty (64-char hex SHA-256 of the seed node's TLS certificate)"@,
            RpcError::NewSeedFingerprintRequired => "seed_fingerprint_hex is required when changing seed_nodes (64-char hex SHA-256 of the new seed node's TLS certificate)"@,
            RpcError::InviteEncoding => "invalid invite: bad base64url encoding"@,
            RpcError::InviteWithoutName => "invalid invite: missing community name"@,
            RpcError::InviteCommunityId => "invalid invite: bad community_id"@,
            RpcError::InviteSignature => "invalid invite: admin signature verification failed"@,
            RpcError::InviteFingerprintMalformed => "invalid invite: cert_fingerprint_hex is present but malformed"@,
            RpcError::InviteFingerprintLength => "invalid invite: cert_fingerprint_hex must be exactly 64 hex characters"@,
            RpcError::AlreadyMember => "already a member of this community"@,
            RpcError::Banned => "you have been banned from this community"@,
            RpcError::InviteByAdminOnly => "only community admins can generate signed invite links"@,
            RpcError::UpdateByAdminOnly => "only admins may update the community manifest"@,
            RpcError::DeleteByAdminOnly => "only admins can delete a community"@,
            RpcError::CreatorOnly => "only the creator of the community can do this"@,
            RpcError::NoSeedNodes => "community has no seed nodes configured"@,
            RpcError::BadSeedAddress => "invalid seed node address"@,
            RpcError::CertificateFailed => "failed to generate TLS cert for fingerprint"@,
        }
    }
}

/// Whether a request on a community may go ahead: the community is known and
/// reachable.
pub open spec fn seed_check(s: AppStateView, community_id: Seq<char>) -> Result<(), RpcError> {
    if !s.communities.contains_key(community_id) {
        Err(RpcError::CommunityNotFound)
    } else if s.is_reachable(community_id, s.communities[community_id].manifest.seed_nodes) {
        Ok(())
    } else {
        Err(RpcError::SeedUnavailable)
    }
}

/// Whether a community is known here but was created by another node: its
/// manifests are signed with a key that the local node does not have.
pub open spec fn made_elsewhere(s: AppStateView, community_id: Seq<char>) -> bool {
    s.communities.contains_key(community_id) && s.communities[community_id].manifest.public_key
        != ed25519_public_key(s.local.key)
}

impl AppState {
    /// Whether a community is known here but was created by another node.
    pub fn is_made_elsewhere(&self, community_id: &str) -> (r: bool)
        ensures
            r == made_elsewhere(self.deep_view(), community_id@),
    {
        match self.communities.get(community_id) {
            Some(signed) => !same_array(&signed.manifest.public_key, &self.local.public_key()),
            None => false,
        }
    }

    /// Refuse when the community is unknown, or when it has seed nodes, this
    /// node is none of them and no seed peer is connected.
    pub fn require_seed_connected(&self, community_id: &str) -> (r: Result<(), RpcError>)
        ensures
            r == seed_check(self.deep_view(), community_id@),
    {
        match self.communities.get(community_id) {
            Some(signed) => {
                if self.reachable(community_id, &signed.manifest.seed_nodes) {
                    Ok(())
                } else {
                    Err(RpcError::SeedUnavailable)
                }
            },
            None => Err(RpcError::CommunityNotFound),
        }
    }
}

} // verus!
