//! Request, response and record types of the node's API.

use crate::config::NodeMode;
use crate::lists::{copy_text_opt, copy_texts, vec_deep_view, views, views_push};
use crate::time::Timestamp;
use vstd::prelude::*;

verus! {

/// Presence of a user.
#[derive(Clone, Copy, Debug, PartialEq, Eq, Structural)]
pub enum UserStatus {
    Online,
    Idle,
    DoNotDisturb,
    Invisible,
    Offline,
}

impl DeepView for UserStatus {
    type V = UserStatus;

    open spec fn deep_view(&self) -> UserStatus {
        *self
    }
}

impl Default for UserStatus {
    fn default() -> (r: UserStatus)
        ensures
            r == UserStatus::Online,
    {
        UserStatus::Online
    }
}

/// The kind of a channel in requests and responses.
#[derive(Clone, Copy, Debug, PartialEq, Eq, Structural)]
pub enum ChannelKindDto {
    Text,
    Announcement,
    Voice,
}

/// A role in requests and responses.
#[derive(Clone, Copy, Debug, PartialEq, Eq, Structural)]
pub enum RoleDto {
    Admin,
    Moderator,
    Member,
}

/// The local identity.
#[derive(Debug)]
pub struct IdentityInfo {
    pub peer_id: String,
    pub display_name: Option<String>,
    pub status: UserStatus,
    pub public_key_hex: String,
    pub public_addr: Option<String>,
    /// SHA-256 fingerprint of this node's TLS certificate, present when the
    /// embedded server is running.
    pub tls_fingerprint_hex: Option<String>,
}

/// What a [`IdentityInfo`] holds.
pub struct IdentityInfoView {
    pub peer_id: Seq<char>,
    pub display_name: Option<Seq<char>>,
    pub status: UserStatus,
    pub public_key_hex: Seq<char>,
    pub public_addr: Option<Seq<char>>,
    pub tls_fingerprint_hex: Option<Seq<char>>,
}

impl DeepView for IdentityInfo {
    type V = IdentityInfoView;

    open spec fn deep_view(&self) -> IdentityInfoView {
        IdentityInfoView {
            peer_id: self.peer_id@,
            display_name: self.display_name.deep_view(),
            status: self.status,
            public_key_hex: self.public_key_hex@,
            public_addr: self.public_addr.deep_view(),
            tls_fingerprint_hex: self.tls_fingerprint_hex.deep_view(),
        }
    }
}

#[derive(Debug)]
pub struct SetDisplayNameParams {
    pub display_name: String,
}

#[derive(Debug)]
pub struct SetStatusParams {
    pub status: UserStatus,
}

#[derive(Debug)]
pub struct ChangePassphraseParams {
    pub old_passphrase: String,
    pub new_passphrase: String,
}

/// A community as shown to clients.
#[derive(Debug)]
pub struct CommunityInfo {
    pub id: String,
    pub name: String,
    pub description: String,
    pub public_key_hex: String,
    pub admin_ids: Vec<String>,
    pub channel_ids: Vec<String>,
    pub seed_nodes: Vec<String>,
    pub version: u64,
    pub created_at: Timestamp,
    /// Whether the community can be used now.
    pub reachable: bool,
    /// Whether the community names seed nodes.
    pub seeded: bool,
}

/// What a [`CommunityInfo`] holds.
pub struct CommunityInfoView {
    pub id: Seq<char>,
    pub name: Seq<char>,
    pub description: Seq<char>,
    pub public_key_hex: Seq<char>,
    pub admin_ids: Seq<Seq<char>>,
    pub channel_ids: Seq<Seq<char>>,
    pub seed_nodes: Seq<Seq<char>>,
    pub version: u64,
    pub created_at: Timestamp,
    pub reachable: bool,
    pub seeded: bool,
}

impl DeepView for CommunityInfo {
    type V = CommunityInfoView;

    open spec fn deep_view(&self) -> CommunityInfoView {
        CommunityInfoView {
            id: self.id@,
            name: self.name@,
            description: self.description@,
            public_key_hex: self.public_key_hex@,
            admin_ids: self.admin_ids.deep_view(),
            channel_ids: self.channel_ids.deep_view(),
            seed_nodes: self.seed_nodes.deep_view(),
            version: self.version,
            created_at: self.created_at,
            reachable: self.reachable,
            seeded: self.seeded,
        }
    }
}

/// Whether a community whose record does not say so counts as reachable.
pub fn default_reachable() -> (r: bool)
    ensures
        r,
{
    true
}

#[derive(Debug)]
pub struct CreateCommunityParams {
    pub name: String,
    pub description: String,
    pub seed_nodes: Vec<String>,
    /// Password for private hosting nodes.
    pub hosting_password: Option<String>,
    /// TLS certificate fingerprint of the seed node (64 hexadecimal digits),
    /// required when `seed_nodes` is not empty. It applies to all of them.
    pub seed_fingerprint_hex: Option<String>,
}

#[derive(Debug)]
pub struct JoinCommunityParams {
    /// Base64url invite payload.
    pub invite: String,
    /// Password for private hosting nodes.
    pub hosting_password: Option<String>,
}

#[derive(Debug)]
pub struct UpdateManifestParams {
    pub community_id: String,
    pub name: Option<String>,
    pub description: Option<String>,
    pub seed_nodes: Option<Vec<String>>,
    /// TLS certificate fingerprint of the new seed node, required when
    /// `seed_nodes` changes.
    pub seed_fingerprint_hex: Option<String>,
}

/// A channel as shown to clients.
#[derive(Debug)]
pub struct ChannelInfo {
    pub id: String,
    pub community_id: String,
    pub name: String,
    pub kind: ChannelKindDto,
    pub version: u64,
    pub created_at: Timestamp,
}

/// What a [`ChannelInfo`] holds.
pub struct ChannelInfoView {
    pub id: Seq<char>,
    pub community_id: Seq<char>,
    pub name: Seq<char>,
    pub kind: ChannelKindDto,
    pub version: u64,
    pub created_at: Timestamp,
}

impl DeepView for ChannelInfo {
    type V = ChannelInfoView;

    open spec fn deep_view(&self) -> ChannelInfoView {
        ChannelInfoView {
            id: self.id@,
            community_id: self.community_id@,
            name: self.name@,
            kind: self.kind,
            version: self.version,
            created_at: self.created_at,
        }
    }
}

#[derive(Debug)]
pub struct CreateChannelParams {
    pub community_id: String,
    pub name: String,
    pub kind: ChannelKindDto,
}

#[derive(Debug)]
pub struct DeleteChannelParams {
    pub community_id: String,
    pub channel_id: String,
}

#[derive(Debug)]
pub struct RotateKeyParams {
    pub community_id: String,
    pub channel_id: String,
}

/// One emoji and the users who reacted with it.
#[derive(Debug)]
pub struct ReactionInfo {
    pub emoji: String,
    pub user_ids: Vec<String>,
}

/// What a [`ReactionInfo`] holds.
pub struct ReactionInfoView {
    pub emoji: Seq<char>,
    pub user_ids: Seq<Seq<char>>,
}

impl DeepView for ReactionInfo {
    type V = ReactionInfoView;

    open spec fn deep_view(&self) -> ReactionInfoView {
        ReactionInfoView {
            emoji: self.emoji@,
            user_ids: self.user_ids.deep_view(),
        }
    }
}

impl Clone for ReactionInfo {
    fn clone(&self) -> (r: Self)
        ensures
            r.deep_view() == self.deep_view(),
    {
        ReactionInfo {
            emoji: self.emoji.clone(),
            user_ids: copy_texts(&self.user_ids),
        }
    }
}

/// A copy of a list of reactions.
pub fn copy_reactions(v: &Vec<ReactionInfo>) -> (r: Vec<ReactionInfo>)
    ensures
        r.deep_view() == v.deep_view(),
{
    broadcast use vec_deep_view, views_push;

    let mut out: Vec<ReactionInfo> = Vec::new();
    let mut i: usize = 0;
    while i < v.len()
        invariant
            i <= v@.len(),
            views(out@) == views(v@).subrange(0, i as int),
        decreases v@.len() - i,
    {
        out.push(v[i].clone());
        i += 1;
        assert(views(v@).subrange(0, i as int) =~= views(v@).subrange(0, i - 1).push(
            v@[i - 1].deep_view(),
        ));
    }
    assert(views(v@).subrange(0, v@.len() as int) =~= views(v@));
    out
}

/// A message as shown to clients.
#[derive(Debug)]
pub struct MessageInfo {
    pub id: String,
    pub channel_id: String,
    pub community_id: String,
    pub author_id: String,
    pub timestamp: Timestamp,
    /// Decrypted message body.
    pub body: String,
    pub reply_to: Option<String>,
    pub edited_at: Option<Timestamp>,
    pub deleted: bool,
    pub reactions: Vec<ReactionInfo>,
}

/// What a [`MessageInfo`] holds.
pub struct MessageInfoView {
    pub id: Seq<char>,
    pub channel_id: Seq<char>,
    pub community_id: Seq<char>,
    pub author_id: Seq<char>,
    pub timestamp: Timestamp,
    pub body: Seq<char>,
    pub reply_to: Option<Seq<char>>,
    pub edited_at: Option<Timestamp>,
    pub deleted: bool,
    pub reactions: Seq<ReactionInfoView>,
}

impl DeepView for MessageInfo {
    type V = MessageInfoView;

    open spec fn deep_view(&self) -> MessageInfoView {
        MessageInfoView {
            id: self.id@,
            channel_id: self.channel_id@,
            community_id: self.community_id@,
            author_id: self.author_id@,
            timestamp: self.timestamp,
            body: self.body@,
            reply_to: self.reply_to.deep_view(),
            edited_at: self.edited_at,
            deleted: self.deleted,
            reactions: self.reactions.deep_view(),
        }
    }
}

#[derive(Debug)]
pub struct SendMessageParams {
    pub community_id: String,
    pub channel_id: String,
    pub body: String,
    pub reply_to: Option<String>,
}

#[derive(Debug)]
pub struct EditMessageParams {
    pub community_id: String,
    pub channel_id: String,
    pub message_id: String,
    pub body: String,
}

#[derive(Debug)]
pub struct DeleteMessageParams {
    pub community_id: String,
    pub channel_id: String,
    pub message_id: String,
}

#[derive(Debug)]
pub struct GetHistoryParams {
    pub community_id: String,
    pub channel_id: String,
    pub before: Option<String>,
    pub limit: Option<u32>,
}

#[derive(Debug)]
pub struct ReactionParams {
    pub community_id: String,
    pub channel_id: String,
    pub message_id: String,
    pub emoji: String,
}

#[derive(Debug)]
pub struct MarkReadParams {
    pub community_id: String,
    pub channel_id: String,
    pub message_id: String,
}

/// A member as shown to clients.
#[derive(Debug)]
pub struct MemberInfo {
    pub user_id: String,
    pub display_name: String,
    pub avatar_cid: Option<String>,
    pub roles: Vec<RoleDto>,
    pub joined_at: Timestamp,
    pub public_key_hex: String,
    pub status: UserStatus,
}

/// What a [`MemberInfo`] holds.
pub struct MemberInfoView {
    pub user_id: Seq<char>,
    pub display_name: Seq<char>,
    pub avatar_cid: Option<Seq<char>>,
    pub roles: Seq<RoleDto>,
    pub joined_at: Timestamp,
    pub public_key_hex: Seq<char>,
    pub status: UserStatus,
}

impl DeepView for MemberInfo {
    type V = MemberInfoView;

    open spec fn deep_view(&self) -> MemberInfoView {
        MemberInfoView {
            user_id: self.user_id@,
            display_name: self.display_name@,
            avatar_cid: self.avatar_cid.deep_view(),
            roles: self.roles@,
            joined_at: self.joined_at,
            public_key_hex: self.public_key_hex@,
            status: self.status,
        }
    }
}

#[derive(Debug)]
pub struct KickBanParams {
    pub community_id: String,
    pub user_id: String,
    pub reason: Option<String>,
}

#[derive(Debug)]
pub struct UpdateRoleParams {
    pub community_id: String,
    pub user_id: String,
    pub role: RoleDto,
}

/// A stored direct message.
#[derive(Debug)]
pub struct DmMessageInfo {
    pub id: String,
    pub peer_id: String,
    pub author_id: String,
    pub timestamp: Timestamp,
    pub body: String,
    pub reply_to: Option<String>,
    pub edited_at: Option<Timestamp>,
}

/// What a [`DmMessageInfo`] holds.
pub struct DmMessageInfoView {
    pub id: Seq<char>,
    pub peer_id: Seq<char>,
    pub author_id: Seq<char>,
    pub timestamp: Timestamp,
    pub body: Seq<char>,
    pub reply_to: Option<Seq<char>>,
    pub edited_at: Option<Timestamp>,
}

impl DeepView for DmMessageInfo {
    type V = DmMessageInfoView;

    open spec fn deep_view(&self) -> DmMessageInfoView {
        DmMessageInfoView {
            id: self.id@,
            peer_id: self.peer_id@,
            author_id: self.author_id@,
            timestamp: self.timestamp,
            body: self.body@,
            reply_to: self.reply_to.deep_view(),
            edited_at: self.edited_at,
        }
    }
}

impl Clone for DmMessageInfo {
    fn clone(&self) -> (r: Self)
        ensures
            r.deep_view() == self.deep_view(),
    {
        DmMessageInfo {
            id: self.id.clone(),
            peer_id: self.peer_id.clone(),
            author_id: self.author_id.clone(),
            timestamp: self.timestamp,
            body: self.body.clone(),
            reply_to: copy_text_opt(&self.reply_to),
            edited_at: self.edited_at,
        }
    }
}

#[derive(Debug)]
pub struct SendDmParams {
    pub peer_id: String,
    pub body: String,
    pub reply_to: Option<String>,
}

#[derive(Debug)]
pub struct GetDmHistoryParams {
    pub peer_id: String,
    pub before: Option<String>,
    pub limit: Option<u32>,
}

#[derive(Debug)]
pub struct DiscardDmParams {
    pub peer_id: String,
    pub message_id: String,
}

/// Addresses of the local node.
#[derive(Debug)]
pub struct NodeLocalInfo {
    /// Base-58 Ed25519 public key, the node's canonical network address.
    pub node_address: String,
    /// Actual listen addresses reported by the network layer.
    pub listen_addrs: Vec<String>,
}

/// What a [`NodeLocalInfo`] holds.
pub struct NodeLocalInfoView {
    pub node_address: Seq<char>,
    pub listen_addrs: Seq<Seq<char>>,
}

impl DeepView for NodeLocalInfo {
    type V = NodeLocalInfoView;

    open spec fn deep_view(&self) -> NodeLocalInfoView {
        NodeLocalInfoView {
            node_address: self.node_address@,
            listen_addrs: self.listen_addrs.deep_view(),
        }
    }
}

/// A connected peer of one community.
#[derive(Debug)]
pub struct PeerSummary {
    pub peer_id: String,
    pub addresses: Vec<String>,
    pub latency_ms: Option<u64>,
    pub relay_capable: bool,
    pub reputation: i32,
    /// Whether the peer's key is the community key.
    pub is_admin: bool,
    pub community_id: String,
}

/// What a [`PeerSummary`] holds.
pub struct PeerSummaryView {
    pub peer_id: Seq<char>,
    pub addresses: Seq<Seq<char>>,
    pub latency_ms: Option<u64>,
    pub relay_capable: bool,
    pub reputation: i32,
    pub is_admin: bool,
    pub community_id: Seq<char>,
}

impl DeepView for PeerSummary {
    type V = PeerSummaryView;

    open spec fn deep_view(&self) -> PeerSummaryView {
        PeerSummaryView {
            peer_id: self.peer_id@,
            addresses: self.addresses.deep_view(),
            latency_ms: self.latency_ms,
            relay_capable: self.relay_capable,
            reputation: self.reputation,
            is_admin: self.is_admin,
            community_id: self.community_id@,
        }
    }
}

impl Clone for PeerSummary {
    fn clone(&self) -> (r: Self)
        ensures
            r.deep_view() == self.deep_view(),
    {
        PeerSummary {
            peer_id: self.peer_id.clone(),
            addresses: copy_texts(&self.addresses),
            latency_ms: self.latency_ms,
            relay_capable: self.relay_capable,
            reputation: self.reputation,
            is_admin: self.is_admin,
            community_id: self.community_id.clone(),
        }
    }
}

/// The part of the configuration shown to clients.
#[derive(Debug)]
pub struct NodeConfigDto {
    pub listen_addrs: Vec<String>,
    pub max_connections: usize,
    pub storage_limit_mb: u64,
    pub bandwidth_limit_kbps: Option<u64>,
    pub node_mode: NodeMode,
    pub seed_priority: u8,
    pub log_level: String,
    pub preferred_mailbox_node: Option<String>,
}

/// What a [`NodeConfigDto`] holds.
pub struct NodeConfigDtoView {
    pub listen_addrs: Seq<Seq<char>>,
    pub max_connections: usize,
    pub storage_limit_mb: u64,
    pub bandwidth_limit_kbps: Option<u64>,
    pub node_mode: NodeMode,
    pub seed_priority: u8,
    pub log_level: Seq<char>,
    pub preferred_mailbox_node: Option<Seq<char>>,
}

impl DeepView for NodeConfigDto {
    type V = NodeConfigDtoView;

    open spec fn deep_view(&self) -> NodeConfigDtoView {
        NodeConfigDtoView {
            listen_addrs: self.listen_addrs.deep_view(),
            max_connections: self.max_connections,
            storage_limit_mb: self.storage_limit_mb,
            bandwidth_limit_kbps: self.bandwidth_limit_kbps,
            node_mode: self.node_mode,
            seed_priority: self.seed_priority,
            log_level: self.log_level@,
            preferred_mailbox_node: self.preferred_mailbox_node.deep_view(),
        }
    }
}

/// A partial update of the configuration.
#[derive(Debug)]
pub struct SetConfigParams {
    pub listen_addrs: Option<Vec<String>>,
    pub max_connections: Option<usize>,
    pub storage_limit_mb: Option<u64>,
    pub bandwidth_limit_kbps: Option<Option<u64>>,
    pub node_mode: Option<NodeMode>,
    pub seed_priority: Option<u8>,
    pub log_level: Option<String>,
    /// `Some(None)` clears the preference; `Some(Some(addr))` sets it.
    pub preferred_mailbox_node: Option<Option<String>>,
}

#[derive(Debug)]
pub struct SetPreferredMailboxCommunityParams {
    pub community_id: String,
}

/// Mutable identity state.
#[derive(Debug)]
pub struct IdentityState {
    pub display_name: Option<String>,
    pub status: UserStatus,
}

/// What a [`IdentityState`] holds.
pub struct IdentityStateView {
    pub display_name: Option<Seq<char>>,
    pub status: UserStatus,
}

impl DeepView for IdentityState {
    type V = IdentityStateView;

    open spec fn deep_view(&self) -> IdentityStateView {
        IdentityStateView {
            display_name: self.display_name.deep_view(),
            status: self.status,
        }
    }
}

/// A direct message between connected peers.
#[derive(Debug)]
pub struct DmPacket {
    pub id: String,
    /// Peer id of the sender.
    pub author_id: String,
    pub body: String,
    pub timestamp: Timestamp,
}

} // verus!
