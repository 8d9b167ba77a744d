//! What a handler asks the surrounding program to do.

use crate::api::push_broadcaster::{PushEvent, PushEventView};
use crate::model::channel::{ChannelManifest, ChannelManifestView};
use crate::model::membership::{MembershipRecord, MembershipRecordView};
use crate::model::network_event::{NetworkEvent, NetworkEventView};
use crate::network::network_handle::types::{NetworkCommand, NetworkCommandView};
use crate::network::node_addr::NodeAddr;
use vstd::prelude::*;

verus! {

/// A table of the application state that is kept on disk.
#[derive(Clone, Copy, Debug, PartialEq, Eq, Structural)]
pub enum TableFile {
    Communities,
    Channels,
    ChannelKeys,
    PreviousChannelKeys,
    Dms,
    DmPeers,
    Members,
    Bans,
    ReadState,
    HostingPasswords,
    SeedFingerprints,
}

impl TableFile {
    /// The name of the table's file in the data directory.
    pub fn file_name(&self) -> (r: &'static str)
        ensures
            r@ == match self {
                TableFile::Communities => "communities.json"@,
                TableFile::Channels => "channels.json"@,
                TableFile::ChannelKeys => "channel_keys.json"@,
                TableFile::PreviousChannelKeys => "previous_channel_keys.json"@,
                TableFile::Dms => "dms.json"@,
                TableFile::DmPeers => "dm_peers.json"@,
                TableFile::Members => "members.json"@,
                TableFile::Bans => "bans.json"@,
                TableFile::ReadState => "read_state.json"@,
                TableFile::HostingPasswords => "hosting_passwords.json"@,
                TableFile::SeedFingerprints => "seed_fingerprints.json"@,
            },
    {
        match self {
            TableFile::Communities => "communities.json",
            TableFile::Channels => "channels.json",
            TableFile::ChannelKeys => "channel_keys.json",
            TableFile::PreviousChannelKeys => "previous_channel_keys.json",
            TableFile::Dms => "dms.json",
            TableFile::DmPeers => "dm_peers.json",
            TableFile::Members => "members.json",
            TableFile::Bans => "bans.json",
            TableFile::ReadState => "read_state.json",
            TableFile::HostingPasswords => "hosting_passwords.json",
            TableFile::SeedFingerprints => "seed_fingerprints.json",
        }
    }
}

/// A change that a hosting node copies from the application state to its
/// hosting store. A node without such a store ignores it.
#[derive(Debug)]
pub enum StoreUpdate {
    /// Store a community that this node created.
    CreateCommunity {
        community_id: String,
    },
    /// Store a community as a peer served it: its manifest, the given channels
    /// with their keys, and the given members.
    ReplaceCommunity {
        community_id: String,
        channels: Vec<ChannelManifest>,
        members: Vec<MembershipRecord>,
    },
    /// Forget a community.
    RemoveCommunity {
        community_pk: [u8; 32],
    },
    /// Update the manifest of a community.
    SyncManifest {
        community_id: String,
    },
    /// Add or replace a channel, with its key when `with_key` is set.
    SyncChannel {
        community_id: String,
        channel_id: String,
        with_key: bool,
    },
    /// Replace a channel that is there, and set its key.
    RotateChannel {
        community_id: String,
        channel_id: String,
    },
    /// Remove a channel and its key.
    DropChannel {
        community_id: String,
        channel_id: String,
    },
    /// Add or replace a member.
    SyncMember {
        community_id: String,
        user_id: String,
    },
    /// Remove a member.
    DropMember {
        community_id: String,
        user_id: String,
    },
    /// Append a log entry.
    AppendMessage {
        community_id: String,
        channel_id: String,
        message_id: String,
    },
}

/// What a [`StoreUpdate`] holds.
pub enum StoreUpdateView {
    CreateCommunity {
        community_id: Seq<char>,
    },
    ReplaceCommunity {
        community_id: Seq<char>,
        channels: Seq<ChannelManifestView>,
        members: Seq<MembershipRecordView>,
    },
    RemoveCommunity {
        community_pk: Seq<u8>,
    },
    SyncManifest {
        community_id: Seq<char>,
    },
    SyncChannel {
        community_id: Seq<char>,
        channel_id: Seq<char>,
        with_key: bool,
    },
    RotateChannel {
        community_id: Seq<char>,
        channel_id: Seq<char>,
    },
    DropChannel {
        community_id: Seq<char>,
        channel_id: Seq<char>,
    },
    SyncMember {
        community_id: Seq<char>,
        user_id: Seq<char>,
    },
    DropMember {
        community_id: Seq<char>,
        user_id: Seq<char>,
    },
    AppendMessage {
        community_id: Seq<char>,
        channel_id: Seq<char>,
        message_id: Seq<char>,
    },
}

impl DeepView for StoreUpdate {
    type V = StoreUpdateView;

    open spec fn deep_view(&self) -> StoreUpdateView {
        match self {
            StoreUpdate::CreateCommunity { community_id } => StoreUpdateView::CreateCommunity {
                community_id: community_id@,
            },
            StoreUpdate::ReplaceCommunity { community_id, channels, members } => StoreUpdateView::ReplaceCommunity {
                community_id: community_id@,
                channels: channels.deep_view(),
                members: members.deep_view(),
            },
            StoreUpdate::RemoveCommunity { community_pk } => StoreUpdateView::RemoveCommunity {
                community_pk: community_pk@,
            },
            StoreUpdate::SyncManifest { community_id } => StoreUpdateView::SyncManifest {
                community_id: community_id@,
            },
            StoreUpdate::SyncChannel { community_id, channel_id, with_key } => StoreUpdateView::SyncChannel {
                community_id: community_id@,
                channel_id: channel_id@,
                with_key: *with_key,
            },
            StoreUpdate::RotateChannel { community_id, channel_id } => StoreUpdateView::RotateChannel {
                community_id: community_id@,
                channel_id: channel_id@,
            },
            StoreUpdate::DropChannel { community_id, channel_id } => StoreUpdateView::DropChannel {
                community_id: community_id@,
                channel_id: channel_id@,
            },
            StoreUpdate::SyncMember { community_id, user_id } => StoreUpdateView::SyncMember {
                community_id: community_id@,
                user_id: user_id@,
            },
            StoreUpdate::DropMember { community_id, user_id } => StoreUpdateView::DropMember {
                community_id: community_id@,
                user_id: user_id@,
            },
            StoreUpdate::AppendMessage { community_id, channel_id, message_id } => StoreUpdateView::AppendMessage {
                community_id: community_id@,
                channel_id: channel_id@,
                message_id: message_id@,
            },
        }
    }
}

/// Work for the routing table.
#[derive(Debug)]
pub enum DhtAction {
    /// Fill the routing table from known nodes.
    Bootstrap,
    /// Announce this node as a peer of a community.
    AnnounceCommunity {
        community_pk: [u8; 32],
    },
    /// Look for peers of a community and dial those found.
    DiscoverCommunity {
        community_pk: [u8; 32],
        community_id: String,
    },
    /// Announce this node's own keys and address.
    AnnouncePeerInfo,
    /// Announce where this node's mailbox is, under the given address hint.
    AnnounceMailbox {
        addr: NodeAddr,
    },
    /// Remember the address of a peer.
    AddKnownPeer {
        node_pk: [u8; 32],
        addr: NodeAddr,
    },
}

/// What a [`DhtAction`] holds.
pub enum DhtActionView {
    Bootstrap,
    AnnounceCommunity {
        community_pk: Seq<u8>,
    },
    DiscoverCommunity {
        community_pk: Seq<u8>,
        community_id: Seq<char>,
    },
    AnnouncePeerInfo,
    AnnounceMailbox {
        addr: NodeAddr,
    },
    AddKnownPeer {
        node_pk: Seq<u8>,
        addr: NodeAddr,
    },
}

impl DeepView for DhtAction {
    type V = DhtActionView;

    open spec fn deep_view(&self) -> DhtActionView {
        match self {
            DhtAction::Bootstrap => DhtActionView::Bootstrap,
            DhtAction::AnnounceCommunity { community_pk } => DhtActionView::AnnounceCommunity {
                community_pk: community_pk@,
            },
            DhtAction::DiscoverCommunity { community_pk, community_id } => DhtActionView::DiscoverCommunity {
                community_pk: community_pk@,
                community_id: community_id@,
            },
            DhtAction::AnnouncePeerInfo => DhtActionView::AnnouncePeerInfo,
            DhtAction::AnnounceMailbox { addr } => DhtActionView::AnnounceMailbox {
                addr: *addr,
            },
            DhtAction::AddKnownPeer { node_pk, addr } => DhtActionView::AddKnownPeer {
                node_pk: node_pk@,
                addr: *addr,
            },
        }
    }
}

/// One thing to do, in the order given.
#[derive(Debug)]
pub enum Effect {
    /// Write a table to disk.
    Save(TableFile),
    /// Write the configuration to disk.
    SaveConfig,
    /// Encode an event and publish it on a topic.
    Publish {
        topic: String,
        event: NetworkEvent,
    },
    /// Send an event to connected clients.
    Push(PushEvent),
    /// Hand a command to the network layer.
    Command(NetworkCommand),
    /// Update the hosting store.
    Store(StoreUpdate),
    /// Work for the routing table.
    Dht(DhtAction),
    /// Copy a community to a new seed node.
    SyncToSeed {
        community_id: String,
        seed: String,
    },
}

/// What a [`Effect`] holds.
pub enum EffectView {
    Save(TableFile),
    SaveConfig,
    Publish {
        topic: Seq<char>,
        event: NetworkEventView,
    },
    Push(PushEventView),
    Command(NetworkCommandView),
    Store(StoreUpdateView),
    Dht(DhtActionView),
    SyncToSeed {
        community_id: Seq<char>,
        seed: Seq<char>,
    },
}

impl DeepView for Effect {
    type V = EffectView;

    open spec fn deep_view(&self) -> EffectView {
        match self {
            Effect::Save(a) => EffectView::Save(*a),
            Effect::SaveConfig => EffectView::SaveConfig,
            Effect::Publish { topic, event } => EffectView::Publish {
                topic: topic@,
                event: event.deep_view(),
            },
            Effect::Push(a) => EffectView::Push(a.deep_view()),
            Effect::Command(a) => EffectView::Command(a.deep_view()),
            Effect::Store(a) => EffectView::Store(a.deep_view()),
            Effect::Dht(a) => EffectView::Dht(a.deep_view()),
            Effect::SyncToSeed { community_id, seed } => EffectView::SyncToSeed {
                community_id: community_id@,
                seed: seed@,
            },
        }
    }
}

/// Append one effect.
pub fn emit(out: &mut Vec<Effect>, e: Effect)
    ensures
        final(out).deep_view() == old(out).deep_view().push(e.deep_view()),
{
    let ghost before = out.deep_view();
    out.push(e);
    assert(out.deep_view() =~= before.push(e.deep_view()));
}

/// No effects yet.
pub fn no_effects() -> (r: Vec<Effect>)
    ensures
        r.deep_view() == Seq::<EffectView>::empty(),
{
    let r: Vec<Effect> = Vec::new();
    assert(r.deep_view() =~= Seq::<EffectView>::empty());
    r
}

} // verus!
