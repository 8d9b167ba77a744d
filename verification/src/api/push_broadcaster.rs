//! Events pushed to connected clients.

use crate::api::types::{DmMessageInfo, DmMessageInfoView, ReactionInfo, ReactionInfoView};
use crate::time::Timestamp;
use vstd::prelude::*;

verus! {

/// A message that was added or edited.
#[derive(Debug)]
pub struct MessageEventData {
    pub message_id: String,
    pub channel_id: String,
    pub community_id: String,
    pub author_id: String,
    pub author_name: Option<String>,
    pub timestamp: Timestamp,
    pub body: Option<String>,
}

/// What a [`MessageEventData`] holds.
pub struct MessageEventDataView {
    pub message_id: Seq<char>,
    pub channel_id: Seq<char>,
    pub community_id: Seq<char>,
    pub author_id: Seq<char>,
    pub author_name: Option<Seq<char>>,
    pub timestamp: Timestamp,
    pub body: Option<Seq<char>>,
}

impl DeepView for MessageEventData {
    type V = MessageEventDataView;

    open spec fn deep_view(&self) -> MessageEventDataView {
        MessageEventDataView {
            message_id: self.message_id@,
            channel_id: self.channel_id@,
            community_id: self.community_id@,
            author_id: self.author_id@,
            author_name: self.author_name.deep_view(),
            timestamp: self.timestamp,
            body: self.body.deep_view(),
        }
    }
}

/// A message that was deleted.
#[derive(Debug)]
pub struct MessageDeletedData {
    pub message_id: String,
    pub channel_id: String,
    pub community_id: String,
}

/// What a [`MessageDeletedData`] holds.
pub struct MessageDeletedDataView {
    pub message_id: Seq<char>,
    pub channel_id: Seq<char>,
    pub community_id: Seq<char>,
}

impl DeepView for MessageDeletedData {
    type V = MessageDeletedDataView;

    open spec fn deep_view(&self) -> MessageDeletedDataView {
        MessageDeletedDataView {
            message_id: self.message_id@,
            channel_id: self.channel_id@,
            community_id: self.community_id@,
        }
    }
}

/// A member that joined, changed or left.
#[derive(Debug)]
pub struct MemberEventData {
    pub user_id: String,
    pub community_id: String,
    pub display_name: String,
}

/// What a [`MemberEventData`] holds.
pub struct MemberEventDataView {
    pub user_id: Seq<char>,
    pub community_id: Seq<char>,
    pub display_name: Seq<char>,
}

impl DeepView for MemberEventData {
    type V = MemberEventDataView;

    open spec fn deep_view(&self) -> MemberEventDataView {
        MemberEventDataView {
            user_id: self.user_id@,
            community_id: self.community_id@,
            display_name: self.display_name@,
        }
    }
}

/// A presence change.
#[derive(Debug)]
pub struct PresenceChangedData {
    pub user_id: String,
    pub status: String,
    pub last_seen: Timestamp,
}

/// What a [`PresenceChangedData`] holds.
pub struct PresenceChangedDataView {
    pub user_id: Seq<char>,
    pub status: Seq<char>,
    pub last_seen: Timestamp,
}

impl DeepView for PresenceChangedData {
    type V = PresenceChangedDataView;

    open spec fn deep_view(&self) -> PresenceChangedDataView {
        PresenceChangedDataView {
            user_id: self.user_id@,
            status: self.status@,
            last_seen: self.last_seen,
        }
    }
}

/// A channel that was created or deleted.
#[derive(Debug)]
pub struct ChannelEventData {
    pub channel_id: String,
    pub community_id: String,
    pub name: String,
}

/// What a [`ChannelEventData`] holds.
pub struct ChannelEventDataView {
    pub channel_id: Seq<char>,
    pub community_id: Seq<char>,
    pub name: Seq<char>,
}

impl DeepView for ChannelEventData {
    type V = ChannelEventDataView;

    open spec fn deep_view(&self) -> ChannelEventDataView {
        ChannelEventDataView {
            channel_id: self.channel_id@,
            community_id: self.community_id@,
            name: self.name@,
        }
    }
}

/// A community that changed or went away.
#[derive(Debug)]
pub struct CommunityEventData {
    pub community_id: String,
    pub version: u64,
    /// Why the community went away, when a failed join caused it; else empty.
    pub reason: String,
}

/// What a [`CommunityEventData`] holds.
pub struct CommunityEventDataView {
    pub community_id: Seq<char>,
    pub version: u64,
    pub reason: Seq<char>,
}

impl DeepView for CommunityEventData {
    type V = CommunityEventDataView;

    open spec fn deep_view(&self) -> CommunityEventDataView {
        CommunityEventDataView {
            community_id: self.community_id@,
            version: self.version,
            reason: self.reason@,
        }
    }
}

/// Progress of a history transfer.
#[derive(Debug)]
pub struct SyncProgressData {
    pub channel_id: String,
    /// Whether the transfer is over; otherwise it just started.
    pub complete: bool,
}

/// What a [`SyncProgressData`] holds.
pub struct SyncProgressDataView {
    pub channel_id: Seq<char>,
    pub complete: bool,
}

impl DeepView for SyncProgressData {
    type V = SyncProgressDataView;

    open spec fn deep_view(&self) -> SyncProgressDataView {
        SyncProgressDataView {
            channel_id: self.channel_id@,
            complete: self.complete,
        }
    }
}

/// A history transfer that finished.
#[derive(Debug)]
pub struct ChannelHistorySyncedData {
    pub channel_id: String,
    pub community_id: String,
}

/// What a [`ChannelHistorySyncedData`] holds.
pub struct ChannelHistorySyncedDataView {
    pub channel_id: Seq<char>,
    pub community_id: Seq<char>,
}

impl DeepView for ChannelHistorySyncedData {
    type V = ChannelHistorySyncedDataView;

    open spec fn deep_view(&self) -> ChannelHistorySyncedDataView {
        ChannelHistorySyncedDataView {
            channel_id: self.channel_id@,
            community_id: self.community_id@,
        }
    }
}

/// The reactions of a message.
#[derive(Debug)]
pub struct ReactionUpdatedData {
    pub message_id: String,
    pub channel_id: String,
    pub community_id: String,
    pub reactions: Vec<ReactionInfo>,
}

/// What a [`ReactionUpdatedData`] holds.
pub struct ReactionUpdatedDataView {
    pub message_id: Seq<char>,
    pub channel_id: Seq<char>,
    pub community_id: Seq<char>,
    pub reactions: Seq<ReactionInfoView>,
}

impl DeepView for ReactionUpdatedData {
    type V = ReactionUpdatedDataView;

    open spec fn deep_view(&self) -> ReactionUpdatedDataView {
        ReactionUpdatedDataView {
            message_id: self.message_id@,
            channel_id: self.channel_id@,
            community_id: self.community_id@,
            reactions: self.reactions.deep_view(),
        }
    }
}

/// A new direct message.
#[derive(Debug)]
pub struct DmEventData {
    pub message: DmMessageInfo,
}

/// What a [`DmEventData`] holds.
pub struct DmEventDataView {
    pub message: DmMessageInfoView,
}

impl DeepView for DmEventData {
    type V = DmEventDataView;

    open spec fn deep_view(&self) -> DmEventDataView {
        DmEventDataView {
            message: self.message.deep_view(),
        }
    }
}

/// A direct message that could not be delivered.
#[derive(Debug)]
pub struct DmSendFailedData {
    pub peer_id: String,
    pub message_id: String,
}

/// What a [`DmSendFailedData`] holds.
pub struct DmSendFailedDataView {
    pub peer_id: Seq<char>,
    pub message_id: Seq<char>,
}

impl DeepView for DmSendFailedData {
    type V = DmSendFailedDataView;

    open spec fn deep_view(&self) -> DmSendFailedDataView {
        DmSendFailedDataView {
            peer_id: self.peer_id@,
            message_id: self.message_id@,
        }
    }
}

/// Whether a community's seed node is connected.
#[derive(Debug)]
pub struct SeedStatusData {
    pub community_id: String,
    pub connected: bool,
}

/// What a [`SeedStatusData`] holds.
pub struct SeedStatusDataView {
    pub community_id: Seq<char>,
    pub connected: bool,
}

impl DeepView for SeedStatusData {
    type V = SeedStatusDataView;

    open spec fn deep_view(&self) -> SeedStatusDataView {
        SeedStatusDataView {
            community_id: self.community_id@,
            connected: self.connected,
        }
    }
}

/// A member's new role.
#[derive(Debug)]
pub struct MemberRoleUpdatedData {
    pub user_id: String,
    pub community_id: String,
    pub new_role: String,
}

/// What a [`MemberRoleUpdatedData`] holds.
pub struct MemberRoleUpdatedDataView {
    pub user_id: Seq<char>,
    pub community_id: Seq<char>,
    pub new_role: Seq<char>,
}

impl DeepView for MemberRoleUpdatedData {
    type V = MemberRoleUpdatedDataView;

    open spec fn deep_view(&self) -> MemberRoleUpdatedDataView {
        MemberRoleUpdatedDataView {
            user_id: self.user_id@,
            community_id: self.community_id@,
            new_role: self.new_role@,
        }
    }
}

/// Operational counters of the node.
#[derive(Clone, Copy, Debug, PartialEq, Eq, Structural)]
pub struct MetricsSnapshot {
    pub connected_peers: u64,
    pub stored_channels: u64,
    pub disk_usage_mb: u64,
    pub bandwidth_in_kbps: u64,
    pub bandwidth_out_kbps: u64,
    pub uptime_secs: u64,
}

/// All events sent to connected clients.
#[derive(Debug)]
pub enum PushEvent {
    MessageNew(MessageEventData),
    MessageEdited(MessageEventData),
    MessageDeleted(MessageDeletedData),
    MemberJoined(MemberEventData),
    MemberLeft(MemberEventData),
    PresenceChanged(PresenceChangedData),
    ChannelCreated(ChannelEventData),
    ChannelDeleted(ChannelEventData),
    CommunityManifestUpdated(CommunityEventData),
    CommunityDeleted(CommunityEventData),
    NodeMetricsUpdated(MetricsSnapshot),
    SyncProgress(SyncProgressData),
    DmNew(DmEventData),
    DmSendFailed(DmSendFailedData),
    ChannelHistorySynced(ChannelHistorySyncedData),
    ReactionUpdated(ReactionUpdatedData),
    SeedStatusChanged(SeedStatusData),
    MemberRoleUpdated(MemberRoleUpdatedData),
}

/// What a [`PushEvent`] holds.
pub enum PushEventView {
    MessageNew(MessageEventDataView),
    MessageEdited(MessageEventDataView),
    MessageDeleted(MessageDeletedDataView),
    MemberJoined(MemberEventDataView),
    MemberLeft(MemberEventDataView),
    PresenceChanged(PresenceChangedDataView),
    ChannelCreated(ChannelEventDataView),
    ChannelDeleted(ChannelEventDataView),
    CommunityManifestUpdated(CommunityEventDataView),
    CommunityDeleted(CommunityEventDataView),
    NodeMetricsUpdated(MetricsSnapshot),
    SyncProgress(SyncProgressDataView),
    DmNew(DmEventDataView),
    DmSendFailed(DmSendFailedDataView),
    ChannelHistorySynced(ChannelHistorySyncedDataView),
    ReactionUpdated(ReactionUpdatedDataView),
    SeedStatusChanged(SeedStatusDataView),
    MemberRoleUpdated(MemberRoleUpdatedDataView),
}

impl DeepView for PushEvent {
    type V = PushEventView;

    open spec fn deep_view(&self) -> PushEventView {
        match self {
            PushEvent::MessageNew(a) => PushEventView::MessageNew(a.deep_view()),
            PushEvent::MessageEdited(a) => PushEventView::MessageEdited(a.deep_view()),
            PushEvent::MessageDeleted(a) => PushEventView::MessageDeleted(a.deep_view()),
            PushEvent::MemberJoined(a) => PushEventView::MemberJoined(a.deep_view()),
            PushEvent::MemberLeft(a) => PushEventView::MemberLeft(a.deep_view()),
            PushEvent::PresenceChanged(a) => PushEventView::PresenceChanged(a.deep_view()),
            PushEvent::ChannelCreated(a) => PushEventView::ChannelCreated(a.deep_view()),
            PushEvent::ChannelDeleted(a) => PushEventView::ChannelDeleted(a.deep_view()),
            PushEvent::CommunityManifestUpdated(a) => PushEventView::CommunityManifestUpdated(a.deep_view()),
            PushEvent::CommunityDeleted(a) => PushEventView::CommunityDeleted(a.deep_view()),
            PushEvent::NodeMetricsUpdated(a) => PushEventView::NodeMetricsUpdated(*a),
            PushEvent::SyncProgress(a) => PushEventView::SyncProgress(a.deep_view()),
            PushEvent::DmNew(a) => PushEventView::DmNew(a.deep_view()),
            PushEvent::DmSendFailed(a) => PushEventView::DmSendFailed(a.deep_view()),
            PushEvent::ChannelHistorySynced(a) => PushEventView::ChannelHistorySynced(a.deep_view()),
            PushEvent::ReactionUpdated(a) => PushEventView::ReactionUpdated(a.deep_view()),
            PushEvent::SeedStatusChanged(a) => PushEventView::SeedStatusChanged(a.deep_view()),
            PushEvent::MemberRoleUpdated(a) => PushEventView::MemberRoleUpdated(a.deep_view()),
        }
    }
}

} // verus!
