//! Whatever changes is saved.

use crate::api::effects::{EffectView, TableFile};
use crate::api::event_processor::community_handler::{
    broadcast_applied, broadcast_effects, delivered_key, update_accepted, update_handled,
};
use crate::api::event_processor::dm_handler::{dm_received, dm_received_effects, incoming_dm};
use crate::api::event_processor::member_handler::{member_joined, member_left, role_changed};
use crate::api::rpc_server::channel::{
    channel_created, channel_created_effects, channel_deleted, channel_deleted_effects, key_changes,
    key_rotated, key_rotated_effects,
};
use crate::api::rpc_server::community::{
    creation_done, join_done, manifest_updated, update_effects,
};
use crate::api::rpc_server::dm::dm_sent;
use crate::api::rpc_server::member::{
    removal_effects, role_effects, with_ban, with_role, without_member,
};
use crate::api::rpc_server::RpcError;
use crate::api::types::{CommunityInfo, CreateCommunityParams, DmMessageInfo, SendDmParams};
use crate::api::{removal_effects as farewell_effects, without_community, AppStateView};
use crate::model::channel::ChannelManifestView;
use crate::model::community::{CommunityManifestView, SignedManifestView};
use crate::model::membership::{MembershipRecordView, Role};
use crate::model::types::{CommunityId, MessageId, UserId};
use crate::network::node_addr::NodeAddr;
use crate::state::message_log::LogEntryView;
use crate::time::Timestamp;
use vstd::prelude::*;

verus! {

/// Whether a table is saved.
pub open spec fn saves(fx: Seq<EffectView>, file: TableFile) -> bool {
    fx.contains(EffectView::Save(file))
}

/// Whether every table that differs between two states is saved.
pub open spec fn saves_what_differs(
    s: AppStateView,
    t: AppStateView,
    fx: Seq<EffectView>,
) -> bool {
    &&& t.communities != s.communities ==> saves(fx, TableFile::Communities)
    &&& t.channels != s.channels ==> saves(fx, TableFile::Channels)
    &&& t.channel_keys != s.channel_keys ==> saves(fx, TableFile::ChannelKeys)
    &&& t.previous_channel_keys != s.previous_channel_keys ==> saves(
        fx,
        TableFile::PreviousChannelKeys,
    )
    &&& t.dms != s.dms ==> saves(fx, TableFile::Dms)
    &&& t.members != s.members ==> saves(fx, TableFile::Members)
    &&& t.bans != s.bans ==> saves(fx, TableFile::Bans)
    &&& t.read_state != s.read_state ==> saves(fx, TableFile::ReadState)
    &&& t.hosting_passwords != s.hosting_passwords ==> saves(fx, TableFile::HostingPasswords)
    &&& t.seed_fingerprints != s.seed_fingerprints ==> saves(fx, TableFile::SeedFingerprints)
}

proof fn saved_at(fx: Seq<EffectView>, i: int, file: TableFile)
    requires
        0 <= i < fx.len(),
        fx[i] == EffectView::Save(file),
    ensures
        saves(fx, file),
{
}

/// Removing a member, banning one and changing a role are saved.
pub proof fn moderation_is_saved(
    s: AppStateView,
    c: Seq<char>,
    u: Seq<char>,
    role: Role,
    now: Timestamp,
)
    ensures
        saves_what_differs(s, without_member(s, c, u), removal_effects(s, c, u, false, now)),
        saves_what_differs(
            s,
            with_ban(without_member(s, c, u), c, u),
            removal_effects(s, c, u, true, now),
        ),
        saves_what_differs(s, with_role(s, c, u, role), role_effects(s, c, u, role, now)),
{
    saved_at(removal_effects(s, c, u, false, now), 0, TableFile::Members);
    saved_at(removal_effects(s, c, u, true, now), 0, TableFile::Members);
    saved_at(removal_effects(s, c, u, true, now), 1, TableFile::Bans);
    saved_at(role_effects(s, c, u, role, now), 0, TableFile::Members);
}

/// What members announce is saved.
pub proof fn announcements_are_saved(
    s: AppStateView,
    after: AppStateView,
    m: MembershipRecordView,
    user: UserId,
    community: CommunityId,
    role: Role,
    signature: Seq<u8>,
    fx: Seq<EffectView>,
)
    ensures
        member_joined(s, after, m, fx) ==> (after.members != s.members ==> saves(
            fx,
            TableFile::Members,
        )) && (after.dm_peers != s.dm_peers ==> saves(fx, TableFile::DmPeers)),
        member_left(s, after, user, community, signature, fx) ==> saves_what_differs(s, after, fx),
        role_changed(s, after, user, community, role, signature, fx) ==> saves_what_differs(
            s,
            after,
            fx,
        ),
{
    if member_joined(s, after, m, fx) && after != s {
        saved_at(fx, 0, TableFile::Members);
        saved_at(fx, 1, TableFile::DmPeers);
    }
    if member_left(s, after, user, community, signature, fx) && after != s {
        saved_at(fx, 0, TableFile::Members);
    }
    if role_changed(s, after, user, community, role, signature, fx) && after != s {
        saved_at(fx, 0, TableFile::Members);
    }
}

/// Creating, deleting and rotating channels is saved.
pub proof fn channel_changes_are_saved(
    s: AppStateView,
    c: Seq<char>,
    ch: ChannelManifestView,
    channel: Seq<char>,
    key: Seq<u8>,
    keys: Seq<(UserId, Seq<u8>)>,
)
    ensures
        saves_what_differs(s, channel_created(s, c, ch, key), channel_created_effects(s, c, ch)),
        saves_what_differs(
            s,
            channel_deleted(s, c, channel),
            channel_deleted_effects(s, c, channel),
        ),
        saves_what_differs(
            s,
            key_rotated(s, channel, key, keys),
            key_rotated_effects(s, c, channel, key, keys),
        ),
{
    let a = channel_created_effects(s, c, ch);
    saved_at(a, 0, TableFile::Channels);
    saved_at(a, 1, TableFile::ChannelKeys);
    saved_at(a, 2, TableFile::Communities);
    let b = channel_deleted_effects(s, c, channel);
    if b.len() > 0 {
        saved_at(b, 0, TableFile::Channels);
        saved_at(b, 1, TableFile::ChannelKeys);
    }
    if b.len() > 2 {
        saved_at(b, 2, TableFile::Communities);
    }
    let d = key_rotated_effects(s, c, channel, key, keys);
    let k: int = if key_changes(s, channel, key) {
        1
    } else {
        0
    };
    if key_changes(s, channel, key) {
        saved_at(d, 0, TableFile::PreviousChannelKeys);
    }
    saved_at(d, k, TableFile::ChannelKeys);
    saved_at(d, k + 1, TableFile::Channels);
}

/// Creating, joining, updating and forgetting communities is saved.
pub proof fn community_changes_are_saved(
    s: AppStateView,
    c: Seq<char>,
    m: CommunityManifestView,
    fp: Seq<u8>,
    names: Seq<Seq<char>>,
)
    ensures
        saves_what_differs(s, manifest_updated(s, c, m, fp), update_effects(s, c, m)),
        saves_what_differs(s, without_community(s, c), farewell_effects(s, c, names)),
{
    let a = update_effects(s, c, m);
    saved_at(a, 0, TableFile::Communities);
    let before = s.communities[c].manifest.seed_nodes;
    if crate::api::rpc_server::community::seed_moves(before, m.seed_nodes) {
        saved_at(a, 3, TableFile::SeedFingerprints);
    }
    let b = farewell_effects(s, c, names);
    saved_at(b, 0, TableFile::Communities);
    saved_at(b, 1, TableFile::Members);
    saved_at(b, 2, TableFile::Channels);
    saved_at(b, 3, TableFile::ChannelKeys);
    saved_at(b, 4, TableFile::HostingPasswords);
}

/// A community that is created is saved.
pub proof fn created_communities_are_saved(
    s: AppStateView,
    after: AppStateView,
    p: CreateCommunityParams,
    id: CommunityId,
    now: Timestamp,
    parsed: Map<Seq<char>, NodeAddr>,
    own: crate::api::dialing::OwnAddressesView,
    result: Result<CommunityInfo, RpcError>,
    fx: Seq<EffectView>,
)
    requires
        creation_done(s, after, p, id, now, parsed, own, result, fx),
    ensures
        saves_what_differs(s, after, fx),
{
    if result is Ok {
        let seeds = p.seed_nodes.deep_view();
        let pin: int = if seeds.len() > 0 {
            1
        } else {
            0
        };
        if seeds.len() > 0 {
            saved_at(fx, 0, TableFile::SeedFingerprints);
        }
        saved_at(fx, pin, TableFile::Communities);
        if p.hosting_password.deep_view() is Some {
            saved_at(fx, pin + 1, TableFile::HostingPasswords);
        }
        saved_at(fx, fx.len() - 3, TableFile::Members);
    }
}

/// A community that is joined is saved.
pub proof fn joined_communities_are_saved(
    s: AppStateView,
    after: AppStateView,
    i: crate::api::invite::InvitePayloadView,
    password: Option<Seq<char>>,
    now: Timestamp,
    parsed: Map<Seq<char>, NodeAddr>,
    result: Result<CommunityInfo, RpcError>,
    fx: Seq<EffectView>,
)
    requires
        join_done(s, after, i, password, now, parsed, result, fx),
    ensures
        saves_what_differs(s, after, fx),
{
    if result is Ok {
        saved_at(fx, 0, TableFile::Communities);
        let pw: int = if password is Some {
            1
        } else {
            0
        };
        if password is Some {
            saved_at(fx, 1, TableFile::HostingPasswords);
        }
        saved_at(fx, pw + 2, TableFile::Members);
        if i.fingerprint()->Ok_0 != crate::bytes::zeros(32) {
            let c = crate::model::types::ulid_text(
                crate::model::types::ulid_parse(i.community_id)->0,
            );
            let n = crate::api::rpc_server::community::peers_of(s, c).len();
            saved_at(fx, (5 + pw + n) as int, TableFile::SeedFingerprints);
        }
    }
}

/// A channel manifest that is broadcast is saved with its key.
pub proof fn broadcasts_are_saved(
    s: AppStateView,
    m: ChannelManifestView,
    seqs: Option<Map<Seq<char>, u64>>,
)
    ensures
        saves_what_differs(s, broadcast_applied(s, m), broadcast_effects(s, m, seqs)),
{
    let fx = broadcast_effects(s, m, seqs);
    if s.communities.contains_key(m.community_id.name()) {
        saved_at(fx, 0, TableFile::Channels);
        if let Some(k) = delivered_key(s, m) {
            let changes: int = if key_changes(s, m.id.name(), k) {
                1
            } else {
                0
            };
            if key_changes(s, m.id.name(), k) {
                saved_at(fx, 1, TableFile::PreviousChannelKeys);
            }
            saved_at(fx, 1 + changes, TableFile::ChannelKeys);
        }
    }
}

/// A manifest update that is accepted is saved.
pub proof fn accepted_updates_are_saved(
    s: AppStateView,
    after: AppStateView,
    m: SignedManifestView,
    source: Option<Seq<char>>,
    parsed: Map<Seq<char>, NodeAddr>,
    fx: Seq<EffectView>,
)
    requires
        update_handled(s, after, m, source, parsed, fx),
    ensures
        saves_what_differs(s, after, fx),
{
    let c = m.manifest.id.name();
    if update_accepted(s, m) {
        if m.manifest.deleted {
            let names = choose|names: Seq<Seq<char>>|
                names.to_set() == s.channels_of(c) && fx == #[trigger] farewell_effects(
                    s,
                    c,
                    names,
                ) + seq![
                    crate::api::event_processor::community_handler::gone_push(
                        c,
                        m.manifest.version,
                        Seq::empty(),
                    ),
                ];
            saved_at(fx, 0, TableFile::Communities);
            saved_at(fx, 1, TableFile::Members);
            saved_at(fx, 2, TableFile::Channels);
            saved_at(fx, 3, TableFile::ChannelKeys);
            saved_at(fx, 4, TableFile::HostingPasswords);
        } else {
            saved_at(fx, 0, TableFile::Communities);
            let added = crate::model::community::channel_names(
                crate::api::event_processor::community_handler::ids_missing(
                    m.manifest.channel_ids,
                    s.communities[c].manifest.channel_ids,
                ),
            );
            let dropped = crate::model::community::channel_names(
                crate::api::event_processor::community_handler::dropped_channels(s, m),
            );
            if dropped.len() > 0 {
                saved_at(
                    fx,
                    (2 + added.len() + dropped.len()) as int,
                    TableFile::Channels,
                );
            } else {
                assert(dropped.to_set() =~= Set::<Seq<char>>::empty());
                assert(after.channels =~= s.channels);
            }
        }
    }
}

/// Conversations are saved.
pub proof fn conversations_are_saved(
    s: AppStateView,
    after: AppStateView,
    p: SendDmParams,
    id: MessageId,
    now: Timestamp,
    found: Option<crate::api::rpc_server::dm::DhtPeerView>,
    mailbox: Option<NodeAddr>,
    result: Result<DmMessageInfo, RpcError>,
    fx: Seq<EffectView>,
    e: LogEntryView,
    recipient: Seq<u8>,
)
    ensures
        dm_sent(s, after, p, id, now, found, mailbox, result, fx) ==> saves_what_differs(
            s,
            after,
            fx,
        ),
        ({
            let m = incoming_dm(s, e, recipient, now);
            saves_what_differs(s, dm_received(s, m), dm_received_effects(s, m))
        }),
{
    if dm_sent(s, after, p, id, now, found, mailbox, result, fx) && p.body@.len() > 0 {
        saved_at(fx, 0, TableFile::Dms);
    }
    let m = incoming_dm(s, e, recipient, now);
    let r = dm_received_effects(s, m);
    if r.len() > 0 {
        saved_at(r, 0, TableFile::Dms);
    }
}

} // verus!
