//! Laws about what clients are told: every change that they can see is reported, and
//! the report shows what the state then holds.

use crate::api::dialing::{fingerprint_for, seed_dial};
use crate::api::effects::{EffectView, StoreUpdateView, TableFile};
use crate::api::event_processor::channel_handler::{
    admin_index, channel_event_handled, edit_accepted, history_effects, message_received,
    received_effects, rotation_accepted, verdict,
};
use crate::api::event_processor::community_handler::{
    drop_effects, hosting_password, ids_missing, join_noted, update_accepted, update_handled,
    StoredView,
};
use crate::api::event_processor::member_handler::{
    heartbeat_handled, join_accepted, member_joined, member_left,
};
use crate::api::push_broadcaster::{
    ChannelEventDataView, ChannelHistorySyncedDataView, CommunityEventDataView,
    MemberEventDataView, MessageDeletedDataView, MessageEventDataView, PresenceChangedDataView,
    PushEventView, ReactionUpdatedDataView, SyncProgressDataView,
};
use crate::api::rpc_server::channel::{
    channel_created_effects, channel_deleted_effects, delete_refusal,
};
use crate::api::rpc_server::community::peers_of;
use crate::api::rpc_server::member::status_name;
use crate::api::rpc_server::message::{
    deletion_effects, edited_effects, member_name, reaction_effects, send_refusal, sent_effects,
};
use crate::api::rpc_server::RpcError;
use crate::api::types::PeerSummaryView;
use crate::api::{
    channel_topic, community_topic, fetch_manifest, subscribe, unsubscribe, AppStateView,
};
use crate::bytes::zeros;
use crate::crypto::primitives::xchacha_opened;
use crate::model::channel::{ChannelKind, ChannelManifestView};
use crate::model::community::{channel_names, SignedManifestView};
use crate::model::membership::MembershipRecordView;
use crate::model::message::{decoded_content, MessageContentView, RawMessageView};
use crate::model::network_event::NetworkEventView;
use crate::model::types::{ulid_parse, ChannelId, CommunityId, MessageId, UserId};
use crate::network::node_addr::NodeAddr;
use crate::state::message_log::LogEntryView;
use crate::time::Timestamp;
use vstd::prelude::*;

verus! {

/// The name that clients see beside a message is the one on the author's record.
pub open spec fn shown_as(
    s: AppStateView,
    c: Seq<char>,
    user: Seq<char>,
    name: Option<Seq<char>>,
) -> bool {
    if s.member_list(c).contains_key(user) {
        name == Some(s.member_list(c)[user].display_name)
    } else {
        name is None
    }
}

/// The report of a message among `fx`.
pub open spec fn reports(
    s: AppStateView,
    fx: Seq<EffectView>,
    c: Seq<char>,
    ch: Seq<char>,
    id: Seq<char>,
    author: Seq<char>,
    at: Timestamp,
    name: Option<Seq<char>>,
) -> bool {
    shown_as(s, c, author, name) && fx.contains(
        EffectView::Push(
            PushEventView::MessageNew(
                MessageEventDataView {
                    message_id: id,
                    channel_id: ch,
                    community_id: c,
                    author_id: author,
                    author_name: name,
                    timestamp: at,
                    body: None,
                },
            ),
        ),
    )
}

/// Every message that is stored is reported: a reaction with the counts that stand
/// afterwards, any other message with its author, channel and time.
pub proof fn stored_messages_are_reported(s: AppStateView, topic: Seq<char>, m: RawMessageView)
    requires
        verdict(s, m) is Stored,
    ensures
        ({
            let ch = m.channel_id.name();
            let c = s.channels[ch].community_id.name();
            let fx = received_effects(s, m);
            match verdict(s, m)->Stored_0 {
                Some(MessageContentView::Reaction { target_message_id, .. }) => fx.contains(
                    EffectView::Push(
                        PushEventView::ReactionUpdated(
                            ReactionUpdatedDataView {
                                message_id: target_message_id,
                                channel_id: ch,
                                community_id: c,
                                reactions: message_received(
                                    s,
                                    topic,
                                    m,
                                ).message_log.reactions_of(target_message_id),
                            },
                        ),
                    ),
                ),
                _ => exists|name: Option<Seq<char>>|
                    #[trigger] reports(
                        s,
                        fx,
                        c,
                        ch,
                        m.id.name(),
                        m.author_id.name(),
                        m.timestamp,
                        name,
                    ),
            }
        }),
{
    let fx = received_effects(s, m);
    let c = s.channels[m.channel_id.name()].community_id.name();
    assert(fx.contains(fx.last()));
    let name = member_name(s, c, m.author_id.name());
    if !(verdict(s, m)->Stored_0 matches Some(MessageContentView::Reaction { .. })) {
        assert(reports(
            s,
            fx,
            c,
            m.channel_id.name(),
            m.id.name(),
            m.author_id.name(),
            m.timestamp,
            name,
        ));
    }
}

/// What the local user sends, edits, deletes or reacts to is reported to its clients,
/// and a reaction with the counts that stand afterwards.
pub proof fn own_changes_are_reported(
    s: AppStateView,
    after: AppStateView,
    c: Seq<char>,
    ch: Seq<char>,
    m: RawMessageView,
    id: Seq<char>,
    body: Seq<char>,
    nonce: Seq<u8>,
    ciphertext: Seq<u8>,
    now: Timestamp,
)
    ensures
        exists|name: Option<Seq<char>>|
            #[trigger] reports(
                s,
                sent_effects(s, c, ch, m),
                c,
                ch,
                m.id.name(),
                s.me(),
                m.timestamp,
                name,
            ),
        exists|name: Option<Seq<char>>|
            #[trigger] shown_as(s, c, s.me(), name) && edited_effects(
                s,
                c,
                ch,
                id,
                body,
                nonce,
                ciphertext,
                now,
            ).contains(
                EffectView::Push(
                    PushEventView::MessageEdited(
                        MessageEventDataView {
                            message_id: id,
                            channel_id: ch,
                            community_id: c,
                            author_id: s.me(),
                            author_name: name,
                            timestamp: now,
                            body: Some(body),
                        },
                    ),
                ),
            ),
        deletion_effects(s, c, ch, id, now).contains(
            EffectView::Push(
                PushEventView::MessageDeleted(
                    MessageDeletedDataView { message_id: id, channel_id: ch, community_id: c },
                ),
            ),
        ),
        reaction_effects(s, after, c, ch, m, id).contains(
            EffectView::Push(
                PushEventView::ReactionUpdated(
                    ReactionUpdatedDataView {
                        message_id: id,
                        channel_id: ch,
                        community_id: c,
                        reactions: after.message_log.reactions_of(id),
                    },
                ),
            ),
        ),
        reaction_effects(s, after, c, ch, m, id).contains(
            EffectView::Publish {
                topic: channel_topic(ch),
                event: NetworkEventView::NewMessage(m),
            },
        ),
        reaction_effects(s, after, c, ch, m, id).contains(
            EffectView::Store(
                StoreUpdateView::AppendMessage {
                    community_id: c,
                    channel_id: ch,
                    message_id: m.id.name(),
                },
            ),
        ),
{
    let name = member_name(s, c, s.me());
    let sent = sent_effects(s, c, ch, m);
    assert(sent.contains(sent[2]));
    assert(reports(s, sent, c, ch, m.id.name(), s.me(), m.timestamp, name));
    let edited = edited_effects(s, c, ch, id, body, nonce, ciphertext, now);
    assert(edited.contains(edited[1]));
    assert(shown_as(s, c, s.me(), name));
    let deleted = deletion_effects(s, c, ch, id, now);
    assert(deleted.contains(deleted[1]));
    let reacted = reaction_effects(s, after, c, ch, m, id);
    assert(reacted.contains(reacted[0]));
    assert(reacted.contains(reacted[1]));
    assert(reacted.contains(reacted[2]));
}

/// An accepted edit is reported with the new text, where the current key reads it; a
/// deletion by the author is reported where the channel is known.
pub proof fn announced_changes_are_reported(
    s: AppStateView,
    after: AppStateView,
    topic: Seq<char>,
    id: MessageId,
    ch: ChannelId,
    author: UserId,
    ciphertext: Seq<u8>,
    nonce: Seq<u8>,
    signature: Seq<u8>,
    at: Timestamp,
    fx: Seq<EffectView>,
)
    ensures
        channel_event_handled(
            s,
            after,
            topic,
            NetworkEventView::EditMessage {
                message_id: id,
                channel_id: ch,
                author_id: author,
                new_ciphertext: ciphertext,
                new_nonce: nonce,
                signature,
                timestamp: at,
            },
            fx,
        ) && edit_accepted(s, id, ch, author, ciphertext, signature) ==> {
            let c = s.channels[ch.name()].community_id.name();
            let key = s.channel_keys[ch.name()];
            &&& fx.len() == 1
            &&& fx[0] matches EffectView::Push(PushEventView::MessageEdited(d)) && {
                &&& d.message_id == id.name()
                &&& d.channel_id == ch.name()
                &&& d.community_id == c
                &&& d.author_id == author.name()
                &&& shown_as(s, c, author.name(), d.author_name)
                &&& d.timestamp == at
                &&& !s.channel_keys.contains_key(ch.name()) ==> d.body is None
                &&& s.channel_keys.contains_key(ch.name()) && xchacha_opened(
                    key,
                    nonce,
                    ciphertext,
                ) is None ==> d.body is None
                &&& s.channel_keys.contains_key(ch.name()) && xchacha_opened(
                    key,
                    nonce,
                    ciphertext,
                ) is Some ==> match decoded_content(xchacha_opened(key, nonce, ciphertext)->0) {
                    Some(MessageContentView::Text { body, .. }) => d.body == Some(body),
                    _ => d.body is None,
                }
            }
        },
        channel_event_handled(
            s,
            after,
            topic,
            NetworkEventView::DeleteMessage {
                message_id: id,
                channel_id: ch,
                author_id: author,
                signature,
                timestamp: at,
            },
            fx,
        ) && s.channels.contains_key(ch.name()) && s.message_log.entry(
            ch.name(),
            id.name(),
        ) is Some && s.message_log.entry(ch.name(), id.name())->0.author_id == author.name()
            ==> fx.contains(
            EffectView::Push(
                PushEventView::MessageDeleted(
                    MessageDeletedDataView {
                        message_id: id.name(),
                        channel_id: ch.name(),
                        community_id: s.channels[ch.name()].community_id.name(),
                    },
                ),
            ),
        ),
{
    if fx.len() > 0 {
        assert(fx.contains(fx[0]));
    }
}

/// An accepted rotation is saved, stored without a key, and followed by a fetch from a
/// connected peer, if there is one.
pub proof fn announced_rotations_are_followed_up(
    s: AppStateView,
    after: AppStateView,
    topic: Seq<char>,
    m: ChannelManifestView,
    signature: Seq<u8>,
    fx: Seq<EffectView>,
)
    requires
        rotation_accepted(s, m, signature),
        channel_event_handled(
            s,
            after,
            topic,
            NetworkEventView::ChannelKeyRotation { new_manifest: m, signature },
            fx,
        ),
    ensures
        fx.contains(EffectView::Save(TableFile::Channels)),
        fx.contains(
            EffectView::Store(
                StoreUpdateView::SyncChannel {
                    community_id: m.community_id.name(),
                    channel_id: m.id.name(),
                    with_key: false,
                },
            ),
        ),
        peers_of(s, m.community_id.name()).len() > 0 ==> exists|i: int|
            0 <= i < peers_of(s, m.community_id.name()).len() && #[trigger] fx.contains(
                fetch_manifest(
                    peers_of(s, m.community_id.name())[i].peer_id,
                    m.community_id.name(),
                    s.communities[m.community_id.name()].manifest.public_key,
                ),
            ),
{
    assert(fx.contains(fx[0]));
    assert(fx.contains(fx[1]));
    let c = m.community_id.name();
    let peers = peers_of(s, c);
    if peers.len() > 0 {
        in_range(peers, 0);
        let i = match admin_index(peers, 0) {
            Some(i) => i,
            None => 0,
        };
        assert(fx[2] == fetch_manifest(
            peers[i].peer_id,
            c,
            s.communities[c].manifest.public_key,
        ));
        assert(fx.contains(fx[2]));
    }
}

proof fn in_range(peers: Seq<PeerSummaryView>, from: int)
    ensures
        admin_index(peers, from) matches Some(i)
            ==> 0 <= i < peers.len(),
    decreases peers.len() - from,
{
    if 0 <= from < peers.len() {
        in_range(peers, from + 1);
    }
}

/// The arrival of a channel's history is reported, whatever it holds.
pub proof fn histories_are_reported(
    s: AppStateView,
    c: Seq<char>,
    ch: Seq<char>,
    entries: Seq<LogEntryView>,
)
    ensures
        history_effects(s, c, ch, entries).contains(
            EffectView::Push(
                PushEventView::SyncProgress(
                    SyncProgressDataView { channel_id: ch, complete: true },
                ),
            ),
        ),
        history_effects(s, c, ch, entries).contains(
            EffectView::Push(
                PushEventView::ChannelHistorySynced(
                    ChannelHistorySyncedDataView { channel_id: ch, community_id: c },
                ),
            ),
        ),
{
    let fx = history_effects(s, c, ch, entries);
    assert(fx.contains(fx[fx.len() - 2]));
    assert(fx.contains(fx[fx.len() - 1]));
}

/// New and deleted channels are reported by name.
pub proof fn channels_are_reported(
    s: AppStateView,
    c: Seq<char>,
    channel: ChannelManifestView,
    ch: Seq<char>,
)
    ensures
        channel_created_effects(s, c, channel).contains(
            EffectView::Push(
                PushEventView::ChannelCreated(
                    ChannelEventDataView {
                        channel_id: channel.id.name(),
                        community_id: c,
                        name: channel.name,
                    },
                ),
            ),
        ),
        delete_refusal(s, c, ch) is None ==> channel_deleted_effects(s, c, ch).contains(
            EffectView::Push(
                PushEventView::ChannelDeleted(
                    ChannelEventDataView {
                        channel_id: ch,
                        community_id: c,
                        name: s.channels[ch].name,
                    },
                ),
            ),
        ),
        delete_refusal(s, c, ch) is None ==> channel_deleted_effects(s, c, ch).contains(
            EffectView::Store(StoreUpdateView::DropChannel { community_id: c, channel_id: ch }),
        ),
{
    let made = channel_created_effects(s, c, channel);
    assert(made.contains(made[9]));
    let gone = channel_deleted_effects(s, c, ch);
    if delete_refusal(s, c, ch) is None {
        assert(gone.contains(gone[6]));
        assert(gone.contains(gone[3]));
    }
}

/// A record that is accepted is reported with its user and name; so is a departure that
/// takes effect, with the name on the record that goes.
pub proof fn comings_and_goings_are_reported(
    s: AppStateView,
    after: AppStateView,
    m: MembershipRecordView,
    user: UserId,
    community: CommunityId,
    signature: Seq<u8>,
    fx: Seq<EffectView>,
)
    ensures
        member_joined(s, after, m, fx) && join_accepted(s, m) ==> fx.contains(
            EffectView::Push(
                PushEventView::MemberJoined(
                    MemberEventDataView {
                        user_id: m.user_id.name(),
                        community_id: m.community_id.name(),
                        display_name: m.display_name,
                    },
                ),
            ),
        ) && (s.communities.contains_key(m.community_id.name()) ==> fx.contains(
            EffectView::Store(
                StoreUpdateView::SyncMember {
                    community_id: m.community_id.name(),
                    user_id: m.user_id.name(),
                },
            ),
        )),
        member_left(s, after, user, community, signature, fx) && after != s ==> fx.contains(
            EffectView::Push(
                PushEventView::MemberLeft(
                    MemberEventDataView {
                        user_id: user.name(),
                        community_id: community.name(),
                        display_name: s.members[community.name()][user.name()].display_name,
                    },
                ),
            ),
        ) && (s.communities.contains_key(community.name()) ==> fx.contains(
            EffectView::Store(
                StoreUpdateView::DropMember {
                    community_id: community.name(),
                    user_id: user.name(),
                },
            ),
        )),
{
    if fx.len() > 0 {
        assert(fx.contains(fx.last()));
    }
    if fx.len() > 1 {
        assert(fx.contains(fx[1]));
    }
    if fx.len() > 2 {
        assert(fx.contains(fx[2]));
    }
}

/// A presence that changes is reported with the status that then stands.
pub proof fn presences_are_reported(
    s: AppStateView,
    after: AppStateView,
    user: UserId,
    status: Seq<char>,
    at: Timestamp,
    signature: Seq<u8>,
    fx: Seq<EffectView>,
)
    requires
        heartbeat_handled(s, after, user, status, at, signature, fx),
        after != s,
    ensures
        fx == seq![
            EffectView::Push(
                PushEventView::PresenceChanged(
                    PresenceChangedDataView {
                        user_id: user.name(),
                        status: status_name(
                            after.presence[user.name()],
                        ),
                        last_seen: at,
                    },
                ),
            ),
        ],
{
}

/// A deleted community is reported as gone; a channel that an update drops is reported,
/// left and struck off; a channel that it adds is listened to.
pub proof fn updates_are_reported(
    s: AppStateView,
    after: AppStateView,
    m: SignedManifestView,
    source: Option<Seq<char>>,
    parsed: Map<Seq<char>, NodeAddr>,
    fx: Seq<EffectView>,
    x: ChannelId,
)
    requires
        update_handled(s, after, m, source, parsed, fx),
        update_accepted(s, m),
        s.communities.contains_key(m.manifest.id.name()),
    ensures
        m.manifest.deleted ==> fx.contains(
            EffectView::Push(
                PushEventView::CommunityDeleted(
                    CommunityEventDataView {
                        community_id: m.manifest.id.name(),
                        version: m.manifest.version,
                        reason: Seq::empty(),
                    },
                ),
            ),
        ),
        !m.manifest.deleted ==> fx.contains(
            EffectView::Push(
                PushEventView::CommunityManifestUpdated(
                    CommunityEventDataView {
                        community_id: m.manifest.id.name(),
                        version: m.manifest.version,
                        reason: Seq::empty(),
                    },
                ),
            ),
        ),
        !m.manifest.deleted && source is Some ==> fx.contains(
            fetch_manifest(source->0, m.manifest.id.name(), m.manifest.public_key),
        ),
        !m.manifest.deleted && m.manifest.channel_ids.contains(x)
            && !s.communities[m.manifest.id.name()].manifest.channel_ids.contains(x)
            ==> fx.contains(subscribe(channel_topic(x.name()))),
        !m.manifest.deleted && !m.manifest.channel_ids.contains(x)
            && s.communities[m.manifest.id.name()].manifest.channel_ids.contains(x)
            ==> fx.contains(unsubscribe(channel_topic(x.name()))) && fx.contains(
            EffectView::Push(
                PushEventView::ChannelDeleted(
                    ChannelEventDataView {
                        channel_id: x.name(),
                        community_id: m.manifest.id.name(),
                        name: Seq::empty(),
                    },
                ),
            ),
        ),
{
    let c = m.manifest.id.name();
    assert(fx.contains(fx.last()));
    if !m.manifest.deleted {
        let old_ids = s.communities[c].manifest.channel_ids;
        let new_ids = m.manifest.channel_ids;
        let added = ids_missing(new_ids, old_ids);
        let dropped = ids_missing(
            old_ids,
            new_ids,
        );
        missing_are_listed(new_ids, old_ids, x);
        missing_are_listed(old_ids, new_ids, x);
        if added.contains(x) {
            let k = added.index_of(x);
            assert(fx[2 + k] == subscribe(channel_topic(x.name())));
        }
        let at: int = 2 + added.len() as int;
        if dropped.contains(x) {
            let k = dropped.index_of(x);
            let n = dropped.len();
            assert(fx[at + k] == unsubscribe(channel_topic(x.name())));
            let y = EffectView::Push(
                PushEventView::ChannelDeleted(
                    ChannelEventDataView {
                        channel_id: x.name(),
                        community_id: c,
                        name: Seq::empty(),
                    },
                ),
            );
            assert(fx[at + n + 1 + k] == y);
        }
        if source is Some {
            let drops = drop_effects(
                c,
                channel_names(dropped),
            );
            assert(fx[at + drops.len() as int] == fetch_manifest(
                source->0,
                c,
                m.manifest.public_key,
            ));
        }
    }
}

proof fn missing_are_listed(list: Seq<ChannelId>, other: Seq<ChannelId>, x: ChannelId)
    ensures
        ids_missing(list, other).contains(x)
            <==> list.contains(x) && !other.contains(x),
    decreases list.len(),
{
    let all = ids_missing(list, other);
    if list.len() > 0 {
        let short = list.drop_last();
        let head = ids_missing(short, other);
        missing_are_listed(short, other, x);
        if list.contains(x) {
            let k = list.index_of(x);
            if k < short.len() {
                assert(short[k] == x);
            }
        }
        if short.contains(x) {
            assert(list[short.index_of(x)] == x);
        }
        if head.contains(x) {
            assert(all[head.index_of(x)] == x);
        }
        if all.contains(x) && !head.contains(x) {
            let k = all.index_of(x);
            if k < head.len() {
                assert(head[k] == x);
            }
            assert(list[list.len() - 1] == x);
        }
        if list.last() == x && !other.contains(x) {
            assert(all[all.len() - 1] == x);
        }
    }
}

/// A community whose first seed moves is reached at the new one, where its certificate
/// is pinned.
pub proof fn moved_seeds_are_dialled(
    s: AppStateView,
    after: AppStateView,
    m: SignedManifestView,
    source: Option<Seq<char>>,
    parsed: Map<Seq<char>, NodeAddr>,
    fx: Seq<EffectView>,
)
    requires
        update_handled(s, after, m, source, parsed, fx),
        update_accepted(s, m),
        !m.manifest.deleted,
        m.manifest.seed_nodes.len() > 0,
        s.communities[m.manifest.id.name()].manifest.seed_nodes.len() == 0
            || s.communities[m.manifest.id.name()].manifest.seed_nodes[0]
            != m.manifest.seed_nodes[0],
        m.manifest.seed_nodes[0].len() > 0,
        parsed.contains_key(m.manifest.seed_nodes[0]),
        s.seed_fingerprints.contains_key(m.manifest.seed_nodes[0]),
        s.seed_fingerprints[m.manifest.seed_nodes[0]].len() == 32,
        exists|i: int|
            0 <= i < 32 && #[trigger] s.seed_fingerprints[m.manifest.seed_nodes[0]][i] != 0,
    ensures
        fx.contains(
            seed_dial(
                parsed[m.manifest.seed_nodes[0]],
                m.manifest.public_key,
                m.manifest.id.name(),
                hosting_password(s, m.manifest.id.name()),
                s.seed_fingerprints[m.manifest.seed_nodes[0]],
            ),
        ),
{
    let seed = m.manifest.seed_nodes[0];
    let fp = s.seed_fingerprints[seed];
    let i = choose|i: int| 0 <= i < 32 && #[trigger] fp[i] != 0;
    assert(fp != zeros(32)) by {
        assert(zeros(32)[i] == 0);
    }
    assert(fingerprint_for(None, s.seed_fingerprints, seed) == fp);
    assert(fx.contains(fx[fx.len() - 2]));
}

/// Whoever may not speak in an announcement channel is told so; whoever may is not
/// kept from it, nor is anybody kept from another channel.
pub proof fn announcement_channels_are_for_moderators(
    s: AppStateView,
    c: Seq<char>,
    ch: Seq<char>,
    body: Seq<char>,
)
    requires
        s.channels.contains_key(ch),
        s.member_list(c).contains_key(s.me()),
    ensures
        s.channels[ch].kind == ChannelKind::Announcement && !s.member_list(
            c,
        )[s.me()].is_privileged() ==> send_refusal(s, c, ch, body) is Some,
        s.channels[ch].kind != ChannelKind::Announcement || s.member_list(
            c,
        )[s.me()].is_privileged() ==> send_refusal(s, c, ch, body) != Some(
            RpcError::AnnouncementOnly,
        ),
{
}

/// A community that this node joined without a manifest stands in for it until the
/// manifest is fetched: same key, same id, no version, no channels.
pub proof fn joined_communities_stand(
    s: AppStateView,
    after: AppStateView,
    pk: Seq<u8>,
    c: Seq<char>,
    stored: StoredView,
    fx: Seq<EffectView>,
)
    requires
        join_noted(s, after, pk, c, stored, fx),
    ensures
        fx.contains(subscribe(community_topic(c))),
        s.communities.contains_key(c) ==> after == s,
        !s.communities.contains_key(c) && stored is Manifest ==> after.communities
            == s.communities.insert(c, stored->Manifest_0) && fx.contains(
            EffectView::Save(TableFile::Communities),
        ),
        !s.communities.contains_key(c) && stored is Placeholder ==> {
            &&& after.communities.contains_key(c)
            &&& after.communities[c].manifest.public_key == pk
            &&& ulid_parse(c) is Some ==> after.communities[c].manifest.id.0 == ulid_parse(c)->0
            &&& after.communities[c].manifest.version == 0
            &&& after.communities[c].manifest.channel_ids.len() == 0
            &&& after.communities[c].manifest.admin_ids.len() == 0
            &&& after.communities[c].manifest.seed_nodes.len() == 0
            &&& !after.communities[c].manifest.deleted
            &&& after.pending_manifest_syncs.contains(c)
            &&& forall|d: Seq<char>|
                d != c ==> (#[trigger] after.communities.contains_key(d)
                    <==> s.communities.contains_key(d))
            &&& forall|d: Seq<char>| d != c ==> #[trigger] after.communities[d] == s.communities[d]
        },
        stored is Nothing ==> after == s,
{
    assert(fx.contains(fx[0]));
    if fx.len() > 1 {
        assert(fx.contains(fx[1]));
    }
    if !s.communities.contains_key(c) && stored is Placeholder {
        let t = after.pending_manifest_syncs;
        if !s.pending_manifest_syncs.contains(c) {
            assert(t[t.len() - 1] == c);
        }
    }
}

} // verus!
