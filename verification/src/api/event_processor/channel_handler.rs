//! Events on channel topics.

use crate::api::effects::{
    emit, no_effects, Effect, EffectView, StoreUpdate, StoreUpdateView, TableFile,
};
use crate::api::push_broadcaster::{
    ChannelHistorySyncedData, ChannelHistorySyncedDataView, MessageDeletedData,
    MessageDeletedDataView, MessageEventData, MessageEventDataView, PushEvent, PushEventView,
    ReactionUpdatedData, ReactionUpdatedDataView, SyncProgressData, SyncProgressDataView,
};
use crate::api::rpc_server::community::peers_of;
use crate::api::rpc_server::message::{
    carried, keys_of, log_entry, member_name, reply_name, shows, signs_edit,
};
use crate::api::types::{PeerSummary, PeerSummaryView};
use crate::api::{fetch_manifest, AppState, AppStateView, BufferedMessage, BufferedMessageView};
use crate::crypto::channel_keys::{decrypt_with_fallback, opened_with_fallback};
use crate::crypto::primitives::{ed25519_public_key, ed25519_signature, xchacha_opened};
use crate::lists::{array_deep_view, vec_deep_view, views, views_push};
use crate::model::channel::ChannelManifestView;
use crate::model::message::{
    decoded_content, MessageContent, MessageContentView, RawMessage, RawMessageView,
};
use crate::model::network_event::{
    accepts, edit_bytes, edit_message, verify_bytes, ChannelKeyRotationPayload,
    DeleteMessagePayload, EditMessagePayload, NetworkEvent, NetworkEventView,
};
use crate::model::types::{ulid_parse, ulid_text_round_trip, ChannelId, MessageId, UserId};
use crate::network::network_handle::types::NetworkCommand;
use crate::state::message_log::{LogEntry, LogEntryView, MessageLog, MessageLogView};
use crate::text::{same_text, text};
use crate::time::Timestamp;
use vstd::prelude::*;

verus! {

/// What becomes of a message that comes in on a channel topic.
pub enum Verdict {
    /// It is for a channel without manifest or key, or is already stored.
    Ignored,
    /// No key at hand opens it.
    Unreadable,
    /// Its author is not a member, or did not sign it.
    Forged,
    /// It is stored.
    Stored(Option<MessageContentView>),
}

/// The public key of a member of a community.
pub open spec fn member_pk(s: AppStateView, community_id: Seq<char>, user: Seq<char>) -> Option<
    Seq<u8>,
> {
    if s.member_list(community_id).contains_key(user) {
        Some(s.member_list(community_id)[user].public_key)
    } else {
        None
    }
}

/// What becomes of a message that comes in on a channel topic.
pub open spec fn verdict(s: AppStateView, m: RawMessageView) -> Verdict {
    let channel = m.channel_id.name();
    if !s.channels.contains_key(channel) || !s.channel_keys.contains_key(channel) {
        Verdict::Ignored
    } else {
        let keys = keys_of(s, channel);
        match opened_with_fallback(keys.0, keys.1, m.nonce, m.ciphertext) {
            None => Verdict::Unreadable,
            Some(plain) => {
                match member_pk(s, s.channels[channel].community_id.name(), m.author_id.name()) {
                    None => Verdict::Forged,
                    Some(pk) => if !m.signed_by(pk) {
                        Verdict::Forged
                    } else if s.message_log.entry(channel, m.id.name()) is Some {
                        Verdict::Ignored
                    } else {
                        Verdict::Stored(decoded_content(plain))
                    },
                }
            },
        }
    }
}

/// The log after a reaction took effect; other contents change nothing.
pub open spec fn with_content(
    log: MessageLogView,
    content: Option<MessageContentView>,
    author: Seq<char>,
) -> MessageLogView {
    match content {
        Some(MessageContentView::Reaction { target_message_id, emoji, is_add }) => {
            log.with_reaction(target_message_id, emoji, author, is_add)
        },
        _ => log,
    }
}

/// The messages that wait for a key, with one more at the end.
pub open spec fn buffered(
    pending: Map<Seq<char>, Seq<BufferedMessageView>>,
    topic: Seq<char>,
    m: RawMessageView,
) -> Map<Seq<char>, Seq<BufferedMessageView>> {
    let channel = m.channel_id.name();
    if pending.contains_key(channel) {
        pending.insert(
            channel,
            pending[channel].push(BufferedMessageView { topic, message: m }),
        )
    } else {
        pending
    }
}

/// The state after a message came in on a channel topic.
pub open spec fn message_received(s: AppStateView, topic: Seq<char>, m: RawMessageView) -> AppStateView {
    let channel = m.channel_id.name();
    match verdict(s, m) {
        Verdict::Unreadable => AppStateView {
            pending_rotation_messages: buffered(s.pending_rotation_messages, topic, m),
            ..s
        },
        Verdict::Stored(content) => AppStateView {
            message_log: with_content(s.message_log, content, m.author_id.name()).appended(
                channel,
                log_entry(m, s.message_log.entries(channel).len()),
            ),
            ..s
        },
        _ => s,
    }
}

/// Copy a log entry to the hosting store, when the community is known.
pub open spec fn store_message(
    s: AppStateView,
    community_id: Seq<char>,
    channel_id: Seq<char>,
    message_id: Seq<char>,
) -> Seq<EffectView> {
    if s.communities.contains_key(community_id) {
        seq![
            EffectView::Store(
                StoreUpdateView::AppendMessage { community_id, channel_id, message_id },
            ),
        ]
    } else {
        Seq::empty()
    }
}

/// Tell clients about a stored message.
pub open spec fn stored_push(
    s: AppStateView,
    m: RawMessageView,
    content: Option<MessageContentView>,
) -> EffectView {
    let channel = m.channel_id.name();
    let community = s.channels[channel].community_id.name();
    match content {
        Some(MessageContentView::Reaction { target_message_id, .. }) => EffectView::Push(
            PushEventView::ReactionUpdated(
                ReactionUpdatedDataView {
                    message_id: target_message_id,
                    channel_id: channel,
                    community_id: community,
                    reactions: with_content(
                        s.message_log,
                        content,
                        m.author_id.name(),
                    ).reactions_of(target_message_id),
                },
            ),
        ),
        _ => EffectView::Push(
            PushEventView::MessageNew(
                MessageEventDataView {
                    message_id: m.id.name(),
                    channel_id: channel,
                    community_id: community,
                    author_id: m.author_id.name(),
                    author_name: member_name(s, community, m.author_id.name()),
                    timestamp: m.timestamp,
                    body: None,
                },
            ),
        ),
    }
}

/// What is done after a message came in on a channel topic.
pub open spec fn received_effects(s: AppStateView, m: RawMessageView) -> Seq<EffectView> {
    let channel = m.channel_id.name();
    match verdict(s, m) {
        Verdict::Stored(content) => store_message(
            s,
            s.channels[channel].community_id.name(),
            channel,
            m.id.name(),
        ) + seq![stored_push(s, m, content)],
        _ => Seq::empty(),
    }
}

/// Whether an edit is accepted: the message exists, belongs to the claimed
/// author, and that author, a member of the channel's community, signed it.
pub open spec fn edit_accepted(
    s: AppStateView,
    message_id: MessageId,
    channel_id: ChannelId,
    author_id: UserId,
    ciphertext: Seq<u8>,
    signature: Seq<u8>,
) -> bool {
    let channel = channel_id.name();
    &&& s.message_log.entry(channel, message_id.name()) matches Some(e) && e.author_id
        == author_id.name()
    &&& s.channels.contains_key(channel)
    &&& member_pk(s, s.channels[channel].community_id.name(), author_id.name()) matches Some(pk)
        && accepts(pk, edit_message(message_id, channel_id, ciphertext), signature)
}

/// The text of a ciphertext under the current key of a channel.
pub open spec fn readable_text(
    s: AppStateView,
    channel: Seq<char>,
    nonce: Seq<u8>,
    ciphertext: Seq<u8>,
) -> Option<Seq<char>> {
    if s.channel_keys.contains_key(channel) {
        match xchacha_opened(s.channel_keys[channel], nonce, ciphertext) {
            Some(plain) => match decoded_content(plain) {
                Some(MessageContentView::Text { body, .. }) => Some(body),
                _ => None,
            },
            None => None,
        }
    } else {
        None
    }
}

/// Tell clients about an edit.
pub open spec fn edited_push(
    s: AppStateView,
    message_id: MessageId,
    channel_id: ChannelId,
    author_id: UserId,
    nonce: Seq<u8>,
    ciphertext: Seq<u8>,
    at: Timestamp,
) -> EffectView {
    let channel = channel_id.name();
    let community = s.channels[channel].community_id.name();
    EffectView::Push(
        PushEventView::MessageEdited(
            MessageEventDataView {
                message_id: message_id.name(),
                channel_id: channel,
                community_id: community,
                author_id: author_id.name(),
                author_name: member_name(s, community, author_id.name()),
                timestamp: at,
                body: readable_text(s, channel, nonce, ciphertext),
            },
        ),
    )
}

/// Whether a deletion is accepted: the message exists and belongs to the
/// claimed author.
pub open spec fn deletion_accepted(
    s: AppStateView,
    message_id: MessageId,
    channel_id: ChannelId,
    author_id: UserId,
) -> bool {
    s.message_log.entry(channel_id.name(), message_id.name()) matches Some(e) && e.author_id
        == author_id.name()
}

/// Tell clients about a deletion, when the channel is known.
pub open spec fn deleted_effects(
    s: AppStateView,
    message_id: MessageId,
    channel_id: ChannelId,
) -> Seq<EffectView> {
    let channel = channel_id.name();
    if s.channels.contains_key(channel) {
        seq![
            EffectView::Push(
                PushEventView::MessageDeleted(
                    MessageDeletedDataView {
                        message_id: message_id.name(),
                        channel_id: channel,
                        community_id: s.channels[channel].community_id.name(),
                    },
                ),
            ),
        ]
    } else {
        Seq::empty()
    }
}

/// Where an admin stands in a list of peers, from `from` on.
pub open spec fn admin_index(peers: Seq<PeerSummaryView>, from: int) -> Option<int>
    decreases peers.len() - from,
{
    if from < 0 || from >= peers.len() {
        None
    } else if peers[from].is_admin {
        Some(from)
    } else {
        admin_index(peers, from + 1)
    }
}

/// The peer to sync a community from: the admin if connected, else the first.
pub open spec fn sync_peer(s: AppStateView, community_id: Seq<char>) -> Option<Seq<char>> {
    let peers = peers_of(s, community_id);
    match admin_index(peers, 0) {
        Some(i) => Some(peers[i].peer_id),
        None => if peers.len() > 0 {
            Some(peers[0].peer_id)
        } else {
            None
        },
    }
}

/// Whether a key rotation is accepted: the community is known, its key signed
/// the new channel manifest, and that is newer than the one at hand.
pub open spec fn rotation_accepted(
    s: AppStateView,
    m: ChannelManifestView,
    signature: Seq<u8>,
) -> bool {
    let community = m.community_id.name();
    &&& s.communities.contains_key(community)
    &&& accepts(s.communities[community].manifest.public_key, m.canonical(), signature)
    &&& s.channels.contains_key(m.id.name())
    &&& m.version > s.channels[m.id.name()].version
}

/// The state after a key rotation was announced: the new manifest is stored,
/// and messages that cannot be read yet are kept from now on.
pub open spec fn rotation_applied(s: AppStateView, m: ChannelManifestView) -> AppStateView {
    let channel = m.id.name();
    AppStateView {
        channels: s.channels.insert(channel, m),
        pending_rotation_messages: if s.pending_rotation_messages.contains_key(channel) {
            s.pending_rotation_messages
        } else {
            s.pending_rotation_messages.insert(channel, Seq::empty())
        },
        ..s
    }
}

/// What is done after a key rotation was announced.
pub open spec fn rotation_effects(s: AppStateView, m: ChannelManifestView) -> Seq<EffectView> {
    let community = m.community_id.name();
    let fetch = match sync_peer(s, community) {
        Some(peer) => seq![
            fetch_manifest(peer, community, s.communities[community].manifest.public_key),
        ],
        None => Seq::empty(),
    };
    seq![
        EffectView::Save(TableFile::Channels),
        EffectView::Store(
            StoreUpdateView::SyncChannel {
                community_id: community,
                channel_id: m.id.name(),
                with_key: false,
            },
        ),
    ] + fetch
}

/// What a ciphertext says under the given key.
pub open spec fn content_under(
    key: Option<Seq<u8>>,
    nonce: Seq<u8>,
    ciphertext: Seq<u8>,
) -> Option<MessageContentView> {
    match key {
        Some(k) => match xchacha_opened(k, nonce, ciphertext) {
            Some(plain) => decoded_content(plain),
            None => None,
        },
        None => None,
    }
}

/// The log after the entries of a history were merged in: entries that it has
/// already are skipped, reactions take effect, and the rest is appended in
/// order.
pub open spec fn merged(
    log: MessageLogView,
    channel: Seq<char>,
    key: Option<Seq<u8>>,
    entries: Seq<LogEntryView>,
) -> MessageLogView
    decreases entries.len(),
{
    if entries.len() == 0 {
        log
    } else {
        let before = merged(log, channel, key, entries.drop_last());
        let e = entries.last();
        if before.entry(channel, e.message_id) is Some {
            before
        } else {
            with_content(before, content_under(key, e.nonce, e.ciphertext), e.author_id).appended(
                channel,
                e,
            )
        }
    }
}

/// Copies of the merged entries for the hosting store.
pub open spec fn merged_effects(
    s: AppStateView,
    community_id: Seq<char>,
    channel: Seq<char>,
    key: Option<Seq<u8>>,
    entries: Seq<LogEntryView>,
) -> Seq<EffectView>
    decreases entries.len(),
{
    if entries.len() == 0 {
        Seq::empty()
    } else {
        let head = merged_effects(s, community_id, channel, key, entries.drop_last());
        let e = entries.last();
        if merged(s.message_log, channel, key, entries.drop_last()).entry(
            channel,
            e.message_id,
        ) is Some {
            head
        } else {
            head + store_message(s, community_id, channel, e.message_id)
        }
    }
}

/// Tell clients how far the sync of a channel has come.
pub open spec fn sync_push(channel_id: Seq<char>, complete: bool) -> EffectView {
    EffectView::Push(PushEventView::SyncProgress(SyncProgressDataView { channel_id, complete }))
}

/// Tell clients that a channel is in sync.
pub open spec fn synced_pushes(community_id: Seq<char>, channel_id: Seq<char>) -> Seq<EffectView> {
    seq![
        sync_push(channel_id, true),
        EffectView::Push(
            PushEventView::ChannelHistorySynced(
                ChannelHistorySyncedDataView { channel_id, community_id },
            ),
        ),
    ]
}

/// The current key of a channel.
pub open spec fn key_of(s: AppStateView, channel: Seq<char>) -> Option<Seq<u8>> {
    keys_of(s, channel).0
}

/// The state after the history of a channel came in.
pub open spec fn history_received(
    s: AppStateView,
    channel: Seq<char>,
    entries: Seq<LogEntryView>,
) -> AppStateView {
    if ulid_parse(channel) is None {
        s
    } else {
        AppStateView {
            message_log: merged(s.message_log, channel, key_of(s, channel), entries),
            ..s
        }
    }
}

/// What is done after the history of a channel came in.
pub open spec fn history_effects(
    s: AppStateView,
    community_id: Seq<char>,
    channel: Seq<char>,
    entries: Seq<LogEntryView>,
) -> Seq<EffectView> {
    let stores = if ulid_parse(channel) is None {
        Seq::empty()
    } else {
        merged_effects(s, community_id, channel, key_of(s, channel), entries)
    };
    stores + synced_pushes(community_id, channel)
}

/// The peer to sync from among the given ones: an admin, else the first.
pub fn preferred_peer(peers: &Vec<PeerSummary>) -> (r: Option<String>)
    ensures
        r.deep_view() == match admin_index(peers.deep_view(), 0) {
            Some(i) => Some(peers.deep_view()[i].peer_id),
            None => if peers.deep_view().len() > 0 {
                Some(peers.deep_view()[0].peer_id)
            } else {
                None
            },
        },
{
    let ghost all = peers.deep_view();
    let mut i: usize = 0;
    while i < peers.len()
        invariant
            i <= peers@.len(),
            all == peers.deep_view(),
            admin_index(all, 0) == admin_index(all, i as int),
        decreases peers@.len() - i,
    {
        if peers[i].is_admin {
            return Some(peers[i].peer_id.clone());
        }
        i += 1;
    }
    if peers.len() > 0 {
        Some(peers[0].peer_id.clone())
    } else {
        None
    }
}

/// Tell clients how far the sync of a channel has come.
pub fn push_sync(out: &mut Vec<Effect>, channel_id: &str, complete: bool)
    ensures
        final(out).deep_view() == old(out).deep_view().push(sync_push(channel_id@, complete)),
{
    emit(
        out,
        Effect::Push(
            PushEvent::SyncProgress(SyncProgressData { channel_id: text(channel_id), complete }),
        ),
    );
}

/// Let a reaction take effect on a log; other contents change nothing.
pub fn apply_content(log: &mut MessageLog, content: &Option<MessageContent>, author: &str)
    ensures
        final(log).deep_view() == with_content(
            old(log).deep_view(),
            content.deep_view(),
            author@,
        ),
{
    if let Some(MessageContent::Reaction { target_message_id, emoji, is_add }) = content {
        if *is_add {
            log.react(target_message_id.as_str(), emoji.as_str(), author);
        } else {
            log.unreact(target_message_id.as_str(), emoji.as_str(), author);
        }
    }
}

impl AppState {
    /// The peer to sync a community from.
    pub fn peer_for_sync(&self, community_id: &str) -> (r: Option<String>)
        ensures
            r.deep_view() == sync_peer(self.deep_view(), community_id@),
    {
        match self.connected_peers.get(community_id) {
            Some(list) => preferred_peer(list),
            None => None,
        }
    }

    /// The public key of a member of a community.
    pub fn key_of_member(&self, community_id: &str, user: &str) -> (r: Option<[u8; 32]>)
        ensures
            match r {
                Some(k) => member_pk(self.deep_view(), community_id@, user@) == Some(k@),
                None => member_pk(self.deep_view(), community_id@, user@) is None,
            },
    {
        match self.members.get(community_id) {
            Some(list) => match list.get(user) {
                Some(m) => Some(m.public_key),
                None => None,
            },
            None => None,
        }
    }

    /// Let a reaction take effect; other contents change nothing.
    fn apply_reaction(&mut self, content: &Option<MessageContent>, author: &str)
        ensures
            final(self).deep_view() == (AppStateView {
                message_log: with_content(
                    old(self).deep_view().message_log,
                    content.deep_view(),
                    author@,
                ),
                ..old(self).deep_view()
            }),
    {
        apply_content(&mut self.message_log, content, author);
    }

    /// Keep a message until a key that opens it arrives, if one is awaited.
    fn buffer_message(&mut self, topic: &str, raw: RawMessage)
        ensures
            final(self).deep_view() == (AppStateView {
                pending_rotation_messages: buffered(
                    old(self).deep_view().pending_rotation_messages,
                    topic@,
                    raw.deep_view(),
                ),
                ..old(self).deep_view()
            }),
    {
        broadcast use vec_deep_view, views_push;

        let ghost s = old(self).deep_view();
        let ghost m = raw.deep_view();
        let channel = raw.channel_id.to_string();
        if let Some(list) = self.pending_rotation_messages.remove(channel.as_str()) {
            let mut kept = list;
            kept.push(BufferedMessage { topic: text(topic), message: raw });
            self.pending_rotation_messages.insert(channel.as_str(), kept);
        }
        assert(self.deep_view().pending_rotation_messages =~= buffered(
            s.pending_rotation_messages,
            topic@,
            m,
        ));
    }

    /// Decrypt, check and store a message that came in on a channel topic.
    #[verifier::rlimit(60)]
    pub fn handle_new_message(&mut self, topic: &str, raw: RawMessage) -> (r: Vec<Effect>)
        ensures
            final(self).deep_view() == message_received(
                old(self).deep_view(),
                topic@,
                raw.deep_view(),
            ),
            r.deep_view() == received_effects(old(self).deep_view(), raw.deep_view()),
    {
        broadcast use array_deep_view;

        let ghost s = old(self).deep_view();
        let ghost m = raw.deep_view();
        let channel = raw.channel_id.to_string();
        let community = match self.channels.get(channel.as_str()) {
            Some(c) => c.community_id.to_string(),
            None => {
                return no_effects();
            },
        };
        let key: [u8; 32] = match self.channel_keys.get(channel.as_str()) {
            Some(k) => *k,
            None => {
                return no_effects();
            },
        };
        let previous: Option<[u8; 32]> = match self.previous_channel_keys.get(channel.as_str()) {
            Some(k) => Some(*k),
            None => None,
        };
        let plain = match decrypt_with_fallback(
            Some(key),
            previous,
            &raw.nonce,
            raw.ciphertext.as_slice(),
        ) {
            Some(p) => p,
            None => {
                self.buffer_message(topic, raw);
                return no_effects();
            },
        };
        let content = MessageContent::decode(plain.as_slice());
        let author = raw.author_id.to_string();
        match self.key_of_member(community.as_str(), author.as_str()) {
            Some(pk) => {
                if !raw.verify(&pk) {
                    return no_effects();
                }
            },
            None => {
                return no_effects();
            },
        }
        let id = raw.id.to_string();
        if self.message_log.has_entry(channel.as_str(), id.as_str()) {
            return no_effects();
        }
        self.apply_reaction(&content, author.as_str());
        self.message_log.append(
            channel.as_str(),
            id.clone(),
            author.clone(),
            raw.timestamp.millis(),
            raw.nonce,
            raw.ciphertext,
        );
        let mut out = no_effects();
        if self.communities.contains_key(community.as_str()) {
            emit(
                &mut out,
                Effect::Store(
                    StoreUpdate::AppendMessage {
                        community_id: community.clone(),
                        channel_id: channel.clone(),
                        message_id: id.clone(),
                    },
                ),
            );
        }
        let ghost head = out.deep_view();
        match content {
            Some(MessageContent::Reaction { target_message_id, .. }) => {
                let reactions = self.message_log.get_reactions(target_message_id.as_str());
                emit(
                    &mut out,
                    Effect::Push(
                        PushEvent::ReactionUpdated(
                            ReactionUpdatedData {
                                message_id: target_message_id,
                                channel_id: channel,
                                community_id: community,
                                reactions,
                            },
                        ),
                    ),
                );
            },
            _ => {
                let author_name = self.name_of(community.as_str(), author.as_str());
                emit(
                    &mut out,
                    Effect::Push(
                        PushEvent::MessageNew(
                            MessageEventData {
                                message_id: id,
                                channel_id: channel,
                                community_id: community,
                                author_id: author,
                                author_name,
                                timestamp: raw.timestamp,
                                body: None,
                            },
                        ),
                    ),
                );
            },
        }
        assert(out.deep_view() =~= received_effects(s, m));
        out
    }

    /// Apply an edit that came in: the author's signature must verify.
    pub fn handle_edit_message(&mut self, p: EditMessagePayload) -> (r: Vec<Effect>)
        ensures
            ({
                let s = old(self).deep_view();
                if edit_accepted(
                    s,
                    p.message_id,
                    p.channel_id,
                    p.author_id,
                    p.new_ciphertext@,
                    p.signature@,
                ) {
                    &&& final(self).deep_view() == (AppStateView {
                        message_log: s.message_log.edited(
                            p.channel_id.name(),
                            p.message_id.name(),
                            p.new_nonce@,
                            p.new_ciphertext@,
                        ),
                        ..s
                    })
                    &&& r.deep_view() == seq![
                        edited_push(
                            s,
                            p.message_id,
                            p.channel_id,
                            p.author_id,
                            p.new_nonce@,
                            p.new_ciphertext@,
                            p.timestamp,
                        ),
                    ]
                } else {
                    final(self).deep_view() == s && r.deep_view().len() == 0
                }
            }),
    {
        broadcast use array_deep_view;

        let channel = p.channel_id.to_string();
        let id = p.message_id.to_string();
        let author = p.author_id.to_string();
        match self.message_log.get_entry(channel.as_str(), id.as_str()) {
            Some(e) => {
                if !same_text(e.author_id.as_str(), author.as_str()) {
                    return no_effects();
                }
            },
            None => {
                return no_effects();
            },
        }
        let community = match self.channels.get(channel.as_str()) {
            Some(c) => c.community_id.to_string(),
            None => {
                return no_effects();
            },
        };
        let signed = match self.key_of_member(community.as_str(), author.as_str()) {
            Some(pk) => verify_bytes(
                &pk,
                edit_bytes(&p.message_id, &p.channel_id, p.new_ciphertext.as_slice()).as_slice(),
                p.signature.as_slice(),
            ),
            None => false,
        };
        if !signed {
            return no_effects();
        }
        let body: Option<String> = match self.channel_keys.get(channel.as_str()) {
            Some(k) => match decrypt_with_fallback(
                Some(*k),
                None,
                &p.new_nonce,
                p.new_ciphertext.as_slice(),
            ) {
                Some(plain) => match MessageContent::decode(plain.as_slice()) {
                    Some(MessageContent::Text { body, .. }) => Some(body),
                    _ => None,
                },
                None => None,
            },
            None => None,
        };
        self.message_log.edit(channel.as_str(), id.as_str(), p.new_nonce, p.new_ciphertext);
        let author_name = self.name_of(community.as_str(), author.as_str());
        let mut out = no_effects();
        emit(
            &mut out,
            Effect::Push(
                PushEvent::MessageEdited(
                    MessageEventData {
                        message_id: id,
                        channel_id: channel,
                        community_id: community,
                        author_id: author,
                        author_name,
                        timestamp: p.timestamp,
                        body,
                    },
                ),
            ),
        );
        out
    }

    /// Apply a deletion that came in: the author must match.
    pub fn handle_delete_message(&mut self, p: DeleteMessagePayload) -> (r: Vec<Effect>)
        ensures
            ({
                let s = old(self).deep_view();
                if deletion_accepted(s, p.message_id, p.channel_id, p.author_id) {
                    &&& final(self).deep_view() == (AppStateView {
                        message_log: s.message_log.tombstoned(
                            p.channel_id.name(),
                            p.message_id.name(),
                        ),
                        ..s
                    })
                    &&& r.deep_view() == deleted_effects(s, p.message_id, p.channel_id)
                } else {
                    final(self).deep_view() == s && r.deep_view().len() == 0
                }
            }),
    {
        let channel = p.channel_id.to_string();
        let id = p.message_id.to_string();
        let author = p.author_id.to_string();
        match self.message_log.get_entry(channel.as_str(), id.as_str()) {
            Some(e) => {
                if !same_text(e.author_id.as_str(), author.as_str()) {
                    return no_effects();
                }
            },
            None => {
                return no_effects();
            },
        }
        self.message_log.tombstone(channel.as_str(), id.as_str());
        let mut out = no_effects();
        if let Some(c) = self.channels.get(channel.as_str()) {
            let community_id = c.community_id.to_string();
            emit(
                &mut out,
                Effect::Push(
                    PushEvent::MessageDeleted(
                        MessageDeletedData { message_id: id, channel_id: channel, community_id },
                    ),
                ),
            );
        }
        out
    }

    /// Apply a key rotation that came in: the community key must have signed
    /// the new manifest. The key itself is fetched from a connected peer.
    pub fn handle_channel_key_rotation(&mut self, p: ChannelKeyRotationPayload) -> (r: Vec<Effect>)
        ensures
            ({
                let s = old(self).deep_view();
                let m = p.new_manifest.deep_view();
                if rotation_accepted(s, m, p.signature@) {
                    &&& final(self).deep_view() == rotation_applied(s, m)
                    &&& r.deep_view() == rotation_effects(s, m)
                } else {
                    final(self).deep_view() == s && r.deep_view().len() == 0
                }
            }),
    {
        broadcast use vec_deep_view;

        let ghost s = old(self).deep_view();
        let ghost m = p.new_manifest.deep_view();
        let channel = p.new_manifest.id.to_string();
        let community = p.new_manifest.community_id.to_string();
        let pk: [u8; 32] = match self.communities.get(community.as_str()) {
            Some(signed) => signed.manifest.public_key,
            None => {
                return no_effects();
            },
        };
        if !verify_bytes(
            &pk,
            p.new_manifest.canonical_bytes().as_slice(),
            p.signature.as_slice(),
        ) {
            return no_effects();
        }
        match self.channels.get(channel.as_str()) {
            Some(current) => {
                if p.new_manifest.version <= current.version {
                    return no_effects();
                }
            },
            None => {
                return no_effects();
            },
        }
        self.channels.insert(channel.as_str(), p.new_manifest);
        let mut out = no_effects();
        emit(&mut out, Effect::Save(TableFile::Channels));
        emit(
            &mut out,
            Effect::Store(
                StoreUpdate::SyncChannel {
                    community_id: community.clone(),
                    channel_id: channel.clone(),
                    with_key: false,
                },
            ),
        );
        if !self.pending_rotation_messages.contains_key(channel.as_str()) {
            let empty: Vec<BufferedMessage> = Vec::new();
            assert(empty.deep_view() =~= Seq::<BufferedMessageView>::empty());
            self.pending_rotation_messages.insert(channel.as_str(), empty);
        }
        assert(peers_of(self.deep_view(), community@) == peers_of(s, community@));
        if let Some(peer_id) = self.peer_for_sync(community.as_str()) {
            emit(
                &mut out,
                Effect::Command(
                    NetworkCommand::FetchManifest {
                        peer_id,
                        community_id: community,
                        community_pk: pk,
                    },
                ),
            );
        }
        assert(out.deep_view() =~= rotation_effects(s, m));
        out
    }

    /// Merge the history of a channel that a peer sent.
    #[verifier::rlimit(60)]
    pub fn handle_channel_history_received(
        &mut self,
        community_id: String,
        channel_id: String,
        entries: Vec<LogEntry>,
    ) -> (r: Vec<Effect>)
        ensures
            final(self).deep_view() == history_received(
                old(self).deep_view(),
                channel_id@,
                entries.deep_view(),
            ),
            r.deep_view() == history_effects(
                old(self).deep_view(),
                community_id@,
                channel_id@,
                entries.deep_view(),
            ),
    {
        broadcast use array_deep_view, vec_deep_view;

        let ghost s = old(self).deep_view();
        let ghost all = views(entries@);
        let ghost cid = community_id@;
        let ghost ch = channel_id@;
        let mut out = no_effects();
        if ChannelId::from_string(channel_id.as_str()).is_some() {
            let key: Option<[u8; 32]> = match self.channel_keys.get(channel_id.as_str()) {
                Some(k) => Some(*k),
                None => None,
            };
            let ghost kv = key_of(s, ch);
            let known = self.communities.contains_key(community_id.as_str());
            let n: usize = entries.len();
            let mut i: usize = 0;
            assert(all.subrange(0, 0) =~= Seq::<LogEntryView>::empty());
            while i < n
                invariant
                    i <= n,
                    n == entries@.len(),
                    all == views(entries@),
                    cid == community_id@,
                    ch == channel_id@,
                    kv == key_of(s, ch),
                    match key {
                        Some(k) => kv == Some(k@),
                        None => kv is None,
                    },
                    known == s.communities.contains_key(cid),
                    self.deep_view() == (AppStateView {
                        message_log: merged(s.message_log, ch, kv, all.subrange(0, i as int)),
                        ..s
                    }),
                    out.deep_view() == merged_effects(s, cid, ch, kv, all.subrange(0, i as int)),
                decreases n - i,
            {
                let e = &entries[i];
                let ghost prev = all.subrange(0, i as int);
                assert(all.subrange(0, i + 1).drop_last() =~= prev);
                assert(e.deep_view() == all[i as int]);
                if !self.message_log.has_entry(channel_id.as_str(), e.message_id.as_str()) {
                    let content: Option<MessageContent> = match decrypt_with_fallback(
                        key,
                        None,
                        &e.nonce,
                        e.ciphertext.as_slice(),
                    ) {
                        Some(plain) => MessageContent::decode(plain.as_slice()),
                        None => None,
                    };
                    assert(content.deep_view() == content_under(kv, e.nonce@, e.ciphertext@));
                    self.apply_reaction(&content, e.author_id.as_str());
                    self.message_log.append_entry(channel_id.as_str(), e.clone());
                    if known {
                        emit(
                            &mut out,
                            Effect::Store(
                                StoreUpdate::AppendMessage {
                                    community_id: community_id.clone(),
                                    channel_id: channel_id.clone(),
                                    message_id: e.message_id.clone(),
                                },
                            ),
                        );
                    }
                    assert(out.deep_view() =~= merged_effects(
                        s,
                        cid,
                        ch,
                        kv,
                        all.subrange(0, i + 1),
                    ));
                }
                i += 1;
            }
            assert(all.subrange(0, all.len() as int) =~= all);
        }
        push_sync(&mut out, channel_id.as_str(), true);
        emit(
            &mut out,
            Effect::Push(
                PushEvent::ChannelHistorySynced(
                    ChannelHistorySyncedData { channel_id, community_id },
                ),
            ),
        );
        assert(out.deep_view() =~= history_effects(s, cid, ch, all));
        out
    }

    /// Handle an event that came in on a channel topic.
    pub fn handle_channel_message(&mut self, topic: &str, event: NetworkEvent) -> (r: Vec<Effect>)
        ensures
            channel_event_handled(
                old(self).deep_view(),
                final(self).deep_view(),
                topic@,
                event.deep_view(),
                r.deep_view(),
            ),
    {
        match event {
            NetworkEvent::NewMessage(raw) => self.handle_new_message(topic, raw),
            NetworkEvent::ChannelKeyRotation(p) => self.handle_channel_key_rotation(p),
            NetworkEvent::EditMessage(p) => self.handle_edit_message(p),
            NetworkEvent::DeleteMessage(p) => self.handle_delete_message(p),
            _ => no_effects(),
        }
    }
}

/// What an event on a channel topic leads to.
pub open spec fn channel_event_handled(
    s: AppStateView,
    after: AppStateView,
    topic: Seq<char>,
    event: NetworkEventView,
    fx: Seq<EffectView>,
) -> bool {
    match event {
        NetworkEventView::NewMessage(m) => after == message_received(s, topic, m) && fx
            == received_effects(s, m),
        NetworkEventView::EditMessage {
            message_id,
            channel_id,
            author_id,
            new_ciphertext,
            new_nonce,
            signature,
            timestamp,
        } => if edit_accepted(s, message_id, channel_id, author_id, new_ciphertext, signature) {
            &&& after == (AppStateView {
                message_log: s.message_log.edited(
                    channel_id.name(),
                    message_id.name(),
                    new_nonce,
                    new_ciphertext,
                ),
                ..s
            })
            &&& fx == seq![
                edited_push(
                    s,
                    message_id,
                    channel_id,
                    author_id,
                    new_nonce,
                    new_ciphertext,
                    timestamp,
                ),
            ]
        } else {
            after == s && fx.len() == 0
        },
        NetworkEventView::DeleteMessage { message_id, channel_id, author_id, .. } => {
            if deletion_accepted(s, message_id, channel_id, author_id) {
                &&& after == (AppStateView {
                    message_log: s.message_log.tombstoned(channel_id.name(), message_id.name()),
                    ..s
                })
                &&& fx == deleted_effects(s, message_id, channel_id)
            } else {
                after == s && fx.len() == 0
            }
        },
        NetworkEventView::ChannelKeyRotation { new_manifest, signature } => {
            if rotation_accepted(s, new_manifest, signature) {
                after == rotation_applied(s, new_manifest) && fx == rotation_effects(
                    s,
                    new_manifest,
                )
            } else {
                after == s && fx.len() == 0
            }
        },
        _ => after == s && fx.len() == 0,
    }
}

/// What one member sends another receives: with the same channel key and the
/// sender's record at hand, the content arrives unchanged. A text is shown with
/// its body and reply target; a reaction counts for its target.
pub proof fn sent_messages_arrive(
    sender: AppStateView,
    receiver: AppStateView,
    topic: Seq<char>,
    m: RawMessageView,
    content: MessageContentView,
)
    requires
        ({
            let channel = m.channel_id.name();
            &&& carried(sender, channel, m, content)
            &&& receiver.channels.contains_key(channel)
            &&& receiver.channel_keys.contains_key(channel)
            &&& receiver.channel_keys[channel] == sender.channel_keys[channel]
            &&& member_pk(
                receiver,
                receiver.channels[channel].community_id.name(),
                m.author_id.name(),
            ) == Some(ed25519_public_key(sender.local.key))
            &&& receiver.message_log.entry(channel, m.id.name()) is None
        }),
    ensures
        ({
            let channel = m.channel_id.name();
            let community = receiver.channels[channel].community_id.name();
            let after = message_received(receiver, topic, m);
            &&& verdict(receiver, m) == Verdict::Stored(Some(content))
            &&& after.message_log.entries(channel).len() == receiver.message_log.entries(
                channel,
            ).len() + 1
            &&& content matches MessageContentView::Text { body, reply_to, .. } ==> shows(
                after,
                community,
                channel,
                after.message_log.entries(channel).last(),
                body,
                reply_name(reply_to),
            )
            &&& content matches MessageContentView::Reaction { target_message_id, emoji, is_add }
                ==> after.message_log.reactions_of(target_message_id)
                == receiver.message_log.with_reaction(
                target_message_id,
                emoji,
                m.author_id.name(),
                is_add,
            ).reactions_of(target_message_id)
        }),
{
    let channel = m.channel_id.name();
    let after = message_received(receiver, topic, m);
    assert(keys_of(after, channel) == keys_of(receiver, channel));
    assert(after.message_log.entries(channel).last() == log_entry(
        m,
        receiver.message_log.entries(channel).len(),
    ));
}

/// An edit that its author announces is accepted by every member who has the
/// message and the author's record.
pub proof fn announced_edits_are_accepted(
    sender: AppStateView,
    receiver: AppStateView,
    message_id: MessageId,
    channel_id: ChannelId,
    ciphertext: Seq<u8>,
)
    requires
        signs_edit(sender, channel_id.name(), message_id.name(), ciphertext),
        receiver.channels.contains_key(channel_id.name()),
        receiver.message_log.entry(channel_id.name(), message_id.name()) matches Some(e)
            && e.author_id == sender.local.user_id.name(),
        member_pk(
            receiver,
            receiver.channels[channel_id.name()].community_id.name(),
            sender.local.user_id.name(),
        ) == Some(ed25519_public_key(sender.local.key)),
    ensures
        edit_accepted(
            receiver,
            message_id,
            channel_id,
            sender.local.user_id,
            ciphertext,
            ed25519_signature(sender.local.key, edit_message(message_id, channel_id, ciphertext)),
        ),
{
    ulid_text_round_trip(channel_id.0);
    ulid_text_round_trip(message_id.0);
}

/// A message that came in twice is stored once: handling it again changes
/// nothing.
pub proof fn duplicates_are_ignored(s: AppStateView, topic: Seq<char>, m: RawMessageView)
    requires
        verdict(s, m) is Stored,
    ensures
        ({
            let t = message_received(s, topic, m);
            &&& t.message_log.entry(m.channel_id.name(), m.id.name()) is Some
            &&& message_received(t, topic, m) == t
            &&& received_effects(t, m).len() == 0
        }),
{
    let t = message_received(s, topic, m);
    let channel = m.channel_id.name();
    let log = t.message_log.entries(channel);
    crate::state::message_log::entry_index_found(log, m.id.name(), 0);
    assert(log[log.len() - 1].message_id == m.id.name());
    assert(keys_of(t, channel) == keys_of(s, channel));
}

/// Nothing is stored for an author who is not a member of the channel's
/// community or did not sign the message.
pub proof fn forged_messages_are_not_stored(s: AppStateView, topic: Seq<char>, m: RawMessageView)
    requires
        s.channels.contains_key(m.channel_id.name()),
        match member_pk(
            s,
            s.channels[m.channel_id.name()].community_id.name(),
            m.author_id.name(),
        ) {
            Some(pk) => !m.signed_by(pk),
            None => true,
        },
    ensures
        message_received(s, topic, m).message_log == s.message_log,
        received_effects(s, m).len() == 0,
{
}

/// A message that no key opens is kept for later exactly when its channel
/// awaits a new key, and stored in the log in no case.
pub proof fn unreadable_messages_wait_for_the_key(
    s: AppStateView,
    topic: Seq<char>,
    m: RawMessageView,
)
    requires
        verdict(s, m) is Unreadable,
    ensures
        ({
            let t = message_received(s, topic, m);
            let c = m.channel_id.name();
            &&& t.message_log == s.message_log
            &&& s.pending_rotation_messages.contains_key(c)
                ==> t.pending_rotation_messages[c].last() == (BufferedMessageView {
                topic,
                message: m,
            })
            &&& !s.pending_rotation_messages.contains_key(c) ==> t == s
        }),
{
}

/// Once a rotation is applied, the same announcement and every older one
/// change nothing.
pub proof fn rotations_only_move_forward(
    s: AppStateView,
    m: ChannelManifestView,
    older: ChannelManifestView,
    signature: Seq<u8>,
)
    requires
        older.id.name() == m.id.name(),
        older.version <= m.version,
    ensures
        !rotation_accepted(rotation_applied(s, m), older, signature),
{
}

/// Merging a history keeps every entry that the log had, in place.
pub proof fn merging_keeps_the_log(
    log: MessageLogView,
    channel: Seq<char>,
    key: Option<Seq<u8>>,
    entries: Seq<LogEntryView>,
)
    ensures
        log.entries(channel).len() <= merged(log, channel, key, entries).entries(channel).len(),
        merged(log, channel, key, entries).entries(channel).subrange(
            0,
            log.entries(channel).len() as int,
        ) == log.entries(channel),
    decreases entries.len(),
{
    let n = log.entries(channel).len() as int;
    if entries.len() == 0 {
        assert(log.entries(channel).subrange(0, n) =~= log.entries(channel));
    } else {
        merging_keeps_the_log(log, channel, key, entries.drop_last());
        let before = merged(log, channel, key, entries.drop_last());
        let after = merged(log, channel, key, entries);
        assert(after.entries(channel).subrange(0, n) =~= before.entries(channel).subrange(0, n));
    }
}

/// After a history was merged, the log has an entry for each of its ids.
pub proof fn merging_covers_the_history(
    log: MessageLogView,
    channel: Seq<char>,
    key: Option<Seq<u8>>,
    entries: Seq<LogEntryView>,
    i: int,
)
    requires
        0 <= i < entries.len(),
    ensures
        merged(log, channel, key, entries).entry(channel, entries[i].message_id) is Some,
    decreases entries.len(),
{
    let id = entries[i].message_id;
    let before = merged(log, channel, key, entries.drop_last());
    let after = merged(log, channel, key, entries);
    crate::state::message_log::entry_index_found(after.entries(channel), id, 0);
    if i < entries.len() - 1 {
        merging_covers_the_history(log, channel, key, entries.drop_last(), i);
        crate::state::message_log::entry_index_found(before.entries(channel), id, 0);
        let j = crate::state::message_log::entry_index(before.entries(channel), id, 0)->0;
        assert(after.entries(channel)[j] == before.entries(channel)[j]);
    } else if before.entry(channel, id) is None {
        assert(after.entries(channel)[before.entries(channel).len() as int].message_id == id);
    }
}

} // verus!
