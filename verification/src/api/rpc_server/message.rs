//! Message requests.

use crate::api::effects::{emit, no_effects, Effect, EffectView, StoreUpdate, StoreUpdateView, TableFile};
use crate::api::push_broadcaster::{
    MessageDeletedData, MessageDeletedDataView, MessageEventData, MessageEventDataView, PushEvent,
    PushEventView, ReactionUpdatedData, ReactionUpdatedDataView,
};
use crate::api::rpc_server::{seed_check, RpcError};
use crate::api::types::{
    DeleteMessageParams, EditMessageParams, GetHistoryParams, MarkReadParams, MessageInfo,
    MessageInfoView, ReactionInfo, ReactionInfoView, ReactionParams, SendMessageParams,
};
use crate::api::{channel_topic, topic_of_channel, AppState, AppStateView};
use crate::bytes::to_vec;
use crate::crypto::channel_keys::{decrypt_with_fallback, opened_with_fallback, ChannelKey};
use crate::crypto::primitives::{
    ed25519_public_key, ed25519_signature, encryptable, random_array, xchacha_opened, xchacha_seal,
};
use crate::lists::{array_deep_view, vec_deep_view, views, views_push};
use crate::model::channel::ChannelKind;
use crate::model::message::{
    content_encoding, decoded_content, new_message, AttachmentRef, MessageContent,
    MessageContentView, RawMessage, RawMessageView,
};
use crate::model::network_event::{
    accepts, delete_bytes, delete_message, edit_bytes, edit_message, sign_bytes,
    DeleteMessagePayload, EditMessagePayload, NetworkEvent, NetworkEventView,
};
use crate::model::types::{same_user, ulid_parse, ChannelId, MessageId};
use crate::state::message_log::{entry_index, entry_index_found, LogEntry, LogEntryView};
use crate::text::{same_text, text};
use crate::time::Timestamp;
use vstd::prelude::*;

verus! {

/// Why the local user may not post in a channel.
pub open spec fn posting_refusal(
    s: AppStateView,
    community_id: Seq<char>,
    channel_id: Seq<char>,
) -> Option<RpcError> {
    if s.channels.contains_key(channel_id) && s.channels[channel_id].kind
        == ChannelKind::Announcement {
        if !s.members.contains_key(community_id) {
            Some(RpcError::CommunityNotFound)
        } else if !s.members[community_id].contains_key(s.me()) {
            Some(RpcError::NotAMember)
        } else if !s.members[community_id][s.me()].is_privileged() {
            Some(RpcError::AnnouncementOnly)
        } else {
            None
        }
    } else {
        None
    }
}

/// Why a message is not accepted for sending.
pub open spec fn send_refusal(
    s: AppStateView,
    community_id: Seq<char>,
    channel_id: Seq<char>,
    body: Seq<char>,
) -> Option<RpcError> {
    if body.len() == 0 {
        Some(RpcError::EmptyBody)
    } else {
        match seed_check(s, community_id) {
            Err(e) => Some(e),
            Ok(_) => match posting_refusal(s, community_id, channel_id) {
                Some(e) => Some(e),
                None => if !s.channel_keys.contains_key(channel_id) {
                    Some(RpcError::ChannelNotFound)
                } else {
                    None
                },
            },
        }
    }
}

/// The message that a reply names, if its id is well formed.
pub open spec fn reply_target(reply_to: Option<Seq<char>>) -> Option<MessageId> {
    match reply_to {
        Some(t) => match ulid_parse(t) {
            Some(v) => Some(MessageId(v)),
            None => None,
        },
        None => None,
    }
}

/// The text form of a reply target.
pub open spec fn reply_name(reply_to: Option<MessageId>) -> Option<Seq<char>> {
    match reply_to {
        Some(m) => Some(m.name()),
        None => None,
    }
}

/// A plain text content.
pub open spec fn text_message(body: Seq<char>, reply_to: Option<MessageId>) -> MessageContentView {
    MessageContentView::Text {
        body,
        attachments: Seq::empty(),
        reply_to,
        edited_at: None,
    }
}

/// The log entry of a message.
pub open spec fn log_entry(m: RawMessageView, seq: nat) -> LogEntryView {
    LogEntryView {
        seq: seq as u64,
        nonce: m.nonce,
        ciphertext: m.ciphertext,
        message_id: m.id.name(),
        author_id: m.author_id.name(),
        timestamp_ms: m.timestamp.millis_spec(),
        deleted: false,
    }
}

/// The display name of a member, if known.
pub open spec fn member_name(s: AppStateView, community_id: Seq<char>, user: Seq<char>) -> Option<
    Seq<char>,
> {
    if s.members.contains_key(community_id) && s.members[community_id].contains_key(user) {
        Some(s.members[community_id][user].display_name)
    } else {
        None
    }
}

/// The message that the local user makes of a content.
pub open spec fn own_message(
    s: AppStateView,
    channel_id: Seq<char>,
    content: MessageContentView,
    id: MessageId,
    nonce: Seq<u8>,
    now: Timestamp,
) -> RawMessageView {
    new_message(
        id,
        ChannelId(ulid_parse(channel_id)->0),
        s.local.key,
        s.local.user_id,
        now,
        xchacha_seal(s.channel_keys[channel_id], nonce, content_encoding(content)),
        nonce,
    )
}

/// The state after a message was added to a channel's log.
pub open spec fn message_added(s: AppStateView, channel_id: Seq<char>, m: RawMessageView) -> AppStateView {
    AppStateView {
        message_log: s.message_log.appended(
            channel_id,
            log_entry(m, s.message_log.entries(channel_id).len()),
        ),
        ..s
    }
}

/// What is done after the local user sent a message.
pub open spec fn sent_effects(
    s: AppStateView,
    community_id: Seq<char>,
    channel_id: Seq<char>,
    m: RawMessageView,
) -> Seq<EffectView> {
    seq![
        EffectView::Store(
            StoreUpdateView::AppendMessage { community_id, channel_id, message_id: m.id.name() },
        ),
        EffectView::Publish {
            topic: channel_topic(channel_id),
            event: NetworkEventView::NewMessage(m),
        },
        EffectView::Push(
            PushEventView::MessageNew(
                MessageEventDataView {
                    message_id: m.id.name(),
                    channel_id,
                    community_id,
                    author_id: s.me(),
                    author_name: member_name(s, community_id, s.me()),
                    timestamp: m.timestamp,
                    body: None,
                },
            ),
        ),
    ]
}

/// The current and the previous key of a channel.
pub open spec fn keys_of(s: AppStateView, channel_id: Seq<char>) -> (
    Option<Seq<u8>>,
    Option<Seq<u8>>,
) {
    (
        if s.channel_keys.contains_key(channel_id) {
            Some(s.channel_keys[channel_id])
        } else {
            None
        },
        if s.previous_channel_keys.contains_key(channel_id) {
            Some(s.previous_channel_keys[channel_id])
        } else {
            None
        },
    )
}

/// The content of a log entry that can be read with the keys at hand.
pub open spec fn readable_content(
    keys: (Option<Seq<u8>>, Option<Seq<u8>>),
    e: LogEntryView,
) -> Option<MessageContentView> {
    if e.deleted {
        None
    } else {
        match opened_with_fallback(keys.0, keys.1, e.nonce, e.ciphertext) {
            Some(plain) => decoded_content(plain),
            None => None,
        }
    }
}

/// A log entry as shown to clients; reactions are not shown as messages, and
/// an entry that cannot be read is shown empty.
pub open spec fn displayed(
    s: AppStateView,
    community_id: Seq<char>,
    channel_id: Seq<char>,
    e: LogEntryView,
) -> Option<MessageInfoView> {
    let blank = MessageInfoView {
        id: e.message_id,
        channel_id,
        community_id,
        author_id: e.author_id,
        timestamp: Timestamp::of_stored_millis(e.timestamp_ms),
        body: Seq::empty(),
        reply_to: None,
        edited_at: None,
        deleted: e.deleted,
        reactions: s.message_log.reactions_of(e.message_id),
    };
    match readable_content(keys_of(s, channel_id), e) {
        Some(MessageContentView::Reaction { .. }) => None,
        Some(MessageContentView::Text { body, attachments, reply_to, edited_at }) => Some(
            MessageInfoView { body, reply_to: reply_name(reply_to), edited_at, ..blank },
        ),
        None => Some(blank),
    }
}

/// The entries as shown to clients, in order.
pub open spec fn displayed_all(
    s: AppStateView,
    community_id: Seq<char>,
    channel_id: Seq<char>,
    entries: Seq<LogEntryView>,
) -> Seq<MessageInfoView>
    decreases entries.len(),
{
    if entries.len() == 0 {
        Seq::empty()
    } else {
        let head = displayed_all(s, community_id, channel_id, entries.drop_last());
        match displayed(s, community_id, channel_id, entries.last()) {
            Some(m) => head.push(m),
            None => head,
        }
    }
}

/// How many entries a history request covers: 50 unless asked otherwise, and
/// never more than 200.
pub open spec fn history_limit(limit: Option<u32>) -> nat {
    match limit {
        Some(n) => if n < 200 {
            n as nat
        } else {
            200
        },
        None => 50,
    }
}

/// How many entries a history request covers.
pub fn limit_of(limit: Option<u32>) -> (r: usize)
    ensures
        r == history_limit(limit),
        r <= 200,
{
    match limit {
        Some(n) => if n < 200 {
            n as usize
        } else {
            200
        },
        None => 50,
    }
}

/// The last `n` items, or all when there are fewer.
pub open spec fn last_items<A>(items: Seq<A>, n: nat) -> Seq<A> {
    if n <= items.len() {
        items.subrange(items.len() - n, items.len() as int)
    } else {
        items
    }
}

/// The message that a reply names, if its id is well formed.
fn parse_reply(reply_to: &Option<String>) -> (r: Option<MessageId>)
    ensures
        r == reply_target(reply_to.deep_view()),
{
    match reply_to {
        Some(t) => MessageId::from_string(t.as_str()),
        None => None,
    }
}

/// The text form of a reply target.
fn reply_text(reply_to: Option<MessageId>) -> (r: Option<String>)
    ensures
        r.deep_view() == reply_name(reply_to),
{
    match reply_to {
        Some(m) => Some(m.to_string()),
        None => None,
    }
}

impl AppState {
    /// The display name of a member, if known.
    pub fn name_of(&self, community_id: &str, user: &str) -> (r: Option<String>)
        ensures
            r.deep_view() == member_name(self.deep_view(), community_id@, user@),
    {
        match self.members.get(community_id) {
            Some(list) => match list.get(user) {
                Some(m) => Some(m.display_name.clone()),
                None => None,
            },
            None => None,
        }
    }

    /// Whether the local user may post in a channel.
    fn check_posting(&self, community_id: &str, channel_id: &str) -> (r: Option<RpcError>)
        ensures
            r == posting_refusal(self.deep_view(), community_id@, channel_id@),
    {
        if let Some(ch) = self.channels.get(channel_id) {
            if ch.kind == ChannelKind::Announcement {
                return match self.members.get(community_id) {
                    None => Some(RpcError::CommunityNotFound),
                    Some(list) => match list.get(self.local.peer_id().as_str()) {
                        None => Some(RpcError::NotAMember),
                        Some(caller) => if caller.is_privileged() {
                            None
                        } else {
                            Some(RpcError::AnnouncementOnly)
                        },
                    },
                };
            }
        }
        None
    }

    /// Encrypt and sign a content as a message of the local user.
    fn make_message(
        &self,
        channel_id: &str,
        content: &MessageContent,
        id: MessageId,
        nonce: [u8; 24],
        now: Timestamp,
    ) -> (r: Result<RawMessage, RpcError>)
        requires
            self.deep_view().channel_keys.contains_key(channel_id@),
        ensures
            match r {
                Ok(m) => encryptable(content_encoding(content.deep_view()).len()) && ulid_parse(
                    channel_id@,
                ) is Some && m.deep_view() == own_message(
                    self.deep_view(),
                    channel_id@,
                    content.deep_view(),
                    id,
                    nonce@,
                    now,
                ) && m.deep_view().signed_by(ed25519_public_key(self.deep_view().local.key))
                    && xchacha_opened(
                    self.deep_view().channel_keys[channel_id@],
                    nonce@,
                    m.ciphertext@,
                ) == Some(content_encoding(content.deep_view())),
                Err(e) => if !encryptable(content_encoding(content.deep_view()).len()) {
                    e == RpcError::BodyTooLong
                } else {
                    e == RpcError::InvalidChannelId && ulid_parse(channel_id@) is None
                },
            },
            content_reads_back(content.deep_view()),
    {
        broadcast use array_deep_view;

        let plaintext = content.encode();
        proof {
            assert(content_reads_back(content.deep_view()));
        }
        if let Some(key) = self.channel_keys.get(channel_id) {
            let channel_key = ChannelKey::from_bytes(*key);
            match channel_key.encrypt_message_with(&nonce, plaintext.as_slice()) {
                Ok(ciphertext) => match ChannelId::from_string(channel_id) {
                    Some(ch) => {
                        let m = RawMessage::create_with(
                            id,
                            ch,
                            self.local.signing_key(),
                            now,
                            ciphertext,
                            nonce,
                        );
                        let me = self.local.user_id();
                        proof {
                            same_user(m.author_id, me);
                        }
                        Ok(m)
                    },
                    None => Err(RpcError::InvalidChannelId),
                },
                Err(_) => Err(RpcError::BodyTooLong),
            }
        } else {
            Err(RpcError::ChannelNotFound)
        }
    }

    /// Send a message under the given id, nonce and time.
    pub fn message_send_with(
        &mut self,
        p: SendMessageParams,
        id: MessageId,
        nonce: [u8; 24],
        now: Timestamp,
    ) -> (r: (Result<MessageInfo, RpcError>, Vec<Effect>))
        ensures
            send_done(
                old(self).deep_view(),
                final(self).deep_view(),
                p,
                id,
                nonce@,
                now,
                r.0,
                r.1.deep_view(),
            ),
    {
        broadcast use array_deep_view;

        let ghost s = old(self).deep_view();
        if p.body.as_str().is_empty() {
            return (Err(RpcError::EmptyBody), no_effects());
        }
        if let Err(e) = self.require_seed_connected(p.community_id.as_str()) {
            return (Err(e), no_effects());
        }
        if let Some(e) = self.check_posting(p.community_id.as_str(), p.channel_id.as_str()) {
            return (Err(e), no_effects());
        }
        if !self.channel_keys.contains_key(p.channel_id.as_str()) {
            return (Err(RpcError::ChannelNotFound), no_effects());
        }
        let reply = parse_reply(&p.reply_to);
        let attachments: Vec<AttachmentRef> = Vec::new();
        let content = MessageContent::Text {
            body: p.body.clone(),
            attachments,
            reply_to: reply,
            edited_at: None,
        };
        assert(content.deep_view() == text_message(p.body@, reply)) by {
            assert(attachments.deep_view() =~= Seq::<
                (Seq<char>, Seq<char>, u64, Seq<char>),
            >::empty());
        }
        let raw = match self.make_message(p.channel_id.as_str(), &content, id, nonce, now) {
            Ok(m) => m,
            Err(e) => {
                return (Err(e), no_effects());
            },
        };
        let ghost m = raw.deep_view();
        let message_id = id.to_string();
        let author_id = self.local.peer_id();
        self.message_log.append(
            p.channel_id.as_str(),
            message_id.clone(),
            author_id.clone(),
            now.millis(),
            nonce,
            to_vec(raw.ciphertext.as_slice()),
        );
        let mut out = no_effects();
        emit(
            &mut out,
            Effect::Store(
                StoreUpdate::AppendMessage {
                    community_id: p.community_id.clone(),
                    channel_id: p.channel_id.clone(),
                    message_id: message_id.clone(),
                },
            ),
        );
        emit(
            &mut out,
            Effect::Publish {
                topic: topic_of_channel(p.channel_id.as_str()),
                event: NetworkEvent::NewMessage(raw),
            },
        );
        let author_name = self.name_of(p.community_id.as_str(), author_id.as_str());
        emit(
            &mut out,
            Effect::Push(
                PushEvent::MessageNew(
                    MessageEventData {
                        message_id: message_id.clone(),
                        channel_id: p.channel_id.clone(),
                        community_id: p.community_id.clone(),
                        author_id: author_id.clone(),
                        author_name,
                        timestamp: now,
                        body: None,
                    },
                ),
            ),
        );
        let reactions: Vec<ReactionInfo> = Vec::new();
        assert(reactions.deep_view() =~= Seq::<ReactionInfoView>::empty());
        assert(out.deep_view() =~= sent_effects(s, p.community_id@, p.channel_id@, m));
        (
            Ok(
                MessageInfo {
                    id: message_id,
                    channel_id: p.channel_id,
                    community_id: p.community_id,
                    author_id,
                    timestamp: now,
                    body: p.body,
                    reply_to: reply_text(reply),
                    edited_at: None,
                    deleted: false,
                    reactions,
                },
            ),
            out,
        )
    }

    /// Send a message: a fresh id, a random nonce, the present time.
    pub fn message_send(&mut self, p: SendMessageParams) -> (r: (
        Result<MessageInfo, RpcError>,
        Vec<Effect>,
    ))
        ensures
            exists|id: MessageId, nonce: Seq<u8>, now: Timestamp|
                nonce.len() == 24 && #[trigger] send_done(
                    old(self).deep_view(),
                    final(self).deep_view(),
                    p,
                    id,
                    nonce,
                    now,
                    r.0,
                    r.1.deep_view(),
                ),
    {
        let id = MessageId::new();
        let nonce = random_array::<24>();
        let now = Timestamp::now();
        let r = self.message_send_with(p, id, nonce, now);
        assert(nonce@.len() == 24);
        r
    }
}

/// What a request to send a message leads to under a given id, nonce and time.
/// A message that is sent reads back with its text.
pub open spec fn send_done(
    s: AppStateView,
    after: AppStateView,
    p: SendMessageParams,
    id: MessageId,
    nonce: Seq<u8>,
    now: Timestamp,
    result: Result<MessageInfo, RpcError>,
    fx: Seq<EffectView>,
) -> bool {
    let reply = reply_target(p.reply_to.deep_view());
    let content = text_message(p.body@, reply);
    let m = own_message(s, p.channel_id@, content, id, nonce, now);
    match send_outcome(s, p.community_id@, p.channel_id@, p.body@, content) {
        Some(e) => result == Err::<MessageInfo, RpcError>(e) && fx.len() == 0 && after == s,
        None => {
            &&& after == message_added(s, p.channel_id@, m)
            &&& fx == sent_effects(s, p.community_id@, p.channel_id@, m)
            &&& result matches Ok(info) && info.deep_view() == (MessageInfoView {
                id: id.name(),
                channel_id: p.channel_id@,
                community_id: p.community_id@,
                author_id: s.me(),
                timestamp: now,
                body: p.body@,
                reply_to: reply_name(reply),
                edited_at: None,
                deleted: false,
                reactions: Seq::empty(),
            })
            &&& shows(
                after,
                p.community_id@,
                p.channel_id@,
                log_entry(m, s.message_log.entries(p.channel_id@).len()),
                p.body@,
                reply_name(reply),
            )
            &&& carried(s, p.channel_id@, m, content)
        },
    }
}

/// Whether a message carries a content: under the sender's channel key it opens
/// to bytes that decode to the content, and the sender signed it.
pub open spec fn carried(
    s: AppStateView,
    channel_id: Seq<char>,
    m: RawMessageView,
    content: MessageContentView,
) -> bool {
    &&& xchacha_opened(s.channel_keys[channel_id], m.nonce, m.ciphertext) == Some(
        content_encoding(content),
    )
    &&& decoded_content(content_encoding(content)) == Some(content)
    &&& m.signed_by(ed25519_public_key(s.local.key))
}

/// What a request to edit a message leads to under a given nonce and time. An
/// edit made at an ordinary time reads back.
pub open spec fn edit_done(
    s: AppStateView,
    after: AppStateView,
    p: EditMessageParams,
    nonce: Seq<u8>,
    now: Timestamp,
    result: Result<bool, RpcError>,
    fx: Seq<EffectView>,
) -> bool {
    let e = s.message_log.entry(p.channel_id@, p.message_id@)->0;
    let content = edited_content(current_content(s, p.channel_id@, e), p.body@, now);
    let plain = content_encoding(content);
    let sealed = xchacha_seal(s.channel_keys[p.channel_id@], nonce, plain);
    match edit_refusal(s, p.community_id@, p.channel_id@, p.message_id@, p.body@) {
        Some(err) => result == Err::<bool, RpcError>(err) && fx.len() == 0 && after == s,
        None => if !encryptable(plain.len()) {
            result == Err::<bool, RpcError>(RpcError::BodyTooLong) && fx.len() == 0 && after == s
        } else {
            &&& after == (AppStateView {
                message_log: s.message_log.edited(p.channel_id@, p.message_id@, nonce, sealed),
                ..s
            })
            &&& match id_refusal(p.channel_id@, p.message_id@) {
                Some(err) => result == Err::<bool, RpcError>(err) && fx.len() == 0,
                None => result == Ok::<bool, RpcError>(true) && fx == edited_effects(
                    s,
                    p.community_id@,
                    p.channel_id@,
                    p.message_id@,
                    p.body@,
                    nonce,
                    sealed,
                    now,
                ) && signs_edit(s, p.channel_id@, p.message_id@, sealed),
            }
            &&& now.ordinary() ==> xchacha_opened(s.channel_keys[p.channel_id@], nonce, sealed)
                == Some(plain) && decoded_content(plain) == Some(content)
        },
    }
}

/// Whether the signature under an announced edit verifies under the local
/// user's public key.
pub open spec fn signs_edit(
    s: AppStateView,
    channel_id: Seq<char>,
    message_id: Seq<char>,
    ciphertext: Seq<u8>,
) -> bool {
    let m = MessageId(ulid_parse(message_id)->0);
    let c = ChannelId(ulid_parse(channel_id)->0);
    accepts(
        ed25519_public_key(s.local.key),
        edit_message(m, c, ciphertext),
        ed25519_signature(s.local.key, edit_message(m, c, ciphertext)),
    )
}

/// Decoding what a content encodes to gives the content back.
pub open spec fn content_reads_back(c: MessageContentView) -> bool {
    (c matches MessageContentView::Text { edited_at: Some(t), .. } ==> t.ordinary())
        ==> decoded_content(content_encoding(c)) == Some(c)
}

/// Why a message is not sent, if it is not.
pub open spec fn send_outcome(
    s: AppStateView,
    community_id: Seq<char>,
    channel_id: Seq<char>,
    body: Seq<char>,
    content: MessageContentView,
) -> Option<RpcError> {
    match send_refusal(s, community_id, channel_id, body) {
        Some(e) => Some(e),
        None => sealing_refusal(channel_id, content),
    }
}

/// Why a content cannot be sealed for a channel, if it cannot.
pub open spec fn sealing_refusal(channel_id: Seq<char>, content: MessageContentView) -> Option<
    RpcError,
> {
    if !encryptable(content_encoding(content).len()) {
        Some(RpcError::BodyTooLong)
    } else if ulid_parse(channel_id) is None {
        Some(RpcError::InvalidChannelId)
    } else {
        None
    }
}

/// Whether an entry is shown with the given body and reply target.
pub open spec fn shows(
    s: AppStateView,
    community_id: Seq<char>,
    channel_id: Seq<char>,
    e: LogEntryView,
    body: Seq<char>,
    reply_to: Option<Seq<char>>,
) -> bool {
    displayed(s, community_id, channel_id, e) matches Some(info) && info.body == body
        && info.reply_to == reply_to && info.id == e.message_id && !info.deleted
}

/// Why an edit is not accepted.
pub open spec fn edit_refusal(
    s: AppStateView,
    community_id: Seq<char>,
    channel_id: Seq<char>,
    message_id: Seq<char>,
    body: Seq<char>,
) -> Option<RpcError> {
    if body.len() == 0 {
        Some(RpcError::EmptyBody)
    } else {
        match seed_check(s, community_id) {
            Err(e) => Some(e),
            Ok(_) => if !s.channel_keys.contains_key(channel_id) {
                Some(RpcError::ChannelNotFound)
            } else {
                match s.message_log.entry(channel_id, message_id) {
                    None => Some(RpcError::MessageNotFound),
                    Some(e) => if e.author_id != s.me() {
                        Some(RpcError::NotTheAuthorOfEdit)
                    } else {
                        None
                    },
                }
            },
        }
    }
}

/// The content of an entry under the current channel key.
pub open spec fn current_content(s: AppStateView, channel_id: Seq<char>, e: LogEntryView) -> Option<
    MessageContentView,
> {
    match xchacha_opened(s.channel_keys[channel_id], e.nonce, e.ciphertext) {
        Some(plain) => decoded_content(plain),
        None => None,
    }
}

/// An edited text: a new body and edit time; the reply target and the
/// attachments stay, as far as they can be read.
pub open spec fn edited_content(
    before: Option<MessageContentView>,
    body: Seq<char>,
    now: Timestamp,
) -> MessageContentView {
    match before {
        Some(MessageContentView::Text { body: _, attachments, reply_to, edited_at }) => {
            MessageContentView::Text { body, attachments, reply_to, edited_at: Some(now) }
        },
        _ => MessageContentView::Text {
            body,
            attachments: Seq::empty(),
            reply_to: None,
            edited_at: Some(now),
        },
    }
}

/// What is done after the local user edited a message.
pub open spec fn edited_effects(
    s: AppStateView,
    community_id: Seq<char>,
    channel_id: Seq<char>,
    message_id: Seq<char>,
    body: Seq<char>,
    nonce: Seq<u8>,
    ciphertext: Seq<u8>,
    now: Timestamp,
) -> Seq<EffectView> {
    let m = MessageId(ulid_parse(message_id)->0);
    let c = ChannelId(ulid_parse(channel_id)->0);
    seq![
        EffectView::Publish {
            topic: channel_topic(channel_id),
            event: NetworkEventView::EditMessage {
                message_id: m,
                channel_id: c,
                author_id: s.local.user_id,
                new_ciphertext: ciphertext,
                new_nonce: nonce,
                signature: ed25519_signature(s.local.key, edit_message(m, c, ciphertext)),
                timestamp: now,
            },
        },
        EffectView::Push(
            PushEventView::MessageEdited(
                MessageEventDataView {
                    message_id,
                    channel_id,
                    community_id,
                    author_id: s.me(),
                    author_name: member_name(s, community_id, s.me()),
                    timestamp: now,
                    body: Some(body),
                },
            ),
        ),
    ]
}

/// Why a deletion is not accepted.
pub open spec fn deletion_refusal(
    s: AppStateView,
    community_id: Seq<char>,
    channel_id: Seq<char>,
    message_id: Seq<char>,
) -> Option<RpcError> {
    match seed_check(s, community_id) {
        Err(e) => Some(e),
        Ok(_) => match s.message_log.entry(channel_id, message_id) {
            None => Some(RpcError::MessageNotFound),
            Some(e) => if e.author_id != s.me() {
                Some(RpcError::NotTheAuthorOfDelete)
            } else {
                None
            },
        },
    }
}

/// Why an accepted change of a message cannot be announced.
pub open spec fn id_refusal(channel_id: Seq<char>, message_id: Seq<char>) -> Option<RpcError> {
    if ulid_parse(message_id) is None {
        Some(RpcError::InvalidMessageId)
    } else if ulid_parse(channel_id) is None {
        Some(RpcError::InvalidChannelId)
    } else {
        None
    }
}

/// What is done after the local user deleted a message.
pub open spec fn deletion_effects(
    s: AppStateView,
    community_id: Seq<char>,
    channel_id: Seq<char>,
    message_id: Seq<char>,
    now: Timestamp,
) -> Seq<EffectView> {
    let m = MessageId(ulid_parse(message_id)->0);
    let c = ChannelId(ulid_parse(channel_id)->0);
    seq![
        EffectView::Publish {
            topic: channel_topic(channel_id),
            event: NetworkEventView::DeleteMessage {
                message_id: m,
                channel_id: c,
                author_id: s.local.user_id,
                signature: ed25519_signature(s.local.key, delete_message(m, c)),
                timestamp: now,
            },
        },
        EffectView::Push(
            PushEventView::MessageDeleted(
                MessageDeletedDataView { message_id, channel_id, community_id },
            ),
        ),
    ]
}

/// Why a reaction is not accepted.
pub open spec fn reaction_refusal(
    s: AppStateView,
    community_id: Seq<char>,
    channel_id: Seq<char>,
    message_id: Seq<char>,
) -> Option<RpcError> {
    match seed_check(s, community_id) {
        Err(e) => Some(e),
        Ok(_) => if !s.channel_keys.contains_key(channel_id) {
            Some(RpcError::ChannelNotFound)
        } else if s.message_log.entry(channel_id, message_id) is None {
            Some(RpcError::MessageNotFound)
        } else {
            None
        },
    }
}

/// The state after the local user reacted: the reaction is logged as an entry
/// and counted for its target.
pub open spec fn reaction_added(
    s: AppStateView,
    channel_id: Seq<char>,
    m: RawMessageView,
    target: Seq<char>,
    emoji: Seq<char>,
    is_add: bool,
) -> AppStateView {
    AppStateView {
        message_log: message_added(s, channel_id, m).message_log.with_reaction(
            target,
            emoji,
            s.me(),
            is_add,
        ),
        ..s
    }
}

/// What is done after the local user reacted.
pub open spec fn reaction_effects(
    s: AppStateView,
    after: AppStateView,
    community_id: Seq<char>,
    channel_id: Seq<char>,
    m: RawMessageView,
    target: Seq<char>,
) -> Seq<EffectView> {
    seq![
        EffectView::Store(
            StoreUpdateView::AppendMessage { community_id, channel_id, message_id: m.id.name() },
        ),
        EffectView::Publish {
            topic: channel_topic(channel_id),
            event: NetworkEventView::NewMessage(m),
        },
        EffectView::Push(
            PushEventView::ReactionUpdated(
                ReactionUpdatedDataView {
                    message_id: target,
                    channel_id,
                    community_id,
                    reactions: after.message_log.reactions_of(target),
                },
            ),
        ),
    ]
}

/// The last-read sequence number of a channel; zero when nothing was read.
pub open spec fn read_cursor(s: AppStateView, channel_id: Seq<char>) -> u64 {
    if s.read_state.contains_key(channel_id) {
        s.read_state[channel_id]
    } else {
        0
    }
}

/// Whether marking a message read moves the cursor.
pub open spec fn advances(s: AppStateView, channel_id: Seq<char>, message_id: Seq<char>) -> bool {
    s.message_log.entry(channel_id, message_id) matches Some(e) && e.seq > read_cursor(
        s,
        channel_id,
    )
}

impl AppState {
    /// Edit a message of the local user under the given nonce and time.
    #[verifier::rlimit(60)]
    pub fn message_edit_with(&mut self, p: EditMessageParams, nonce: [u8; 24], now: Timestamp) -> (r:
        (Result<bool, RpcError>, Vec<Effect>))
        ensures
            edit_done(
                old(self).deep_view(),
                final(self).deep_view(),
                p,
                nonce@,
                now,
                r.0,
                r.1.deep_view(),
            ),
    {
        broadcast use array_deep_view;

        let ghost s = old(self).deep_view();
        if p.body.as_str().is_empty() {
            return (Err(RpcError::EmptyBody), no_effects());
        }
        if let Err(e) = self.require_seed_connected(p.community_id.as_str()) {
            return (Err(e), no_effects());
        }
        let key: [u8; 32] = match self.channel_keys.get(p.channel_id.as_str()) {
            Some(k) => *k,
            None => {
                return (Err(RpcError::ChannelNotFound), no_effects());
            },
        };
        let channel_key = ChannelKey::from_bytes(key);
        let me = self.local.peer_id();
        let before: Option<MessageContent> = match self.message_log.get_entry(
            p.channel_id.as_str(),
            p.message_id.as_str(),
        ) {
            None => {
                return (Err(RpcError::MessageNotFound), no_effects());
            },
            Some(e) => {
                if !same_text(e.author_id.as_str(), me.as_str()) {
                    return (Err(RpcError::NotTheAuthorOfEdit), no_effects());
                }
                match channel_key.decrypt_message(&e.nonce, e.ciphertext.as_slice()) {
                    Ok(plain) => MessageContent::decode(plain.as_slice()),
                    Err(_) => None,
                }
            },
        };
        let ghost entry = s.message_log.entry(p.channel_id@, p.message_id@)->0;
        assert(before.deep_view() == current_content(s, p.channel_id@, entry));
        let (attachments, reply_to) = match before {
            Some(MessageContent::Text { body, attachments, reply_to, edited_at }) => (
                attachments,
                reply_to,
            ),
            _ => {
                let none: Vec<AttachmentRef> = Vec::new();
                assert(none.deep_view() =~= Seq::<
                    (Seq<char>, Seq<char>, u64, Seq<char>),
                >::empty());
                (none, None)
            },
        };
        let content = MessageContent::Text {
            body: p.body.clone(),
            attachments,
            reply_to,
            edited_at: Some(now),
        };
        assert(content.deep_view() == edited_content(
            current_content(s, p.channel_id@, entry),
            p.body@,
            now,
        ));
        let plaintext = content.encode();
        let sealed = match channel_key.encrypt_message_with(&nonce, plaintext.as_slice()) {
            Ok(c) => c,
            Err(_) => {
                return (Err(RpcError::BodyTooLong), no_effects());
            },
        };
        let found = self.message_log.edit(
            p.channel_id.as_str(),
            p.message_id.as_str(),
            nonce,
            to_vec(sealed.as_slice()),
        );
        assert(found);
        let mid = match MessageId::from_string(p.message_id.as_str()) {
            Some(m) => m,
            None => {
                return (Err(RpcError::InvalidMessageId), no_effects());
            },
        };
        let ch = match ChannelId::from_string(p.channel_id.as_str()) {
            Some(c) => c,
            None => {
                return (Err(RpcError::InvalidChannelId), no_effects());
            },
        };
        let signature = sign_bytes(
            self.local.signing_key(),
            edit_bytes(&mid, &ch, sealed.as_slice()).as_slice(),
        );
        let mut out = no_effects();
        emit(
            &mut out,
            Effect::Publish {
                topic: topic_of_channel(p.channel_id.as_str()),
                event: NetworkEvent::EditMessage(
                    EditMessagePayload {
                        message_id: mid,
                        channel_id: ch,
                        author_id: self.local.user_id(),
                        new_ciphertext: sealed,
                        new_nonce: nonce,
                        signature,
                        timestamp: now,
                    },
                ),
            },
        );
        let author_name = self.name_of(p.community_id.as_str(), me.as_str());
        emit(
            &mut out,
            Effect::Push(
                PushEvent::MessageEdited(
                    MessageEventData {
                        message_id: p.message_id.clone(),
                        channel_id: p.channel_id.clone(),
                        community_id: p.community_id.clone(),
                        author_id: me,
                        author_name,
                        timestamp: now,
                        body: Some(p.body.clone()),
                    },
                ),
            ),
        );
        assert(out.deep_view() =~= edited_effects(
            s,
            p.community_id@,
            p.channel_id@,
            p.message_id@,
            p.body@,
            nonce@,
            sealed@,
            now,
        ));
        (Ok(true), out)
    }

    /// Edit a message of the local user: a random nonce, the present time.
    pub fn message_edit(&mut self, p: EditMessageParams) -> (r: (
        Result<bool, RpcError>,
        Vec<Effect>,
    ))
        ensures
            exists|nonce: Seq<u8>, now: Timestamp|
                nonce.len() == 24 && #[trigger] edit_done(
                    old(self).deep_view(),
                    final(self).deep_view(),
                    p,
                    nonce,
                    now,
                    r.0,
                    r.1.deep_view(),
                ),
    {
        let nonce = random_array::<24>();
        let now = Timestamp::now();
        let r = self.message_edit_with(p, nonce, now);
        assert(nonce@.len() == 24);
        r
    }

    /// Delete a message of the local user at the given time.
    pub fn message_delete_at(&mut self, p: DeleteMessageParams, now: Timestamp) -> (r: (
        Result<bool, RpcError>,
        Vec<Effect>,
    ))
        ensures
            ({
                let s = old(self).deep_view();
                match deletion_refusal(s, p.community_id@, p.channel_id@, p.message_id@) {
                    Some(err) => r.0 == Err::<bool, RpcError>(err) && r.1.deep_view().len() == 0
                        && final(self).deep_view() == s,
                    None => {
                        &&& final(self).deep_view() == (AppStateView {
                            message_log: s.message_log.tombstoned(p.channel_id@, p.message_id@),
                            ..s
                        })
                        &&& match id_refusal(p.channel_id@, p.message_id@) {
                            Some(err) => r.0 == Err::<bool, RpcError>(err)
                                && r.1.deep_view().len() == 0,
                            None => r.0 == Ok::<bool, RpcError>(true) && r.1.deep_view()
                                == deletion_effects(
                                s,
                                p.community_id@,
                                p.channel_id@,
                                p.message_id@,
                                now,
                            ),
                        }
                    },
                }
            }),
    {
        let ghost s = old(self).deep_view();
        if let Err(e) = self.require_seed_connected(p.community_id.as_str()) {
            return (Err(e), no_effects());
        }
        let me = self.local.peer_id();
        match self.message_log.get_entry(p.channel_id.as_str(), p.message_id.as_str()) {
            None => {
                return (Err(RpcError::MessageNotFound), no_effects());
            },
            Some(e) => {
                if !same_text(e.author_id.as_str(), me.as_str()) {
                    return (Err(RpcError::NotTheAuthorOfDelete), no_effects());
                }
            },
        }
        let found = self.message_log.tombstone(p.channel_id.as_str(), p.message_id.as_str());
        assert(found);
        let mid = match MessageId::from_string(p.message_id.as_str()) {
            Some(m) => m,
            None => {
                return (Err(RpcError::InvalidMessageId), no_effects());
            },
        };
        let ch = match ChannelId::from_string(p.channel_id.as_str()) {
            Some(c) => c,
            None => {
                return (Err(RpcError::InvalidChannelId), no_effects());
            },
        };
        let signature = sign_bytes(
            self.local.signing_key(),
            delete_bytes(&mid, &ch).as_slice(),
        );
        let mut out = no_effects();
        emit(
            &mut out,
            Effect::Publish {
                topic: topic_of_channel(p.channel_id.as_str()),
                event: NetworkEvent::DeleteMessage(
                    DeleteMessagePayload {
                        message_id: mid,
                        channel_id: ch,
                        author_id: self.local.user_id(),
                        signature,
                        timestamp: now,
                    },
                ),
            },
        );
        emit(
            &mut out,
            Effect::Push(
                PushEvent::MessageDeleted(
                    MessageDeletedData {
                        message_id: p.message_id.clone(),
                        channel_id: p.channel_id.clone(),
                        community_id: p.community_id.clone(),
                    },
                ),
            ),
        );
        assert(out.deep_view() =~= deletion_effects(
            s,
            p.community_id@,
            p.channel_id@,
            p.message_id@,
            now,
        ));
        (Ok(true), out)
    }

    /// Delete a message of the local user now.
    pub fn message_delete(&mut self, p: DeleteMessageParams) -> (r: (
        Result<bool, RpcError>,
        Vec<Effect>,
    ))
        ensures
            ({
                let s = old(self).deep_view();
                match deletion_refusal(s, p.community_id@, p.channel_id@, p.message_id@) {
                    Some(err) => r.0 == Err::<bool, RpcError>(err) && r.1.deep_view().len() == 0
                        && final(self).deep_view() == s,
                    None => {
                        &&& final(self).deep_view() == (AppStateView {
                            message_log: s.message_log.tombstoned(p.channel_id@, p.message_id@),
                            ..s
                        })
                        &&& match id_refusal(p.channel_id@, p.message_id@) {
                            Some(err) => r.0 == Err::<bool, RpcError>(err)
                                && r.1.deep_view().len() == 0,
                            None => r.0 == Ok::<bool, RpcError>(true) && exists|now: Timestamp|
                                r.1.deep_view() == #[trigger] deletion_effects(
                                    s,
                                    p.community_id@,
                                    p.channel_id@,
                                    p.message_id@,
                                    now,
                                ),
                        }
                    },
                }
            }),
    {
        let now = Timestamp::now();
        let ghost fx = deletion_effects(
            old(self).deep_view(),
            p.community_id@,
            p.channel_id@,
            p.message_id@,
            now,
        );
        self.message_delete_at(p, now)
    }

    /// One log entry as shown to clients.
    fn display(
        &self,
        community_id: &str,
        channel_id: &str,
        key: Option<[u8; 32]>,
        previous: Option<[u8; 32]>,
        e: &LogEntry,
    ) -> (r: Option<MessageInfo>)
        requires
            keys_of(self.deep_view(), channel_id@) == (key.deep_view(), previous.deep_view()),
        ensures
            r.deep_view() == displayed(
                self.deep_view(),
                community_id@,
                channel_id@,
                e.deep_view(),
            ),
    {
        broadcast use array_deep_view;

        let mut content: Option<MessageContent> = None;
        if !e.deleted {
            if let Some(plain) = decrypt_with_fallback(
                key,
                previous,
                &e.nonce,
                e.ciphertext.as_slice(),
            ) {
                content = MessageContent::decode(plain.as_slice());
            }
        }
        assert(content.deep_view() == readable_content(
            keys_of(self.deep_view(), channel_id@),
            e.deep_view(),
        ));
        let (body, reply_to, edited_at) = match content {
            Some(MessageContent::Reaction { .. }) => {
                return None;
            },
            Some(MessageContent::Text { body, attachments, reply_to, edited_at }) => (
                body,
                reply_text(reply_to),
                edited_at,
            ),
            None => (String::new(), None, None),
        };
        Some(
            MessageInfo {
                id: e.message_id.clone(),
                channel_id: text(channel_id),
                community_id: text(community_id),
                author_id: e.author_id.clone(),
                timestamp: Timestamp::from_stored_millis(e.timestamp_ms),
                body,
                reply_to,
                edited_at,
                deleted: e.deleted,
                reactions: self.message_log.get_reactions(e.message_id.as_str()),
            },
        )
    }

    /// The latest messages of a channel.
    pub fn message_get_history(&self, p: GetHistoryParams) -> (r: Result<
        Vec<MessageInfo>,
        RpcError,
    >)
        ensures
            match r {
                Ok(list) => self.deep_view().channels.contains_key(p.channel_id@)
                    && list.deep_view() == displayed_all(
                    self.deep_view(),
                    p.community_id@,
                    p.channel_id@,
                    last_items(
                        self.deep_view().message_log.entries(p.channel_id@),
                        history_limit(p.limit),
                    ),
                ),
                Err(e) => e == RpcError::ChannelNotFound
                    && !self.deep_view().channels.contains_key(p.channel_id@),
            },
    {
        broadcast use array_deep_view, vec_deep_view, views_push;

        let limit: usize = limit_of(p.limit);
        let key: Option<[u8; 32]> = match self.channel_keys.get(p.channel_id.as_str()) {
            Some(k) => Some(*k),
            None => None,
        };
        let previous: Option<[u8; 32]> = match self.previous_channel_keys.get(
            p.channel_id.as_str(),
        ) {
            Some(k) => Some(*k),
            None => None,
        };
        if !self.channels.contains_key(p.channel_id.as_str()) {
            return Err(RpcError::ChannelNotFound);
        }
        let n: u64 = self.message_log.len(p.channel_id.as_str());
        let since: u64 = if n > limit as u64 {
            n - limit as u64
        } else {
            0
        };
        let entries = self.message_log.get_since(p.channel_id.as_str(), since);
        let ghost all = views(entries@);
        let ghost s = self.deep_view();
        assert(all =~= last_items(
            s.message_log.entries(p.channel_id@),
            history_limit(p.limit),
        ));
        let mut out: Vec<MessageInfo> = Vec::new();
        assert(views(out@) =~= displayed_all(
            s,
            p.community_id@,
            p.channel_id@,
            all.subrange(0, 0),
        ));
        let mut i: usize = 0;
        while i < entries.len()
            invariant
                i <= entries@.len(),
                all == views(entries@),
                s == self.deep_view(),
                keys_of(s, p.channel_id@) == (key.deep_view(), previous.deep_view()),
                views(out@) == displayed_all(
                    s,
                    p.community_id@,
                    p.channel_id@,
                    all.subrange(0, i as int),
                ),
            decreases entries@.len() - i,
        {
            assert(all.subrange(0, i + 1).drop_last() =~= all.subrange(0, i as int));
            if let Some(info) = self.display(
                p.community_id.as_str(),
                p.channel_id.as_str(),
                key,
                previous,
                &entries[i],
            ) {
                out.push(info);
            }
            i += 1;
        }
        assert(all.subrange(0, all.len() as int) =~= all);
        Ok(out)
    }

    /// Add or take back a reaction of the local user under the given id, nonce
    /// and time.
    #[verifier::rlimit(60)]
    pub fn react_with(
        &mut self,
        p: ReactionParams,
        is_add: bool,
        id: MessageId,
        nonce: [u8; 24],
        now: Timestamp,
    ) -> (r: (Result<bool, RpcError>, Vec<Effect>))
        ensures
            reaction_done(
                old(self).deep_view(),
                final(self).deep_view(),
                p,
                is_add,
                id,
                nonce@,
                now,
                r.0,
                r.1.deep_view(),
            ),
    {
        broadcast use array_deep_view;

        let ghost s = old(self).deep_view();
        if let Err(e) = self.require_seed_connected(p.community_id.as_str()) {
            return (Err(e), no_effects());
        }
        if !self.channel_keys.contains_key(p.channel_id.as_str()) {
            return (Err(RpcError::ChannelNotFound), no_effects());
        }
        if !self.message_log.has_entry(p.channel_id.as_str(), p.message_id.as_str()) {
            return (Err(RpcError::MessageNotFound), no_effects());
        }
        let content = MessageContent::Reaction {
            target_message_id: p.message_id.clone(),
            emoji: p.emoji.clone(),
            is_add,
        };
        let raw = match self.make_message(p.channel_id.as_str(), &content, id, nonce, now) {
            Ok(m) => m,
            Err(e) => {
                return (Err(e), no_effects());
            },
        };
        let ghost m = raw.deep_view();
        let me = self.local.peer_id();
        let entry_id = id.to_string();
        self.message_log.append(
            p.channel_id.as_str(),
            entry_id.clone(),
            me.clone(),
            now.millis(),
            nonce,
            to_vec(raw.ciphertext.as_slice()),
        );
        if is_add {
            self.message_log.react(p.message_id.as_str(), p.emoji.as_str(), me.as_str());
        } else {
            self.message_log.unreact(p.message_id.as_str(), p.emoji.as_str(), me.as_str());
        }
        let reactions = self.message_log.get_reactions(p.message_id.as_str());
        let mut out = no_effects();
        emit(
            &mut out,
            Effect::Store(
                StoreUpdate::AppendMessage {
                    community_id: p.community_id.clone(),
                    channel_id: p.channel_id.clone(),
                    message_id: entry_id,
                },
            ),
        );
        emit(
            &mut out,
            Effect::Publish {
                topic: topic_of_channel(p.channel_id.as_str()),
                event: NetworkEvent::NewMessage(raw),
            },
        );
        emit(
            &mut out,
            Effect::Push(
                PushEvent::ReactionUpdated(
                    ReactionUpdatedData {
                        message_id: p.message_id.clone(),
                        channel_id: p.channel_id.clone(),
                        community_id: p.community_id.clone(),
                        reactions,
                    },
                ),
            ),
        );
        assert(out.deep_view() =~= reaction_effects(
            s,
            self.deep_view(),
            p.community_id@,
            p.channel_id@,
            m,
            p.message_id@,
        ));
        (Ok(true), out)
    }

    /// Add a reaction of the local user.
    pub fn reaction_add(&mut self, p: ReactionParams) -> (r: (Result<bool, RpcError>, Vec<Effect>))
        ensures
            exists|id: MessageId, nonce: Seq<u8>, now: Timestamp|
                nonce.len() == 24 && #[trigger] reaction_done(
                    old(self).deep_view(),
                    final(self).deep_view(),
                    p,
                    true,
                    id,
                    nonce,
                    now,
                    r.0,
                    r.1.deep_view(),
                ),
    {
        let id = MessageId::new();
        let nonce = random_array::<24>();
        let now = Timestamp::now();
        let r = self.react_with(p, true, id, nonce, now);
        assert(nonce@.len() == 24);
        r
    }

    /// Take back a reaction of the local user.
    pub fn reaction_remove(&mut self, p: ReactionParams) -> (r: (Result<bool, RpcError>, Vec<Effect>))
        ensures
            exists|id: MessageId, nonce: Seq<u8>, now: Timestamp|
                nonce.len() == 24 && #[trigger] reaction_done(
                    old(self).deep_view(),
                    final(self).deep_view(),
                    p,
                    false,
                    id,
                    nonce,
                    now,
                    r.0,
                    r.1.deep_view(),
                ),
    {
        let id = MessageId::new();
        let nonce = random_array::<24>();
        let now = Timestamp::now();
        let r = self.react_with(p, false, id, nonce, now);
        assert(nonce@.len() == 24);
        r
    }

    /// Mark a message read. The read cursor only moves forward.
    pub fn mark_read(&mut self, p: MarkReadParams) -> (r: (Result<bool, RpcError>, Vec<Effect>))
        ensures
            r.0 == Ok::<bool, RpcError>(true),
            ({
                let s = old(self).deep_view();
                if advances(s, p.channel_id@, p.message_id@) {
                    &&& final(self).deep_view() == (AppStateView {
                        read_state: s.read_state.insert(
                            p.channel_id@,
                            s.message_log.entry(p.channel_id@, p.message_id@)->0.seq,
                        ),
                        ..s
                    })
                    &&& r.1.deep_view() == seq![EffectView::Save(TableFile::ReadState)]
                } else {
                    final(self).deep_view() == s && r.1.deep_view().len() == 0
                }
            }),
            old(self).deep_view().message_log.entry(p.channel_id@, p.message_id@) matches Some(e)
                ==> read_cursor(final(self).deep_view(), p.channel_id@) >= e.seq,
            forall|ch: Seq<char>|
                ch != p.channel_id@ ==> #[trigger] read_cursor(final(self).deep_view(), ch)
                    == read_cursor(old(self).deep_view(), ch),
            forall|ch: Seq<char>|
                #[trigger] read_cursor(final(self).deep_view(), ch) >= read_cursor(
                    old(self).deep_view(),
                    ch,
                ),
    {
        let mut out = no_effects();
        let mut target: Option<u64> = None;
        if let Some(e) = self.message_log.get_entry(p.channel_id.as_str(), p.message_id.as_str()) {
            target = Some(e.seq);
        }
        if let Some(seq) = target {
            let current: u64 = match self.read_state.get(p.channel_id.as_str()) {
                Some(v) => *v,
                None => 0,
            };
            if seq > current {
                self.read_state.insert(p.channel_id.as_str(), seq);
                emit(&mut out, Effect::Save(TableFile::ReadState));
            }
        }
        (Ok(true), out)
    }
}

/// The content of a reaction request.
pub open spec fn reaction_of(p: ReactionParams, is_add: bool) -> MessageContentView {
    MessageContentView::Reaction { target_message_id: p.message_id@, emoji: p.emoji@, is_add }
}

/// Why a reaction is not made, if it is not.
pub open spec fn reaction_outcome(
    s: AppStateView,
    community_id: Seq<char>,
    channel_id: Seq<char>,
    message_id: Seq<char>,
    content: MessageContentView,
) -> Option<RpcError> {
    match reaction_refusal(s, community_id, channel_id, message_id) {
        Some(e) => Some(e),
        None => sealing_refusal(channel_id, content),
    }
}

/// What a reaction request leads to under a given id, nonce and time.
pub open spec fn reaction_done(
    s: AppStateView,
    after: AppStateView,
    p: ReactionParams,
    is_add: bool,
    id: MessageId,
    nonce: Seq<u8>,
    now: Timestamp,
    result: Result<bool, RpcError>,
    fx: Seq<EffectView>,
) -> bool {
    let content = reaction_of(p, is_add);
    let m = own_message(s, p.channel_id@, content, id, nonce, now);
    match reaction_outcome(s, p.community_id@, p.channel_id@, p.message_id@, content) {
        Some(e) => result == Err::<bool, RpcError>(e) && fx.len() == 0 && after == s,
        None => {
            &&& result == Ok::<bool, RpcError>(true)
            &&& after == reaction_added(s, p.channel_id@, m, p.message_id@, p.emoji@, is_add)
            &&& fx == reaction_effects(
                s,
                after,
                p.community_id@,
                p.channel_id@,
                m,
                p.message_id@,
            )
            &&& carried(s, p.channel_id@, m, content)
        },
    }
}

/// In an announcement channel nobody but admins and moderators of the
/// community gets a message through.
pub proof fn announcements_are_privileged(
    s: AppStateView,
    community_id: Seq<char>,
    channel_id: Seq<char>,
    body: Seq<char>,
)
    requires
        s.channels.contains_key(channel_id),
        s.channels[channel_id].kind == ChannelKind::Announcement,
        send_refusal(s, community_id, channel_id, body) is None,
    ensures
        s.members.contains_key(community_id),
        s.members[community_id].contains_key(s.me()),
        s.members[community_id][s.me()].is_privileged(),
{
}

/// Only the author of a message can edit or delete it.
pub proof fn only_authors_change_messages(
    s: AppStateView,
    community_id: Seq<char>,
    channel_id: Seq<char>,
    message_id: Seq<char>,
    body: Seq<char>,
)
    ensures
        edit_refusal(s, community_id, channel_id, message_id, body) is None
            ==> (s.message_log.entry(channel_id, message_id) matches Some(e) && e.author_id
            == s.me()),
        deletion_refusal(s, community_id, channel_id, message_id) is None
            ==> (s.message_log.entry(channel_id, message_id) matches Some(e) && e.author_id
            == s.me()),
{
}

/// A deleted message is shown without its text, and stays where it was.
pub proof fn deleted_messages_are_blank(
    s: AppStateView,
    community_id: Seq<char>,
    channel_id: Seq<char>,
    message_id: Seq<char>,
)
    requires
        s.message_log.entry(channel_id, message_id) is Some,
    ensures
        ({
            let t = AppStateView {
                message_log: s.message_log.tombstoned(channel_id, message_id),
                ..s
            };
            let i = entry_index(s.message_log.entries(channel_id), message_id, 0)->0;
            let e = t.message_log.entries(channel_id)[i];
            &&& t.message_log.entries(channel_id).len() == s.message_log.entries(channel_id).len()
            &&& e.message_id == message_id
            &&& displayed(t, community_id, channel_id, e) matches Some(info) && info.deleted
                && info.body.len() == 0
        }),
{
    entry_index_found(s.message_log.entries(channel_id), message_id, 0);
}

} // verus!
