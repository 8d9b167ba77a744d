//! Channel messages: sending, receiving, editing, deleting, reading back.

use crate::api::effects::EffectView;
use crate::api::event_processor::channel_handler::{
    channel_event_handled, edit_accepted, message_received, rotation_accepted, rotation_applied,
    verdict, Verdict,
};
use crate::api::rpc_server::message::{
    deletion_effects, deletion_refusal, displayed, displayed_all, edit_done, edit_refusal, keys_of,
    last_items, readable_content, reply_name, send_done, send_refusal,
};
use crate::api::rpc_server::{seed_check, RpcError};
use crate::api::types::{EditMessageParams, MessageInfo, SendMessageParams};
use crate::api::{channel_topic, AppStateView};
use crate::crypto::primitives::xchacha_opened;
use crate::laws::waiting::records;
use crate::model::channel::{ChannelKind, ChannelManifestView};
use crate::model::membership::Role;
use crate::model::message::{decoded_content, MessageContentView, RawMessageView};
use crate::model::network_event::NetworkEventView;
use crate::model::types::{ulid_parse, ChannelId, MessageId, UserId};
use crate::state::message_log::{entry_index, entry_index_found, LogEntryView, MessageLogView};
use crate::time::Timestamp;
use vstd::prelude::*;

verus! {

/// Whether `t` is the log `s` but for one entry of one channel, at `i`.
pub open spec fn one_entry_differs(
    s: MessageLogView,
    t: MessageLogView,
    c: Seq<char>,
    i: int,
) -> bool {
    &&& 0 <= i < s.entries(c).len()
    &&& t.entries(c).len() == s.entries(c).len()
    &&& forall|j: int|
        0 <= j < s.entries(c).len() && j != i ==> #[trigger] t.entries(c)[j] == s.entries(c)[j]
    &&& forall|d: Seq<char>| d != c ==> #[trigger] t.entries(d) == s.entries(d)
    &&& t.reactions == s.reactions
}

/// Where a message stands in a channel's log.
pub open spec fn place(log: MessageLogView, c: Seq<char>, id: Seq<char>) -> int {
    choose|i: int|
        0 <= i < log.entries(c).len() && (#[trigger] log.entries(c)[i]).message_id == id
            && forall|j: int|
            0 <= j < i ==> (#[trigger] log.entries(c)[j]).message_id != id
}

proof fn index_is_first(log: Seq<LogEntryView>, id: Seq<char>, from: int)
    requires
        0 <= from,
    ensures
        entry_index(log, id, from) matches Some(i) ==> forall|j: int|
            from <= j < i ==> (#[trigger] log[j]).message_id != id,
    decreases log.len() - from,
{
    if from < log.len() && log[from].message_id != id {
        index_is_first(log, id, from + 1);
    }
}

/// A message that is in the log stands at one first place, and that is what a
/// lookup finds.
pub proof fn lookups_find_the_first(log: MessageLogView, c: Seq<char>, id: Seq<char>)
    ensures
        log.entry(c, id) is Some <==> exists|i: int|
            0 <= i < log.entries(c).len() && (#[trigger] log.entries(c)[i]).message_id == id,
        log.entry(c, id) is Some ==> {
            let i = place(log, c, id);
            &&& 0 <= i < log.entries(c).len()
            &&& log.entry(c, id) == Some(log.entries(c)[i])
            &&& log.entries(c)[i].message_id == id
            &&& entry_index(log.entries(c), id, 0) == Some(i)
            &&& forall|j: int| 0 <= j < i ==> (#[trigger] log.entries(c)[j]).message_id != id
        },
{
    let list = log.entries(c);
    entry_index_found(list, id, 0);
    index_is_first(list, id, 0);
    if let Some(k) = entry_index(list, id, 0) {
        assert(list[k].message_id == id);
        let i = place(log, c, id);
        assert(0 <= i < list.len() && list[i].message_id == id);
        if i < k {
            assert(list[i].message_id != id);
        }
        if k < i {
            assert(list[k].message_id != id);
        }
    }
}

/// An edit replaces the ciphertext of the message where it stands, and nothing
/// else: its id, author, time and place stay.
pub proof fn edits_change_one_ciphertext(
    log: MessageLogView,
    c: Seq<char>,
    id: Seq<char>,
    nonce: Seq<u8>,
    ciphertext: Seq<u8>,
)
    requires
        log.entry(c, id) is Some,
    ensures
        ({
            let t = log.edited(c, id, nonce, ciphertext);
            let i = place(log, c, id);
            let e = t.entries(c)[i];
            &&& one_entry_differs(log, t, c, i)
            &&& e.nonce == nonce
            &&& e.ciphertext == ciphertext
            &&& e == (LogEntryView { nonce, ciphertext, ..log.entries(c)[i] })
            &&& t.entry(c, id) == Some(e)
        }),
{
    let t = log.edited(c, id, nonce, ciphertext);
    let i = place(log, c, id);
    lookups_find_the_first(log, c, id);
    kept_in_place(log.entries(c), t.entries(c), id, i);
}

/// A deletion marks the message where it stands, and nothing else.
pub proof fn deletions_mark_one_message(log: MessageLogView, c: Seq<char>, id: Seq<char>)
    requires
        log.entry(c, id) is Some,
    ensures
        ({
            let t = log.tombstoned(c, id);
            let i = place(log, c, id);
            let e = t.entries(c)[i];
            &&& one_entry_differs(log, t, c, i)
            &&& e.deleted
            &&& e == (LogEntryView { deleted: true, ..log.entries(c)[i] })
            &&& t.entry(c, id) == Some(e)
        }),
{
    let t = log.tombstoned(c, id);
    let i = place(log, c, id);
    lookups_find_the_first(log, c, id);
    kept_in_place(log.entries(c), t.entries(c), id, i);
}

proof fn kept_in_place(a: Seq<LogEntryView>, b: Seq<LogEntryView>, id: Seq<char>, i: int)
    requires
        0 <= i < a.len(),
        b.len() == a.len(),
        entry_index(a, id, 0) == Some(i),
        forall|j: int| 0 <= j < a.len() ==> (#[trigger] b[j]).message_id == a[j].message_id,
    ensures
        entry_index(b, id, 0) == Some(i),
{
    entry_index_found(a, id, 0);
    index_is_first(a, id, 0);
    entry_index_found(b, id, 0);
    index_is_first(b, id, 0);
    assert(b[i].message_id == a[i].message_id);
    let k = entry_index(b, id, 0)->0;
    if k < i {
        assert(b[k].message_id == a[k].message_id);
    }
    if i < k {
        assert(b[i].message_id != id);
    }
}

/// A new entry goes to the end of its channel and changes nothing else.
pub proof fn appending_changes_one_channel(log: MessageLogView, c: Seq<char>, e: LogEntryView)
    ensures
        ({
            let t = log.appended(c, e);
            &&& t.entries(c).len() == log.entries(c).len() + 1
            &&& t.entries(c).last() == e
            &&& t.entries(c).drop_last() == log.entries(c)
            &&& forall|d: Seq<char>| d != c ==> #[trigger] t.entries(d) == log.entries(d)
            &&& t.reactions == log.reactions
            &&& forall|id: Seq<char>|
                log.entry(c, id) is Some ==> #[trigger] t.entry(c, id) == log.entry(c, id)
        }),
{
    let t = log.appended(c, e);
    assert(t.entries(c).drop_last() =~= log.entries(c));
    assert forall|id: Seq<char>| log.entry(c, id) is Some implies #[trigger] t.entry(c, id)
        == log.entry(c, id) by {
        lookups_find_the_first(log, c, id);
        lookups_find_the_first(t, c, id);
        let i = place(log, c, id);
        assert(t.entries(c)[i] == log.entries(c)[i]);
        let k = place(t, c, id);
        if k < i {
            assert(log.entries(c)[k].message_id == id);
        }
    }
}

/// Whether a message that comes in is to be stored: its channel and a key are
/// known, the current or the previous key opens it, its author is a member of the
/// channel's community and signed it, and it is not in the log.
pub proof fn stored_means_readable_signed_and_new(s: AppStateView, m: RawMessageView)
    ensures
        ({
            let c = m.channel_id.name();
            let now = xchacha_opened(s.channel_keys[c], m.nonce, m.ciphertext);
            let before = xchacha_opened(s.previous_channel_keys[c], m.nonce, m.ciphertext);
            let opens = now is Some || (s.previous_channel_keys.contains_key(c) && before is Some);
            let members = s.member_list(s.channels[c].community_id.name());
            let author = m.author_id.name();
            &&& verdict(s, m) is Stored <==> {
                &&& s.channels.contains_key(c)
                &&& s.channel_keys.contains_key(c)
                &&& opens
                &&& members.contains_key(author)
                &&& m.signed_by(members[author].public_key)
                &&& forall|i: int|
                    0 <= i < s.message_log.entries(c).len() ==> (
                    #[trigger] s.message_log.entries(c)[i]).message_id != m.id.name()
            }
            &&& verdict(s, m) is Unreadable <==> s.channels.contains_key(c)
                && s.channel_keys.contains_key(c) && !opens
            &&& verdict(s, m) matches Verdict::Stored(content) ==> content == decoded_content(
                if now is Some {
                    now->0
                } else {
                    before->0
                },
            )
        }),
{
    lookups_find_the_first(s.message_log, m.channel_id.name(), m.id.name());
}

/// A message that is stored stands at the end of its channel as it came; every
/// other channel stays as it is.
pub proof fn received_messages_are_stored(s: AppStateView, topic: Seq<char>, m: RawMessageView)
    requires
        verdict(s, m) is Stored,
    ensures
        ({
            let c = m.channel_id.name();
            let t = message_received(s, topic, m);
            let log = t.message_log;
            &&& log.entries(c).len() == s.message_log.entries(c).len() + 1
            &&& log.entries(c).drop_last() == s.message_log.entries(c)
            &&& records(log.entries(c).last(), m)
            &&& forall|d: Seq<char>|
                d != c ==> #[trigger] log.entries(d) == s.message_log.entries(d)
            &&& t == (AppStateView { message_log: log, ..s })
        }),
{
    let c = m.channel_id.name();
    let t = message_received(s, topic, m);
    assert(t.message_log.entries(c).drop_last() =~= s.message_log.entries(c));
}

/// What the key of a channel opens an entry to.
pub open spec fn opened_by(
    keys: Map<Seq<char>, Seq<u8>>,
    c: Seq<char>,
    e: LogEntryView,
) -> Option<Seq<u8>> {
    if keys.contains_key(c) {
        xchacha_opened(keys[c], e.nonce, e.ciphertext)
    } else {
        None
    }
}

/// What clients are shown of an entry: its id, author and mark as they are; the
/// text when a key opens it, and nothing for a deleted or unreadable entry.
/// Reactions are not shown as messages.
pub proof fn entries_are_shown_as_written(
    s: AppStateView,
    community: Seq<char>,
    c: Seq<char>,
    e: LogEntryView,
)
    ensures
        ({
            let shown = displayed(s, community, c, e);
            let content = readable_content(keys_of(s, c), e);
            let now = opened_by(s.channel_keys, c, e);
            let before = opened_by(s.previous_channel_keys, c, e);
            &&& shown is None <==> (content matches Some(MessageContentView::Reaction { .. }))
            &&& shown matches Some(info) ==> {
                &&& info.id == e.message_id
                &&& info.author_id == e.author_id
                &&& info.channel_id == c
                &&& info.community_id == community
                &&& info.deleted == e.deleted
                &&& info.reactions == s.message_log.reactions_of(e.message_id)
                &&& content is None ==> info.body.len() == 0 && info.reply_to is None
                &&& content matches Some(
                    MessageContentView::Text { body, reply_to, edited_at, .. },
                ) ==> info.body == body && info.reply_to == reply_name(reply_to) && info.edited_at
                    == edited_at
            }
            &&& e.deleted ==> content is None
            &&& !e.deleted && now is Some ==> content == decoded_content(now->0)
            &&& !e.deleted && now is None && before is Some ==> content == decoded_content(
                before->0,
            )
            &&& now is None && before is None ==> content is None
        }),
{
}

/// Whether an entry is shown.
pub open spec fn is_shown(
    s: AppStateView,
    community: Seq<char>,
    c: Seq<char>,
    e: LogEntryView,
) -> bool {
    displayed(s, community, c, e) is Some
}

/// A list of entries is shown in order, and nothing that can be shown is left
/// out: what is shown is what each shown entry gives, one after the other.
pub proof fn histories_leave_nothing_out(
    s: AppStateView,
    community: Seq<char>,
    c: Seq<char>,
    entries: Seq<LogEntryView>,
)
    ensures
        ({
            let kept = entries.filter(|e: LogEntryView| is_shown(s, community, c, e));
            let shown = displayed_all(s, community, c, entries);
            &&& shown.len() == kept.len()
            &&& forall|i: int|
                0 <= i < shown.len() ==> displayed(s, community, c, #[trigger] kept[i]) == Some(
                    shown[i],
                )
            &&& forall|i: int|
                0 <= i < shown.len() ==> (#[trigger] shown[i]).id == kept[i].message_id
        }),
    decreases entries.len(),
{
    reveal(Seq::filter);
    if entries.len() > 0 {
        histories_leave_nothing_out(s, community, c, entries.drop_last());
    }
}

/// The newest entries are the end of the list, as many as asked for.
pub proof fn newest_entries_are_the_end<A>(items: Seq<A>, n: nat)
    ensures
        ({
            let k = if n < items.len() {
                n as int
            } else {
                items.len() as int
            };
            last_items(items, n) == items.subrange(items.len() - k, items.len() as int)
        }),
{
    assert(items.subrange(0, items.len() as int) =~= items);
}

/// A message that is sent stands at the end of the channel and is shown with its
/// text to whoever holds the key; it goes to the peers on the channel's topic, and
/// nothing else changes.
pub proof fn sent_messages_are_kept(
    s: AppStateView,
    after: AppStateView,
    p: SendMessageParams,
    id: MessageId,
    nonce: Seq<u8>,
    now: Timestamp,
    result: Result<MessageInfo, RpcError>,
    fx: Seq<EffectView>,
)
    requires
        send_done(s, after, p, id, nonce, now, result, fx),
        result is Ok,
    ensures
        ({
            let c = p.channel_id@;
            let e = after.message_log.entries(c).last();
            &&& p.body@.len() > 0
            &&& after == (AppStateView { message_log: after.message_log, ..s })
            &&& after.message_log.entries(c).len() == s.message_log.entries(c).len() + 1
            &&& after.message_log.entries(c).drop_last() == s.message_log.entries(c)
            &&& after.message_log.reactions == s.message_log.reactions
            &&& forall|d: Seq<char>|
                d != c ==> #[trigger] after.message_log.entries(d) == s.message_log.entries(d)
            &&& e.message_id == id.name()
            &&& e.author_id == s.me()
            &&& !e.deleted
            &&& displayed(after, p.community_id@, c, e) matches Some(info) && info.body == p.body@
            &&& result matches Ok(info) && info.deep_view().body == p.body@
                && info.deep_view().id == e.message_id && info.deep_view().author_id == s.me()
            &&& exists|m: RawMessageView|
                {
                    &&& #[trigger] records(e, m)
                    &&& m.channel_id.name() == crate::model::types::ulid_text(ulid_parse(c)->0)
                    &&& fx.contains(
                        EffectView::Publish {
                            topic: channel_topic(c),
                            event: NetworkEventView::NewMessage(m),
                        },
                    )
                }
        }),
{
    let c = p.channel_id@;
    let reply = crate::api::rpc_server::message::reply_target(p.reply_to.deep_view());
    let content = crate::api::rpc_server::message::text_message(p.body@, reply);
    let m = crate::api::rpc_server::message::own_message(s, c, content, id, nonce, now);
    assert(after.message_log.entries(c).drop_last() =~= s.message_log.entries(c));
    let sent = NetworkEventView::NewMessage(m);
    assert(fx[1] == EffectView::Publish { topic: channel_topic(c), event: sent });
    assert(records(after.message_log.entries(c).last(), m));
}

/// A message is refused only for a reason: an empty text, an unreachable
/// community, a channel without a key, an announcement channel for a plain
/// member, or a text or an id that cannot be sent.
pub proof fn members_can_post(
    s: AppStateView,
    community: Seq<char>,
    c: Seq<char>,
    body: Seq<char>,
)
    requires
        body.len() > 0,
        seed_check(s, community) is Ok,
        s.channel_keys.contains_key(c),
        s.channels.contains_key(c),
        s.channels[c].kind != ChannelKind::Announcement || (s.member_list(community).contains_key(
            s.me(),
        ) && (s.member_list(community)[s.me()].roles.contains(Role::Admin) || s.member_list(
            community,
        )[s.me()].roles.contains(Role::Moderator))),
    ensures
        send_refusal(s, community, c, body) is None,
{
}

/// An edit that succeeds shows the new text in the place of the old one, with the
/// same id, author and reply target; every other message stays.
pub proof fn edited_messages_show_the_new_text(
    s: AppStateView,
    after: AppStateView,
    p: EditMessageParams,
    nonce: Seq<u8>,
    now: Timestamp,
    result: Result<bool, RpcError>,
    fx: Seq<EffectView>,
)
    requires
        edit_done(s, after, p, nonce, now, result, fx),
        result is Ok,
        now.ordinary(),
    ensures
        ({
            let c = p.channel_id@;
            let i = place(s.message_log, c, p.message_id@);
            let old_entry = s.message_log.entries(c)[i];
            let e = after.message_log.entries(c)[i];
            &&& one_entry_differs(s.message_log, after.message_log, c, i)
            &&& after == (AppStateView { message_log: after.message_log, ..s })
            &&& e.message_id == p.message_id@
            &&& e.author_id == s.me()
            &&& e == (LogEntryView { nonce: e.nonce, ciphertext: e.ciphertext, ..old_entry })
            &&& !e.deleted ==> (displayed(after, p.community_id@, c, e) matches Some(info)
                && info.body == p.body@ && info.edited_at == Some(now) && info.id
                == p.message_id@)
            &&& !e.deleted && (xchacha_opened(
                s.channel_keys[c],
                old_entry.nonce,
                old_entry.ciphertext,
            ) matches Some(plain) && decoded_content(plain) matches Some(
                MessageContentView::Text { .. },
            )) ==> displayed(after, p.community_id@, c, e)->0.reply_to == displayed(
                s,
                p.community_id@,
                c,
                old_entry,
            )->0.reply_to
        }),
{
    let c = p.channel_id@;
    lookups_find_the_first(s.message_log, c, p.message_id@);
    let x = s.message_log.entry(c, p.message_id@)->0;
    let content = crate::api::rpc_server::message::edited_content(
        crate::api::rpc_server::message::current_content(s, c, x),
        p.body@,
        now,
    );
    let plain = crate::model::message::content_encoding(content);
    let sealed = crate::crypto::primitives::xchacha_seal(s.channel_keys[c], nonce, plain);
    edits_change_one_ciphertext(s.message_log, c, p.message_id@, nonce, sealed);
    assert(keys_of(after, c) == keys_of(s, c));
}

/// An edit that comes in and is accepted shows the same text with everybody who
/// holds the same key.
pub proof fn announced_edits_show_everywhere(
    s: AppStateView,
    after: AppStateView,
    topic: Seq<char>,
    message_id: MessageId,
    channel_id: ChannelId,
    author_id: UserId,
    new_ciphertext: Seq<u8>,
    new_nonce: Seq<u8>,
    signature: Seq<u8>,
    timestamp: Timestamp,
    fx: Seq<EffectView>,
)
    requires
        channel_event_handled(
            s,
            after,
            topic,
            NetworkEventView::EditMessage {
                message_id,
                channel_id,
                author_id,
                new_ciphertext,
                new_nonce,
                signature,
                timestamp,
            },
            fx,
        ),
    ensures
        ({
            let c = channel_id.name();
            let i = place(s.message_log, c, message_id.name());
            let ok = edit_accepted(
                s,
                message_id,
                channel_id,
                author_id,
                new_ciphertext,
                signature,
            );
            &&& !ok ==> after == s && fx.len() == 0
            &&& ok ==> {
                &&& one_entry_differs(s.message_log, after.message_log, c, i)
                &&& after.message_log.entries(c)[i].ciphertext == new_ciphertext
                &&& after.message_log.entries(c)[i].nonce == new_nonce
                &&& after.message_log.entries(c)[i].message_id == message_id.name()
                &&& s.message_log.entries(c)[i].author_id == author_id.name()
                &&& after == (AppStateView { message_log: after.message_log, ..s })
            }
        }),
{
    let c = channel_id.name();
    if edit_accepted(s, message_id, channel_id, author_id, new_ciphertext, signature) {
        lookups_find_the_first(s.message_log, c, message_id.name());
        edits_change_one_ciphertext(
            s.message_log,
            c,
            message_id.name(),
            new_nonce,
            new_ciphertext,
        );
    }
}

/// A deletion that its author announces marks the message deleted with every peer
/// who has it, and no other message; a deletion in the name of somebody who is not
/// the author changes nothing.
pub proof fn announced_deletions_take_effect(
    s: AppStateView,
    after: AppStateView,
    topic: Seq<char>,
    message_id: MessageId,
    channel_id: ChannelId,
    author_id: UserId,
    signature: Seq<u8>,
    timestamp: Timestamp,
    fx: Seq<EffectView>,
)
    requires
        channel_event_handled(
            s,
            after,
            topic,
            NetworkEventView::DeleteMessage {
                message_id,
                channel_id,
                author_id,
                signature,
                timestamp,
            },
            fx,
        ),
    ensures
        ({
            let c = channel_id.name();
            let i = place(s.message_log, c, message_id.name());
            let known = s.message_log.entry(c, message_id.name());
            &&& known is Some && known->0.author_id == author_id.name() ==> {
                &&& one_entry_differs(s.message_log, after.message_log, c, i)
                &&& after.message_log.entries(c)[i] == (LogEntryView {
                    deleted: true,
                    ..s.message_log.entries(c)[i]
                })
                &&& after.message_log.entries(c)[i].message_id == message_id.name()
                &&& after == (AppStateView { message_log: after.message_log, ..s })
            }
            &&& !(known is Some && known->0.author_id == author_id.name()) ==> after == s
                && fx.len() == 0
        }),
{
    let c = channel_id.name();
    if s.message_log.entry(c, message_id.name()) is Some {
        lookups_find_the_first(s.message_log, c, message_id.name());
        deletions_mark_one_message(s.message_log, c, message_id.name());
    }
}

/// A deletion that the local user makes goes to the peers with the very ids and
/// the very author that they need to apply it.
pub proof fn deletions_are_announced(
    s: AppStateView,
    community: Seq<char>,
    channel_id: ChannelId,
    message_id: MessageId,
    now: Timestamp,
)
    ensures
        exists|signature: Seq<u8>|
            deletion_effects(s, community, channel_id.name(), message_id.name(), now).contains(
                EffectView::Publish {
                    topic: channel_topic(channel_id.name()),
                    event: #[trigger] deletion_notice(
                        message_id,
                        channel_id,
                        s.local.user_id,
                        signature,
                        now,
                    ),
                },
            ),
{
    crate::model::types::ulid_text_round_trip(channel_id.0);
    crate::model::types::ulid_text_round_trip(message_id.0);
    let fx = deletion_effects(s, community, channel_id.name(), message_id.name(), now);
    let signature = crate::crypto::primitives::ed25519_signature(
        s.local.key,
        crate::model::network_event::delete_message(message_id, channel_id),
    );
    assert(fx[0] == EffectView::Publish {
        topic: channel_topic(channel_id.name()),
        event: deletion_notice(message_id, channel_id, s.local.user_id, signature, now),
    });
}

/// The notice of a deletion.
pub open spec fn deletion_notice(
    message_id: MessageId,
    channel_id: ChannelId,
    author_id: UserId,
    signature: Seq<u8>,
    timestamp: Timestamp,
) -> NetworkEventView {
    NetworkEventView::DeleteMessage { message_id, channel_id, author_id, signature, timestamp }
}

/// Authors can edit and delete their own messages.
pub proof fn authors_can_change_their_messages(
    s: AppStateView,
    community: Seq<char>,
    c: Seq<char>,
    id: Seq<char>,
    body: Seq<char>,
)
    requires
        seed_check(s, community) is Ok,
        s.message_log.entry(c, id) matches Some(e) && e.author_id == s.me(),
    ensures
        deletion_refusal(s, community, c, id) is None,
        body.len() > 0 && s.channel_keys.contains_key(c) ==> edit_refusal(
            s,
            community,
            c,
            id,
            body,
        ) is None,
{
}

/// An announced rotation is taken only if the community's own key signed it, the
/// channel is known and the version is higher; then the new manifest stands, the
/// key in use stays, and messages wait from then on.
pub proof fn rotations_are_announced_by_the_creator(
    s: AppStateView,
    m: ChannelManifestView,
    signature: Seq<u8>,
)
    ensures
        rotation_accepted(s, m, signature) ==> {
            &&& s.communities.contains_key(m.community_id.name())
            &&& crate::model::network_event::accepts(
                s.communities[m.community_id.name()].manifest.public_key,
                m.canonical(),
                signature,
            )
            &&& s.channels.contains_key(m.id.name())
            &&& m.version > s.channels[m.id.name()].version
        },
        ({
            let t = rotation_applied(s, m);
            &&& t.channels.contains_key(m.id.name())
            &&& t.channels[m.id.name()] == m
            &&& t.channel_keys == s.channel_keys
            &&& t.message_log == s.message_log
            &&& t.pending_rotation_messages.contains_key(m.id.name())
            &&& forall|d: Seq<char>|
                d != m.id.name() && s.channels.contains_key(d) ==> #[trigger] t.channels.contains_key(
                    d,
                ) && t.channels[d] == s.channels[d]
        }),
{
}

/// Entries are numbered by their place: a message that is received or sent gets the
/// number of entries before it.
pub proof fn entries_are_numbered(s: AppStateView, topic: Seq<char>, m: RawMessageView, c: Seq<char>)
    requires
        s.message_log.entries(m.channel_id.name()).len() <= u64::MAX,
        s.message_log.entries(c).len() <= u64::MAX,
    ensures
        verdict(s, m) is Stored ==> message_received(s, topic, m).message_log.entries(
            m.channel_id.name(),
        ).last().seq == s.message_log.entries(m.channel_id.name()).len(),
        crate::api::rpc_server::message::message_added(s, c, m).message_log.entries(c).last().seq
            == s.message_log.entries(c).len(),
{
}

/// The entries from a place on are the end of the log from there.
pub proof fn later_entries_are_the_end(log: Seq<LogEntryView>, since: int)
    requires
        0 <= since,
    ensures
        since <= log.len() ==> crate::state::message_log::entries_since(log, since)
            == log.subrange(since, log.len() as int),
        since > log.len() ==> crate::state::message_log::entries_since(log, since).len() == 0,
{
    if since == log.len() {
        assert(log.subrange(since, since) =~= Seq::<LogEntryView>::empty());
    }
}

/// An edit keeps the attachments and the reply target of a text, takes the new body
/// and notes the time.
pub proof fn edits_keep_the_rest(before: MessageContentView, body: Seq<char>, now: Timestamp)
    requires
        before is Text,
    ensures
        ({
            let t = crate::api::rpc_server::message::edited_content(Some(before), body, now);
            &&& t is Text
            &&& t->body == body
            &&& t->attachments == before->attachments
            &&& t->reply_to == before->reply_to
            &&& t->edited_at == Some(now)
        }),
{
}

} // verus!
