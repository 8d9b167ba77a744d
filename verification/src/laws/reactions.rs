//! Reactions: who reacted to a message with which emoji.

use crate::api::event_processor::channel_handler::{
    content_under, history_received, key_of, merged, message_received, verdict, Verdict,
};
use crate::api::event_processor::{is_list_of_firsts, one_more_first};
use crate::api::rpc_server::message::{carried, log_entry, reaction_done};
use crate::api::types::{ReactionInfoView, ReactionParams};
use crate::api::AppStateView;
use crate::laws::waiting::entry_ids;
use crate::lists::with_text;
use crate::model::message::{MessageContentView, RawMessageView};
use crate::model::types::ulid_parse;
use crate::state::message_log::{
    entry_index_found, reacted, unreacted, LogEntryView, MessageLogView,
};
use vstd::prelude::*;

verus! {

/// Whether `user` is listed under `emoji`.
pub open spec fn reacts(list: Seq<ReactionInfoView>, emoji: Seq<char>, user: Seq<char>) -> bool {
    exists|i: int|
        0 <= i < list.len() && (#[trigger] list[i]).emoji == emoji && list[i].user_ids.contains(user)
}

/// Whether no emoji is listed twice, and each is listed with users that occur
/// once and are at least one.
pub open spec fn tidy(list: Seq<ReactionInfoView>) -> bool {
    &&& forall|i: int, j: int|
        0 <= i < j < list.len() ==> (#[trigger] list[i]).emoji != (#[trigger] list[j]).emoji
    &&& forall|i: int|
        0 <= i < list.len() ==> (#[trigger] list[i]).user_ids.len() > 0
            && list[i].user_ids.no_duplicates()
}

/// Whether `user` has reacted to message `id` with `emoji`.
pub open spec fn has_reacted(
    log: MessageLogView,
    id: Seq<char>,
    emoji: Seq<char>,
    user: Seq<char>,
) -> bool {
    reacts(log.reactions_of(id), emoji, user)
}

proof fn split_reacts(list: Seq<ReactionInfoView>, emoji: Seq<char>, user: Seq<char>)
    requires
        list.len() > 0,
    ensures
        reacts(list, emoji, user) <==> (list[0].emoji == emoji && list[0].user_ids.contains(user))
            || reacts(list.subrange(1, list.len() as int), emoji, user),
{
    let rest = list.subrange(1, list.len() as int);
    if reacts(list, emoji, user) {
        let i = choose|i: int|
            0 <= i < list.len() && (#[trigger] list[i]).emoji == emoji
                && list[i].user_ids.contains(user);
        if i > 0 {
            assert(rest[i - 1].emoji == emoji);
        }
    }
    if reacts(rest, emoji, user) {
        let i = choose|i: int|
            0 <= i < rest.len() && (#[trigger] rest[i]).emoji == emoji
                && rest[i].user_ids.contains(user);
        assert(list[i + 1].emoji == emoji);
    }
}

proof fn joined_reacts(
    x: ReactionInfoView,
    rest: Seq<ReactionInfoView>,
    emoji: Seq<char>,
    user: Seq<char>,
)
    ensures
        reacts(seq![x] + rest, emoji, user) <==> (x.emoji == emoji && x.user_ids.contains(user))
            || reacts(rest, emoji, user),
{
    let list = seq![x] + rest;
    split_reacts(list, emoji, user);
    assert(list.subrange(1, list.len() as int) =~= rest);
}

/// Reacting adds one user to one emoji and leaves every other reaction as it
/// was.
pub proof fn reacting_adds_one(
    list: Seq<ReactionInfoView>,
    emoji: Seq<char>,
    user: Seq<char>,
    e: Seq<char>,
    u: Seq<char>,
)
    ensures
        reacts(reacted(list, emoji, user), e, u) <==> reacts(list, e, u) || (e == emoji && u
            == user),
    decreases list.len(),
{
    let out = reacted(list, emoji, user);
    if list.len() == 0 {
        let x = ReactionInfoView { emoji, user_ids: seq![user] };
        assert(out =~= seq![x] + Seq::<ReactionInfoView>::empty());
        joined_reacts(x, Seq::empty(), e, u);
        assert(seq![user].contains(u) <==> u == user) by {
            assert(seq![user][0] == user);
        }
    } else {
        let rest = list.subrange(1, list.len() as int);
        split_reacts(list, e, u);
        if list[0].emoji == emoji {
            let before = list[0].user_ids;
            let x = out[0];
            assert(out =~= seq![x] + rest);
            joined_reacts(x, rest, e, u);
            assert(x.user_ids.contains(u) <==> before.contains(u) || u == user) by {
                if before.contains(u) {
                    assert(x.user_ids[before.index_of(u)] == u);
                }
                if !before.contains(user) {
                    assert(x.user_ids[before.len() as int] == user);
                }
            }
        } else {
            reacting_adds_one(rest, emoji, user, e, u);
            joined_reacts(list[0], reacted(rest, emoji, user), e, u);
        }
    }
}

/// Taking a reaction back removes one user from one emoji and leaves every
/// other reaction as it was.
pub proof fn unreacting_removes_one(
    list: Seq<ReactionInfoView>,
    emoji: Seq<char>,
    user: Seq<char>,
    e: Seq<char>,
    u: Seq<char>,
)
    requires
        tidy(list),
    ensures
        reacts(unreacted(list, emoji, user), e, u) <==> reacts(list, e, u) && !(e == emoji && u
            == user),
    decreases list.len(),
{
    if list.len() > 0 {
        let rest = list.subrange(1, list.len() as int);
        split_reacts(list, e, u);
        assert(tidy(rest)) by {
            assert forall|i: int, j: int| 0 <= i < j < rest.len() implies (
            #[trigger] rest[i]).emoji != (#[trigger] rest[j]).emoji by {
                assert(list[i + 1].emoji != list[j + 1].emoji);
            }
            assert forall|i: int| 0 <= i < rest.len() implies (#[trigger] rest[i]).user_ids.len()
                > 0 && rest[i].user_ids.no_duplicates() by {
                assert(list[i + 1].user_ids.len() > 0);
            }
        }
        if list[0].emoji == emoji {
            let left = crate::lists::without_text(list[0].user_ids, user);
            crate::lists::without_text_membership(list[0].user_ids, user, u);
            assert(!reacts(rest, emoji, u)) by {
                if reacts(rest, emoji, u) {
                    let i = choose|i: int|
                        0 <= i < rest.len() && (#[trigger] rest[i]).emoji == emoji
                            && rest[i].user_ids.contains(u);
                    assert(list[0].emoji != list[i + 1].emoji);
                }
            }
            if left.len() > 0 {
                joined_reacts(ReactionInfoView { emoji, user_ids: left }, rest, e, u);
            }
        } else {
            unreacting_removes_one(rest, emoji, user, e, u);
            joined_reacts(list[0], unreacted(rest, emoji, user), e, u);
        }
    }
}

/// Whether an emoji is listed.
pub open spec fn lists_emoji(list: Seq<ReactionInfoView>, emoji: Seq<char>) -> bool {
    exists|i: int| 0 <= i < list.len() && (#[trigger] list[i]).emoji == emoji
}

proof fn joined_tidy(x: ReactionInfoView, rest: Seq<ReactionInfoView>)
    ensures
        tidy(seq![x] + rest) <==> tidy(rest) && !lists_emoji(rest, x.emoji) && x.user_ids.len() > 0
            && x.user_ids.no_duplicates(),
        forall|e: Seq<char>| #[trigger]
            lists_emoji(seq![x] + rest, e) <==> x.emoji == e || lists_emoji(rest, e),
{
    let list = seq![x] + rest;
    assert(list[0] == x);
    assert forall|i: int| 0 <= i < rest.len() implies #[trigger] rest[i] == list[i + 1] by {}
    assert forall|e: Seq<char>| #[trigger]
        lists_emoji(list, e) <==> x.emoji == e || lists_emoji(rest, e) by {
        if lists_emoji(list, e) {
            let i = choose|i: int| 0 <= i < list.len() && (#[trigger] list[i]).emoji == e;
            if i > 0 {
                assert(rest[i - 1].emoji == e);
            }
        }
        if lists_emoji(rest, e) {
            let i = choose|i: int| 0 <= i < rest.len() && (#[trigger] rest[i]).emoji == e;
            assert(list[i + 1].emoji == e);
        }
        if x.emoji == e {
            assert(list[0].emoji == e);
        }
    }
    if tidy(list) {
        assert forall|i: int, j: int| 0 <= i < j < rest.len() implies (#[trigger] rest[i]).emoji
            != (#[trigger] rest[j]).emoji by {
            assert(list[i + 1].emoji != list[j + 1].emoji);
        }
        assert forall|i: int| 0 <= i < rest.len() implies (#[trigger] rest[i]).user_ids.len() > 0
            && rest[i].user_ids.no_duplicates() by {
            assert(list[i + 1].user_ids.len() > 0);
        }
        assert(list[0].user_ids.len() > 0);
        if lists_emoji(rest, x.emoji) {
            let i = choose|i: int| 0 <= i < rest.len() && (#[trigger] rest[i]).emoji == x.emoji;
            assert(list[0].emoji != list[i + 1].emoji);
        }
    }
    if tidy(rest) && !lists_emoji(rest, x.emoji) && x.user_ids.len() > 0
        && x.user_ids.no_duplicates() {
        assert forall|i: int, j: int| 0 <= i < j < list.len() implies (#[trigger] list[i]).emoji
            != (#[trigger] list[j]).emoji by {
            if i > 0 {
                assert(rest[i - 1].emoji != rest[j - 1].emoji);
            } else {
                assert(rest[j - 1].emoji != x.emoji);
            }
        }
        assert forall|i: int| 0 <= i < list.len() implies (#[trigger] list[i]).user_ids.len() > 0
            && list[i].user_ids.no_duplicates() by {
            if i > 0 {
                assert(rest[i - 1].user_ids.len() > 0);
            }
        }
    }
}

proof fn without_text_stays_distinct(v: Seq<Seq<char>>, s: Seq<char>)
    requires
        v.no_duplicates(),
    ensures
        crate::lists::without_text(v, s).no_duplicates(),
    decreases v.len(),
{
    reveal(Seq::filter);
    if v.len() > 0 {
        let short = v.drop_last();
        assert forall|i: int, j: int| 0 <= i < j < short.len() implies short[i] != short[j] by {
            assert(v[i] != v[j]);
        }
        without_text_stays_distinct(short, s);
        crate::lists::without_text_membership(short, s, v.last());
        if short.contains(v.last()) {
            let i = short.index_of(v.last());
            assert(v[i] != v[v.len() - 1]);
        }
    }
}

/// Reacting and taking back leave the list of reactions tidy: no emoji twice, no
/// user twice under one, and no emoji that nobody uses.
pub proof fn reactions_stay_tidy(list: Seq<ReactionInfoView>, emoji: Seq<char>, user: Seq<char>)
    requires
        tidy(list),
    ensures
        tidy(reacted(list, emoji, user)),
        tidy(unreacted(list, emoji, user)),
        forall|e: Seq<char>| #[trigger]
            lists_emoji(reacted(list, emoji, user), e) ==> lists_emoji(list, e) || e == emoji,
        forall|e: Seq<char>| #[trigger]
            lists_emoji(unreacted(list, emoji, user), e) ==> lists_emoji(list, e),
    decreases list.len(),
{
    let a = reacted(list, emoji, user);
    let b = unreacted(list, emoji, user);
    if list.len() == 0 {
        let x = ReactionInfoView { emoji, user_ids: seq![user] };
        assert(a =~= seq![x] + Seq::<ReactionInfoView>::empty());
        joined_tidy(x, Seq::empty());
    } else {
        let rest = list.subrange(1, list.len() as int);
        assert(list =~= seq![list[0]] + rest);
        joined_tidy(list[0], rest);
        if list[0].emoji == emoji {
            assert(a =~= seq![a[0]] + rest);
            joined_tidy(a[0], rest);
            let left = crate::lists::without_text(list[0].user_ids, user);
            without_text_stays_distinct(list[0].user_ids, user);
            joined_tidy(ReactionInfoView { emoji, user_ids: left }, rest);
        } else {
            reactions_stay_tidy(rest, emoji, user);
            joined_tidy(list[0], reacted(rest, emoji, user));
            joined_tidy(list[0], unreacted(rest, emoji, user));
        }
    }
}

/// Whether the reactions of every message are tidy.
pub open spec fn tidy_log(log: MessageLogView) -> bool {
    forall|id: Seq<char>| tidy(#[trigger] log.reactions_of(id))
}

/// A reaction counts for its message, its emoji and its user, and for nothing
/// else; and the entries stay as they are.
pub proof fn a_reaction_counts_where_it_belongs(
    log: MessageLogView,
    id: Seq<char>,
    emoji: Seq<char>,
    user: Seq<char>,
    is_add: bool,
    m: Seq<char>,
    e: Seq<char>,
    u: Seq<char>,
)
    requires
        tidy_log(log),
    ensures
        ({
            let t = log.with_reaction(id, emoji, user, is_add);
            &&& tidy_log(t)
            &&& t.channels == log.channels
            &&& has_reacted(t, m, e, u) == if m == id && e == emoji && u == user {
                is_add
            } else {
                has_reacted(log, m, e, u)
            }
        }),
{
    let t = log.with_reaction(id, emoji, user, is_add);
    let before = log.reactions_of(id);
    reactions_stay_tidy(before, emoji, user);
    reacting_adds_one(before, emoji, user, e, u);
    unreacting_removes_one(before, emoji, user, e, u);
    assert forall|k: Seq<char>| tidy(#[trigger] t.reactions_of(k)) by {
        if k != id {
            assert(t.reactions_of(k) == log.reactions_of(k));
        }
    }
    if m != id {
        assert(t.reactions_of(m) == log.reactions_of(m));
    }
}

/// Whether an entry, read with the given key, is a reaction of `user` to
/// message `id` with `emoji`.
pub open spec fn is_reaction(
    key: Option<Seq<u8>>,
    entry: LogEntryView,
    id: Seq<char>,
    emoji: Seq<char>,
    user: Seq<char>,
    is_add: bool,
) -> bool {
    entry.author_id == user && content_under(key, entry.nonce, entry.ciphertext) == Some(
        MessageContentView::Reaction { target_message_id: id, emoji, is_add },
    )
}

/// One more entry of a history: its reaction counts if the entry is new.
proof fn merging_one_more(
    log: MessageLogView,
    channel: Seq<char>,
    key: Option<Seq<u8>>,
    entries: Seq<LogEntryView>,
    m: Seq<char>,
    e: Seq<char>,
    u: Seq<char>,
)
    requires
        entries.len() > 0,
        tidy_log(merged(log, channel, key, entries.drop_last())),
    ensures
        ({
            let before = merged(log, channel, key, entries.drop_last());
            let after = merged(log, channel, key, entries);
            let x = entries.last();
            &&& tidy_log(after)
            &&& before.entry(channel, x.message_id) is Some ==> after == before
            &&& before.entry(channel, x.message_id) is None && is_reaction(key, x, m, e, u, true)
                ==> has_reacted(after, m, e, u)
            &&& before.entry(channel, x.message_id) is None && is_reaction(key, x, m, e, u, false)
                ==> !has_reacted(after, m, e, u)
            &&& !is_reaction(key, x, m, e, u, true) && !is_reaction(key, x, m, e, u, false)
                ==> has_reacted(after, m, e, u) == has_reacted(before, m, e, u)
        }),
{
    let before = merged(log, channel, key, entries.drop_last());
    let after = merged(log, channel, key, entries);
    let x = entries.last();
    if before.entry(channel, x.message_id) is None {
        match content_under(key, x.nonce, x.ciphertext) {
            Some(MessageContentView::Reaction { target_message_id, emoji, is_add }) => {
                let mid = before.with_reaction(target_message_id, emoji, x.author_id, is_add);
                a_reaction_counts_where_it_belongs(
                    before,
                    target_message_id,
                    emoji,
                    x.author_id,
                    is_add,
                    m,
                    e,
                    u,
                );
                assert(after.reactions == mid.reactions);
                assert forall|k: Seq<char>| tidy(#[trigger] after.reactions_of(k)) by {
                    assert(after.reactions_of(k) == mid.reactions_of(k));
                }
                assert(after.reactions_of(m) == mid.reactions_of(m));
            },
            _ => {
                assert(after.reactions == before.reactions);
                assert forall|k: Seq<char>| tidy(#[trigger] after.reactions_of(k)) by {
                    assert(after.reactions_of(k) == before.reactions_of(k));
                }
                assert(after.reactions_of(m) == before.reactions_of(m));
            },
        }
    }
}

proof fn merging_stays_tidy(
    log: MessageLogView,
    channel: Seq<char>,
    key: Option<Seq<u8>>,
    entries: Seq<LogEntryView>,
)
    requires
        tidy_log(log),
    ensures
        tidy_log(merged(log, channel, key, entries)),
    decreases entries.len(),
{
    if entries.len() > 0 {
        merging_stays_tidy(log, channel, key, entries.drop_last());
        merging_one_more(
            log,
            channel,
            key,
            entries,
            Seq::empty(),
            Seq::empty(),
            Seq::empty(),
        );
    }
}

/// The log has an id after a merge exactly when it had it before or the history
/// names it.
pub proof fn merging_adds_the_named_ids(
    log: MessageLogView,
    channel: Seq<char>,
    key: Option<Seq<u8>>,
    entries: Seq<LogEntryView>,
    id: Seq<char>,
)
    ensures
        merged(log, channel, key, entries).entry(channel, id) is Some <==> (log.entry(
            channel,
            id,
        ) is Some || exists|i: int|
            0 <= i < entries.len() && (#[trigger] entries[i]).message_id == id),
    decreases entries.len(),
{
    let after = merged(log, channel, key, entries);
    if entries.len() > 0 {
        let short = entries.drop_last();
        let x = entries.last();
        let before = merged(log, channel, key, short);
        merging_adds_the_named_ids(log, channel, key, short, id);
        entry_index_found(before.entries(channel), id, 0);
        entry_index_found(after.entries(channel), id, 0);
        if exists|i: int| 0 <= i < entries.len() && (#[trigger] entries[i]).message_id == id {
            let i = choose|i: int| 0 <= i < entries.len() && (#[trigger] entries[i]).message_id
                == id;
            if i < short.len() {
                assert(short[i].message_id == id);
            }
        }
        if exists|i: int| 0 <= i < short.len() && (#[trigger] short[i]).message_id == id {
            let i = choose|i: int| 0 <= i < short.len() && (#[trigger] short[i]).message_id == id;
            assert(entries[i].message_id == id);
        }
        assert(entries[entries.len() - 1].message_id == x.message_id);
        let old_entries = before.entries(channel);
        let new_entries = after.entries(channel);
        if before.entry(channel, x.message_id) is None {
            assert(new_entries =~= old_entries.push(x));
            assert(new_entries[old_entries.len() as int] == x);
            if before.entry(channel, id) is Some {
                let j = crate::state::message_log::entry_index(old_entries, id, 0)->0;
                assert(new_entries[j].message_id == id);
            }
        }
    }
}

/// Reactions made while a member was away count once the history came in: the
/// last word of a user on an emoji for a message holds.
pub proof fn caught_up_reactions_count(
    log: MessageLogView,
    channel: Seq<char>,
    key: Option<Seq<u8>>,
    entries: Seq<LogEntryView>,
    i: int,
    id: Seq<char>,
    emoji: Seq<char>,
    user: Seq<char>,
    is_add: bool,
)
    requires
        tidy_log(log),
        0 <= i < entries.len(),
        is_reaction(key, entries[i], id, emoji, user, is_add),
        log.entry(channel, entries[i].message_id) is None,
        forall|j: int|
            0 <= j < i ==> (#[trigger] entries[j]).message_id != entries[i].message_id,
        forall|j: int|
            i < j < entries.len() ==> !is_reaction(
                key,
                #[trigger] entries[j],
                id,
                emoji,
                user,
                !is_add,
            ),
    ensures
        has_reacted(merged(log, channel, key, entries), id, emoji, user) == is_add,
    decreases entries.len(),
{
    let short = entries.drop_last();
    let before = merged(log, channel, key, short);
    merging_stays_tidy(log, channel, key, short);
    merging_one_more(log, channel, key, entries, id, emoji, user);
    if i < entries.len() - 1 {
        assert forall|j: int| 0 <= j < i implies (#[trigger] short[j]).message_id
            != short[i].message_id by {
            assert(entries[j].message_id != entries[i].message_id);
        }
        assert forall|j: int| i < j < short.len() implies !is_reaction(
            key,
            #[trigger] short[j],
            id,
            emoji,
            user,
            !is_add,
        ) by {
            assert(!is_reaction(key, entries[j], id, emoji, user, !is_add));
        }
        caught_up_reactions_count(log, channel, key, short, i, id, emoji, user, is_add);
        assert(!is_reaction(key, entries[entries.len() - 1], id, emoji, user, !is_add));
    } else {
        merging_adds_the_named_ids(log, channel, key, short, entries[i].message_id);
        if before.entry(channel, entries[i].message_id) is Some {
            let j = choose|j: int|
                0 <= j < short.len() && (#[trigger] short[j]).message_id == entries[i].message_id;
            assert(entries[j].message_id != entries[i].message_id);
        }
    }
}

/// A history in which a user says nothing about an emoji for a message leaves
/// that reaction as it was.
pub proof fn catching_up_invents_no_reaction(
    log: MessageLogView,
    channel: Seq<char>,
    key: Option<Seq<u8>>,
    entries: Seq<LogEntryView>,
    id: Seq<char>,
    emoji: Seq<char>,
    user: Seq<char>,
)
    requires
        tidy_log(log),
        forall|j: int|
            0 <= j < entries.len() ==> !is_reaction(
                key,
                #[trigger] entries[j],
                id,
                emoji,
                user,
                true,
            ) && !is_reaction(key, entries[j], id, emoji, user, false),
    ensures
        has_reacted(merged(log, channel, key, entries), id, emoji, user) == has_reacted(
            log,
            id,
            emoji,
            user,
        ),
    decreases entries.len(),
{
    if entries.len() > 0 {
        let short = entries.drop_last();
        assert forall|j: int| 0 <= j < short.len() implies !is_reaction(
            key,
            #[trigger] short[j],
            id,
            emoji,
            user,
            true,
        ) && !is_reaction(key, short[j], id, emoji, user, false) by {
            assert(!is_reaction(key, entries[j], id, emoji, user, true));
        }
        catching_up_invents_no_reaction(log, channel, key, short, id, emoji, user);
        merging_stays_tidy(log, channel, key, short);
        merging_one_more(log, channel, key, entries, id, emoji, user);
        assert(!is_reaction(key, entries[entries.len() - 1], id, emoji, user, true));
    }
}

/// A history that comes in twice, or in two parts, leaves what it leaves in one.
pub proof fn histories_can_come_in_parts(
    log: MessageLogView,
    channel: Seq<char>,
    key: Option<Seq<u8>>,
    a: Seq<LogEntryView>,
    b: Seq<LogEntryView>,
)
    ensures
        merged(merged(log, channel, key, a), channel, key, b) == merged(log, channel, key, a + b),
    decreases b.len(),
{
    if b.len() == 0 {
        assert(a + b =~= a);
    } else {
        histories_can_come_in_parts(log, channel, key, a, b.drop_last());
        assert((a + b).drop_last() =~= a + b.drop_last());
        assert((a + b).last() == b.last());
    }
}

/// Catching up on a message leaves the same reactions and the same entry as
/// receiving it live, when the current key opens it.
pub proof fn catching_up_equals_listening(s: AppStateView, topic: Seq<char>, m: RawMessageView)
    requires
        ({
            let c = m.channel_id.name();
            &&& verdict(s, m) matches Verdict::Stored(content) && content_under(
                key_of(s, c),
                m.nonce,
                m.ciphertext,
            ) == content
            &&& ulid_parse(c) is Some
        }),
    ensures
        ({
            let c = m.channel_id.name();
            let live = message_received(s, topic, m).message_log;
            let e = log_entry(m, s.message_log.entries(c).len());
            let caught_up = history_received(s, c, seq![e]).message_log;
            &&& caught_up == live
            &&& live.entry(c, m.id.name()) == Some(e)
            &&& e.message_id == m.id.name()
            &&& e.author_id == m.author_id.name()
            &&& e.nonce == m.nonce
            &&& e.ciphertext == m.ciphertext
            &&& e.timestamp_ms == m.timestamp.millis_spec()
            &&& !e.deleted
        }),
{
    let c = m.channel_id.name();
    let e = log_entry(m, s.message_log.entries(c).len());
    let list = seq![e];
    assert(list.drop_last() =~= Seq::empty());
    let live = message_received(s, topic, m).message_log;
    assert(merged(s.message_log, c, key_of(s, c), list.drop_last()) == s.message_log);
    let log = s.message_log.entries(c);
    entry_index_found(log, m.id.name(), 0);
    entry_index_found(live.entries(c), m.id.name(), 0);
    assert(live.entries(c) =~= log.push(e));
    assert(live.entries(c)[log.len() as int] == e);
    let j = crate::state::message_log::entry_index(live.entries(c), m.id.name(), 0)->0;
    if j < log.len() {
        assert(log[j].message_id == m.id.name());
    }
}

/// A reaction that comes in live counts for its author, and nothing else about
/// the reactions changes.
pub proof fn received_reactions_count(
    s: AppStateView,
    topic: Seq<char>,
    m: RawMessageView,
    id: Seq<char>,
    emoji: Seq<char>,
    user: Seq<char>,
)
    requires
        tidy_log(s.message_log),
        verdict(s, m) is Stored,
    ensures
        ({
            let t = message_received(s, topic, m).message_log;
            &&& tidy_log(t)
            &&& has_reacted(t, id, emoji, user) == match verdict(s, m)->Stored_0 {
                Some(
                    MessageContentView::Reaction { target_message_id, emoji: e, is_add },
                ) => if target_message_id == id && e == emoji && m.author_id.name() == user {
                    is_add
                } else {
                    has_reacted(s.message_log, id, emoji, user)
                },
                _ => has_reacted(s.message_log, id, emoji, user),
            }
        }),
{
    let t = message_received(s, topic, m).message_log;
    let log = s.message_log;
    match verdict(s, m)->Stored_0 {
        Some(MessageContentView::Reaction { target_message_id, emoji: e, is_add }) => {
            let u = m.author_id.name();
            a_reaction_counts_where_it_belongs(
                log,
                target_message_id,
                e,
                u,
                is_add,
                id,
                emoji,
                user,
            );
            let mid = log.with_reaction(target_message_id, e, u, is_add);
            assert forall|k: Seq<char>| tidy(#[trigger] t.reactions_of(k)) by {
                assert(t.reactions_of(k) == mid.reactions_of(k));
            }
            assert(t.reactions_of(id) == mid.reactions_of(id));
        },
        _ => {
            assert forall|k: Seq<char>| tidy(#[trigger] t.reactions_of(k)) by {
                assert(t.reactions_of(k) == log.reactions_of(k));
            }
            assert(t.reactions_of(id) == log.reactions_of(id));
        },
    }
}

/// A reaction request that succeeds counts for the local user, leaves every
/// other reaction as it was, and hands the very same reaction to the peers.
pub proof fn made_reactions_count(
    s: AppStateView,
    after: AppStateView,
    p: ReactionParams,
    is_add: bool,
    id: crate::model::types::MessageId,
    nonce: Seq<u8>,
    now: crate::time::Timestamp,
    result: Result<bool, crate::api::rpc_server::RpcError>,
    fx: Seq<crate::api::effects::EffectView>,
    m: Seq<char>,
    e: Seq<char>,
    u: Seq<char>,
)
    requires
        tidy_log(s.message_log),
        reaction_done(s, after, p, is_add, id, nonce, now, result, fx),
        result is Ok,
    ensures
        has_reacted(after.message_log, m, e, u) == if m == p.message_id@ && e == p.emoji@ && u
            == s.me() {
            is_add
        } else {
            has_reacted(s.message_log, m, e, u)
        },
        s.message_log.entry(p.channel_id@, p.message_id@) is Some,
        after.message_log.entries(p.channel_id@).len() == s.message_log.entries(
            p.channel_id@,
        ).len() + 1,
        exists|raw: RawMessageView|
            #[trigger] carried(
                s,
                p.channel_id@,
                raw,
                MessageContentView::Reaction {
                    target_message_id: p.message_id@,
                    emoji: p.emoji@,
                    is_add,
                },
            ) && fx.contains(
                crate::api::effects::EffectView::Publish {
                    topic: crate::api::channel_topic(p.channel_id@),
                    event: crate::model::network_event::NetworkEventView::NewMessage(raw),
                },
            ),
{
    let content = crate::api::rpc_server::message::reaction_of(p, is_add);
    let raw = crate::api::rpc_server::message::own_message(
        s,
        p.channel_id@,
        content,
        id,
        nonce,
        now,
    );
    let mid = crate::api::rpc_server::message::message_added(s, p.channel_id@, raw).message_log;
    assert forall|k: Seq<char>| tidy(#[trigger] mid.reactions_of(k)) by {
        assert(mid.reactions_of(k) == s.message_log.reactions_of(k));
    }
    assert(mid.reactions_of(m) == s.message_log.reactions_of(m));
    a_reaction_counts_where_it_belongs(mid, p.message_id@, p.emoji@, s.me(), is_add, m, e, u);
    assert(carried(s, p.channel_id@, raw, content));
    assert(fx[1] == crate::api::effects::EffectView::Publish {
        topic: crate::api::channel_topic(p.channel_id@),
        event: crate::model::network_event::NetworkEventView::NewMessage(raw),
    });
}

/// A member who comes back and catches up sees the reactions that were made in the
/// meantime: the last word of each user holds.
pub proof fn returning_members_see_reactions(
    s: AppStateView,
    c: Seq<char>,
    entries: Seq<LogEntryView>,
    i: int,
    id: Seq<char>,
    emoji: Seq<char>,
    user: Seq<char>,
    is_add: bool,
)
    requires
        tidy_log(s.message_log),
        ulid_parse(c) is Some,
        s.channel_keys.contains_key(c),
        0 <= i < entries.len(),
        is_reaction(Some(s.channel_keys[c]), entries[i], id, emoji, user, is_add),
        s.message_log.entry(c, entries[i].message_id) is None,
        forall|j: int|
            0 <= j < i ==> (#[trigger] entries[j]).message_id != entries[i].message_id,
        forall|j: int|
            i < j < entries.len() ==> !is_reaction(
                Some(s.channel_keys[c]),
                #[trigger] entries[j],
                id,
                emoji,
                user,
                !is_add,
            ),
    ensures
        has_reacted(history_received(s, c, entries).message_log, id, emoji, user) == is_add,
        history_received(s, c, entries) == (AppStateView {
            message_log: history_received(s, c, entries).message_log,
            ..s
        }),
{
    caught_up_reactions_count(
        s.message_log,
        c,
        Some(s.channel_keys[c]),
        entries,
        i,
        id,
        emoji,
        user,
        is_add,
    );
}

/// The entries of a history that the log lacks come in order behind those it has,
/// each once and unchanged.
pub proof fn histories_are_merged_in_order(
    log: MessageLogView,
    c: Seq<char>,
    key: Option<Seq<u8>>,
    entries: Seq<LogEntryView>,
)
    ensures
        ({
            let old_log = log.entries(c);
            let new_log = merged(log, c, key, entries).entries(c);
            let n = old_log.len() as int;
            let wanted = entries.filter(|e: LogEntryView| log.entry(c, e.message_id) is None);
            &&& n <= new_log.len()
            &&& new_log.subrange(0, n) == old_log
            &&& is_list_of_firsts(
                entry_ids(wanted),
                entry_ids(new_log.subrange(n, new_log.len() as int)),
            )
            &&& forall|k: int|
                n <= k < new_log.len() ==> entries.contains(#[trigger] new_log[k])
        }),
    decreases entries.len(),
{
    reveal(Seq::filter);
    let old_log = log.entries(c);
    let n = old_log.len() as int;
    let keep = |e: LogEntryView| log.entry(c, e.message_id) is None;
    if entries.len() == 0 {
        assert(old_log.subrange(0, n) =~= old_log);
        assert(entry_ids(entries.filter(keep)) =~= Seq::<Seq<char>>::empty());
        assert(entry_ids(old_log.subrange(n, n)) =~= Seq::<Seq<char>>::empty());
        assert(is_list_of_firsts(Seq::<Seq<char>>::empty(), Seq::<Seq<char>>::empty()));
    } else {
        let short = entries.drop_last();
        let x = entries.last();
        let id = x.message_id;
        histories_are_merged_in_order(log, c, key, short);
        let before = merged(log, c, key, short);
        let mid_log = before.entries(c);
        let new_log = merged(log, c, key, entries).entries(c);
        let kept = entry_ids(mid_log.subrange(n, mid_log.len() as int));
        let wanted = entry_ids(short.filter(keep));
        entry_index_found(mid_log, id, 0);
        entry_index_found(old_log, id, 0);
        assert(before.entry(c, id) is Some <==> kept.contains(id) || log.entry(c, id) is Some) by {
            if kept.contains(id) {
                let j = kept.index_of(id);
                assert(mid_log[n + j].message_id == id);
            }
            if log.entry(c, id) is Some {
                let j = crate::state::message_log::entry_index(old_log, id, 0)->0;
                assert(mid_log.subrange(0, n)[j] == old_log[j]);
                assert(mid_log[j].message_id == id);
            }
            if before.entry(c, id) is Some {
                let j = crate::state::message_log::entry_index(mid_log, id, 0)->0;
                if j < n {
                    assert(mid_log.subrange(0, n)[j] == old_log[j]);
                    assert(old_log[j].message_id == id);
                } else {
                    assert(kept[j - n] == id);
                }
            }
        }
        assert(new_log.subrange(0, n) =~= mid_log.subrange(0, n));
        let grown = entry_ids(new_log.subrange(n, new_log.len() as int));
        let all = entry_ids(entries.filter(keep));
        if before.entry(c, id) is None {
            assert(new_log =~= mid_log.push(x));
        }
        if keep(x) {
            assert(all =~= wanted.push(id));
            one_more_first(wanted, kept, id);
            if before.entry(c, id) is None {
                assert(grown =~= kept.push(id));
            }
            assert(grown =~= with_text(kept, id));
        } else {
            assert(all =~= wanted);
            assert(grown =~= kept);
        }
        assert forall|k: int| n <= k < new_log.len() implies entries.contains(
            #[trigger] new_log[k],
        ) by {
            if k < mid_log.len() {
                assert(new_log[k] == mid_log[k]);
                assert(short.contains(mid_log[k]));
                assert(entries[short.index_of(mid_log[k])] == new_log[k]);
            } else {
                assert(entries[entries.len() - 1] == new_log[k]);
            }
        }
    }
}

} // verus!
