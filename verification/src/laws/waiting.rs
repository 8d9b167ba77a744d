//! Messages that wait for a rotated channel key.

use crate::api::effects::EffectView;
use crate::api::event_processor::channel_handler::{
    message_received, received_effects, rotation_applied, verdict, Verdict,
};
use crate::api::event_processor::community_handler::{delivered_key, key_kept};
use crate::api::event_processor::manifest_handler::{
    drain_effects, drained, is_own, keyed_channels, keys_taken, replay_effects, replayed, rotated,
    unbuffered,
};
use crate::api::event_processor::{is_list_of_firsts, one_more_first};
use crate::api::push_broadcaster::PushEventView;
use crate::api::rpc_server::message::{keys_of, log_entry};
use crate::api::{AppStateView, BufferedMessageView};
use crate::lists::with_text;
use crate::model::channel::ChannelManifestView;
use crate::model::message::{MessageContentView, RawMessageView};
use crate::network::network_handle::types::ManifestResponseView;
use crate::state::message_log::{entry_index, entry_index_found, LogEntryView};
use crate::time::Timestamp;
use vstd::prelude::*;

verus! {

/// Whether what waits under a channel is addressed to that channel.
pub open spec fn waits_in_place(s: AppStateView) -> bool {
    forall|c: Seq<char>, i: int|
        s.pending_rotation_messages.contains_key(c) && 0 <= i
            < s.pending_rotation_messages[c].len()
            ==> (#[trigger] s.pending_rotation_messages[c][i]).message.channel_id.name() == c
}

/// Whether all the given messages are addressed to one channel.
pub open spec fn all_for(msgs: Seq<BufferedMessageView>, c: Seq<char>) -> bool {
    forall|i: int| 0 <= i < msgs.len() ==> (#[trigger] msgs[i]).message.channel_id.name() == c
}

/// Whether a message can be stored: it is readable, its author is a member who
/// signed it, and it is not in the log.
pub open spec fn storable(s: AppStateView, b: BufferedMessageView) -> bool {
    verdict(s, b.message) is Stored
}

/// The ids of the messages that can be stored, in the order in which they wait.
pub open spec fn storable_ids(s: AppStateView, msgs: Seq<BufferedMessageView>) -> Seq<Seq<char>> {
    msgs.filter(|b: BufferedMessageView| storable(s, b)).map_values(
        |b: BufferedMessageView| b.message.id.name(),
    )
}

/// The ids of log entries.
pub open spec fn entry_ids(log: Seq<LogEntryView>) -> Seq<Seq<char>> {
    log.map_values(|e: LogEntryView| e.message_id)
}

/// Whether a log entry holds what a message says.
pub open spec fn records(e: LogEntryView, m: RawMessageView) -> bool {
    &&& e.message_id == m.id.name()
    &&& e.author_id == m.author_id.name()
    &&& e.nonce == m.nonce
    &&& e.ciphertext == m.ciphertext
    &&& e.timestamp_ms == m.timestamp.millis_spec()
    &&& !e.deleted
}

/// Whether an effect tells clients about a new message.
pub open spec fn announces(fx: EffectView, m: RawMessageView) -> bool {
    fx matches EffectView::Push(PushEventView::MessageNew(d)) && d.message_id == m.id.name()
        && d.channel_id == m.channel_id.name() && d.author_id == m.author_id.name() && d.timestamp
        == m.timestamp
}

/// Whether an entry holds one of the messages that can be stored.
pub open spec fn comes_from(s: AppStateView, msgs: Seq<BufferedMessageView>, e: LogEntryView) -> bool {
    exists|i: int| 0 <= i < msgs.len() && storable(s, #[trigger] msgs[i]) && records(e, msgs[i].message)
}

/// Whether a log was extended by the messages that can be stored, each once, in
/// the order in which they wait.
pub open spec fn stored_in_order(
    s: AppStateView,
    msgs: Seq<BufferedMessageView>,
    old_log: Seq<LogEntryView>,
    new_log: Seq<LogEntryView>,
) -> bool {
    let n = old_log.len() as int;
    &&& n <= new_log.len()
    &&& new_log.subrange(0, n) == old_log
    &&& is_list_of_firsts(
        storable_ids(s, msgs),
        entry_ids(new_log.subrange(n, new_log.len() as int)),
    )
    &&& forall|k: int| n <= k < new_log.len() ==> comes_from(s, msgs, #[trigger] new_log[k])
}

/// Whether two states read and check messages in the same way.
pub open spec fn reads_alike(s: AppStateView, t: AppStateView) -> bool {
    &&& t.channels == s.channels
    &&& t.channel_keys == s.channel_keys
    &&& t.previous_channel_keys == s.previous_channel_keys
    &&& t.members == s.members
    &&& t.communities == s.communities
}

/// A message can be stored in a later state exactly when it can be stored now
/// and its id did not come in between.
proof fn storable_later(s: AppStateView, t: AppStateView, m: RawMessageView)
    requires
        reads_alike(s, t),
        s.message_log.entry(m.channel_id.name(), m.id.name()) is Some ==> t.message_log.entry(
            m.channel_id.name(),
            m.id.name(),
        ) is Some,
    ensures
        verdict(t, m) is Stored <==> verdict(s, m) is Stored && t.message_log.entry(
            m.channel_id.name(),
            m.id.name(),
        ) is None,
        verdict(t, m) is Stored ==> verdict(t, m) == verdict(s, m),
{
    assert(keys_of(t, m.channel_id.name()) == keys_of(s, m.channel_id.name()));
}

/// Which entries one more message leaves.
proof fn one_more_message(s: AppStateView, topic: Seq<char>, m: RawMessageView, c: Seq<char>)
    ensures
        ({
            let t = message_received(s, topic, m);
            let old_log = s.message_log.entries(c);
            let new_log = t.message_log.entries(c);
            &&& reads_alike(s, t)
            &&& c != m.channel_id.name() || !(verdict(s, m) is Stored) ==> new_log == old_log
            &&& c == m.channel_id.name() && verdict(s, m) is Stored ==> new_log == old_log.push(
                log_entry(m, old_log.len()),
            )
            &&& c != m.channel_id.name() || !s.pending_rotation_messages.contains_key(c) ==> {
                &&& t.pending_rotation_messages.contains_key(c)
                    == s.pending_rotation_messages.contains_key(c)
                &&& t.pending_rotation_messages[c] == s.pending_rotation_messages[c]
            }
        }),
{
}

/// Waiting messages that are handled again are stored, each once, in the order
/// in which they waited: all those that can be read, that their authors, members
/// of the channel's community, signed, and that are not in the log. What was in
/// the log stays in front.
pub proof fn waiting_messages_are_stored_in_order(
    s: AppStateView,
    msgs: Seq<BufferedMessageView>,
    c: Seq<char>,
)
    requires
        all_for(msgs, c),
    ensures
        reads_alike(s, replayed(s, msgs)),
        stored_in_order(
            s,
            msgs,
            s.message_log.entries(c),
            replayed(s, msgs).message_log.entries(c),
        ),
    decreases msgs.len(),
{
    reveal(Seq::filter);
    let t = replayed(s, msgs);
    let old_log = s.message_log.entries(c);
    let n = old_log.len() as int;
    let keep = |b: BufferedMessageView| storable(s, b);
    let name = |b: BufferedMessageView| b.message.id.name();
    if msgs.len() == 0 {
        assert(old_log.subrange(0, n) =~= old_log);
        assert(storable_ids(s, msgs) =~= Seq::<Seq<char>>::empty());
        assert(entry_ids(old_log.subrange(n, n)) =~= Seq::<Seq<char>>::empty());
        assert(is_list_of_firsts(Seq::<Seq<char>>::empty(), Seq::<Seq<char>>::empty()));
    } else {
        let short = msgs.drop_last();
        let b = msgs.last();
        let m = b.message;
        assert forall|i: int| 0 <= i < short.len() implies (
        #[trigger] short[i]).message.channel_id.name() == c by {
            assert(msgs[i].message.channel_id.name() == c);
        }
        assert(msgs[msgs.len() - 1].message.channel_id.name() == c);
        waiting_messages_are_stored_in_order(s, short, c);
        let u = replayed(s, short);
        let mid_log = u.message_log.entries(c);
        let new_log = t.message_log.entries(c);
        let kept = entry_ids(mid_log.subrange(n, mid_log.len() as int));
        let wanted = storable_ids(s, short);
        let id = m.id.name();
        one_more_message(u, b.topic, m, c);
        entry_index_found(mid_log, id, 0);
        entry_index_found(old_log, id, 0);
        if s.message_log.entry(c, id) is Some {
            let j = entry_index(old_log, id, 0)->0;
            assert(mid_log.subrange(0, n)[j] == old_log[j]);
            assert(mid_log[j].message_id == id);
        }
        storable_later(s, u, m);
        assert(kept.contains(id) || s.message_log.entry(c, id) is Some <==> u.message_log.entry(
            c,
            id,
        ) is Some) by {
            if kept.contains(id) {
                let j = kept.index_of(id);
                assert(mid_log[n + j].message_id == id);
            }
            if u.message_log.entry(c, id) is Some {
                let j = entry_index(mid_log, id, 0)->0;
                if j < n {
                    assert(mid_log.subrange(0, n)[j] == old_log[j]);
                    assert(old_log[j].message_id == id);
                } else {
                    assert(kept[j - n] == id);
                }
            }
        }
        assert(new_log.subrange(0, n) =~= mid_log.subrange(0, n));
        let grown = entry_ids(new_log.subrange(n, new_log.len() as int));
        if storable(s, b) {
            assert(storable_ids(s, msgs) =~= wanted.push(id));
            one_more_first(wanted, kept, id);
            if u.message_log.entry(c, id) is None {
                assert(grown =~= kept.push(id));
            } else {
                assert(kept.contains(id));
            }
            assert(grown =~= with_text(kept, id));
        } else {
            assert(storable_ids(s, msgs) =~= wanted);
            assert(grown =~= kept);
        }
        assert forall|k: int| n <= k < new_log.len() implies comes_from(
            s,
            msgs,
            #[trigger] new_log[k],
        ) by {
            if k < mid_log.len() {
                assert(new_log[k] == mid_log[k]);
                assert(comes_from(s, short, mid_log[k]));
                let i = choose|i: int|
                    0 <= i < short.len() && storable(s, #[trigger] short[i]) && records(
                        mid_log[k],
                        short[i].message,
                    );
                assert(msgs[i] == short[i]);
                assert(storable(s, msgs[i]));
            } else {
                let i = msgs.len() - 1;
                assert(storable(s, msgs[i]));
                assert(records(new_log[k], msgs[i].message));
            }
        }
    }
}

/// Handling messages of one channel again leaves the logs and the waiting
/// messages of the other channels alone, and keeps nothing for a channel that
/// waits no more.
proof fn replaying_leaves_others(
    s: AppStateView,
    msgs: Seq<BufferedMessageView>,
    c: Seq<char>,
    d: Seq<char>,
)
    requires
        all_for(msgs, c),
        d != c || !s.pending_rotation_messages.contains_key(c),
    ensures
        ({
            let t = replayed(s, msgs);
            &&& d != c ==> t.message_log.entries(d) == s.message_log.entries(d)
            &&& t.pending_rotation_messages.contains_key(d)
                == s.pending_rotation_messages.contains_key(d)
            &&& t.pending_rotation_messages[d] == s.pending_rotation_messages[d]
        }),
    decreases msgs.len(),
{
    if msgs.len() > 0 {
        let short = msgs.drop_last();
        assert forall|i: int| 0 <= i < short.len() implies (
        #[trigger] short[i]).message.channel_id.name() == c by {
            assert(msgs[i].message.channel_id.name() == c);
        }
        assert(msgs[msgs.len() - 1].message.channel_id.name() == c);
        replaying_leaves_others(s, short, c, d);
        one_more_message(replayed(s, short), msgs.last().topic, msgs.last().message, d);
    }
}

/// Clients hear of every message that is stored: for each waiting text that can
/// be stored, the first with its id, a push goes out.
pub proof fn waiting_messages_are_announced(
    s: AppStateView,
    msgs: Seq<BufferedMessageView>,
    c: Seq<char>,
    i: int,
)
    requires
        all_for(msgs, c),
        0 <= i < msgs.len(),
        verdict(s, msgs[i].message) matches Verdict::Stored(content) && !(content matches Some(
            MessageContentView::Reaction { .. },
        )),
        forall|j: int|
            0 <= j < i ==> (#[trigger] msgs[j]).message.id.name() != msgs[i].message.id.name(),
    ensures
        exists|k: int|
            0 <= k < replay_effects(s, msgs).len() && announces(
                #[trigger] replay_effects(s, msgs)[k],
                msgs[i].message,
            ),
    decreases msgs.len(),
{
    let short = msgs.drop_last();
    let head = replay_effects(s, short);
    let all = replay_effects(s, msgs);
    assert forall|j: int| 0 <= j < short.len() implies (
    #[trigger] short[j]).message.channel_id.name() == c by {
        assert(msgs[j].message.channel_id.name() == c);
    }
    if i < short.len() {
        assert forall|j: int| 0 <= j < i implies (#[trigger] short[j]).message.id.name()
            != short[i].message.id.name() by {
            assert(msgs[j].message.id.name() != msgs[i].message.id.name());
        }
        waiting_messages_are_announced(s, short, c, i);
        let k = choose|k: int| 0 <= k < head.len() && announces(#[trigger] head[k], msgs[i].message);
        assert(all[k] == head[k]);
    } else {
        let u = replayed(s, short);
        let m = msgs[i].message;
        let id = m.id.name();
        waiting_messages_are_stored_in_order(s, short, c);
        let old_log = s.message_log.entries(c);
        let mid_log = u.message_log.entries(c);
        let n = old_log.len() as int;
        entry_index_found(mid_log, id, 0);
        entry_index_found(old_log, id, 0);
        if u.message_log.entry(c, id) is Some {
            let j = entry_index(mid_log, id, 0)->0;
            if j < n {
                assert(mid_log.subrange(0, n)[j] == old_log[j]);
                assert(old_log[j].message_id == id);
            } else {
                assert(comes_from(s, short, mid_log[j]));
                let q = choose|q: int|
                    0 <= q < short.len() && storable(s, #[trigger] short[q]) && records(
                        mid_log[j],
                        short[q].message,
                    );
                assert(msgs[q].message.id.name() != id);
            }
        }
        storable_later(s, u, m);
        let fx = received_effects(u, m);
        assert(announces(fx.last(), m));
        assert(all[all.len() - 1] == fx.last());
    }
}

proof fn unbuffering_leaves_others(s: AppStateView, c: Seq<char>)
    ensures
        reads_alike(s, unbuffered(s, c)),
        unbuffered(s, c).message_log == s.message_log,
        waits_in_place(s) ==> waits_in_place(unbuffered(s, c)),
{
    let t = unbuffered(s, c);
    if waits_in_place(s) {
        assert forall|d: Seq<char>, i: int|
            t.pending_rotation_messages.contains_key(d) && 0 <= i
                < t.pending_rotation_messages[d].len() implies (
        #[trigger] t.pending_rotation_messages[d][i]).message.channel_id.name() == d by {
            assert(s.pending_rotation_messages[d][i].message.channel_id.name() == d);
        }
    }
}

/// What draining some channels leaves of a channel.
proof fn draining(s: AppStateView, names: Seq<Seq<char>>, c: Seq<char>)
    requires
        waits_in_place(s),
    ensures
        ({
            let t = drained(s, names);
            let waiting = s.pending_rotation_messages[c];
            let was_waiting = s.pending_rotation_messages.contains_key(c);
            let old_log = s.message_log.entries(c);
            let new_log = t.message_log.entries(c);
            &&& reads_alike(s, t)
            &&& waits_in_place(t)
            &&& !names.contains(c) || !was_waiting ==> new_log == old_log
                && t.pending_rotation_messages.contains_key(c) == was_waiting
            &&& !names.contains(c) && was_waiting ==> t.pending_rotation_messages[c] == waiting
            &&& names.contains(c) && was_waiting ==> {
                &&& !t.pending_rotation_messages.contains_key(c)
                &&& stored_in_order(s, waiting, old_log, new_log)
                &&& forall|i: int|
                    0 <= i < waiting.len() && first_readable_text(s, waiting, i) ==> told(
                        drain_effects(s, names),
                        (#[trigger] waiting[i]).message,
                    )
            }
        }),
    decreases names.len(),
{
    if names.len() > 0 {
        let short = names.drop_last();
        let d = names.last();
        let u = drained(s, short);
        let t = drained(s, names);
        draining(s, short, c);
        draining(s, short, d);
        assert(names.contains(c) <==> short.contains(c) || d == c) by {
            if short.contains(c) {
                assert(names[short.index_of(c)] == c);
            }
            if names.contains(c) && d != c {
                assert(short[names.index_of(c)] == c);
            }
            assert(names[names.len() - 1] == d);
        }
        let head_fx = drain_effects(s, short);
        let all_fx = drain_effects(s, names);
        assert forall|m: RawMessageView| told(head_fx, m) implies #[trigger] told(all_fx, m) by {
            let k = choose|k: int| 0 <= k < head_fx.len() && announces(#[trigger] head_fx[k], m);
            assert(all_fx[k] == head_fx[k]);
        }
        if u.pending_rotation_messages.contains_key(d) {
            let v = unbuffered(u, d);
            let msgs = u.pending_rotation_messages[d];
            assert forall|i: int| 0 <= i < msgs.len() implies (
            #[trigger] msgs[i]).message.channel_id.name() == d by {
                assert(u.pending_rotation_messages[d][i].message.channel_id.name() == d);
            }
            unbuffering_leaves_others(u, d);
            waiting_messages_are_stored_in_order(v, msgs, d);
            assert forall|e: Seq<char>|
                t.pending_rotation_messages.contains_key(e)
                    == v.pending_rotation_messages.contains_key(e)
                    && #[trigger] t.pending_rotation_messages[e] == v.pending_rotation_messages[e] by {
                replaying_leaves_others(v, msgs, d, e);
            }
            assert forall|e: Seq<char>, i: int|
                t.pending_rotation_messages.contains_key(e) && 0 <= i
                    < t.pending_rotation_messages[e].len() implies (
            #[trigger] t.pending_rotation_messages[e][i]).message.channel_id.name() == e by {
                assert(t.pending_rotation_messages[e] == v.pending_rotation_messages[e]);
                assert(v.pending_rotation_messages[e][i].message.channel_id.name() == e);
            }
            assert(t.pending_rotation_messages[c] == v.pending_rotation_messages[c]);
            if c != d {
                replaying_leaves_others(v, msgs, d, c);
            } else {
                assert(!short.contains(c));
                same_storables(s, v, msgs, c);
                assert forall|i: int|
                    0 <= i < msgs.len() && first_readable_text(s, msgs, i) implies told(
                    all_fx,
                    (#[trigger] msgs[i]).message,
                ) by {
                    storable_here(s, v, msgs[i].message);
                    waiting_messages_are_announced(v, msgs, c, i);
                    let r = replay_effects(v, msgs);
                    let k = choose|k: int| 0 <= k < r.len() && announces(
                        #[trigger] r[k],
                        msgs[i].message,
                    );
                    assert(all_fx[head_fx.len() + k] == r[k]);
                }
                let old_log = s.message_log.entries(c);
                let new_log = t.message_log.entries(c);
                let n = old_log.len() as int;
                assert forall|k: int| n <= k < new_log.len() implies comes_from(
                    s,
                    msgs,
                    #[trigger] new_log[k],
                ) by {
                    assert(comes_from(v, msgs, new_log[k]));
                    let i = choose|i: int|
                        0 <= i < msgs.len() && storable(v, #[trigger] msgs[i]) && records(
                            new_log[k],
                            msgs[i].message,
                        );
                    storable_here(s, v, msgs[i].message);
                    assert(storable(s, msgs[i]));
                }
                assert(stored_in_order(s, msgs, old_log, new_log));
            }
        }
    }
}

/// Whether the `i`th of the given messages is a text that can be stored, and the
/// first with its id.
pub open spec fn first_readable_text(
    s: AppStateView,
    msgs: Seq<BufferedMessageView>,
    i: int,
) -> bool {
    &&& verdict(s, msgs[i].message) matches Verdict::Stored(content) && !(content matches Some(
        MessageContentView::Reaction { .. },
    ))
    &&& forall|j: int|
        0 <= j < i ==> (#[trigger] msgs[j]).message.id.name() != msgs[i].message.id.name()
}

/// Whether clients are told of a new message.
pub open spec fn told(fx: Seq<EffectView>, m: RawMessageView) -> bool {
    exists|k: int| 0 <= k < fx.len() && announces(#[trigger] fx[k], m)
}

proof fn storable_here(s: AppStateView, v: AppStateView, m: RawMessageView)
    requires
        reads_alike(s, v),
        v.message_log.entries(m.channel_id.name()) == s.message_log.entries(m.channel_id.name()),
    ensures
        verdict(v, m) is Stored <==> verdict(s, m) is Stored,
        verdict(v, m) is Stored ==> verdict(v, m) == verdict(s, m),
{
    storable_later(s, v, m);
}

proof fn same_storables(
    s: AppStateView,
    v: AppStateView,
    msgs: Seq<BufferedMessageView>,
    c: Seq<char>,
)
    requires
        reads_alike(s, v),
        v.message_log.entries(c) == s.message_log.entries(c),
        all_for(msgs, c),
    ensures
        storable_ids(v, msgs) == storable_ids(s, msgs),
    decreases msgs.len(),
{
    reveal(Seq::filter);
    if msgs.len() > 0 {
        let short = msgs.drop_last();
        assert forall|i: int| 0 <= i < short.len() implies (
        #[trigger] short[i]).message.channel_id.name() == c by {
            assert(msgs[i].message.channel_id.name() == c);
        }
        assert(msgs[msgs.len() - 1].message.channel_id.name() == c);
        same_storables(s, v, short, c);
        storable_here(s, v, msgs.last().message);
        let id = msgs.last().message.id.name();
        if storable(s, msgs.last()) {
            assert(storable_ids(s, msgs) =~= storable_ids(s, short).push(id));
            assert(storable_ids(v, msgs) =~= storable_ids(v, short).push(id));
        } else {
            assert(storable_ids(s, msgs) =~= storable_ids(s, short));
            assert(storable_ids(v, msgs) =~= storable_ids(v, short));
        }
    } else {
        assert(storable_ids(s, msgs) =~= storable_ids(v, msgs));
    }
}

/// What waits stays filed under its own channel, whatever comes in.
pub proof fn messages_wait_in_place(
    s: AppStateView,
    topic: Seq<char>,
    m: RawMessageView,
    manifest: ChannelManifestView,
)
    requires
        waits_in_place(s),
    ensures
        waits_in_place(message_received(s, topic, m)),
        waits_in_place(rotation_applied(s, manifest)),
        rotation_applied(s, manifest).pending_rotation_messages.contains_key(manifest.id.name()),
        forall|c: Seq<char>|
            s.pending_rotation_messages.contains_key(c) ==> #[trigger] rotation_applied(
                s,
                manifest,
            ).pending_rotation_messages.contains_key(c) && rotation_applied(
                s,
                manifest,
            ).pending_rotation_messages[c] == s.pending_rotation_messages[c],
{
    let t = message_received(s, topic, m);
    assert forall|c: Seq<char>, i: int|
        t.pending_rotation_messages.contains_key(c) && 0 <= i
            < t.pending_rotation_messages[c].len() implies (
    #[trigger] t.pending_rotation_messages[c][i]).message.channel_id.name() == c by {
        if i < s.pending_rotation_messages[c].len() {
            assert(s.pending_rotation_messages[c][i].message.channel_id.name() == c);
        }
    }
    let u = rotation_applied(s, manifest);
    assert forall|c: Seq<char>, i: int|
        u.pending_rotation_messages.contains_key(c) && 0 <= i
            < u.pending_rotation_messages[c].len() implies (
    #[trigger] u.pending_rotation_messages[c][i]).message.channel_id.name() == c by {
        assert(s.pending_rotation_messages[c][i].message.channel_id.name() == c);
    }
}

/// Every message that waits for a key is kept in the order of arrival: one that
/// no key opens goes to the end, and those before it stay.
pub proof fn messages_wait_in_order(s: AppStateView, topic: Seq<char>, m: RawMessageView)
    requires
        verdict(s, m) is Unreadable,
        s.pending_rotation_messages.contains_key(m.channel_id.name()),
    ensures
        ({
            let c = m.channel_id.name();
            let t = message_received(s, topic, m);
            let before = s.pending_rotation_messages[c];
            let after = t.pending_rotation_messages[c];
            &&& t.pending_rotation_messages.contains_key(c)
            &&& after.len() == before.len() + 1
            &&& after.last().message == m
            &&& after.last().topic == topic
            &&& forall|i: int| 0 <= i < before.len() ==> #[trigger] after[i] == before[i]
        }),
{
}

/// Taking the keys of some channels: what one channel gets.
proof fn taking_keys(s: AppStateView, list: Seq<ChannelManifestView>, c: Seq<char>)
    ensures
        ({
            let t = keys_taken(s, list);
            &&& t.channels == s.channels
            &&& t.members == s.members
            &&& t.communities == s.communities
            &&& t.message_log == s.message_log
            &&& t.pending_rotation_messages == s.pending_rotation_messages
            &&& t.local == s.local
            &&& (forall|i: int|
                0 <= i < list.len() ==> (#[trigger] list[i]).id.name() != c || delivered_key(
                    s,
                    list[i],
                ) is None) ==> {
                &&& t.channel_keys.contains_key(c) == s.channel_keys.contains_key(c)
                &&& t.channel_keys[c] == s.channel_keys[c]
                &&& t.previous_channel_keys.contains_key(c)
                    == s.previous_channel_keys.contains_key(c)
                &&& t.previous_channel_keys[c] == s.previous_channel_keys[c]
                &&& !rotated(s, list).contains(c)
            }
        }),
    decreases list.len(),
{
    if list.len() > 0 {
        let short = list.drop_last();
        taking_keys(s, short, c);
        if forall|i: int|
            0 <= i < list.len() ==> (#[trigger] list[i]).id.name() != c || delivered_key(
                s,
                list[i],
            ) is None {
            assert forall|i: int| 0 <= i < short.len() implies (#[trigger] short[i]).id.name() != c
                || delivered_key(s, short[i]) is None by {
                assert(list[i].id.name() != c || delivered_key(s, list[i]) is None);
            }
            let n = list.len() - 1;
            assert(list[n].id.name() != c || delivered_key(s, list[n]) is None);
            if rotated(s, list).contains(c) {
                let j = rotated(s, list).index_of(c);
                if j < rotated(s, short).len() {
                    assert(rotated(s, short)[j] == c);
                }
            }
        }
    }
}

/// Whether the `i`th manifest is the only one for its channel.
pub open spec fn only_one(list: Seq<ChannelManifestView>, i: int) -> bool {
    forall|j: int|
        0 <= j < list.len() && j != i ==> (#[trigger] list[j]).id.name() != list[i].id.name()
}

proof fn taking_a_key(s: AppStateView, list: Seq<ChannelManifestView>, i: int, k: Seq<u8>)
    requires
        0 <= i < list.len(),
        only_one(list, i),
        delivered_key(s, list[i]) == Some(k),
    ensures
        ({
            let c = list[i].id.name();
            let t = keys_taken(s, list);
            let changes = s.channel_keys.contains_key(c) && s.channel_keys[c] != k;
            &&& t.channel_keys.contains_key(c)
            &&& t.channel_keys[c] == k
            &&& rotated(s, list).contains(c) == changes
            &&& changes ==> t.previous_channel_keys.contains_key(c)
                && t.previous_channel_keys[c] == s.channel_keys[c]
        }),
    decreases list.len(),
{
    let c = list[i].id.name();
    let short = list.drop_last();
    let n = list.len() - 1;
    if i < n {
        assert(only_one(short, i)) by {
            assert forall|j: int| 0 <= j < short.len() && j != i implies (
            #[trigger] short[j]).id.name() != short[i].id.name() by {
                assert(list[j].id.name() != list[i].id.name());
            }
        }
        taking_a_key(s, short, i, k);
        assert(list[n].id.name() != c);
        let a = rotated(s, short);
        let b = rotated(s, list);
        if a.contains(c) {
            assert(b[a.index_of(c)] == c);
        }
        if b.contains(c) {
            let j = b.index_of(c);
            if j < a.len() {
                assert(a[j] == c);
            }
        }
    } else {
        assert forall|j: int| 0 <= j < short.len() implies (#[trigger] short[j]).id.name() != c
            || delivered_key(s, short[j]) is None by {
            assert(list[j].id.name() != list[i].id.name());
        }
        taking_keys(s, short, c);
        let b = rotated(s, list);
        if s.channel_keys.contains_key(c) && s.channel_keys[c] != k {
            assert(b[b.len() - 1] == c);
        }
    }
}

/// A member takes the key that a manifest response wraps for them: it becomes
/// the key of the channel, and a different one that was in use before is kept for
/// older messages.
pub proof fn served_keys_are_taken(p: ManifestResponseView, s: AppStateView, i: int, k: Seq<u8>)
    requires
        !is_own(s, p.manifest),
        0 <= i < p.channels.len(),
        only_one(p.channels, i),
        delivered_key(s, p.channels[i]) == Some(k),
    ensures
        ({
            let c = p.channels[i].id.name();
            let t = p.keyed(s);
            let changes = s.channel_keys.contains_key(c) && s.channel_keys[c] != k;
            &&& t.channel_keys.contains_key(c)
            &&& t.channel_keys[c] == k
            &&& p.rotated(s).contains(c) == changes
            &&& changes ==> t.previous_channel_keys.contains_key(c)
                && t.previous_channel_keys[c] == s.channel_keys[c]
        }),
{
    let u = p.stored(s);
    taking_a_key(u, p.channels, i, k);
    assert(keyed_channels(u, p.manifest, p.channels) == p.channels);
}

/// Once a manifest response brings the new key of a channel, all that waited
/// there and can be read with it is in the log, in order, and clients are told;
/// nothing waits there any more. The log of a channel without a new key stays as
/// it is.
pub proof fn rotated_channels_are_read(
    p: ManifestResponseView,
    s: AppStateView,
    after: AppStateView,
    now: Timestamp,
    last_seqs: Option<Map<Seq<char>, u64>>,
    fx: Seq<EffectView>,
    c: Seq<char>,
)
    requires
        p.handled(s, after, now, last_seqs, fx),
        p.manifest.valid(),
        key_kept(s, p.manifest),
        !p.manifest.manifest.deleted,
        waits_in_place(s),
    ensures
        ({
            let waiting = s.pending_rotation_messages[c];
            let was_waiting = s.pending_rotation_messages.contains_key(c);
            let old_log = s.message_log.entries(c);
            let new_log = after.message_log.entries(c);
            &&& !p.rotated(s).contains(c) ==> new_log == old_log
            &&& !p.rotated(s).contains(c) && was_waiting
                ==> after.pending_rotation_messages.contains_key(c)
                && after.pending_rotation_messages[c] == waiting
            &&& p.rotated(s).contains(c) && was_waiting ==> {
                &&& !after.pending_rotation_messages.contains_key(c)
                &&& stored_in_order(p.keyed(s), waiting, old_log, new_log)
                &&& forall|i: int|
                    0 <= i < waiting.len() && storable(p.keyed(s), #[trigger] waiting[i])
                        ==> after.message_log.entry(c, waiting[i].message.id.name()) is Some
                &&& forall|i: int|
                    0 <= i < waiting.len() && first_readable_text(p.keyed(s), waiting, i) ==> told(
                        fx,
                        (#[trigger] waiting[i]).message,
                    )
            }
        }),
{
    let list = keyed_channels(p.stored(s), p.manifest, p.channels);
    let k = p.keyed(s);
    taking_keys(p.stored(s), list, c);
    assert(k.pending_rotation_messages == s.pending_rotation_messages);
    assert(waits_in_place(k)) by {
        assert forall|d: Seq<char>, i: int|
            k.pending_rotation_messages.contains_key(d) && 0 <= i
                < k.pending_rotation_messages[d].len() implies (
        #[trigger] k.pending_rotation_messages[d][i]).message.channel_id.name() == d by {
            assert(s.pending_rotation_messages[d][i].message.channel_id.name() == d);
        }
    }
    draining(k, p.rotated(s), c);
    let (order, wraps, own_fx) = choose|
        order: Seq<(Seq<char>, crate::model::membership::MembershipRecordView)>,
        wraps: Seq<Seq<Seq<u8>>>,
        own_fx: Seq<EffectView>,
    |
        #[trigger] p.applied(s, after, now, last_seqs, order, wraps, own_fx, fx);
    let t = p.caught_up(s);
    assert(after.message_log == t.message_log);
    assert(after.pending_rotation_messages == t.pending_rotation_messages);
    let waiting = s.pending_rotation_messages[c];
    let drain = drain_effects(k, p.rotated(s));
    let head = seq![
        EffectView::Save(crate::api::effects::TableFile::Communities),
        EffectView::Save(crate::api::effects::TableFile::Channels),
    ] + crate::api::event_processor::manifest_handler::key_saves(p.rotated(s));
    if p.rotated(s).contains(c) && s.pending_rotation_messages.contains_key(c) {
        assert forall|i: int|
            0 <= i < waiting.len() && first_readable_text(k, waiting, i) implies told(
            fx,
            (#[trigger] waiting[i]).message,
        ) by {
            let j = choose|j: int|
                0 <= j < drain.len() && announces(#[trigger] drain[j], waiting[i].message);
            assert(fx[head.len() + j] == drain[j]);
        }
        let old_log = s.message_log.entries(c);
        let new_log = after.message_log.entries(c);
        let n = old_log.len() as int;
        assert forall|i: int|
            0 <= i < waiting.len() && storable(k, #[trigger] waiting[i]) implies after.message_log.entry(
            c,
            waiting[i].message.id.name(),
        ) is Some by {
            let id = waiting[i].message.id.name();
            let fresh = entry_ids(new_log.subrange(n, new_log.len() as int));
            storable_id_is_listed(k, waiting, i);
            assert(fresh.contains(id));
            let j = fresh.index_of(id);
            assert(new_log[n + j].message_id == id);
            entry_index_found(new_log, id, 0);
        }
    }
}

proof fn storable_id_is_listed(s: AppStateView, msgs: Seq<BufferedMessageView>, i: int)
    requires
        0 <= i < msgs.len(),
        storable(s, msgs[i]),
    ensures
        storable_ids(s, msgs).contains(msgs[i].message.id.name()),
    decreases msgs.len(),
{
    reveal(Seq::filter);
    let short = msgs.drop_last();
    let id = msgs[i].message.id.name();
    let a = storable_ids(s, short);
    let b = storable_ids(s, msgs);
    if storable(s, msgs.last()) {
        assert(b =~= a.push(msgs.last().message.id.name()));
    } else {
        assert(b =~= a);
    }
    if i < short.len() {
        storable_id_is_listed(s, short, i);
        assert(b[a.index_of(id)] == id);
    } else {
        assert(b[b.len() - 1] == id);
    }
}

} // verus!
