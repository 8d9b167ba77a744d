//! The in-memory message log.
//!
//! Each channel has a list of encrypted entries in arrival order. Reactions
//! are kept beside it, per message.

use crate::api::types::{copy_reactions, ReactionInfo, ReactionInfoView};
use crate::bytes::to_vec;
use crate::lists::{add_text, remove_text, vec_deep_view, views, views_push, with_text, without_text};
use crate::table::Table;
use crate::text::{same_text, text};
use vstd::prelude::*;

verus! {

/// One encrypted entry of a channel.
#[derive(Debug)]
pub struct LogEntry {
    pub seq: u64,
    pub nonce: [u8; 24],
    pub ciphertext: Vec<u8>,
    pub message_id: String,
    pub author_id: String,
    pub timestamp_ms: i64,
    pub deleted: bool,
}

/// What a [`LogEntry`] holds.
pub struct LogEntryView {
    pub seq: u64,
    pub nonce: Seq<u8>,
    pub ciphertext: Seq<u8>,
    pub message_id: Seq<char>,
    pub author_id: Seq<char>,
    pub timestamp_ms: i64,
    pub deleted: bool,
}

impl DeepView for LogEntry {
    type V = LogEntryView;

    open spec fn deep_view(&self) -> LogEntryView {
        LogEntryView {
            seq: self.seq,
            nonce: self.nonce@,
            ciphertext: self.ciphertext@,
            message_id: self.message_id@,
            author_id: self.author_id@,
            timestamp_ms: self.timestamp_ms,
            deleted: self.deleted,
        }
    }
}

impl Clone for LogEntry {
    fn clone(&self) -> (r: Self)
        ensures
            r.deep_view() == self.deep_view(),
    {
        LogEntry {
            seq: self.seq,
            nonce: self.nonce,
            ciphertext: to_vec(self.ciphertext.as_slice()),
            message_id: self.message_id.clone(),
            author_id: self.author_id.clone(),
            timestamp_ms: self.timestamp_ms,
            deleted: self.deleted,
        }
    }
}

/// Where the entry with id `id` first stands in `log`, from `from` on.
pub open spec fn entry_index(log: Seq<LogEntryView>, id: Seq<char>, from: int) -> Option<int>
    decreases log.len() - from,
{
    if from < 0 || from >= log.len() {
        None
    } else if log[from].message_id == id {
        Some(from)
    } else {
        entry_index(log, id, from + 1)
    }
}

/// The entry with id `id`: the first one.
pub open spec fn entry_of(log: Seq<LogEntryView>, id: Seq<char>) -> Option<LogEntryView> {
    match entry_index(log, id, 0) {
        Some(i) => Some(log[i]),
        None => None,
    }
}

/// An index that is found is in range and holds the id.
pub proof fn entry_index_found(log: Seq<LogEntryView>, id: Seq<char>, from: int)
    requires
        0 <= from,
    ensures
        match entry_index(log, id, from) {
            Some(i) => from <= i < log.len() && log[i].message_id == id,
            None => forall|j: int| from <= j < log.len() ==> log[j].message_id != id,
        },
    decreases log.len() - from,
{
    if from < log.len() && log[from].message_id != id {
        entry_index_found(log, id, from + 1);
    }
}

/// The reactions of a message after `user` reacts with `emoji`.
pub open spec fn reacted(
    list: Seq<ReactionInfoView>,
    emoji: Seq<char>,
    user: Seq<char>,
) -> Seq<ReactionInfoView>
    decreases list.len(),
{
    if list.len() == 0 {
        seq![ReactionInfoView { emoji, user_ids: seq![user] }]
    } else if list[0].emoji == emoji {
        list.update(
            0,
            ReactionInfoView { emoji, user_ids: with_text(list[0].user_ids, user) },
        )
    } else {
        seq![list[0]] + reacted(list.subrange(1, list.len() as int), emoji, user)
    }
}

/// The reactions of a message after `user` takes back `emoji`. An emoji that
/// nobody uses any more is dropped.
pub open spec fn unreacted(
    list: Seq<ReactionInfoView>,
    emoji: Seq<char>,
    user: Seq<char>,
) -> Seq<ReactionInfoView>
    decreases list.len(),
{
    if list.len() == 0 {
        list
    } else if list[0].emoji == emoji {
        let left = without_text(list[0].user_ids, user);
        let rest = list.subrange(1, list.len() as int);
        if left.len() == 0 {
            rest
        } else {
            seq![ReactionInfoView { emoji, user_ids: left }] + rest
        }
    } else {
        seq![list[0]] + unreacted(list.subrange(1, list.len() as int), emoji, user)
    }
}

/// What a [`MessageLog`] holds.
pub struct MessageLogView {
    /// The entries of each channel, in arrival order.
    pub channels: Map<Seq<char>, Seq<LogEntryView>>,
    /// The reactions of each message.
    pub reactions: Map<Seq<char>, Seq<ReactionInfoView>>,
}

impl MessageLogView {
    /// The entries of a channel; none for a channel without a log.
    pub open spec fn entries(self, channel: Seq<char>) -> Seq<LogEntryView> {
        if self.channels.contains_key(channel) {
            self.channels[channel]
        } else {
            Seq::empty()
        }
    }

    /// The entry of a channel with the given id.
    pub open spec fn entry(self, channel: Seq<char>, id: Seq<char>) -> Option<LogEntryView> {
        entry_of(self.entries(channel), id)
    }

    /// The reactions of a message; none for a message without any.
    pub open spec fn reactions_of(self, id: Seq<char>) -> Seq<ReactionInfoView> {
        if self.reactions.contains_key(id) {
            self.reactions[id]
        } else {
            Seq::empty()
        }
    }

    /// The log with an entry added at the end of a channel.
    pub open spec fn appended(self, channel: Seq<char>, e: LogEntryView) -> MessageLogView {
        MessageLogView {
            channels: self.channels.insert(channel, self.entries(channel).push(e)),
            ..self
        }
    }

    /// The log after `user` adds or takes back a reaction to message `id`.
    pub open spec fn with_reaction(
        self,
        id: Seq<char>,
        emoji: Seq<char>,
        user: Seq<char>,
        is_add: bool,
    ) -> MessageLogView {
        let before = self.reactions_of(id);
        let after = if is_add {
            reacted(before, emoji, user)
        } else {
            unreacted(before, emoji, user)
        };
        MessageLogView { reactions: self.reactions.insert(id, after), ..self }
    }

    /// The log with one entry of a channel replaced.
    pub open spec fn replaced(self, channel: Seq<char>, i: int, e: LogEntryView) -> MessageLogView {
        MessageLogView {
            channels: self.channels.insert(channel, self.entries(channel).update(i, e)),
            ..self
        }
    }

    /// The log after message `id` of a channel gets a new ciphertext, if the
    /// channel has such a message.
    pub open spec fn edited(
        self,
        channel: Seq<char>,
        id: Seq<char>,
        nonce: Seq<u8>,
        ciphertext: Seq<u8>,
    ) -> MessageLogView {
        match entry_index(self.entries(channel), id, 0) {
            Some(i) => self.replaced(
                channel,
                i,
                LogEntryView { nonce, ciphertext, ..self.entries(channel)[i] },
            ),
            None => self,
        }
    }

    /// The log after message `id` of a channel is marked deleted, if the
    /// channel has such a message.
    pub open spec fn tombstoned(self, channel: Seq<char>, id: Seq<char>) -> MessageLogView {
        match entry_index(self.entries(channel), id, 0) {
            Some(i) => self.replaced(
                channel,
                i,
                LogEntryView { deleted: true, ..self.entries(channel)[i] },
            ),
            None => self,
        }
    }
}

/// Per-channel encrypted entries and per-message reactions.
pub struct MessageLog {
    channels: Table<Vec<LogEntry>>,
    reactions: Table<Vec<ReactionInfo>>,
}

impl DeepView for MessageLog {
    type V = MessageLogView;

    closed spec fn deep_view(&self) -> MessageLogView {
        MessageLogView {
            channels: self.channels.deep_view(),
            reactions: self.reactions.deep_view(),
        }
    }
}

/// Where the entry with id `id` stands.
fn find_entry(log: &Vec<LogEntry>, id: &str) -> (r: Option<usize>)
    ensures
        match r {
            Some(i) => i < log@.len() && entry_index(log.deep_view(), id@, 0) == Some(i as int),
            None => entry_index(log.deep_view(), id@, 0) is None,
        },
{
    let mut i: usize = 0;
    while i < log.len()
        invariant
            i <= log@.len(),
            entry_index(log.deep_view(), id@, 0) == entry_index(log.deep_view(), id@, i as int),
        decreases log@.len() - i,
    {
        if same_text(log[i].message_id.as_str(), id) {
            return Some(i);
        }
        i += 1;
    }
    None
}

impl MessageLog {
    /// An empty log.
    pub fn new() -> (r: MessageLog)
        ensures
            r.deep_view().channels == Map::<Seq<char>, Seq<LogEntryView>>::empty(),
            r.deep_view().reactions == Map::<Seq<char>, Seq<ReactionInfoView>>::empty(),
    {
        MessageLog { channels: Table::new(), reactions: Table::new() }
    }

    /// The number of entries of a channel.
    pub fn len(&self, channel: &str) -> (r: u64)
        ensures
            r == self.deep_view().entries(channel@).len(),
    {
        match self.channels.get(channel) {
            Some(v) => v.len() as u64,
            None => 0,
        }
    }

    /// The entry of a channel with the given id.
    pub fn get_entry(&self, channel: &str, id: &str) -> (r: Option<&LogEntry>)
        ensures
            match r {
                Some(e) => self.deep_view().entry(channel@, id@) == Some(e.deep_view()),
                None => self.deep_view().entry(channel@, id@) is None,
            },
    {
        match self.channels.get(channel) {
            Some(v) => match find_entry(v, id) {
                Some(i) => Some(&v[i]),
                None => None,
            },
            None => None,
        }
    }

    /// Whether a channel has an entry with the given id.
    pub fn has_entry(&self, channel: &str, id: &str) -> (r: bool)
        ensures
            r == self.deep_view().entry(channel@, id@) is Some,
    {
        self.get_entry(channel, id).is_some()
    }

    /// The entries of a channel from position `since` on.
    pub fn get_since(&self, channel: &str, since: u64) -> (r: Vec<LogEntry>)
        ensures
            r.deep_view() == entries_since(self.deep_view().entries(channel@), since as int),
    {
        broadcast use vec_deep_view, views_push;

        let mut out: Vec<LogEntry> = Vec::new();
        if let Some(v) = self.channels.get(channel) {
            let n: usize = v.len();
            if since < n as u64 {
                let start: usize = since as usize;
                let mut i: usize = start;
                while i < n
                    invariant
                        start <= i <= n,
                        n == v@.len(),
                        views(out@) == views(v@).subrange(start as int, i as int),
                    decreases n - i,
                {
                    out.push(v[i].clone());
                    i += 1;
                    assert(views(v@).subrange(start as int, i as int) =~= views(v@).subrange(
                        start as int,
                        i - 1,
                    ).push(v@[i - 1].deep_view()));
                }
            }
        }
        assert(views(out@) =~= entries_since(self.deep_view().entries(channel@), since as int));
        out
    }

    /// Add an entry at the end of a channel.
    pub fn append_entry(&mut self, channel: &str, entry: LogEntry)
        ensures
            final(self).deep_view() == old(self).deep_view().appended(channel@, entry.deep_view()),
    {
        broadcast use vec_deep_view, views_push;

        let mut list: Vec<LogEntry> = match self.channels.remove(channel) {
            Some(v) => v,
            None => Vec::new(),
        };
        assert(views(list@) =~= old(self).deep_view().entries(channel@));
        list.push(entry);
        self.channels.insert(channel, list);
        assert(self.deep_view().channels =~= old(self).deep_view().appended(
            channel@,
            entry.deep_view(),
        ).channels);
    }

    /// Add a new entry at the end of a channel; its sequence number is the
    /// number of entries before it.
    pub fn append(
        &mut self,
        channel: &str,
        message_id: String,
        author_id: String,
        timestamp_ms: i64,
        nonce: [u8; 24],
        ciphertext: Vec<u8>,
    )
        ensures
            final(self).deep_view() == old(self).deep_view().appended(
                channel@,
                LogEntryView {
                    seq: old(self).deep_view().entries(channel@).len() as u64,
                    nonce: nonce@,
                    ciphertext: ciphertext@,
                    message_id: message_id@,
                    author_id: author_id@,
                    timestamp_ms,
                    deleted: false,
                },
            ),
    {
        let seq: u64 = self.len(channel);
        self.append_entry(
            channel,
            LogEntry { seq, nonce, ciphertext, message_id, author_id, timestamp_ms, deleted: false },
        );
    }

    /// Give the message a new ciphertext. False when there is no such message.
    pub fn edit(&mut self, channel: &str, id: &str, nonce: [u8; 24], ciphertext: Vec<u8>) -> (r:
        bool)
        ensures
            r == old(self).deep_view().entry(channel@, id@) is Some,
            final(self).deep_view() == old(self).deep_view().edited(
                channel@,
                id@,
                nonce@,
                ciphertext@,
            ),
    {
        let i: usize = match self.channels.get(channel) {
            Some(v) => match find_entry(v, id) {
                Some(i) => i,
                None => {
                    return false;
                },
            },
            None => {
                return false;
            },
        };
        if let Some(v) = self.channels.remove(channel) {
            let mut list = v;
            let old_entry = &list[i];
            let entry = LogEntry {
                seq: old_entry.seq,
                nonce,
                ciphertext,
                message_id: old_entry.message_id.clone(),
                author_id: old_entry.author_id.clone(),
                timestamp_ms: old_entry.timestamp_ms,
                deleted: old_entry.deleted,
            };
            let ghost before = list.deep_view();
            let ghost e = entry.deep_view();
            list.set(i, entry);
            assert(list.deep_view() =~= before.update(i as int, e));
            self.channels.insert(channel, list);
        }
        assert(self.deep_view().channels =~= old(self).deep_view().edited(
            channel@,
            id@,
            nonce@,
            ciphertext@,
        ).channels);
        true
    }

    /// Mark the message deleted. False when there is no such message.
    pub fn tombstone(&mut self, channel: &str, id: &str) -> (r: bool)
        ensures
            r == old(self).deep_view().entry(channel@, id@) is Some,
            final(self).deep_view() == old(self).deep_view().tombstoned(channel@, id@),
    {
        let i: usize = match self.channels.get(channel) {
            Some(v) => match find_entry(v, id) {
                Some(i) => i,
                None => {
                    return false;
                },
            },
            None => {
                return false;
            },
        };
        if let Some(v) = self.channels.remove(channel) {
            let mut list = v;
            let mut entry = list[i].clone();
            entry.deleted = true;
            let ghost before = list.deep_view();
            let ghost e = entry.deep_view();
            list.set(i, entry);
            assert(list.deep_view() =~= before.update(i as int, e));
            self.channels.insert(channel, list);
        }
        assert(self.deep_view().channels =~= old(self).deep_view().tombstoned(
            channel@,
            id@,
        ).channels);
        true
    }

    /// The reactions of a message.
    pub fn get_reactions(&self, id: &str) -> (r: Vec<ReactionInfo>)
        ensures
            r.deep_view() == self.deep_view().reactions_of(id@),
    {
        match self.reactions.get(id) {
            Some(v) => copy_reactions(v),
            None => {
                let r: Vec<ReactionInfo> = Vec::new();
                assert(r.deep_view() =~= Seq::<ReactionInfoView>::empty());
                r
            },
        }
    }

    /// Add `user` to those who reacted to the message with `emoji`.
    pub fn react(&mut self, id: &str, emoji: &str, user: &str)
        ensures
            final(self).deep_view() == old(self).deep_view().with_reaction(
                id@,
                emoji@,
                user@,
                true,
            ),
    {
        let mut list = self.get_reactions(id);
        add_reaction(&mut list, emoji, user);
        self.reactions.insert(id, list);
        assert(self.deep_view().channels =~= old(self).deep_view().channels);
    }

    /// Remove `user` from those who reacted to the message with `emoji`.
    pub fn unreact(&mut self, id: &str, emoji: &str, user: &str)
        ensures
            final(self).deep_view() == old(self).deep_view().with_reaction(
                id@,
                emoji@,
                user@,
                false,
            ),
    {
        let mut list = self.get_reactions(id);
        drop_reaction(&mut list, emoji, user);
        self.reactions.insert(id, list);
        assert(self.deep_view().channels =~= old(self).deep_view().channels);
    }
}

/// The entries from position `since` on.
pub open spec fn entries_since(log: Seq<LogEntryView>, since: int) -> Seq<LogEntryView> {
    if 0 <= since < log.len() {
        log.subrange(since, log.len() as int)
    } else {
        Seq::empty()
    }
}

/// The first `i` items of `list`, which do not match, stay in front.
proof fn reaction_step(list: Seq<ReactionInfoView>, emoji: Seq<char>, user: Seq<char>, i: int)
    requires
        0 <= i <= list.len(),
        forall|j: int| 0 <= j < i ==> list[j].emoji != emoji,
    ensures
        reacted(list, emoji, user) == list.subrange(0, i) + reacted(
            list.subrange(i, list.len() as int),
            emoji,
            user,
        ),
        unreacted(list, emoji, user) == list.subrange(0, i) + unreacted(
            list.subrange(i, list.len() as int),
            emoji,
            user,
        ),
    decreases i,
{
    if i == 0 {
        assert(list.subrange(0, list.len() as int) =~= list);
        assert(list.subrange(0, 0) + reacted(list, emoji, user) =~= reacted(list, emoji, user));
        assert(list.subrange(0, 0) + unreacted(list, emoji, user) =~= unreacted(list, emoji, user));
    } else {
        let n = list.len() as int;
        reaction_step(list, emoji, user, i - 1);
        let tail = list.subrange(i - 1, n);
        assert(tail[0] == list[i - 1]);
        assert(tail.subrange(1, tail.len() as int) =~= list.subrange(i, n));
        assert(list.subrange(0, i) =~= list.subrange(0, i - 1) + seq![list[i - 1]]);
        let a = reacted(list.subrange(i, n), emoji, user);
        let b = unreacted(list.subrange(i, n), emoji, user);
        assert(list.subrange(0, i) + a =~= list.subrange(0, i - 1) + (seq![list[i - 1]] + a));
        assert(list.subrange(0, i) + b =~= list.subrange(0, i - 1) + (seq![list[i - 1]] + b));
    }
}

/// Where an emoji stands in a list of reactions.
fn find_emoji(list: &Vec<ReactionInfo>, emoji: &str) -> (r: usize)
    ensures
        r <= list@.len(),
        forall|j: int| 0 <= j < r ==> list.deep_view()[j].emoji != emoji@,
        r < list@.len() ==> list.deep_view()[r as int].emoji == emoji@,
{
    let mut i: usize = 0;
    while i < list.len()
        invariant
            i <= list@.len(),
            forall|j: int| 0 <= j < i ==> list.deep_view()[j].emoji != emoji@,
        decreases list@.len() - i,
    {
        if same_text(list[i].emoji.as_str(), emoji) {
            return i;
        }
        i += 1;
    }
    i
}

fn add_reaction(list: &mut Vec<ReactionInfo>, emoji: &str, user: &str)
    ensures
        final(list).deep_view() == reacted(old(list).deep_view(), emoji@, user@),
{
    let ghost before = list.deep_view();
    let i: usize = find_emoji(list, emoji);
    let n: usize = list.len();
    proof {
        reaction_step(before, emoji@, user@, i as int);
    }
    let ghost tail = before.subrange(i as int, n as int);
    if i < n {
        let mut item = list[i].clone();
        add_text(&mut item.user_ids, user);
        let ghost v = item.deep_view();
        list.set(i, item);
        assert(tail[0] == before[i as int]);
        assert(list.deep_view() =~= before.subrange(0, i as int) + tail.update(0, v));
    } else {
        let mut users: Vec<String> = Vec::new();
        users.push(text(user));
        assert(users.deep_view() =~= seq![user@]);
        list.push(ReactionInfo { emoji: text(emoji), user_ids: users });
        assert(list.deep_view() =~= before.subrange(0, i as int) + seq![
            ReactionInfoView { emoji: emoji@, user_ids: seq![user@] },
        ]);
    }
}

fn drop_reaction(list: &mut Vec<ReactionInfo>, emoji: &str, user: &str)
    ensures
        final(list).deep_view() == unreacted(old(list).deep_view(), emoji@, user@),
{
    let ghost before = list.deep_view();
    let i: usize = find_emoji(list, emoji);
    let n: usize = list.len();
    proof {
        reaction_step(before, emoji@, user@, i as int);
    }
    let ghost tail = before.subrange(i as int, n as int);
    if i < n {
        let mut item = list[i].clone();
        remove_text(&mut item.user_ids, user);
        let ghost v = item.deep_view();
        assert(tail[0] == before[i as int]);
        let ghost rest = tail.subrange(1, tail.len() as int);
        if item.user_ids.len() == 0 {
            list.remove(i);
            assert(list.deep_view() =~= before.subrange(0, i as int) + rest);
        } else {
            list.set(i, item);
            assert(list.deep_view() =~= before.subrange(0, i as int) + (seq![v] + rest));
        }
    } else {
        assert(before.subrange(0, i as int) + tail =~= before);
    }
}

} // verus!
