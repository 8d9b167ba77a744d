//! What a new seed node of a community receives.

use crate::api::{AppState, AppStateView};
use crate::lists::{vec_deep_view, views, views_push};
use crate::model::channel::{ChannelManifest, ChannelManifestView};
use crate::model::community::SignedManifest;
use crate::model::membership::{MembershipRecord, MembershipRecordView};
use crate::model::types::ChannelId;
use crate::state::message_log::{LogEntry, LogEntryView};
use crate::table::{lists, Table};
use vstd::prelude::*;

verus! {

/// How many entries go to a seed node at once.
pub const HISTORY_BATCH: usize = 500;

/// The history of a channel, cut in batches.
pub struct ChannelHistory {
    pub channel_id: ChannelId,
    pub batches: Vec<Vec<LogEntry>>,
}

/// What a [`ChannelHistory`] holds.
pub struct ChannelHistoryView {
    pub channel_id: ChannelId,
    pub batches: Seq<Seq<LogEntryView>>,
}

impl DeepView for ChannelHistory {
    type V = ChannelHistoryView;

    open spec fn deep_view(&self) -> ChannelHistoryView {
        ChannelHistoryView {
            channel_id: self.channel_id,
            batches: self.batches.deep_view(),
        }
    }
}

/// Everything about a community that goes to a new seed node.
pub struct SeedSync {
    pub manifest: SignedManifest,
    pub channels: Vec<ChannelManifest>,
    /// Always empty: seed nodes never see a channel key.
    pub channel_keys: Table<Vec<u8>>,
    pub members: Vec<MembershipRecord>,
    /// The history of each channel that has one.
    pub history: Vec<ChannelHistory>,
}

/// The channels of a manifest that are at hand, in order.
pub open spec fn manifest_channels(s: AppStateView, ids: Seq<ChannelId>) -> Seq<ChannelManifestView>
    decreases ids.len(),
{
    if ids.len() == 0 {
        Seq::empty()
    } else {
        let head = manifest_channels(s, ids.drop_last());
        let c = ids.last().name();
        if s.channels.contains_key(c) {
            head.push(s.channels[c])
        } else {
            head
        }
    }
}

/// A list cut in batches of `n`; only the last may be shorter.
pub open spec fn batches<A>(items: Seq<A>, n: nat) -> Seq<Seq<A>>
    decreases items.len(),
{
    if n == 0 || items.len() == 0 {
        Seq::empty()
    } else if items.len() <= n {
        seq![items]
    } else {
        seq![items.subrange(0, n as int)] + batches(items.subrange(n as int, items.len() as int), n)
    }
}

/// The histories of the given channels, without the empty ones.
pub open spec fn histories(s: AppStateView, channels: Seq<ChannelManifestView>) -> Seq<
    ChannelHistoryView,
>
    decreases channels.len(),
{
    if channels.len() == 0 {
        Seq::empty()
    } else {
        let head = histories(s, channels.drop_last());
        let id = channels.last().id;
        let entries = s.message_log.entries(id.name());
        if entries.len() == 0 {
            head
        } else {
            head.push(
                ChannelHistoryView {
                    channel_id: id,
                    batches: batches(entries, HISTORY_BATCH as nat),
                },
            )
        }
    }
}

/// The records of a listing.
pub open spec fn records(order: Seq<(Seq<char>, MembershipRecordView)>) -> Seq<MembershipRecordView> {
    Seq::new(order.len(), |i: int| order[i].1)
}

/// Cut a list of entries in batches.
fn cut(entries: &Vec<LogEntry>) -> (r: Vec<Vec<LogEntry>>)
    ensures
        r.deep_view() == batches(entries.deep_view(), HISTORY_BATCH as nat),
{
    broadcast use vec_deep_view, views_push;

    let ghost all = views(entries@);
    let n: usize = entries.len();
    let mut out: Vec<Vec<LogEntry>> = Vec::new();
    let mut i: usize = 0;
    assert(all.subrange(0, all.len() as int) =~= all);
    assert(out.deep_view() + batches(all, 500) =~= batches(all, 500));
    while i < n
        invariant
            i <= n,
            n == entries@.len(),
            all == views(entries@),
            out.deep_view() + batches(all.subrange(i as int, n as int), 500) == batches(all, 500),
        decreases n - i,
    {
        let ghost rest = all.subrange(i as int, n as int);
        let ghost before = out.deep_view();
        let end: usize = if n - i > 500 {
            i + 500
        } else {
            n
        };
        let mut batch: Vec<LogEntry> = Vec::new();
        let mut j: usize = i;
        while j < end
            invariant
                i <= j <= end,
                end <= n,
                n == entries@.len(),
                all == views(entries@),
                views(batch@) == all.subrange(i as int, j as int),
            decreases end - j,
        {
            batch.push(entries[j].clone());
            j += 1;
            assert(all.subrange(i as int, j as int) =~= all.subrange(i as int, j - 1).push(
                all[j - 1],
            ));
        }
        out.push(batch);
        proof {
            let now = all.subrange(end as int, n as int);
            let piece = all.subrange(i as int, end as int);
            assert(batch.deep_view() == piece);
            assert(out.deep_view() =~= before.push(piece));
            if n - i > 500 {
                assert(rest.subrange(0, 500) =~= piece);
                assert(rest.subrange(500, rest.len() as int) =~= now);
            } else {
                assert(piece =~= rest);
                assert(now =~= Seq::<LogEntryView>::empty());
            }
            assert(out.deep_view() + batches(now, 500) =~= before + batches(rest, 500));
        }
        i = end;
    }
    assert(all.subrange(n as int, n as int) =~= Seq::<LogEntryView>::empty());
    assert(out.deep_view() + batches(all.subrange(n as int, n as int), 500) =~= out.deep_view());
    out
}

impl AppState {
    /// The channels of a manifest that are at hand, in order.
    fn channels_in(&self, ids: &Vec<ChannelId>) -> (r: Vec<ChannelManifest>)
        ensures
            r.deep_view() == manifest_channels(self.deep_view(), ids@),
    {
        broadcast use vec_deep_view, views_push;

        let ghost s = self.deep_view();
        let mut out: Vec<ChannelManifest> = Vec::new();
        let mut i: usize = 0;
        assert(views(out@) =~= manifest_channels(s, ids@.subrange(0, 0)));
        while i < ids.len()
            invariant
                i <= ids@.len(),
                s == self.deep_view(),
                views(out@) == manifest_channels(s, ids@.subrange(0, i as int)),
            decreases ids@.len() - i,
        {
            assert(ids@.subrange(0, i + 1).drop_last() =~= ids@.subrange(0, i as int));
            if let Some(ch) = self.channels.get(ids[i].to_string().as_str()) {
                out.push(ch.clone());
            }
            i += 1;
        }
        assert(ids@.subrange(0, ids@.len() as int) =~= ids@);
        out
    }

    /// The histories of the given channels, without the empty ones.
    fn histories_of(&self, channels: &Vec<ChannelManifest>) -> (r: Vec<ChannelHistory>)
        ensures
            r.deep_view() == histories(self.deep_view(), channels.deep_view()),
    {
        broadcast use vec_deep_view, views_push;

        let ghost s = self.deep_view();
        let ghost all = views(channels@);
        let mut out: Vec<ChannelHistory> = Vec::new();
        let mut i: usize = 0;
        assert(views(out@) =~= histories(s, all.subrange(0, 0)));
        while i < channels.len()
            invariant
                i <= channels@.len(),
                all == views(channels@),
                s == self.deep_view(),
                views(out@) == histories(s, all.subrange(0, i as int)),
            decreases channels@.len() - i,
        {
            assert(all.subrange(0, i + 1).drop_last() =~= all.subrange(0, i as int));
            let id = channels[i].id;
            let entries = self.message_log.get_since(id.to_string().as_str(), 0);
            proof {
                let log = s.message_log.entries(id.name());
                assert(entries.deep_view() =~= log);
            }
            if entries.len() > 0 {
                out.push(ChannelHistory { channel_id: id, batches: cut(&entries) });
            }
            i += 1;
        }
        assert(all.subrange(0, all.len() as int) =~= all);
        out
    }

    /// Gather what a new seed node gets of a community: the manifest, its
    /// channels, the members and the complete history. No channel key goes along:
    /// a seed node relays what it cannot read, and members find their keys
    /// wrapped in the channels.
    pub fn seed_sync(&self, community_id: &str) -> (r: Option<SeedSync>)
        ensures
            ({
                let s = self.deep_view();
                match r {
                    None => !s.communities.contains_key(community_id@),
                    Some(p) => {
                        let m = s.communities[community_id@];
                        let channels = manifest_channels(s, m.manifest.channel_ids);
                        &&& s.communities.contains_key(community_id@)
                        &&& p.manifest.deep_view() == m
                        &&& p.channels.deep_view() == channels
                        &&& p.channel_keys.deep_view() == Map::<Seq<char>, Seq<u8>>::empty()
                        &&& exists|order: Seq<(Seq<char>, MembershipRecordView)>|
                            lists(order, s.member_list(community_id@)) && p.members.deep_view()
                                == #[trigger] records(order)
                        &&& p.history.deep_view() == histories(s, channels)
                    },
                }
            }),
    {
        broadcast use vec_deep_view, views_push;

        let signed = match self.communities.get(community_id) {
            Some(m) => m,
            None => {
                return None;
            },
        };
        let channels = self.channels_in(&signed.manifest.channel_ids);
        let channel_keys: Table<Vec<u8>> = Table::new();
        assert(channel_keys.deep_view() =~= Map::<Seq<char>, Seq<u8>>::empty());
        let history = self.histories_of(&channels);
        let none: Table<MembershipRecord> = Table::new();
        let people: &Table<MembershipRecord> = match self.members.get(community_id) {
            Some(l) => l,
            None => &none,
        };
        assert(people.deep_view() =~= self.deep_view().member_list(community_id@));
        let n: usize = people.len();
        let ghost order = people.order();
        let mut members: Vec<MembershipRecord> = Vec::new();
        let mut i: usize = 0;
        while i < n
            invariant
                i <= n,
                n == order.len(),
                order == people.order(),
                views(members@) == records(order).subrange(0, i as int),
            decreases n - i,
        {
            members.push(people.value_at(i).clone());
            i += 1;
            assert(records(order).subrange(0, i as int) =~= records(order).subrange(
                0,
                i - 1,
            ).push(order[i - 1].1));
        }
        assert(views(members@) =~= records(order));
        assert(lists(order, self.deep_view().member_list(community_id@)));
        Some(SeedSync { manifest: signed.clone(), channels, channel_keys, members, history })
    }
}

/// The items of a list of batches, in order.
pub open spec fn joined<A>(list: Seq<Seq<A>>) -> Seq<A>
    decreases list.len(),
{
    if list.len() == 0 {
        Seq::empty()
    } else {
        list[0] + joined(list.subrange(1, list.len() as int))
    }
}

/// Batches are never empty, never longer than allowed, and put together again
/// they are the whole list.
pub proof fn batches_lose_nothing<A>(items: Seq<A>, n: nat)
    requires
        n > 0,
    ensures
        joined(batches(items, n)) == items,
        forall|i: int|
            0 <= i < batches(items, n).len() ==> 0 < (#[trigger] batches(items, n)[i]).len() <= n,
    decreases items.len(),
{
    let b = batches(items, n);
    if items.len() == 0 {
        assert(joined(b) =~= items);
    } else if items.len() <= n {
        assert(b.subrange(1, 1) =~= Seq::<Seq<A>>::empty());
        assert(joined(b.subrange(1, 1)) =~= Seq::<A>::empty());
        assert(joined(b) =~= items);
    } else {
        let rest = items.subrange(n as int, items.len() as int);
        batches_lose_nothing(rest, n);
        assert(b.subrange(1, b.len() as int) =~= batches(rest, n));
        assert(joined(b) =~= items);
        assert forall|i: int| 0 <= i < b.len() implies 0 < (#[trigger] b[i]).len() <= n by {
            if i > 0 {
                assert(b[i] == batches(rest, n)[i - 1]);
            }
        }
    }
}

} // verus!
