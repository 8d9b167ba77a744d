//! Direct messages: sending, receiving, paging back, discarding.

use crate::api::effects::EffectView;
use crate::api::event_processor::dm_handler::{
    dm_received, dm_received_effects, has_dm, incoming_dm,
};
use crate::api::rpc_server::dm::{
    carries, chosen_key, conversation, dm_index_skip, dm_page, dm_sent, is_local_key,
    mailbox_choice, member_has_key, peers_remembered, without_dm, DhtPeerView,
};
use crate::api::rpc_server::message::history_limit;
use crate::api::rpc_server::RpcError;
use crate::api::types::{DmMessageInfo, DmMessageInfoView, SendDmParams};
use crate::api::{not_a_member, AppStateView};
use crate::crypto::dm::DmEnvelope;
use crate::crypto::primitives::{encryptable, x25519_public_key};
use crate::identity::x25519_secret_of;
use crate::model::types::MessageId;
use crate::network::network_handle::types::NetworkCommandView;
use crate::network::node_addr::NodeAddr;
use crate::state::message_log::LogEntryView;
use crate::time::Timestamp;
use crate::wire::dm_payload_encoding;
use vstd::prelude::*;

verus! {

/// Where a page that ends before position `end` begins.
pub open spec fn page_start(end: int, limit: nat) -> int {
    if end > limit {
        end - limit
    } else {
        0
    }
}

/// Whether the message with the given id first stands at `k`.
pub open spec fn stands_first(
    list: Seq<DmMessageInfoView>,
    id: Option<Seq<char>>,
    k: int,
) -> bool {
    &&& id is Some
    &&& 0 <= k < list.len()
    &&& list[k].id == id->0
    &&& forall|j: int| 0 <= j < k ==> (#[trigger] list[j]).id != id->0
}

proof fn index_of_first(list: Seq<DmMessageInfoView>, id: Seq<char>, k: int)
    requires
        0 <= k < list.len(),
        list[k].id == id,
        forall|j: int| 0 <= j < k ==> (#[trigger] list[j]).id != id,
    ensures
        crate::api::rpc_server::dm::dm_index(list, id) == k,
{
    dm_index_skip(list, id, k);
    let tail = list.subrange(k, list.len() as int);
    assert(tail[0] == list[k]);
}

/// A page that is asked for before a message holds exactly the messages just
/// before it, as many as the limit allows: it ends where that message stands.
pub proof fn pages_end_before_the_message(
    list: Seq<DmMessageInfoView>,
    id: Seq<char>,
    limit: nat,
    k: int,
)
    requires
        0 <= k < list.len(),
        list[k].id == id,
        forall|j: int| 0 <= j < k ==> (#[trigger] list[j]).id != id,
    ensures
        dm_page(list, Some(id), limit) == list.subrange(page_start(k, limit), k),
{
    index_of_first(list, id, k);
    assert(list.subrange(0, k).subrange(page_start(k, limit), k) =~= list.subrange(
        page_start(k, limit),
        k,
    ));
    assert(list.subrange(0, k) =~= list.subrange(0, k).subrange(0, k));
}

/// Without such a message, a page holds the newest messages.
pub proof fn other_pages_hold_the_newest(
    list: Seq<DmMessageInfoView>,
    before: Option<Seq<char>>,
    limit: nat,
)
    requires
        before matches Some(id) ==> forall|j: int|
            0 <= j < list.len() ==> (#[trigger] list[j]).id != id,
    ensures
        dm_page(list, before, limit) == list.subrange(
            page_start(list.len() as int, limit),
            list.len() as int,
        ),
{
    let n = list.len() as int;
    if let Some(id) = before {
        dm_index_skip(list, id, n);
        assert(list.subrange(n, n).len() == 0);
        assert(list.subrange(0, n) =~= list);
    }
    assert(list.subrange(0, n) =~= list);
}

/// Whether no two messages have the same id.
pub open spec fn ids_differ(list: Seq<DmMessageInfoView>) -> bool {
    forall|i: int, j: int|
        0 <= i < j < list.len() ==> (#[trigger] list[i]).id != (#[trigger] list[j]).id
}

/// Scrolling up reaches every message: the page before the first message of a
/// page adjoins it, without a gap and without a repeat.
pub proof fn pages_adjoin(list: Seq<DmMessageInfoView>, k: int, limit: nat)
    requires
        ids_differ(list),
        0 < k <= list.len(),
        limit > 0,
    ensures
        ({
            let page = list.subrange(page_start(k, limit), k);
            let next = dm_page(list, Some(page[0].id), limit);
            let start = page_start(page_start(k, limit), limit);
            &&& page.len() > 0
            &&& next + page == list.subrange(start, k)
            &&& start > 0 ==> next.len() == limit
        }),
{
    let a = page_start(k, limit);
    let page = list.subrange(a, k);
    assert(page[0] == list[a]);
    assert forall|j: int| 0 <= j < a implies (#[trigger] list[j]).id != list[a].id by {}
    pages_end_before_the_message(list, list[a].id, limit, a);
    let start = page_start(a, limit);
    assert(list.subrange(start, a) + page =~= list.subrange(start, k));
}

/// How many messages a page may hold: as many as asked for up to 200, and 50
/// when nothing is asked.
pub proof fn page_limits(limit: Option<u32>)
    ensures
        limit is None ==> history_limit(limit) == 50,
        limit matches Some(n) ==> n <= 200 ==> history_limit(limit) == n,
        limit matches Some(n) ==> n > 200 ==> history_limit(limit) == 200,
{
}

/// Discarding removes the message and keeps the others in their order.
pub proof fn discarding_keeps_the_others(list: Seq<DmMessageInfoView>, id: Seq<char>)
    ensures
        without_dm(list, id) == list.filter(|m: DmMessageInfoView| m.id != id),
        !has_dm(without_dm(list, id), id),
        forall|m: DmMessageInfoView|
            #[trigger] without_dm(list, id).contains(m) <==> list.contains(m) && m.id != id,
    decreases list.len(),
{
    reveal(Seq::filter);
    let out = without_dm(list, id);
    if list.len() > 0 {
        let short = list.drop_last();
        let x = list.last();
        let head = without_dm(short, id);
        discarding_keeps_the_others(short, id);
        assert forall|m: DmMessageInfoView| #[trigger] out.contains(m) <==> list.contains(m)
            && m.id != id by {
            assert(head.contains(m) <==> short.contains(m) && m.id != id);
            if short.contains(m) {
                assert(list[short.index_of(m)] == m);
            }
            if list.contains(m) && m != x {
                assert(short[list.index_of(m)] == m);
            }
            assert(list[list.len() - 1] == x);
            if x.id != id {
                assert(out[head.len() as int] == x);
                if head.contains(m) {
                    assert(out[head.index_of(m)] == m);
                }
                if out.contains(m) && m != x {
                    assert(head[out.index_of(m)] == m);
                }
            }
        }
        if has_dm(out, id) {
            let i = choose|i: int| 0 <= i < out.len() && #[trigger] out[i].id == id;
            assert(out.contains(out[i]));
        }
    }
}

/// A message that is sent stands at the end of the conversation with its
/// recipient, as written, and no other conversation changes.
pub proof fn sent_dms_are_kept(
    s: AppStateView,
    after: AppStateView,
    p: SendDmParams,
    id: MessageId,
    now: Timestamp,
    found: Option<DhtPeerView>,
    mailbox: Option<NodeAddr>,
    result: Result<DmMessageInfo, RpcError>,
    fx: Seq<EffectView>,
)
    requires
        dm_sent(s, after, p, id, now, found, mailbox, result, fx),
        p.body@.len() > 0,
    ensures
        result is Ok,
        ({
            let before = conversation(s, p.peer_id@);
            let list = conversation(after, p.peer_id@);
            let m = list.last();
            &&& list.len() == before.len() + 1
            &&& list.drop_last() == before
            &&& m.body == p.body@
            &&& m.reply_to == p.reply_to.deep_view()
            &&& m.id == id.name()
            &&& m.peer_id == p.peer_id@
            &&& m.author_id == s.me()
            &&& m.timestamp == now
            &&& result matches Ok(info) && info.deep_view() == m
            &&& after == (AppStateView { dms: after.dms, dm_peers: after.dm_peers, ..s })
        }),
        forall|q: Seq<char>|
            q != p.peer_id@ ==> #[trigger] conversation(after, q) == conversation(s, q),
{
    let list = conversation(after, p.peer_id@);
    assert(list.drop_last() =~= conversation(s, p.peer_id@));
}

/// Whether a command hands `m` over, sealed for `pk`.
pub open spec fn hands_over(
    s: AppStateView,
    fx: EffectView,
    m: DmMessageInfoView,
    pk: Seq<u8>,
    mailbox: Option<NodeAddr>,
    direct: Option<NodeAddr>,
) -> bool {
    exists|env: DmEnvelope|
        #[trigger] carries(s, env, pk, m) && fx == EffectView::Command(
            NetworkCommandView::SendDm {
                peer_id: m.peer_id,
                message_id: m.id,
                recipient_x25519_pk: pk,
                envelope: env.deep_view(),
                mailbox_addr: mailbox,
                peer_node_addr: direct,
            },
        )
}

/// The address of a peer in the routing table.
pub open spec fn direct_addr(found: Option<DhtPeerView>) -> Option<NodeAddr> {
    match found {
        Some(f) => Some(f.addr),
        None => None,
    }
}

/// Whether `pk` is the key to use for a recipient.
pub open spec fn key_of_recipient(
    s: AppStateView,
    after: AppStateView,
    peer: Seq<char>,
    found: Option<DhtPeerView>,
    pk: Seq<u8>,
) -> bool {
    if !not_a_member(s, peer) {
        member_has_key(s, peer, pk)
    } else if s.dm_peers.contains_key(peer) {
        pk == s.dm_peers[peer].x25519_public_key
    } else {
        &&& found matches Some(f) && pk == f.x25519_pk
        &&& after.dm_peers.contains_key(peer)
        &&& after.dm_peers[peer].x25519_public_key == pk
    }
}

/// A message to a known recipient is handed over, sealed for a key of theirs: a
/// key of their membership records, else the remembered one, else the one of the
/// routing table; the last is remembered for later.
pub proof fn sent_dms_are_handed_over(
    s: AppStateView,
    after: AppStateView,
    p: SendDmParams,
    id: MessageId,
    now: Timestamp,
    found: Option<DhtPeerView>,
    mailbox: Option<NodeAddr>,
    result: Result<DmMessageInfo, RpcError>,
    fx: Seq<EffectView>,
)
    requires
        dm_sent(s, after, p, id, now, found, mailbox, result, fx),
        p.body@.len() > 0,
        encryptable(dm_payload_encoding(p.body@, p.reply_to.deep_view(), id.name()).len()),
        !not_a_member(s, p.peer_id@) || s.dm_peers.contains_key(p.peer_id@) || found is Some,
    ensures
        exists|i: int, pk: Seq<u8>|
            0 <= i < fx.len() && #[trigger] hands_over(
                s,
                fx[i],
                conversation(after, p.peer_id@).last(),
                pk,
                mailbox,
                direct_addr(found),
            ) && key_of_recipient(s, after, p.peer_id@, found, pk),
{
    let m = conversation(after, p.peer_id@).last();
    let local = choose|local: Option<Seq<u8>>|
        {
            &&& #[trigger] is_local_key(s, p.peer_id@, local)
            &&& after == (AppStateView {
                dms: crate::api::rpc_server::dm::with_dm(
                    s,
                    p.peer_id@,
                    crate::api::rpc_server::dm::outgoing(s, p, id, now),
                ),
                dm_peers: peers_remembered(s, p.peer_id@, local, found),
                ..s
            })
            &&& crate::api::rpc_server::dm::delivered(
                s,
                crate::api::rpc_server::dm::outgoing(s, p, id, now),
                chosen_key(local, found),
                mailbox,
                found,
                fx,
            )
        };
    assert(m == crate::api::rpc_server::dm::outgoing(s, p, id, now));
    if local is None {
        assert(not_a_member(s, p.peer_id@));
    } else {
        if not_a_member(s, p.peer_id@) {
            strangers_have_no_key(s, p.peer_id@, local->0);
        }
    }
    let key = chosen_key(local, found);
    assert(key is Some);
    let pk = key->0;
    let env = choose|env: DmEnvelope|
        #[trigger] carries(s, env, pk, m) && fx == crate::api::rpc_server::dm::handed_over(
            m,
            pk,
            env.deep_view(),
            mailbox,
            found,
        );
    assert(hands_over(s, fx[1], m, pk, mailbox, direct_addr(found)));
    assert(key_of_recipient(s, after, p.peer_id@, found, pk));
}

proof fn strangers_have_no_key(s: AppStateView, peer: Seq<char>, k: Seq<u8>)
    requires
        not_a_member(s, peer),
    ensures
        !member_has_key(s, peer, k),
{
    if member_has_key(s, peer, k) {
        let m = choose|m: crate::model::membership::MembershipRecordView|
            #[trigger] crate::api::is_record_of(s, peer, m) && m.x25519_public_key == k;
        let (c, u) = choose|c: Seq<char>, u: Seq<char>|
            #![trigger s.members[c][u]]
            s.members.contains_key(c) && s.members[c].contains_key(u) && s.members[c][u] == m
                && m.user_id.name() == peer;
        assert(s.members[c][u].user_id.name() != peer);
    }
}

/// A message that comes in and is for the local user stands at the end of the
/// conversation with its author, clients are told, and no other conversation
/// changes; one that was there already changes nothing.
pub proof fn received_dms_are_kept(
    s: AppStateView,
    e: LogEntryView,
    recipient_pk: Seq<u8>,
    now: Timestamp,
)
    ensures
        ({
            let m = incoming_dm(s, e, recipient_pk, now);
            let after = dm_received(s, m);
            let before = conversation(s, e.author_id);
            let list = conversation(after, e.author_id);
            &&& recipient_pk != x25519_public_key(x25519_secret_of(s.local.key)) ==> after == s
            &&& m matches Some(x) ==> {
                &&& x.author_id == e.author_id
                &&& x.peer_id == e.author_id
                &&& has_dm(before, x.id) ==> after == s
                &&& !has_dm(before, x.id) ==> list == before.push(x) && dm_received_effects(
                    s,
                    m,
                ).contains(crate::api::rpc_server::dm::dm_push(x))
                &&& has_dm(list, x.id)
            }
            &&& forall|q: Seq<char>|
                q != e.author_id ==> #[trigger] conversation(after, q) == conversation(s, q)
        }),
{
    let m = incoming_dm(s, e, recipient_pk, now);
    if let Some(x) = m {
        let before = conversation(s, e.author_id);
        let list = conversation(dm_received(s, m), e.author_id);
        if !has_dm(before, x.id) {
            assert(list[before.len() as int].id == x.id);
            assert(dm_received_effects(s, m)[1] == crate::api::rpc_server::dm::dm_push(x));
        }
    }
}

/// The preferred mailbox of a community is its first seed node.
pub proof fn mailboxes_are_first_seeds(
    s: AppStateView,
    c: Seq<char>,
    parsed: Map<Seq<char>, NodeAddr>,
)
    ensures
        mailbox_choice(s, c, parsed) is Ok <==> s.communities.contains_key(c)
            && s.communities[c].manifest.seed_nodes.len() > 0 && parsed.contains_key(
            s.communities[c].manifest.seed_nodes[0],
        ),
        mailbox_choice(s, c, parsed) matches Ok((name, addr)) ==> name
            == s.communities[c].manifest.seed_nodes[0] && addr == parsed[name],
{
}

} // verus!
