//! Direct-message requests.

use crate::api::effects::{
    emit, no_effects, DhtAction, DhtActionView, Effect, EffectView, TableFile,
};
use crate::api::push_broadcaster::{DmEventData, DmEventDataView, PushEvent, PushEventView};
use crate::api::rpc_server::message::{history_limit, last_items, limit_of};
use crate::api::rpc_server::RpcError;
use crate::api::types::{
    DiscardDmParams, DmMessageInfo, DmMessageInfoView, GetDmHistoryParams, SendDmParams,
};
use crate::api::{
    is_record_of, not_a_member, AppState, AppStateView, DmPeerInfo, DmPeerInfoView,
};
use crate::config::NodeConfigView;
use crate::crypto::dm::{DmEnvelope, DmEnvelopeView};
use crate::crypto::primitives::{encryptable, x25519_public_key};
use crate::identity::x25519_secret_of;
use crate::laws::conversations::{page_start, pages_end_before_the_message, stands_first};
use crate::lists::{array_deep_view, copy_text_opt, vec_deep_view, views, views_push};
use crate::model::membership::MembershipRecordView;
use crate::model::types::MessageId;
use crate::network::network_handle::types::{NetworkCommand, NetworkCommandView};
use crate::network::node_addr::NodeAddr;
use crate::table::{lists, Table};
use crate::text::{join2, same_text};
use crate::time::Timestamp;
use crate::wire::{dm_payload_decoding, dm_payload_encoding, encode_dm_payload};
use vstd::prelude::*;
use vstd::string::*;

verus! {

/// What the routing table knows of a peer.
#[derive(Debug)]
pub struct DhtPeer {
    pub addr: NodeAddr,
    pub x25519_pk: [u8; 32],
    pub display_name: String,
}

/// What a [`DhtPeer`] holds.
pub struct DhtPeerView {
    pub addr: NodeAddr,
    pub x25519_pk: Seq<u8>,
    pub display_name: Seq<char>,
}

impl DeepView for DhtPeer {
    type V = DhtPeerView;

    open spec fn deep_view(&self) -> DhtPeerView {
        DhtPeerView {
            addr: self.addr,
            x25519_pk: self.x25519_pk@,
            display_name: self.display_name@,
        }
    }
}

/// Whether some community lists `peer` as a member with X25519 key `k`.
pub open spec fn member_has_key(s: AppStateView, peer: Seq<char>, k: Seq<u8>) -> bool {
    exists|m: MembershipRecordView|
        #[trigger] is_record_of(s, peer, m) && m.x25519_public_key == k
}

/// Whether `k` is a key under which `peer` is known locally: one of a member
/// record, else the remembered one.
pub open spec fn is_local_key(s: AppStateView, peer: Seq<char>, k: Option<Seq<u8>>) -> bool {
    match k {
        Some(key) => member_has_key(s, peer, key) || (not_a_member(s, peer)
            && s.dm_peers.contains_key(peer) && s.dm_peers[peer].x25519_public_key == key),
        None => not_a_member(s, peer) && !s.dm_peers.contains_key(peer),
    }
}

/// The key to use: the locally known one, else the one of the routing table.
pub open spec fn chosen_key(local: Option<Seq<u8>>, found: Option<DhtPeerView>) -> Option<Seq<u8>> {
    match local {
        Some(k) => Some(k),
        None => match found {
            Some(f) => Some(f.x25519_pk),
            None => None,
        },
    }
}

/// The name under which a peer from the routing table is remembered.
pub open spec fn remembered_name(peer: Seq<char>, found: DhtPeerView) -> Seq<char> {
    if found.display_name.len() == 0 {
        peer.subrange(0, 12) + "…"@
    } else {
        found.display_name
    }
}

/// The remembered peers after a message to `peer` was addressed.
pub open spec fn peers_remembered(
    s: AppStateView,
    peer: Seq<char>,
    local: Option<Seq<u8>>,
    found: Option<DhtPeerView>,
) -> Map<Seq<char>, DmPeerInfoView> {
    match (local, found) {
        (None, Some(f)) => s.dm_peers.insert(
            peer,
            DmPeerInfoView { display_name: remembered_name(peer, f), x25519_public_key: f.x25519_pk },
        ),
        _ => s.dm_peers,
    }
}

/// The conversation with a peer.
pub open spec fn conversation(s: AppStateView, peer: Seq<char>) -> Seq<DmMessageInfoView> {
    if s.dms.contains_key(peer) {
        s.dms[peer]
    } else {
        Seq::empty()
    }
}

/// The direct messages with one more at the end of a conversation.
pub open spec fn with_dm(s: AppStateView, peer: Seq<char>, m: DmMessageInfoView) -> Map<
    Seq<char>,
    Seq<DmMessageInfoView>,
> {
    s.dms.insert(peer, conversation(s, peer).push(m))
}

/// Tell clients about a new direct message.
pub open spec fn dm_push(m: DmMessageInfoView) -> EffectView {
    EffectView::Push(PushEventView::DmNew(DmEventDataView { message: m }))
}

/// Whether `env` seals the payload of `m` from the local user for `pk`: whoever
/// holds the secret of `pk` opens it to bytes that decode to the message.
pub open spec fn carries(s: AppStateView, env: DmEnvelope, pk: Seq<u8>, m: DmMessageInfoView) -> bool {
    let plain = dm_payload_encoding(m.body, m.reply_to, m.id);
    &&& exists|ephem_sk: Seq<u8>|
        ephem_sk.len() == 32 && #[trigger] env.seals(
            x25519_secret_of(s.local.key),
            pk,
            ephem_sk,
            plain,
        )
    &&& forall|sk: Seq<u8>|
        sk.len() == 32 && pk == #[trigger] x25519_public_key(sk) ==> env.opened(sk) == Some(plain)
    &&& dm_payload_decoding(plain) == Some((m.body, m.reply_to, m.id))
}

/// The message that a request to send stands for.
pub open spec fn outgoing(
    s: AppStateView,
    p: SendDmParams,
    id: MessageId,
    now: Timestamp,
) -> DmMessageInfoView {
    DmMessageInfoView {
        id: id.name(),
        peer_id: p.peer_id@,
        author_id: s.me(),
        timestamp: now,
        body: p.body@,
        reply_to: p.reply_to.deep_view(),
        edited_at: None,
    }
}

/// Save the conversation and show the message.
pub open spec fn kept_locally(m: DmMessageInfoView) -> Seq<EffectView> {
    seq![EffectView::Save(TableFile::Dms), dm_push(m)]
}

/// Save the conversation, send the envelope and show the message.
pub open spec fn handed_over(
    m: DmMessageInfoView,
    pk: Seq<u8>,
    env: DmEnvelopeView,
    mailbox: Option<NodeAddr>,
    found: Option<DhtPeerView>,
) -> Seq<EffectView> {
    seq![
        EffectView::Save(TableFile::Dms),
        EffectView::Command(
            NetworkCommandView::SendDm {
                peer_id: m.peer_id,
                message_id: m.id,
                recipient_x25519_pk: pk,
                envelope: env,
                mailbox_addr: mailbox,
                peer_node_addr: match found {
                    Some(f) => Some(f.addr),
                    None => None,
                },
            },
        ),
        dm_push(m),
    ]
}

/// Whether `fx` delivers `m` to the holder of `key`, as far as there is a key
/// and the message can be encrypted.
pub open spec fn delivered(
    s: AppStateView,
    m: DmMessageInfoView,
    key: Option<Seq<u8>>,
    mailbox: Option<NodeAddr>,
    found: Option<DhtPeerView>,
    fx: Seq<EffectView>,
) -> bool {
    match key {
        Some(pk) => if encryptable(dm_payload_encoding(m.body, m.reply_to, m.id).len()) {
            exists|env: DmEnvelope|
                #[trigger] carries(s, env, pk, m) && fx == handed_over(
                    m,
                    pk,
                    env.deep_view(),
                    mailbox,
                    found,
                )
        } else {
            fx == kept_locally(m)
        },
        None => fx == kept_locally(m),
    }
}

/// What a request to send a direct message leads to.
pub open spec fn dm_sent(
    s: AppStateView,
    after: AppStateView,
    p: SendDmParams,
    id: MessageId,
    now: Timestamp,
    found: Option<DhtPeerView>,
    mailbox: Option<NodeAddr>,
    result: Result<DmMessageInfo, RpcError>,
    fx: Seq<EffectView>,
) -> bool {
    let m = outgoing(s, p, id, now);
    if p.body@.len() == 0 {
        result == Err::<DmMessageInfo, RpcError>(RpcError::EmptyBody) && fx.len() == 0 && after == s
    } else {
        &&& result matches Ok(info) && info.deep_view() == m
        &&& exists|local: Option<Seq<u8>>|
            {
                &&& #[trigger] is_local_key(s, p.peer_id@, local)
                &&& after == (AppStateView {
                    dms: with_dm(s, p.peer_id@, m),
                    dm_peers: peers_remembered(s, p.peer_id@, local, found),
                    ..s
                })
                &&& delivered(s, m, chosen_key(local, found), mailbox, found, fx)
            }
    }
}

/// Where the message with id `id` first stands; the end when there is none.
pub open spec fn dm_index(list: Seq<DmMessageInfoView>, id: Seq<char>) -> int
    decreases list.len(),
{
    if list.len() == 0 {
        0
    } else if list[0].id == id {
        0
    } else {
        1 + dm_index(list.subrange(1, list.len() as int), id)
    }
}

/// The messages of a conversation that a history request shows: the last ones,
/// or the last ones before a given message.
pub open spec fn dm_page(
    list: Seq<DmMessageInfoView>,
    before: Option<Seq<char>>,
    limit: nat,
) -> Seq<DmMessageInfoView> {
    match before {
        Some(id) => last_items(list.subrange(0, dm_index(list, id)), limit),
        None => last_items(list, limit),
    }
}

/// The messages of a conversation without the one with id `id`.
pub open spec fn without_dm(list: Seq<DmMessageInfoView>, id: Seq<char>) -> Seq<DmMessageInfoView>
    decreases list.len(),
{
    if list.len() == 0 {
        list
    } else {
        let head = without_dm(list.drop_last(), id);
        if list.last().id != id {
            head.push(list.last())
        } else {
            head
        }
    }
}

/// The index of a message is within the list.
pub proof fn dm_index_bound(list: Seq<DmMessageInfoView>, id: Seq<char>)
    ensures
        0 <= dm_index(list, id) <= list.len(),
    decreases list.len(),
{
    if list.len() > 0 && list[0].id != id {
        dm_index_bound(list.subrange(1, list.len() as int), id);
    }
}

/// Skipping items that do not match moves the index by their number.
pub proof fn dm_index_skip(list: Seq<DmMessageInfoView>, id: Seq<char>, i: int)
    requires
        0 <= i <= list.len(),
        forall|j: int| 0 <= j < i ==> list[j].id != id,
    ensures
        dm_index(list, id) == i + dm_index(list.subrange(i, list.len() as int), id),
    decreases i,
{
    if i == 0 {
        assert(list.subrange(0, list.len() as int) =~= list);
    } else {
        dm_index_skip(list, id, i - 1);
        let tail = list.subrange(i - 1, list.len() as int);
        assert(tail[0] == list[i - 1]);
        assert(tail.subrange(1, tail.len() as int) =~= list.subrange(i, list.len() as int));
    }
}

/// Where the message with id `id` first stands; the end when there is none.
fn find_dm(list: &Vec<DmMessageInfo>, id: &str) -> (r: usize)
    ensures
        r == dm_index(list.deep_view(), id@),
        r <= list@.len(),
{
    let ghost all = list.deep_view();
    let mut i: usize = 0;
    while i < list.len()
        invariant
            i <= list@.len(),
            all == list.deep_view(),
            forall|j: int| 0 <= j < i ==> all[j].id != id@,
        decreases list@.len() - i,
    {
        if same_text(list[i].id.as_str(), id) {
            proof {
                dm_index_skip(all, id@, i as int);
                let tail = all.subrange(i as int, all.len() as int);
                assert(tail[0] == all[i as int]);
            }
            return i;
        }
        i += 1;
    }
    proof {
        dm_index_skip(all, id@, i as int);
    }
    i
}

/// The key to use for a recipient: the locally known one, else the one of the
/// routing table.
pub fn choose_key(local: Option<[u8; 32]>, found: &Option<DhtPeer>) -> (r: Option<[u8; 32]>)
    ensures
        r.deep_view() == chosen_key(local.deep_view(), found.deep_view()),
{
    broadcast use array_deep_view;

    match local {
        Some(k) => Some(k),
        None => match found {
            Some(f) => Some(f.x25519_pk),
            None => None,
        },
    }
}

impl AppState {
    /// The X25519 key under which a peer is known locally.
    pub fn local_recipient_key(&self, peer_id: &str) -> (r: Option<[u8; 32]>)
        ensures
            is_local_key(self.deep_view(), peer_id@, r.deep_view()),
    {
        broadcast use array_deep_view;

        if let Some(m) = self.record_of(peer_id) {
            let k: Option<[u8; 32]> = Some(m.x25519_public_key);
            assert(is_record_of(self.deep_view(), peer_id@, m.deep_view()));
            assert(k.deep_view() == Some(m.x25519_public_key@));
            return k;
        }
        match self.dm_peers.get(peer_id) {
            Some(info) => Some(info.x25519_public_key),
            None => None,
        }
    }

    /// Send a direct message under the given id and time. `found` is what the
    /// routing table knows of the peer, `mailbox` the address of their mailbox.
    #[verifier::rlimit(60)]
    pub fn dm_send_with(
        &mut self,
        p: SendDmParams,
        id: MessageId,
        now: Timestamp,
        found: Option<DhtPeer>,
        mailbox: Option<NodeAddr>,
    ) -> (r: (Result<DmMessageInfo, RpcError>, Vec<Effect>))
        requires
            found is Some ==> p.peer_id@.len() >= 12,
        ensures
            dm_sent(
                old(self).deep_view(),
                final(self).deep_view(),
                p,
                id,
                now,
                found.deep_view(),
                mailbox,
                r.0,
                r.1.deep_view(),
            ),
    {
        broadcast use array_deep_view, vec_deep_view, views_push;

        let ghost s = old(self).deep_view();
        let ghost found_view = found.deep_view();
        if p.body.as_str().is_empty() {
            return (Err(RpcError::EmptyBody), no_effects());
        }
        let message_id = id.to_string();
        let msg = DmMessageInfo {
            id: message_id.clone(),
            peer_id: p.peer_id.clone(),
            author_id: self.local.peer_id(),
            timestamp: now,
            body: p.body.clone(),
            reply_to: copy_text_opt(&p.reply_to),
            edited_at: None,
        };
        let ghost m = msg.deep_view();
        assert(m == outgoing(s, p, id, now));
        let local = self.local_recipient_key(p.peer_id.as_str());
        let ghost local_view = local.deep_view();
        let mut list: Vec<DmMessageInfo> = match self.dms.remove(p.peer_id.as_str()) {
            Some(v) => v,
            None => Vec::new(),
        };
        assert(views(list@) =~= conversation(s, p.peer_id@));
        list.push(msg.clone());
        self.dms.insert(p.peer_id.as_str(), list);
        let mut out = no_effects();
        emit(&mut out, Effect::Save(TableFile::Dms));
        let mut peer_node_addr: Option<NodeAddr> = None;
        let key: Option<[u8; 32]> = choose_key(local, &found);
        if let Some(f) = found {
            peer_node_addr = Some(f.addr);
            if local.is_none() {
                let name = if f.display_name.as_str().is_empty() {
                    join2(p.peer_id.as_str().substring_char(0, 12), "…")
                } else {
                    f.display_name
                };
                self.dm_peers.insert(
                    p.peer_id.as_str(),
                    DmPeerInfo { display_name: name, x25519_public_key: f.x25519_pk },
                );
            }
        }
        assert(self.deep_view().dms =~= with_dm(s, p.peer_id@, m));
        assert(self.deep_view().dm_peers =~= peers_remembered(
            s,
            p.peer_id@,
            local_view,
            found_view,
        ));
        let ghost mut sent: Option<DmEnvelope> = None;
        if let Some(pk) = key {
            let plain = encode_dm_payload(p.body.as_str(), &p.reply_to, message_id.as_str());
            match DmEnvelope::seal(self.local.x25519_secret(), &pk, plain.as_slice()) {
                Ok(envelope) => {
                    proof {
                        sent = Some(envelope);
                        assert(carries(s, envelope, pk@, m));
                    }
                    emit(
                        &mut out,
                        Effect::Command(
                            NetworkCommand::SendDm {
                                peer_id: p.peer_id.clone(),
                                message_id,
                                recipient_x25519_pk: pk,
                                envelope,
                                mailbox_addr: mailbox,
                                peer_node_addr,
                            },
                        ),
                    );
                },
                Err(_) => {},
            }
        }
        emit(&mut out, Effect::Push(PushEvent::DmNew(DmEventData { message: msg.clone() })));
        assert(is_local_key(s, p.peer_id@, local_view));
        proof {
            if let Some(env) = sent {
                let pk = chosen_key(local_view, found_view)->0;
                assert(out.deep_view() =~= handed_over(
                    m,
                    pk,
                    env.deep_view(),
                    mailbox,
                    found_view,
                ));
                assert(carries(s, env, pk, m));
            } else {
                assert(out.deep_view() =~= kept_locally(m));
            }
        }
        assert(delivered(
            s,
            m,
            chosen_key(local_view, found_view),
            mailbox,
            found_view,
            out.deep_view(),
        ));
        assert(self.deep_view() == (AppStateView {
            dms: with_dm(s, p.peer_id@, m),
            dm_peers: peers_remembered(s, p.peer_id@, local_view, found_view),
            ..s
        }));
        (Ok(msg), out)
    }

    /// Send a direct message now, under a fresh id.
    pub fn dm_send(
        &mut self,
        p: SendDmParams,
        found: Option<DhtPeer>,
        mailbox: Option<NodeAddr>,
    ) -> (r: (Result<DmMessageInfo, RpcError>, Vec<Effect>))
        requires
            found is Some ==> p.peer_id@.len() >= 12,
        ensures
            exists|id: MessageId, now: Timestamp|
                #[trigger] dm_sent(
                    old(self).deep_view(),
                    final(self).deep_view(),
                    p,
                    id,
                    now,
                    found.deep_view(),
                    mailbox,
                    r.0,
                    r.1.deep_view(),
                ),
    {
        let id = MessageId::new();
        let now = Timestamp::now();
        self.dm_send_with(p, id, now, found, mailbox)
    }

    /// A page of the conversation with a peer.
    pub fn dm_get_history(&self, p: GetDmHistoryParams) -> (r: Vec<DmMessageInfo>)
        ensures
            forall|k: int|
                #![trigger conversation(self.deep_view(), p.peer_id@)[k]]
                stands_first(conversation(self.deep_view(), p.peer_id@), p.before.deep_view(), k)
                    ==> r.deep_view() == conversation(self.deep_view(), p.peer_id@).subrange(
                    page_start(k, history_limit(p.limit)),
                    k,
                ),
            r.deep_view() == dm_page(
                conversation(self.deep_view(), p.peer_id@),
                p.before.deep_view(),
                history_limit(p.limit),
            ),
    {
        broadcast use vec_deep_view, views_push;

        let limit: usize = limit_of(p.limit);
        let mut out: Vec<DmMessageInfo> = Vec::new();
        let ghost all = conversation(self.deep_view(), p.peer_id@);
        let ghost before = p.before.deep_view();
        proof {
            if let Some(id) = before {
                dm_index_bound(all, id);
            }
        }
        match self.dms.get(p.peer_id.as_str()) {
            Some(list) => {
                let end: usize = match &p.before {
                    Some(id) => find_dm(list, id.as_str()),
                    None => list.len(),
                };
                let start: usize = if end > limit {
                    end - limit
                } else {
                    0
                };
                let mut i: usize = start;
                while i < end
                    invariant
                        start <= i <= end,
                        end <= list@.len(),
                        all == views(list@),
                        views(out@) == all.subrange(start as int, i as int),
                    decreases end - i,
                {
                    out.push(list[i].clone());
                    i += 1;
                    assert(all.subrange(start as int, i as int) =~= all.subrange(
                        start as int,
                        i - 1,
                    ).push(all[i - 1]));
                }
                assert(views(out@) =~= dm_page(all, before, history_limit(p.limit)));
            },
            None => {
                assert(views(out@) =~= dm_page(all, before, history_limit(p.limit)));
            },
        }
        proof {
            let before = p.before.deep_view();
            assert forall|k: int|
                #![trigger all[k]]
                stands_first(all, before, k) implies dm_page(all, before, history_limit(p.limit))
                == all.subrange(page_start(k, history_limit(p.limit)), k) by {
                pages_end_before_the_message(all, before->0, history_limit(p.limit), k);
            }
        }
        out
    }

    /// Clear the preferred mailbox node.
    pub fn dm_clear_preferred_mailbox(&mut self) -> (r: (Result<bool, RpcError>, Vec<Effect>))
        ensures
            r.0 == Ok::<bool, RpcError>(true),
            r.1.deep_view() == seq![EffectView::SaveConfig],
            final(self).deep_view() == (AppStateView {
                config: NodeConfigView {
                    preferred_mailbox_node: None,
                    ..old(self).deep_view().config
                },
                ..old(self).deep_view()
            }),
    {
        self.config.preferred_mailbox_node = None;
        let mut out = no_effects();
        emit(&mut out, Effect::SaveConfig);
        (Ok(true), out)
    }

    /// Use the first seed node of a community as the preferred mailbox.
    pub fn dm_set_preferred_mailbox_community(
        &mut self,
        community_id: &str,
        parsed: &Table<NodeAddr>,
    ) -> (r: (Result<String, RpcError>, Vec<Effect>))
        ensures
            ({
                let s = old(self).deep_view();
                match mailbox_choice(s, community_id@, parsed.deep_view()) {
                    Err(e) => r.0 == Err::<String, RpcError>(e) && r.1.deep_view().len() == 0
                        && final(self).deep_view() == s,
                    Ok((name, addr)) => {
                        &&& r.0 matches Ok(t) && t@ == name
                        &&& final(self).deep_view() == (AppStateView {
                            config: NodeConfigView {
                                preferred_mailbox_node: Some(name),
                                ..s.config
                            },
                            ..s
                        })
                        &&& r.1.deep_view() == seq![
                            EffectView::SaveConfig,
                            EffectView::Dht(DhtActionView::AnnounceMailbox { addr }),
                        ]
                    },
                }
            }),
    {
        let name: String = match self.communities.get(community_id) {
            None => {
                return (Err(RpcError::CommunityNotFound), no_effects());
            },
            Some(signed) => {
                if signed.manifest.seed_nodes.len() == 0 {
                    return (Err(RpcError::NoSeedNodes), no_effects());
                }
                signed.manifest.seed_nodes[0].clone()
            },
        };
        let addr: NodeAddr = match parsed.get(name.as_str()) {
            Some(a) => *a,
            None => {
                return (Err(RpcError::BadSeedAddress), no_effects());
            },
        };
        self.config.preferred_mailbox_node = Some(name.clone());
        let mut out = no_effects();
        emit(&mut out, Effect::SaveConfig);
        emit(&mut out, Effect::Dht(DhtAction::AnnounceMailbox { addr }));
        (Ok(name), out)
    }

    /// Remove a message from the local conversation with a peer.
    pub fn dm_discard(&mut self, p: DiscardDmParams) -> (r: (Result<bool, RpcError>, Vec<Effect>))
        ensures
            r.0 == Ok::<bool, RpcError>(true),
            ({
                let s = old(self).deep_view();
                if s.dms.contains_key(p.peer_id@) {
                    &&& final(self).deep_view() == (AppStateView {
                        dms: s.dms.insert(
                            p.peer_id@,
                            without_dm(s.dms[p.peer_id@], p.message_id@),
                        ),
                        ..s
                    })
                    &&& r.1.deep_view() == seq![EffectView::Save(TableFile::Dms)]
                } else {
                    final(self).deep_view() == s && r.1.deep_view().len() == 0
                }
            }),
    {
        broadcast use vec_deep_view, views_push;

        let ghost s = old(self).deep_view();
        let mut out = no_effects();
        if let Some(list) = self.dms.remove(p.peer_id.as_str()) {
            let ghost all = views(list@);
            let mut kept: Vec<DmMessageInfo> = Vec::new();
            let mut i: usize = 0;
            while i < list.len()
                invariant
                    i <= list@.len(),
                    all == views(list@),
                    views(kept@) == without_dm(all.subrange(0, i as int), p.message_id@),
                decreases list@.len() - i,
            {
                assert(all.subrange(0, i + 1).drop_last() =~= all.subrange(0, i as int));
                if !same_text(list[i].id.as_str(), p.message_id.as_str()) {
                    kept.push(list[i].clone());
                }
                i += 1;
            }
            assert(all.subrange(0, all.len() as int) =~= all);
            self.dms.insert(p.peer_id.as_str(), kept);
            emit(&mut out, Effect::Save(TableFile::Dms));
            assert(self.deep_view().dms =~= s.dms.insert(
                p.peer_id@,
                without_dm(s.dms[p.peer_id@], p.message_id@),
            ));
        } else {
            assert(self.deep_view().dms =~= s.dms);
        }
        (Ok(true), out)
    }

    /// The remembered display name of a peer.
    pub fn dm_peer_name(&self, peer_id: &str) -> (r: Option<String>)
        ensures
            r.deep_view() == if self.deep_view().dm_peers.contains_key(peer_id@) {
                Some(self.deep_view().dm_peers[peer_id@].display_name)
            } else {
                None
            },
    {
        match self.dm_peers.get(peer_id) {
            Some(info) => Some(info.display_name.clone()),
            None => None,
        }
    }
}

/// The seed address that becomes the preferred mailbox.
pub open spec fn mailbox_choice(
    s: AppStateView,
    community_id: Seq<char>,
    parsed: Map<Seq<char>, NodeAddr>,
) -> Result<(Seq<char>, NodeAddr), RpcError> {
    if !s.communities.contains_key(community_id) {
        Err(RpcError::CommunityNotFound)
    } else {
        let seeds = s.communities[community_id].manifest.seed_nodes;
        if seeds.len() == 0 {
            Err(RpcError::NoSeedNodes)
        } else if !parsed.contains_key(seeds[0]) {
            Err(RpcError::BadSeedAddress)
        } else {
            Ok((seeds[0], parsed[seeds[0]]))
        }
    }
}

/// A page never shows more than the limit, and shows consecutive messages.
pub proof fn dm_pages_are_bounded(
    list: Seq<DmMessageInfoView>,
    before: Option<Seq<char>>,
    limit: Option<u32>,
)
    ensures
        dm_page(list, before, history_limit(limit)).len() <= history_limit(limit),
        history_limit(limit) <= 200,
{
    if let Some(id) = before {
        dm_index_bound(list, id);
    }
}

} // verus!
