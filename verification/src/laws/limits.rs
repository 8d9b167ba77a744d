//! Laws about what is left out, and what stands in for what is missing.

use crate::api::dialing::{seed_dials, OwnAddressesView};
use crate::api::effects::{EffectView, StoreUpdateView, TableFile};
use crate::api::event_processor::channel_handler::sync_peer;
use crate::api::event_processor::community_handler::{
    broadcast_applied, broadcast_effects, delivered_key, fetch_history, resume_point,
};
use crate::api::event_processor::dm_handler::{
    dm_received, dm_received_effects, has_dm, incoming_dm,
};
use crate::api::event_processor::manifest_handler::{
    catching_up_keeps, names_of, retry_effects, settled, sync_done, taken_members,
};
use crate::api::event_processor::peer::capped;
use crate::api::rpc_server::community::{peers_of, update_refusal};
use crate::api::rpc_server::dm::{
    conversation, peers_remembered, remembered_name, DhtPeerView,
};
use crate::api::rpc_server::member::{is_creator, removal_refusal, role_refusal, Needed};
use crate::api::rpc_server::message::{reply_name, reply_target, text_message};
use crate::api::startup::{absorbed, absorbed_all};
use crate::api::{without_community, AppStateView};
use crate::crypto::certificate::HostingCert;
use crate::crypto::dm::bytes_opened;
use crate::crypto::primitives::{
    ed25519_accepts, ed25519_public_key, sha256_digest, x25519_public_key,
};
use crate::dht::kademlia::WalkView;
use crate::identity::x25519_secret_of;
use crate::laws::links::losses_take_out_the_lost;
use crate::lists::without_text_membership;
use crate::model::channel::ChannelManifestView;
use crate::model::membership::MembershipRecordView;
use crate::model::message::MessageContentView;
use crate::model::types::{ulid_parse, MessageId};
use crate::network::client::{error_text, ClientError};
use crate::network::nat_traversal::{mappable, LocalIp};
use crate::network::network_handle::command::{
    lost_all, registered, LinksView, RegistrationView,
};
use crate::network::network_handle::types::ManifestResponseView;
use crate::network::node_addr::{Ip, NodeAddr};
use crate::node::store::{updated, CommunityMetaView};
use crate::state::message_log::LogEntryView;
use crate::text::{all_hex, hex};
use crate::time::Timestamp;
use crate::wire::dm_payload_decoding;
use vstd::prelude::*;
use vstd::utf8::{decode_utf8, valid_utf8};

verus! {

/// Whether a seed address leads back to this node.
pub open spec fn leads_home(
    o: OwnAddressesView,
    parsed: Map<Seq<char>, NodeAddr>,
    name: Seq<char>,
) -> bool {
    parsed.contains_key(name) && o.is_self(name, parsed[name])
}

/// A node never dials itself: it dials as if its own addresses were not listed.
pub proof fn own_addresses_are_not_dialled(
    seeds: Seq<Seq<char>>,
    parsed: Map<Seq<char>, NodeAddr>,
    o: OwnAddressesView,
    pk: Seq<u8>,
    c: Seq<char>,
    password: Option<Seq<char>>,
    fixed: Option<Seq<u8>>,
    stored: Map<Seq<char>, Seq<u8>>,
)
    ensures
        seed_dials(seeds, parsed, Some(o), pk, c, password, fixed, stored) == seed_dials(
            seeds.filter(|n: Seq<char>| !leads_home(o, parsed, n)),
            parsed,
            None,
            pk,
            c,
            password,
            fixed,
            stored,
        ),
    decreases seeds.len(),
{
    reveal(Seq::filter);
    let pred = |n: Seq<char>| !leads_home(o, parsed, n);
    if seeds.len() > 0 {
        own_addresses_are_not_dialled(
            seeds.drop_last(),
            parsed,
            o,
            pk,
            c,
            password,
            fixed,
            stored,
        );
        let head = seeds.drop_last().filter(pred);
        if pred(seeds.last()) {
            assert(seeds.filter(pred) =~= head.push(seeds.last()));
            assert(head.push(seeds.last()).drop_last() =~= head);
        }
    }
}

/// A reply names its target, where the name is well formed; a plain text is nothing but
/// its body and its target.
pub proof fn replies_name_their_target(t: Seq<char>, id: MessageId, body: Seq<char>)
    ensures
        ulid_parse(t) is Some ==> reply_target(Some(t)) == Some(MessageId(ulid_parse(t)->0)),
        ulid_parse(t) is None ==> reply_target(Some(t)) is None,
        reply_target(None) is None,
        reply_name(Some(id)) == Some(id.name()),
        reply_name(None) is None,
        text_message(body, Some(id)) matches MessageContentView::Text {
            body: b,
            attachments,
            reply_to,
            edited_at,
        } && b == body && attachments.len() == 0 && reply_to == Some(id) && edited_at is None,
{
}

/// Keys that the hosting store brings back have the length of a key.
pub proof fn stored_keys_have_their_length(
    s: AppStateView,
    metas: Seq<CommunityMetaView>,
    k: Seq<char>,
)
    requires
        absorbed_all(s, metas).channel_keys.contains_key(k),
        !s.channel_keys.contains_key(k),
    ensures
        absorbed_all(s, metas).channel_keys[k].len() == 32,
    decreases metas.len(),
{
    if metas.len() > 0 {
        let before = absorbed_all(s, metas.drop_last());
        assert(absorbed_all(s, metas) == absorbed(before, metas.last()));
        if before.channel_keys.contains_key(k) {
            stored_keys_have_their_length(s, metas.drop_last(), k);
        }
    }
}

/// The hosting store gets the keys of the channels that were served, and no others.
pub proof fn stored_keys_belong_to_the_channels(
    s: AppStateView,
    c: Seq<char>,
    channels: Seq<ChannelManifestView>,
    members: Seq<MembershipRecordView>,
    before: Option<CommunityMetaView>,
    after: Option<CommunityMetaView>,
    k: Seq<char>,
)
    requires
        s.communities.contains_key(c),
        updated(
            s,
            StoreUpdateView::ReplaceCommunity { community_id: c, channels, members },
            before,
            after,
        ),
    ensures
        after is Some,
        after->0.channel_keys.contains_key(k) <==> s.channel_keys.contains_key(k) && exists|i: int|
            0 <= i < channels.len() && (#[trigger] channels[i]).id.name() == k,
        after->0.channel_keys.contains_key(k) ==> after->0.channel_keys[k] == s.channel_keys[k],
{
    let names = names_of(channels);
    if exists|i: int| 0 <= i < channels.len() && (#[trigger] channels[i]).id.name() == k {
        let i = choose|i: int| 0 <= i < channels.len() && (#[trigger] channels[i]).id.name() == k;
        assert(names[i] == k);
    }
    if names.contains(k) {
        let i = names.index_of(k);
        assert(channels[i].id.name() == k);
    }
}

/// Nobody is looked for behind a connection that was lost.
pub proof fn lost_connections_reach_nobody(l: LinksView, dead: Seq<Seq<char>>, u: Seq<char>)
    requires
        dead.len() > 0,
        lost_all(l, dead).by_user.contains_key(u),
    ensures
        lost_all(l, dead).peers.contains(lost_all(l, dead).by_user[u]),
        !dead.contains(lost_all(l, dead).by_user[u]),
{
    let p = lost_all(l, dead).by_user[u];
    losses_take_out_the_lost(l, dead, p, u);
}

/// A peer from the routing table is remembered under its own name; one without a name
/// under the beginning of its identifier.
pub proof fn found_peers_have_a_name(peer: Seq<char>, found: DhtPeerView)
    requires
        peer.len() >= 12,
    ensures
        found.display_name.len() > 0 ==> remembered_name(peer, found) == found.display_name,
        found.display_name.len() == 0 ==> {
            &&& remembered_name(peer, found).len() == 13
            &&& forall|i: int|
                0 <= i < 12 ==> #[trigger] remembered_name(peer, found)[i] == peer[i]
        },
{
    reveal_strlit("…");
}

/// A served record is kept as it is, except that the creator's roles stay.
pub proof fn served_records_keep_the_creators_roles(
    s: AppStateView,
    c: Seq<char>,
    m: MembershipRecordView,
)
    ensures
        !is_creator(s, c, m.user_id.name()) ==> settled(s, c, m) == m,
        is_creator(s, c, m.user_id.name()) ==> settled(s, c, m).roles == s.member_list(
            c,
        )[m.user_id.name()].roles,
        settled(s, c, m) == (MembershipRecordView { roles: settled(s, c, m).roles, ..m }),
{
}

/// A port is mapped to an IPv4 address that is neither a loopback nor link-local.
pub proof fn mapped_addresses(x: LocalIp, v: u32)
    requires
        x.ip == Ip::V4(v),
    ensures
        mappable(x) <==> !x.is_loopback && !(0xa9fe_0000 <= v <= 0xa9fe_ffff),
{
}

/// No port is mapped to an IPv6 address.
pub proof fn unmapped_addresses(x: LocalIp)
    requires
        x.ip is V6,
    ensures
        !mappable(x),
{
}

/// An answer of the wrong kind is reported with the request it answered.
pub proof fn wrong_answers_are_reported(what: Seq<char>)
    ensures
        error_text(what, ClientError::Unexpected) == "unexpected "@ + what + " response"@,
{
}

/// A placeholder that comes back leaves a fetch pending; a manifest ends it, and only
/// its own.
pub proof fn placeholders_leave_fetches_pending(
    pending: Seq<Seq<char>>,
    c: Seq<char>,
    d: Seq<char>,
    version: u64,
)
    ensures
        sync_done(pending, c, 0) == pending,
        version > 0 ==> !sync_done(pending, c, version).contains(c),
        d != c && pending.contains(d) ==> sync_done(pending, c, version).contains(d),
{
    without_text_membership(pending, c, c);
    without_text_membership(pending, c, d);
}

/// Writing to somebody who is known changes nothing of who is known; somebody who was
/// found is remembered with the key that was found.
pub proof fn written_peers_are_remembered(
    s: AppStateView,
    peer: Seq<char>,
    local: Option<Seq<u8>>,
    found: Option<DhtPeerView>,
)
    ensures
        local is Some || found is None ==> peers_remembered(s, peer, local, found) == s.dm_peers,
        local is None && found is Some ==> {
            let t = peers_remembered(s, peer, local, found);
            &&& t.contains_key(peer)
            &&& t[peer].x25519_public_key == found->0.x25519_pk
            &&& t.remove(peer) == s.dm_peers.remove(peer)
        },
{
}

/// A community moves to another seed only where the certificate of that seed is named.
pub proof fn moves_name_a_certificate(
    s: AppStateView,
    c: Seq<char>,
    name: Option<Seq<char>>,
    description: Option<Seq<char>>,
    seeds: Seq<Seq<char>>,
    fingerprint: Option<Seq<char>>,
)
    requires
        s.communities.contains_key(c),
        seeds.len() > 0,
        seeds[0].len() > 0,
        s.communities[c].manifest.seed_nodes.len() == 0 || s.communities[c].manifest.seed_nodes[0]
            != seeds[0],
        fingerprint is None || fingerprint->0.len() != 64 || !all_hex(fingerprint->0),
    ensures
        update_refusal(s, c, name, description, Some(seeds), fingerprint) is Some,
{
}

/// Nobody is removed, or given another role, who is not a member.
pub proof fn strangers_are_not_removed(
    s: AppStateView,
    c: Seq<char>,
    u: Seq<char>,
    needed: Needed,
)
    requires
        !s.member_list(c).contains_key(u),
    ensures
        removal_refusal(s, c, u, needed) is Some,
        role_refusal(s, c, u) is Some,
{
}

/// Another peer is asked for keys only while a channel of the community waits for one.
pub proof fn nobody_is_asked_in_vain(
    s: AppStateView,
    c: Seq<char>,
    pk: Seq<u8>,
    from: Seq<char>,
    names: Seq<Seq<char>>,
    rotated: Seq<Seq<char>>,
)
    requires
        forall|i: int|
            0 <= i < names.len() ==> !s.pending_rotation_messages.contains_key(#[trigger] names[i])
                || rotated.contains(names[i]),
    ensures
        retry_effects(s, c, pk, from, names, rotated).len() == 0,
{
}

/// A new connection is one more peer, found by the hash of its key; it is a seed exactly
/// when it was dialled as one.
pub proof fn new_connections_are_noted(l: LinksView, reg: RegistrationView)
    requires
        !l.peers.contains(reg.peer_id),
    ensures
        ({
            let t = registered(l, reg);
            &&& t.peers == l.peers.push(reg.peer_id)
            &&& t.by_user == l.by_user.insert(hex(sha256_digest(reg.node_pk)), reg.peer_id)
            &&& reg.is_seed ==> t.seeds == l.seeds.insert(reg.peer_id, reg.seed)
            &&& !reg.is_seed ==> t.seeds == l.seeds
            &&& t.own_addrs == l.own_addrs
        }),
{
}

/// Whether a record can be taken from a served list.
pub open spec fn admissible(s: AppStateView, c: Seq<char>, m: MembershipRecordView) -> bool {
    sha256_digest(m.public_key) == m.user_id.0@ && !(s.bans.contains_key(c)
        && s.bans[c].contains(m.user_id.name()))
}

/// Whether a record names the same user with the same keys and name as another.
pub open spec fn same_person(a: MembershipRecordView, b: MembershipRecordView) -> bool {
    a == (MembershipRecordView { roles: a.roles, ..b })
}

proof fn taken_and_admissible(
    s: AppStateView,
    c: Seq<char>,
    members: Seq<MembershipRecordView>,
    i: int,
    j: int,
)
    ensures
        0 <= i < taken_members(s, c, members).len() ==> admissible(
            s,
            c,
            taken_members(s, c, members)[i],
        ) && exists|k: int|
            0 <= k < members.len() && #[trigger] same_person(
                taken_members(s, c, members)[i],
                members[k],
            ),
        0 <= j < members.len() && admissible(s, c, members[j]) ==> exists|k: int|
            0 <= k < taken_members(s, c, members).len() && #[trigger] same_person(
                taken_members(s, c, members)[k],
                members[j],
            ),
    decreases members.len(),
{
    let all = taken_members(s, c, members);
    if members.len() > 0 {
        let short = members.drop_last();
        let head = taken_members(s, c, short);
        taken_and_admissible(s, c, short, i, j);
        if 0 <= i < head.len() {
            let k = choose|k: int|
                0 <= k < short.len() && #[trigger] same_person(head[i], short[k]);
            assert(all[i] == head[i]);
            assert(same_person(all[i], members[k]));
        } else if 0 <= i < all.len() {
            assert(same_person(all[i], members[members.len() - 1]));
        }
        if 0 <= j < members.len() && admissible(s, c, members[j]) {
            if j < short.len() {
                let k = choose|k: int|
                    0 <= k < head.len() && #[trigger] same_person(head[k], short[j]);
                assert(all[k] == head[k]);
                assert(same_person(all[k], members[j]));
            } else {
                assert(same_person(all[all.len() - 1], members[j]));
            }
        }
    }
}

/// A served record is taken exactly when its identifier belongs to its key and the user
/// is not banned here.
pub proof fn served_records_are_checked(p: ManifestResponseView, s: AppStateView, i: int, j: int)
    ensures
        0 <= i < p.people(s).len() ==> admissible(s, p.community(), p.people(s)[i]) && exists|k: int|
            0 <= k < p.members.len() && #[trigger] same_person(p.people(s)[i], p.members[k]),
        0 <= j < p.members.len() && admissible(s, p.community(), p.members[j]) ==> exists|k: int|
            0 <= k < p.people(s).len() && #[trigger] same_person(p.people(s)[k], p.members[j]),
{
    catching_up_keeps(p, s);
    taken_and_admissible(p.caught_up(s), p.community(), p.members, i, j);
}

/// The creator of a community takes no keys from peers.
pub proof fn creators_keep_their_keys(p: ManifestResponseView, s: AppStateView, c: Seq<char>)
    requires
        p.manifest.manifest.public_key == ed25519_public_key(s.local.key),
        s.channel_keys.contains_key(c),
    ensures
        p.keyed(s).channel_keys.contains_key(c),
        p.keyed(s).channel_keys[c] == s.channel_keys[c],
        p.rotated(s).len() == 0,
{
}

/// A community that is forgotten leaves nothing behind: no manifest, no members, no
/// password, and neither channels nor their keys.
pub proof fn forgotten_communities_leave_nothing(s: AppStateView, c: Seq<char>, k: Seq<char>)
    ensures
        ({
            let t = without_community(s, c);
            &&& !t.communities.contains_key(c)
            &&& !t.members.contains_key(c)
            &&& !t.hosting_passwords.contains_key(c)
            &&& s.channels.contains_key(k) && s.channels[k].community_id.name() == c
                && s.channels[k].id.name() == k ==> !t.channels.contains_key(k)
                && !t.channel_keys.contains_key(k)
        }),
{
}

/// A direct message is read as a payload, else as plain text; one without an id of its
/// own goes by the id of its entry. What is addressed to another key, or cannot be opened,
/// is no message.
pub proof fn direct_messages_are_read(
    s: AppStateView,
    e: LogEntryView,
    pk: Seq<u8>,
    now: Timestamp,
)
    ensures
        ({
            let sk = x25519_secret_of(s.local.key);
            let plain = bytes_opened(e.ciphertext, sk);
            let m = incoming_dm(s, e, pk, now);
            &&& pk != x25519_public_key(sk) || plain is None ==> m is None
            &&& pk == x25519_public_key(sk) && plain is Some ==> {
                let read = dm_payload_decoding(plain->0);
                &&& read is Some ==> {
                    let (body, reply_to, id) = read->0;
                    &&& m is Some
                    &&& m->0.body == body
                    &&& m->0.reply_to == reply_to
                    &&& id.len() > 0 ==> m->0.id == id
                    &&& id.len() == 0 ==> m->0.id == e.message_id
                }
                &&& read is None && valid_utf8(plain->0) ==> {
                    &&& m is Some
                    &&& m->0.body == decode_utf8(plain->0)
                    &&& m->0.reply_to is None
                    &&& m->0.id == e.message_id
                }
                &&& read is None && !valid_utf8(plain->0) ==> m is None
            }
            &&& m is Some ==> {
                &&& m->0.peer_id == e.author_id
                &&& m->0.author_id == e.author_id
                &&& has_dm(conversation(s, e.author_id), m->0.id) ==> dm_received(s, m) == s
                    && dm_received_effects(s, m).len() == 0
                &&& !has_dm(conversation(s, e.author_id), m->0.id) ==> conversation(
                    dm_received(s, m),
                    e.author_id,
                ) == conversation(s, e.author_id).push(m->0)
            }
        }),
{
}

/// A walk goes on while there is somebody to ask, one round at a time; with nobody left
/// it is over.
pub proof fn walks_take_their_rounds(w: WalkView)
    ensures
        w.rounds_left > 0 && w.batch().len() > 0 ==> w.asking().rounds_left == w.rounds_left - 1,
        w.rounds_left > 0 && w.batch().len() == 0 ==> w.asking().rounds_left == 0,
        w.rounds_left == 0 ==> w.asking() == w && w.batch().len() == 0,
        w.round_ended().rounds_left == w.rounds_left,
        w.asking().target == w.target,
        w.round_ended().target == w.target,
{
}

/// A certificate is accepted exactly when the community's key signed it and it has not
/// expired.
pub proof fn certificates_are_checked(cert: HostingCert, pk: Seq<u8>, now: u64)
    ensures
        cert.verdict(pk, now) is Ok <==> pk == cert.community_pk@ && ed25519_accepts(
            pk,
            cert.message(),
            cert.signature@,
        ) && now <= cert.expires_at,
{
}

/// Counts are reported as they are, as far as they fit.
pub proof fn counts_are_exact(n: nat)
    ensures
        n <= u64::MAX ==> capped(n) == n,
        n > u64::MAX ==> capped(n) == u64::MAX,
{
}

/// A broadcast that delivers a key replaces the one at hand, which is kept as the one
/// before; the missing history is then asked for from a connected peer.
pub proof fn broadcast_keys_are_taken(
    s: AppStateView,
    m: ChannelManifestView,
    last_seqs: Option<Map<Seq<char>, u64>>,
    k: Seq<u8>,
)
    requires
        s.communities.contains_key(m.community_id.name()),
        delivered_key(s, m) == Some(k),
    ensures
        ({
            let c = m.community_id.name();
            let ch = m.id.name();
            let t = broadcast_applied(s, m);
            let fx = broadcast_effects(s, m, last_seqs);
            &&& t.channels == s.channels.insert(ch, m)
            &&& t.channel_keys == s.channel_keys.insert(ch, k)
            &&& s.channel_keys.contains_key(ch) && s.channel_keys[ch] != k
                ==> t.previous_channel_keys == s.previous_channel_keys.insert(
                ch,
                s.channel_keys[ch],
            ) && fx.contains(EffectView::Save(TableFile::PreviousChannelKeys))
            &&& !s.channel_keys.contains_key(ch) || s.channel_keys[ch] == k
                ==> t.previous_channel_keys == s.previous_channel_keys
            &&& fx.contains(EffectView::Save(TableFile::Channels))
            &&& fx.contains(EffectView::Save(TableFile::ChannelKeys))
            &&& sync_peer(s, c) matches Some(peer) ==> fx.contains(
                fetch_history(
                    peer,
                    c,
                    s.communities[c].manifest.public_key,
                    ch,
                    resume_point(s, last_seqs, ch),
                ),
            )
            &&& peers_of(s, c).len() > 0 ==> sync_peer(s, c) is Some
        }),
{
    let ch = m.id.name();
    let c = m.community_id.name();
    let fx = broadcast_effects(s, m, last_seqs);
    assert(fx.contains(fx[0]));
    let at: int = if s.channel_keys.contains_key(ch) && s.channel_keys[ch] != k {
        assert(fx.contains(fx[1]));
        2
    } else {
        1
    };
    assert(fx[at] == EffectView::Save(TableFile::ChannelKeys));
    if sync_peer(s, c) is Some {
        assert(fx.contains(fx[at + 2]));
    }
}

} // verus!
