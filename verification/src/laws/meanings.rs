//! What the words of the other laws stand for, down to the fields of the state.

use crate::api::dialing::{seed_dial, OwnAddressesView};
use crate::api::effects::{EffectView, StoreUpdateView};
use crate::api::event_processor::channel_handler::{
    content_under, history_effects, key_of, merged, received_effects, sync_push, verdict,
};
use crate::api::event_processor::community_handler::{fetch_history, gone_push, hosting_password};
use crate::api::event_processor::dm_handler::has_dm;
use crate::api::event_processor::manifest_handler::{can_complete, is_own, lacks_key};
use crate::api::event_processor::member_handler::needs_wrap;
use crate::api::event_processor::peer::{fetch_mailbox, has_peer, owned, publish, seed_push};
use crate::api::push_broadcaster::{
    CommunityEventDataView, DmEventDataView, MemberEventDataView, MemberRoleUpdatedDataView,
    PresenceChangedDataView, PushEventView, SeedStatusDataView, SyncProgressDataView,
};
use crate::api::rpc_server::channel::{create_refusal, good_name};
use crate::api::rpc_server::community::{
    creation_refusal, own_record, peers_of, update_refusal, updated_push,
};
use crate::api::rpc_server::dm::{conversation, dm_push, member_has_key};
use crate::api::rpc_server::member::{member_left_push, presence_push, role_push};
use crate::api::rpc_server::message::{
    deletion_refusal, edit_refusal, keys_of, reaction_refusal, send_refusal, sent_effects,
};
use crate::api::rpc_server::seed_check;
use crate::api::startup::has_history;
use crate::api::types::{DmMessageInfoView, PeerSummaryView};
use crate::api::{
    community_topic, fetch_manifest, is_record_of, not_a_member, subscribe, unsubscribe,
    AppStateView,
};
use crate::crypto::primitives::{
    ed25519_accepts, ed25519_public_key, ed25519_signature, x25519_public_key, xchacha_opened,
};
use crate::identity::{peer_id_of, x25519_secret_of};
use crate::model::channel::{has_member_key, ChannelManifestView};
use crate::model::community::{CommunityManifestView, SignedManifestView};
use crate::model::membership::{membership_message, MembershipRecordView, Role};
use crate::model::message::{decoded_content, RawMessageView};
use crate::model::network_event::NetworkEventView;
use crate::model::types::{ulid_parse, CommunityId, UserId};
use crate::network::mdns::{lan_address, virtual_name, LanInterfaceView};
use crate::network::network_handle::command::LinksView;
use crate::network::network_handle::gossip::{
    after_command, command_actions, command_events, LinkActionView,
};
use crate::network::network_handle::types::{
    CommunityRefView, NetworkCommand, NetworkCommandView, NetworkEventView as SwarmEventView,
};
use crate::network::node_addr::{Ip, NodeAddr};
use crate::node::store::{updated, CommunityMetaView};
use crate::state::message_log::LogEntryView;
use crate::text::{begins_with, lowercase_text, occurs_in};
use crate::time::Timestamp;
use vstd::prelude::*;

verus! {

/// Commands to the network say what they are called.
pub proof fn commands_mean_what_they_say(
    topic: Seq<char>,
    peer: Seq<char>,
    c: Seq<char>,
    pk: Seq<u8>,
    ch: Seq<char>,
    since: u64,
    addr: NodeAddr,
    password: Option<Seq<char>>,
    fp: Seq<u8>,
    e: NetworkEventView,
)
    ensures
        subscribe(topic) == EffectView::Command(NetworkCommandView::Subscribe(topic)),
        unsubscribe(topic) == EffectView::Command(NetworkCommandView::Unsubscribe(topic)),
        fetch_manifest(peer, c, pk) == EffectView::Command(
            NetworkCommandView::FetchManifest { peer_id: peer, community_id: c, community_pk: pk },
        ),
        fetch_history(peer, c, pk, ch, since) == EffectView::Command(
            NetworkCommandView::FetchChannelHistory {
                peer_id: peer,
                community_id: c,
                community_pk: pk,
                channel_id: ch,
                since_seq: since,
            },
        ),
        fetch_mailbox(peer) == EffectView::Command(
            NetworkCommandView::FetchMailbox { peer_id: peer },
        ),
        seed_dial(addr, pk, c, password, fp) == EffectView::Command(
            NetworkCommandView::Dial {
                addr,
                is_seed: true,
                join_community: Some(CommunityRefView { pk, id: c }),
                join_community_password: password,
                cert_fingerprint: fp,
            },
        ),
        publish(c, e) == (EffectView::Publish { topic: community_topic(c), event: e }),
{
}

/// What clients are told says what it is called.
pub proof fn pushes_mean_what_they_say(
    c: Seq<char>,
    u: Seq<char>,
    name: Seq<char>,
    ch: Seq<char>,
    version: u64,
    role: Role,
    now: Timestamp,
    m: DmMessageInfoView,
    on: bool,
)
    ensures
        updated_push(c, version) == EffectView::Push(
            PushEventView::CommunityManifestUpdated(
                CommunityEventDataView { community_id: c, version, reason: Seq::empty() },
            ),
        ),
        gone_push(c, version, name) == EffectView::Push(
            PushEventView::CommunityDeleted(
                CommunityEventDataView { community_id: c, version, reason: name },
            ),
        ),
        dm_push(m) == EffectView::Push(PushEventView::DmNew(DmEventDataView { message: m })),
        member_left_push(c, u, name) == EffectView::Push(
            PushEventView::MemberLeft(
                MemberEventDataView { user_id: u, community_id: c, display_name: name },
            ),
        ),
        presence_push(u, name, now) == EffectView::Push(
            PushEventView::PresenceChanged(
                PresenceChangedDataView { user_id: u, status: name, last_seen: now },
            ),
        ),
        seed_push(c, on) == EffectView::Push(
            PushEventView::SeedStatusChanged(
                SeedStatusDataView { community_id: c, connected: on },
            ),
        ),
        sync_push(ch, on) == EffectView::Push(
            PushEventView::SyncProgress(SyncProgressDataView { channel_id: ch, complete: on }),
        ),
        role_push(c, u, role) == EffectView::Push(
            PushEventView::MemberRoleUpdated(
                MemberRoleUpdatedDataView {
                    user_id: u,
                    community_id: c,
                    new_role: match role {
                        Role::Admin => "admin"@,
                        Role::Moderator => "moderator"@,
                        Role::Member => "member"@,
                    },
                },
            ),
        ),
{
}

/// Who is known: a user is known exactly when some community has a record of
/// theirs.
pub proof fn known_users_have_records(s: AppStateView, user: Seq<char>, c: Seq<char>, u: Seq<char>)
    ensures
        s.members.contains_key(c) && s.members[c].contains_key(u) && s.members[c][u].user_id.name()
            == user ==> is_record_of(s, user, s.members[c][u]) && !not_a_member(s, user)
            && member_has_key(s, user, s.members[c][u].x25519_public_key),
        (forall|d: Seq<char>, v: Seq<char>|
            #![trigger s.members[d][v]]
            s.members.contains_key(d) && s.members[d].contains_key(v)
                ==> s.members[d][v].user_id.name() != user) ==> not_a_member(s, user),
{
    if s.members.contains_key(c) && s.members[c].contains_key(u) && s.members[c][u].user_id.name()
        == user {
        let m = s.members[c][u];
        assert(is_record_of(s, user, m));
    }
}

/// A record of a user is one that some community has of them.
pub proof fn records_are_on_file(s: AppStateView, user: Seq<char>, m: MembershipRecordView)
    requires
        is_record_of(s, user, m),
    ensures
        m.user_id.name() == user,
        exists|c: Seq<char>, u: Seq<char>|
            #![trigger s.members[c][u]]
            s.members.contains_key(c) && s.members[c].contains_key(u) && s.members[c][u] == m,
{
}

/// A conversation holds a message exactly when one of its messages has the id; a
/// list of peers names one exactly when an entry does; a channel has a key for a
/// member exactly when an entry is theirs.
pub proof fn lists_hold_what_they_list(
    dms: Seq<DmMessageInfoView>,
    peers: Seq<PeerSummaryView>,
    keys: Seq<(UserId, Seq<u8>)>,
    id: Seq<char>,
    user: UserId,
)
    ensures
        has_dm(dms, id) <==> exists|i: int| 0 <= i < dms.len() && (#[trigger] dms[i]).id == id,
        has_peer(peers, id) <==> exists|i: int|
            0 <= i < peers.len() && (#[trigger] peers[i]).peer_id == id,
        has_member_key(keys, user) <==> exists|i: int|
            0 <= i < keys.len() && (#[trigger] keys[i]).0 == user,
{
}

/// What is at hand: the peers, the conversation, the password and the keys are those
/// that the state files under the name.
pub proof fn tables_are_looked_up(s: AppStateView, c: Seq<char>)
    ensures
        s.connected_peers.contains_key(c) ==> peers_of(s, c) == s.connected_peers[c],
        !s.connected_peers.contains_key(c) ==> peers_of(s, c).len() == 0,
        s.dms.contains_key(c) ==> conversation(s, c) == s.dms[c],
        !s.dms.contains_key(c) ==> conversation(s, c).len() == 0,
        s.hosting_passwords.contains_key(c) ==> hosting_password(s, c) == Some(
            s.hosting_passwords[c],
        ),
        !s.hosting_passwords.contains_key(c) ==> hosting_password(s, c) is None,
        s.channel_keys.contains_key(c) ==> keys_of(s, c).0 == Some(s.channel_keys[c]) && key_of(
            s,
            c,
        ) == Some(s.channel_keys[c]),
        !s.channel_keys.contains_key(c) ==> keys_of(s, c).0 is None,
        s.previous_channel_keys.contains_key(c) ==> keys_of(s, c).1 == Some(
            s.previous_channel_keys[c],
        ),
        !s.previous_channel_keys.contains_key(c) ==> keys_of(s, c).1 is None,
        s.members.contains_key(c) ==> s.member_list(c) == s.members[c],
        !s.members.contains_key(c) ==> s.member_list(c) == Map::<
            Seq<char>,
            MembershipRecordView,
        >::empty(),
        s.message_log.channels.contains_key(c) ==> s.message_log.entries(c)
            == s.message_log.channels[c],
        !s.message_log.channels.contains_key(c) ==> s.message_log.entries(c).len() == 0,
        s.message_log.reactions.contains_key(c) ==> s.message_log.reactions_of(c)
            == s.message_log.reactions[c],
        !s.message_log.reactions.contains_key(c) ==> s.message_log.reactions_of(c).len() == 0,
        s.me() == s.local.user_id.name(),
{
}

/// What a ciphertext says is what the key opens it to, decoded.
pub proof fn contents_are_opened_and_decoded(k: Seq<u8>, nonce: Seq<u8>, x: Seq<u8>)
    ensures
        xchacha_opened(k, nonce, x) matches Some(plain) ==> content_under(Some(k), nonce, x)
            == decoded_content(plain),
        xchacha_opened(k, nonce, x) is None ==> content_under(Some(k), nonce, x) is None,
        content_under(None, nonce, x) is None,
{
}

/// Whose community it is, whose key is missing, and where a key is to be wrapped.
pub proof fn ownership_and_gaps(
    s: AppStateView,
    m: SignedManifestView,
    channels: Map<Seq<char>, ChannelManifestView>,
    keys: Map<Seq<char>, Seq<u8>>,
    names: Seq<Seq<char>>,
    c: Seq<char>,
    user: UserId,
)
    ensures
        is_own(s, m) <==> m.manifest.public_key == ed25519_public_key(s.local.key),
        owned(s, m) <==> m.manifest.public_key == ed25519_public_key(s.local.key),
        can_complete(channels, keys, c) <==> keys.contains_key(c) && channels.contains_key(c),
        needs_wrap(channels, keys, c, user) <==> keys.contains_key(c) && channels.contains_key(c)
            && !has_member_key(channels[c].encrypted_channel_key, user),
        lacks_key(keys, names) <==> exists|i: int|
            0 <= i < names.len() && !keys.contains_key(#[trigger] names[i]),
{
}

/// Whose history comes back at start: that of every channel of a known community.
pub proof fn known_channels_have_history(
    s: AppStateView,
    c: Seq<char>,
    history: Map<Seq<char>, Seq<LogEntryView>>,
)
    ensures
        has_history(s, c, history) <==> ulid_parse(c) is Some && s.channels.contains_key(c)
            && s.communities.contains_key(s.channels[c].community_id.name())
            && history.contains_key(c),
{
}

/// An address points back at a node exactly when it is one of the machine's own, with
/// the node's port, or an address that it listens on, or its public one.
pub proof fn own_addresses_are_exact(o: OwnAddressesView, name: Seq<char>, a: NodeAddr)
    ensures
        o.is_self(name, a) <==> ((a.ip == Ip::V4(0x7f00_0001) || a.ip == Ip::V6(1)
            || o.ips.contains(a.ip)) && a.port == o.port) || o.listen.contains(a) || o.public_addr
            == Some(name),
{
}

/// Requests are refused where they must be: names that are too short or too long,
/// empty texts, and communities that cannot be reached or channels without a key.
pub proof fn unsound_requests_are_refused(
    s: AppStateView,
    c: Seq<char>,
    ch: Seq<char>,
    id: Seq<char>,
    name: Seq<char>,
    seeds: Seq<Seq<char>>,
    fp: Option<Seq<char>>,
)
    ensures
        good_name(name) <==> 1 <= vstd::utf8::encode_utf8(name).len() <= 100,
        !good_name(name) ==> create_refusal(s, c, name) is Some && creation_refusal(
            s,
            name,
            seeds,
            fp,
        ) is Some && update_refusal(s, c, Some(name), None, None, None) is Some,
        vstd::utf8::encode_utf8(name).len() > 500 ==> update_refusal(
            s,
            c,
            None,
            Some(name),
            None,
            None,
        ) is Some,
        name.len() == 0 ==> send_refusal(s, c, ch, name) is Some && edit_refusal(
            s,
            c,
            ch,
            id,
            name,
        ) is Some,
        seed_check(s, c) is Err ==> send_refusal(s, c, ch, name) is Some && edit_refusal(
            s,
            c,
            ch,
            id,
            name,
        ) is Some && deletion_refusal(s, c, ch, id) is Some && reaction_refusal(
            s,
            c,
            ch,
            id,
        ) is Some,
        !s.channel_keys.contains_key(ch) ==> send_refusal(s, c, ch, name) is Some && edit_refusal(
            s,
            c,
            ch,
            id,
            name,
        ) is Some && reaction_refusal(s, c, ch, id) is Some,
        s.message_log.entry(ch, id) is None ==> edit_refusal(s, c, ch, id, name) is Some
            && deletion_refusal(s, c, ch, id) is Some && reaction_refusal(s, c, ch, id) is Some,
        seed_check(s, c) is Ok && s.channel_keys.contains_key(ch) && s.message_log.entry(
            ch,
            id,
        ) is Some ==> reaction_refusal(s, c, ch, id) is None,
{
}

/// A record that the local user makes of itself is one that everybody accepts who has
/// not banned them.
pub proof fn own_records_are_accepted(
    s: AppStateView,
    t: AppStateView,
    community: CommunityId,
    name: Seq<char>,
    role: Role,
    now: Timestamp,
)
    requires
        s.local.user_id.0@ == peer_id_of(s.local.key),
        ({
            let msg = membership_message(s.local.user_id, community, name, now, seq![role]);
            let sig = ed25519_signature(s.local.key, msg);
            sig.len() == 64 && ed25519_accepts(ed25519_public_key(s.local.key), msg, sig)
        }),
        !crate::api::rpc_server::member::ban_list(t, community.name()).contains(s.me()),
    ensures
        crate::api::event_processor::member_handler::join_accepted(
            t,
            own_record(s, community, name, role, now),
        ),
        own_record(s, community, name, role, now).x25519_public_key == x25519_public_key(
            x25519_secret_of(s.local.key),
        ),
        own_record(s, community, name, role, now).display_name == name,
        own_record(s, community, name, role, now).roles == seq![role],
{
}

/// Signing a manifest signs all of it and changes nothing.
pub proof fn signing_changes_nothing(m: CommunityManifestView, sk: Seq<u8>)
    ensures
        m.signed_with(sk).manifest == m,
        m.signed_with(sk).signature == ed25519_signature(sk, m.canonical()),
{
}

/// A message that is stored or sent is copied to the hosting store, where the
/// community is known.
pub proof fn messages_are_copied_to_the_store(
    s: AppStateView,
    c: Seq<char>,
    ch: Seq<char>,
    m: RawMessageView,
)
    ensures
        verdict(s, m) is Stored && s.communities.contains_key(
            s.channels[m.channel_id.name()].community_id.name(),
        ) ==> received_effects(s, m).contains(
            EffectView::Store(
                StoreUpdateView::AppendMessage {
                    community_id: s.channels[m.channel_id.name()].community_id.name(),
                    channel_id: m.channel_id.name(),
                    message_id: m.id.name(),
                },
            ),
        ),
        sent_effects(s, c, ch, m).contains(
            EffectView::Store(
                StoreUpdateView::AppendMessage {
                    community_id: c,
                    channel_id: ch,
                    message_id: m.id.name(),
                },
            ),
        ),
{
    let a = received_effects(s, m);
    let b = sent_effects(s, c, ch, m);
    assert(b.contains(b[0]));
    if a.len() > 0 {
        assert(a.contains(a[0]));
    }
}

/// Every entry of a history that the log lacked is copied to the hosting store.
pub proof fn histories_are_copied_to_the_store(
    s: AppStateView,
    c: Seq<char>,
    ch: Seq<char>,
    entries: Seq<LogEntryView>,
    i: int,
)
    requires
        0 <= i < entries.len(),
        ulid_parse(ch) is Some,
        s.communities.contains_key(c),
        s.message_log.entry(ch, entries[i].message_id) is None,
        forall|j: int|
            0 <= j < i ==> (#[trigger] entries[j]).message_id != entries[i].message_id,
    ensures
        history_effects(s, c, ch, entries).contains(
            EffectView::Store(
                StoreUpdateView::AppendMessage {
                    community_id: c,
                    channel_id: ch,
                    message_id: entries[i].message_id,
                },
            ),
        ),
{
    copied(s, c, ch, key_of(s, ch), entries, i);
    let stores = crate::api::event_processor::channel_handler::merged_effects(
        s,
        c,
        ch,
        key_of(s, ch),
        entries,
    );
    let x = EffectView::Store(
        StoreUpdateView::AppendMessage {
            community_id: c,
            channel_id: ch,
            message_id: entries[i].message_id,
        },
    );
    assert(history_effects(s, c, ch, entries)[stores.index_of(x)] == x);
}

proof fn copied(
    s: AppStateView,
    c: Seq<char>,
    ch: Seq<char>,
    key: Option<Seq<u8>>,
    entries: Seq<LogEntryView>,
    i: int,
)
    requires
        0 <= i < entries.len(),
        s.communities.contains_key(c),
        s.message_log.entry(ch, entries[i].message_id) is None,
        forall|j: int|
            0 <= j < i ==> (#[trigger] entries[j]).message_id != entries[i].message_id,
    ensures
        crate::api::event_processor::channel_handler::merged_effects(
            s,
            c,
            ch,
            key,
            entries,
        ).contains(
            EffectView::Store(
                StoreUpdateView::AppendMessage {
                    community_id: c,
                    channel_id: ch,
                    message_id: entries[i].message_id,
                },
            ),
        ),
    decreases entries.len(),
{
    let short = entries.drop_last();
    let head = crate::api::event_processor::channel_handler::merged_effects(s, c, ch, key, short);
    let all = crate::api::event_processor::channel_handler::merged_effects(s, c, ch, key, entries);
    let x = EffectView::Store(
        StoreUpdateView::AppendMessage {
            community_id: c,
            channel_id: ch,
            message_id: entries[i].message_id,
        },
    );
    if i < short.len() {
        assert(short[i] == entries[i]);
        assert forall|j: int| 0 <= j < i implies (#[trigger] short[j]).message_id
            != short[i].message_id by {
            assert(entries[j].message_id != entries[i].message_id);
        }
        copied(s, c, ch, key, short, i);
        assert(all[head.index_of(x)] == x);
    } else {
        crate::laws::reactions::merging_adds_the_named_ids(
            s.message_log,
            ch,
            key,
            short,
            entries[i].message_id,
        );
        if merged(s.message_log, ch, key, short).entry(ch, entries[i].message_id) is Some {
            let j = choose|j: int|
                0 <= j < short.len() && (#[trigger] short[j]).message_id == entries[i].message_id;
            assert(entries[j].message_id != entries[i].message_id);
        }
        assert(all[head.len() as int] == x);
    }
}

/// The record of a community that this node created holds its manifest, its creator
/// and a certificate that the creator issued to this node; a member who joins a
/// community without a record makes one.
pub proof fn hosting_records_are_opened(
    s: AppStateView,
    c: Seq<char>,
    u: Seq<char>,
    before: Option<CommunityMetaView>,
    after: Option<CommunityMetaView>,
)
    requires
        s.communities.contains_key(c),
    ensures
        updated(s, StoreUpdateView::CreateCommunity { community_id: c }, before, after)
            && s.member_list(c).contains_key(s.me()) ==> (after matches Some(m) && m.manifest
            == Some(s.communities[c]) && m.channels.len() == 0 && m.members.contains_key(s.me())
            && m.members[s.me()] == s.member_list(c)[s.me()] && m.cert.community_pk@
            == ed25519_public_key(s.local.key) && m.cert.node_pk@ == ed25519_public_key(
            s.local.key,
        ) && m.cert.signature@ == ed25519_signature(s.local.key, m.cert.message())
            && m.cert.expires_at == u64::MAX),
        updated(s, StoreUpdateView::SyncMember { community_id: c, user_id: u }, None, after)
            && s.member_list(c).contains_key(u) ==> (after matches Some(m) && m.manifest == Some(
            s.communities[c],
        ) && m.members.contains_key(u) && m.members[u] == s.member_list(c)[u]
            && m.cert.community_pk@ == s.communities[c].manifest.public_key && m.cert.node_pk@
            == ed25519_public_key(s.local.key)),
{
}

/// An interface serves the local network exactly when it has a private IPv4 address
/// and is neither a loopback nor a virtual one.
pub proof fn serving_interfaces(i: LanInterfaceView, v: u32)
    ensures
        lan_address(i) == Some(v) <==> i.ip == Ip::V4(v) && !i.is_loopback
            && crate::network::node_addr::v4_private(v) && !virtual_name(lowercase_text(i.name)),
        begins_with(i.name, "tun"@) || begins_with(i.name, "tap"@) || begins_with(i.name, "wg"@)
            || begins_with(i.name, "docker"@) || begins_with(i.name, "veth"@) || begins_with(
            i.name,
            "virbr"@,
        ) || begins_with(i.name, "br-"@) || begins_with(i.name, "utun"@) || begins_with(
            i.name,
            "fct"@,
        ) || occurs_in("vpn"@, i.name) || occurs_in("nordlynx"@, i.name) || occurs_in(
            "vethernet"@,
            i.name,
        ) || occurs_in("default switch"@, i.name) <==> virtual_name(i.name),
{
}

/// Every other peer that the routing table names is tried; a new listen address is
/// noted and reported; a joined community is reported; nothing else changes the
/// connections.
pub proof fn commands_are_carried_out(l: LinksView, own_pk: Seq<u8>, cmd: NetworkCommand, i: int)
    ensures
        cmd matches NetworkCommand::DiscoverAndDial { peers, community_pk, community_id } ==> 0 <= i
            < peers@.len() && peers@[i].0@ != own_pk ==> command_actions(l, own_pk, cmd).contains(
            LinkActionView::Discover {
                addr: peers@[i].1,
                community: CommunityRefView { pk: community_pk@, id: community_id@ },
            },
        ),
        cmd matches NetworkCommand::AddListenAddr(a) ==> after_command(
            l,
            cmd,
        ).own_addrs.contains(a@) && command_events(l, cmd).contains(
            SwarmEventView::NewListenAddr(a@),
        ),
        cmd matches NetworkCommand::NotifyCommunityJoined(c) ==> command_events(l, cmd).contains(
            SwarmEventView::CommunityJoined(c.deep_view()),
        ),
        !(cmd is AddListenAddr) ==> after_command(l, cmd) == l,
        after_command(l, cmd).peers == l.peers,
        after_command(l, cmd).by_user == l.by_user,
        after_command(l, cmd).seeds == l.seeds,
{
    match cmd {
        NetworkCommand::DiscoverAndDial { peers, community_pk, community_id } => {
            if 0 <= i < peers@.len() && peers@[i].0@ != own_pk {
                crate::network::network_handle::command::own_key_is_never_dialled(peers@, own_pk);
                let list = crate::network::network_handle::command::others(peers@, own_pk);
                let a = peers@[i].1;
                assert(list.contains(a));
                let k = list.index_of(a);
                assert(command_actions(l, own_pk, cmd)[k] == LinkActionView::Discover {
                    addr: a,
                    community: CommunityRefView { pk: community_pk@, id: community_id@ },
                });
            }
        },
        NetworkCommand::AddListenAddr(a) => {
            let t = after_command(l, cmd).own_addrs;
            if !l.own_addrs.contains(a@) {
                assert(t[l.own_addrs.len() as int] == a@);
            }
            let e = command_events(l, cmd);
            assert(e.contains(e[0]));
        },
        NetworkCommand::NotifyCommunityJoined(c) => {
            let e = command_events(l, cmd);
            assert(e.contains(e[0]));
        },
        _ => {},
    }
}

} // verus!
