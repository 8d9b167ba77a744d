//! The node itself: its name, its settings and its addresses.

use crate::api::effects::EffectView;
use crate::api::event_processor::addr::{expanded, on_interfaces, routable, with_port, InterfaceView};
use crate::api::event_processor::is_list_of_firsts;
use crate::api::event_processor::one_more_first;
use crate::api::rpc_server::identity::{
    good_display_name, identity_info, joined_status_name, rename_effects, renamed_everywhere,
};
use crate::api::rpc_server::node::{all_peers, config_dto, updated_config};
use crate::api::rpc_server::RpcError;
use crate::api::types::{PeerSummaryView, SetConfigParams, UserStatus};
use crate::api::{community_topic, AppStateView};
use crate::config::bootstrap::{candidates, first_occurrences, resolved_addrs, BOOTSTRAP_NODE};
use crate::config::{default_config, NodeConfigView, NodeMode};
use crate::model::membership::MembershipRecordView;
use crate::model::network_event::NetworkEventView;
use crate::network::node_addr::{Ip, NodeAddr};
use crate::network::peer_manager::{clamped, newcomer};
use crate::table::{entry_in_map, has_key, lists, position};
use crate::text::{begins_with, decimal, hex};
use crate::time::{Timestamp, CALENDAR_FIRST, CALENDAR_LAST};
use vstd::prelude::*;

verus! {

/// A new display name goes to the local user's record in every community, and to
/// nobody else's; nothing else about the record changes.
pub proof fn renaming_touches_the_own_records(
    members: Map<Seq<char>, Map<Seq<char>, MembershipRecordView>>,
    me: Seq<char>,
    name: Seq<char>,
    c: Seq<char>,
    u: Seq<char>,
)
    ensures
        ({
            let t = renamed_everywhere(members, me, name);
            &&& t.contains_key(c) == members.contains_key(c)
            &&& members.contains_key(c) ==> t[c].contains_key(u) == members[c].contains_key(u)
            &&& members.contains_key(c) && members[c].contains_key(me) ==> {
                &&& t[c][me].display_name == name
                &&& t[c][me] == (MembershipRecordView { display_name: name, ..members[c][me] })
            }
            &&& members.contains_key(c) && members[c].contains_key(u) && u != me ==> t[c][u]
                == members[c][u]
        }),
{
}

/// Every community of which the local user is a member hears of the new name.
pub proof fn renaming_is_announced_everywhere(
    order: Seq<(Seq<char>, Map<Seq<char>, MembershipRecordView>)>,
    members: Map<Seq<char>, Map<Seq<char>, MembershipRecordView>>,
    me: Seq<char>,
    name: Seq<char>,
    c: Seq<char>,
)
    requires
        lists(order, members),
        members.contains_key(c),
        members[c].contains_key(me),
    ensures
        rename_effects(order, me, name).contains(
            EffectView::Publish {
                topic: community_topic(c),
                event: NetworkEventView::MemberJoined(
                    MembershipRecordView { display_name: name, ..members[c][me] },
                ),
            },
        ),
{
    assert(has_key(order, c));
    let i = position(order, c);
    entry_in_map(order, i);
    announced_at(order, me, name, i);
}

proof fn announced_at(
    order: Seq<(Seq<char>, Map<Seq<char>, MembershipRecordView>)>,
    me: Seq<char>,
    name: Seq<char>,
    i: int,
)
    requires
        0 <= i < order.len(),
        order[i].1.contains_key(me),
    ensures
        rename_effects(order, me, name).contains(
            EffectView::Publish {
                topic: community_topic(order[i].0),
                event: NetworkEventView::MemberJoined(
                    MembershipRecordView { display_name: name, ..order[i].1[me] },
                ),
            },
        ),
    decreases order.len(),
{
    let short = order.drop_last();
    let head = rename_effects(short, me, name);
    let all = rename_effects(order, me, name);
    let x = EffectView::Publish {
        topic: community_topic(order[i].0),
        event: NetworkEventView::MemberJoined(
            MembershipRecordView { display_name: name, ..order[i].1[me] },
        ),
    };
    if i < short.len() {
        assert(short[i] == order[i]);
        announced_at(short, me, name, i);
        assert(all[head.index_of(x)] == x);
    } else {
        assert(all[all.len() - 1] == x);
    }
}

/// A display name has between 1 and 64 bytes.
pub proof fn display_names_have_bounds(name: Seq<char>)
    ensures
        good_display_name(name) <==> 1 <= vstd::utf8::encode_utf8(name).len() <= 64,
{
}

/// The local user is shown with their own id, name, status and key.
pub proof fn identities_are_shown(s: AppStateView)
    ensures
        ({
            let i = identity_info(s);
            &&& i.peer_id == s.local.user_id.name()
            &&& i.display_name == s.identity_state.display_name
            &&& i.status == s.identity_state.status
            &&& i.public_key_hex == hex(
                crate::crypto::primitives::ed25519_public_key(s.local.key),
            )
            &&& i.public_addr == s.public_addr
            &&& i.tls_fingerprint_hex == s.local_tls_fingerprint_hex
        }),
{
}

/// Different statuses have different texts.
pub proof fn statuses_tell_apart(a: UserStatus, b: UserStatus)
    ensures
        joined_status_name(a) == joined_status_name(b) ==> a == b,
{
    reveal_strlit("online");
    reveal_strlit("idle");
    reveal_strlit("donotdisturb");
    reveal_strlit("invisible");
    reveal_strlit("offline");
    assert("online"@.len() == 6);
    assert("idle"@.len() == 4);
    assert("donotdisturb"@.len() == 12);
    assert("invisible"@.len() == 9);
    assert("offline"@.len() == 7);
}

/// A setting that is named takes the new value, and one that is not named keeps
/// its own; paths, seeds, port, names and passwords are not settings.
pub proof fn settings_change_when_named(c: NodeConfigView, p: SetConfigParams)
    ensures
        ({
            let t = updated_config(c, p);
            &&& p.max_connections is Some ==> t.max_connections == p.max_connections->0
            &&& p.max_connections is None ==> t.max_connections == c.max_connections
            &&& p.storage_limit_mb is Some ==> t.storage_limit_mb == p.storage_limit_mb->0
            &&& p.storage_limit_mb is None ==> t.storage_limit_mb == c.storage_limit_mb
            &&& p.bandwidth_limit_kbps is Some ==> t.bandwidth_limit_kbps
                == p.bandwidth_limit_kbps->0
            &&& p.bandwidth_limit_kbps is None ==> t.bandwidth_limit_kbps == c.bandwidth_limit_kbps
            &&& p.node_mode is Some ==> t.node_mode == p.node_mode->0
            &&& p.node_mode is None ==> t.node_mode == c.node_mode
            &&& p.seed_priority is Some ==> t.seed_priority == p.seed_priority->0
            &&& p.seed_priority is None ==> t.seed_priority == c.seed_priority
            &&& p.log_level.deep_view() is Some ==> t.log_level == p.log_level.deep_view()->0
            &&& p.log_level.deep_view() is None ==> t.log_level == c.log_level
            &&& p.listen_addrs.deep_view() is Some ==> t.listen_addrs
                == p.listen_addrs.deep_view()->0
            &&& p.listen_addrs.deep_view() is None ==> t.listen_addrs == c.listen_addrs
            &&& p.preferred_mailbox_node.deep_view() is Some ==> t.preferred_mailbox_node
                == p.preferred_mailbox_node.deep_view()->0
            &&& p.preferred_mailbox_node.deep_view() is None ==> t.preferred_mailbox_node
                == c.preferred_mailbox_node
            &&& t.identity_path == c.identity_path
            &&& t.data_dir == c.data_dir
            &&& t.seed_nodes == c.seed_nodes
            &&& t.quic_port == c.quic_port
            &&& t.display_name == c.display_name
            &&& t.join_password == c.join_password
            &&& t.save_passphrase == c.save_passphrase
        }),
{
}

/// What is set is what is shown.
pub proof fn settings_are_shown(c: NodeConfigView)
    ensures
        ({
            let d = config_dto(c);
            &&& d.listen_addrs == c.listen_addrs
            &&& d.max_connections == c.max_connections
            &&& d.storage_limit_mb == c.storage_limit_mb
            &&& d.bandwidth_limit_kbps == c.bandwidth_limit_kbps
            &&& d.node_mode == c.node_mode
            &&& d.seed_priority == c.seed_priority
            &&& d.log_level == c.log_level
            &&& d.preferred_mailbox_node == c.preferred_mailbox_node
        }),
{
}

/// The list of peers holds every peer of every listed community, and nobody else.
pub proof fn every_peer_is_shown(order: Seq<(Seq<char>, Seq<PeerSummaryView>)>, p: PeerSummaryView)
    ensures
        all_peers(order).contains(p) <==> exists|i: int|
            0 <= i < order.len() && (#[trigger] order[i]).1.contains(p),
    decreases order.len(),
{
    if order.len() > 0 {
        let short = order.drop_last();
        every_peer_is_shown(short, p);
        let head = all_peers(short);
        let last = order.last().1;
        let all = all_peers(order);
        assert(all.contains(p) <==> head.contains(p) || last.contains(p)) by {
            if head.contains(p) {
                assert(all[head.index_of(p)] == p);
            }
            if last.contains(p) {
                assert(all[head.len() + last.index_of(p)] == p);
            }
            if all.contains(p) {
                let j = all.index_of(p);
                if j < head.len() {
                    assert(head[j] == p);
                } else {
                    assert(last[j - head.len()] == p);
                }
            }
        }
        if exists|i: int| 0 <= i < short.len() && (#[trigger] short[i]).1.contains(p) {
            let i = choose|i: int| 0 <= i < short.len() && (#[trigger] short[i]).1.contains(p);
            assert(order[i].1.contains(p));
        }
        if exists|i: int| 0 <= i < order.len() && (#[trigger] order[i]).1.contains(p) {
            let i = choose|i: int| 0 <= i < order.len() && (#[trigger] order[i]).1.contains(p);
            if i < short.len() {
                assert(short[i].1.contains(p));
            }
        }
        if last.contains(p) {
            assert(order[order.len() - 1].1.contains(p));
        }
    }
}

/// A node starts from the seeds of its settings, once each and in order, and from
/// the public node after them.
pub proof fn seeds_come_in_order(seeds: Seq<Seq<char>>)
    ensures
        is_list_of_firsts(seeds.push(BOOTSTRAP_NODE@), candidates(seeds)),
{
    occurrences_are_firsts(seeds.push(BOOTSTRAP_NODE@));
}

proof fn occurrences_are_firsts(s: Seq<Seq<char>>)
    ensures
        is_list_of_firsts(s, first_occurrences(s)),
    decreases s.len(),
{
    if s.len() == 0 {
        assert(is_list_of_firsts(s, s));
    } else {
        let short = s.drop_last();
        occurrences_are_firsts(short);
        one_more_first(short, first_occurrences(short), s.last());
        assert(short.push(s.last()) =~= s);
    }
}

/// Every address that a name resolves to is used, and no other.
pub proof fn every_resolved_address_is_used(
    names: Seq<Seq<char>>,
    resolved: Map<Seq<char>, Seq<NodeAddr>>,
    a: NodeAddr,
)
    ensures
        resolved_addrs(names, resolved).contains(a) <==> exists|i: int|
            0 <= i < names.len() && resolved.contains_key(#[trigger] names[i])
                && resolved[names[i]].contains(a),
    decreases names.len(),
{
    if names.len() > 0 {
        let short = names.drop_last();
        let x = names.last();
        every_resolved_address_is_used(short, resolved, a);
        let head = resolved_addrs(short, resolved);
        let last = if resolved.contains_key(x) {
            resolved[x]
        } else {
            Seq::empty()
        };
        let all = resolved_addrs(names, resolved);
        assert(all =~= head + last);
        assert(all.contains(a) <==> head.contains(a) || last.contains(a)) by {
            if head.contains(a) {
                assert(all[head.index_of(a)] == a);
            }
            if last.contains(a) {
                assert(all[head.len() + last.index_of(a)] == a);
            }
            if all.contains(a) {
                let j = all.index_of(a);
                if j < head.len() {
                    assert(head[j] == a);
                } else {
                    assert(last[j - head.len()] == a);
                }
            }
        }
        if exists|i: int|
            0 <= i < short.len() && resolved.contains_key(#[trigger] short[i])
                && resolved[short[i]].contains(a) {
            let i = choose|i: int|
                0 <= i < short.len() && resolved.contains_key(#[trigger] short[i])
                    && resolved[short[i]].contains(a);
            assert(names[i] == short[i]);
        }
        if exists|i: int|
            0 <= i < names.len() && resolved.contains_key(#[trigger] names[i])
                && resolved[names[i]].contains(a) {
            let i = choose|i: int|
                0 <= i < names.len() && resolved.contains_key(#[trigger] names[i])
                    && resolved[names[i]].contains(a);
            if i < short.len() {
                assert(short[i] == names[i]);
            }
        }
        if last.contains(a) {
            assert(resolved.contains_key(names[names.len() - 1]));
        }
    }
}

proof fn each_interface_counts(
    list: Seq<InterfaceView>,
    v4: bool,
    port: Seq<char>,
    i: int,
)
    requires
        0 <= i < list.len(),
        !list[i].is_loopback,
        list[i].is_v4 == v4,
    ensures
        on_interfaces(list, v4, port).contains(with_port(list[i], port)),
    decreases list.len(),
{
    let short = list.drop_last();
    let head = on_interfaces(short, v4, port);
    let all = on_interfaces(list, v4, port);
    let x = with_port(list[i], port);
    if i < short.len() {
        assert(short[i] == list[i]);
        each_interface_counts(short, v4, port, i);
        assert(all[head.index_of(x)] == x);
    } else {
        assert(all[all.len() - 1] == x);
    }
}

/// The IPv4 wildcard stands for every IPv4 interface with the same port, and for
/// the loopback address; the IPv6 wildcard for every IPv6 interface. An address
/// without a wildcard stands for itself.
pub proof fn wildcards_stand_for_interfaces(
    port: Seq<char>,
    list: Seq<InterfaceView>,
    addr: Seq<char>,
    i: int,
)
    ensures
        expanded("0.0.0.0:"@ + port, Some(list)).contains("127.0.0.1:"@ + port),
        0 <= i < list.len() && !list[i].is_loopback && list[i].is_v4 ==> expanded(
            "0.0.0.0:"@ + port,
            Some(list),
        ).contains(list[i].text + ":"@ + port),
        0 <= i < list.len() && !list[i].is_loopback && !list[i].is_v4 ==> expanded(
            "[::]:"@ + port,
            Some(list),
        ).contains("["@ + list[i].text + "]:"@ + port),
        !begins_with(addr, "0.0.0.0:"@) && !begins_with(addr, "[::]:"@) ==> expanded(
            addr,
            Some(list),
        ) == seq![addr],
        expanded(addr, None) == seq![addr],
{
    reveal_strlit("0.0.0.0:");
    reveal_strlit("[::]:");
    let a = "0.0.0.0:"@ + port;
    let b = "[::]:"@ + port;
    assert("0.0.0.0:"@.len() == 8 && "[::]:"@.len() == 5);
    assert(a.subrange(0, 8) =~= "0.0.0.0:"@);
    assert(b.subrange(0, 5) =~= "[::]:"@);
    assert(a.subrange(8, a.len() as int) =~= port);
    assert(b.subrange(5, b.len() as int) =~= port);
    assert(b[0] == '[');
    if b.len() >= 8 {
        assert(b.subrange(0, 8)[0] == '[');
        assert("0.0.0.0:"@[0] == '0');
    }
    assert(begins_with(a, "0.0.0.0:"@) && begins_with(b, "[::]:"@));
    assert(!begins_with(b, "0.0.0.0:"@));
    let e = expanded(a, Some(list));
    let loopback = "127.0.0.1:"@ + port;
    assert(e[e.len() - 1] == loopback);
    if 0 <= i < list.len() && !list[i].is_loopback {
        if list[i].is_v4 {
            each_interface_counts(list, true, port, i);
            let found = on_interfaces(list, true, port);
            let x = with_port(list[i], port);
            assert(e[found.index_of(x)] == x);
        } else {
            each_interface_counts(list, false, port, i);
        }
    }
}

/// Whether an IPv4 address, given by its four numbers, is public.
pub proof fn public_addresses(a: u8, b: u8, c: u8, d: u8, port: u16)
    ensures
        ({
            let v = (a * 0x100_0000 + b * 0x1_0000 + c * 0x100 + d) as u32;
            routable(NodeAddr { ip: Ip::V4(v), port }) <==> a != 127 && a != 10 && !(a == 172 && 16
                <= b <= 31) && !(a == 192 && b == 168) && !(a == 169 && b == 254) && !(a == 0 && b
                == 0 && c == 0 && d == 0)
        }),
        forall|v: u128| !routable(NodeAddr { ip: Ip::V6(v), port }),
{
    let v = (a * 0x100_0000 + b * 0x1_0000 + c * 0x100 + d) as u32;
    assert(v as int == a * 0x100_0000 + b * 0x1_0000 + c * 0x100 + d);
    assert(v as int / 0x100_0000 == a);
    assert(v as int / 0x1_0000 == a * 256 + b);
    assert((a * 256 + b) % 256 == b);
}

/// A time that is stored in milliseconds comes back: the same milliseconds, for every
/// date of the calendar.
pub proof fn stored_times_come_back(ms: i64, other: Timestamp)
    requires
        CALENDAR_FIRST * 1000 <= ms < (CALENDAR_LAST + 1) * 1000,
    ensures
        Timestamp::of_stored_millis(ms).millis_spec() == ms,
        Timestamp::of_millis_or(ms, other).millis_spec() == ms,
        Timestamp::of_stored_millis(ms).nanos < 1_000_000_000,
{
}

/// A time outside the calendar stands for the epoch, or for the given time.
pub proof fn impossible_times_stand_for_others(ms: i64, other: Timestamp)
    requires
        ms < CALENDAR_FIRST * 1000 || ms >= (CALENDAR_LAST + 1) * 1000,
    ensures
        Timestamp::of_stored_millis(ms) == (Timestamp { secs: 0, nanos: 0 }),
        Timestamp::of_millis_or(ms, other) == other,
{
}

/// A reputation stays between 0 and 100 and moves by what is asked as far as that
/// allows; a newcomer starts in the middle.
pub proof fn reputations_have_bounds(x: int, addresses: Seq<NodeAddr>, at: std::time::Instant)
    ensures
        0 <= clamped(x) <= 100,
        0 <= x <= 100 ==> clamped(x) == x,
        x < 0 ==> clamped(x) == 0,
        x > 100 ==> clamped(x) == 100,
        newcomer(addresses, at).reputation == 50,
        newcomer(addresses, at).addresses == addresses,
{
}

/// The number that a text of decimal digits spells.
pub open spec fn spelled(t: Seq<char>) -> nat
    decreases t.len(),
{
    if t.len() == 0 {
        0
    } else {
        (10 * spelled(t.drop_last()) + (t.last() as u32 - '0' as u32)) as nat
    }
}

/// The decimal text of a number spells the number.
pub proof fn decimals_spell_their_number(n: nat)
    ensures
        spelled(decimal(n)) == n,
        decimal(n).len() > 0,
    decreases n,
{
    let t = decimal(n);
    if n < 10 {
        assert(t.drop_last() =~= Seq::<char>::empty());
        assert(spelled(t.drop_last()) == 0);
    } else {
        decimals_spell_their_number(n / 10);
        assert(t.drop_last() =~= decimal(n / 10));
    }
}

/// Errors say what kind they are: what is missing, what is not allowed, what cannot
/// be reached, what failed inside, and what was asked wrongly.
pub proof fn errors_have_kinds(e: RpcError)
    ensures
        e == RpcError::CommunityNotFound || e == RpcError::ChannelNotFound || e
            == RpcError::MessageNotFound || e == RpcError::MemberNotFound <==> e.code_spec()
            == -32001,
        e == RpcError::SeedUnavailable <==> e.code_spec() == -32004,
        e == RpcError::NotAMember || e == RpcError::AnnouncementOnly || e
            == RpcError::NotTheAuthorOfEdit || e == RpcError::NotTheAuthorOfDelete || e
            == RpcError::ModeratorRequired || e == RpcError::AdminRequired || e
            == RpcError::CreatorRole || e == RpcError::GossipClientNeedsSeed || e
            == RpcError::Banned || e == RpcError::InviteByAdminOnly || e
            == RpcError::UpdateByAdminOnly || e == RpcError::DeleteByAdminOnly || e
            == RpcError::CreatorOnly <==> e.code_spec() == -32003,
        e == RpcError::BodyTooLong || e == RpcError::NoSeedNodes || e
            == RpcError::CertificateFailed <==> e.code_spec() == -32603,
        e.code_spec() == -32001 || e.code_spec() == -32003 || e.code_spec() == -32004
            || e.code_spec() == -32602 || e.code_spec() == -32603,
{
}

/// A node without settings is a peer without seeds, a name or a password, with the
/// documented limits and ports.
pub proof fn default_settings(data_dir: Seq<char>, identity_path: Seq<char>)
    ensures
        ({
            let c = default_config(data_dir, identity_path);
            &&& c.data_dir == data_dir
            &&& c.identity_path == identity_path
            &&& c.node_mode == NodeMode::Peer
            &&& c.seed_nodes.len() == 0
            &&& c.max_connections == 50
            &&& c.storage_limit_mb == 512
            &&& c.bandwidth_limit_kbps is None
            &&& c.seed_priority == 0
            &&& c.quic_port == 9042
            &&& c.display_name is None
            &&& c.join_password is None
            &&& !c.save_passphrase
            &&& c.preferred_mailbox_node is None
            &&& c.listen_addrs == seq!["0.0.0.0:7332"@, "[::]:7332"@]
            &&& c.log_level == "info"@
        }),
{
}

} // verus!
