//! Waiting times, address finding and the local network.

use crate::network::client::{join_retry, JoinRetry};
use crate::network::connection_manager::{delay_after, ConnState, ConnStep};
use crate::network::mdns::{
    best_address, dial_target, first_v4, lan_address, DiscoveryView, LanInterfaceView,
    ResolvedService,
};
use crate::network::nat_traversal::{
    be16, be32, binding_request, is_answer, reported_address, scan, upnp_address,
    xor_mapped_address, PortMapping, STUN_COOKIE,
};
use crate::network::network_handle::push_reader::push_meaning;
use crate::network::network_handle::types::NetworkEventView;
use crate::network::node_addr::{octet0, Ip, NodeAddr};
use crate::network::protocol::NodePush;
use crate::text::occurs_in;
use vstd::prelude::*;

verus! {

/// Two to the power of `n`.
pub open spec fn pow2(n: nat) -> nat
    decreases n,
{
    if n == 0 {
        1
    } else {
        2 * pow2((n - 1) as nat)
    }
}

/// Each wait is twice the one before, until the cap is reached: after `n` failures
/// it is the first one times two to the `n`, or the cap if that is less.
pub proof fn waits_double(first: u64, cap: u64, n: nat)
    requires
        first <= cap,
    ensures
        first * pow2(n) <= cap ==> delay_after(first, cap, n) == first * pow2(n),
        first * pow2(n) > cap ==> delay_after(first, cap, n) == cap,
    decreases n,
{
    if n > 0 {
        let k = (n - 1) as nat;
        waits_double(first, cap, k);
        let a = first * pow2(k);
        assert(first * pow2(n) == 2 * a) by (nonlinear_arith)
            requires
                pow2(n) == 2 * pow2(k),
                a == first * pow2(k),
        ;
        assert(a >= 0) by (nonlinear_arith)
            requires
                a == first * pow2(k),
        ;
    } else {
        assert(pow2(n) == 1);
        assert(first * pow2(n) == first) by (nonlinear_arith)
            requires
                pow2(n) == 1,
        ;
    }
}

/// A connection is made once, used while it is open, and refused once it closed.
pub proof fn connections_are_made_once(closed: bool)
    ensures
        ConnState::Fresh.step(closed) == ConnStep::Connect,
        ConnState::Connected.step(false) == ConnStep::Use,
        ConnState::Connected.step(true) == ConnStep::Refuse,
        ConnState::Connected.after_step(true) == ConnState::Down,
        ConnState::Connected.after_step(false) == ConnState::Connected,
        ConnState::Fresh.after_step(closed) == ConnState::Fresh,
{
}

/// A refused join is tried again while attempts are left, unless the password is
/// wrong; another failure is final.
pub proof fn refused_joins_are_tried_again(error: Seq<char>, attempt: u32)
    ensures
        occurs_in("invalid node join password"@, error) ==> join_retry(error, attempt)
            == JoinRetry::GiveUp,
        !occurs_in("invalid node join password"@, error) && occurs_in("403"@, error) && attempt
            < 15 ==> join_retry(error, attempt) == JoinRetry::Again,
        !occurs_in("403"@, error) ==> join_retry(error, attempt) == JoinRetry::GiveUp,
        attempt >= 15 ==> join_retry(error, attempt) == JoinRetry::GiveUp,
{
}

/// A node does not hear itself: its own gossip is dropped, and that of others
/// arrives as sent, under the sender's name; direct messages arrive as they are.
pub proof fn nodes_do_not_hear_themselves(push: NodePush, own: Seq<char>)
    ensures
        push matches NodePush::GossipMessage { topic, source, data } ==> if source@ == own {
            push_meaning(push, own) is None
        } else {
            push_meaning(push, own) == Some(
                NetworkEventView::MessageReceived {
                    topic: topic@,
                    source: Some(source@),
                    data: data@,
                },
            )
        },
        push matches NodePush::NewDm { entry, recipient_pk } ==> push_meaning(push, own) == Some(
            NetworkEventView::DmReceived {
                entry: entry.deep_view(),
                recipient_pk: recipient_pk@,
            },
        ),
{
}

/// The bytes of a number, most significant first.
pub open spec fn bytes16(v: u16) -> Seq<u8> {
    seq![(v / 256) as u8, (v % 256) as u8]
}

/// The bytes of a number, most significant first.
pub open spec fn bytes32(v: u32) -> Seq<u8> {
    bytes16((v / 65536) as u16) + bytes16((v % 65536) as u16)
}

/// The answer of a server to a request, naming an address under a mask.
pub open spec fn masked_answer(txid: Seq<u8>, ip: u32, port: u16) -> Seq<u8> {
    seq![0x01u8, 0x01, 0x00, 0x0c, 0x21, 0x12, 0xA4, 0x42] + txid + seq![
        0x00u8,
        0x20,
        0x00,
        0x08,
        0x00,
        0x01,
    ] + bytes16(port ^ 0x2112) + bytes32(ip ^ STUN_COOKIE)
}

/// The address that a server names under a mask is the one that is found; the
/// answer must carry the number of the request.
pub proof fn masked_addresses_are_found(txid: Seq<u8>, other: Seq<u8>, ip: u32, port: u16)
    requires
        txid.len() == 12,
        other.len() == 12,
    ensures
        reported_address(masked_answer(txid, ip, port), txid) == Some(
            NodeAddr { ip: Ip::V4(ip), port },
        ),
        other != txid ==> reported_address(masked_answer(txid, ip, port), other) is None,
        binding_request(txid).subrange(8, 20) == txid,
{
    let buf = masked_answer(txid, ip, port);
    let p = port ^ 0x2112;
    let v = ip ^ STUN_COOKIE;
    assert(buf.len() == 32);
    assert(buf.subrange(0, 2) =~= seq![0x01u8, 0x01]);
    assert(buf.subrange(4, 8) =~= seq![0x21u8, 0x12, 0xA4, 0x42]);
    assert(buf.subrange(8, 20) =~= txid);
    assert(binding_request(txid).subrange(8, 20) =~= txid);
    assert(is_answer(buf, txid));
    assert(buf[2] == 0 && buf[3] == 12);
    assert(buf[20] == 0 && buf[21] == 0x20 && buf[22] == 0 && buf[23] == 8);
    let data = buf.subrange(24, 32);
    assert(data[1] == 1);
    assert(data[2] == (p / 256) as u8 && data[3] == (p % 256) as u8);
    let hi = (v / 65536) as u16;
    let lo = (v % 65536) as u16;
    assert(data[4] == (hi / 256) as u8 && data[5] == (hi % 256) as u8);
    assert(data[6] == (lo / 256) as u8 && data[7] == (lo % 256) as u8);
    assert(be16(data[2], data[3]) == p);
    assert(be16(data[4], data[5]) == hi);
    assert(be16(data[6], data[7]) == lo);
    assert(be32(data[4], data[5], data[6], data[7]) == v);
    assert((port ^ 0x2112) ^ 0x2112 == port) by (bit_vector);
    assert((ip ^ 0x2112_A442) ^ 0x2112_A442 == ip) by (bit_vector);
    assert(xor_mapped_address(data) == Some(NodeAddr { ip: Ip::V4(ip), port }));
    assert(scan(buf, 20, 32, None) == Some(NodeAddr { ip: Ip::V4(ip), port }));
}

/// A router's mapping gives the external address with the local port, unless it
/// failed.
pub proof fn mapped_ports_are_used(ip: u32, port: u16)
    ensures
        upnp_address(ip, PortMapping::Added, port) == Some(NodeAddr { ip: Ip::V4(ip), port }),
        upnp_address(ip, PortMapping::InUse, port) == Some(NodeAddr { ip: Ip::V4(ip), port }),
        upnp_address(ip, PortMapping::Failed, port) is None,
{
}

/// The address for the local network is that of an interface of the list that
/// serves; there is one exactly when some interface serves.
pub proof fn local_addresses_serve(list: Seq<LanInterfaceView>)
    ensures
        best_address(list) is Some <==> exists|i: int|
            0 <= i < list.len() && (#[trigger] lan_address(list[i])) is Some,
        best_address(list) matches Some(v) ==> exists|i: int|
            0 <= i < list.len() && #[trigger] lan_address(list[i]) == Some(v),
    decreases list.len(),
{
    if list.len() > 0 {
        let short = list.drop_last();
        local_addresses_serve(short);
        if exists|i: int| 0 <= i < short.len() && (#[trigger] lan_address(short[i])) is Some {
            let i = choose|i: int|
                0 <= i < short.len() && (#[trigger] lan_address(short[i])) is Some;
            assert(lan_address(list[i]) is Some);
        }
        if exists|i: int| 0 <= i < list.len() && (#[trigger] lan_address(list[i])) is Some {
            let i = choose|i: int| 0 <= i < list.len() && (#[trigger] lan_address(list[i])) is Some;
            if i < short.len() {
                assert(lan_address(short[i]) is Some);
            }
        }
        if let Some(b) = best_address(short) {
            let i = choose|i: int| 0 <= i < short.len() && #[trigger] lan_address(short[i]) == Some(
                b,
            );
            assert(lan_address(list[i]) == Some(b));
        }
        if lan_address(list.last()) is Some {
            assert(lan_address(list[list.len() - 1]) is Some);
        }
    }
}

/// Among interfaces that serve equally, the first one is taken.
pub proof fn the_first_local_address_is_taken(list: Seq<LanInterfaceView>, i: int)
    requires
        0 <= i < list.len(),
        lan_address(list[i]) is Some,
        forall|j: int| 0 <= j < i ==> (#[trigger] lan_address(list[j])) is None,
        octet0(lan_address(list[i])->0) == 192 || forall|j: int|
            0 <= j < list.len() ==> ((#[trigger] lan_address(list[j])) is Some ==> octet0(
                lan_address(list[j])->0,
            ) != 192),
    ensures
        best_address(list) == lan_address(list[i]),
    decreases list.len(),
{
    let short = list.drop_last();
    if i < short.len() {
        assert forall|j: int| 0 <= j < short.len() implies #[trigger] lan_address(short[j])
            == lan_address(list[j]) by {}
        assert(lan_address(short[i]) == lan_address(list[i]));
        the_first_local_address_is_taken(short, i);
        let n = list.len() - 1;
        assert(lan_address(list[n]) is None || lan_address(list[n]) is Some);
    } else {
        local_addresses_serve(short);
        if best_address(short) is Some {
            let j = choose|j: int|
                0 <= j < short.len() && (#[trigger] lan_address(short[j])) is Some;
            assert(lan_address(list[j]) is None);
        }
    }
}

/// A peer of the local network is dialled at its first IPv4 address, once.
pub proof fn local_peers_are_dialled_at_their_first_address(
    d: DiscoveryView,
    r: ResolvedService,
    i: int,
)
    requires
        r.peer_pk matches Some(pk) && pk@ != d.own_pk_hex && !d.dialed.contains(pk@),
        0 <= i < r.addresses@.len(),
        r.addresses@[i] is V4,
        forall|j: int| 0 <= j < i ==> !(#[trigger] r.addresses@[j] is V4),
    ensures
        dial_target(d, r) == Some(NodeAddr { ip: r.addresses@[i], port: r.port }),
{
    first_found(r.addresses@, 0, i);
}

proof fn first_found(list: Seq<Ip>, from: int, i: int)
    requires
        0 <= from <= i < list.len(),
        list[i] is V4,
        forall|j: int| 0 <= j < i ==> !(#[trigger] list[j] is V4),
    ensures
        first_v4(list, from) == Some(i),
    decreases i - from,
{
    if from < i {
        assert(!(list[from] is V4));
        first_found(list, from + 1, i);
    }
}

} // verus!
