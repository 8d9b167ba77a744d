//! Finding an address at which this node is reachable from outside.
//!
//! A port mapping on the gateway is tried first, then a binding request to a
//! public server that reports the sender's external address.

use crate::bytes::{append, array_at, same_bytes, to_vec};
use crate::crypto::primitives::random_array;
use crate::network::node_addr::{is_link_local_v4, v4_link_local, Ip, NodeAddr};
use vstd::prelude::*;

verus! {

/// The magic cookie of binding messages.
pub const STUN_COOKIE: u32 = 0x2112_A442;

/// Two bytes as a number, the high one first.
pub open spec fn be16(hi: u8, lo: u8) -> int {
    hi * 256 + lo
}

/// Four bytes as a number, the highest first.
pub open spec fn be32(a: u8, b: u8, c: u8, d: u8) -> int {
    be16(a, b) * 65536 + be16(c, d)
}

/// A binding request: type, length zero, cookie and transaction id.
pub open spec fn binding_request(txid: Seq<u8>) -> Seq<u8> {
    seq![0x00u8, 0x01, 0x00, 0x00, 0x21, 0x12, 0xA4, 0x42] + txid
}

/// Whether a message begins as the answer to the request with the given
/// transaction id.
pub open spec fn is_answer(buf: Seq<u8>, txid: Seq<u8>) -> bool {
    &&& buf.len() >= 20
    &&& buf.subrange(0, 2) == seq![0x01u8, 0x01]
    &&& buf.subrange(4, 8) == seq![0x21u8, 0x12, 0xA4, 0x42]
    &&& buf.subrange(8, 20) == txid
}

/// The address in a plain address attribute.
pub open spec fn mapped_address(data: Seq<u8>) -> Option<NodeAddr> {
    if data.len() < 8 || data[1] != 0x01 {
        None
    } else {
        Some(
            NodeAddr {
                ip: Ip::V4(be32(data[4], data[5], data[6], data[7]) as u32),
                port: be16(data[2], data[3]) as u16,
            },
        )
    }
}

/// The address in an attribute that is masked with the cookie.
pub open spec fn xor_mapped_address(data: Seq<u8>) -> Option<NodeAddr> {
    match mapped_address(data) {
        Some(a) => Some(
            NodeAddr {
                ip: match a.ip {
                    Ip::V4(v) => Ip::V4(v ^ STUN_COOKIE),
                    Ip::V6(v) => Ip::V6(v),
                },
                port: a.port ^ 0x2112,
            },
        ),
        None => None,
    }
}

/// A length brought up to a multiple of four.
pub open spec fn padded(n: int) -> int {
    (n + 3) / 4 * 4
}

/// The address found in the attributes from `pos` up to `end`: the first
/// masked one, else the last plain one, else `mapped`.
pub open spec fn scan(buf: Seq<u8>, pos: int, end: int, mapped: Option<NodeAddr>) -> Option<NodeAddr>
    decreases (if end > pos {
        end - pos
    } else {
        0
    }),
{
    if pos < 0 || pos + 4 > end {
        mapped
    } else {
        let kind = be16(buf[pos], buf[pos + 1]);
        let len = be16(buf[pos + 2], buf[pos + 3]);
        let next = pos + 4 + padded(len);
        if pos + 4 + len > buf.len() {
            mapped
        } else {
            let data = buf.subrange(pos + 4, pos + 4 + len);
            if kind == 0x0020 {
                match xor_mapped_address(data) {
                    Some(a) => Some(a),
                    None => scan(buf, next, end, mapped),
                }
            } else if kind == 0x0001 {
                scan(buf, next, end, mapped_address(data))
            } else {
                scan(buf, next, end, mapped)
            }
        }
    }
}

/// The external address that an answer reports.
pub open spec fn reported_address(buf: Seq<u8>, txid: Seq<u8>) -> Option<NodeAddr> {
    if !is_answer(buf, txid) {
        None
    } else {
        let end = 20 + be16(buf[2], buf[3]);
        if buf.len() < end {
            None
        } else {
            scan(buf, 20, end, None)
        }
    }
}

/// Build a binding request with the given transaction id.
pub fn stun_request_with(txid: &[u8; 12]) -> (r: Vec<u8>)
    ensures
        r@ == binding_request(txid@),
        r@.len() == 20,
{
    let head: [u8; 8] = [0x00, 0x01, 0x00, 0x00, 0x21, 0x12, 0xA4, 0x42];
    let mut out = to_vec(head.as_slice());
    assert(out@ =~= seq![0x00u8, 0x01, 0x00, 0x00, 0x21, 0x12, 0xA4, 0x42]);
    append(&mut out, txid.as_slice());
    out
}

/// Build a binding request with a random transaction id.
pub fn stun_request() -> (r: (Vec<u8>, [u8; 12]))
    ensures
        r.0@ == binding_request(r.1@),
{
    let txid = random_array::<12>();
    (stun_request_with(&txid), txid)
}

/// Two bytes as a number, the high one first.
fn read_be16(hi: u8, lo: u8) -> (r: u16)
    ensures
        r == be16(hi, lo),
{
    hi as u16 * 256 + lo as u16
}

/// Read a plain address attribute.
fn parse_mapped_address(data: &[u8]) -> (r: Option<NodeAddr>)
    ensures
        r == mapped_address(data@),
{
    if data.len() < 8 || data[1] != 0x01 {
        return None;
    }
    let port: u16 = read_be16(data[2], data[3]);
    let hi: u32 = read_be16(data[4], data[5]) as u32;
    let lo: u32 = read_be16(data[6], data[7]) as u32;
    Some(NodeAddr { ip: Ip::V4(hi * 65536 + lo), port })
}

/// Read an address attribute that is masked with the cookie.
fn parse_xor_mapped_address(data: &[u8]) -> (r: Option<NodeAddr>)
    ensures
        r == xor_mapped_address(data@),
{
    match parse_mapped_address(data) {
        Some(a) => {
            let ip = match a.ip {
                Ip::V4(v) => Ip::V4(v ^ STUN_COOKIE),
                Ip::V6(v) => Ip::V6(v),
            };
            Some(NodeAddr { ip, port: a.port ^ 0x2112 })
        },
        None => None,
    }
}

/// The bytes from `from` up to `to`.
fn piece(buf: &[u8], from: usize, to: usize) -> (r: Vec<u8>)
    requires
        from <= to <= buf@.len(),
    ensures
        r@ == buf@.subrange(from as int, to as int),
{
    let mut out: Vec<u8> = Vec::new();
    let mut i: usize = from;
    while i < to
        invariant
            from <= i <= to,
            to <= buf@.len(),
            out@ == buf@.subrange(from as int, i as int),
        decreases to - i,
    {
        out.push(buf[i]);
        i += 1;
        assert(buf@.subrange(from as int, i as int) =~= buf@.subrange(from as int, i - 1).push(
            buf@[i - 1],
        ));
    }
    out
}

/// Read the external address from an answer.
pub fn parse_stun_response(buf: &[u8], txid: &[u8; 12]) -> (r: Option<NodeAddr>)
    ensures
        r == reported_address(buf@, txid@),
{
    if buf.len() < 20 {
        return None;
    }
    let kind = array_at::<2>(buf, 0);
    let cookie = array_at::<4>(buf, 4);
    let id = array_at::<12>(buf, 8);
    let answer: [u8; 2] = [0x01, 0x01];
    let magic: [u8; 4] = [0x21, 0x12, 0xA4, 0x42];
    proof {
        assert(answer@ =~= seq![0x01u8, 0x01]);
        assert(magic@ =~= seq![0x21u8, 0x12, 0xA4, 0x42]);
    }
    if !same_bytes(kind.as_slice(), answer.as_slice()) {
        return None;
    }
    if !same_bytes(cookie.as_slice(), magic.as_slice()) {
        return None;
    }
    if !same_bytes(id.as_slice(), txid.as_slice()) {
        return None;
    }
    let end: usize = 20 + read_be16(buf[2], buf[3]) as usize;
    if buf.len() < end {
        return None;
    }
    let mut pos: usize = 20;
    let mut mapped: Option<NodeAddr> = None;
    while pos + 4 <= end
        invariant
            20 <= pos,
            pos <= end + 65540,
            end <= buf@.len(),
            end <= 65555,
            scan(buf@, 20, end as int, None) == scan(buf@, pos as int, end as int, mapped),
            reported_address(buf@, txid@) == scan(buf@, 20, end as int, None),
        ensures
            reported_address(buf@, txid@) == mapped,
        decreases end + 65540 - pos,
    {
        let attr: u16 = read_be16(buf[pos], buf[pos + 1]);
        let len: usize = read_be16(buf[pos + 2], buf[pos + 3]) as usize;
        let start: usize = pos + 4;
        if start + len > buf.len() {
            break;
        }
        let data = piece(buf, start, start + len);
        if attr == 0x0020 {
            if let Some(a) = parse_xor_mapped_address(data.as_slice()) {
                return Some(a);
            }
        } else if attr == 0x0001 {
            mapped = parse_mapped_address(data.as_slice());
        }
        pos = start + (len + 3) / 4 * 4;
    }
    mapped
}

/// What became of a request for a port mapping.
#[derive(Clone, Copy, Debug, PartialEq, Eq, Structural)]
pub enum PortMapping {
    /// The mapping was made.
    Added,
    /// There was one already, for instance from an earlier run.
    InUse,
    /// The gateway refused.
    Failed,
}

/// The external address after a request for a port mapping.
pub open spec fn upnp_address(external_ip: u32, mapping: PortMapping, port: u16) -> Option<NodeAddr> {
    if mapping == PortMapping::Failed {
        None
    } else {
        Some(NodeAddr { ip: Ip::V4(external_ip), port })
    }
}

/// The external address after a request for a port mapping.
pub fn upnp_result(external_ip: u32, mapping: PortMapping, local_port: u16) -> (r: Option<NodeAddr>)
    ensures
        r == upnp_address(external_ip, mapping, local_port),
{
    match mapping {
        PortMapping::Failed => None,
        _ => Some(NodeAddr { ip: Ip::V4(external_ip), port: local_port }),
    }
}

/// Pair an external address with the port of the local server: the request
/// went out from another port.
pub fn with_local_port(found: NodeAddr, local_port: u16) -> (r: NodeAddr)
    ensures
        r.ip == found.ip,
        r.port == local_port,
{
    NodeAddr { ip: found.ip, port: local_port }
}

/// The address to advertise: that of the port mapping, else the reported one
/// with the local port, else none.
pub fn choose_external(
    upnp: Option<NodeAddr>,
    reported: Option<NodeAddr>,
    local_port: u16,
) -> (r: Option<NodeAddr>)
    ensures
        r == match upnp {
            Some(a) => Some(a),
            None => match reported {
                Some(a) => Some(NodeAddr { ip: a.ip, port: local_port }),
                None => None,
            },
        },
{
    match upnp {
        Some(a) => Some(a),
        None => match reported {
            Some(a) => Some(with_local_port(a, local_port)),
            None => None,
        },
    }
}

/// An address of a local network interface.
#[derive(Clone, Copy, Debug)]
pub struct LocalIp {
    pub is_loopback: bool,
    pub ip: Ip,
}

/// Whether an interface address can serve as the target of a port mapping.
pub open spec fn mappable(x: LocalIp) -> bool {
    !x.is_loopback && (x.ip matches Ip::V4(v) && !v4_link_local(v))
}

/// The first IPv4 address of this machine that is neither loopback nor
/// link-local.
pub fn local_ipv4(list: &Vec<LocalIp>) -> (r: Option<u32>)
    ensures
        match r {
            Some(v) => exists|i: int|
                0 <= i < list@.len() && mappable(#[trigger] list@[i]) && list@[i].ip == Ip::V4(v)
                    && forall|j: int| 0 <= j < i ==> !mappable(#[trigger] list@[j]),
            None => forall|j: int| 0 <= j < list@.len() ==> !mappable(#[trigger] list@[j]),
        },
{
    let mut i: usize = 0;
    while i < list.len()
        invariant
            i <= list@.len(),
            forall|j: int| 0 <= j < i ==> !mappable(#[trigger] list@[j]),
        decreases list@.len() - i,
    {
        let x = list[i];
        if !x.is_loopback {
            if let Ip::V4(v) = x.ip {
                if !is_link_local_v4(v) {
                    assert(mappable(list@[i as int]));
                    return Some(v);
                }
            }
        }
        i += 1;
    }
    None
}

/// Masking an address with the cookie twice gives the address back.
pub proof fn masking_is_undone(v: u32, p: u16)
    ensures
        (v ^ STUN_COOKIE) ^ STUN_COOKIE == v,
        (p ^ 0x2112u16) ^ 0x2112u16 == p,
{
    assert((v ^ 0x2112_A442u32) ^ 0x2112_A442u32 == v) by (bit_vector);
    assert((p ^ 0x2112u16) ^ 0x2112u16 == p) by (bit_vector);
}

/// An answer to another request is never taken for this one's.
pub proof fn foreign_answers_are_ignored(buf: Seq<u8>, txid: Seq<u8>)
    requires
        buf.len() >= 20,
        buf.subrange(8, 20) != txid,
    ensures
        reported_address(buf, txid) is None,
{
}

} // verus!
