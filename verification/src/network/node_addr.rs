//! Network addresses as plain numbers.

use vstd::prelude::*;

verus! {

/// An IP address as the number its bytes spell, most significant first.
#[derive(Clone, Copy, Debug, PartialEq, Eq, Hash, Structural)]
pub enum Ip {
    V4(u32),
    V6(u128),
}

/// The address of a node: IP and port.
#[derive(Clone, Copy, Debug, PartialEq, Eq, Hash, Structural)]
pub struct NodeAddr {
    pub ip: Ip,
    pub port: u16,
}

impl DeepView for Ip {
    type V = Ip;

    open spec fn deep_view(&self) -> Ip {
        *self
    }
}

impl DeepView for NodeAddr {
    type V = NodeAddr;

    open spec fn deep_view(&self) -> NodeAddr {
        *self
    }
}

/// The first byte of an IPv4 address.
pub open spec fn octet0(v: u32) -> int {
    v as int / 0x100_0000
}

/// The second byte of an IPv4 address.
pub open spec fn octet1(v: u32) -> int {
    v as int / 0x1_0000 % 256
}

/// 127.0.0.0/8.
pub open spec fn v4_loopback(v: u32) -> bool {
    octet0(v) == 127
}

/// 10.0.0.0/8, 172.16.0.0/12 or 192.168.0.0/16.
pub open spec fn v4_private(v: u32) -> bool {
    ||| octet0(v) == 10
    ||| octet0(v) == 172 && 16 <= octet1(v) <= 31
    ||| octet0(v) == 192 && octet1(v) == 168
}

/// 169.254.0.0/16.
pub open spec fn v4_link_local(v: u32) -> bool {
    octet0(v) == 169 && octet1(v) == 254
}

/// Whether an IPv4 address is in 127.0.0.0/8.
pub fn is_loopback_v4(v: u32) -> (r: bool)
    ensures
        r == v4_loopback(v),
{
    v / 0x100_0000 == 127
}

/// Whether an IPv4 address is in one of the three private ranges.
pub fn is_private_ipv4(v: u32) -> (r: bool)
    ensures
        r == v4_private(v),
{
    let a: u32 = v / 0x100_0000;
    let b: u32 = v / 0x1_0000 % 256;
    a == 10 || (a == 172 && 16 <= b && b <= 31) || (a == 192 && b == 168)
}

/// Whether an IPv4 address is in 169.254.0.0/16.
pub fn is_link_local_v4(v: u32) -> (r: bool)
    ensures
        r == v4_link_local(v),
{
    let a: u32 = v / 0x100_0000;
    let b: u32 = v / 0x1_0000 % 256;
    a == 169 && b == 254
}

} // verus!
