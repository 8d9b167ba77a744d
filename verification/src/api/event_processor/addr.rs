//! Addresses that the network layer reports.

use crate::lists::{vec_deep_view, views, views_push};
use crate::network::node_addr::{
    is_link_local_v4, is_loopback_v4, is_private_ipv4, v4_link_local, v4_loopback, v4_private, Ip,
    NodeAddr,
};
use crate::text::{after_prefix, begins_with, join2, join3, text};
use vstd::prelude::*;
use vstd::string::*;

verus! {

/// An address of a local network interface.
#[derive(Debug)]
pub struct Interface {
    pub is_loopback: bool,
    pub is_v4: bool,
    /// The address without a port.
    pub text: String,
}

/// What an [`Interface`] holds.
pub struct InterfaceView {
    pub is_loopback: bool,
    pub is_v4: bool,
    pub text: Seq<char>,
}

impl DeepView for Interface {
    type V = InterfaceView;

    open spec fn deep_view(&self) -> InterfaceView {
        InterfaceView {
            is_loopback: self.is_loopback,
            is_v4: self.is_v4,
            text: self.text@,
        }
    }
}

/// The socket address of an interface address and a port.
pub open spec fn with_port(i: InterfaceView, port: Seq<char>) -> Seq<char> {
    if i.is_v4 {
        i.text + ":"@ + port
    } else {
        "["@ + i.text + "]:"@ + port
    }
}

/// The socket addresses of all interfaces of a family but the loopback ones.
pub open spec fn on_interfaces(
    list: Seq<InterfaceView>,
    v4: bool,
    port: Seq<char>,
) -> Seq<Seq<char>>
    decreases list.len(),
{
    if list.len() == 0 {
        Seq::empty()
    } else {
        let head = on_interfaces(list.drop_last(), v4, port);
        let i = list.last();
        if i.is_loopback || i.is_v4 != v4 {
            head
        } else {
            head.push(with_port(i, port))
        }
    }
}

/// What follows the given number of characters.
pub open spec fn rest(s: Seq<char>, n: nat) -> Seq<char> {
    s.subrange(n as int, s.len() as int)
}

/// A listen address with a wildcard replaced by the addresses of the
/// interfaces. The IPv4 wildcard also stands for the loopback address, so that
/// two nodes on one machine reach each other.
pub open spec fn expanded(addr: Seq<char>, interfaces: Option<Seq<InterfaceView>>) -> Seq<Seq<char>> {
    match interfaces {
        None => seq![addr],
        Some(list) => if begins_with(addr, "0.0.0.0:"@) {
            let port = rest(addr, "0.0.0.0:"@.len());
            on_interfaces(list, true, port).push("127.0.0.1:"@ + port)
        } else if begins_with(addr, "[::]:"@) {
            let found = on_interfaces(list, false, rest(addr, "[::]:"@.len()));
            if found.len() > 0 {
                found
            } else {
                seq![addr]
            }
        } else {
            seq![addr]
        },
    }
}

/// The socket addresses of all interfaces of a family but the loopback ones.
fn list_interfaces(list: &Vec<Interface>, v4: bool, port: &str) -> (r: Vec<String>)
    ensures
        r.deep_view() == on_interfaces(list.deep_view(), v4, port@),
{
    broadcast use vec_deep_view, views_push;

    let ghost all = views(list@);
    let mut out: Vec<String> = Vec::new();
    let mut i: usize = 0;
    assert(views(out@) =~= on_interfaces(all.subrange(0, 0), v4, port@));
    while i < list.len()
        invariant
            i <= list@.len(),
            all == views(list@),
            views(out@) == on_interfaces(all.subrange(0, i as int), v4, port@),
        decreases list@.len() - i,
    {
        let x = &list[i];
        assert(all.subrange(0, i + 1).drop_last() =~= all.subrange(0, i as int));
        if !x.is_loopback && x.is_v4 == v4 {
            let addr = if v4 {
                join3(x.text.as_str(), ":", port)
            } else {
                join2(join3("[", x.text.as_str(), "]:").as_str(), port)
            };
            out.push(addr);
        }
        i += 1;
    }
    assert(all.subrange(0, all.len() as int) =~= all);
    out
}

/// One address as a list.
fn only(addr: &str) -> (r: Vec<String>)
    ensures
        r.deep_view() == seq![addr@],
{
    let mut out: Vec<String> = Vec::new();
    out.push(text(addr));
    assert(out.deep_view() =~= seq![addr@]);
    out
}

/// Expand a listen address that uses a wildcard into one entry per real
/// interface. Other addresses, and all addresses where the interfaces are not
/// known, stay as they are.
pub fn expand_wildcard_addr(addr: &str, interfaces: &Option<Vec<Interface>>) -> (r: Vec<String>)
    ensures
        r.deep_view() == expanded(addr@, interfaces.deep_view()),
{
    broadcast use vec_deep_view, views_push;

    match interfaces {
        None => only(addr),
        Some(list) => {
            assert(interfaces.deep_view() == Some(list.deep_view()));
            match after_prefix(addr, "0.0.0.0:") {
                Some(port) => {
                    let mut out = list_interfaces(list, true, port);
                    let ghost before = views(out@);
                    out.push(join2("127.0.0.1:", port));
                    assert(views(out@) == before.push("127.0.0.1:"@ + port@));
                    out
                },
                None => match after_prefix(addr, "[::]:") {
                    Some(port) => {
                        let out = list_interfaces(list, false, port);
                        if out.len() > 0 {
                            out
                        } else {
                            only(addr)
                        }
                    },
                    None => only(addr),
                },
            }
        },
    }
}

/// Whether an address is publicly routable: IPv4, and neither loopback nor
/// private nor link-local nor unspecified.
pub open spec fn routable(addr: NodeAddr) -> bool {
    match addr.ip {
        Ip::V4(v) => !v4_loopback(v) && !v4_private(v) && !v4_link_local(v) && v != 0,
        Ip::V6(_) => false,
    }
}

/// Whether an address is publicly routable.
pub fn is_publicly_routable(addr: NodeAddr) -> (r: bool)
    ensures
        r == routable(addr),
{
    match addr.ip {
        Ip::V4(v) => !is_loopback_v4(v) && !is_private_ipv4(v) && !is_link_local_v4(v) && v != 0,
        Ip::V6(_) => false,
    }
}

} // verus!
