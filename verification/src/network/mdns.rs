//! Finding peers on the local network.

use crate::bytes::zeros;
use crate::lists::{has_text, vec_deep_view, views, with_text, without_text, add_text, remove_text};
use crate::network::network_handle::types::{NetworkCommand, NetworkCommandView};
use crate::network::node_addr::{is_private_ipv4, octet0, v4_private, Ip, NodeAddr};
use crate::table::Table;
use crate::text::{
    after_prefix, begins_with, contains_text, join2, lowercase_text, occurs_in, same_text,
    to_lowercase,
};
use vstd::prelude::*;
use vstd::string::*;

verus! {

/// The service type under which nodes advertise themselves.
pub const SERVICE_TYPE: &'static str = "_bitcord._udp.local.";

/// The property that carries a node's public key.
pub const TXT_PK_KEY: &'static str = "pk";

/// A local network interface.
#[derive(Debug)]
pub struct LanInterface {
    pub name: String,
    pub is_loopback: bool,
    pub ip: Ip,
}

/// What a [`LanInterface`] holds.
pub struct LanInterfaceView {
    pub name: Seq<char>,
    pub is_loopback: bool,
    pub ip: Ip,
}

impl DeepView for LanInterface {
    type V = LanInterfaceView;

    open spec fn deep_view(&self) -> LanInterfaceView {
        LanInterfaceView {
            name: self.name@,
            is_loopback: self.is_loopback,
            ip: self.ip,
        }
    }
}

/// Whether a lower-case interface name is one of a tunnel, a bridge or a
/// container network.
pub open spec fn virtual_name(name: Seq<char>) -> bool {
    ||| begins_with(name, "tun"@)
    ||| begins_with(name, "tap"@)
    ||| begins_with(name, "wg"@)
    ||| begins_with(name, "utun"@)
    ||| begins_with(name, "virbr"@)
    ||| begins_with(name, "br-"@)
    ||| begins_with(name, "docker"@)
    ||| begins_with(name, "veth"@)
    ||| begins_with(name, "fct"@)
    ||| occurs_in("vpn"@, name)
    ||| occurs_in("nordlynx"@, name)
    ||| occurs_in("vethernet"@, name)
    ||| occurs_in("default switch"@, name)
}

/// Whether a lower-case interface name is one of a tunnel, a bridge or a
/// container network.
pub fn is_virtual_iface(name: &str) -> (r: bool)
    ensures
        r == virtual_name(name@),
{
    after_prefix(name, "tun").is_some() || after_prefix(name, "tap").is_some() || after_prefix(
        name,
        "wg",
    ).is_some() || after_prefix(name, "utun").is_some() || after_prefix(name, "virbr").is_some()
        || after_prefix(name, "br-").is_some() || after_prefix(name, "docker").is_some()
        || after_prefix(name, "veth").is_some() || after_prefix(name, "fct").is_some()
        || contains_text(name, "vpn") || contains_text(name, "nordlynx") || contains_text(
        name,
        "vethernet",
    ) || contains_text(name, "default switch")
}

/// The address under which an interface can be advertised: a private IPv4
/// address of a physical interface.
pub open spec fn lan_address(i: LanInterfaceView) -> Option<u32> {
    match i.ip {
        Ip::V4(v) => if !i.is_loopback && v4_private(v) && !virtual_name(lowercase_text(i.name)) {
            Some(v)
        } else {
            None
        },
        Ip::V6(_) => None,
    }
}

/// Whether an address is preferred over the best one so far: only a first
/// one, or one that begins with 192 over one that does not.
pub open spec fn preferred(v: u32, best: Option<u32>) -> bool {
    match best {
        None => true,
        Some(b) => octet0(v) == 192 && octet0(b) != 192,
    }
}

/// The address to advertise.
pub open spec fn best_address(list: Seq<LanInterfaceView>) -> Option<u32>
    decreases list.len(),
{
    if list.len() == 0 {
        None
    } else {
        let best = best_address(list.drop_last());
        match lan_address(list.last()) {
            Some(v) => if preferred(v, best) {
                Some(v)
            } else {
                best
            },
            None => best,
        }
    }
}

/// The address to advertise: the first suitable one, but one that begins with
/// 192 before all others.
pub fn pick_lan_ip(list: &Vec<LanInterface>) -> (r: Option<u32>)
    ensures
        r == best_address(list.deep_view()),
{
    broadcast use vec_deep_view;

    let ghost all = views(list@);
    let mut best: Option<u32> = None;
    let mut i: usize = 0;
    while i < list.len()
        invariant
            i <= list@.len(),
            all == views(list@),
            best == best_address(all.subrange(0, i as int)),
        decreases list@.len() - i,
    {
        let x = &list[i];
        assert(all.subrange(0, i + 1).drop_last() =~= all.subrange(0, i as int));
        if !x.is_loopback {
            if let Ip::V4(v) = x.ip {
                if is_private_ipv4(v) && !is_virtual_iface(
                    to_lowercase(x.name.as_str()).as_str(),
                ) {
                    let better = match best {
                        None => true,
                        Some(b) => v / 0x100_0000 == 192 && b / 0x100_0000 != 192,
                    };
                    if better {
                        best = Some(v);
                    }
                }
            }
        }
        i += 1;
    }
    assert(all.subrange(0, all.len() as int) =~= all);
    best
}

/// The name of this node's service instance.
pub fn instance_name(own_pk_hex: &str) -> (r: String)
    requires
        own_pk_hex@.len() >= 16,
    ensures
        r@ == "bitcord-"@ + own_pk_hex@.subrange(0, 16),
{
    join2("bitcord-", own_pk_hex.substring_char(0, 16))
}

/// The host name of this node's service.
pub fn host_name(own_pk_hex: &str) -> (r: String)
    requires
        own_pk_hex@.len() >= 16,
    ensures
        r@ == own_pk_hex@.subrange(0, 16) + ".local."@,
{
    join2(own_pk_hex.substring_char(0, 16), ".local.")
}

/// Whether a node takes part in discovery: one without a server does not.
pub fn takes_part(is_gossip_client: bool) -> (r: bool)
    ensures
        r == !is_gossip_client,
{
    !is_gossip_client
}

/// A peer's service as it was resolved.
#[derive(Debug)]
pub struct ResolvedService {
    /// The public key in its properties, if any.
    pub peer_pk: Option<String>,
    pub fullname: String,
    pub port: u16,
    pub addresses: Vec<Ip>,
}

/// The peers that were dialled.
pub struct Discovery {
    pub own_pk_hex: String,
    /// Public keys of the peers that were dialled.
    pub dialed: Vec<String>,
    /// Public key per service name, to forget a peer that leaves.
    pub names: Table<String>,
}

/// What a [`Discovery`] holds.
pub struct DiscoveryView {
    pub own_pk_hex: Seq<char>,
    pub dialed: Seq<Seq<char>>,
    pub names: Map<Seq<char>, Seq<char>>,
}

impl DeepView for Discovery {
    type V = DiscoveryView;

    open spec fn deep_view(&self) -> DiscoveryView {
        DiscoveryView {
            own_pk_hex: self.own_pk_hex@,
            dialed: self.dialed.deep_view(),
            names: self.names.deep_view(),
        }
    }
}

/// Where the first IPv4 address stands, from `from` on.
pub open spec fn first_v4(list: Seq<Ip>, from: int) -> Option<int>
    decreases list.len() - from,
{
    if from < 0 || from >= list.len() {
        None
    } else if list[from] is V4 {
        Some(from)
    } else {
        first_v4(list, from + 1)
    }
}

/// The address at which a resolved peer is dialled: its first IPv4 address,
/// unless it is this node itself or was dialled before.
pub open spec fn dial_target(d: DiscoveryView, r: ResolvedService) -> Option<NodeAddr> {
    match r.peer_pk {
        None => None,
        Some(pk) => if pk@ == d.own_pk_hex || d.dialed.contains(pk@) {
            None
        } else {
            match first_v4(r.addresses@, 0) {
                Some(i) => Some(NodeAddr { ip: r.addresses@[i], port: r.port }),
                None => None,
            }
        },
    }
}

/// The command that dials a peer of the local network.
pub open spec fn lan_dial(addr: NodeAddr) -> NetworkCommandView {
    NetworkCommandView::Dial {
        addr,
        is_seed: false,
        join_community: None,
        join_community_password: None,
        cert_fingerprint: zeros(32),
    }
}

impl Discovery {
    /// No peers yet.
    pub fn new(own_pk_hex: String) -> (r: Discovery)
        ensures
            r.deep_view() == (DiscoveryView {
                own_pk_hex: own_pk_hex@,
                dialed: Seq::empty(),
                names: Map::empty(),
            }),
    {
        let dialed: Vec<String> = Vec::new();
        assert(dialed.deep_view() =~= Seq::<Seq<char>>::empty());
        Discovery { own_pk_hex, dialed, names: Table::new() }
    }

    /// A peer's service was resolved: dial the peer once.
    pub fn service_resolved(&mut self, r: ResolvedService) -> (cmd: Option<NetworkCommand>)
        ensures
            match dial_target(old(self).deep_view(), r) {
                Some(addr) => {
                    &&& cmd.deep_view() == Some(lan_dial(addr))
                    &&& final(self).deep_view() == (DiscoveryView {
                        dialed: with_text(old(self).deep_view().dialed, r.peer_pk->0@),
                        names: old(self).deep_view().names.insert(r.fullname@, r.peer_pk->0@),
                        ..old(self).deep_view()
                    })
                },
                None => cmd is None && final(self).deep_view() == old(self).deep_view(),
            },
    {
        let ghost d = self.deep_view();
        let pk = match &r.peer_pk {
            Some(pk) => pk.clone(),
            None => {
                return None;
            },
        };
        if same_text(pk.as_str(), self.own_pk_hex.as_str()) || has_text(&self.dialed, pk.as_str()) {
            return None;
        }
        let n: usize = r.addresses.len();
        let mut i: usize = 0;
        while i < n
            invariant
                i <= n,
                n == r.addresses@.len(),
                first_v4(r.addresses@, 0) == first_v4(r.addresses@, i as int),
                self.deep_view() == d,
                r.peer_pk matches Some(k) && k@ == pk@,
                pk@ != d.own_pk_hex,
                !d.dialed.contains(pk@),
                d == old(self).deep_view(),
            decreases n - i,
        {
            let ip = r.addresses[i];
            if let Ip::V4(_) = ip {
                add_text(&mut self.dialed, pk.as_str());
                self.names.insert(r.fullname.as_str(), pk);
                let cert_fingerprint: [u8; 32] = [0u8; 32];
                assert(cert_fingerprint@ =~= zeros(32));
                assert(first_v4(r.addresses@, 0) == Some(i as int));
                return Some(
                    NetworkCommand::Dial {
                        addr: NodeAddr { ip, port: r.port },
                        is_seed: false,
                        join_community: None,
                        join_community_password: None,
                        cert_fingerprint,
                    },
                );
            }
            i += 1;
        }
        None
    }

    /// A service is gone: its peer may be dialled again when it returns.
    pub fn service_removed(&mut self, fullname: &str)
        ensures
            ({
                let d = old(self).deep_view();
                final(self).deep_view() == if d.names.contains_key(fullname@) {
                    DiscoveryView {
                        dialed: without_text(d.dialed, d.names[fullname@]),
                        names: d.names.remove(fullname@),
                        ..d
                    }
                } else {
                    d
                }
            }),
    {
        let ghost d = self.deep_view();
        if let Some(pk) = self.names.remove(fullname) {
            remove_text(&mut self.dialed, pk.as_str());
        } else {
            assert(self.deep_view().names =~= d.names);
        }
    }
}

/// A node never dials itself, nor a peer that it dialled and that is still
/// there.
pub proof fn peers_are_dialled_once(d: DiscoveryView, r: ResolvedService)
    requires
        r.peer_pk matches Some(pk) && (pk@ == d.own_pk_hex || d.dialed.contains(pk@)),
    ensures
        dial_target(d, r) is None,
{
}

/// Where any interface has a suitable address that begins with 192, the
/// address that is advertised begins with 192.
pub proof fn home_networks_are_preferred(list: Seq<LanInterfaceView>, i: int)
    requires
        0 <= i < list.len(),
        lan_address(list[i]) matches Some(v) && octet0(v) == 192,
    ensures
        best_address(list) matches Some(v) && octet0(v) == 192,
    decreases list.len(),
{
    if i < list.len() - 1 {
        home_networks_are_preferred(list.drop_last(), i);
    }
}

} // verus!
