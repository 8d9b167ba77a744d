//! The peers that are connected, and the limit on their number.

use crate::network::node_addr::NodeAddr;
use crate::table::{entry_in_map, has_key, lists, position, Table};
use std::time::{Duration, Instant};
use vstd::prelude::*;

verus! {

/// `std::time::Instant`: a moment, carried through unread.
#[verifier::external_type_specification]
#[verifier::external_body]
pub struct ExInstant(std::time::Instant);

/// `std::time::Instant::now`: the present moment. Nothing is known of it.
pub assume_specification[ std::time::Instant::now ]() -> (r: std::time::Instant);

/// What is known of a connected peer.
#[derive(Debug)]
pub struct PeerInfo {
    /// Addresses at which the peer is reachable.
    pub addresses: Vec<NodeAddr>,
    /// Round-trip time of the last successful ping.
    pub latency: Option<Duration>,
    /// Whether the peer can act as a relay.
    pub relay_capable: bool,
    /// A score from 0 to 100. It starts at 50.
    pub reputation: i32,
    /// When the connection was made.
    pub connected_at: Instant,
}

/// What a [`PeerInfo`] holds.
pub struct PeerInfoView {
    pub addresses: Seq<NodeAddr>,
    pub latency: Option<Duration>,
    pub relay_capable: bool,
    pub reputation: i32,
    pub connected_at: Instant,
}

impl DeepView for PeerInfo {
    type V = PeerInfoView;

    open spec fn deep_view(&self) -> PeerInfoView {
        PeerInfoView {
            addresses: self.addresses@,
            latency: self.latency,
            relay_capable: self.relay_capable,
            reputation: self.reputation,
            connected_at: self.connected_at,
        }
    }
}

impl PeerInfo {
    /// A peer that connects now.
    pub fn new(addresses: Vec<NodeAddr>) -> (r: PeerInfo)
        ensures
            r.deep_view() == newcomer(addresses@, r.connected_at),
    {
        PeerInfo {
            addresses,
            latency: None,
            relay_capable: false,
            reputation: 50,
            connected_at: Instant::now(),
        }
    }
}

/// A peer that connected at the given moment.
pub open spec fn newcomer(addresses: Seq<NodeAddr>, at: Instant) -> PeerInfoView {
    PeerInfoView {
        addresses,
        latency: None,
        relay_capable: false,
        reputation: 50,
        connected_at: at,
    }
}

/// `x` brought into the range from 0 to 100.
pub open spec fn clamped(x: int) -> int {
    if x < 0 {
        0
    } else if x > 100 {
        100
    } else {
        x
    }
}

/// The connected peers, by hexadecimal public key.
pub struct PeerManager {
    peers: Table<PeerInfo>,
    max_connections: usize,
}

impl PeerManager {
    /// The peers.
    pub closed spec fn peers(&self) -> Map<Seq<char>, PeerInfoView> {
        self.peers.deep_view()
    }

    /// The largest number of connections wanted.
    pub closed spec fn limit(&self) -> nat {
        self.max_connections as nat
    }

    /// Whether every reputation is in range.
    pub open spec fn wf(&self) -> bool {
        forall|id: Seq<char>|
            self.peers().contains_key(id) ==> 0 <= (#[trigger] self.peers()[id]).reputation <= 100
    }

    /// A manager without peers.
    pub fn new(max_connections: usize) -> (r: PeerManager)
        ensures
            r.peers() == Map::<Seq<char>, PeerInfoView>::empty(),
            r.limit() == max_connections,
            r.wf(),
    {
        PeerManager { peers: Table::new(), max_connections }
    }

    /// Record a new connection. A peer that is already recorded stays as it
    /// is.
    pub fn peer_connected(&mut self, peer_id: String, addresses: Vec<NodeAddr>)
        ensures
            final(self).limit() == old(self).limit(),
            old(self).wf() ==> final(self).wf(),
            if old(self).peers().contains_key(peer_id@) {
                final(self).peers() == old(self).peers()
            } else {
                exists|at: Instant|
                    final(self).peers() == old(self).peers().insert(
                        peer_id@,
                        #[trigger] newcomer(addresses@, at),
                    )
            },
    {
        if !self.peers.contains_key(peer_id.as_str()) {
            let info = PeerInfo::new(addresses);
            let ghost at = info.connected_at;
            self.peers.insert(peer_id.as_str(), info);
            assert(self.peers() == old(self).peers().insert(
                peer_id@,
                newcomer(addresses@, at),
            ));
        }
    }

    /// Remove a peer.
    pub fn peer_disconnected(&mut self, peer_id: &str)
        ensures
            final(self).limit() == old(self).limit(),
            old(self).wf() ==> final(self).wf(),
            final(self).peers() == old(self).peers().remove(peer_id@),
    {
        self.peers.remove(peer_id);
    }

    /// Note the round-trip time of a successful ping.
    pub fn record_latency(&mut self, peer_id: &str, latency: Duration)
        ensures
            final(self).limit() == old(self).limit(),
            old(self).wf() ==> final(self).wf(),
            final(self).peers() == if old(self).peers().contains_key(peer_id@) {
                old(self).peers().insert(
                    peer_id@,
                    PeerInfoView { latency: Some(latency), ..old(self).peers()[peer_id@] },
                )
            } else {
                old(self).peers()
            },
    {
        let ghost before = self.peers();
        if let Some(info) = self.peers.remove(peer_id) {
            let mut info = info;
            info.latency = Some(latency);
            self.peers.insert(peer_id, info);
        }
        assert(self.peers() =~= if before.contains_key(peer_id@) {
            before.insert(
                peer_id@,
                PeerInfoView { latency: Some(latency), ..before[peer_id@] },
            )
        } else {
            before
        });
    }

    /// Note whether a peer can act as a relay.
    pub fn set_relay_capable(&mut self, peer_id: &str, capable: bool)
        ensures
            final(self).limit() == old(self).limit(),
            old(self).wf() ==> final(self).wf(),
            final(self).peers() == if old(self).peers().contains_key(peer_id@) {
                old(self).peers().insert(
                    peer_id@,
                    PeerInfoView { relay_capable: capable, ..old(self).peers()[peer_id@] },
                )
            } else {
                old(self).peers()
            },
    {
        let ghost before = self.peers();
        if let Some(info) = self.peers.remove(peer_id) {
            let mut info = info;
            info.relay_capable = capable;
            self.peers.insert(peer_id, info);
        }
        assert(self.peers() =~= if before.contains_key(peer_id@) {
            before.insert(
                peer_id@,
                PeerInfoView { relay_capable: capable, ..before[peer_id@] },
            )
        } else {
            before
        });
    }

    /// Change a peer's reputation; the score stays between 0 and 100.
    pub fn adjust_reputation(&mut self, peer_id: &str, delta: i32)
        ensures
            final(self).limit() == old(self).limit(),
            old(self).wf() ==> final(self).wf(),
            final(self).peers() == if old(self).peers().contains_key(peer_id@) {
                let info = old(self).peers()[peer_id@];
                old(self).peers().insert(
                    peer_id@,
                    PeerInfoView { reputation: clamped(info.reputation + delta) as i32, ..info },
                )
            } else {
                old(self).peers()
            },
    {
        let ghost before = self.peers();
        if let Some(info) = self.peers.remove(peer_id) {
            let mut info = info;
            let score: i64 = info.reputation as i64 + delta as i64;
            info.reputation = if score < 0 {
                0
            } else if score > 100 {
                100
            } else {
                score as i32
            };
            self.peers.insert(peer_id, info);
        }
        assert(self.peers() =~= if before.contains_key(peer_id@) {
            let info = before[peer_id@];
            before.insert(
                peer_id@,
                PeerInfoView { reputation: clamped(info.reputation + delta) as i32, ..info },
            )
        } else {
            before
        });
    }

    /// Whether the limit is reached.
    pub fn is_at_limit(&self) -> (r: bool)
        ensures
            r == (self.peers().dom().len() >= self.limit()),
    {
        self.peers.len() >= self.max_connections
    }

    /// The number of connected peers.
    pub fn connected_count(&self) -> (r: usize)
        ensures
            r == self.peers().dom().len(),
    {
        self.peers.len()
    }

    /// A peer with the lowest reputation, when there are more peers than
    /// wanted.
    pub fn evict_candidate(&self) -> (r: Option<String>)
        ensures
            match r {
                None => self.peers().dom().len() <= self.limit(),
                Some(id) => self.peers().dom().len() > self.limit() && self.peers().contains_key(
                    id@,
                ) && forall|other: Seq<char>|
                    self.peers().contains_key(other) ==> self.peers()[id@].reputation <= (
                    #[trigger] self.peers()[other]).reputation,
            },
    {
        let n: usize = self.peers.len();
        if n <= self.max_connections {
            return None;
        }
        let ghost order = self.peers.order();
        let mut best: usize = 0;
        let mut i: usize = 1;
        while i < n
            invariant
                1 <= i <= n,
                best < i,
                n == order.len(),
                order == self.peers.order(),
                forall|j: int|
                    0 <= j < i ==> order[best as int].1.reputation <= (
                    #[trigger] order[j]).1.reputation,
            decreases n - i,
        {
            if self.peers.value_at(i).reputation < self.peers.value_at(best).reputation {
                best = i;
            }
            i += 1;
        }
        proof {
            entry_in_map(order, best as int);
            assert forall|other: Seq<char>| self.peers().contains_key(other) implies self.peers()[order[best as int].0].reputation
                <= (#[trigger] self.peers()[other]).reputation by {
                let j = position(order, other);
                assert(has_key(order, other));
                entry_in_map(order, j);
                assert(order[j].0 == other);
            }
        }
        Some(self.peers.key_at(best).clone())
    }

    /// What is known of a peer.
    pub fn get(&self, peer_id: &str) -> (r: Option<&PeerInfo>)
        ensures
            match r {
                Some(info) => self.peers().contains_key(peer_id@) && info.deep_view()
                    == self.peers()[peer_id@],
                None => !self.peers().contains_key(peer_id@),
            },
    {
        self.peers.get(peer_id)
    }

    /// All connected peers.
    pub fn iter(&self) -> (r: Vec<(&String, &PeerInfo)>)
        ensures
            lists(
                Seq::new(r@.len(), |i: int| (r@[i].0@, r@[i].1.deep_view())),
                self.peers(),
            ),
    {
        let n: usize = self.peers.len();
        let ghost order = self.peers.order();
        let mut out: Vec<(&String, &PeerInfo)> = Vec::new();
        let mut i: usize = 0;
        while i < n
            invariant
                i <= n,
                n == order.len(),
                order == self.peers.order(),
                out@.len() == i,
                forall|j: int|
                    0 <= j < i ==> (#[trigger] out@[j]).0@ == order[j].0 && out@[j].1.deep_view()
                        == order[j].1,
            decreases n - i,
        {
            out.push((self.peers.key_at(i), self.peers.value_at(i)));
            i += 1;
        }
        assert(Seq::new(out@.len(), |i: int| (out@[i].0@, out@[i].1.deep_view())) =~= order);
        out
    }
}

} // verus!
