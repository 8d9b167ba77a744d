//! Dialling the seed nodes of a community.

use crate::api::effects::{emit, Effect, EffectView};
use crate::bytes::{is_zero, zeros};
use crate::lists::{array_deep_view, copy_text_opt, vec_deep_view};
use crate::network::network_handle::types::{
    CommunityRef, CommunityRefView, NetworkCommand, NetworkCommandView,
};
use crate::network::node_addr::{Ip, NodeAddr};
use crate::table::Table;
use crate::text::same_text;
use vstd::prelude::*;

verus! {

/// 127.0.0.1 as a number.
pub const LOOPBACK_V4: u32 = 0x7f00_0001;

/// What a node knows of its own addresses, to avoid dialling itself.
pub struct OwnAddresses {
    /// The addresses of the local interfaces. Loopback always counts too.
    pub ips: Vec<Ip>,
    /// The port of the local server.
    pub port: u16,
    /// Listen addresses.
    pub listen: Vec<NodeAddr>,
    /// The publicly routable address as text.
    pub public_addr: Option<String>,
}

/// What [`OwnAddresses`] hold.
pub struct OwnAddressesView {
    pub ips: Seq<Ip>,
    pub port: u16,
    pub listen: Seq<NodeAddr>,
    pub public_addr: Option<Seq<char>>,
}

impl DeepView for OwnAddresses {
    type V = OwnAddressesView;

    open spec fn deep_view(&self) -> OwnAddressesView {
        OwnAddressesView {
            ips: self.ips@,
            port: self.port,
            listen: self.listen@,
            public_addr: self.public_addr.deep_view(),
        }
    }
}

impl OwnAddressesView {
    /// Whether an IP address is one of this machine's.
    pub open spec fn owns_ip(self, ip: Ip) -> bool {
        ip == Ip::V4(LOOPBACK_V4) || ip == Ip::V6(1) || self.ips.contains(ip)
    }

    /// Whether an address, written `name`, points back at this node.
    pub open spec fn is_self(self, name: Seq<char>, addr: NodeAddr) -> bool {
        ||| self.owns_ip(addr.ip) && addr.port == self.port
        ||| self.listen.contains(addr)
        ||| self.public_addr == Some(name)
    }
}

/// Whether `x` is in the list.
fn has_ip(v: &Vec<Ip>, x: Ip) -> (r: bool)
    ensures
        r == v@.contains(x),
{
    let mut i: usize = 0;
    while i < v.len()
        invariant
            i <= v@.len(),
            forall|j: int| 0 <= j < i ==> v@[j] != x,
        decreases v@.len() - i,
    {
        if v[i] == x {
            assert(v@[i as int] == x);
            return true;
        }
        i += 1;
    }
    false
}

/// Whether `x` is in the list.
pub fn has_addr(v: &Vec<NodeAddr>, x: NodeAddr) -> (r: bool)
    ensures
        r == v@.contains(x),
{
    let mut i: usize = 0;
    while i < v.len()
        invariant
            i <= v@.len(),
            forall|j: int| 0 <= j < i ==> v@[j] != x,
        decreases v@.len() - i,
    {
        if v[i] == x {
            assert(v@[i as int] == x);
            return true;
        }
        i += 1;
    }
    false
}

impl OwnAddresses {
    /// Whether an address points back at this node.
    pub fn is_self(&self, name: &str, addr: NodeAddr) -> (r: bool)
        ensures
            r == self.deep_view().is_self(name@, addr),
    {
        let own_ip = addr.ip == Ip::V4(LOOPBACK_V4) || addr.ip == Ip::V6(1) || has_ip(
            &self.ips,
            addr.ip,
        );
        if own_ip && addr.port == self.port {
            return true;
        }
        if has_addr(&self.listen, addr) {
            return true;
        }
        match &self.public_addr {
            Some(a) => same_text(a.as_str(), name),
            None => false,
        }
    }
}

/// The fingerprint to pin for a seed: the given one, else the stored one, else
/// none (all zero).
pub open spec fn fingerprint_for(
    fixed: Option<Seq<u8>>,
    stored: Map<Seq<char>, Seq<u8>>,
    name: Seq<char>,
) -> Seq<u8> {
    match fixed {
        Some(f) => f,
        None => if stored.contains_key(name) {
            stored[name]
        } else {
            zeros(32)
        },
    }
}

/// Dial one seed node of a community.
pub open spec fn seed_dial(
    addr: NodeAddr,
    pk: Seq<u8>,
    community_id: Seq<char>,
    password: Option<Seq<char>>,
    fingerprint: Seq<u8>,
) -> EffectView {
    EffectView::Command(
        NetworkCommandView::Dial {
            addr,
            is_seed: true,
            join_community: Some(CommunityRefView { pk, id: community_id }),
            join_community_password: password,
            cert_fingerprint: fingerprint,
        },
    )
}

/// The dials for a list of seed addresses. A text that is no address is
/// skipped, so is an address of this node itself when `own` is given, and so is
/// a seed without a fingerprint to pin.
pub open spec fn seed_dials(
    seeds: Seq<Seq<char>>,
    parsed: Map<Seq<char>, NodeAddr>,
    own: Option<OwnAddressesView>,
    pk: Seq<u8>,
    community_id: Seq<char>,
    password: Option<Seq<char>>,
    fixed: Option<Seq<u8>>,
    stored: Map<Seq<char>, Seq<u8>>,
) -> Seq<EffectView>
    decreases seeds.len(),
{
    if seeds.len() == 0 {
        Seq::empty()
    } else {
        let head = seed_dials(
            seeds.drop_last(),
            parsed,
            own,
            pk,
            community_id,
            password,
            fixed,
            stored,
        );
        let name = seeds.last();
        if !parsed.contains_key(name) || (own matches Some(o) && o.is_self(name, parsed[name]))
            || fingerprint_for(fixed, stored, name) == zeros(32) {
            head
        } else {
            head.push(
                seed_dial(
                    parsed[name],
                    pk,
                    community_id,
                    password,
                    fingerprint_for(fixed, stored, name),
                ),
            )
        }
    }
}

/// Dial the seed nodes of a community whose fingerprint is pinned.
pub fn dial_seeds(
    out: &mut Vec<Effect>,
    seeds: &Vec<String>,
    parsed: &Table<NodeAddr>,
    own: Option<&OwnAddresses>,
    community: &CommunityRef,
    password: &Option<String>,
    fixed: Option<[u8; 32]>,
    stored: &Table<[u8; 32]>,
)
    ensures
        final(out).deep_view() == old(out).deep_view() + seed_dials(
            seeds.deep_view(),
            parsed.deep_view(),
            match own {
                Some(o) => Some(o.deep_view()),
                None => None,
            },
            community.pk@,
            community.id@,
            password.deep_view(),
            fixed.deep_view(),
            stored.deep_view(),
        ),
{
    broadcast use array_deep_view, vec_deep_view;

    let ghost names = seeds.deep_view();
    let ghost start = out.deep_view();
    let ghost own_view = match own {
        Some(o) => Some(o.deep_view()),
        None => None,
    };
    let mut i: usize = 0;
    assert(start =~= start + seed_dials(
        names.subrange(0, 0),
        parsed.deep_view(),
        own_view,
        community.pk@,
        community.id@,
        password.deep_view(),
        fixed.deep_view(),
        stored.deep_view(),
    ));
    while i < seeds.len()
        invariant
            i <= seeds@.len(),
            names == seeds.deep_view(),
            own_view == match own {
                Some(o) => Some(o.deep_view()),
                None => None,
            },
            out.deep_view() == start + seed_dials(
                names.subrange(0, i as int),
                parsed.deep_view(),
                own_view,
                community.pk@,
                community.id@,
                password.deep_view(),
                fixed.deep_view(),
                stored.deep_view(),
            ),
        decreases seeds@.len() - i,
    {
        assert(names.subrange(0, i + 1).drop_last() =~= names.subrange(0, i as int));
        let name = seeds[i].as_str();
        if let Some(addr) = parsed.get(name) {
            let mine = match own {
                Some(o) => o.is_self(name, *addr),
                None => false,
            };
            if !mine {
                let cert_fingerprint: [u8; 32] = match fixed {
                    Some(f) => f,
                    None => match stored.get(name) {
                        Some(f) => *f,
                        None => {
                            let zero: [u8; 32] = [0u8; 32];
                            assert(zero@ =~= zeros(32));
                            zero
                        },
                    },
                };
                assert(cert_fingerprint@ == fingerprint_for(
                    fixed.deep_view(),
                    stored.deep_view(),
                    names[i as int],
                ));
                let ghost before = out.deep_view();
                if !is_zero(&cert_fingerprint) {
                    emit(
                        out,
                        Effect::Command(
                            NetworkCommand::Dial {
                                addr: *addr,
                                is_seed: true,
                                join_community: Some(community.clone()),
                                join_community_password: copy_text_opt(password),
                                cert_fingerprint,
                            },
                        ),
                    );
                    assert(out.deep_view() =~= before.push(
                        seed_dial(
                            parsed.deep_view()[names[i as int]],
                            community.pk@,
                            community.id@,
                            password.deep_view(),
                            fingerprint_for(fixed.deep_view(), stored.deep_view(), names[i as int]),
                        ),
                    ));
                }
            }
        }
        i += 1;
        assert(out.deep_view() =~= start + seed_dials(
            names.subrange(0, i as int),
            parsed.deep_view(),
            own_view,
            community.pk@,
            community.id@,
            password.deep_view(),
            fixed.deep_view(),
            stored.deep_view(),
        ));
    }
    assert(names.subrange(0, names.len() as int) =~= names);
}

/// A node never dials itself: no dial goes to one of its own addresses.
pub proof fn no_self_dial(
    seeds: Seq<Seq<char>>,
    parsed: Map<Seq<char>, NodeAddr>,
    own: OwnAddressesView,
    pk: Seq<u8>,
    community_id: Seq<char>,
    password: Option<Seq<char>>,
    fixed: Option<Seq<u8>>,
    stored: Map<Seq<char>, Seq<u8>>,
    i: int,
)
    requires
        0 <= i < seed_dials(
            seeds,
            parsed,
            Some(own),
            pk,
            community_id,
            password,
            fixed,
            stored,
        ).len(),
    ensures
        exists|name: Seq<char>|
            {
                &&& seeds.contains(name)
                &&& parsed.contains_key(name)
                &&& !own.is_self(name, parsed[name])
                &&& seed_dials(
                    seeds,
                    parsed,
                    Some(own),
                    pk,
                    community_id,
                    password,
                    fixed,
                    stored,
                )[i] == seed_dial(
                    parsed[name],
                    pk,
                    community_id,
                    password,
                    #[trigger] fingerprint_for(fixed, stored, name),
                )
            },
    decreases seeds.len(),
{
    if seeds.len() > 0 {
        let head = seed_dials(
            seeds.drop_last(),
            parsed,
            Some(own),
            pk,
            community_id,
            password,
            fixed,
            stored,
        );
        if i < head.len() {
            no_self_dial(
                seeds.drop_last(),
                parsed,
                own,
                pk,
                community_id,
                password,
                fixed,
                stored,
                i,
            );
            let name = choose|name: Seq<char>|
                {
                    &&& seeds.drop_last().contains(name)
                    &&& parsed.contains_key(name)
                    &&& !own.is_self(name, parsed[name])
                    &&& head[i] == seed_dial(
                        parsed[name],
                        pk,
                        community_id,
                        password,
                        #[trigger] fingerprint_for(fixed, stored, name),
                    )
                };
            let j = seeds.drop_last().index_of(name);
            assert(seeds[j] == name);
            let f = fingerprint_for(fixed, stored, name);
        } else {
            let name = seeds.last();
            assert(seeds[seeds.len() - 1] == name);
            let f = fingerprint_for(fixed, stored, name);
        }
    }
}

/// No seed is dialled without a pin: no dial carries the all-zero fingerprint.
pub proof fn seeds_are_dialled_pinned(
    seeds: Seq<Seq<char>>,
    parsed: Map<Seq<char>, NodeAddr>,
    own: Option<OwnAddressesView>,
    pk: Seq<u8>,
    community_id: Seq<char>,
    password: Option<Seq<char>>,
    fixed: Option<Seq<u8>>,
    stored: Map<Seq<char>, Seq<u8>>,
    i: int,
)
    requires
        0 <= i < seed_dials(
            seeds,
            parsed,
            own,
            pk,
            community_id,
            password,
            fixed,
            stored,
        ).len(),
    ensures
        seed_dials(seeds, parsed, own, pk, community_id, password, fixed, stored)[i] matches
            EffectView::Command(NetworkCommandView::Dial { is_seed, cert_fingerprint, .. })
            && is_seed && cert_fingerprint != zeros(32),
    decreases seeds.len(),
{
    if seeds.len() > 0 {
        let head = seed_dials(
            seeds.drop_last(),
            parsed,
            own,
            pk,
            community_id,
            password,
            fixed,
            stored,
        );
        if i < head.len() {
            seeds_are_dialled_pinned(
                seeds.drop_last(),
                parsed,
                own,
                pk,
                community_id,
                password,
                fixed,
                stored,
                i,
            );
        }
    }
}

/// The fingerprint to pin for a seed with a stored one is that one.
pub proof fn stored_fingerprints_are_enforced(stored: Map<Seq<char>, Seq<u8>>, name: Seq<char>)
    requires
        stored.contains_key(name),
    ensures
        fingerprint_for(None, stored, name) == stored[name],
{
}

} // verus!
