//! Communities: creating, inviting, joining, changing, deleting.

use crate::api::dialing::OwnAddressesView;
use crate::api::effects::{DhtActionView, EffectView};
use crate::api::event_processor::community_handler::update_handled;
use crate::api::invite::InvitePayloadView;
use crate::api::rpc_server::channel::good_name;
use crate::api::rpc_server::community::{
    community_infos, creation_done, creation_refusal, delete_refusal, farewell, fetch_from_peers,
    invite_fingerprint, invite_refusal, join_done, manifest_updated, own_invite, peers_of,
    pinned_for_all, requested_fingerprint, seed_moves, tombstone, update_effects, update_refusal,
    updated_manifest,
};
use crate::api::rpc_server::{seed_check, RpcError};
use crate::api::types::{CommunityInfo, CreateCommunityParams};
use crate::api::{community_topic, fetch_manifest, subscribe, unsubscribe, AppStateView};
use crate::bytes::zeros;
use crate::config::NodeMode;
use crate::crypto::primitives::ed25519_public_key;
use crate::model::community::{CommunityManifestView, SignedManifestView};
use crate::model::membership::Role;
use crate::model::network_event::NetworkEventView;
use crate::model::types::{ulid_parse, ulid_text, CommunityId};
use crate::network::node_addr::NodeAddr;
use crate::text::{all_hex, hex, hex_round_trip, unhex};
use crate::time::Timestamp;
use vstd::prelude::*;

verus! {

/// Whether only the things of one community differ, and the pinned fingerprints.
pub open spec fn only_community_differs(s: AppStateView, t: AppStateView, c: Seq<char>) -> bool {
    &&& forall|d: Seq<char>|
        d != c ==> (#[trigger] t.communities.contains_key(d) == s.communities.contains_key(d))
            && t.communities[d] == s.communities[d]
    &&& forall|d: Seq<char>| d != c ==> #[trigger] t.member_list(d) == s.member_list(d)
    &&& forall|d: Seq<char>|
        d != c ==> (#[trigger] t.hosting_passwords.contains_key(d)
            == s.hosting_passwords.contains_key(d)) && t.hosting_passwords[d]
            == s.hosting_passwords[d]
    &&& t.channels == s.channels
    &&& t.channel_keys == s.channel_keys
    &&& t.message_log == s.message_log
    &&& t.dms == s.dms
    &&& t.dm_peers == s.dm_peers
    &&& t.bans == s.bans
    &&& t.local == s.local
    &&& t.config == s.config
}

/// A community that is created is the creator's: as named and described, with
/// their key, them as its only admin and a member with the admin's role, no
/// channels, and the first version. Its seeds are pinned to the given fingerprint.
pub proof fn created_communities_are_the_creators(
    s: AppStateView,
    after: AppStateView,
    p: CreateCommunityParams,
    id: CommunityId,
    now: Timestamp,
    parsed: Map<Seq<char>, NodeAddr>,
    own: OwnAddressesView,
    result: Result<CommunityInfo, RpcError>,
    fx: Seq<EffectView>,
    seed: Seq<char>,
)
    requires
        creation_done(s, after, p, id, now, parsed, own, result, fx),
        result is Ok,
    ensures
        ({
            let c = id.name();
            let m = after.communities[c].manifest;
            let seeds = p.seed_nodes.deep_view();
            let me = after.member_list(c)[s.me()];
            &&& after.communities.contains_key(c)
            &&& after.communities[c].valid()
            &&& m.id == id
            &&& m.name == p.name@
            &&& m.description == p.description@
            &&& m.public_key == ed25519_public_key(s.local.key)
            &&& m.admin_ids == seq![s.local.user_id]
            &&& m.channel_ids.len() == 0
            &&& m.seed_nodes == seeds
            &&& m.version == 1
            &&& !m.deleted
            &&& after.member_list(c).contains_key(s.me())
            &&& me.user_id == s.local.user_id
            &&& me.community_id == id
            &&& me.roles == seq![Role::Admin]
            &&& me.public_key == ed25519_public_key(s.local.key)
            &&& p.hosting_password.deep_view() matches Some(pw)
                ==> after.hosting_passwords.contains_key(c) && after.hosting_passwords[c] == pw
            &&& seeds.contains(seed) ==> after.seed_fingerprints.contains_key(seed)
                && after.seed_fingerprints[seed] == unhex(p.seed_fingerprint_hex.deep_view()->0)
                && after.seed_fingerprints[seed] != zeros(32)
            &&& !seeds.contains(seed) && s.seed_fingerprints.contains_key(seed)
                ==> after.seed_fingerprints.contains_key(seed) && after.seed_fingerprints[seed]
                == s.seed_fingerprints[seed]
            &&& only_community_differs(s, after, c)
            &&& fx.contains(subscribe(community_topic(c)))
            &&& fx.contains(
                EffectView::Publish {
                    topic: community_topic(c),
                    event: NetworkEventView::MemberJoined(me),
                },
            )
            &&& fx.contains(
                EffectView::Dht(DhtActionView::AnnounceCommunity { community_pk: m.public_key }),
            )
            &&& result matches Ok(info) && info.deep_view().id == c && info.deep_view().name
                == p.name@ && info.deep_view().version == 1
        }),
{
    let c = id.name();
    let seeds = p.seed_nodes.deep_view();
    let fp = requested_fingerprint(p.seed_fingerprint_hex.deep_view());
    pinned_for_all(s.seed_fingerprints, seeds, fp, seed);
    if seeds.contains(seed) {
        assert(seeds.len() > 0);
    }
    let n = fx.len();
    assert(fx[n - 2] == EffectView::Publish {
        topic: community_topic(c),
        event: NetworkEventView::MemberJoined(after.member_list(c)[s.me()]),
    });
    assert(fx[n - 4] == EffectView::Dht(
        DhtActionView::AnnounceCommunity { community_pk: ed25519_public_key(s.local.key) },
    ));
    let head: int = if seeds.len() > 0 {
        1
    } else {
        0
    };
    let pw: int = if p.hosting_password.deep_view() is Some {
        1
    } else {
        0
    };
    assert(fx[head + pw + 2] == subscribe(community_topic(c)));
}

/// A community is refused only for a name that is too short or too long, for
/// seeds without a fingerprint, or for want of seeds where the node needs one.
pub proof fn sound_communities_can_be_created(
    s: AppStateView,
    name: Seq<char>,
    seeds: Seq<Seq<char>>,
    fingerprint_hex: Option<Seq<char>>,
)
    requires
        1 <= vstd::utf8::encode_utf8(name).len() <= 100,
        seeds.len() > 0 || s.config.node_mode != NodeMode::GossipClient,
        seeds.len() > 0 ==> fingerprint_hex is Some && fingerprint_hex->0.len() == 64 && all_hex(
            fingerprint_hex->0,
        ) && unhex(fingerprint_hex->0) != zeros(32),
    ensures
        creation_refusal(s, name, seeds, fingerprint_hex) is None,
{
}

/// Joining follows the invite: the community's name, key and seeds are those of
/// the invite, the local user is a plain member, and the manifest is asked for.
/// A fingerprint in the invite is pinned for every seed of it.
pub proof fn joining_follows_the_invite(
    s: AppStateView,
    after: AppStateView,
    i: InvitePayloadView,
    password: Option<Seq<char>>,
    now: Timestamp,
    parsed: Map<Seq<char>, NodeAddr>,
    result: Result<CommunityInfo, RpcError>,
    fx: Seq<EffectView>,
    seed: Seq<char>,
    k: int,
)
    requires
        join_done(s, after, i, password, now, parsed, result, fx),
        result is Ok,
    ensures
        ({
            let c = ulid_text(ulid_parse(i.community_id)->0);
            let m = after.communities[c].manifest;
            let me = after.member_list(c)[s.me()];
            let named = i.cert_fingerprint_hex.len() > 0;
            let fp = unhex(i.cert_fingerprint_hex);
            &&& ulid_parse(i.community_id) is Some
            &&& !s.communities.contains_key(c)
            &&& after.communities.contains_key(c)
            &&& m.id.0 == ulid_parse(i.community_id)->0
            &&& m.name == i.name
            &&& m.description == i.description
            &&& m.public_key == i.public_key()
            &&& m.seed_nodes == i.seed_nodes
            &&& m.admin_ids.len() == 0
            &&& m.version == 0
            &&& after.member_list(c).contains_key(s.me())
            &&& me.user_id == s.local.user_id
            &&& me.roles == seq![Role::Member]
            &&& me.public_key == ed25519_public_key(s.local.key)
            &&& after.pending_manifest_syncs.contains(c)
            &&& password matches Some(pw) ==> after.hosting_passwords.contains_key(c)
                && after.hosting_passwords[c] == pw
            &&& i.seed_nodes.contains(seed) && named && fp != zeros(32)
                ==> after.seed_fingerprints.contains_key(seed) && after.seed_fingerprints[seed]
                == fp
            &&& !named ==> after.seed_fingerprints == s.seed_fingerprints
            &&& only_community_differs(s, after, c)
            &&& fx.contains(subscribe(community_topic(c)))
            &&& fx.contains(
                EffectView::Publish {
                    topic: community_topic(c),
                    event: NetworkEventView::MemberJoined(me),
                },
            )
            &&& 0 <= k < peers_of(s, c).len() ==> fx.contains(
                fetch_manifest(peers_of(s, c)[k].peer_id, c, m.public_key),
            )
            &&& fx.contains(
                EffectView::Dht(
                    DhtActionView::DiscoverCommunity {
                        community_pk: m.public_key,
                        community_id: c,
                    },
                ),
            )
        }),
{
    let c = ulid_text(ulid_parse(i.community_id)->0);
    let fp = i.fingerprint()->Ok_0;
    pinned_for_all(s.seed_fingerprints, i.seed_nodes, fp, seed);
    let pending = s.pending_manifest_syncs;
    if !pending.contains(c) {
        assert(after.pending_manifest_syncs[pending.len() as int] == c);
    }
    let pw: int = if password is Some {
        1
    } else {
        0
    };
    assert(fx[1 + pw] == subscribe(community_topic(c)));
    assert(fx[4 + pw] == EffectView::Publish {
        topic: community_topic(c),
        event: NetworkEventView::MemberJoined(after.member_list(c)[s.me()]),
    });
    let m = after.communities[c].manifest;
    assert(fx[fx.len() - 1] == EffectView::Dht(
        DhtActionView::DiscoverCommunity { community_pk: m.public_key, community_id: c },
    ));
    if 0 <= k < peers_of(s, c).len() {
        let asked = fetch_from_peers(peers_of(s, c), c, m.public_key);
        assert(asked[k] == fetch_manifest(peers_of(s, c)[k].peer_id, c, m.public_key));
        assert(fx[5 + pw + k] == asked[k]);
    }
    if i.cert_fingerprint_hex.len() == 0 {
        assert(i.cert_fingerprint_hex =~= Seq::<char>::empty());
        encode_utf8_empty();
    }
}

proof fn encode_utf8_empty()
    ensures
        vstd::utf8::encode_utf8(Seq::<char>::empty()).len() == 0,
{
    assert(vstd::utf8::is_ascii_chars(Seq::<char>::empty()));
    vstd::utf8::is_ascii_chars_encode_utf8(Seq::<char>::empty());
}

/// An invite says of a community what its manifest says, and names the
/// fingerprint that is pinned for the first seed.
pub proof fn invites_describe_the_community(s: AppStateView, c: Seq<char>)
    requires
        invite_refusal(s, c) is None,
        ed25519_public_key(s.local.key).len() == 32,
        s.communities[c].manifest.public_key.len() == 32,
    ensures
        ({
            let m = s.communities[c].manifest;
            let fp = invite_fingerprint(s, m.seed_nodes);
            let i = own_invite(s, c, fp->0);
            &&& fp is Some
            &&& i.community_id == c
            &&& i.name == m.name
            &&& i.description == m.description
            &&& i.seed_nodes == m.seed_nodes
            &&& i.public_key() == m.public_key
            &&& i.cert_fingerprint_hex == hex(fp->0)
            &&& m.seed_nodes.len() > 0 && m.seed_nodes[0].len() > 0
                && s.seed_fingerprints.contains_key(m.seed_nodes[0])
                && s.seed_fingerprints[m.seed_nodes[0]] != zeros(32) ==> fp->0
                == s.seed_fingerprints[m.seed_nodes[0]]
            &&& m.seed_nodes.len() == 0 ==> fp == crate::network::tls::node_fingerprint(
                s.local.key,
            )
            &&& m.lists_admin(s.me())
        }),
{
    hex_round_trip(s.communities[c].manifest.public_key);
}

/// Admins can invite.
pub proof fn admins_can_invite(s: AppStateView, c: Seq<char>)
    requires
        s.communities.contains_key(c),
        s.communities[c].manifest.lists_admin(s.me()),
        crate::network::tls::node_fingerprint(s.local.key) is Some,
    ensures
        invite_refusal(s, c) is None,
{
}

/// A deletion is announced by a manifest that is newer, marked deleted and
/// otherwise the same, so that every member forgets the community.
pub proof fn deletions_reach_members(
    s: AppStateView,
    t: AppStateView,
    after: AppStateView,
    c: Seq<char>,
    source: Option<Seq<char>>,
    parsed: Map<Seq<char>, NodeAddr>,
    fx: Seq<EffectView>,
)
    requires
        s.communities.contains_key(c),
        s.communities[c].manifest.version < u64::MAX,
        s.communities[c].manifest.id.name() == c,
        t.communities.contains_key(c),
        t.communities[c].manifest.version <= s.communities[c].manifest.version,
        t.communities[c].manifest.public_key == s.communities[c].manifest.public_key,
        tombstone(s.communities[c].manifest).signed_with(s.local.key).valid(),
        update_handled(
            t,
            after,
            tombstone(s.communities[c].manifest).signed_with(s.local.key),
            source,
            parsed,
            fx,
        ),
    ensures
        !after.communities.contains_key(c),
        !after.members.contains_key(c),
        tombstone(s.communities[c].manifest).deleted,
        tombstone(s.communities[c].manifest).version == s.communities[c].manifest.version + 1,
        tombstone(s.communities[c].manifest) == (CommunityManifestView {
            deleted: true,
            version: (s.communities[c].manifest.version + 1) as u64,
            ..s.communities[c].manifest
        }),
{
}

/// An update changes what is asked for, keeps the rest, raises the version by
/// one and never touches the key, the admins or the channels.
pub proof fn updates_change_what_is_asked(
    m: CommunityManifestView,
    name: Option<Seq<char>>,
    description: Option<Seq<char>>,
    seeds: Option<Seq<Seq<char>>>,
)
    requires
        m.version < u64::MAX,
    ensures
        ({
            let n = updated_manifest(m, name, description, seeds);
            &&& name is Some ==> n.name == name->0
            &&& name is None ==> n.name == m.name
            &&& description is Some ==> n.description == description->0
            &&& description is None ==> n.description == m.description
            &&& seeds is Some ==> n.seed_nodes == seeds->0
            &&& seeds is None ==> n.seed_nodes == m.seed_nodes
            &&& n.version == m.version + 1
            &&& n.id == m.id
            &&& n.public_key == m.public_key
            &&& n.admin_ids == m.admin_ids
            &&& n.channel_ids == m.channel_ids
            &&& n.created_at == m.created_at
            &&& n.deleted == m.deleted
        }),
{
}

/// An update that moves to a new seed pins the new seeds and copies the community
/// to the new one; any update stands locally and goes to the members.
pub proof fn updates_stand_and_go_out(
    s: AppStateView,
    c: Seq<char>,
    m: CommunityManifestView,
    fp: Seq<u8>,
    seed: Seq<char>,
)
    ensures
        ({
            let t = manifest_updated(s, c, m, fp);
            let fx = update_effects(s, c, m);
            let before = s.communities[c].manifest.seed_nodes;
            let moves = m.seed_nodes.len() > 0 && m.seed_nodes[0].len() > 0 && (before.len() == 0
                || before[0] != m.seed_nodes[0]);
            &&& t.communities.contains_key(c)
            &&& t.communities[c] == m.signed_with(s.local.key)
            &&& only_community_differs(s, t, c)
            &&& t.members == s.members
            &&& moves && m.seed_nodes.contains(seed) ==> t.seed_fingerprints.contains_key(seed)
                && t.seed_fingerprints[seed] == fp
            &&& !moves ==> t.seed_fingerprints == s.seed_fingerprints
            &&& moves ==> fx.contains(
                EffectView::SyncToSeed { community_id: c, seed: m.seed_nodes[0] },
            )
            &&& fx.contains(
                EffectView::Publish {
                    topic: community_topic(c),
                    event: NetworkEventView::ManifestUpdate(m.signed_with(s.local.key)),
                },
            )
        }),
{
    pinned_for_all(s.seed_fingerprints, m.seed_nodes, fp, seed);
    let fx = update_effects(s, c, m);
    let before = s.communities[c].manifest.seed_nodes;
    assert(fx[1] == EffectView::Publish {
        topic: community_topic(c),
        event: NetworkEventView::ManifestUpdate(m.signed_with(s.local.key)),
    });
    if seed_moves(before, m.seed_nodes) {
        assert(fx[4] == EffectView::SyncToSeed { community_id: c, seed: m.seed_nodes[0] });
    }
}

/// The creator can update and delete their community.
pub proof fn creators_can_change_their_community(
    s: AppStateView,
    c: Seq<char>,
    name: Seq<char>,
    description: Seq<char>,
)
    requires
        s.communities.contains_key(c),
        s.communities[c].manifest.lists_admin(s.me()),
        s.communities[c].manifest.public_key == ed25519_public_key(s.local.key),
    ensures
        delete_refusal(s, c) is None,
        seed_check(s, c) is Ok && good_name(name) && vstd::utf8::encode_utf8(description).len()
            <= 500 ==> update_refusal(
            s,
            c,
            Some(name),
            Some(description),
            None,
            None,
        ) is None,
{
}

/// What a creator changes, every member who is not ahead takes over.
pub proof fn updates_reach_members(
    s: AppStateView,
    t: AppStateView,
    after: AppStateView,
    m: CommunityManifestView,
    name: Option<Seq<char>>,
    description: Option<Seq<char>>,
    seeds: Option<Seq<Seq<char>>>,
    source: Option<Seq<char>>,
    parsed: Map<Seq<char>, NodeAddr>,
    fx: Seq<EffectView>,
)
    requires
        m.version < u64::MAX,
        !m.deleted,
        t.communities.contains_key(m.id.name()),
        t.communities[m.id.name()].manifest.version <= m.version,
        t.communities[m.id.name()].manifest.public_key == m.public_key,
        updated_manifest(m, name, description, seeds).signed_with(s.local.key).valid(),
        update_handled(
            t,
            after,
            updated_manifest(m, name, description, seeds).signed_with(s.local.key),
            source,
            parsed,
            fx,
        ),
    ensures
        after.communities.contains_key(m.id.name()),
        name is Some ==> after.communities[m.id.name()].manifest.name == name->0,
        description is Some ==> after.communities[m.id.name()].manifest.description
            == description->0,
        seeds is Some ==> after.communities[m.id.name()].manifest.seed_nodes == seeds->0,
{
}

/// A list of communities shows each one, with its own name, key and seeds.
pub proof fn community_lists_show_everything(
    s: AppStateView,
    order: Seq<(Seq<char>, SignedManifestView)>,
    i: int,
)
    requires
        0 <= i < order.len(),
    ensures
        community_infos(s, order).len() == order.len(),
        ({
            let m = order[i].1.manifest;
            let shown = community_infos(s, order)[i];
            &&& shown.id == m.id.name()
            &&& shown.name == m.name
            &&& shown.description == m.description
            &&& shown.public_key_hex == hex(m.public_key)
            &&& shown.seed_nodes == m.seed_nodes
            &&& shown.version == m.version
            &&& shown.created_at == m.created_at
            &&& shown.seeded == (m.seed_nodes.len() > 0)
            &&& m.seed_nodes.len() == 0 ==> shown.reachable
            &&& shown.admin_ids.len() == m.admin_ids.len()
            &&& forall|k: int|
                0 <= k < m.admin_ids.len() ==> #[trigger] shown.admin_ids[k]
                    == m.admin_ids[k].name()
            &&& shown.channel_ids.len() == m.channel_ids.len()
            &&& forall|k: int|
                0 <= k < m.channel_ids.len() ==> #[trigger] shown.channel_ids[k]
                    == m.channel_ids[k].name()
        }),
{
}

/// Leaving or deleting a community tells its peers first, then leaves its topic and
/// those of all its channels.
pub proof fn leaving_leaves_every_topic(
    s: AppStateView,
    c: Seq<char>,
    head: Seq<EffectView>,
    fx: Seq<EffectView>,
    channel: Seq<char>,
)
    requires
        farewell(s, c, head, fx),
    ensures
        head.is_prefix_of(fx),
        fx.contains(unsubscribe(community_topic(c))),
        s.channels_of(c).contains(channel) ==> fx.contains(
            unsubscribe(crate::api::channel_topic(channel)),
        ),
{
    let names = choose|names: Seq<Seq<char>>|
        names.to_set() == s.channels_of(c) && fx == head + #[trigger] crate::api::removal_effects(
            s,
            c,
            names,
        );
    let rest = crate::api::removal_effects(s, c, names);
    let k: int = if s.communities.contains_key(c) {
        6
    } else {
        5
    };
    assert(rest[k] == unsubscribe(community_topic(c)));
    assert(fx[head.len() + k] == rest[k]);
    if s.channels_of(c).contains(channel) {
        assert(names.to_set().contains(channel));
        let i = names.index_of(channel);
        let topics = crate::api::unsubscribe_all(names);
        assert(topics[i] == unsubscribe(crate::api::channel_topic(channel)));
        assert(rest[k + 1 + i] == topics[i]);
        assert(fx[head.len() + k + 1 + i] == topics[i]);
    }
}

/// A user who leaves says so to the community under their own signature.
pub proof fn leaving_is_announced(s: AppStateView, community: CommunityId, now: Timestamp)
    ensures
        crate::api::rpc_server::member::leave_publication(
            s,
            community.name(),
            s.local.user_id,
            now,
        ).contains(
            EffectView::Publish {
                topic: community_topic(community.name()),
                event: NetworkEventView::MemberLeft {
                    user_id: s.local.user_id,
                    community_id: community,
                    timestamp: now,
                    signature: crate::crypto::primitives::ed25519_signature(
                        s.local.key,
                        crate::model::network_event::leave_message(s.local.user_id, community),
                    ),
                },
            },
        ),
{
    crate::model::types::ulid_text_round_trip(community.0);
    let fx = crate::api::rpc_server::member::leave_publication(
        s,
        community.name(),
        s.local.user_id,
        now,
    );
    assert(fx.contains(fx[0]));
}

/// An invite link begins with the scheme of the program; what follows decodes to the
/// invite.
pub proof fn links_begin_with_the_scheme(i: InvitePayloadView)
    ensures
        crate::text::begins_with(crate::api::invite::invite_link(i), "bitcord://join/"@),
        crate::api::invite::invite_link(i).subrange(
            15,
            crate::api::invite::invite_link(i).len() as int,
        ) == crate::api::invite::base64url_text(crate::api::invite::invite_json(i)),
{
    reveal_strlit("bitcord://join/");
    let link = crate::api::invite::invite_link(i);
    let rest = crate::api::invite::base64url_text(crate::api::invite::invite_json(i));
    assert("bitcord://join/"@.len() == 15);
    assert(link.subrange(0, 15) =~= "bitcord://join/"@);
    assert(link.subrange(15, link.len() as int) =~= rest);
}

} // verus!
