//! Community requests.

use crate::api::dialing::{dial_seeds, seed_dials, OwnAddresses, OwnAddressesView};
use crate::api::effects::{
    emit, no_effects, DhtAction, DhtActionView, Effect, EffectView, StoreUpdate, StoreUpdateView,
    TableFile,
};
use crate::api::invite::{
    creator_invites_verify, invite_bytes, invite_link, invite_message, make_link, InvitePayload,
    InvitePayloadView,
};
use crate::api::push_broadcaster::{
    CommunityEventData, CommunityEventDataView, PushEvent, PushEventView,
};
use crate::api::rpc_server::channel::{good_name, version_can_grow};
use crate::api::rpc_server::member::ban_list;
use crate::api::rpc_server::{channel, made_elsewhere, seed_check, RpcError};
use crate::api::types::{
    CommunityInfo, CommunityInfoView, CreateCommunityParams, PeerSummaryView, UpdateManifestParams,
};
use crate::api::{
    community_topic, fetch_manifest, subscribe, topic_of_community, without_community, AppState,
    AppStateView,
};
use crate::bytes::{is_zero, to_vec, zeros};
use crate::config::NodeMode;
use crate::crypto::primitives::{ed25519_public_key, ed25519_signature, x25519_public_key};
use crate::identity::x25519_secret_of;
use crate::lists::{
    add_text, array_deep_view, copy_texts, has_text, vec_deep_view, views, views_push, with_text,
};
use crate::model::community::{
    channel_names, channel_texts, user_names, user_texts, CommunityManifest, CommunityManifestView,
    SignedManifest, SignedManifestView,
};
use crate::model::membership::{new_record, MembershipRecord, MembershipRecordView, Role};
use crate::model::network_event::{sign_bytes, NetworkEvent, NetworkEventView};
use crate::model::types::{ulid_parse, ulid_text, ulid_text_round_trip, ChannelId, CommunityId, UserId};
use crate::network::network_handle::types::{CommunityRef, NetworkCommand};
use crate::network::node_addr::NodeAddr;
use crate::network::tls::{node_fingerprint, NodeTlsCert};
use crate::table::{lists, Table};
use crate::text::{
    all_hex, byte_len, bytes_to_hex, hex, hex_round_trip, hex_value, parse_hex, same_text, text,
    unhex,
};
use crate::time::Timestamp;
use vstd::prelude::*;
use vstd::string::*;
use vstd::utf8::*;

verus! {

/// The fingerprint that a request names: 32 zero bytes when it names none or
/// names it badly.
pub open spec fn requested_fingerprint(h: Option<Seq<char>>) -> Seq<u8> {
    match h {
        Some(t) => if t.len() == 64 && all_hex(t) {
            unhex(t)
        } else {
            zeros(32)
        },
        None => zeros(32),
    }
}

/// The fingerprint that a request names.
pub fn parse_requested_fingerprint(h: &Option<String>) -> (r: [u8; 32])
    ensures
        r@ == requested_fingerprint(h.deep_view()),
{
    let zero: [u8; 32] = [0u8; 32];
    assert(zero@ =~= zeros(32));
    match h {
        Some(t) => match parse_hex::<32>(t.as_str()) {
            Some(f) => f,
            None => zero,
        },
        None => zero,
    }
}

/// Decode a string of 64 hexadecimal digits into a 32-byte fingerprint.
pub fn parse_fingerprint_hex(h: &str) -> (r: Option<[u8; 32]>)
    ensures
        r is Some <==> h@.len() == 64 && all_hex(h@),
        r matches Some(f) ==> f@ == unhex(h@),
{
    parse_hex::<32>(h)
}

/// The given fingerprint stored for each of the addresses.
pub open spec fn pinned_for(
    stored: Map<Seq<char>, Seq<u8>>,
    seeds: Seq<Seq<char>>,
    fp: Seq<u8>,
) -> Map<Seq<char>, Seq<u8>>
    decreases seeds.len(),
{
    if seeds.len() == 0 {
        stored
    } else {
        pinned_for(stored, seeds.drop_last(), fp).insert(seeds.last(), fp)
    }
}

/// After pinning, each of the addresses has the fingerprint and no other
/// address changed.
pub proof fn pinned_for_all(
    stored: Map<Seq<char>, Seq<u8>>,
    seeds: Seq<Seq<char>>,
    fp: Seq<u8>,
    name: Seq<char>,
)
    ensures
        seeds.contains(name) ==> pinned_for(stored, seeds, fp).contains_key(name) && pinned_for(
            stored,
            seeds,
            fp,
        )[name] == fp,
        !seeds.contains(name) ==> (pinned_for(stored, seeds, fp).contains_key(name)
            <==> stored.contains_key(name)) && (stored.contains_key(name) ==> pinned_for(
            stored,
            seeds,
            fp,
        )[name] == stored[name]),
    decreases seeds.len(),
{
    if seeds.len() > 0 {
        let head = seeds.drop_last();
        pinned_for_all(stored, head, fp, name);
        assert(seeds.contains(name) <==> head.contains(name) || name == seeds.last()) by {
            if seeds.contains(name) {
                let i = seeds.index_of(name);
                if i < head.len() {
                    assert(head[i] == name);
                }
            }
            if head.contains(name) {
                let i = head.index_of(name);
                assert(seeds[i] == name);
            }
            assert(seeds[seeds.len() - 1] == seeds.last());
        }
    }
}

/// The display name of the local user, or the first eight characters of the
/// given text.
pub open spec fn own_display_name(s: AppStateView, fallback: Seq<char>) -> Seq<char> {
    match s.identity_state.display_name {
        Some(n) => n,
        None => fallback.subrange(0, 8),
    }
}

/// The membership record that the local user makes for itself.
pub open spec fn own_record(
    s: AppStateView,
    community: CommunityId,
    display_name: Seq<char>,
    role: Role,
    now: Timestamp,
) -> MembershipRecordView {
    new_record(
        s.local.key,
        s.local.user_id,
        community,
        display_name,
        now,
        seq![role],
        ed25519_public_key(s.local.key),
        x25519_public_key(x25519_secret_of(s.local.key)),
    )
}

/// The members with one more record in a community.
pub open spec fn with_record(
    s: AppStateView,
    community_id: Seq<char>,
    user_id: Seq<char>,
    m: MembershipRecordView,
) -> Map<Seq<char>, Map<Seq<char>, MembershipRecordView>> {
    s.members.insert(community_id, s.member_list(community_id).insert(user_id, m))
}

/// The hosting passwords with the given one, if any, for a community.
pub open spec fn with_password(
    s: AppStateView,
    community_id: Seq<char>,
    password: Option<Seq<char>>,
) -> Map<Seq<char>, Seq<char>> {
    match password {
        Some(p) => s.hosting_passwords.insert(community_id, p),
        None => s.hosting_passwords,
    }
}

/// Save the hosting passwords when there is a new one.
pub open spec fn password_effects(password: Option<Seq<char>>) -> Seq<EffectView> {
    if password is Some {
        seq![EffectView::Save(TableFile::HostingPasswords)]
    } else {
        Seq::empty()
    }
}

/// Tell clients that a community changed.
pub open spec fn updated_push(community_id: Seq<char>, version: u64) -> EffectView {
    EffectView::Push(
        PushEventView::CommunityManifestUpdated(
            CommunityEventDataView { community_id, version, reason: Seq::empty() },
        ),
    )
}

/// Tell clients that a community changed.
pub fn push_updated(out: &mut Vec<Effect>, community_id: &str, version: u64)
    ensures
        final(out).deep_view() == old(out).deep_view().push(updated_push(community_id@, version)),
{
    emit(
        out,
        Effect::Push(
            PushEvent::CommunityManifestUpdated(
                CommunityEventData {
                    community_id: text(community_id),
                    version,
                    reason: String::new(),
                },
            ),
        ),
    );
}

/// A community as shown to clients.
pub open spec fn community_info(
    m: CommunityManifestView,
    public_key_hex: Seq<char>,
    reachable: bool,
) -> CommunityInfoView {
    CommunityInfoView {
        id: m.id.name(),
        name: m.name,
        description: m.description,
        public_key_hex,
        admin_ids: user_names(m.admin_ids),
        channel_ids: channel_names(m.channel_ids),
        seed_nodes: m.seed_nodes,
        version: m.version,
        created_at: m.created_at,
        reachable,
        seeded: m.seed_nodes.len() > 0,
    }
}

/// A community as shown to clients.
fn info_of_community(m: &CommunityManifest, public_key_hex: String, reachable: bool) -> (r:
    CommunityInfo)
    ensures
        r.deep_view() == community_info(m.deep_view(), public_key_hex@, reachable),
{
    CommunityInfo {
        id: m.id.to_string(),
        name: m.name.clone(),
        description: m.description.clone(),
        public_key_hex,
        admin_ids: user_texts(&m.admin_ids),
        channel_ids: channel_texts(&m.channel_ids),
        seed_nodes: copy_texts(&m.seed_nodes),
        version: m.version,
        created_at: m.created_at,
        reachable,
        seeded: m.seed_nodes.len() > 0,
    }
}

/// Why a community cannot be created.
pub open spec fn creation_refusal(
    s: AppStateView,
    name: Seq<char>,
    seed_nodes: Seq<Seq<char>>,
    fingerprint_hex: Option<Seq<char>>,
) -> Option<RpcError> {
    if s.config.node_mode == NodeMode::GossipClient && seed_nodes.len() == 0 {
        Some(RpcError::GossipClientNeedsSeed)
    } else if !good_name(name) {
        Some(RpcError::NameLength)
    } else if seed_nodes.len() > 0 && requested_fingerprint(fingerprint_hex) == zeros(32) {
        Some(RpcError::SeedFingerprintRequired)
    } else {
        None
    }
}

/// The manifest of a new community of the local user.
pub open spec fn new_manifest(
    s: AppStateView,
    id: CommunityId,
    name: Seq<char>,
    description: Seq<char>,
    seed_nodes: Seq<Seq<char>>,
    now: Timestamp,
) -> CommunityManifestView {
    CommunityManifestView {
        id,
        name,
        description,
        public_key: ed25519_public_key(s.local.key),
        created_at: now,
        admin_ids: seq![s.local.user_id],
        channel_ids: Seq::empty(),
        seed_nodes,
        version: 1,
        deleted: false,
    }
}

/// The state after the local user created a community.
pub open spec fn community_created(
    s: AppStateView,
    m: CommunityManifestView,
    password: Option<Seq<char>>,
    fp: Seq<u8>,
    now: Timestamp,
) -> AppStateView {
    let cid = m.id.name();
    let record = own_record(s, m.id, own_display_name(s, cid), Role::Admin, now);
    AppStateView {
        seed_fingerprints: pinned_for(s.seed_fingerprints, m.seed_nodes, fp),
        communities: s.communities.insert(cid, m.signed_with(s.local.key)),
        hosting_passwords: with_password(s, cid, password),
        members: with_record(s, cid, s.me(), record),
        ..s
    }
}

/// What is done after the local user created a community.
pub open spec fn creation_effects(
    s: AppStateView,
    m: CommunityManifestView,
    password: Option<Seq<char>>,
    fp: Seq<u8>,
    now: Timestamp,
    parsed: Map<Seq<char>, NodeAddr>,
    own: OwnAddressesView,
) -> Seq<EffectView> {
    let cid = m.id.name();
    let record = own_record(s, m.id, own_display_name(s, cid), Role::Admin, now);
    let pin = if m.seed_nodes.len() > 0 {
        seq![EffectView::Save(TableFile::SeedFingerprints)]
    } else {
        Seq::empty()
    };
    pin + seq![EffectView::Save(TableFile::Communities)] + password_effects(password) + seq![
        EffectView::Store(StoreUpdateView::CreateCommunity { community_id: cid }),
        subscribe(community_topic(cid)),
    ] + seed_dials(
        m.seed_nodes,
        parsed,
        Some(own),
        m.public_key,
        cid,
        password,
        Some(fp),
        pinned_for(s.seed_fingerprints, m.seed_nodes, fp),
    ) + seq![
        EffectView::Dht(DhtActionView::AnnounceCommunity { community_pk: m.public_key }),
        EffectView::Save(TableFile::Members),
        EffectView::Publish {
            topic: community_topic(cid),
            event: NetworkEventView::MemberJoined(record),
        },
        updated_push(cid, 1),
    ]
}

/// Why an invite is not accepted.
pub open spec fn join_refusal(s: AppStateView, i: InvitePayloadView) -> Option<RpcError> {
    if i.name.len() == 0 {
        Some(RpcError::InviteWithoutName)
    } else {
        match ulid_parse(i.community_id) {
            None => Some(RpcError::InviteCommunityId),
            Some(v) => if s.communities.contains_key(ulid_text(v)) {
                Some(RpcError::AlreadyMember)
            } else if ban_list(s, ulid_text(v)).contains(s.me()) {
                Some(RpcError::Banned)
            } else if i.claims_signature() && !i.signed() {
                Some(RpcError::InviteSignature)
            } else {
                match i.fingerprint() {
                    Err(e) => Some(e),
                    Ok(_) => None,
                }
            },
        }
    }
}

/// The placeholder manifest of a community that was just joined.
pub open spec fn joined_manifest(i: InvitePayloadView, now: Timestamp) -> CommunityManifestView {
    CommunityManifestView {
        id: CommunityId(ulid_parse(i.community_id)->0),
        name: i.name,
        description: i.description,
        public_key: i.public_key(),
        created_at: now,
        admin_ids: Seq::empty(),
        channel_ids: Seq::empty(),
        seed_nodes: i.seed_nodes,
        version: 0,
        deleted: false,
    }
}

/// The seed fingerprints after an invite was accepted.
pub open spec fn pinned_by_invite(s: AppStateView, i: InvitePayloadView) -> Map<Seq<char>, Seq<u8>> {
    let fp = i.fingerprint()->Ok_0;
    if fp == zeros(32) {
        s.seed_fingerprints
    } else {
        pinned_for(s.seed_fingerprints, i.seed_nodes, fp)
    }
}

/// The state after the local user joined a community.
pub open spec fn community_joined(
    s: AppStateView,
    i: InvitePayloadView,
    password: Option<Seq<char>>,
    now: Timestamp,
) -> AppStateView {
    let m = joined_manifest(i, now);
    let cid = m.id.name();
    let record = own_record(s, m.id, own_display_name(s, cid), Role::Member, now);
    AppStateView {
        communities: s.communities.insert(
            cid,
            SignedManifestView { manifest: m, signature: zeros(64) },
        ),
        hosting_passwords: with_password(s, cid, password),
        members: with_record(s, cid, s.me(), record),
        pending_manifest_syncs: with_text(s.pending_manifest_syncs, cid),
        seed_fingerprints: pinned_by_invite(s, i),
        ..s
    }
}

/// Ask every listed peer for a community's manifest.
pub open spec fn fetch_from_peers(
    peers: Seq<PeerSummaryView>,
    community_id: Seq<char>,
    pk: Seq<u8>,
) -> Seq<EffectView> {
    Seq::new(peers.len(), |j: int| fetch_manifest(peers[j].peer_id, community_id, pk))
}

/// The connected peers of a community.
pub open spec fn peers_of(s: AppStateView, community_id: Seq<char>) -> Seq<PeerSummaryView> {
    if s.connected_peers.contains_key(community_id) {
        s.connected_peers[community_id]
    } else {
        Seq::empty()
    }
}

/// What is done after the local user joined a community.
pub open spec fn join_effects(
    s: AppStateView,
    i: InvitePayloadView,
    password: Option<Seq<char>>,
    now: Timestamp,
    parsed: Map<Seq<char>, NodeAddr>,
) -> Seq<EffectView> {
    let m = joined_manifest(i, now);
    let cid = m.id.name();
    let record = own_record(s, m.id, own_display_name(s, cid), Role::Member, now);
    let fp = i.fingerprint()->Ok_0;
    let pin = if fp == zeros(32) {
        Seq::empty()
    } else {
        seq![EffectView::Save(TableFile::SeedFingerprints)]
    };
    seq![EffectView::Save(TableFile::Communities)] + password_effects(password) + seq![
        subscribe(community_topic(cid)),
        EffectView::Save(TableFile::Members),
        updated_push(cid, 0),
        EffectView::Publish {
            topic: community_topic(cid),
            event: NetworkEventView::MemberJoined(record),
        },
    ] + fetch_from_peers(peers_of(s, cid), cid, m.public_key) + pin + seed_dials(
        m.seed_nodes,
        parsed,
        None,
        m.public_key,
        cid,
        password,
        Some(fp),
        pinned_by_invite(s, i),
    ) + seq![
        EffectView::Dht(DhtActionView::AnnounceCommunity { community_pk: m.public_key }),
        EffectView::Dht(
            DhtActionView::DiscoverCommunity { community_pk: m.public_key, community_id: cid },
        ),
    ]
}

/// Pin a fingerprint for each of the addresses.
pub fn pin_seeds(stored: &mut Table<[u8; 32]>, seeds: &Vec<String>, fp: [u8; 32])
    ensures
        final(stored).deep_view() == pinned_for(
            old(stored).deep_view(),
            seeds.deep_view(),
            fp@,
        ),
{
    broadcast use array_deep_view;

    let ghost start = stored.deep_view();
    let ghost names = seeds.deep_view();
    let mut i: usize = 0;
    while i < seeds.len()
        invariant
            i <= seeds@.len(),
            names == seeds.deep_view(),
            stored.deep_view() == pinned_for(start, names.subrange(0, i as int), fp@),
        decreases seeds@.len() - i,
    {
        assert(names.subrange(0, i + 1).drop_last() =~= names.subrange(0, i as int));
        assert(names[i as int] == seeds@[i as int]@);
        assert(fp.deep_view() =~= fp@);
        stored.insert(seeds[i].as_str(), fp);
        i += 1;
    }
    assert(names.subrange(0, names.len() as int) =~= names);
}

impl AppState {
    /// The display name of the local user, or the first eight characters of
    /// the given text.
    pub fn own_name(&self, fallback: &str) -> (r: String)
        requires
            fallback@.len() >= 8,
        ensures
            r@ == own_display_name(self.deep_view(), fallback@),
    {
        match &self.identity_state.display_name {
            Some(n) => n.clone(),
            None => text(fallback.substring_char(0, 8)),
        }
    }

    /// A membership record of the local user.
    pub fn make_own_record(
        &self,
        community: CommunityId,
        display_name: String,
        role: Role,
        now: Timestamp,
    ) -> (r: MembershipRecord)
        ensures
            r.deep_view() == own_record(
                self.deep_view(),
                community,
                display_name@,
                role,
                now,
            ),
            r.deep_view().self_signed(),
    {
        let mut roles: Vec<Role> = Vec::new();
        roles.push(role);
        assert(roles@ =~= seq![role]);
        MembershipRecord::create(
            self.local.signing_key(),
            self.local.user_id(),
            community,
            display_name,
            now,
            roles,
            self.local.public_key(),
            self.local.x25519_public(),
        )
    }

    /// Add or replace a record in the member list of a community.
    pub fn put_member(&mut self, community_id: &str, user_id: &str, record: MembershipRecord)
        ensures
            final(self).deep_view() == (AppStateView {
                members: with_record(
                    old(self).deep_view(),
                    community_id@,
                    user_id@,
                    record.deep_view(),
                ),
                ..old(self).deep_view()
            }),
    {
        let ghost s = old(self).deep_view();
        let mut list: Table<MembershipRecord> = match self.members.remove(community_id) {
            Some(l) => l,
            None => Table::new(),
        };
        assert(list.deep_view() =~= s.member_list(community_id@));
        list.insert(user_id, record);
        self.members.insert(community_id, list);
        assert(self.deep_view().members =~= with_record(
            s,
            community_id@,
            user_id@,
            record.deep_view(),
        ));
    }

    /// Create a community under the given id at the given time. `parsed` holds
    /// the seed addresses that are well formed, `own` this node's addresses.
    #[verifier::rlimit(80)]
    pub fn community_create_with(
        &mut self,
        p: CreateCommunityParams,
        id: CommunityId,
        now: Timestamp,
        parsed: &Table<NodeAddr>,
        own: &OwnAddresses,
    ) -> (r: (Result<CommunityInfo, RpcError>, Vec<Effect>))
        ensures
            creation_done(
                old(self).deep_view(),
                final(self).deep_view(),
                p,
                id,
                now,
                parsed.deep_view(),
                own.deep_view(),
                r.0,
                r.1.deep_view(),
            ),
    {
        broadcast use array_deep_view;

        let ghost s = old(self).deep_view();
        if self.config.node_mode == NodeMode::GossipClient && p.seed_nodes.len() == 0 {
            return (Err(RpcError::GossipClientNeedsSeed), no_effects());
        }
        let n: usize = byte_len(p.name.as_str());
        if n == 0 || n > 100 {
            return (Err(RpcError::NameLength), no_effects());
        }
        let fp = parse_requested_fingerprint(&p.seed_fingerprint_hex);
        if p.seed_nodes.len() > 0 && is_zero(&fp) {
            return (Err(RpcError::SeedFingerprintRequired), no_effects());
        }
        let mut out = no_effects();
        pin_seeds(&mut self.seed_fingerprints, &p.seed_nodes, fp);
        if p.seed_nodes.len() > 0 {
            emit(&mut out, Effect::Save(TableFile::SeedFingerprints));
        }
        let pk = self.local.public_key();
        let mut admin_ids: Vec<UserId> = Vec::new();
        admin_ids.push(self.local.user_id());
        let manifest = CommunityManifest {
            id,
            name: p.name,
            description: p.description,
            public_key: pk,
            created_at: now,
            admin_ids,
            channel_ids: Vec::new(),
            seed_nodes: p.seed_nodes,
            version: 1,
            deleted: false,
        };
        let ghost m = new_manifest(s, id, p.name@, p.description@, p.seed_nodes.deep_view(), now);
        assert(manifest.deep_view() == m) by {
            assert(manifest.admin_ids@ =~= seq![s.local.user_id]);
            assert(manifest.channel_ids@ =~= Seq::<ChannelId>::empty());
        }
        let seeds = copy_texts(&manifest.seed_nodes);
        let info = info_of_community(&manifest, self.local.public_key_hex(), true);
        let signed = manifest.sign(self.local.signing_key());
        let cid = id.to_string();
        proof {
            ulid_text_round_trip(id.0);
        }
        self.communities.insert(cid.as_str(), signed);
        emit(&mut out, Effect::Save(TableFile::Communities));
        if let Some(pw) = &p.hosting_password {
            self.hosting_passwords.insert(cid.as_str(), pw.clone());
            emit(&mut out, Effect::Save(TableFile::HostingPasswords));
        }
        emit(&mut out, Effect::Store(StoreUpdate::CreateCommunity { community_id: cid.clone() }));
        emit(
            &mut out,
            Effect::Command(NetworkCommand::Subscribe(topic_of_community(cid.as_str()))),
        );
        let community = CommunityRef { pk, id: cid.clone() };
        dial_seeds(
            &mut out,
            &seeds,
            parsed,
            Some(own),
            &community,
            &p.hosting_password,
            Some(fp),
            &self.seed_fingerprints,
        );
        emit(&mut out, Effect::Dht(DhtAction::AnnounceCommunity { community_pk: pk }));
        let record = self.make_own_record(id, self.own_name(cid.as_str()), Role::Admin, now);
        let me = self.local.peer_id();
        self.put_member(cid.as_str(), me.as_str(), record.clone());
        emit(&mut out, Effect::Save(TableFile::Members));
        emit(
            &mut out,
            Effect::Publish {
                topic: topic_of_community(cid.as_str()),
                event: NetworkEvent::MemberJoined(record),
            },
        );
        push_updated(&mut out, cid.as_str(), 1);
        proof {
            let pw = p.hosting_password.deep_view();
            let after = community_created(s, m, pw, fp@, now);
            assert(self.deep_view().members =~= after.members);
            assert(self.deep_view().hosting_passwords =~= after.hosting_passwords);
            assert(out.deep_view() =~= creation_effects(
                s,
                m,
                pw,
                fp@,
                now,
                parsed.deep_view(),
                own.deep_view(),
            ));
        }
        (Ok(info), out)
    }

    /// Create a community now, under a fresh id.
    pub fn community_create(
        &mut self,
        p: CreateCommunityParams,
        parsed: &Table<NodeAddr>,
        own: &OwnAddresses,
    ) -> (r: (Result<CommunityInfo, RpcError>, Vec<Effect>))
        ensures
            exists|id: CommunityId, now: Timestamp|
                #[trigger] creation_done(
                    old(self).deep_view(),
                    final(self).deep_view(),
                    p,
                    id,
                    now,
                    parsed.deep_view(),
                    own.deep_view(),
                    r.0,
                    r.1.deep_view(),
                ),
    {
        let id = CommunityId::new();
        let now = Timestamp::now();
        self.community_create_with(p, id, now, parsed, own)
    }
}

/// What a request to create a community leads to.
pub open spec fn creation_done(
    s: AppStateView,
    after: AppStateView,
    p: CreateCommunityParams,
    id: CommunityId,
    now: Timestamp,
    parsed: Map<Seq<char>, NodeAddr>,
    own: OwnAddressesView,
    result: Result<CommunityInfo, RpcError>,
    fx: Seq<EffectView>,
) -> bool {
    let m = new_manifest(s, id, p.name@, p.description@, p.seed_nodes.deep_view(), now);
    let pw = p.hosting_password.deep_view();
    let fp = requested_fingerprint(p.seed_fingerprint_hex.deep_view());
    match creation_refusal(
        s,
        p.name@,
        p.seed_nodes.deep_view(),
        p.seed_fingerprint_hex.deep_view(),
    ) {
        Some(e) => result == Err::<CommunityInfo, RpcError>(e) && fx.len() == 0 && after == s,
        None => {
            &&& after == community_created(s, m, pw, fp, now)
            &&& fx == creation_effects(s, m, pw, fp, now, parsed, own)
            &&& result matches Ok(info) && info.deep_view() == community_info(
                m,
                hex(ed25519_public_key(s.local.key)),
                true,
            )
            &&& after.communities[id.name()].valid()
        },
    }
}

/// What a request to join a community leads to.
pub open spec fn join_done(
    s: AppStateView,
    after: AppStateView,
    i: InvitePayloadView,
    password: Option<Seq<char>>,
    now: Timestamp,
    parsed: Map<Seq<char>, NodeAddr>,
    result: Result<CommunityInfo, RpcError>,
    fx: Seq<EffectView>,
) -> bool {
    match join_refusal(s, i) {
        Some(e) => result == Err::<CommunityInfo, RpcError>(e) && fx.len() == 0 && after == s,
        None => {
            &&& after == community_joined(s, i, password, now)
            &&& fx == join_effects(s, i, password, now, parsed)
            &&& result matches Ok(info) && info.deep_view() == community_info(
                joined_manifest(i, now),
                i.public_key_hex,
                i.seed_nodes.len() == 0,
            )
        },
    }
}

/// The invite that the local user makes for a community.
pub open spec fn own_invite(
    s: AppStateView,
    community_id: Seq<char>,
    cert_fingerprint: Seq<u8>,
) -> InvitePayloadView {
    let m = s.communities[community_id].manifest;
    InvitePayloadView {
        community_id,
        name: m.name,
        description: m.description,
        seed_nodes: m.seed_nodes,
        public_key_hex: hex(m.public_key),
        sig_hex: hex(
            ed25519_signature(
                s.local.key,
                invite_message(
                    community_id,
                    m.name,
                    m.description,
                    hex(m.public_key),
                    m.seed_nodes,
                ),
            ),
        ),
        cert_fingerprint_hex: hex(cert_fingerprint),
    }
}

/// The fingerprint that goes into an invite: the one stored for the first
/// seed, or this node's own when there is none.
pub open spec fn invite_fingerprint(s: AppStateView, seeds: Seq<Seq<char>>) -> Option<Seq<u8>> {
    if seeds.len() > 0 && seeds[0].len() > 0 && s.seed_fingerprints.contains_key(seeds[0])
        && s.seed_fingerprints[seeds[0]] != zeros(32) {
        Some(s.seed_fingerprints[seeds[0]])
    } else {
        node_fingerprint(s.local.key)
    }
}

/// Why an invite cannot be made.
pub open spec fn invite_refusal(s: AppStateView, community_id: Seq<char>) -> Option<RpcError> {
    if !s.communities.contains_key(community_id) {
        Some(RpcError::CommunityNotFound)
    } else if !s.communities[community_id].manifest.lists_admin(s.me()) {
        Some(RpcError::InviteByAdminOnly)
    } else if invite_fingerprint(s, s.communities[community_id].manifest.seed_nodes) is None {
        Some(RpcError::CertificateFailed)
    } else {
        None
    }
}

/// Why a community cannot be deleted.
pub open spec fn delete_refusal(s: AppStateView, community_id: Seq<char>) -> Option<RpcError> {
    if !s.communities.contains_key(community_id) {
        Some(RpcError::CommunityNotFound)
    } else if !s.communities[community_id].manifest.lists_admin(s.me()) {
        Some(RpcError::DeleteByAdminOnly)
    } else if made_elsewhere(s, community_id) {
        Some(RpcError::CreatorOnly)
    } else {
        None
    }
}

/// The manifest that announces a deletion.
pub open spec fn tombstone(m: CommunityManifestView) -> CommunityManifestView {
    CommunityManifestView { deleted: true, version: (m.version + 1) as u64, ..m }
}

/// What is done after a community was left or deleted: `head`, then what
/// forgetting it takes.
pub open spec fn farewell(
    s: AppStateView,
    community_id: Seq<char>,
    head: Seq<EffectView>,
    fx: Seq<EffectView>,
) -> bool {
    exists|names: Seq<Seq<char>>|
        names.to_set() == s.channels_of(community_id) && fx == head
            + #[trigger] crate::api::removal_effects(s, community_id, names)
}

/// The listed communities as shown to clients.
pub open spec fn community_infos(
    s: AppStateView,
    order: Seq<(Seq<char>, SignedManifestView)>,
) -> Seq<CommunityInfoView> {
    Seq::new(
        order.len(),
        |i: int|
            community_info(
                order[i].1.manifest,
                hex(order[i].1.manifest.public_key),
                s.is_reachable(order[i].1.manifest.id.name(), order[i].1.manifest.seed_nodes),
            ),
    )
}

/// The first seed address; empty when there is none.
pub open spec fn first_seed(seeds: Seq<Seq<char>>) -> Seq<char> {
    if seeds.len() > 0 {
        seeds[0]
    } else {
        Seq::empty()
    }
}

/// Whether a community moves to another seed node.
pub open spec fn seed_moves(old_seeds: Seq<Seq<char>>, new_seeds: Seq<Seq<char>>) -> bool {
    first_seed(new_seeds).len() > 0 && first_seed(new_seeds) != first_seed(old_seeds)
}

/// The manifest after an update.
pub open spec fn updated_manifest(
    m: CommunityManifestView,
    name: Option<Seq<char>>,
    description: Option<Seq<char>>,
    seeds: Option<Seq<Seq<char>>>,
) -> CommunityManifestView {
    CommunityManifestView {
        name: match name {
            Some(n) => n,
            None => m.name,
        },
        description: match description {
            Some(d) => d,
            None => m.description,
        },
        seed_nodes: match seeds {
            Some(v) => v,
            None => m.seed_nodes,
        },
        version: (m.version + 1) as u64,
        ..m
    }
}

/// Why a manifest update is refused.
pub open spec fn update_refusal(
    s: AppStateView,
    community_id: Seq<char>,
    name: Option<Seq<char>>,
    description: Option<Seq<char>>,
    seeds: Option<Seq<Seq<char>>>,
    fingerprint_hex: Option<Seq<char>>,
) -> Option<RpcError> {
    match seed_check(s, community_id) {
        Err(e) => Some(e),
        Ok(_) => {
            let m = s.communities[community_id].manifest;
            if name matches Some(n) && !good_name(n) {
                Some(RpcError::NameLength)
            } else if description matches Some(d) && encode_utf8(d).len() > 500 {
                Some(RpcError::DescriptionLength)
            } else if !m.lists_admin(s.me()) {
                Some(RpcError::UpdateByAdminOnly)
            } else if made_elsewhere(s, community_id) {
                Some(RpcError::CreatorOnly)
            } else if seeds matches Some(v) && seed_moves(m.seed_nodes, v)
                && requested_fingerprint(fingerprint_hex) == zeros(32) {
                Some(RpcError::NewSeedFingerprintRequired)
            } else {
                None
            }
        },
    }
}

/// The state after a manifest update.
pub open spec fn manifest_updated(
    s: AppStateView,
    community_id: Seq<char>,
    m: CommunityManifestView,
    fp: Seq<u8>,
) -> AppStateView {
    let old_seeds = s.communities[community_id].manifest.seed_nodes;
    AppStateView {
        communities: s.communities.insert(community_id, m.signed_with(s.local.key)),
        seed_fingerprints: if seed_moves(old_seeds, m.seed_nodes) {
            pinned_for(s.seed_fingerprints, m.seed_nodes, fp)
        } else {
            s.seed_fingerprints
        },
        ..s
    }
}

/// What is done after a manifest update. The community is copied to a new seed
/// node.
pub open spec fn update_effects(
    s: AppStateView,
    community_id: Seq<char>,
    m: CommunityManifestView,
) -> Seq<EffectView> {
    let old_seeds = s.communities[community_id].manifest.seed_nodes;
    let moves = seed_moves(old_seeds, m.seed_nodes);
    let pin = if moves {
        seq![EffectView::Save(TableFile::SeedFingerprints)]
    } else {
        Seq::empty()
    };
    let sync = if moves {
        seq![EffectView::SyncToSeed { community_id, seed: first_seed(m.seed_nodes) }]
    } else {
        Seq::empty()
    };
    seq![
        EffectView::Save(TableFile::Communities),
        EffectView::Publish {
            topic: community_topic(community_id),
            event: NetworkEventView::ManifestUpdate(m.signed_with(s.local.key)),
        },
        updated_push(community_id, m.version),
    ] + pin + sync
}

/// A copy of the first seed address; empty when there is none.
pub fn first_seed_text(seeds: &Vec<String>) -> (r: String)
    ensures
        r@ == first_seed(seeds.deep_view()),
{
    if seeds.len() > 0 {
        seeds[0].clone()
    } else {
        String::new()
    }
}

/// Whether a community moves to another seed node.
pub fn moves_seed(old_seeds: &Vec<String>, new_seeds: &Vec<String>) -> (r: bool)
    ensures
        r == seed_moves(old_seeds.deep_view(), new_seeds.deep_view()),
{
    let new_first = first_seed_text(new_seeds);
    let old_first = first_seed_text(old_seeds);
    !new_first.as_str().is_empty() && !same_text(new_first.as_str(), old_first.as_str())
}

impl AppState {
    /// Ask every connected peer of a community for its manifest.
    pub fn fetch_from_connected(&self, out: &mut Vec<Effect>, community_id: &str, pk: [u8; 32])
        ensures
            final(out).deep_view() == old(out).deep_view() + fetch_from_peers(
                peers_of(self.deep_view(), community_id@),
                community_id@,
                pk@,
            ),
    {
        broadcast use vec_deep_view;

        let ghost start = out.deep_view();
        let ghost peers = peers_of(self.deep_view(), community_id@);
        let ghost none = fetch_from_peers(Seq::empty(), community_id@, pk@);
        assert(start + none =~= start);
        if let Some(list) = self.connected_peers.get(community_id) {
            let mut i: usize = 0;
            assert(peers.subrange(0, 0) =~= Seq::empty());
            while i < list.len()
                invariant
                    i <= list@.len(),
                    peers == views(list@),
                    out.deep_view() == start + fetch_from_peers(
                        peers.subrange(0, i as int),
                        community_id@,
                        pk@,
                    ),
                decreases list@.len() - i,
            {
                emit(
                    out,
                    Effect::Command(
                        NetworkCommand::FetchManifest {
                            peer_id: list[i].peer_id.clone(),
                            community_id: text(community_id),
                            community_pk: pk,
                        },
                    ),
                );
                i += 1;
                assert(fetch_from_peers(peers.subrange(0, i as int), community_id@, pk@)
                    =~= fetch_from_peers(peers.subrange(0, i - 1), community_id@, pk@).push(
                    fetch_manifest(peers[i - 1].peer_id, community_id@, pk@),
                ));
                assert(out.deep_view() =~= start + fetch_from_peers(
                    peers.subrange(0, i as int),
                    community_id@,
                    pk@,
                ));
            }
            assert(peers.subrange(0, peers.len() as int) =~= peers);
        } else {
            assert(peers =~= Seq::empty());
        }
    }

    /// Join the community of an invite at the given time.
    #[verifier::rlimit(100)]
    pub fn community_join_at(
        &mut self,
        invite: InvitePayload,
        hosting_password: Option<String>,
        now: Timestamp,
        parsed: &Table<NodeAddr>,
    ) -> (r: (Result<CommunityInfo, RpcError>, Vec<Effect>))
        ensures
            join_done(
                old(self).deep_view(),
                final(self).deep_view(),
                invite.deep_view(),
                hosting_password.deep_view(),
                now,
                parsed.deep_view(),
                r.0,
                r.1.deep_view(),
            ),
    {
        broadcast use array_deep_view;

        let ghost s = old(self).deep_view();
        let ghost inv = invite.deep_view();
        if invite.name.as_str().is_empty() {
            return (Err(RpcError::InviteWithoutName), no_effects());
        }
        let id = match CommunityId::from_string(invite.community_id.as_str()) {
            Some(id) => id,
            None => {
                return (Err(RpcError::InviteCommunityId), no_effects());
            },
        };
        let cid = id.to_string();
        proof {
            ulid_text_round_trip(id.0);
        }
        if self.communities.contains_key(cid.as_str()) {
            return (Err(RpcError::AlreadyMember), no_effects());
        }
        let me = self.local.peer_id();
        let banned = match self.bans.get(cid.as_str()) {
            Some(list) => has_text(list, me.as_str()),
            None => false,
        };
        if banned {
            return (Err(RpcError::Banned), no_effects());
        }
        if invite.signature_is_bad() {
            return (Err(RpcError::InviteSignature), no_effects());
        }
        let fp = match invite.fingerprint() {
            Ok(f) => f,
            Err(e) => {
                return (Err(e), no_effects());
            },
        };
        let pk = invite.public_key();
        let manifest = CommunityManifest {
            id,
            name: invite.name,
            description: invite.description,
            public_key: pk,
            created_at: now,
            admin_ids: Vec::new(),
            channel_ids: Vec::new(),
            seed_nodes: copy_texts(&invite.seed_nodes),
            version: 0,
            deleted: false,
        };
        let ghost m = joined_manifest(inv, now);
        assert(manifest.deep_view() == m) by {
            assert(manifest.admin_ids@ =~= Seq::<UserId>::empty());
            assert(manifest.channel_ids@ =~= Seq::<ChannelId>::empty());
        }
        let info = info_of_community(
            &manifest,
            invite.public_key_hex,
            invite.seed_nodes.len() == 0,
        );
        let zero: [u8; 64] = [0u8; 64];
        assert(zero@ =~= zeros(64));
        let signed = SignedManifest { manifest, signature: to_vec(zero.as_slice()) };
        self.communities.insert(cid.as_str(), signed);
        let mut out = no_effects();
        emit(&mut out, Effect::Save(TableFile::Communities));
        if let Some(pw) = &hosting_password {
            self.hosting_passwords.insert(cid.as_str(), pw.clone());
            emit(&mut out, Effect::Save(TableFile::HostingPasswords));
        }
        emit(
            &mut out,
            Effect::Command(NetworkCommand::Subscribe(topic_of_community(cid.as_str()))),
        );
        let record = self.make_own_record(id, self.own_name(cid.as_str()), Role::Member, now);
        self.put_member(cid.as_str(), me.as_str(), record.clone());
        emit(&mut out, Effect::Save(TableFile::Members));
        push_updated(&mut out, cid.as_str(), 0);
        emit(
            &mut out,
            Effect::Publish {
                topic: topic_of_community(cid.as_str()),
                event: NetworkEvent::MemberJoined(record),
            },
        );
        add_text(&mut self.pending_manifest_syncs, cid.as_str());
        self.fetch_from_connected(&mut out, cid.as_str(), pk);
        if !is_zero(&fp) {
            pin_seeds(&mut self.seed_fingerprints, &invite.seed_nodes, fp);
            emit(&mut out, Effect::Save(TableFile::SeedFingerprints));
        }
        let community = CommunityRef { pk, id: cid.clone() };
        dial_seeds(
            &mut out,
            &invite.seed_nodes,
            parsed,
            None,
            &community,
            &hosting_password,
            Some(fp),
            &self.seed_fingerprints,
        );
        emit(&mut out, Effect::Dht(DhtAction::AnnounceCommunity { community_pk: pk }));
        emit(
            &mut out,
            Effect::Dht(DhtAction::DiscoverCommunity { community_pk: pk, community_id: cid }),
        );
        proof {
            let pw = hosting_password.deep_view();
            let after = community_joined(s, inv, pw, now);
            assert(self.deep_view().communities =~= after.communities);
            assert(self.deep_view().members =~= after.members);
            assert(self.deep_view().hosting_passwords =~= after.hosting_passwords);
            assert(peers_of(self.deep_view(), m.id.name()) == peers_of(s, m.id.name()));
            assert(out.deep_view() =~= join_effects(s, inv, pw, now, parsed.deep_view()));
        }
        (Ok(info), out)
    }

    /// Join the community of an invite now.
    pub fn community_join(
        &mut self,
        invite: InvitePayload,
        hosting_password: Option<String>,
        parsed: &Table<NodeAddr>,
    ) -> (r: (Result<CommunityInfo, RpcError>, Vec<Effect>))
        ensures
            exists|now: Timestamp|
                #[trigger] join_done(
                    old(self).deep_view(),
                    final(self).deep_view(),
                    invite.deep_view(),
                    hosting_password.deep_view(),
                    now,
                    parsed.deep_view(),
                    r.0,
                    r.1.deep_view(),
                ),
    {
        let now = Timestamp::now();
        self.community_join_at(invite, hosting_password, now, parsed)
    }

    /// Make a signed invite link for a community. Admins may. When the local
    /// user is the community's creator, the signature verifies for whoever
    /// reads the invite.
    pub fn community_generate_invite(&self, community_id: &str) -> (r: Result<String, RpcError>)
        ensures
            match invite_refusal(self.deep_view(), community_id@) {
                Some(e) => r == Err::<String, RpcError>(e),
                None => {
                    let s = self.deep_view();
                    let m = s.communities[community_id@].manifest;
                    let i = own_invite(s, community_id@, invite_fingerprint(s, m.seed_nodes)->0);
                    &&& r matches Ok(link) && link@ == invite_link(i)
                    &&& m.public_key == ed25519_public_key(s.local.key) ==> i.public_key()
                        == m.public_key && i.signed()
                },
            },
    {
        broadcast use array_deep_view;

        let ghost s = self.deep_view();
        let signed = match self.communities.get(community_id) {
            Some(c) => c,
            None => {
                return Err(RpcError::CommunityNotFound);
            },
        };
        let me = self.local.peer_id();
        if !signed.manifest.lists_admin(me.as_str()) {
            return Err(RpcError::InviteByAdminOnly);
        }
        let m = &signed.manifest;
        let public_key_hex = bytes_to_hex(m.public_key.as_slice());
        let payload = invite_bytes(
            community_id,
            m.name.as_str(),
            m.description.as_str(),
            public_key_hex.as_str(),
            &m.seed_nodes,
        );
        let sig = sign_bytes(self.local.signing_key(), payload.as_slice());
        let first = first_seed_text(&m.seed_nodes);
        let mut stored: Option<[u8; 32]> = None;
        if !first.as_str().is_empty() {
            if let Some(f) = self.seed_fingerprints.get(first.as_str()) {
                if !is_zero(f) {
                    stored = Some(*f);
                }
            }
        }
        let fp: [u8; 32] = match stored {
            Some(f) => f,
            None => match NodeTlsCert::generate(self.local.signing_key()) {
                Some(cert) => cert.fingerprint,
                None => {
                    return Err(RpcError::CertificateFailed);
                },
            },
        };
        assert(invite_fingerprint(s, m.deep_view().seed_nodes) == Some(fp@));
        let invite = InvitePayload {
            community_id: text(community_id),
            name: m.name.clone(),
            description: m.description.clone(),
            seed_nodes: copy_texts(&m.seed_nodes),
            public_key_hex,
            sig_hex: bytes_to_hex(sig.as_slice()),
            cert_fingerprint_hex: bytes_to_hex(fp.as_slice()),
        };
        assert(invite.deep_view() == own_invite(s, community_id@, fp@));
        proof {
            if m.public_key@ == ed25519_public_key(s.local.key) {
                creator_invites_verify(invite.deep_view(), m.public_key@, sig@);
            }
        }
        Ok(make_link(&invite))
    }

    /// Leave a community at the given time: tell its peers, then forget it.
    pub fn community_leave_at(&mut self, community_id: &str, now: Timestamp) -> (r: (
        Result<bool, RpcError>,
        Vec<Effect>,
    ))
        ensures
            ({
                let s = old(self).deep_view();
                if !s.communities.contains_key(community_id@) {
                    &&& r.0 == Err::<bool, RpcError>(RpcError::CommunityNotFound)
                    &&& r.1.deep_view().len() == 0
                    &&& final(self).deep_view() == s
                } else {
                    &&& r.0 == Ok::<bool, RpcError>(true)
                    &&& final(self).deep_view() == without_community(s, community_id@)
                    &&& farewell(
                        s,
                        community_id@,
                        crate::api::rpc_server::member::leave_publication(
                            s,
                            community_id@,
                            s.local.user_id,
                            now,
                        ),
                        r.1.deep_view(),
                    )
                }
            }),
    {
        let ghost s = old(self).deep_view();
        if !self.communities.contains_key(community_id) {
            return (Err(RpcError::CommunityNotFound), no_effects());
        }
        let mut out = no_effects();
        self.publish_leave(community_id, self.local.user_id(), now, &mut out);
        let ghost head = out.deep_view();
        let mut rest = self.remove_community_local(community_id);
        let ghost names = choose|names: Seq<Seq<char>>|
            names.to_set() == s.channels_of(community_id@) && rest.deep_view()
                == #[trigger] crate::api::removal_effects(s, community_id@, names);
        append_effects(&mut out, rest);
        assert(head =~= crate::api::rpc_server::member::leave_publication(
            s,
            community_id@,
            s.local.user_id,
            now,
        ));
        assert(out.deep_view() == head + crate::api::removal_effects(s, community_id@, names));
        (Ok(true), out)
    }

    /// Leave a community now.
    pub fn community_leave(&mut self, community_id: &str) -> (r: (
        Result<bool, RpcError>,
        Vec<Effect>,
    ))
        ensures
            r.0 == if old(self).deep_view().communities.contains_key(community_id@) {
                Ok::<bool, RpcError>(true)
            } else {
                Err(RpcError::CommunityNotFound)
            },
            final(self).deep_view() == if r.0 is Ok {
                without_community(old(self).deep_view(), community_id@)
            } else {
                old(self).deep_view()
            },
            if r.0 is Ok {
                exists|now: Timestamp|
                    farewell(
                        old(self).deep_view(),
                        community_id@,
                        #[trigger] crate::api::rpc_server::member::leave_publication(
                            old(self).deep_view(),
                            community_id@,
                            old(self).deep_view().local.user_id,
                            now,
                        ),
                        r.1.deep_view(),
                    )
            } else {
                r.1.deep_view().len() == 0
            },
    {
        let now = Timestamp::now();
        self.community_leave_at(community_id, now)
    }

    /// Delete a community: broadcast a signed tombstone, then forget it. The
    /// creator may, being listed as an admin.
    pub fn community_delete(&mut self, community_id: &str) -> (r: (
        Result<bool, RpcError>,
        Vec<Effect>,
    ))
        requires
            version_can_grow(old(self).deep_view(), community_id@),
        ensures
            r.0 is Ok ==> tombstone(
                old(self).deep_view().communities[community_id@].manifest,
            ).signed_with(old(self).deep_view().local.key).valid(),
            ({
                let s = old(self).deep_view();
                match delete_refusal(s, community_id@) {
                    Some(e) => r.0 == Err::<bool, RpcError>(e) && r.1.deep_view().len() == 0
                        && final(self).deep_view() == s,
                    None => {
                        &&& r.0 == Ok::<bool, RpcError>(true)
                        &&& final(self).deep_view() == without_community(s, community_id@)
                        &&& farewell(
                            s,
                            community_id@,
                            seq![
                                EffectView::Publish {
                                    topic: community_topic(community_id@),
                                    event: NetworkEventView::ManifestUpdate(
                                        tombstone(
                                            s.communities[community_id@].manifest,
                                        ).signed_with(s.local.key),
                                    ),
                                },
                            ],
                            r.1.deep_view(),
                        )
                    },
                }
            }),
    {
        let ghost s = old(self).deep_view();
        let me = self.local.peer_id();
        let mut out = no_effects();
        match self.communities.get(community_id) {
            None => {
                return (Err(RpcError::CommunityNotFound), no_effects());
            },
            Some(signed) => {
                if !signed.manifest.lists_admin(me.as_str()) {
                    return (Err(RpcError::DeleteByAdminOnly), no_effects());
                }
                if self.is_made_elsewhere(community_id) {
                    return (Err(RpcError::CreatorOnly), no_effects());
                }
                let mut m = signed.manifest.clone();
                m.deleted = true;
                m.version = m.version + 1;
                emit(
                    &mut out,
                    Effect::Publish {
                        topic: topic_of_community(community_id),
                        event: NetworkEvent::ManifestUpdate(m.sign(self.local.signing_key())),
                    },
                );
            },
        }
        let ghost head = out.deep_view();
        let rest = self.remove_community_local(community_id);
        let ghost names = choose|names: Seq<Seq<char>>|
            names.to_set() == s.channels_of(community_id@) && rest.deep_view()
                == #[trigger] crate::api::removal_effects(s, community_id@, names);
        append_effects(&mut out, rest);
        proof {
            let first = seq![
                EffectView::Publish {
                    topic: community_topic(community_id@),
                    event: NetworkEventView::ManifestUpdate(
                        tombstone(s.communities[community_id@].manifest).signed_with(s.local.key),
                    ),
                },
            ];
            assert(head =~= first);
            assert(out.deep_view() == first + crate::api::removal_effects(
                s,
                community_id@,
                names,
            ));
        }
        (Ok(true), out)
    }

    /// All communities.
    pub fn community_list(&self) -> (r: Vec<CommunityInfo>)
        ensures
            exists|order: Seq<(Seq<char>, SignedManifestView)>|
                lists(order, self.deep_view().communities) && r.deep_view()
                    == #[trigger] community_infos(self.deep_view(), order),
    {
        broadcast use vec_deep_view, views_push;

        let ghost s = self.deep_view();
        let n: usize = self.communities.len();
        let ghost order = self.communities.order();
        let mut out: Vec<CommunityInfo> = Vec::new();
        let mut i: usize = 0;
        while i < n
            invariant
                i <= n,
                n == order.len(),
                order == self.communities.order(),
                s == self.deep_view(),
                views(out@) == community_infos(s, order.subrange(0, i as int)),
            decreases n - i,
        {
            let m = &self.communities.value_at(i).manifest;
            let id = m.id.to_string();
            let reachable = self.reachable(id.as_str(), &m.seed_nodes);
            let info = info_of_community(m, bytes_to_hex(m.public_key.as_slice()), reachable);
            out.push(info);
            i += 1;
            assert(community_infos(s, order.subrange(0, i as int)) =~= community_infos(
                s,
                order.subrange(0, i - 1),
            ).push(community_infos(s, order)[i - 1]));
        }
        assert(order.subrange(0, order.len() as int) =~= order);
        out
    }

    /// One community.
    pub fn community_get(&self, community_id: &str) -> (r: Result<CommunityInfo, RpcError>)
        ensures
            match r {
                Ok(info) => {
                    let s = self.deep_view();
                    let m = s.communities[community_id@].manifest;
                    s.communities.contains_key(community_id@) && info.deep_view() == community_info(
                        m,
                        hex(m.public_key),
                        s.is_reachable(community_id@, m.seed_nodes),
                    )
                },
                Err(e) => e == RpcError::CommunityNotFound
                    && !self.deep_view().communities.contains_key(community_id@),
            },
    {
        match self.communities.get(community_id) {
            Some(signed) => {
                let m = &signed.manifest;
                let reachable = self.reachable(community_id, &m.seed_nodes);
                Ok(info_of_community(m, bytes_to_hex(m.public_key.as_slice()), reachable))
            },
            None => Err(RpcError::CommunityNotFound),
        }
    }

    /// Change a community's name, description or seed nodes. The creator may,
    /// being listed as an admin. Moving to another seed node needs that node's
    /// certificate fingerprint.
    #[verifier::rlimit(80)]
    pub fn community_update_manifest(&mut self, p: UpdateManifestParams) -> (r: (
        Result<bool, RpcError>,
        Vec<Effect>,
    ))
        requires
            version_can_grow(old(self).deep_view(), p.community_id@),
        ensures
            r.0 is Ok ==> final(self).deep_view().communities[p.community_id@].valid(),
            ({
                let s = old(self).deep_view();
                let cid = p.community_id@;
                let name = p.name.deep_view();
                let description = p.description.deep_view();
                let seeds = p.seed_nodes.deep_view();
                let fp = p.seed_fingerprint_hex.deep_view();
                match update_refusal(s, cid, name, description, seeds, fp) {
                    Some(e) => r.0 == Err::<bool, RpcError>(e) && r.1.deep_view().len() == 0
                        && final(self).deep_view() == s,
                    None => {
                        let m = updated_manifest(
                            s.communities[cid].manifest,
                            name,
                            description,
                            seeds,
                        );
                        &&& r.0 == Ok::<bool, RpcError>(true)
                        &&& final(self).deep_view() == manifest_updated(
                            s,
                            cid,
                            m,
                            requested_fingerprint(fp),
                        )
                        &&& r.1.deep_view() == update_effects(s, cid, m)
                    },
                }
            }),
    {
        let ghost s = old(self).deep_view();
        let ghost cid = p.community_id@;
        let ghost name = p.name.deep_view();
        let ghost description = p.description.deep_view();
        let ghost seeds = p.seed_nodes.deep_view();
        if let Err(e) = self.require_seed_connected(p.community_id.as_str()) {
            return (Err(e), no_effects());
        }
        if let Some(n) = &p.name {
            let len: usize = byte_len(n.as_str());
            if len == 0 || len > 100 {
                return (Err(RpcError::NameLength), no_effects());
            }
        }
        if let Some(d) = &p.description {
            if byte_len(d.as_str()) > 500 {
                return (Err(RpcError::DescriptionLength), no_effects());
            }
        }
        let fp = parse_requested_fingerprint(&p.seed_fingerprint_hex);
        let me = self.local.peer_id();
        let mut moves = false;
        match self.communities.get(p.community_id.as_str()) {
            None => {
                return (Err(RpcError::CommunityNotFound), no_effects());
            },
            Some(signed) => {
                if !signed.manifest.lists_admin(me.as_str()) {
                    return (Err(RpcError::UpdateByAdminOnly), no_effects());
                }
                if self.is_made_elsewhere(p.community_id.as_str()) {
                    return (Err(RpcError::CreatorOnly), no_effects());
                }
                if let Some(v) = &p.seed_nodes {
                    moves = moves_seed(&signed.manifest.seed_nodes, v);
                    if moves && is_zero(&fp) {
                        return (Err(RpcError::NewSeedFingerprintRequired), no_effects());
                    }
                }
            },
        }
        let mut out = no_effects();
        if let Some(signed) = self.communities.remove(p.community_id.as_str()) {
            let mut m = signed.manifest;
            if let Some(n) = p.name {
                m.name = n;
            }
            if let Some(d) = p.description {
                m.description = d;
            }
            if let Some(v) = p.seed_nodes {
                m.seed_nodes = v;
            }
            m.version = m.version + 1;
            let ghost mv = updated_manifest(
                s.communities[cid].manifest,
                name,
                description,
                seeds,
            );
            assert(m.deep_view() == mv);
            let version: u64 = m.version;
            let new_seeds = copy_texts(&m.seed_nodes);
            let new_signed = m.sign(self.local.signing_key());
            self.communities.insert(p.community_id.as_str(), new_signed.clone());
            emit(&mut out, Effect::Save(TableFile::Communities));
            emit(
                &mut out,
                Effect::Publish {
                    topic: topic_of_community(p.community_id.as_str()),
                    event: NetworkEvent::ManifestUpdate(new_signed),
                },
            );
            push_updated(&mut out, p.community_id.as_str(), version);
            assert(moves == seed_moves(s.communities[cid].manifest.seed_nodes, mv.seed_nodes));
            if moves {
                pin_seeds(&mut self.seed_fingerprints, &new_seeds, fp);
                emit(&mut out, Effect::Save(TableFile::SeedFingerprints));
                emit(
                    &mut out,
                    Effect::SyncToSeed {
                        community_id: p.community_id.clone(),
                        seed: first_seed_text(&new_seeds),
                    },
                );
            }
            assert(self.deep_view().communities =~= manifest_updated(s, cid, mv, fp@).communities);
            assert(out.deep_view() =~= update_effects(s, cid, mv));
        }
        (Ok(true), out)
    }
}

/// Append a list of effects.
pub fn append_effects(out: &mut Vec<Effect>, rest: Vec<Effect>)
    ensures
        final(out).deep_view() == old(out).deep_view() + rest.deep_view(),
{
    let ghost a = out@;
    let ghost b = rest@;
    let mut tail = rest;
    out.append(&mut tail);
    assert(out.deep_view() =~= old(out).deep_view() + rest.deep_view());
}

/// A user who is banned from a community cannot join it again.
pub proof fn banned_users_stay_out(s: AppStateView, i: InvitePayloadView)
    requires
        ulid_parse(i.community_id) is Some,
        ban_list(s, ulid_text(ulid_parse(i.community_id)->0)).contains(s.me()),
    ensures
        join_refusal(s, i) is Some,
{
}

/// An invite with a bad signature, or with a fingerprint that is present but
/// malformed, is refused and changes nothing.
pub proof fn tampered_invites_are_refused(s: AppStateView, i: InvitePayloadView)
    requires
        i.claims_signature() && !i.signed() || i.fingerprint() is Err,
    ensures
        join_refusal(s, i) is Some,
{
}

/// The invite that the creator of a community makes is accepted by everybody who
/// is neither in the community nor banned from it, and leads to a community of
/// the same name under the creator's key.
pub proof fn generated_invites_are_accepted(
    s: AppStateView,
    t: AppStateView,
    community_id: Seq<char>,
    password: Option<Seq<char>>,
    now: Timestamp,
)
    requires
        invite_refusal(s, community_id) is None,
        ulid_parse(community_id) is Some,
        ({
            let m = s.communities[community_id].manifest;
            let fp = invite_fingerprint(s, m.seed_nodes)->0;
            let i = own_invite(s, community_id, fp);
            &&& m.name.len() > 0
            &&& m.public_key == ed25519_public_key(s.local.key)
            &&& fp.len() == 32
            &&& i.public_key() == m.public_key
            &&& i.signed()
        }),
        !t.communities.contains_key(ulid_text(ulid_parse(community_id)->0)),
        !ban_list(t, ulid_text(ulid_parse(community_id)->0)).contains(t.me()),
    ensures
        ({
            let m = s.communities[community_id].manifest;
            let i = own_invite(s, community_id, invite_fingerprint(s, m.seed_nodes)->0);
            let cid = ulid_text(ulid_parse(community_id)->0);
            let after = community_joined(t, i, password, now);
            &&& join_refusal(t, i) is None
            &&& after.communities[cid].manifest.name == m.name
            &&& after.communities[cid].manifest.public_key == m.public_key
            &&& after.communities[cid].manifest.seed_nodes == m.seed_nodes
        }),
{
    let m = s.communities[community_id].manifest;
    let fp = invite_fingerprint(s, m.seed_nodes)->0;
    hex_round_trip(fp);
    assert(is_ascii_chars(hex(fp))) by {
        assert forall|i: int| 0 <= i < hex(fp).len() implies '\0' <= #[trigger] hex(fp)[i]
            <= '\u{7f}' by {
            assert(hex_value(hex(fp)[i]) is Some);
        }
    }
    is_ascii_chars_encode_utf8(hex(fp));
}

/// A community with external seeds cannot be created, and cannot move to a new
/// seed, without a fingerprint to pin.
pub proof fn seeds_are_always_pinned(
    s: AppStateView,
    community_id: Seq<char>,
    name: Seq<char>,
    seeds: Seq<Seq<char>>,
)
    ensures
        seeds.len() > 0 ==> creation_refusal(s, name, seeds, None) is Some,
        seed_check(s, community_id) is Ok && seed_moves(
            s.communities[community_id].manifest.seed_nodes,
            seeds,
        ) ==> update_refusal(s, community_id, None, None, Some(seeds), None) is Some,
{
}

/// Nobody but the creator changes a community: a node without the creator's key
/// cannot create or delete a channel, rotate a key, or update or delete the
/// community.
pub proof fn only_the_creator_changes_a_community(
    s: AppStateView,
    community_id: Seq<char>,
    channel_id: Seq<char>,
    name: Option<Seq<char>>,
    description: Option<Seq<char>>,
    seeds: Option<Seq<Seq<char>>>,
    fingerprint_hex: Option<Seq<char>>,
    channel_name: Seq<char>,
)
    requires
        made_elsewhere(s, community_id),
    ensures
        channel::create_refusal(s, community_id, channel_name) == Some(RpcError::CreatorOnly),
        channel::delete_refusal(s, community_id, channel_id) == Some(RpcError::CreatorOnly),
        channel::channel_deleted(s, community_id, channel_id) == s,
        channel::channel_deleted_effects(s, community_id, channel_id).len() == 0,
        channel::rotate_refusal(s, community_id, channel_id) == Some(RpcError::CreatorOnly),
        update_refusal(s, community_id, name, description, seeds, fingerprint_hex) is Some,
        delete_refusal(s, community_id) is Some,
        s.communities[community_id].manifest.lists_admin(s.me()) ==> delete_refusal(s, community_id)
            == Some(RpcError::CreatorOnly),
{
}

/// Joining never makes the local user more than a plain member, and leaves a
/// placeholder of version zero that any signed manifest replaces.
pub proof fn joining_grants_nothing(
    s: AppStateView,
    i: InvitePayloadView,
    password: Option<Seq<char>>,
    now: Timestamp,
)
    requires
        join_refusal(s, i) is None,
    ensures
        ({
            let t = community_joined(s, i, password, now);
            let cid = ulid_text(ulid_parse(i.community_id)->0);
            &&& t.communities.contains_key(cid)
            &&& t.communities[cid].manifest.version == 0
            &&& t.members[cid].contains_key(s.me())
            &&& !t.members[cid][s.me()].is_privileged()
        }),
{
    let roles = seq![Role::Member];
    assert(!roles.contains(Role::Admin) && !roles.contains(Role::Moderator));
}

} // verus!
