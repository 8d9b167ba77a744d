//! Whom a node believes, and whom it obeys.

use crate::api::effects::EffectView;
use crate::api::event_processor::channel_handler::edit_accepted;
use crate::api::event_processor::community_handler::update_accepted;
use crate::api::event_processor::manifest_handler::{
    settled, taken_members, upserted, with_plain_keys,
};
use crate::api::event_processor::member_handler::join_accepted;
use crate::api::invite::InvitePayloadView;
use crate::api::rpc_server::channel::{create_refusal, delete_refusal, rotate_refusal};
use crate::api::rpc_server::community::join_refusal;
use crate::api::rpc_server::member::{ban_list, is_creator};
use crate::api::rpc_server::RpcError;
use crate::api::AppStateView;
use crate::bytes::zeros;
use crate::crypto::primitives::{ed25519_accepts, ed25519_public_key, sha256_digest};
use crate::model::community::{CommunityManifestView, SignedManifestView};
use crate::model::membership::{MembershipRecordView, Role};
use crate::model::message::{message_bytes, RawMessageView};
use crate::model::network_event::{accepts, edit_message};
use crate::model::types::{ulid_parse, ulid_text, ChannelId, MessageId, UserId};
use crate::network::network_handle::types::ManifestResponseView;
use crate::text::{all_hex, unhex};
use crate::time::Timestamp;
use vstd::prelude::*;

verus! {

/// A manifest is believed exactly when its own key signed all of it.
pub proof fn manifests_speak_for_their_key(m: SignedManifestView)
    ensures
        m.valid() <==> m.signature.len() == 64 && ed25519_accepts(
            m.manifest.public_key,
            m.manifest.canonical(),
            m.signature,
        ),
{
}

/// A membership record is believed exactly when its id is the digest of its key and
/// that key signed all of it.
pub proof fn records_speak_for_their_user(m: MembershipRecordView)
    ensures
        m.self_signed() <==> m.user_id.0@ == sha256_digest(m.public_key) && m.signature.len() == 64
            && ed25519_accepts(
            m.public_key,
            crate::model::membership::membership_message(
                m.user_id,
                m.community_id,
                m.display_name,
                m.joined_at,
                m.roles,
            ),
            m.signature,
        ),
        m.owns_id() <==> m.user_id.0@ == sha256_digest(m.public_key),
        m.is_admin() <==> m.roles.contains(Role::Admin),
        m.is_privileged() <==> m.roles.contains(Role::Admin) || m.roles.contains(Role::Moderator),
{
}

/// A message is believed exactly when the key signed its id, channel, time and
/// ciphertext.
pub proof fn messages_speak_for_their_author(m: RawMessageView, pk: Seq<u8>)
    ensures
        m.signed_by(pk) <==> m.signature.len() == 64 && ed25519_accepts(
            pk,
            message_bytes(m.id, m.channel_id, m.timestamp, m.ciphertext),
            m.signature,
        ),
        forall|msg: Seq<u8>, sig: Seq<u8>| #[trigger]
            accepts(pk, msg, sig) <==> sig.len() == 64 && ed25519_accepts(pk, msg, sig),
{
}

/// A member joins by gossip exactly when they signed their own record and are not
/// banned from its community.
pub proof fn sound_records_are_accepted(s: AppStateView, m: MembershipRecordView)
    ensures
        join_accepted(s, m) <==> m.self_signed() && !(s.bans.contains_key(m.community_id.name())
            && s.bans[m.community_id.name()].contains(m.user_id.name())),
        ban_list(s, m.community_id.name()).contains(m.user_id.name()) <==> s.bans.contains_key(
            m.community_id.name(),
        ) && s.bans[m.community_id.name()].contains(m.user_id.name()),
{
}

/// The creator is the member whose key is the community's.
pub proof fn creators_hold_the_key(s: AppStateView, c: Seq<char>, u: Seq<char>)
    requires
        s.communities.contains_key(c),
        s.member_list(c).contains_key(u),
    ensures
        is_creator(s, c, u) <==> s.member_list(c)[u].public_key
            == s.communities[c].manifest.public_key,
{
}

/// Admins are those whom the manifest lists.
pub proof fn manifests_list_admins(m: CommunityManifestView, u: UserId)
    ensures
        m.lists_admin(u.name()) <==> m.admin_ids.contains(u),
{
    let names = crate::model::community::user_names(m.admin_ids);
    if m.admin_ids.contains(u) {
        assert(names[m.admin_ids.index_of(u)] == u.name());
    }
    if names.contains(u.name()) {
        let i = names.index_of(u.name());
        crate::model::types::user_name_injective(m.admin_ids[i], u);
        assert(m.admin_ids[i] == u);
    }
}

/// A node whose key is not the community's cannot change its channels.
pub proof fn foreign_communities_are_not_changed(
    s: AppStateView,
    c: Seq<char>,
    channel: Seq<char>,
    name: Seq<char>,
)
    requires
        s.communities.contains_key(c),
        s.communities[c].manifest.public_key != ed25519_public_key(s.local.key),
    ensures
        create_refusal(s, c, name) == Some(RpcError::CreatorOnly),
        delete_refusal(s, c, channel) == Some(RpcError::CreatorOnly),
        rotate_refusal(s, c, channel) == Some(RpcError::CreatorOnly),
        crate::api::rpc_server::community::delete_refusal(s, c) is Some,
        crate::api::rpc_server::community::update_refusal(s, c, None, None, None, None) is Some,
{
}

/// An update is taken exactly when its own key signed it, its community is known, it
/// is newer, and the key is the one that the community has had; a placeholder takes
/// any key.
pub proof fn updates_need_the_creators_key(s: AppStateView, m: SignedManifestView)
    ensures
        ({
            let c = m.manifest.id.name();
            let before = s.communities[c].manifest;
            update_accepted(s, m) <==> {
                &&& m.signature.len() == 64
                &&& ed25519_accepts(m.manifest.public_key, m.manifest.canonical(), m.signature)
                &&& s.communities.contains_key(c)
                &&& m.manifest.version > before.version
                &&& before.version == 0 || before.public_key == m.manifest.public_key
            }
        }),
{
}

/// A served manifest under another key than a known community has had changes
/// nothing, nor does one that its key did not sign.
pub proof fn served_manifests_need_the_creators_key(
    p: ManifestResponseView,
    s: AppStateView,
    after: AppStateView,
    now: Timestamp,
    last_seqs: Option<Map<Seq<char>, u64>>,
    fx: Seq<EffectView>,
)
    requires
        p.handled(s, after, now, last_seqs, fx),
        ({
            let c = p.manifest.manifest.id.name();
            ||| p.manifest.signature.len() != 64
            ||| !ed25519_accepts(
                p.manifest.manifest.public_key,
                p.manifest.manifest.canonical(),
                p.manifest.signature,
            )
            ||| s.communities.contains_key(c) && s.communities[c].manifest.version > 0
                && s.communities[c].manifest.public_key != p.manifest.manifest.public_key
        }),
    ensures
        after == s,
        fx.len() == 0,
{
}

/// An edit by gossip is taken exactly when the message exists, belongs to the author
/// that is named, and that author, a member of the channel's community, signed it.
pub proof fn edits_need_the_author(
    s: AppStateView,
    m: MessageId,
    c: ChannelId,
    u: UserId,
    x: Seq<u8>,
    signature: Seq<u8>,
)
    ensures
        ({
            let members = s.member_list(s.channels[c.name()].community_id.name());
            let known = s.message_log.entry(c.name(), m.name());
            edit_accepted(s, m, c, u, x, signature) <==> {
                &&& known is Some
                &&& known->0.author_id == u.name()
                &&& s.channels.contains_key(c.name())
                &&& members.contains_key(u.name())
                &&& accepts(members[u.name()].public_key, edit_message(m, c, x), signature)
            }
        }),
{
}

/// An invite is taken exactly when it has a name and a community that is well formed,
/// the user is neither in it nor banned from it, its signature verifies where it
/// claims one under a key, and its fingerprint is absent or well formed.
pub proof fn sound_invites_are_accepted(s: AppStateView, i: InvitePayloadView)
    ensures
        ({
            let c = ulid_text(ulid_parse(i.community_id)->0);
            join_refusal(s, i) is None <==> {
                &&& i.name.len() > 0
                &&& ulid_parse(i.community_id) is Some
                &&& !s.communities.contains_key(c)
                &&& !(s.bans.contains_key(c) && s.bans[c].contains(s.me()))
                &&& i.sig_hex.len() > 0 && i.public_key() != zeros(32) ==> i.sig_hex.len() == 128
                    && all_hex(i.sig_hex) && ed25519_accepts(
                    i.public_key(),
                    i.message(),
                    unhex(i.sig_hex),
                )
                &&& i.fingerprint() is Ok
            }
        }),
        i.fingerprint() matches Ok(fp) ==> i.cert_fingerprint_hex.len() > 0 ==> fp == unhex(
            i.cert_fingerprint_hex,
        ) && i.cert_fingerprint_hex.len() == 64,
        i.public_key_hex.len() == 64 && all_hex(i.public_key_hex) ==> i.public_key() == unhex(
            i.public_key_hex,
        ),
        !(i.public_key_hex.len() == 64 && all_hex(i.public_key_hex)) ==> i.public_key() == zeros(
            32,
        ),
{
}

/// A served record that is taken stands as served, under its user, but for the
/// creator's roles; the last one of a user counts.
pub proof fn served_records_replace(p: ManifestResponseView, s: AppStateView, j: int)
    requires
        0 <= j < p.members.len(),
        p.members[j].user_id.0@ == sha256_digest(p.members[j].public_key),
        !ban_list(s, p.community()).contains(p.members[j].user_id.name()),
        forall|i: int|
            j < i < p.members.len() ==> (#[trigger] p.members[i]).user_id.name()
                != p.members[j].user_id.name(),
    ensures
        ({
            let k = p.members[j].user_id.name();
            let after = p.peopled(s).member_list(p.community());
            &&& after.contains_key(k)
            &&& after[k] == settled(p.caught_up(s), p.community(), p.members[j])
            &&& after[k] == (MembershipRecordView { roles: after[k].roles, ..p.members[j] })
            &&& !is_creator(p.caught_up(s), p.community(), k) ==> after[k] == p.members[j]
        }),
{
    crate::api::event_processor::manifest_handler::catching_up_keeps(p, s);
    let t = p.caught_up(s);
    last_one_counts(t, p.community(), t.member_list(p.community()), p.members, j);
    let people = p.people(s);
    if people.len() == 0 {
        assert(upserted(t.member_list(p.community()), people) == t.member_list(p.community()));
    }
}

proof fn last_one_counts(
    t: AppStateView,
    c: Seq<char>,
    list: Map<Seq<char>, MembershipRecordView>,
    members: Seq<MembershipRecordView>,
    j: int,
)
    requires
        0 <= j < members.len(),
        crate::api::event_processor::manifest_handler::record_taken(t, c, members[j]),
        forall|i: int|
            j < i < members.len() ==> (#[trigger] members[i]).user_id.name()
                != members[j].user_id.name(),
    ensures
        taken_members(t, c, members).len() > 0,
        upserted(list, taken_members(t, c, members)).contains_key(members[j].user_id.name()),
        upserted(list, taken_members(t, c, members))[members[j].user_id.name()] == settled(
            t,
            c,
            members[j],
        ),
    decreases members.len(),
{
    let short = members.drop_last();
    let n = members.len() - 1;
    let head = taken_members(t, c, short);
    let all = taken_members(t, c, members);
    if j < n {
        assert forall|i: int| j < i < short.len() implies (#[trigger] short[i]).user_id.name()
            != short[j].user_id.name() by {
            assert(members[i].user_id.name() != members[j].user_id.name());
        }
        assert(short[j] == members[j]);
        last_one_counts(t, c, list, short, j);
        assert(members[n].user_id.name() != members[j].user_id.name());
        if all.len() > head.len() {
            assert(all.drop_last() =~= head);
        }
    } else {
        assert(all.drop_last() =~= head);
    }
}

/// A plain key of the right length serves a channel that has none.
pub proof fn plain_keys_fill_gaps(
    keys: Map<Seq<char>, Seq<u8>>,
    plain: Map<Seq<char>, Seq<u8>>,
    c: Seq<char>,
)
    ensures
        !keys.contains_key(c) && plain.contains_key(c) && plain[c].len() == 32 ==> with_plain_keys(
            keys,
            plain,
        ).contains_key(c) && with_plain_keys(keys, plain)[c] == plain[c],
        !keys.contains_key(c) && !(plain.contains_key(c) && plain[c].len() == 32)
            ==> !with_plain_keys(keys, plain).contains_key(c),
{
}

/// A manifest that came in is no longer pending, and every other one still is.
pub proof fn fetched_manifests_are_not_pending(
    p: ManifestResponseView,
    s: AppStateView,
    c: Seq<char>,
)
    ensures
        p.manifest.manifest.version > 0 ==> !p.begun(s).pending_manifest_syncs.contains(
            p.manifest.manifest.id.name(),
        ),
        c != p.manifest.manifest.id.name() ==> (p.begun(s).pending_manifest_syncs.contains(c)
            <==> s.pending_manifest_syncs.contains(c)),
        p.begun(s) == (AppStateView {
            pending_manifest_syncs: p.begun(s).pending_manifest_syncs,
            ..s
        }),
{
    crate::lists::without_text_membership(
        s.pending_manifest_syncs,
        p.manifest.manifest.id.name(),
        c,
    );
    crate::lists::without_text_membership(
        s.pending_manifest_syncs,
        p.manifest.manifest.id.name(),
        p.manifest.manifest.id.name(),
    );
}

} // verus!
