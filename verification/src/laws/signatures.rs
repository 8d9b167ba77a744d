//! What is signed: no two notices share their bytes.

use crate::api::invite::{invite_json, json_text, json_texts, InvitePayloadView};
use crate::bytes::le64;
use crate::crypto::certificate::cert_message;
use crate::model::channel::{kind_index, ChannelKind, ChannelManifestView};
use crate::model::community::CommunityManifestView;
use crate::model::membership::{membership_message, role_index, roles_encoding, Role};
use crate::model::message::message_bytes;
use crate::model::network_event::{
    delete_message, edit_message, leave_message, presence_message, role_message,
};
use crate::model::types::{
    be_bytes, same_user, ulid_bytes, ChannelId, CommunityId, MessageId, UserId,
};
use crate::network::client::peer_info_message;
use crate::time::{rfc3339_text, Timestamp};
use crate::wire::{channel_encoding, manifest_encoding};
use vstd::bytes::*;
use vstd::prelude::*;
use vstd::utf8::*;

verus! {

/// Different numbers of up to `n` bytes have different bytes.
proof fn be_bytes_tell_apart(a: nat, b: nat, n: nat, bound: nat)
    requires
        be_bytes(a, n) == be_bytes(b, n),
        bound == pow256(n),
        a < bound,
        b < bound,
    ensures
        a == b,
    decreases n,
{
    if n > 0 {
        let k = (n - 1) as nat;
        let x = be_bytes(a, n);
        let y = be_bytes(b, n);
        be_len(a / 256, k);
        be_len(b / 256, k);
        assert(x.last() == y.last());
        assert(x.drop_last() =~= be_bytes(a / 256, k));
        assert(y.drop_last() =~= be_bytes(b / 256, k));
        assert(a % 256 == b % 256);
        assert(pow256(n) == 256 * pow256(k));
        assert(a / 256 < pow256(k) && b / 256 < pow256(k)) by (nonlinear_arith)
            requires
                a < 256 * pow256(k),
                b < 256 * pow256(k),
        ;
        be_bytes_tell_apart(a / 256, b / 256, k, pow256(k));
        assert(a == 256 * (a / 256) + a % 256);
        assert(b == 256 * (b / 256) + b % 256);
    }
}

/// `256` to the power of `n`.
pub open spec fn pow256(n: nat) -> nat
    decreases n,
{
    if n == 0 {
        1
    } else {
        256 * pow256((n - 1) as nat)
    }
}

proof fn be_len(v: nat, n: nat)
    ensures
        be_bytes(v, n).len() == n,
    decreases n,
{
    if n > 0 {
        be_len(v / 256, (n - 1) as nat);
    }
}

/// An identifier has sixteen bytes, and different ones have different bytes.
pub proof fn identifiers_tell_apart(a: u128, b: u128)
    ensures
        ulid_bytes(a).len() == 16,
        ulid_bytes(a) == ulid_bytes(b) ==> a == b,
{
    be_len(a as nat, 16);
    reveal_with_fuel(pow256, 17);
    assert(pow256(16) == 0x1_0000_0000_0000_0000_0000_0000_0000_0000);
    if ulid_bytes(a) == ulid_bytes(b) {
        be_bytes_tell_apart(a as nat, b as nat, 16, pow256(16));
    }
}

/// Whether `part` stands in `bytes` at `at`.
pub open spec fn stands_at(bytes: Seq<u8>, part: Seq<u8>, at: int) -> bool {
    0 <= at && at + part.len() <= bytes.len() && bytes.subrange(at, at + part.len()) == part
}

/// Whether `part` stands somewhere in `bytes`.
pub open spec fn stands_in(bytes: Seq<u8>, part: Seq<u8>) -> bool {
    exists|at: int| #[trigger] stands_at(bytes, part, at)
}

/// The signature under a message covers its id, its channel, its time and its
/// ciphertext: a change of any of them changes what is signed.
pub proof fn message_signatures_cover_everything(
    a: MessageId,
    c: ChannelId,
    t: Timestamp,
    x: Seq<u8>,
    a2: MessageId,
    c2: ChannelId,
    t2: Timestamp,
    x2: Seq<u8>,
)
    requires
        message_bytes(a, c, t, x) == message_bytes(a2, c2, t2, x2),
    ensures
        a == a2,
        c == c2,
        t.millis_spec() == t2.millis_spec(),
        x == x2,
{
    let m = message_bytes(a, c, t, x);
    identifiers_tell_apart(a.0, a2.0);
    identifiers_tell_apart(c.0, c2.0);
    identifiers_tell_apart(a2.0, a.0);
    identifiers_tell_apart(c2.0, c.0);
    lemma_auto_spec_u64_to_from_le_bytes();
    let v = t.millis_spec() as u64;
    let v2 = t2.millis_spec() as u64;
    assert(m.subrange(0, 16) =~= ulid_bytes(a.0));
    assert(m.subrange(0, 16) =~= ulid_bytes(a2.0));
    assert(m.subrange(16, 32) =~= ulid_bytes(c.0));
    assert(m.subrange(16, 32) =~= ulid_bytes(c2.0));
    assert(m.subrange(32, 40) =~= le64(v));
    assert(m.subrange(32, 40) =~= le64(v2));
    assert(m.subrange(40, m.len() as int) =~= x);
    assert(m.subrange(40, m.len() as int) =~= x2);
    assert(spec_u64_from_le_bytes(le64(v)) == v);
    assert(spec_u64_from_le_bytes(le64(v2)) == v2);
    casts_tell_apart(t.millis_spec(), t2.millis_spec());
}

proof fn casts_tell_apart(a: i64, b: i64)
    ensures
        a as u64 == b as u64 ==> a == b,
{
    assert(a as u64 == b as u64 ==> a == b) by (bit_vector);
}

/// The signature under an edit covers the message, the channel and the new
/// ciphertext.
pub proof fn edit_signatures_cover_everything(
    a: MessageId,
    c: ChannelId,
    x: Seq<u8>,
    a2: MessageId,
    c2: ChannelId,
    x2: Seq<u8>,
)
    requires
        edit_message(a, c, x) == edit_message(a2, c2, x2),
    ensures
        a == a2,
        c == c2,
        x == x2,
{
    let m = edit_message(a, c, x);
    identifiers_tell_apart(a.0, a2.0);
    identifiers_tell_apart(c.0, c2.0);
    identifiers_tell_apart(a2.0, a.0);
    identifiers_tell_apart(c2.0, c.0);
    assert(m.subrange(0, 16) =~= ulid_bytes(a.0));
    assert(m.subrange(0, 16) =~= ulid_bytes(a2.0));
    assert(m.subrange(16, 32) =~= ulid_bytes(c.0));
    assert(m.subrange(16, 32) =~= ulid_bytes(c2.0));
    assert(m.subrange(32, m.len() as int) =~= x);
    assert(m.subrange(32, m.len() as int) =~= x2);
}

/// The signature under a deletion covers the message and the channel.
pub proof fn deletion_signatures_cover_everything(
    a: MessageId,
    c: ChannelId,
    a2: MessageId,
    c2: ChannelId,
)
    requires
        delete_message(a, c) == delete_message(a2, c2),
    ensures
        a == a2,
        c == c2,
{
    let m = delete_message(a, c);
    identifiers_tell_apart(a.0, a2.0);
    identifiers_tell_apart(c.0, c2.0);
    identifiers_tell_apart(a2.0, a.0);
    identifiers_tell_apart(c2.0, c.0);
    assert(m.subrange(0, 16) =~= ulid_bytes(a.0));
    assert(m.subrange(0, 16) =~= ulid_bytes(a2.0));
    assert(m.subrange(16, 32) =~= ulid_bytes(c.0));
    assert(m.subrange(16, 32) =~= ulid_bytes(c2.0));
}

/// The signature under a departure covers the user and the community, and the
/// one under a role change the role as well; neither serves as the other.
pub proof fn member_notices_cover_everything(
    u: UserId,
    c: CommunityId,
    r: Role,
    u2: UserId,
    c2: CommunityId,
    r2: Role,
)
    ensures
        leave_message(u, c) == leave_message(u2, c2) ==> u == u2 && c == c2,
        role_message(u, c, r) == role_message(u2, c2, r2) ==> u == u2 && c == c2 && r == r2,
        leave_message(u, c) != role_message(u2, c2, r2),
{
    identifiers_tell_apart(c.0, c2.0);
    identifiers_tell_apart(c2.0, c.0);
    reveal_strlit("leave");
    reveal_strlit("role_update");
    is_ascii_chars_encode_utf8("leave"@);
    is_ascii_chars_encode_utf8("role_update"@);
    let a = leave_message(u, c);
    let b = leave_message(u2, c2);
    let x = role_message(u, c, r);
    let y = role_message(u2, c2, r2);
    assert(a.subrange(0, 32) =~= u.0@ && a.subrange(32, 48) =~= ulid_bytes(c.0));
    assert(b.subrange(0, 32) =~= u2.0@ && b.subrange(32, 48) =~= ulid_bytes(c2.0));
    assert(x.subrange(0, 32) =~= u.0@ && x.subrange(32, 48) =~= ulid_bytes(c.0));
    assert(y.subrange(0, 32) =~= u2.0@ && y.subrange(32, 48) =~= ulid_bytes(c2.0));
    assert(x[48] == role_index(r) as u8 && y[48] == role_index(r2) as u8);
    if a == b || x == y {
        same_user(u, u2);
    }
    assert(a.len() == 53 && y.len() == 60);
}

/// The signature under a heartbeat covers the user, and for one user and one
/// length of text also the status and the time.
pub proof fn heartbeat_signatures_cover_everything(
    u: UserId,
    status: Seq<char>,
    at: Timestamp,
    u2: UserId,
    status2: Seq<char>,
    at2: Timestamp,
)
    requires
        presence_message(u, status, at) == presence_message(u2, status2, at2),
    ensures
        u == u2,
        status == status2,
        at.millis_spec() == at2.millis_spec(),
{
    lemma_auto_spec_u64_to_from_le_bytes();
    let m = presence_message(u, status, at);
    let v = at.millis_spec() as u64;
    let v2 = at2.millis_spec() as u64;
    let n = m.len() as int;
    assert(m.subrange(0, 32) =~= u.0@);
    assert(m.subrange(0, 32) =~= u2.0@);
    same_user(u, u2);
    assert(m.subrange(n - 8, n) =~= le64(v));
    assert(m.subrange(n - 8, n) =~= le64(v2));
    assert(spec_u64_from_le_bytes(le64(v)) == v);
    assert(spec_u64_from_le_bytes(le64(v2)) == v2);
    casts_tell_apart(at.millis_spec(), at2.millis_spec());
    assert(m.subrange(32, n - 8) =~= encode_utf8(status));
    assert(m.subrange(32, n - 8) =~= encode_utf8(status2));
    encode_utf8_decode_utf8(status);
    encode_utf8_decode_utf8(status2);
}

/// The signature under a membership record covers the user, the community, the
/// name, the time and the roles.
pub proof fn membership_signatures_cover_everything(
    u: UserId,
    c: CommunityId,
    name: Seq<char>,
    at: Timestamp,
    roles: Seq<Role>,
)
    ensures
        ({
            let m = membership_message(u, c, name, at, roles);
            let k = encode_utf8(name).len() as int;
            &&& stands_at(m, u.0@, 0)
            &&& stands_at(m, ulid_bytes(c.0), 32)
            &&& stands_at(m, encode_utf8(name), 48)
            &&& stands_at(m, le64(at.millis_spec() as u64), 48 + k)
            &&& stands_at(m, roles_encoding(roles), 56 + k)
            &&& m.len() == 56 + k + roles_encoding(roles).len()
        }),
{
    lemma_auto_spec_u64_to_from_le_bytes();
    identifiers_tell_apart(c.0, c.0);
    let m = membership_message(u, c, name, at, roles);
    let k = encode_utf8(name).len() as int;
    let r = roles_encoding(roles);
    let t = le64(at.millis_spec() as u64);
    assert(m.subrange(0, 32) =~= u.0@);
    assert(m.subrange(32, 48) =~= ulid_bytes(c.0));
    assert(m.subrange(48, 48 + k) =~= encode_utf8(name));
    assert(m.subrange(48 + k, 56 + k) =~= t);
    assert(m.subrange(56 + k, 56 + k + r.len()) =~= r);
}

/// A hosting certificate covers the community, the node and the expiry.
pub proof fn certificates_cover_everything(
    pk: Seq<u8>,
    node: Seq<u8>,
    expires: u64,
    pk2: Seq<u8>,
    node2: Seq<u8>,
    expires2: u64,
)
    requires
        pk.len() == 32,
        node.len() == 32,
        pk2.len() == 32,
        node2.len() == 32,
        cert_message(pk, node, expires) == cert_message(pk2, node2, expires2),
    ensures
        pk == pk2,
        node == node2,
        expires == expires2,
{
    lemma_auto_spec_u64_to_from_le_bytes();
    let m = cert_message(pk, node, expires);
    assert(m.subrange(0, 32) =~= pk);
    assert(m.subrange(0, 32) =~= pk2);
    assert(m.subrange(32, 64) =~= node);
    assert(m.subrange(32, 64) =~= node2);
    assert(m.subrange(64, 72) =~= le64(expires));
    assert(m.subrange(64, 72) =~= le64(expires2));
    assert(spec_u64_from_le_bytes(le64(expires)) == expires);
    assert(spec_u64_from_le_bytes(le64(expires2)) == expires2);
}

proof fn part_stands(x: Seq<u8>, y: Seq<u8>)
    ensures
        stands_in(x + y, y),
        forall|part: Seq<u8>| stands_in(x, part) ==> #[trigger] stands_in(x + y, part),
{
    let all = x + y;
    assert(all.subrange(x.len() as int, all.len() as int) =~= y);
    assert(stands_at(all, y, x.len() as int));
    assert forall|part: Seq<u8>| stands_in(x, part) implies #[trigger] stands_in(all, part) by {
        let at = choose|at: int| #[trigger] stands_at(x, part, at);
        assert(all.subrange(at, at + part.len()) =~= x.subrange(at, at + part.len()));
        assert(stands_at(all, part, at));
    }
}

/// The signature under an invite covers the community, its name, description and
/// key and every seed; the link carries these, the signature and the fingerprint.
pub proof fn invites_carry_every_field(i: InvitePayloadView)
    ensures
        stands_in(i.message(), json_text(i.community_id)),
        stands_in(i.message(), json_text(i.name)),
        stands_in(i.message(), json_text(i.description)),
        stands_in(i.message(), json_text(i.public_key_hex)),
        stands_in(i.message(), json_texts(i.seed_nodes)),
        stands_in(invite_json(i), json_text(i.community_id)),
        stands_in(invite_json(i), json_text(i.name)),
        stands_in(invite_json(i), json_text(i.description)),
        stands_in(invite_json(i), json_text(i.public_key_hex)),
        stands_in(invite_json(i), json_texts(i.seed_nodes)),
        stands_in(invite_json(i), json_text(i.sig_hex)),
        stands_in(invite_json(i), json_text(i.cert_fingerprint_hex)),
{
    let c = json_text(i.community_id);
    let n = json_text(i.name);
    let d = json_text(i.description);
    let k = json_text(i.public_key_hex);
    let s = json_texts(i.seed_nodes);
    let m0 = encode_utf8("{\"community_id\":"@);
    let m1 = m0 + c;
    part_stands(m0, c);
    let m2 = m1 + encode_utf8(",\"name\":"@);
    part_stands(m1, encode_utf8(",\"name\":"@));
    let m3 = m2 + n;
    part_stands(m2, n);
    let m4 = m3 + encode_utf8(",\"description\":"@);
    part_stands(m3, encode_utf8(",\"description\":"@));
    let m5 = m4 + d;
    part_stands(m4, d);
    let m6 = m5 + encode_utf8(",\"public_key_hex\":"@);
    part_stands(m5, encode_utf8(",\"public_key_hex\":"@));
    let m7 = m6 + k;
    part_stands(m6, k);
    let m8 = m7 + encode_utf8(",\"seed_nodes\":"@);
    part_stands(m7, encode_utf8(",\"seed_nodes\":"@));
    let m9 = m8 + s;
    part_stands(m8, s);
    let m10 = m9 + encode_utf8("}"@);
    part_stands(m9, encode_utf8("}"@));
    assert(m10 == i.message());
    let f = json_text(i.cert_fingerprint_hex);
    let g = json_text(i.sig_hex);
    let j0 = encode_utf8("{\"cert_fingerprint_hex\":"@);
    let j1 = j0 + f;
    part_stands(j0, f);
    let j2 = j1 + encode_utf8(",\"community_id\":"@);
    part_stands(j1, encode_utf8(",\"community_id\":"@));
    let j3 = j2 + c;
    part_stands(j2, c);
    let j4 = j3 + encode_utf8(",\"description\":"@);
    part_stands(j3, encode_utf8(",\"description\":"@));
    let j5 = j4 + d;
    part_stands(j4, d);
    let j6 = j5 + encode_utf8(",\"name\":"@);
    part_stands(j5, encode_utf8(",\"name\":"@));
    let j7 = j6 + n;
    part_stands(j6, n);
    let j8 = j7 + encode_utf8(",\"public_key_hex\":"@);
    part_stands(j7, encode_utf8(",\"public_key_hex\":"@));
    let j9 = j8 + k;
    part_stands(j8, k);
    let j10 = j9 + encode_utf8(",\"seed_nodes\":"@);
    part_stands(j9, encode_utf8(",\"seed_nodes\":"@));
    let j11 = j10 + s;
    part_stands(j10, s);
    let j12 = j11 + encode_utf8(",\"sig_hex\":"@);
    part_stands(j11, encode_utf8(",\"sig_hex\":"@));
    let j13 = j12 + g;
    part_stands(j12, g);
    let j14 = j13 + encode_utf8("}"@);
    part_stands(j13, encode_utf8("}"@));
    assert(j14 == invite_json(i));
}

/// The signature under a community manifest covers every field of it.
pub proof fn manifest_signatures_cover_everything(m: CommunityManifestView)
    ensures
        m.canonical() == manifest_encoding(
            m.id.name(),
            m.name,
            m.description,
            m.public_key,
            rfc3339_text(m.created_at.secs, m.created_at.nanos),
            Seq::new(m.admin_ids.len(), |i: int| m.admin_ids[i].name()),
            Seq::new(m.channel_ids.len(), |i: int| m.channel_ids[i].name()),
            m.seed_nodes,
            m.version,
            m.deleted,
        ),
{
}

/// The signature under a channel manifest covers every field of it.
pub proof fn channel_signatures_cover_everything(m: ChannelManifestView)
    ensures
        m.canonical() == channel_encoding(
            m.id.name(),
            m.community_id.name(),
            m.name,
            kind_index(m.kind),
            Seq::new(
                m.encrypted_channel_key.len(),
                |i: int| (m.encrypted_channel_key[i].0.name(), m.encrypted_channel_key[i].1),
            ),
            rfc3339_text(m.created_at.secs, m.created_at.nanos),
            m.version,
        ),
{
}

/// Different roles and different kinds of channel are encoded differently.
pub proof fn encodings_tell_apart(a: Role, b: Role, x: ChannelKind, y: ChannelKind)
    ensures
        role_index(a) == role_index(b) ==> a == b,
        kind_index(x) == kind_index(y) ==> x == y,
{
}

/// The announcement of a node covers the user, the key for direct messages and the
/// address.
pub proof fn announcements_cover_everything(id: Seq<u8>, pk: Seq<u8>, addr: Seq<u8>)
    ensures
        stands_at(peer_info_message(id, pk, addr), id, 0),
        stands_at(peer_info_message(id, pk, addr), pk, id.len() as int),
        stands_at(peer_info_message(id, pk, addr), addr, (id.len() + pk.len()) as int),
{
    let m = peer_info_message(id, pk, addr);
    let a = id.len() as int;
    let b = pk.len() as int;
    assert(m.subrange(0, a) =~= id);
    assert(m.subrange(a, a + b) =~= pk);
    assert(m.subrange(a + b, a + b + addr.len()) =~= addr);
}

} // verus!
