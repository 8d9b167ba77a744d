//! Membership records and roles.

use crate::bytes::{append, le64, le64_bytes, same_array, to_array, to_vec};
use crate::crypto::primitives::{
    ed25519_accepts, ed25519_sign, ed25519_signature, ed25519_verify, sha256, sha256_digest,
};
use crate::lists::{copy_all, copy_text_opt};
use crate::model::types::{ulid_bytes, CommunityId, UserId};
use crate::time::Timestamp;
use crate::wire::{encode_indices, indices_encoding, opt_text};
use vstd::prelude::*;
use vstd::string::*;
use vstd::utf8::*;

verus! {

/// A named role within a community.
#[derive(Clone, Copy, Debug, PartialEq, Eq, Structural)]
pub enum Role {
    Admin,
    Moderator,
    Member,
}

/// Membership record of one user in one community.
#[derive(Debug)]
pub struct MembershipRecord {
    pub user_id: UserId,
    pub community_id: CommunityId,
    pub display_name: String,
    /// Optional address of the user's avatar.
    pub avatar_cid: Option<String>,
    pub joined_at: Timestamp,
    pub roles: Vec<Role>,
    /// Ed25519 verifying key.
    pub public_key: [u8; 32],
    /// X25519 public key to which channel keys are encrypted.
    pub x25519_public_key: [u8; 32],
    /// Ed25519 signature by the member's own key over
    /// `user_id || community_id || display_name || joined_at_ms_le || roles`.
    pub signature: Vec<u8>,
}

/// What a [`MembershipRecord`] holds.
pub struct MembershipRecordView {
    pub user_id: UserId,
    pub community_id: CommunityId,
    pub display_name: Seq<char>,
    pub avatar_cid: Option<Seq<char>>,
    pub joined_at: Timestamp,
    pub roles: Seq<Role>,
    pub public_key: Seq<u8>,
    pub x25519_public_key: Seq<u8>,
    pub signature: Seq<u8>,
}

impl DeepView for MembershipRecord {
    type V = MembershipRecordView;

    open spec fn deep_view(&self) -> MembershipRecordView {
        MembershipRecordView {
            user_id: self.user_id,
            community_id: self.community_id,
            display_name: self.display_name@,
            avatar_cid: opt_text(self.avatar_cid),
            joined_at: self.joined_at,
            roles: self.roles@,
            public_key: self.public_key@,
            x25519_public_key: self.x25519_public_key@,
            signature: self.signature@,
        }
    }
}

/// The variant index of a role.
pub open spec fn role_index(role: Role) -> u32 {
    match role {
        Role::Admin => 0,
        Role::Moderator => 1,
        Role::Member => 2,
    }
}

/// The encoding of a list of roles.
pub open spec fn roles_encoding(roles: Seq<Role>) -> Seq<u8> {
    indices_encoding(Seq::new(roles.len(), |i: int| role_index(roles[i])))
}

/// The bytes that a member signs when joining.
pub open spec fn membership_message(
    user_id: UserId,
    community_id: CommunityId,
    display_name: Seq<char>,
    joined_at: Timestamp,
    roles: Seq<Role>,
) -> Seq<u8> {
    user_id.0@ + ulid_bytes(community_id.0) + encode_utf8(display_name) + le64(
        joined_at.millis_spec() as u64,
    ) + roles_encoding(roles)
}

impl MembershipRecordView {
    /// The bytes this record signs.
    pub open spec fn message(self) -> Seq<u8> {
        membership_message(
            self.user_id,
            self.community_id,
            self.display_name,
            self.joined_at,
            self.roles,
        )
    }

    /// Whether the identifier belongs to the public key.
    pub open spec fn owns_id(self) -> bool {
        self.user_id.0@ == sha256_digest(self.public_key)
    }

    /// Whether the record is one its own user signed: the identifier belongs
    /// to the public key and the signature verifies under it.
    pub open spec fn self_signed(self) -> bool {
        &&& self.owns_id()
        &&& self.signature.len() == 64
        &&& ed25519_accepts(self.public_key, self.message(), self.signature)
    }

    /// Whether the member is an admin.
    pub open spec fn is_admin(self) -> bool {
        self.roles.contains(Role::Admin)
    }

    /// Whether the member is an admin or a moderator.
    pub open spec fn is_privileged(self) -> bool {
        self.roles.contains(Role::Admin) || self.roles.contains(Role::Moderator)
    }
}

/// The variant index of a role.
pub fn index_of_role(role: Role) -> (r: u32)
    ensures
        r == role_index(role),
        r < 128,
{
    match role {
        Role::Admin => 0,
        Role::Moderator => 1,
        Role::Member => 2,
    }
}

/// Encode a list of roles.
fn encode_roles(roles: &Vec<Role>) -> (r: Vec<u8>)
    ensures
        r@ == roles_encoding(roles@),
{
    let mut out: Vec<u32> = Vec::new();
    let mut i: usize = 0;
    while i < roles.len()
        invariant
            i <= roles@.len(),
            out@.len() == i,
            forall|j: int| 0 <= j < i ==> out@[j] == role_index(roles@[j]),
        decreases roles@.len() - i,
    {
        out.push(index_of_role(roles[i]));
        i += 1;
    }
    assert(out@ =~= Seq::new(roles@.len(), |i: int| role_index(roles@[i])));
    encode_indices(&out)
}

/// Whether `role` is in the list.
pub fn has_role(roles: &Vec<Role>, role: Role) -> (r: bool)
    ensures
        r == roles@.contains(role),
{
    let mut i: usize = 0;
    while i < roles.len()
        invariant
            i <= roles@.len(),
            forall|j: int| 0 <= j < i ==> roles@[j] != role,
        decreases roles@.len() - i,
    {
        if roles[i] == role {
            assert(roles@[i as int] == role);
            return true;
        }
        i += 1;
    }
    false
}

impl Clone for MembershipRecord {
    fn clone(&self) -> (r: Self)
        ensures
            r.deep_view() == self.deep_view(),
    {
        MembershipRecord {
            user_id: self.user_id,
            community_id: self.community_id,
            display_name: self.display_name.clone(),
            avatar_cid: copy_text_opt(&self.avatar_cid),
            joined_at: self.joined_at,
            roles: copy_all(&self.roles),
            public_key: self.public_key,
            x25519_public_key: self.x25519_public_key,
            signature: to_vec(self.signature.as_slice()),
        }
    }
}

impl MembershipRecord {
    /// The bytes that a member signs when joining.
    pub fn signable_bytes(
        user_id: &UserId,
        community_id: &CommunityId,
        display_name: &str,
        joined_at: &Timestamp,
        roles: &Vec<Role>,
    ) -> (r: Vec<u8>)
        ensures
            r@ == membership_message(*user_id, *community_id, display_name@, *joined_at, roles@),
    {
        let mut out = to_vec(user_id.0.as_slice());
        append(&mut out, community_id.to_bytes().as_slice());
        append(&mut out, display_name.as_bytes());
        append(&mut out, le64_bytes(joined_at.millis() as u64).as_slice());
        append(&mut out, encode_roles(roles).as_slice());
        out
    }

    /// A record signed by the member's own key `signing_key`.
    pub fn create(
        signing_key: &[u8; 32],
        user_id: UserId,
        community_id: CommunityId,
        display_name: String,
        joined_at: Timestamp,
        roles: Vec<Role>,
        public_key: [u8; 32],
        x25519_public_key: [u8; 32],
    ) -> (r: MembershipRecord)
        ensures
            r.deep_view() == new_record(
                signing_key@,
                user_id,
                community_id,
                display_name@,
                joined_at,
                roles@,
                public_key@,
                x25519_public_key@,
            ),
            public_key@ == crate::crypto::primitives::ed25519_public_key(signing_key@)
                && user_id.0@ == sha256_digest(public_key@) ==> r.deep_view().self_signed(),
    {
        let msg = Self::signable_bytes(
            &user_id,
            &community_id,
            display_name.as_str(),
            &joined_at,
            &roles,
        );
        let signature = ed25519_sign(signing_key, msg.as_slice());
        MembershipRecord {
            user_id,
            community_id,
            display_name,
            avatar_cid: None,
            joined_at,
            roles,
            public_key,
            x25519_public_key,
            signature: to_vec(signature.as_slice()),
        }
    }

    /// Whether the identifier belongs to the public key.
    pub fn owns_id(&self) -> (r: bool)
        ensures
            r == self.deep_view().owns_id(),
    {
        same_array(&self.user_id.0, &sha256(self.public_key.as_slice()))
    }

    /// Whether the record is one its own user signed.
    pub fn verify(&self) -> (r: bool)
        ensures
            r == self.deep_view().self_signed(),
    {
        if !self.owns_id() {
            return false;
        }
        match to_array::<64>(self.signature.as_slice()) {
            Some(sig) => {
                let msg = Self::signable_bytes(
                    &self.user_id,
                    &self.community_id,
                    self.display_name.as_str(),
                    &self.joined_at,
                    &self.roles,
                );
                ed25519_verify(&self.public_key, msg.as_slice(), &sig)
            },
            None => false,
        }
    }

    /// Whether the member is an admin.
    pub fn is_admin(&self) -> (r: bool)
        ensures
            r == self.deep_view().is_admin(),
    {
        has_role(&self.roles, Role::Admin)
    }

    /// Whether the member is an admin or a moderator.
    pub fn is_privileged(&self) -> (r: bool)
        ensures
            r == self.deep_view().is_privileged(),
    {
        has_role(&self.roles, Role::Admin) || has_role(&self.roles, Role::Moderator)
    }
}

/// The record that `signing_key` makes for a member.
pub open spec fn new_record(
    signing_key: Seq<u8>,
    user_id: UserId,
    community_id: CommunityId,
    display_name: Seq<char>,
    joined_at: Timestamp,
    roles: Seq<Role>,
    public_key: Seq<u8>,
    x25519_public_key: Seq<u8>,
) -> MembershipRecordView {
    MembershipRecordView {
        user_id,
        community_id,
        display_name,
        avatar_cid: None,
        joined_at,
        roles,
        public_key,
        x25519_public_key,
        signature: ed25519_signature(
            signing_key,
            membership_message(user_id, community_id, display_name, joined_at, roles),
        ),
    }
}

/// Every admin is privileged; a plain member is neither.
pub proof fn role_ladder(m: MembershipRecordView)
    ensures
        m.is_admin() ==> m.is_privileged(),
        m.roles == seq![Role::Moderator] ==> m.is_privileged() && !m.is_admin(),
        m.roles == seq![Role::Member] ==> !m.is_privileged(),
{
    let mods = seq![Role::Moderator];
    assert(mods[0] == Role::Moderator);
    assert(m.roles == mods ==> m.roles.contains(Role::Moderator));
}

} // verus!
