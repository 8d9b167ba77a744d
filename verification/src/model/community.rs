//! Community manifests.

use crate::bytes::{to_array, to_vec};
use crate::crypto::primitives::{
    ed25519_accepts, ed25519_public_key, ed25519_sign, ed25519_signature, ed25519_verify,
};
use crate::lists::{copy_all, copy_texts, vec_deep_view, views_push};
use crate::model::types::{ChannelId, CommunityId, UserId};
use crate::time::{rfc3339_text, Timestamp};
use crate::wire::{encode_manifest, manifest_encoding};
use vstd::prelude::*;

verus! {

/// The canonical community manifest.
#[derive(Debug)]
pub struct CommunityManifest {
    pub id: CommunityId,
    pub name: String,
    pub description: String,
    /// Ed25519 public key of the founding admin.
    pub public_key: [u8; 32],
    pub created_at: Timestamp,
    pub admin_ids: Vec<UserId>,
    pub channel_ids: Vec<ChannelId>,
    /// Addresses of known seed nodes for this community.
    pub seed_nodes: Vec<String>,
    /// Monotonically increasing version.
    pub version: u64,
    /// Set when an admin permanently deletes the community.
    pub deleted: bool,
}

/// A [`CommunityManifest`] with an Ed25519 signature from the admin key.
#[derive(Debug)]
pub struct SignedManifest {
    pub manifest: CommunityManifest,
    /// Ed25519 signature bytes (64 of them when well formed).
    pub signature: Vec<u8>,
}

/// What a [`CommunityManifest`] holds.
pub struct CommunityManifestView {
    pub id: CommunityId,
    pub name: Seq<char>,
    pub description: Seq<char>,
    pub public_key: Seq<u8>,
    pub created_at: Timestamp,
    pub admin_ids: Seq<UserId>,
    pub channel_ids: Seq<ChannelId>,
    pub seed_nodes: Seq<Seq<char>>,
    pub version: u64,
    pub deleted: bool,
}

/// What a [`SignedManifest`] holds.
pub struct SignedManifestView {
    pub manifest: CommunityManifestView,
    pub signature: Seq<u8>,
}

impl DeepView for CommunityManifest {
    type V = CommunityManifestView;

    open spec fn deep_view(&self) -> CommunityManifestView {
        CommunityManifestView {
            id: self.id,
            name: self.name@,
            description: self.description@,
            public_key: self.public_key@,
            created_at: self.created_at,
            admin_ids: self.admin_ids@,
            channel_ids: self.channel_ids@,
            seed_nodes: self.seed_nodes.deep_view(),
            version: self.version,
            deleted: self.deleted,
        }
    }
}

impl DeepView for SignedManifest {
    type V = SignedManifestView;

    open spec fn deep_view(&self) -> SignedManifestView {
        SignedManifestView {
            manifest: self.manifest.deep_view(),
            signature: self.signature@,
        }
    }
}

/// The text forms of a list of users.
pub open spec fn user_names(ids: Seq<UserId>) -> Seq<Seq<char>> {
    Seq::new(ids.len(), |i: int| ids[i].name())
}

/// The text forms of a list of channels.
pub open spec fn channel_names(ids: Seq<ChannelId>) -> Seq<Seq<char>> {
    Seq::new(ids.len(), |i: int| ids[i].name())
}

/// The text forms of a list of users.
pub fn user_texts(ids: &Vec<UserId>) -> (r: Vec<String>)
    ensures
        r.deep_view() == user_names(ids@),
{
    broadcast use vec_deep_view, views_push;

    let mut out: Vec<String> = Vec::new();
    let mut i: usize = 0;
    while i < ids.len()
        invariant
            i <= ids@.len(),
            out.deep_view() == user_names(ids@.subrange(0, i as int)),
        decreases ids@.len() - i,
    {
        out.push(ids[i].to_string());
        i += 1;
        assert(user_names(ids@.subrange(0, i as int)) =~= user_names(
            ids@.subrange(0, i - 1),
        ).push(ids@[i - 1].name()));
    }
    assert(ids@.subrange(0, ids@.len() as int) =~= ids@);
    out
}

/// The text forms of a list of channels.
pub fn channel_texts(ids: &Vec<ChannelId>) -> (r: Vec<String>)
    ensures
        r.deep_view() == channel_names(ids@),
{
    broadcast use vec_deep_view, views_push;

    let mut out: Vec<String> = Vec::new();
    let mut i: usize = 0;
    while i < ids.len()
        invariant
            i <= ids@.len(),
            out.deep_view() == channel_names(ids@.subrange(0, i as int)),
        decreases ids@.len() - i,
    {
        out.push(ids[i].to_string());
        i += 1;
        assert(channel_names(ids@.subrange(0, i as int)) =~= channel_names(
            ids@.subrange(0, i - 1),
        ).push(ids@[i - 1].name()));
    }
    assert(ids@.subrange(0, ids@.len() as int) =~= ids@);
    out
}

impl CommunityManifestView {
    /// The bytes that the admin signs.
    pub open spec fn canonical(self) -> Seq<u8> {
        manifest_encoding(
            self.id.name(),
            self.name,
            self.description,
            self.public_key,
            rfc3339_text(self.created_at.secs, self.created_at.nanos),
            user_names(self.admin_ids),
            channel_names(self.channel_ids),
            self.seed_nodes,
            self.version,
            self.deleted,
        )
    }

    /// This manifest signed with `sk`.
    pub open spec fn signed_with(self, sk: Seq<u8>) -> SignedManifestView {
        SignedManifestView {
            manifest: self,
            signature: ed25519_signature(sk, self.canonical()),
        }
    }

    /// Whether the user with text form `name` is listed as an admin.
    pub open spec fn lists_admin(self, name: Seq<char>) -> bool {
        user_names(self.admin_ids).contains(name)
    }
}

impl SignedManifestView {
    /// Whether the signature verifies under the manifest's own public key.
    pub open spec fn valid(self) -> bool {
        self.signature.len() == 64 && ed25519_accepts(
            self.manifest.public_key,
            self.manifest.canonical(),
            self.signature,
        )
    }
}

impl Clone for CommunityManifest {
    fn clone(&self) -> (r: Self)
        ensures
            r.deep_view() == self.deep_view(),
    {
        CommunityManifest {
            id: self.id,
            name: self.name.clone(),
            description: self.description.clone(),
            public_key: self.public_key,
            created_at: self.created_at,
            admin_ids: copy_all(&self.admin_ids),
            channel_ids: copy_all(&self.channel_ids),
            seed_nodes: copy_texts(&self.seed_nodes),
            version: self.version,
            deleted: self.deleted,
        }
    }
}

impl Clone for SignedManifest {
    fn clone(&self) -> (r: Self)
        ensures
            r.deep_view() == self.deep_view(),
    {
        SignedManifest {
            manifest: self.manifest.clone(),
            signature: to_vec(self.signature.as_slice()),
        }
    }
}

impl CommunityManifest {
    /// Serialise the manifest to canonical bytes for signing and verification.
    pub fn canonical_bytes(&self) -> (r: Vec<u8>)
        ensures
            r@ == self.deep_view().canonical(),
    {
        let id = self.id.to_string();
        let created_at = self.created_at.to_rfc3339();
        let admins = user_texts(&self.admin_ids);
        let channels = channel_texts(&self.channel_ids);
        encode_manifest(
            id.as_str(),
            self.name.as_str(),
            self.description.as_str(),
            &self.public_key,
            created_at.as_str(),
            &admins,
            &channels,
            &self.seed_nodes,
            self.version,
            self.deleted,
        )
    }

    /// Sign this manifest with the given admin key.
    pub fn sign(self, admin_key: &[u8; 32]) -> (r: SignedManifest)
        ensures
            r.manifest == self,
            r.deep_view() == self.deep_view().signed_with(admin_key@),
            self.public_key@ == ed25519_public_key(admin_key@) ==> r.deep_view().valid(),
    {
        let bytes = self.canonical_bytes();
        let signature = ed25519_sign(admin_key, bytes.as_slice());
        SignedManifest { manifest: self, signature: to_vec(signature.as_slice()) }
    }

    /// Whether the user with text form `name` is listed as an admin.
    pub fn lists_admin(&self, name: &str) -> (r: bool)
        ensures
            r == self.deep_view().lists_admin(name@),
    {
        crate::lists::has_text(&user_texts(&self.admin_ids), name)
    }
}

impl SignedManifest {
    /// Verify the signature against the manifest's public key. Malformed key
    /// or signature bytes do not verify.
    pub fn verify(&self) -> (r: bool)
        ensures
            r == self.deep_view().valid(),
    {
        match to_array::<64>(self.signature.as_slice()) {
            Some(sig) => {
                let bytes = self.manifest.canonical_bytes();
                ed25519_verify(&self.manifest.public_key, bytes.as_slice(), &sig)
            },
            None => false,
        }
    }
}

/// A signature of another length than 64 bytes never verifies.
pub proof fn malformed_signatures_are_refused(m: SignedManifestView)
    requires
        m.signature.len() != 64,
    ensures
        !m.valid(),
{
}

} // verus!
