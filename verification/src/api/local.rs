//! The local node's identity in the forms its handlers use.

use crate::crypto::primitives::{
    ed25519_public, ed25519_public_key, sha256, x25519_public, x25519_public_key,
};
use crate::identity::{base58_text, peer_id_of, x25519_secret_of, NodeIdentity};
use crate::model::types::UserId;
use vstd::prelude::*;

verus! {

/// The local signing key with everything derived from it.
pub struct LocalNode {
    signing_key: [u8; 32],
    public_key: [u8; 32],
    user_id: UserId,
    x25519_secret: [u8; 32],
    x25519_public: [u8; 32],
}

/// What a [`LocalNode`] holds.
pub struct LocalNodeView {
    /// The signing key.
    pub key: Seq<u8>,
    /// The user id that belongs to it.
    pub user_id: UserId,
}

impl DeepView for LocalNode {
    type V = LocalNodeView;

    closed spec fn deep_view(&self) -> LocalNodeView {
        LocalNodeView { key: self.signing_key@, user_id: self.user_id }
    }
}

impl LocalNode {
    #[verifier::type_invariant]
    spec fn consistent(self) -> bool {
        &&& self.public_key@ == ed25519_public_key(self.signing_key@)
        &&& self.user_id.0@ == peer_id_of(self.signing_key@)
        &&& self.x25519_secret@ == x25519_secret_of(self.signing_key@)
        &&& self.x25519_public@ == x25519_public_key(self.x25519_secret@)
    }

    /// The local node with the given signing key.
    pub fn new(signing_key: &[u8; 32]) -> (r: LocalNode)
        ensures
            r.deep_view().key == signing_key@,
            r.deep_view().user_id.0@ == peer_id_of(signing_key@),
    {
        let public_key = ed25519_public(signing_key);
        let x25519_secret = sha256(signing_key.as_slice());
        LocalNode {
            signing_key: *signing_key,
            public_key,
            user_id: UserId(sha256(public_key.as_slice())),
            x25519_secret,
            x25519_public: x25519_public(&x25519_secret),
        }
    }

    /// The signing key.
    pub fn signing_key(&self) -> (r: &[u8; 32])
        ensures
            r@ == self.deep_view().key,
    {
        &self.signing_key
    }

    /// The Ed25519 public key.
    pub fn public_key(&self) -> (r: [u8; 32])
        ensures
            r@ == ed25519_public_key(self.deep_view().key),
    {
        proof {
            use_type_invariant(self);
        }
        self.public_key
    }

    /// The user id: the digest of the public key.
    pub fn user_id(&self) -> (r: UserId)
        ensures
            r == self.deep_view().user_id,
            r.0@ == peer_id_of(self.deep_view().key),
    {
        proof {
            use_type_invariant(self);
        }
        self.user_id
    }

    /// The text form of the user id.
    pub fn peer_id(&self) -> (r: String)
        ensures
            r@ == self.deep_view().user_id.name(),
    {
        self.user_id.to_string()
    }

    /// The X25519 secret.
    pub fn x25519_secret(&self) -> (r: &[u8; 32])
        ensures
            r@ == x25519_secret_of(self.deep_view().key),
    {
        proof {
            use_type_invariant(self);
        }
        &self.x25519_secret
    }

    /// The X25519 public key.
    pub fn x25519_public(&self) -> (r: [u8; 32])
        ensures
            r@ == x25519_public_key(x25519_secret_of(self.deep_view().key)),
    {
        proof {
            use_type_invariant(self);
        }
        self.x25519_public
    }

    /// The hexadecimal text of the public key.
    pub fn public_key_hex(&self) -> (r: String)
        ensures
            r@ == crate::text::hex(ed25519_public_key(self.deep_view().key)),
    {
        proof {
            use_type_invariant(self);
        }
        crate::text::bytes_to_hex(self.public_key.as_slice())
    }

    /// The base-58 text of the public key.
    pub fn node_address(&self) -> (r: String)
        ensures
            r@ == base58_text(ed25519_public_key(self.deep_view().key)),
    {
        NodeIdentity::from_signing_key_bytes(&self.signing_key).node_address()
    }
}

} // verus!
