//! Node identities.

pub mod export;
pub mod keystore;

use crate::crypto::primitives::{
    ed25519_accepts, ed25519_public, ed25519_public_key, ed25519_sign, ed25519_signature,
    ed25519_verify, random_array, sha256, sha256_digest, x25519_public, x25519_public_key,
};
use crate::text::{bytes_to_hex, hex};
use vstd::prelude::*;

verus! {

/// Base-58 text (Bitcoin alphabet) of a byte string.
pub uninterp spec fn base58_text(bytes: Seq<u8>) -> Seq<char>;

/// `bs58::encode` with the default alphabet.
#[verifier::external_body]
fn base58(bytes: &[u8]) -> (r: String)
    ensures
        r@ == base58_text(bytes@),
{
    bs58::encode(bytes).into_string()
}

/// A 32-byte SHA-256 digest of the verifying key, used as a peer identifier.
#[derive(Clone, Copy, Debug, PartialEq, Eq, Hash)]
pub struct PeerId {
    bytes: [u8; 32],
}

impl View for PeerId {
    type V = Seq<u8>;

    closed spec fn view(&self) -> Seq<u8> {
        self.bytes@
    }
}

impl PeerId {
    /// The digest bytes.
    pub fn as_bytes(&self) -> (r: &[u8; 32])
        ensures
            r@ == self@,
    {
        &self.bytes
    }

    /// The text form: 64 lowercase hexadecimal digits.
    pub fn to_string(&self) -> (r: String)
        ensures
            r@ == hex(self@),
    {
        bytes_to_hex(self.bytes.as_slice())
    }
}

/// The X25519 secret that belongs to an Ed25519 signing key.
pub open spec fn x25519_secret_of(signing_key: Seq<u8>) -> Seq<u8> {
    sha256_digest(signing_key)
}

/// The peer identifier that belongs to an Ed25519 signing key.
pub open spec fn peer_id_of(signing_key: Seq<u8>) -> Seq<u8> {
    sha256_digest(ed25519_public_key(signing_key))
}

/// An Ed25519 signing key and its verifying key.
pub struct NodeIdentity {
    signing_key: [u8; 32],
    verifying_key: [u8; 32],
}

impl View for NodeIdentity {
    type V = Seq<u8>;

    /// The signing key bytes.
    closed spec fn view(&self) -> Seq<u8> {
        self.signing_key@
    }
}

impl NodeIdentity {
    /// The verifying key is the one of the signing key.
    pub closed spec fn wf(&self) -> bool {
        self.verifying_key@ == ed25519_public_key(self.signing_key@)
    }

    /// Generate a new random identity.
    pub fn generate() -> (r: NodeIdentity)
        ensures
            r.wf(),
            r@.len() == 32,
    {
        Self::from_signing_key_bytes(&random_array::<32>())
    }

    /// Reconstruct an identity from raw signing-key bytes.
    pub fn from_signing_key_bytes(bytes: &[u8; 32]) -> (r: NodeIdentity)
        ensures
            r.wf(),
            r@ == bytes@,
    {
        NodeIdentity { signing_key: *bytes, verifying_key: ed25519_public(bytes) }
    }

    /// Derive the peer ID as SHA-256 of the verifying key.
    pub fn to_peer_id(&self) -> (r: PeerId)
        requires
            self.wf(),
        ensures
            r@ == peer_id_of(self@),
    {
        PeerId { bytes: sha256(self.verifying_key.as_slice()) }
    }

    /// Sign a message. The signature covers the raw bytes as they are.
    pub fn sign(&self, msg: &[u8]) -> (r: [u8; 64])
        ensures
            r@ == ed25519_signature(self@, msg@),
            ed25519_accepts(ed25519_public_key(self@), msg@, r@),
    {
        ed25519_sign(&self.signing_key, msg)
    }

    /// The verifying (public) key.
    pub fn verifying_key(&self) -> (r: &[u8; 32])
        requires
            self.wf(),
        ensures
            r@ == ed25519_public_key(self@),
    {
        &self.verifying_key
    }

    /// A copy of the signing key.
    pub fn signing_key(&self) -> (r: [u8; 32])
        ensures
            r@ == self@,
    {
        self.signing_key
    }

    /// The raw signing-key bytes.
    pub fn signing_key_bytes(&self) -> (r: [u8; 32])
        ensures
            r@ == self@,
    {
        self.signing_key
    }

    /// Derive a deterministic X25519 static secret from the signing key.
    pub fn x25519_secret(&self) -> (r: [u8; 32])
        ensures
            r@ == x25519_secret_of(self@),
    {
        sha256(self.signing_key.as_slice())
    }

    /// The X25519 public key derived from this identity's signing key.
    pub fn x25519_public_key_bytes(&self) -> (r: [u8; 32])
        ensures
            r@ == x25519_public_key(x25519_secret_of(self@)),
    {
        x25519_public(&self.x25519_secret())
    }

    /// The node's canonical network address: the base-58 text of the
    /// verifying key.
    pub fn node_address(&self) -> (r: String)
        requires
            self.wf(),
        ensures
            r@ == base58_text(ed25519_public_key(self@)),
    {
        base58(self.verifying_key.as_slice())
    }

    /// Overwrite the key with the all-zero key.
    pub fn zeroize(&mut self)
        ensures
            final(self)@ == crate::bytes::zeros(32),
            final(self).wf(),
    {
        let zero: [u8; 32] = [0u8; 32];
        self.signing_key = zero;
        self.verifying_key = ed25519_public(&zero);
        assert(self.signing_key@ =~= crate::bytes::zeros(32));
    }
}

/// Verify an Ed25519 signature produced by [`NodeIdentity::sign`].
pub fn verify(pubkey: &[u8; 32], msg: &[u8], sig: &[u8; 64]) -> (r: bool)
    ensures
        r == ed25519_accepts(pubkey@, msg@, sig@),
{
    ed25519_verify(pubkey, msg, sig)
}

/// An identity is determined by its signing key: two identities with the same
/// key have the same peer id and the same X25519 keys.
pub proof fn identity_is_deterministic(a: NodeIdentity, b: NodeIdentity)
    requires
        a@ == b@,
    ensures
        peer_id_of(a@) == peer_id_of(b@),
        x25519_secret_of(a@) == x25519_secret_of(b@),
{
}

} // verus!
