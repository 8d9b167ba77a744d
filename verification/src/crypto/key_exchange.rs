//! X25519 key pairs for direct-message key agreement.

use crate::crypto::primitives::{
    random_array, x25519_public, x25519_public_key, x25519_shared, x25519_shared_secret,
};
use vstd::prelude::*;

verus! {

/// An X25519 key pair.
pub struct DhKeyPair {
    secret: [u8; 32],
    public: [u8; 32],
}

/// Raw 32-byte output of an X25519 Diffie-Hellman exchange.
pub struct SharedSecret {
    bytes: [u8; 32],
}

impl View for SharedSecret {
    type V = Seq<u8>;

    closed spec fn view(&self) -> Seq<u8> {
        self.bytes@
    }
}

impl DhKeyPair {
    /// The secret scalar bytes.
    pub closed spec fn secret(&self) -> Seq<u8> {
        self.secret@
    }

    /// The public key is the one of the secret.
    pub closed spec fn wf(&self) -> bool {
        self.public@ == x25519_public_key(self.secret@)
    }

    /// Build the pair of a given secret.
    pub fn from_secret(secret: [u8; 32]) -> (r: DhKeyPair)
        ensures
            r.wf(),
            r.secret() == secret@,
    {
        let public = x25519_public(&secret);
        DhKeyPair { secret, public }
    }

    /// Generate a new random X25519 key pair.
    pub fn generate() -> (r: DhKeyPair)
        ensures
            r.wf(),
            r.secret().len() == 32,
    {
        Self::from_secret(random_array::<32>())
    }

    /// Return a reference to the public key.
    pub fn public_key(&self) -> (r: &[u8; 32])
        requires
            self.wf(),
        ensures
            r@ == x25519_public_key(self.secret()),
    {
        &self.public
    }

    /// Return the public key as raw bytes.
    pub fn public_key_bytes(&self) -> (r: [u8; 32])
        requires
            self.wf(),
        ensures
            r@ == x25519_public_key(self.secret()),
    {
        self.public
    }

    /// Perform a Diffie-Hellman exchange. A peer whose public key is
    /// `their_public` derives the same value from this pair's public key.
    pub fn shared_secret(&self, their_public: &[u8; 32]) -> (r: SharedSecret)
        ensures
            r@ == x25519_shared_secret(self.secret(), their_public@),
            forall|other: Seq<u8>|
                other.len() == 32 && their_public@ == #[trigger] x25519_public_key(other) ==> r@
                    == x25519_shared_secret(other, x25519_public_key(self.secret())),
    {
        SharedSecret { bytes: x25519_shared(&self.secret, their_public) }
    }
}

impl SharedSecret {
    /// Raw shared secret bytes.
    pub fn as_bytes(&self) -> (r: &[u8; 32])
        ensures
            r@ == self@,
    {
        &self.bytes
    }
}

} // verus!
