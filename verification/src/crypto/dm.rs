//! Encrypted direct-message envelopes.
//!
//! Both an ephemeral key and the sender's static X25519 key contribute to the
//! derived encryption key.

use crate::bytes::concat;
use crate::crypto::primitives::{
    open_bytes, seal_bytes, encryptable, hkdf, hkdf_sha256, random_array, x25519_public,
    x25519_public_key, x25519_shared, x25519_shared_secret, xchacha_opened, xchacha_seal,
};
use crate::crypto::CryptoError;
use crate::wire::{decode_envelope, encode_envelope, envelope_decoding, envelope_encoding};
use vstd::prelude::*;
use vstd::string::*;
use vstd::utf8::*;

verus! {

/// HKDF info string of the direct-message derivation.
pub const DM_HKDF_INFO: &'static str = "bitcord-dm/v1";

/// Structured plaintext sealed inside a [`DmEnvelope`].
#[derive(Debug)]
pub struct DmPayload {
    pub body: String,
    pub reply_to: Option<String>,
    /// Sender-assigned message id; empty means that the payload carries none.
    pub id: String,
}

/// An encrypted direct-message envelope.
#[derive(Debug)]
pub struct DmEnvelope {
    /// Sender's static X25519 public key.
    pub sender_pk: [u8; 32],
    /// Per-message ephemeral X25519 public key.
    pub ephem_pk: [u8; 32],
    /// XChaCha20-Poly1305 nonce.
    pub nonce: [u8; 24],
    /// Authenticated ciphertext, sixteen bytes longer than the plaintext.
    pub ciphertext: Vec<u8>,
}

/// What a [`DmEnvelope`] holds.
pub struct DmEnvelopeView {
    pub sender_pk: Seq<u8>,
    pub ephem_pk: Seq<u8>,
    pub nonce: Seq<u8>,
    pub ciphertext: Seq<u8>,
}

impl DeepView for DmEnvelope {
    type V = DmEnvelopeView;

    open spec fn deep_view(&self) -> DmEnvelopeView {
        DmEnvelopeView {
            sender_pk: self.sender_pk@,
            ephem_pk: self.ephem_pk@,
            nonce: self.nonce@,
            ciphertext: self.ciphertext@,
        }
    }
}

/// The message key: HKDF over both shared secrets, salted by the ephemeral key.
pub open spec fn dm_key(dh_ephem: Seq<u8>, dh_static: Seq<u8>, ephem_pk: Seq<u8>) -> Seq<u8> {
    hkdf_sha256(ephem_pk, dh_ephem + dh_static, encode_utf8(DM_HKDF_INFO@))
}

/// What the holder of `recipient_sk` reads in an envelope with these fields.
pub open spec fn envelope_opened(
    sender_pk: Seq<u8>,
    ephem_pk: Seq<u8>,
    nonce: Seq<u8>,
    ciphertext: Seq<u8>,
    recipient_sk: Seq<u8>,
) -> Option<Seq<u8>> {
    let key = dm_key(
        x25519_shared_secret(recipient_sk, ephem_pk),
        x25519_shared_secret(recipient_sk, sender_pk),
        ephem_pk,
    );
    xchacha_opened(key, nonce, ciphertext)
}

/// What the holder of `recipient_sk` reads in an encoded envelope.
pub open spec fn bytes_opened(bytes: Seq<u8>, recipient_sk: Seq<u8>) -> Option<Seq<u8>> {
    match envelope_decoding(bytes) {
        Some((sender_pk, ephem_pk, nonce, ciphertext)) => envelope_opened(
            sender_pk,
            ephem_pk,
            nonce,
            ciphertext,
            recipient_sk,
        ),
        None => None,
    }
}

impl DmEnvelope {
    /// What the holder of `recipient_sk` reads.
    pub open spec fn opened(&self, recipient_sk: Seq<u8>) -> Option<Seq<u8>> {
        envelope_opened(
            self.sender_pk@,
            self.ephem_pk@,
            self.nonce@,
            self.ciphertext@,
            recipient_sk,
        )
    }

    /// The encoded envelope.
    pub fn to_bytes(&self) -> (r: Vec<u8>)
        ensures
            r@ == envelope_encoding(
                self.sender_pk@,
                self.ephem_pk@,
                self.nonce@,
                self.ciphertext@,
            ),
            forall|sk: Seq<u8>| #[trigger] bytes_opened(r@, sk) == self.opened(sk),
    {
        encode_envelope(&self.sender_pk, &self.ephem_pk, &self.nonce, &self.ciphertext)
    }

    /// Read an encoded envelope.
    pub fn from_bytes(bytes: &[u8]) -> (r: Option<DmEnvelope>)
        ensures
            match r {
                Some(env) => envelope_decoding(bytes@) == Some(
                    (env.sender_pk@, env.ephem_pk@, env.nonce@, env.ciphertext@),
                ),
                None => envelope_decoding(bytes@) is None,
            },
    {
        match decode_envelope(bytes) {
            Some((sender_pk, ephem_pk, nonce, ciphertext)) => Some(
                DmEnvelope { sender_pk, ephem_pk, nonce, ciphertext },
            ),
            None => None,
        }
    }

    /// Whether this is the envelope of `plaintext` under the given keys.
    pub open spec fn seals(
        &self,
        sender_sk: Seq<u8>,
        recipient_pk: Seq<u8>,
        ephem_sk: Seq<u8>,
        plaintext: Seq<u8>,
    ) -> bool {
        let key = dm_key(
            x25519_shared_secret(ephem_sk, recipient_pk),
            x25519_shared_secret(sender_sk, recipient_pk),
            self.ephem_pk@,
        );
        &&& self.sender_pk@ == x25519_public_key(sender_sk)
        &&& self.ephem_pk@ == x25519_public_key(ephem_sk)
        &&& self.ciphertext@ == xchacha_seal(key, self.nonce@, plaintext)
        &&& self.ciphertext@.len() == plaintext.len() + 16
    }

    /// Seal `plaintext` with the given ephemeral secret and nonce.
    pub fn seal_with(
        sender_sk: &[u8; 32],
        recipient_pk: &[u8; 32],
        plaintext: &[u8],
        ephem_sk: &[u8; 32],
        nonce: [u8; 24],
    ) -> (r: Result<DmEnvelope, CryptoError>)
        ensures
            match r {
                Ok(env) => encryptable(plaintext@.len()) && env.nonce == nonce && env.seals(
                    sender_sk@,
                    recipient_pk@,
                    ephem_sk@,
                    plaintext@,
                ) && forall|sk: Seq<u8>|
                    sk.len() == 32 && recipient_pk@ == #[trigger] x25519_public_key(sk)
                        ==> env.opened(sk) == Some(plaintext@),
                Err(e) => e == CryptoError::TooLong && !encryptable(plaintext@.len()),
            },
    {
        let sender_pk = x25519_public(sender_sk);
        let ephem_pk = x25519_public(ephem_sk);
        let dh_ephem = x25519_shared(ephem_sk, recipient_pk);
        let dh_static = x25519_shared(sender_sk, recipient_pk);
        let ikm = concat(dh_ephem.as_slice(), dh_static.as_slice());
        let key = hkdf(&ephem_pk, ikm.as_slice(), DM_HKDF_INFO.as_bytes());
        match seal_bytes(&key, &nonce, plaintext) {
            Some(ciphertext) => Ok(DmEnvelope { sender_pk, ephem_pk, nonce, ciphertext }),
            None => Err(CryptoError::TooLong),
        }
    }

    /// Seal `plaintext` for `recipient_pk` using the sender's static X25519
    /// key, a random ephemeral key and a random nonce.
    pub fn seal(sender_sk: &[u8; 32], recipient_pk: &[u8; 32], plaintext: &[u8]) -> (r: Result<
        DmEnvelope,
        CryptoError,
    >)
        ensures
            match r {
                Ok(env) => encryptable(plaintext@.len()) && (exists|ephem_sk: Seq<u8>|
                    ephem_sk.len() == 32 && #[trigger] env.seals(
                        sender_sk@,
                        recipient_pk@,
                        ephem_sk,
                        plaintext@,
                    )) && forall|sk: Seq<u8>|
                    sk.len() == 32 && recipient_pk@ == #[trigger] x25519_public_key(sk)
                        ==> env.opened(sk) == Some(plaintext@),
                Err(e) => e == CryptoError::TooLong && !encryptable(plaintext@.len()),
            },
    {
        let ephem_sk = random_array::<32>();
        let nonce = random_array::<24>();
        let r = Self::seal_with(sender_sk, recipient_pk, plaintext, &ephem_sk, nonce);
        assert(ephem_sk@.len() == 32);
        r
    }

    /// Open this envelope using the recipient's static X25519 key.
    pub fn open(&self, recipient_sk: &[u8; 32]) -> (r: Result<Vec<u8>, CryptoError>)
        ensures
            match r {
                Ok(p) => self.opened(recipient_sk@) == Some(p@) && p@.len() + 16
                    == self.ciphertext@.len(),
                Err(e) => e == CryptoError::Unauthentic && self.opened(recipient_sk@) is None,
            },
    {
        let dh_ephem = x25519_shared(recipient_sk, &self.ephem_pk);
        let dh_static = x25519_shared(recipient_sk, &self.sender_pk);
        let ikm = concat(dh_ephem.as_slice(), dh_static.as_slice());
        let key = hkdf(&self.ephem_pk, ikm.as_slice(), DM_HKDF_INFO.as_bytes());
        match open_bytes(&key, &self.nonce, self.ciphertext.as_slice()) {
            Some(p) => Ok(p),
            None => Err(CryptoError::Unauthentic),
        }
    }
}

} // verus!
