//! Symmetric channel keys and their per-member wrapping.

use crate::bytes::{append, array_at, concat, tail, to_array};
use crate::crypto::encrypted_io::{decrypt_bytes, encrypt_bytes, opened_blob, sealed_blob};
use crate::crypto::primitives::{
    open_bytes, seal_bytes, encryptable, hkdf, hkdf_sha256, random_array, x25519_public,
    x25519_public_key, x25519_shared, x25519_shared_secret, xchacha_opened, xchacha_seal,
};
use crate::crypto::CryptoError;
use vstd::prelude::*;
use vstd::string::*;
use vstd::utf8::*;

verus! {

/// HKDF info string for channel-key wrapping; separates it from the DM
/// derivation.
pub const CHANNEL_KEY_WRAP_INFO: &'static str = "bitcord-channel-key-wrap/v1";

/// The key that wraps a channel key, from the shared secret and the ephemeral
/// public key.
pub open spec fn wrapping_key(shared: Seq<u8>, ephem_pk: Seq<u8>) -> Seq<u8> {
    hkdf_sha256(ephem_pk, shared, encode_utf8(CHANNEL_KEY_WRAP_INFO@))
}

/// The wire form `ephemeral_pk || nonce || ciphertext` of a wrapped key.
pub open spec fn wrapped_key(
    key: Seq<u8>,
    member_pk: Seq<u8>,
    ephem_sk: Seq<u8>,
    nonce: Seq<u8>,
) -> Seq<u8> {
    let ephem_pk = x25519_public_key(ephem_sk);
    let kek = wrapping_key(x25519_shared_secret(ephem_sk, member_pk), ephem_pk);
    ephem_pk + nonce + xchacha_seal(kek, nonce, key)
}

/// What a member with X25519 secret `sk` unwraps.
pub open spec fn unwrapped_key(sk: Seq<u8>, wrapped: Seq<u8>) -> Result<Seq<u8>, CryptoError> {
    if wrapped.len() < 72 {
        Err(CryptoError::TooShort)
    } else {
        let ephem_pk = wrapped.subrange(0, 32);
        let kek = wrapping_key(x25519_shared_secret(sk, ephem_pk), ephem_pk);
        match xchacha_opened(kek, wrapped.subrange(32, 56), wrapped.subrange(56, wrapped.len() as int)) {
            None => Err(CryptoError::Unauthentic),
            Some(p) => if p.len() == 32 {
                Ok(p)
            } else {
                Err(CryptoError::WrongLength)
            },
        }
    }
}

/// A 32-byte symmetric key that encrypts channel messages.
pub struct ChannelKey {
    key: [u8; 32],
}

impl View for ChannelKey {
    type V = Seq<u8>;

    closed spec fn view(&self) -> Seq<u8> {
        self.key@
    }
}

impl ChannelKey {
    /// Generate a random channel key.
    pub fn generate() -> (r: ChannelKey)
        ensures
            r@.len() == 32,
    {
        ChannelKey { key: random_array::<32>() }
    }

    /// Wrap existing key bytes.
    pub fn from_bytes(bytes: [u8; 32]) -> (r: ChannelKey)
        ensures
            r@ == bytes@,
    {
        ChannelKey { key: bytes }
    }

    /// Raw key bytes.
    pub fn as_bytes(&self) -> (r: &[u8; 32])
        ensures
            r@ == self@,
    {
        &self.key
    }

    /// Encrypt `plaintext` under the given nonce.
    pub fn encrypt_message_with(&self, nonce: &[u8; 24], plaintext: &[u8]) -> (r: Result<
        Vec<u8>,
        CryptoError,
    >)
        ensures
            match r {
                Ok(c) => encryptable(plaintext@.len()) && c@ == xchacha_seal(
                    self@,
                    nonce@,
                    plaintext@,
                ) && c@.len() == plaintext@.len() + 16 && xchacha_opened(self@, nonce@, c@) == Some(
                    plaintext@,
                ),
                Err(e) => e == CryptoError::TooLong && !encryptable(plaintext@.len()),
            },
    {
        match seal_bytes(&self.key, nonce, plaintext) {
            Some(c) => Ok(c),
            None => Err(CryptoError::TooLong),
        }
    }

    /// Encrypt `plaintext` under a random nonce, returning `(nonce, ciphertext)`.
    ///
    /// Prefer this over [`ChannelKey::encrypt`] when the nonce and the
    /// ciphertext are stored in separate fields.
    pub fn encrypt_message(&self, plaintext: &[u8]) -> (r: Result<([u8; 24], Vec<u8>), CryptoError>)
        ensures
            match r {
                Ok((n, c)) => encryptable(plaintext@.len()) && c@ == xchacha_seal(
                    self@,
                    n@,
                    plaintext@,
                ) && c@.len() == plaintext@.len() + 16 && xchacha_opened(self@, n@, c@) == Some(
                    plaintext@,
                ),
                Err(e) => e == CryptoError::TooLong && !encryptable(plaintext@.len()),
            },
    {
        let nonce = random_array::<24>();
        match self.encrypt_message_with(&nonce, plaintext) {
            Ok(c) => Ok((nonce, c)),
            Err(e) => Err(e),
        }
    }

    /// Decrypt ciphertext produced by [`ChannelKey::encrypt_message`].
    pub fn decrypt_message(&self, nonce: &[u8; 24], ciphertext: &[u8]) -> (r: Result<
        Vec<u8>,
        CryptoError,
    >)
        ensures
            match r {
                Ok(p) => xchacha_opened(self@, nonce@, ciphertext@) == Some(p@) && p@.len() + 16
                    == ciphertext@.len(),
                Err(e) => e == CryptoError::Unauthentic && xchacha_opened(
                    self@,
                    nonce@,
                    ciphertext@,
                ) is None,
            },
    {
        match open_bytes(&self.key, nonce, ciphertext) {
            Some(p) => Ok(p),
            None => Err(CryptoError::Unauthentic),
        }
    }

    /// Encrypt `plaintext`, returning `nonce (24 bytes) || ciphertext`.
    pub fn encrypt(&self, plaintext: &[u8]) -> (r: Result<Vec<u8>, CryptoError>)
        ensures
            match r {
                Ok(out) => encryptable(plaintext@.len()) && out@.len() == plaintext@.len() + 40
                    && out@ == sealed_blob(self@, out@.subrange(0, 24), plaintext@) && opened_blob(
                    self@,
                    out@,
                ) == Ok::<Seq<u8>, CryptoError>(plaintext@),
                Err(e) => e == CryptoError::TooLong && !encryptable(plaintext@.len()),
            },
    {
        encrypt_bytes(plaintext, &self.key)
    }

    /// Decrypt data produced by [`ChannelKey::encrypt`].
    pub fn decrypt(&self, data: &[u8]) -> (r: Result<Vec<u8>, CryptoError>)
        ensures
            match r {
                Ok(p) => opened_blob(self@, data@) == Ok::<Seq<u8>, CryptoError>(p@) && p@.len()
                    + 40 == data@.len(),
                Err(e) => opened_blob(self@, data@) == Err::<Seq<u8>, CryptoError>(e),
            },
    {
        decrypt_bytes(data, &self.key)
    }

    /// Wrap this key for a member with the given ephemeral secret and nonce.
    pub fn encrypt_for_member_with(
        &self,
        member_x25519_pk: &[u8; 32],
        ephem_sk: &[u8; 32],
        nonce: &[u8; 24],
    ) -> (r: Vec<u8>)
        ensures
            r@.len() == 104,
            r@ == wrapped_key(self@, member_x25519_pk@, ephem_sk@, nonce@),
            delivers(self@, member_x25519_pk@, r@),
    {
        let ephem_pk = x25519_public(ephem_sk);
        let shared = x25519_shared(ephem_sk, member_x25519_pk);
        let kek = hkdf(&ephem_pk, shared.as_slice(), CHANNEL_KEY_WRAP_INFO.as_bytes());
        let sealed = seal_bytes(&kek, nonce, self.key.as_slice());
        let mut out = concat(ephem_pk.as_slice(), nonce.as_slice());
        match sealed {
            Some(c) => {
                append(&mut out, c.as_slice());
                assert(out@.subrange(0, 32) =~= ephem_pk@);
                assert(out@.subrange(32, 56) =~= nonce@);
                assert(out@.subrange(56, out@.len() as int) =~= c@);
            },
            None => {
                assert(false);
            },
        }
        out
    }

    /// Wrap this channel key for delivery to a member's X25519 public key.
    ///
    /// Wire format: `ephemeral_pk (32) || nonce (24) || ciphertext (48)`.
    /// The ephemeral secret and the nonce are random.
    pub fn encrypt_for_member(&self, member_x25519_pk: &[u8; 32]) -> (r: Result<
        Vec<u8>,
        CryptoError,
    >)
        ensures
            r matches Ok(w) && w@.len() == 104 && is_wrapping(self@, member_x25519_pk@, w@),
            r matches Ok(w) && delivers(self@, member_x25519_pk@, w@),
    {
        let ephem_sk = random_array::<32>();
        let nonce = random_array::<24>();
        let w = self.encrypt_for_member_with(member_x25519_pk, &ephem_sk, &nonce);
        assert(wrapped_key(self@, member_x25519_pk@, ephem_sk@, nonce@) == w@);
        Ok(w)
    }

    /// Unwrap a channel key previously encrypted by
    /// [`ChannelKey::encrypt_for_member`] with the member's X25519 secret. Only
    /// 104 bytes can hold one.
    pub fn decrypt_for_self(x25519_sk: &[u8; 32], wrapped: &[u8]) -> (r: Result<
        ChannelKey,
        CryptoError,
    >)
        ensures
            r is Ok ==> wrapped@.len() == 104,
            match r {
                Ok(k) => unwrapped_key(x25519_sk@, wrapped@) == Ok::<Seq<u8>, CryptoError>(k@),
                Err(e) => unwrapped_key(x25519_sk@, wrapped@) == Err::<Seq<u8>, CryptoError>(e),
            },
    {
        if wrapped.len() < 72 {
            return Err(CryptoError::TooShort);
        }
        let ephem_pk = array_at::<32>(wrapped, 0);
        let nonce = array_at::<24>(wrapped, 32);
        let shared = x25519_shared(x25519_sk, &ephem_pk);
        let kek = hkdf(&ephem_pk, shared.as_slice(), CHANNEL_KEY_WRAP_INFO.as_bytes());
        match open_bytes(&kek, &nonce, tail(wrapped, 56)) {
            None => Err(CryptoError::Unauthentic),
            Some(p) => match to_array::<32>(p.as_slice()) {
                Some(key) => Ok(ChannelKey { key }),
                None => Err(CryptoError::WrongLength),
            },
        }
    }
}

/// A key reads a blob in one piece exactly as it reads the first 24 bytes as the
/// nonce and the rest as the ciphertext; a blob that is shorter than a nonce is
/// refused.
pub proof fn blobs_read_in_one_piece_or_two(key: Seq<u8>, blob: Seq<u8>)
    ensures
        blob.len() < 24 ==> opened_blob(key, blob) == Err::<Seq<u8>, CryptoError>(
            CryptoError::TooShort,
        ),
        blob.len() >= 24 ==> (match xchacha_opened(
            key,
            blob.subrange(0, 24),
            blob.subrange(24, blob.len() as int),
        ) {
            Some(p) => opened_blob(key, blob) == Ok::<Seq<u8>, CryptoError>(p),
            None => opened_blob(key, blob) == Err::<Seq<u8>, CryptoError>(CryptoError::Unauthentic),
        }),
{
}

/// Whether `w` is a wrapping of `key` for `member_pk` under some ephemeral
/// secret and nonce.
pub open spec fn is_wrapping(key: Seq<u8>, member_pk: Seq<u8>, w: Seq<u8>) -> bool {
    exists|ephem_sk: Seq<u8>, nonce: Seq<u8>|
        ephem_sk.len() == 32 && nonce.len() == 24 && #[trigger] wrapped_key(
            key,
            member_pk,
            ephem_sk,
            nonce,
        ) == w
}

/// Whether the holder of the secret of `member_pk` unwraps `w` to `key`.
pub open spec fn delivers(key: Seq<u8>, member_pk: Seq<u8>, w: Seq<u8>) -> bool {
    forall|sk: Seq<u8>|
        sk.len() == 32 && member_pk == #[trigger] x25519_public_key(sk) ==> unwrapped_key(sk, w)
            == Ok::<Seq<u8>, CryptoError>(key)
}

/// Try the current key, then the one before the last rotation.
pub open spec fn opened_with_fallback(
    key: Option<Seq<u8>>,
    previous: Option<Seq<u8>>,
    nonce: Seq<u8>,
    ciphertext: Seq<u8>,
) -> Option<Seq<u8>> {
    let first = match key {
        Some(k) => xchacha_opened(k, nonce, ciphertext),
        None => None,
    };
    if first is Some {
        first
    } else {
        match previous {
            Some(k) => xchacha_opened(k, nonce, ciphertext),
            None => None,
        }
    }
}

/// Decrypt a stored message with the current channel key, falling back to the
/// pre-rotation key so that old messages stay readable.
pub fn decrypt_with_fallback(
    key: Option<[u8; 32]>,
    previous: Option<[u8; 32]>,
    nonce: &[u8; 24],
    ciphertext: &[u8],
) -> (r: Option<Vec<u8>>)
    ensures
        ({
            let k = match key {
                Some(a) => Some(a@),
                None => None,
            };
            let p = match previous {
                Some(a) => Some(a@),
                None => None,
            };
            match r {
                Some(plain) => opened_with_fallback(k, p, nonce@, ciphertext@) == Some(plain@),
                None => opened_with_fallback(k, p, nonce@, ciphertext@) is None,
            }
        }),
{
    if let Some(k) = key {
        if let Some(plain) = open_bytes(&k, nonce, ciphertext) {
            return Some(plain);
        }
    }
    match previous {
        Some(k) => open_bytes(&k, nonce, ciphertext),
        None => None,
    }
}

/// A message that was encrypted before a rotation stays readable after it: with
/// the old key kept as the previous one, decryption gives the plaintext back
/// unless the new key happens to authenticate the same ciphertext.
pub proof fn rotation_keeps_history_readable(
    old_key: Seq<u8>,
    new_key: Seq<u8>,
    nonce: Seq<u8>,
    ciphertext: Seq<u8>,
    plaintext: Seq<u8>,
)
    requires
        xchacha_opened(old_key, nonce, ciphertext) == Some(plaintext),
        xchacha_opened(new_key, nonce, ciphertext) is None,
    ensures
        opened_with_fallback(Some(old_key), None, nonce, ciphertext) == Some(plaintext),
        opened_with_fallback(Some(new_key), Some(old_key), nonce, ciphertext) == Some(plaintext),
{
}

} // verus!
