//! The cryptographic primitives the node relies on.
//!
//! Each function here hands plain bytes to one outside routine. What the
//! routine computes is a name (a spec function without a body); the contracts
//! tie the result to that name and to the few facts the other modules need.

use chacha20poly1305::aead::{Aead, KeyInit};
use ed25519_dalek::{Signer, Verifier};
use rand::RngCore;
use sha2::Digest;
use vstd::prelude::*;

verus! {

/// SHA-256 of a byte string.
pub uninterp spec fn sha256_digest(data: Seq<u8>) -> Seq<u8>;

/// The Ed25519 public key of a 32-byte signing key.
pub uninterp spec fn ed25519_public_key(sk: Seq<u8>) -> Seq<u8>;

/// The Ed25519 signature of a message under a signing key.
pub uninterp spec fn ed25519_signature(sk: Seq<u8>, msg: Seq<u8>) -> Seq<u8>;

/// Whether Ed25519 verification accepts a signature under a public key.
pub uninterp spec fn ed25519_accepts(pk: Seq<u8>, msg: Seq<u8>, sig: Seq<u8>) -> bool;

/// The X25519 public key of a 32-byte secret.
pub uninterp spec fn x25519_public_key(sk: Seq<u8>) -> Seq<u8>;

/// The X25519 shared secret of a secret and another party's public key.
pub uninterp spec fn x25519_shared_secret(sk: Seq<u8>, pk: Seq<u8>) -> Seq<u8>;

/// The first 32 bytes of HKDF-SHA256 output.
pub uninterp spec fn hkdf_sha256(salt: Seq<u8>, ikm: Seq<u8>, info: Seq<u8>) -> Seq<u8>;

/// XChaCha20-Poly1305 ciphertext (with its tag) of a plaintext.
pub uninterp spec fn xchacha_seal(key: Seq<u8>, nonce: Seq<u8>, plaintext: Seq<u8>) -> Seq<u8>;

/// The plaintext that XChaCha20-Poly1305 authenticates and decrypts, if any.
pub uninterp spec fn xchacha_open(key: Seq<u8>, nonce: Seq<u8>, ciphertext: Seq<u8>) -> Option<
    Seq<u8>,
>;

/// The 32-byte Argon2id (version 0x13, 64 MiB, 3 passes, 4 lanes) key.
pub uninterp spec fn argon2id_key(password: Seq<u8>, salt: Seq<u8>) -> Seq<u8>;

/// The longest plaintext that the cipher takes: `2^32 - 2` blocks of 64 bytes.
/// Its 32-bit block counter starts at one.
pub const MAX_PLAINTEXT: u64 = 274_877_906_816;

/// The length of the tag that the cipher adds.
pub const TAG_LEN: u64 = 16;

/// Whether a plaintext is short enough for the cipher.
pub open spec fn encryptable(len: nat) -> bool {
    len <= MAX_PLAINTEXT
}

/// Whether a ciphertext is short enough for the cipher.
pub open spec fn decryptable(len: nat) -> bool {
    len <= TAG_LEN + MAX_PLAINTEXT
}

/// The plaintext of a ciphertext, if it is authentic. What is too long for the
/// cipher never is.
pub open spec fn xchacha_opened(key: Seq<u8>, nonce: Seq<u8>, ciphertext: Seq<u8>) -> Option<
    Seq<u8>,
> {
    if decryptable(ciphertext.len()) {
        xchacha_open(key, nonce, ciphertext)
    } else {
        None
    }
}

/// `Sha256::digest`: the result is the SHA-256 digest of `data`.
#[verifier::external_body]
pub(crate) fn sha256(data: &[u8]) -> (r: [u8; 32])
    ensures
        r@ == sha256_digest(data@),
{
    sha2::Sha256::digest(data).into()
}

/// `SigningKey::verifying_key`: the public half of the signing key `sk`.
#[verifier::external_body]
pub(crate) fn ed25519_public(sk: &[u8; 32]) -> (r: [u8; 32])
    ensures
        r@ == ed25519_public_key(sk@),
{
    ed25519_dalek::SigningKey::from_bytes(sk).verifying_key().to_bytes()
}

/// `SigningKey::sign`: a deterministic signature, which verification under the
/// public half of the key accepts for the same message.
#[verifier::external_body]
pub(crate) fn ed25519_sign(sk: &[u8; 32], msg: &[u8]) -> (r: [u8; 64])
    ensures
        r@ == ed25519_signature(sk@, msg@),
        ed25519_accepts(ed25519_public_key(sk@), msg@, r@),
{
    ed25519_dalek::SigningKey::from_bytes(sk).sign(msg).to_bytes()
}

/// `VerifyingKey::verify` on the key that `pk` encodes; bytes that encode no
/// curve point accept nothing.
#[verifier::external_body]
pub(crate) fn ed25519_verify(pk: &[u8; 32], msg: &[u8], sig: &[u8; 64]) -> (r: bool)
    ensures
        r == ed25519_accepts(pk@, msg@, sig@),
{
    match ed25519_dalek::VerifyingKey::from_bytes(pk) {
        Ok(vk) => vk.verify(msg, &ed25519_dalek::Signature::from_bytes(sig)).is_ok(),
        Err(_) => false,
    }
}

/// `x25519_dalek::PublicKey::from(&StaticSecret)`: the public key of `sk`.
#[verifier::external_body]
pub(crate) fn x25519_public(sk: &[u8; 32]) -> (r: [u8; 32])
    ensures
        r@ == x25519_public_key(sk@),
{
    x25519_dalek::PublicKey::from(&x25519_dalek::StaticSecret::from(*sk)).to_bytes()
}

/// `StaticSecret::diffie_hellman`: the shared secret. Both parties reach the
/// same value: when `pk` is the public key of some secret, that secret and the
/// public key of `sk` give the same result.
#[verifier::external_body]
pub(crate) fn x25519_shared(sk: &[u8; 32], pk: &[u8; 32]) -> (r: [u8; 32])
    ensures
        r@ == x25519_shared_secret(sk@, pk@),
        forall|other: Seq<u8>|
            other.len() == 32 && pk@ == #[trigger] x25519_public_key(other) ==> r@
                == x25519_shared_secret(other, x25519_public_key(sk@)),
{
    let secret = x25519_dalek::StaticSecret::from(*sk);
    secret.diffie_hellman(&x25519_dalek::PublicKey::from(*pk)).to_bytes()
}

/// `Hkdf::<Sha256>::expand` to 32 bytes, a length that is never refused.
#[verifier::external_body]
pub(crate) fn hkdf(salt: &[u8; 32], ikm: &[u8], info: &[u8]) -> (r: [u8; 32])
    ensures
        r@ == hkdf_sha256(salt@, ikm@, info@),
{
    let mut okm = [0u8; 32];
    let expanded = hkdf::Hkdf::<sha2::Sha256>::new(Some(salt), ikm).expand(info, &mut okm);
    expanded.expect("32 bytes is within the HKDF output limit");
    okm
}

/// `XChaCha20Poly1305::encrypt` with no associated data. A plaintext that the
/// block counter can number is never refused; the ciphertext is sixteen bytes
/// longer and decrypts to the plaintext under the same key and nonce.
#[verifier::external_body]
fn aead_encrypt(key: &[u8; 32], nonce: &[u8; 24], plaintext: &[u8]) -> (r: Vec<u8>)
    requires
        encryptable(plaintext@.len()),
    ensures
        r@ == xchacha_seal(key@, nonce@, plaintext@),
        r@.len() == plaintext@.len() + 16,
        xchacha_open(key@, nonce@, r@) == Some(plaintext@),
{
    let cipher = chacha20poly1305::XChaCha20Poly1305::new(key.into());
    cipher.encrypt(nonce.into(), plaintext).expect("plaintext within the cipher's limit")
}

/// `XChaCha20Poly1305::decrypt` with no associated data, on a ciphertext that
/// the block counter can number. A plaintext that comes back is sixteen bytes
/// shorter than the ciphertext.
#[verifier::external_body]
fn aead_decrypt(key: &[u8; 32], nonce: &[u8; 24], ciphertext: &[u8]) -> (r: Option<Vec<u8>>)
    requires
        decryptable(ciphertext@.len()),
    ensures
        match r {
            Some(p) => xchacha_open(key@, nonce@, ciphertext@) == Some(p@) && p@.len() + 16
                == ciphertext@.len(),
            None => xchacha_open(key@, nonce@, ciphertext@) is None,
        },
{
    let cipher = chacha20poly1305::XChaCha20Poly1305::new(key.into());
    cipher.decrypt(nonce.into(), ciphertext).ok()
}

/// Encrypt a plaintext, unless it is too long for the cipher.
pub fn seal_bytes(key: &[u8; 32], nonce: &[u8; 24], plaintext: &[u8]) -> (r: Option<Vec<u8>>)
    ensures
        r is Some <==> encryptable(plaintext@.len()),
        r matches Some(c) ==> c@ == xchacha_seal(key@, nonce@, plaintext@) && c@.len()
            == plaintext@.len() + 16 && xchacha_opened(key@, nonce@, c@) == Some(plaintext@),
{
    if plaintext.len() as u64 <= MAX_PLAINTEXT {
        Some(aead_encrypt(key, nonce, plaintext))
    } else {
        None
    }
}

/// Decrypt a ciphertext, if it is authentic and not too long for the cipher.
pub fn open_bytes(key: &[u8; 32], nonce: &[u8; 24], ciphertext: &[u8]) -> (r: Option<Vec<u8>>)
    ensures
        match r {
            Some(p) => xchacha_opened(key@, nonce@, ciphertext@) == Some(p@) && p@.len() + 16
                == ciphertext@.len(),
            None => xchacha_opened(key@, nonce@, ciphertext@) is None,
        },
{
    if ciphertext.len() as u64 <= TAG_LEN + MAX_PLAINTEXT {
        aead_decrypt(key, nonce, ciphertext)
    } else {
        None
    }
}

/// `Argon2::hash_password_into` with the node's fixed parameters. Passwords of
/// more than `2^32 - 1` bytes are out of its range.
#[verifier::external_body]
pub(crate) fn argon2id(password: &[u8], salt: &[u8; 32]) -> (r: [u8; 32])
    requires
        password@.len() <= u32::MAX,
    ensures
        r@ == argon2id_key(password@, salt@),
{
    let params = argon2::Params::new(65_536, 3, 4, Some(32)).expect("parameters in range");
    let hasher = argon2::Argon2::new(argon2::Algorithm::Argon2id, argon2::Version::V0x13, params);
    let mut key = [0u8; 32];
    hasher.hash_password_into(password, salt, &mut key).expect("lengths in range");
    key
}

/// `OsRng::fill_bytes`: random bytes from the operating system; nothing is
/// known of them.
#[verifier::external_body]
pub(crate) fn random_array<const N: usize>() -> (r: [u8; N]) {
    let mut out = [0u8; N];
    rand::rngs::OsRng.fill_bytes(&mut out);
    out
}

/// `SystemTime::now` as whole seconds since the Unix epoch.
#[verifier::external_body]
pub(crate) fn unix_seconds() -> (r: u64) {
    let since = std::time::SystemTime::now().duration_since(std::time::UNIX_EPOCH);
    since.unwrap_or_default().as_secs()
}

} // verus!
