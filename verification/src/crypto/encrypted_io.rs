//! Encryption of tables at rest.

use crate::bytes::{array_at, concat, tail, to_array};
use crate::crypto::primitives::{
    open_bytes, seal_bytes, argon2id, argon2id_key, encryptable, random_array, xchacha_opened,
    xchacha_seal,
};
use crate::crypto::CryptoError;
use vstd::prelude::*;
use vstd::string::*;
use vstd::utf8::*;

verus! {

/// What a `nonce || ciphertext` blob decrypts to.
pub open spec fn opened_blob(key: Seq<u8>, blob: Seq<u8>) -> Result<Seq<u8>, CryptoError> {
    if blob.len() < 24 {
        Err(CryptoError::TooShort)
    } else {
        match xchacha_opened(key, blob.subrange(0, 24), blob.subrange(24, blob.len() as int)) {
            Some(p) => Ok(p),
            None => Err(CryptoError::Unauthentic),
        }
    }
}

/// The `nonce || ciphertext` blob of a plaintext.
pub open spec fn sealed_blob(key: Seq<u8>, nonce: Seq<u8>, plaintext: Seq<u8>) -> Seq<u8> {
    nonce + xchacha_seal(key, nonce, plaintext)
}

/// Encrypt `data` under `key` with the given nonce, nonce first.
pub fn encrypt_bytes_with(data: &[u8], key: &[u8; 32], nonce: &[u8; 24]) -> (r: Result<
    Vec<u8>,
    CryptoError,
>)
    ensures
        match r {
            Ok(out) => encryptable(data@.len()) && out@ == sealed_blob(key@, nonce@, data@)
                && out@.len() == data@.len() + 40 && opened_blob(key@, out@) == Ok::<
                Seq<u8>,
                CryptoError,
            >(data@),
            Err(e) => e == CryptoError::TooLong && !encryptable(data@.len()),
        },
{
    match seal_bytes(key, nonce, data) {
        Some(c) => {
            let out = concat(nonce.as_slice(), c.as_slice());
            assert(out@.subrange(0, 24) =~= nonce@);
            assert(out@.subrange(24, out@.len() as int) =~= c@);
            Ok(out)
        },
        None => Err(CryptoError::TooLong),
    }
}

/// Encrypt `data` with XChaCha20-Poly1305 under a fresh random nonce.
///
/// Returns `nonce(24) || ciphertext(len + 16)`.
pub fn encrypt_bytes(data: &[u8], key: &[u8; 32]) -> (r: Result<Vec<u8>, CryptoError>)
    ensures
        match r {
            Ok(out) => encryptable(data@.len()) && out@.len() == data@.len() + 40 && out@
                == sealed_blob(key@, out@.subrange(0, 24), data@) && opened_blob(key@, out@)
                == Ok::<Seq<u8>, CryptoError>(data@),
            Err(e) => e == CryptoError::TooLong && !encryptable(data@.len()),
        },
{
    let nonce = random_array::<24>();
    let r = encrypt_bytes_with(data, key, &nonce);
    assert(r matches Ok(out) ==> out@.subrange(0, 24) =~= nonce@);
    r
}

/// Decrypt a blob produced by [`encrypt_bytes`].
///
/// Expects `nonce(24) || ciphertext(...)`.
pub fn decrypt_bytes(blob: &[u8], key: &[u8; 32]) -> (r: Result<Vec<u8>, CryptoError>)
    ensures
        match r {
            Ok(p) => opened_blob(key@, blob@) == Ok::<Seq<u8>, CryptoError>(p@) && p@.len() + 40
                == blob@.len(),
            Err(e) => opened_blob(key@, blob@) == Err::<Seq<u8>, CryptoError>(e),
        },
{
    if blob.len() < 24 {
        return Err(CryptoError::TooShort);
    }
    let nonce = array_at::<24>(blob, 0);
    match open_bytes(key, &nonce, tail(blob, 24)) {
        Some(p) => Ok(p),
        None => Err(CryptoError::Unauthentic),
    }
}

/// Derive a 32-byte table-encryption key from `passphrase` and `salt` via
/// Argon2id (same parameters as the identity keystore).
pub fn derive_table_key(passphrase: &str, salt: &[u8; 32]) -> (r: [u8; 32])
    requires
        encode_utf8(passphrase@).len() <= u32::MAX,
    ensures
        r@ == argon2id_key(encode_utf8(passphrase@), salt@),
{
    argon2id(passphrase.as_bytes(), salt)
}

/// The salt that a stored salt file holds: its content, when that is 32 bytes.
pub fn salt_from_file(data: &[u8]) -> (r: Result<[u8; 32], CryptoError>)
    ensures
        match r {
            Ok(salt) => salt@ == data@,
            Err(e) => data@.len() != 32 && e == CryptoError::WrongLength,
        },
{
    match to_array::<32>(data) {
        Some(salt) => Ok(salt),
        None => Err(CryptoError::WrongLength),
    }
}

/// A random salt for a node that has no salt file yet.
pub fn fresh_salt() -> (r: [u8; 32]) {
    random_array::<32>()
}

/// The bytes to write for a table: the JSON itself, or its encryption when the
/// node has a table key.
pub fn table_file(json: &[u8], encryption_key: Option<&[u8; 32]>) -> (r: Result<
    Vec<u8>,
    CryptoError,
>)
    ensures
        match encryption_key {
            None => r matches Ok(out) && out@ == json@,
            Some(key) => match r {
                Ok(out) => out@ == sealed_blob(key@, out@.subrange(0, 24), json@) && opened_blob(
                    key@,
                    out@,
                ) == Ok::<Seq<u8>, CryptoError>(json@) && encryptable(json@.len()),
                Err(e) => e == CryptoError::TooLong && !encryptable(json@.len()),
            },
        },
{
    match encryption_key {
        Some(key) => encrypt_bytes(json, key),
        None => Ok(crate::bytes::to_vec(json)),
    }
}

/// The JSON of a stored table. With a table key, a file that does not decrypt
/// is taken as it is: it dates from before encryption was switched on.
pub fn table_json(file: &[u8], encryption_key: Option<&[u8; 32]>) -> (r: Vec<u8>)
    ensures
        r@ == stored_json(
            file@,
            match encryption_key {
                Some(key) => Some(key@),
                None => None,
            },
        ),
{
    match encryption_key {
        Some(key) => match decrypt_bytes(file, key) {
            Ok(json) => json,
            Err(_) => crate::bytes::to_vec(file),
        },
        None => crate::bytes::to_vec(file),
    }
}

/// The JSON that a stored table file stands for.
pub open spec fn stored_json(file: Seq<u8>, key: Option<Seq<u8>>) -> Seq<u8> {
    match key {
        Some(k) => match opened_blob(k, file) {
            Ok(json) => json,
            Err(_) => file,
        },
        None => file,
    }
}

/// A table file that was written under a key (or without one) reads back as
/// the JSON that went in.
pub proof fn table_round_trip(json: Seq<u8>, file: Seq<u8>, key: Option<Seq<u8>>)
    requires
        match key {
            Some(k) => opened_blob(k, file) == Ok::<Seq<u8>, CryptoError>(json),
            None => file == json,
        },
    ensures
        stored_json(file, key) == json,
{
}

} // verus!
