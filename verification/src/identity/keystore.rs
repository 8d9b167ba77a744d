//! The passphrase-encrypted key file.

use crate::bytes::{append, array_at, concat, tail, to_array};
use crate::crypto::primitives::{
    open_bytes, seal_bytes, argon2id, argon2id_key, random_array, xchacha_opened, xchacha_seal,
};
use crate::identity::NodeIdentity;
use vstd::prelude::*;
use vstd::string::*;
use vstd::utf8::*;

verus! {

/// Why a key file could not be read.
#[derive(Clone, Copy, Debug, PartialEq, Eq, Structural)]
pub enum KeyStoreError {
    /// Fewer than 56 bytes.
    TooShort,
    /// Wrong passphrase or corrupt data.
    Decryption,
    /// The decrypted payload is not a 32-byte key.
    WrongLength,
}

/// The key file of a signing key: `salt (32) || nonce (24) || ciphertext (48)`.
pub open spec fn keystore_blob(
    signing_key: Seq<u8>,
    passphrase: Seq<char>,
    salt: Seq<u8>,
    nonce: Seq<u8>,
) -> Seq<u8> {
    salt + nonce + xchacha_seal(argon2id_key(encode_utf8(passphrase), salt), nonce, signing_key)
}

/// The signing key that a key file holds under a passphrase.
pub open spec fn keystore_key(blob: Seq<u8>, passphrase: Seq<char>) -> Result<
    Seq<u8>,
    KeyStoreError,
> {
    if blob.len() < 56 {
        Err(KeyStoreError::TooShort)
    } else {
        let key = argon2id_key(encode_utf8(passphrase), blob.subrange(0, 32));
        match xchacha_opened(key, blob.subrange(32, 56), blob.subrange(56, blob.len() as int)) {
            None => Err(KeyStoreError::Decryption),
            Some(p) => if p.len() == 32 {
                Ok(p)
            } else {
                Err(KeyStoreError::WrongLength)
            },
        }
    }
}

/// The passphrase is short enough for the key derivation.
pub open spec fn usable_passphrase(passphrase: Seq<char>) -> bool {
    encode_utf8(passphrase).len() <= u32::MAX
}

/// Reader and writer of the key file.
pub struct KeyStore;

impl KeyStore {
    /// The key file of `identity` under `passphrase`, with the given salt and
    /// nonce.
    pub fn save_with(
        identity: &NodeIdentity,
        passphrase: &str,
        salt: &[u8; 32],
        nonce: &[u8; 24],
    ) -> (r: Vec<u8>)
        requires
            usable_passphrase(passphrase@),
        ensures
            r@.len() == 104,
            r@ == keystore_blob(identity@, passphrase@, salt@, nonce@),
            keystore_key(r@, passphrase@) == Ok::<Seq<u8>, KeyStoreError>(identity@),
    {
        let okm = argon2id(passphrase.as_bytes(), salt);
        let key = identity.signing_key_bytes();
        let sealed = seal_bytes(&okm, nonce, key.as_slice());
        let mut out = concat(salt.as_slice(), nonce.as_slice());
        match sealed {
            Some(c) => {
                append(&mut out, c.as_slice());
                assert(out@.subrange(0, 32) =~= salt@);
                assert(out@.subrange(32, 56) =~= nonce@);
                assert(out@.subrange(56, out@.len() as int) =~= c@);
            },
            None => {
                assert(false);
            },
        }
        out
    }

    /// The key file of `identity`, encrypted with `passphrase` under a random
    /// salt and nonce.
    pub fn save(identity: &NodeIdentity, passphrase: &str) -> (r: Vec<u8>)
        requires
            usable_passphrase(passphrase@),
        ensures
            r@.len() == 104,
            r@ == keystore_blob(
                identity@,
                passphrase@,
                r@.subrange(0, 32),
                r@.subrange(32, 56),
            ),
            keystore_key(r@, passphrase@) == Ok::<Seq<u8>, KeyStoreError>(identity@),
    {
        let salt = random_array::<32>();
        let nonce = random_array::<24>();
        let r = Self::save_with(identity, passphrase, &salt, &nonce);
        assert(r@.subrange(0, 32) =~= salt@);
        assert(r@.subrange(32, 56) =~= nonce@);
        r
    }

    /// Read an identity from the content of a key file. A wrong passphrase or
    /// a corrupt file is an error.
    pub fn load(data: &[u8], passphrase: &str) -> (r: Result<NodeIdentity, KeyStoreError>)
        requires
            usable_passphrase(passphrase@),
        ensures
            match r {
                Ok(id) => id.wf() && keystore_key(data@, passphrase@) == Ok::<
                    Seq<u8>,
                    KeyStoreError,
                >(id@),
                Err(e) => keystore_key(data@, passphrase@) == Err::<Seq<u8>, KeyStoreError>(e),
            },
    {
        if data.len() < 56 {
            return Err(KeyStoreError::TooShort);
        }
        let salt = array_at::<32>(data, 0);
        let nonce = array_at::<24>(data, 32);
        let okm = argon2id(passphrase.as_bytes(), &salt);
        match open_bytes(&okm, &nonce, tail(data, 56)) {
            None => Err(KeyStoreError::Decryption),
            Some(p) => match to_array::<32>(p.as_slice()) {
                Some(key) => Ok(NodeIdentity::from_signing_key_bytes(&key)),
                None => Err(KeyStoreError::WrongLength),
            },
        }
    }
}

} // verus!
