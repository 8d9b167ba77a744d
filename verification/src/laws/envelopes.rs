//! How sealed things are laid out, and that their keys differ.

use crate::crypto::channel_keys::{
    opened_with_fallback, wrapped_key, wrapping_key, CHANNEL_KEY_WRAP_INFO,
};
use crate::crypto::dm::{dm_key, DM_HKDF_INFO};
use crate::crypto::encrypted_io::{opened_blob, sealed_blob, stored_json};
use crate::crypto::primitives::{
    argon2id_key, hkdf_sha256, x25519_public_key, x25519_shared_secret, xchacha_opened,
    xchacha_seal,
};
use crate::identity::export::is_export;
use crate::identity::keystore::{keystore_blob, keystore_key};
use vstd::prelude::*;
use vstd::string::*;
use vstd::utf8::*;

verus! {

/// A blob begins with its nonce; the rest is the ciphertext under the key.
pub proof fn blobs_begin_with_the_nonce(key: Seq<u8>, nonce: Seq<u8>, plain: Seq<u8>)
    requires
        nonce.len() == 24,
    ensures
        ({
            let b = sealed_blob(key, nonce, plain);
            &&& b.subrange(0, 24) == nonce
            &&& b.subrange(24, b.len() as int) == xchacha_seal(key, nonce, plain)
        }),
{
    let b = sealed_blob(key, nonce, plain);
    assert(b.subrange(0, 24) =~= nonce);
    assert(b.subrange(24, b.len() as int) =~= xchacha_seal(key, nonce, plain));
}

/// A wrapped key begins with the ephemeral public key, then the nonce; the rest is
/// sealed under a key that both sides derive from their shared secret.
pub proof fn wrapped_keys_are_laid_out(
    key: Seq<u8>,
    member_pk: Seq<u8>,
    ephem_sk: Seq<u8>,
    nonce: Seq<u8>,
)
    requires
        nonce.len() == 24,
        x25519_public_key(ephem_sk).len() == 32,
    ensures
        ({
            let w = wrapped_key(key, member_pk, ephem_sk, nonce);
            let pk = x25519_public_key(ephem_sk);
            let kek = hkdf_sha256(
                pk,
                x25519_shared_secret(ephem_sk, member_pk),
                encode_utf8("bitcord-channel-key-wrap/v1"@),
            );
            &&& w.subrange(0, 32) == pk
            &&& w.subrange(32, 56) == nonce
            &&& w.subrange(56, w.len() as int) == xchacha_seal(kek, nonce, key)
        }),
{
    let w = wrapped_key(key, member_pk, ephem_sk, nonce);
    let pk = x25519_public_key(ephem_sk);
    let kek = wrapping_key(x25519_shared_secret(ephem_sk, member_pk), pk);
    assert(w.subrange(0, 32) =~= pk);
    assert(w.subrange(32, 56) =~= nonce);
    assert(w.subrange(56, w.len() as int) =~= xchacha_seal(kek, nonce, key));
}

/// The keys of direct messages and of wrapped channel keys are derived apart: their
/// labels differ, and a message key depends on both shared secrets.
pub proof fn derivations_are_apart(a: Seq<u8>, b: Seq<u8>, pk: Seq<u8>)
    ensures
        CHANNEL_KEY_WRAP_INFO@ != DM_HKDF_INFO@,
        dm_key(a, b, pk) == hkdf_sha256(pk, a + b, encode_utf8("bitcord-dm/v1"@)),
{
    reveal_strlit("bitcord-channel-key-wrap/v1");
    reveal_strlit("bitcord-dm/v1");
    assert("bitcord-channel-key-wrap/v1"@.len() == 27);
    assert("bitcord-dm/v1"@.len() == 13);
}

/// A key file begins with its salt, then the nonce; the rest is the signing key
/// sealed under the key that passphrase and salt give.
pub proof fn key_files_are_laid_out(
    key: Seq<u8>,
    passphrase: Seq<char>,
    salt: Seq<u8>,
    nonce: Seq<u8>,
)
    requires
        salt.len() == 32,
        nonce.len() == 24,
    ensures
        ({
            let b = keystore_blob(key, passphrase, salt, nonce);
            &&& b.subrange(0, 32) == salt
            &&& b.subrange(32, 56) == nonce
            &&& b.subrange(56, b.len() as int) == xchacha_seal(
                argon2id_key(encode_utf8(passphrase), salt),
                nonce,
                key,
            )
        }),
{
    let b = keystore_blob(key, passphrase, salt, nonce);
    assert(b.subrange(0, 32) =~= salt);
    assert(b.subrange(32, 56) =~= nonce);
    assert(b.subrange(56, b.len() as int) =~= xchacha_seal(
        argon2id_key(encode_utf8(passphrase), salt),
        nonce,
        key,
    ));
}

/// Whether a key file opens is decided by its own salt and nonce, and only 32 bytes
/// are a signing key.
pub proof fn key_files_are_read_as_laid_out(b: Seq<u8>, passphrase: Seq<char>)
    ensures
        b.len() < 56 ==> keystore_key(b, passphrase) is Err,
        b.len() >= 56 ==> (keystore_key(b, passphrase) matches Ok(k) ==> k.len() == 32
            && xchacha_opened(
            argon2id_key(encode_utf8(passphrase), b.subrange(0, 32)),
            b.subrange(32, 56),
            b.subrange(56, b.len() as int),
        ) == Some(k)),
{
}

/// An export begins with its four letters, its version and the length of the name;
/// the name follows, then the key file.
pub proof fn exports_are_laid_out(
    file: Seq<u8>,
    key: Seq<u8>,
    name: Seq<char>,
    passphrase: Seq<char>,
    salt: Seq<u8>,
    nonce: Seq<u8>,
)
    requires
        is_export(file, key, name, passphrase, salt, nonce),
    ensures
        file.subrange(0, 4) == encode_utf8("BCID"@),
        file[4] == 1,
        file[5] <= 64,
        file.subrange(6, 6 + file[5]) == encode_utf8(name).subrange(0, file[5] as int),
        file.subrange(6 + file[5], file.len() as int) == keystore_blob(
            key,
            passphrase,
            salt,
            nonce,
        ),
{
    reveal_strlit("BCID");
    is_ascii_chars_encode_utf8("BCID"@);
    let end = choose|end: int|
        crate::identity::export::is_cut(encode_utf8(name), 64, end) && file
            == crate::identity::export::export_file(
            #[trigger] encode_utf8(name).subrange(0, end),
            keystore_blob(key, passphrase, salt, nonce),
        );
    let blob = keystore_blob(key, passphrase, salt, nonce);
    assert(file.subrange(0, 4) =~= encode_utf8("BCID"@));
    assert(file[5] == end);
    assert(file.subrange(6, 6 + end) =~= encode_utf8(name).subrange(0, end));
    assert(file.subrange(6 + end, file.len() as int) =~= blob);
}

/// A message is read with the current key if that opens it, else with the one
/// before, else not at all.
pub proof fn the_current_key_comes_first(
    key: Option<Seq<u8>>,
    before: Option<Seq<u8>>,
    nonce: Seq<u8>,
    x: Seq<u8>,
)
    ensures
        key is Some && xchacha_opened(key->0, nonce, x) is Some ==> opened_with_fallback(
            key,
            before,
            nonce,
            x,
        ) == xchacha_opened(key->0, nonce, x),
        (key is None || xchacha_opened(key->0, nonce, x) is None) && before is Some
            ==> opened_with_fallback(key, before, nonce, x) == xchacha_opened(before->0, nonce, x),
        (key is None || xchacha_opened(key->0, nonce, x) is None) && before is None
            ==> opened_with_fallback(key, before, nonce, x) is None,
{
}

/// A table that the key does not open is read as it is, for files from before the
/// encryption; one that it opens is read as its plain text.
pub proof fn plain_tables_are_still_read(file: Seq<u8>, key: Seq<u8>)
    ensures
        opened_blob(key, file) is Err ==> stored_json(file, Some(key)) == file,
        opened_blob(key, file) is Ok ==> stored_json(file, Some(key)) == opened_blob(key, file)->Ok_0,
        stored_json(file, None) == file,
{
}

} // verus!
