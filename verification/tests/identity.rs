//! Node identities, their key files and their exported form.

use bitcord_core::identity::export::{truncate_to_byte_len, ExportError, IdentityExport};
use bitcord_core::identity::keystore::{KeyStore, KeyStoreError};
use bitcord_core::identity::{verify, NodeIdentity};
use bitcord_core::crypto::encrypted_io::{derive_table_key, encrypt_bytes_with};
use bitcord_core::text::bytes_to_hex;
use sha2::{Digest, Sha256};

#[test]
fn generate_is_unique() {
    let a = NodeIdentity::generate();
    let b = NodeIdentity::generate();
    assert_ne!(a.verifying_key(), b.verifying_key());
}

#[test]
fn sign_verify_roundtrip() {
    let identity = NodeIdentity::generate();
    let msg = b"hello bitcord";
    let sig = identity.sign(msg);
    assert!(verify(identity.verifying_key(), msg, &sig));
}

#[test]
fn verify_rejects_tampered_message() {
    let identity = NodeIdentity::generate();
    let sig = identity.sign(b"original");
    assert!(!verify(identity.verifying_key(), b"tampered", &sig));
}

#[test]
fn peer_id_is_deterministic() {
    let identity = NodeIdentity::generate();
    assert_eq!(identity.to_peer_id(), identity.to_peer_id());
}

#[test]
fn peer_id_differs_across_identities() {
    let a = NodeIdentity::generate();
    let b = NodeIdentity::generate();
    assert_ne!(a.to_peer_id(), b.to_peer_id());
}

#[test]
fn roundtrip_from_signing_key_bytes() {
    let original = NodeIdentity::generate();
    let bytes = original.signing_key_bytes();
    let restored = NodeIdentity::from_signing_key_bytes(&bytes);
    assert_eq!(original.verifying_key(), restored.verifying_key());
    assert_eq!(original.to_peer_id(), restored.to_peer_id());
}

#[test]
fn ids_and_addresses_come_from_the_public_key() {
    let id = NodeIdentity::from_signing_key_bytes(&[3; 32]);
    let digest: [u8; 32] = Sha256::digest(id.verifying_key()).into();
    assert_eq!(id.to_peer_id().as_bytes(), &digest);
    assert_eq!(id.to_peer_id().to_string(), bytes_to_hex(&digest));
    assert_eq!(id.node_address(), bs58::encode(id.verifying_key()).into_string());
    assert_eq!(id.signing_key_bytes(), [3; 32]);
    assert_eq!(id.signing_key(), [3; 32]);
}

#[test]
fn the_exchange_key_is_derived_from_the_signing_key() {
    let id = NodeIdentity::from_signing_key_bytes(&[3; 32]);
    let secret = x25519_dalek::StaticSecret::from(id.x25519_secret());
    assert_eq!(id.x25519_public_key_bytes(), x25519_dalek::PublicKey::from(&secret).to_bytes());
    assert_ne!(id.x25519_secret(), [3; 32]);
}

#[test]
fn a_wiped_identity_holds_no_key() {
    let mut id = NodeIdentity::from_signing_key_bytes(&[3; 32]);
    id.zeroize();
    assert_eq!(id.signing_key_bytes(), [0; 32]);
}

#[test]
fn roundtrip_with_display_name() {
    let original = NodeIdentity::generate();
    let bundle = IdentityExport::create(&original, Some("Alice"), "correct-pass");
    match IdentityExport::load(&bundle, "correct-pass") {
        Ok((recovered, name)) => {
            assert_eq!(original.verifying_key(), recovered.verifying_key());
            assert_eq!(name.as_deref(), Some("Alice"));
        }
        Err(_) => panic!("must load"),
    }
}

#[test]
fn roundtrip_without_display_name() {
    let original = NodeIdentity::generate();
    let bundle = IdentityExport::create(&original, None, "pass");
    match IdentityExport::load(&bundle, "pass") {
        Ok((recovered, name)) => {
            assert_eq!(original.verifying_key(), recovered.verifying_key());
            assert!(name.is_none());
        }
        Err(_) => panic!("must load"),
    }
}

#[test]
fn wrong_passphrase_fails() {
    let identity = NodeIdentity::generate();
    let bundle = IdentityExport::create(&identity, Some("Bob"), "correct");
    assert!(IdentityExport::load(&bundle, "wrong").is_err());
}

#[test]
fn corrupt_data_fails() {
    let identity = NodeIdentity::generate();
    let mut bundle = IdentityExport::create(&identity, None, "pass");
    let last = bundle.len() - 1;
    bundle[last] ^= 0xFF;
    assert!(IdentityExport::load(&bundle, "pass").is_err());
}

#[test]
fn wrong_magic_fails() {
    let bytes = b"NOPE\x01\x00".to_vec();
    assert!(IdentityExport::load(&bytes, "pass").is_err());
}

#[test]
fn long_multibyte_name_is_truncated_on_char_boundary() {
    let original = NodeIdentity::generate();
    let long_name = "😀".repeat(32);
    let bundle = IdentityExport::create(&original, Some(&long_name), "pass");
    match IdentityExport::load(&bundle, "pass") {
        Ok((recovered, name)) => {
            assert_eq!(original.verifying_key(), recovered.verifying_key());
            let name = name.expect("name should be present");
            assert!(name.len() <= 64, "stored name must fit in 64 bytes");
            assert_eq!(name, "😀".repeat(16));
        }
        Err(_) => panic!("must load"),
    }
}

#[test]
fn wrong_version_fails() {
    let identity = NodeIdentity::generate();
    let mut bundle = IdentityExport::create(&identity, None, "pass");
    bundle[4] = 99;
    assert!(IdentityExport::load(&bundle, "pass").is_err());
}

#[test]
fn names_are_cut_between_characters() {
    assert_eq!(truncate_to_byte_len("abc", 5), "abc");
    assert_eq!(truncate_to_byte_len("abc", 2), "ab");
    assert_eq!(truncate_to_byte_len("aé", 2), "a");
    assert_eq!(truncate_to_byte_len("😀", 3), "");
}

#[test]
fn save_and_load_correct_passphrase() {
    let original = NodeIdentity::generate();
    let file = KeyStore::save(&original, "correct-passphrase");
    match KeyStore::load(&file, "correct-passphrase") {
        Ok(loaded) => {
            assert_eq!(original.verifying_key(), loaded.verifying_key());
            assert_eq!(original.to_peer_id(), loaded.to_peer_id());
        }
        Err(_) => panic!("must load"),
    }
}

#[test]
fn load_wrong_passphrase_fails() {
    let identity = NodeIdentity::generate();
    let file = KeyStore::save(&identity, "correct");
    let result = KeyStore::load(&file, "wrong");
    assert!(result.is_err());
    assert!(matches!(result, Err(KeyStoreError::Decryption)));
}

#[test]
fn load_corrupt_file_fails() {
    assert!(KeyStore::load(b"this is not a valid keystore", "any").is_err());
    assert!(matches!(
        KeyStore::load(b"this is not a valid keystore", "any"),
        Err(KeyStoreError::TooShort)
    ));
}

#[test]
fn key_files_hold_salt_then_nonce() {
    let id = NodeIdentity::from_signing_key_bytes(&[5; 32]);
    let file = KeyStore::save_with(&id, "pw", &[1; 32], &[2; 24]);
    assert_eq!(file[..32].to_vec(), vec![1u8; 32]);
    assert_eq!(file[32..56].to_vec(), vec![2u8; 24]);
    assert_eq!(file.len(), 32 + 24 + 32 + 16);
    assert!(matches!(KeyStore::load(&file, "pw"), Ok(k) if k.signing_key_bytes() == [5; 32]));
}

fn loading_error(bytes: &[u8]) -> Option<ExportError> {
    match IdentityExport::load(bytes, "pass") {
        Ok(_) => None,
        Err(e) => Some(e),
    }
}

#[test]
fn each_defect_of_an_export_has_its_error() {
    assert_eq!(loading_error(b"BCID\x01"), Some(ExportError::TooShort));
    assert_eq!(loading_error(b"NOPE\x01\x00"), Some(ExportError::WrongMagic));
    assert_eq!(loading_error(b"BCID\x02\x00"), Some(ExportError::WrongVersion));
    assert_eq!(loading_error(b"BCID\x01\x00abc"), Some(ExportError::Truncated));
    let mut bad_name = b"BCID\x01\x01\xff".to_vec();
    bad_name.extend_from_slice(&[0u8; 104]);
    assert_eq!(loading_error(&bad_name), Some(ExportError::NameNotUtf8));
    let mut bad_key = b"BCID\x01\x01a".to_vec();
    bad_key.extend_from_slice(&[0u8; 104]);
    assert_eq!(loading_error(&bad_key), Some(ExportError::Decryption));
}

#[test]
fn exports_are_laid_out_as_documented() {
    let id = NodeIdentity::from_signing_key_bytes(&[5; 32]);
    let file = IdentityExport::create_with(&id, Some("Ann"), "pw", &[1; 32], &[2; 24]);
    assert_eq!(file[..9].to_vec(), b"BCID\x01\x03Ann".to_vec());
    assert_eq!(file.len(), 6 + 3 + 104);
    assert!(file.windows(32).all(|w| w != [5u8; 32].as_slice()));
    assert_eq!(file[9..].to_vec(), KeyStore::save_with(&id, "pw", &[1; 32], &[2; 24]));
}

#[test]
fn a_key_of_another_length_is_refused() {
    let salt = [1u8; 32];
    let key = derive_table_key("pw", &salt);
    let mut file = salt.to_vec();
    file.extend_from_slice(&encrypt_bytes_with(&[7u8; 33], &key, &[2; 24]).unwrap());
    assert!(matches!(KeyStore::load(&file, "pw"), Err(KeyStoreError::WrongLength)));
}
