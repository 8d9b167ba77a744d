//! Certificates, channel keys, direct messages, table encryption and key exchange.

use bitcord_core::crypto::certificate::{CertError, HostingCert};
use bitcord_core::crypto::channel_keys::{decrypt_with_fallback, ChannelKey};
use bitcord_core::crypto::dm::DmEnvelope;
use bitcord_core::crypto::encrypted_io::{
    decrypt_bytes, derive_table_key, encrypt_bytes, encrypt_bytes_with, fresh_salt, salt_from_file,
    table_file, table_json,
};
use bitcord_core::crypto::key_exchange::DhKeyPair;
use bitcord_core::crypto::CryptoError;
use bitcord_core::identity::NodeIdentity;
use bitcord_core::text::bytes_to_hex;
use bitcord_core::time::Timestamp;
use rand::rngs::OsRng;
use x25519_dalek::{PublicKey, StaticSecret};

fn fresh_pair() -> ([u8; 32], [u8; 32]) {
    let id = NodeIdentity::generate();
    (id.signing_key_bytes(), *id.verifying_key())
}

fn far_future() -> u64 {
    Timestamp::now().secs as u64 + 86_400 * 365
}

fn x25519_pair() -> ([u8; 32], [u8; 32]) {
    let sk = StaticSecret::random_from_rng(OsRng);
    (sk.to_bytes(), PublicKey::from(&sk).to_bytes())
}

#[test]
fn issue_and_verify_roundtrip() {
    let (community_sk, community_pk) = fresh_pair();
    let (_, node_pk) = fresh_pair();
    let cert = HostingCert::new(&community_sk, node_pk, far_future());
    assert!(cert.verify(&community_pk).is_ok());
}

#[test]
fn wrong_community_key_rejected() {
    let (community_sk, _) = fresh_pair();
    let (_, wrong_pk) = fresh_pair();
    let (_, node_pk) = fresh_pair();
    let cert = HostingCert::new(&community_sk, node_pk, far_future());
    assert!(cert.verify(&wrong_pk).is_err());
    assert_eq!(cert.verify(&wrong_pk), Err(CertError::KeyMismatch));
}

#[test]
fn expired_cert_rejected() {
    let (community_sk, community_pk) = fresh_pair();
    let (_, node_pk) = fresh_pair();
    let cert = HostingCert::new(&community_sk, node_pk, 1);
    assert!(cert.verify(&community_pk).is_err());
    assert_eq!(cert.verify(&community_pk), Err(CertError::Expired));
}

#[test]
fn tampered_node_pk_rejected() {
    let (community_sk, community_pk) = fresh_pair();
    let (_, node_pk) = fresh_pair();
    let mut cert = HostingCert::new(&community_sk, node_pk, far_future());
    cert.node_pk[0] ^= 0xFF;
    assert!(cert.verify(&community_pk).is_err());
    assert_eq!(cert.verify(&community_pk), Err(CertError::SignatureInvalid));
}

#[test]
fn tampered_expiry_rejected() {
    let (community_sk, community_pk) = fresh_pair();
    let (_, node_pk) = fresh_pair();
    let mut cert = HostingCert::new(&community_sk, node_pk, far_future());
    cert.expires_at += 1;
    assert!(cert.verify(&community_pk).is_err());
}

#[test]
fn tampered_signature_rejected() {
    let (community_sk, community_pk) = fresh_pair();
    let (_, node_pk) = fresh_pair();
    let mut cert = HostingCert::new(&community_sk, node_pk, far_future());
    cert.signature[0] ^= 0xFF;
    assert!(cert.verify(&community_pk).is_err());
}

#[test]
fn certificates_run_out_when_they_say() {
    let (sk, pk) = fresh_pair();
    let cert = HostingCert::new(&sk, [5; 32], 1_000);
    assert_eq!(cert.verify_at(&pk, 999), Ok(()));
    assert_eq!(cert.verify_at(&pk, 1_000), Ok(()));
    assert_eq!(cert.verify_at(&pk, 1_001), Err(CertError::Expired));
}

#[test]
fn signed_part_of_a_certificate_is_laid_out_in_order() {
    let bytes = HostingCert::signable(&[1; 32], &[2; 32], 0x0102);
    assert_eq!(bytes.len(), 72);
    assert_eq!(bytes[0..32].to_vec(), vec![1u8; 32]);
    assert_eq!(bytes[32..64].to_vec(), vec![2u8; 32]);
    assert_eq!(bytes[64..72].to_vec(), vec![2, 1, 0, 0, 0, 0, 0, 0]);
}

#[test]
fn encrypt_decrypt_roundtrip() {
    let key = ChannelKey::generate();
    let plaintext = b"secret channel message";
    let encrypted = key.encrypt(plaintext).unwrap();
    let decrypted = key.decrypt(&encrypted).unwrap();
    assert_eq!(decrypted, plaintext);
}

#[test]
fn encrypt_message_decrypt_message_roundtrip() {
    let key = ChannelKey::generate();
    let plaintext = b"split nonce/ciphertext test";
    let (nonce, ciphertext) = key.encrypt_message(plaintext).unwrap();
    let decrypted = key.decrypt_message(&nonce, &ciphertext).unwrap();
    assert_eq!(decrypted, plaintext);
}

#[test]
fn different_nonces_produce_different_ciphertexts() {
    let key = ChannelKey::generate();
    let plaintext = b"same message";
    let c1 = key.encrypt(plaintext).unwrap();
    let c2 = key.encrypt(plaintext).unwrap();
    assert_ne!(c1, c2);
}

#[test]
fn wrong_key_fails_decryption() {
    let key1 = ChannelKey::generate();
    let key2 = ChannelKey::generate();
    let encrypted = key1.encrypt(b"payload").unwrap();
    assert!(key2.decrypt(&encrypted).is_err());
    assert_eq!(key2.decrypt(&encrypted), Err(CryptoError::Unauthentic));
}

#[test]
fn tampered_ciphertext_fails_authentication() {
    let key = ChannelKey::generate();
    let mut encrypted = key.encrypt(b"authentic message").unwrap();
    encrypted[30] ^= 0xFF;
    assert!(key.decrypt(&encrypted).is_err());
}

#[test]
fn truncated_data_is_rejected() {
    let key = ChannelKey::generate();
    assert!(key.decrypt(&[0u8; 10]).is_err());
    assert_eq!(key.decrypt(&[0u8; 10]), Err(CryptoError::TooShort));
}

#[test]
fn encrypt_for_member_decrypt_for_self_roundtrip() {
    let channel_key = ChannelKey::generate();
    let (member_sk, member_pk) = x25519_pair();
    let wrapped = channel_key.encrypt_for_member(&member_pk).unwrap();
    let recovered = ChannelKey::decrypt_for_self(&member_sk, &wrapped).unwrap_or(ChannelKey::from_bytes([0; 32]));
    assert_eq!(channel_key.as_bytes(), recovered.as_bytes());
}

#[test]
fn wrong_member_key_fails_unwrap() {
    let channel_key = ChannelKey::generate();
    let (_, member_pk) = x25519_pair();
    let (wrong_sk, _) = x25519_pair();
    let wrapped = channel_key.encrypt_for_member(&member_pk).unwrap();
    assert!(ChannelKey::decrypt_for_self(&wrong_sk, &wrapped).is_err());
}

#[test]
fn different_wrappings_for_same_key() {
    let channel_key = ChannelKey::generate();
    let (member_sk, member_pk) = x25519_pair();
    let w1 = channel_key.encrypt_for_member(&member_pk).unwrap();
    let w2 = channel_key.encrypt_for_member(&member_pk).unwrap();
    assert_ne!(w1, w2);
    let r1 = ChannelKey::decrypt_for_self(&member_sk, &w1).unwrap_or(ChannelKey::from_bytes([0; 32]));
    let r2 = ChannelKey::decrypt_for_self(&member_sk, &w2).unwrap_or(ChannelKey::from_bytes([1; 32]));
    assert_eq!(r1.as_bytes(), r2.as_bytes());
}

#[test]
fn truncated_wrapped_key_rejected() {
    let (member_sk, _) = x25519_pair();
    assert!(ChannelKey::decrypt_for_self(&member_sk, &[0u8; 20]).is_err());
}

#[test]
fn a_wrapped_key_names_its_ephemeral_key_and_nonce() {
    let (member_sk, member_pk) = x25519_pair();
    let (ephem_sk, ephem_pk) = x25519_pair();
    let key = ChannelKey::from_bytes([9; 32]);
    let wrapped = key.encrypt_for_member_with(&member_pk, &ephem_sk, &[4; 24]);
    assert_eq!(wrapped.len(), 32 + 24 + 32 + 16);
    assert_eq!(wrapped[0..32].to_vec(), ephem_pk.to_vec());
    assert_eq!(wrapped[32..56].to_vec(), vec![4u8; 24]);
    assert_ne!(wrapped[56..88].to_vec(), vec![9u8; 32]);
    let opened = ChannelKey::decrypt_for_self(&member_sk, &wrapped);
    assert!(matches!(opened, Ok(k) if k.as_bytes() == &[9; 32]));
}

#[test]
fn a_blob_is_a_nonce_and_a_ciphertext() {
    let key = ChannelKey::from_bytes([9; 32]);
    let blob = key.encrypt(b"hello").unwrap();
    assert_eq!(blob.len(), 24 + 5 + 16);
    let mut nonce = [0u8; 24];
    nonce.copy_from_slice(&blob[..24]);
    assert_eq!(key.decrypt_message(&nonce, &blob[24..]).unwrap(), b"hello".to_vec());
    assert_eq!(key.decrypt(&blob).unwrap(), b"hello".to_vec());
    assert!(matches!(key.decrypt(&blob[..23]), Err(CryptoError::TooShort)));
    assert!(matches!(key.decrypt(&blob[..39]), Err(CryptoError::Unauthentic)));
}

#[test]
fn a_wrap_of_another_length_is_refused() {
    let (sk, pk) = x25519_pair();
    let mut wrapped = ChannelKey::from_bytes([9; 32]).encrypt_for_member(&pk).unwrap();
    wrapped.push(0);
    assert!(matches!(ChannelKey::decrypt_for_self(&sk, &wrapped), Err(CryptoError::Unauthentic)));
    assert!(matches!(ChannelKey::decrypt_for_self(&sk, &wrapped[..103]), Err(CryptoError::Unauthentic)));
    assert!(ChannelKey::decrypt_for_self(&sk, &wrapped[..104]).is_ok());
}

#[test]
fn the_previous_key_reads_what_the_current_key_cannot() {
    let old = ChannelKey::from_bytes([1; 32]);
    let (nonce, ct) = old.encrypt_message(b"before the rotation").unwrap();
    let read = decrypt_with_fallback(Some([2; 32]), Some([1; 32]), &nonce, &ct);
    assert_eq!(read, Some(b"before the rotation".to_vec()));
    assert_eq!(decrypt_with_fallback(Some([2; 32]), None, &nonce, &ct), None);
    assert_eq!(decrypt_with_fallback(Some([2; 32]), Some([3; 32]), &nonce, &ct), None);
}

#[test]
fn seal_open_roundtrip() {
    let (sender_sk, _) = x25519_pair();
    let (recipient_sk, recipient_pk) = x25519_pair();
    let plaintext = b"hello, encrypted world!";
    let envelope = DmEnvelope::seal(&sender_sk, &recipient_pk, plaintext).unwrap();
    let decrypted = envelope.open(&recipient_sk).unwrap();
    assert_eq!(decrypted, plaintext);
}

#[test]
fn wrong_recipient_key_fails() {
    let (sender_sk, _) = x25519_pair();
    let (_, recipient_pk) = x25519_pair();
    let (wrong_sk, _) = x25519_pair();
    let envelope = DmEnvelope::seal(&sender_sk, &recipient_pk, b"secret").unwrap();
    assert!(envelope.open(&wrong_sk).is_err());
}

#[test]
fn tampered_ciphertext_fails() {
    let (sender_sk, _) = x25519_pair();
    let (recipient_sk, recipient_pk) = x25519_pair();
    let mut envelope = DmEnvelope::seal(&sender_sk, &recipient_pk, b"authentic").unwrap();
    envelope.ciphertext[0] ^= 0xFF;
    assert!(envelope.open(&recipient_sk).is_err());
}

#[test]
fn same_plaintext_different_nonces() {
    let (sender_sk, _) = x25519_pair();
    let (_, recipient_pk) = x25519_pair();
    let plaintext = b"same message";
    let e1 = DmEnvelope::seal(&sender_sk, &recipient_pk, plaintext).unwrap();
    let e2 = DmEnvelope::seal(&sender_sk, &recipient_pk, plaintext).unwrap();
    assert_ne!(e1.ciphertext, e2.ciphertext);
    assert_ne!(e1.nonce, e2.nonce);
}

#[test]
fn wrong_sender_key_attribution_fails() {
    let (real_sender_sk, _) = x25519_pair();
    let (_, attacker_pk) = x25519_pair();
    let (recipient_sk, recipient_pk) = x25519_pair();
    let mut envelope = DmEnvelope::seal(&real_sender_sk, &recipient_pk, b"real").unwrap();
    envelope.sender_pk = attacker_pk;
    assert!(envelope.open(&recipient_sk).is_err());
}

#[test]
fn an_envelope_names_its_sender() {
    let (sender_sk, sender_pk) = x25519_pair();
    let (_, recipient_pk) = x25519_pair();
    let (ephem_sk, ephem_pk) = x25519_pair();
    let e = DmEnvelope::seal_with(&sender_sk, &recipient_pk, b"hi", &ephem_sk, [7; 24]).unwrap();
    assert_eq!(e.sender_pk, sender_pk);
    assert_eq!(e.ephem_pk, ephem_pk);
    assert_eq!(e.nonce, [7; 24]);
    assert_eq!(e.ciphertext.len(), 2 + 16);
}

#[test]
fn envelopes_survive_their_byte_form() {
    let e = DmEnvelope {
        sender_pk: [1; 32],
        ephem_pk: [2; 32],
        nonce: [3; 24],
        ciphertext: vec![4, 5, 6],
    };
    let bytes = e.to_bytes();
    assert_eq!(bytes.len(), 32 + 32 + 24 + 1 + 3);
    assert_eq!(bytes[88..].to_vec(), vec![3, 4, 5, 6]);
    let back = DmEnvelope::from_bytes(&bytes).unwrap();
    assert_eq!(back.sender_pk, e.sender_pk);
    assert_eq!(back.ephem_pk, e.ephem_pk);
    assert_eq!(back.nonce, e.nonce);
    assert_eq!(back.ciphertext, e.ciphertext);
    assert!(DmEnvelope::from_bytes(&bytes[..20]).is_none());
}

#[test]
fn encrypted_io_round_trip() {
    let key = [42u8; 32];
    let plaintext = b"hello, encrypted world!";
    let blob = encrypt_bytes(plaintext, &key).unwrap();
    let decrypted = decrypt_bytes(&blob, &key).unwrap();
    assert_eq!(decrypted, plaintext);
}

#[test]
fn wrong_key_fails() {
    let key = [1u8; 32];
    let wrong = [2u8; 32];
    let blob = encrypt_bytes(b"secret", &key).unwrap();
    assert!(decrypt_bytes(&blob, &wrong).is_err());
}

#[test]
fn truncated_blob_fails() {
    let key = [1u8; 32];
    assert!(decrypt_bytes(&[0u8; 10], &key).is_err());
    assert_eq!(decrypt_bytes(&[0u8; 10], &key), Err(CryptoError::TooShort));
}

#[test]
fn empty_plaintext_round_trip() {
    let key = [99u8; 32];
    let blob = encrypt_bytes(b"", &key).unwrap();
    let decrypted = decrypt_bytes(&blob, &key).unwrap();
    assert!(decrypted.is_empty());
}

#[test]
fn derive_table_key_deterministic() {
    let salt = [7u8; 32];
    let k1 = derive_table_key("my-passphrase", &salt);
    let k2 = derive_table_key("my-passphrase", &salt);
    assert_eq!(k1, k2);
}

#[test]
fn derive_table_key_different_passphrase() {
    let salt = [7u8; 32];
    let k1 = derive_table_key("pass-a", &salt);
    let k2 = derive_table_key("pass-b", &salt);
    assert_ne!(k1, k2);
}

#[test]
fn load_or_create_salt_creates_and_reloads() {
    let s1 = fresh_salt();
    let s2 = salt_from_file(&s1).unwrap();
    assert_eq!(s1, s2);
    assert_eq!(s1.len(), 32);
}

#[test]
fn a_salt_file_of_another_length_is_refused() {
    assert_eq!(salt_from_file(&[0u8; 31]), Err(CryptoError::WrongLength));
    assert_eq!(salt_from_file(&[0u8; 33]), Err(CryptoError::WrongLength));
}

#[test]
fn a_blob_begins_with_its_nonce() {
    let blob = encrypt_bytes_with(b"abc", &[1; 32], &[8; 24]).unwrap();
    assert_eq!(blob.len(), 24 + 3 + 16);
    assert_eq!(blob[..24].to_vec(), vec![8u8; 24]);
    assert_ne!(blob[24..27].to_vec(), b"abc".to_vec());
    assert_eq!(decrypt_bytes(&blob, &[1; 32]), Ok(b"abc".to_vec()));
}

#[test]
fn tables_are_read_back_as_they_were_written() {
    let json = b"{\"a\":1}";
    let plain = table_file(json, None).unwrap();
    assert_eq!(plain, json.to_vec());
    assert_eq!(table_json(&plain, None), json.to_vec());
    let key = [3u8; 32];
    let sealed = table_file(json, Some(&key)).unwrap();
    assert_ne!(sealed, json.to_vec());
    assert_eq!(table_json(&sealed, Some(&key)), json.to_vec());
}

#[test]
fn a_plain_table_is_still_read_once_a_key_is_set() {
    let json = b"{\"name\":\"written before a passphrase was set\"}";
    assert_eq!(table_json(json, Some(&[3; 32])), json.to_vec());
}

#[test]
fn dh_shared_secret_matches() {
    let alice = DhKeyPair::generate();
    let bob = DhKeyPair::generate();
    let alice_shared = alice.shared_secret(bob.public_key());
    let bob_shared = bob.shared_secret(alice.public_key());
    assert_eq!(alice_shared.as_bytes(), bob_shared.as_bytes());
}

#[test]
fn different_pairs_produce_different_secrets() {
    let alice = DhKeyPair::generate();
    let bob = DhKeyPair::generate();
    let carol = DhKeyPair::generate();
    let ab = alice.shared_secret(bob.public_key());
    let ac = alice.shared_secret(carol.public_key());
    assert_ne!(ab.as_bytes(), ac.as_bytes());
}

#[test]
fn public_key_roundtrip() {
    let pair = DhKeyPair::generate();
    let bytes = pair.public_key_bytes();
    let reconstructed = PublicKey::from(bytes);
    assert_eq!(pair.public_key(), reconstructed.as_bytes());
}

#[test]
fn the_exchange_is_that_of_curve25519() {
    let secret: [u8; 32] = [
        0x77, 0x07, 0x6d, 0x0a, 0x73, 0x18, 0xa5, 0x7d, 0x3c, 0x16, 0xc1, 0x72, 0x51, 0xb2, 0x66,
        0x45, 0xdf, 0x4c, 0x2f, 0x87, 0xeb, 0xc0, 0x99, 0x2a, 0xb1, 0x77, 0xfb, 0xa5, 0x1d, 0xb9,
        0x2c, 0x2a,
    ];
    let pair = DhKeyPair::from_secret(secret);
    assert_eq!(
        bytes_to_hex(pair.public_key()),
        "8520f0098930a754748b7ddcb43ef75a0dbf3a0d26381af4eba4a98eaa9b4e6a"
    );
}
