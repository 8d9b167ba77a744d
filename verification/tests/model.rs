//! Ids, messages, manifests, memberships and channels.

use bitcord_core::identity::NodeIdentity;
use bitcord_core::model::channel::{ChannelKind, ChannelManifest, MemberKey};
use bitcord_core::model::community::CommunityManifest;
use bitcord_core::model::membership::{index_of_role, MembershipRecord, Role};
use bitcord_core::model::message::{AttachmentRef, MessageContent, RawMessage};
use bitcord_core::model::network_event::{
    delete_bytes, edit_bytes, leave_bytes, presence_bytes, role_bytes, sign_bytes, verify_bytes,
};
use bitcord_core::model::types::{ChannelId, CommunityId, MessageId, UserId};
use bitcord_core::time::Timestamp;
use sha2::{Digest, Sha256};

fn key_pair() -> ([u8; 32], [u8; 32]) {
    let id = NodeIdentity::generate();
    (id.signing_key_bytes(), *id.verifying_key())
}

fn make_manifest(vk: [u8; 32]) -> CommunityManifest {
    CommunityManifest {
        id: CommunityId::new(),
        name: "Test Community".to_string(),
        description: "A community for testing".to_string(),
        public_key: vk,
        created_at: Timestamp::now(),
        admin_ids: vec![UserId::from_verifying_key(&vk)],
        channel_ids: vec![],
        seed_nodes: vec!["127.0.0.1:7332".to_string()],
        version: 1,
        deleted: false,
    }
}

#[test]
fn sign_and_verify() {
    let (sk, vk) = key_pair();
    let signed = make_manifest(vk).sign(&sk);
    assert!(signed.verify());
}

#[test]
fn tampered_manifest_fails_verification() {
    let (sk, vk) = key_pair();
    let mut signed = make_manifest(vk).sign(&sk);
    signed.manifest.name = "Evil Community".to_string();
    assert!(!signed.verify());
}

#[test]
fn tampered_signature_fails_verification() {
    let (sk, vk) = key_pair();
    let mut signed = make_manifest(vk).sign(&sk);
    signed.signature[0] ^= 0xFF;
    assert!(!signed.verify());
}

#[test]
fn a_signature_of_another_length_fails_verification() {
    let (sk, vk) = key_pair();
    let mut signed = make_manifest(vk).sign(&sk);
    signed.signature.pop();
    assert!(!signed.verify());
    signed.signature.clear();
    assert!(!signed.verify());
}

#[test]
fn manifests_are_signed_over_their_postcard_form() {
    let mut m = make_manifest([7; 32]);
    m.id = CommunityId(0);
    m.created_at = Timestamp { secs: 1_700_000_000, nanos: 0 };
    let created = chrono::DateTime::from_timestamp(1_700_000_000, 0).unwrap();
    let wanted = postcard::to_allocvec(&(
        ulid::Ulid(0),
        "Test Community",
        "A community for testing",
        [7u8; 32],
        created,
        (vec![UserId::from_verifying_key(&[7; 32]).to_string()], Vec::<ulid::Ulid>::new()),
        vec!["127.0.0.1:7332"],
        1u64,
        false,
    ))
    .unwrap();
    assert_eq!(m.canonical_bytes(), wanted);
}

#[test]
fn every_admin_is_listed_by_name() {
    let m = make_manifest([7; 32]);
    assert!(m.lists_admin(&UserId::from_verifying_key(&[7; 32]).to_string()));
    assert!(!m.lists_admin(&UserId::from_verifying_key(&[8; 32]).to_string()));
}

#[test]
fn create_and_verify() {
    let (sk, vk) = key_pair();
    let msg = RawMessage::create(
        ChannelId::new(),
        &sk,
        Timestamp::now(),
        b"encrypted-payload".to_vec(),
        [0u8; 24],
    );
    assert!(msg.verify(&vk));
    assert!(msg.author_id.same(&UserId::from_verifying_key(&vk)));
}

#[test]
fn tampered_ciphertext_fails_verification() {
    let (sk, vk) = key_pair();
    let mut msg = RawMessage::create(
        ChannelId::new(),
        &sk,
        Timestamp::now(),
        b"original".to_vec(),
        [0u8; 24],
    );
    msg.ciphertext = b"tampered".to_vec();
    assert!(!msg.verify(&vk));
}

#[test]
fn messages_are_signed_over_ids_time_and_ciphertext() {
    let at = Timestamp { secs: 2, nanos: 3_000_000 };
    let bytes = RawMessage::signable_bytes(&MessageId(1), &ChannelId(2), &at, &[9, 9]);
    let mut wanted = 1u128.to_be_bytes().to_vec();
    wanted.extend_from_slice(&2u128.to_be_bytes());
    wanted.extend_from_slice(&2_003i64.to_le_bytes());
    wanted.extend_from_slice(&[9, 9]);
    assert_eq!(bytes, wanted);
}

#[test]
fn message_content_text_serde() {
    let content = MessageContent::Text {
        body: "Hello, world!".to_string(),
        attachments: vec![AttachmentRef {
            cid: "bafybeigdyrzt5sfp7udm7hu76uh7y26nf3efuylqabf3oclgtqy55fbzdi".to_string(),
            name: "file.txt".to_string(),
            size: 1024,
            mime_type: "text/plain".to_string(),
        }],
        reply_to: Some(MessageId::new()),
        edited_at: None,
    };
    let bytes = content.encode();
    let restored = MessageContent::decode(&bytes).unwrap();
    assert!(matches!(restored, MessageContent::Text { ref body, .. } if body == "Hello, world!"));
    assert!(matches!(restored, MessageContent::Text { ref attachments, .. }
        if attachments.len() == 1 && attachments[0].size == 1024));
}

#[test]
fn message_content_reaction_serde() {
    let content = MessageContent::Reaction {
        target_message_id: "01ABCDEF".to_string(),
        emoji: "👍".to_string(),
        is_add: true,
    };
    let bytes = content.encode();
    let restored = MessageContent::decode(&bytes).unwrap();
    assert!(matches!(restored, MessageContent::Reaction { is_add: true, .. }));
}

#[test]
fn legacy_message_content_decoded_as_text() {
    let bytes = postcard::to_allocvec(&(
        "legacy message",
        Vec::<u8>::new(),
        Option::<ulid::Ulid>::None,
        Option::<chrono::DateTime<chrono::Utc>>::None,
    ))
    .unwrap();
    let restored = MessageContent::decode(&bytes).unwrap();
    assert!(matches!(restored, MessageContent::Text { ref body, .. } if body == "legacy message"));
}

#[test]
fn a_reaction_is_encoded_as_the_second_variant() {
    let content = MessageContent::Reaction {
        target_message_id: "ab".to_string(),
        emoji: "c".to_string(),
        is_add: false,
    };
    assert_eq!(content.encode(), vec![1, 2, b'a', b'b', 1, b'c', 0]);
}

#[test]
fn an_edited_reply_is_read_back() {
    let at = Timestamp { secs: 1_700_000_000, nanos: 5_000 };
    let content = MessageContent::Text {
        body: "x".to_string(),
        attachments: vec![],
        reply_to: Some(MessageId(77)),
        edited_at: Some(at),
    };
    match MessageContent::decode(&content.encode()) {
        Some(MessageContent::Text { reply_to, edited_at, .. }) => {
            assert_eq!(reply_to, Some(MessageId(77)));
            assert_eq!(edited_at, Some(at));
        }
        _ => panic!("wrong variant"),
    }
}

#[test]
fn bytes_that_are_no_content_are_refused() {
    assert!(MessageContent::decode(&[]).is_none());
    assert!(MessageContent::decode(&[0xff, 0xff]).is_none());
}

#[test]
fn community_id_display_roundtrip() {
    let id = CommunityId::new();
    let s = id.to_string();
    assert_eq!(s.len(), 26);
    assert_eq!(CommunityId::from_string(&s), Some(id));
}

#[test]
fn ids_are_written_in_crockford_base32() {
    assert_eq!(CommunityId(0).to_string(), "00000000000000000000000000");
    assert_eq!(ChannelId(31).to_string(), "0000000000000000000000000Z");
    assert_eq!(MessageId(32).to_string(), "00000000000000000000000010");
    assert_eq!(MessageId::from_string("00000000000000000000000010"), Some(MessageId(32)));
    assert_eq!(ChannelId::from_string("too short"), None);
    assert_eq!(ChannelId(1).to_bytes(), 1u128.to_be_bytes());
}

#[test]
fn fresh_ids_differ() {
    assert_ne!(CommunityId::new(), CommunityId::new());
    assert_ne!(ChannelId::new(), ChannelId::new());
    assert_ne!(MessageId::new(), MessageId::new());
}

#[test]
fn user_id_serde_roundtrip() {
    let (_, vk) = key_pair();
    let uid = UserId::from_verifying_key(&vk);
    let restored = UserId::from_string(&uid.to_string()).unwrap();
    assert_eq!(uid, restored);
}

#[test]
fn user_ids_are_digests_of_public_keys() {
    let digest: [u8; 32] = Sha256::digest([7u8; 32]).into();
    let uid = UserId::from_verifying_key(&[7; 32]);
    assert_eq!(uid.0, digest);
    assert_eq!(uid.to_string().len(), 64);
    assert!(UserId::from_string("xyz").is_none());
}

#[test]
fn a_user_id_has_one_text_form() {
    let text = "ab".repeat(32);
    assert_eq!(UserId::from_string(&text), Some(UserId([0xab; 32])));
    assert_eq!(UserId([0xab; 32]).to_string(), text);
    assert!(UserId::from_string(&text.to_uppercase()).is_none());
    assert!(UserId::from_string(&text.replacen("ab", "aB", 1)).is_none());
    assert!(UserId::from_string(&text[2..]).is_none());
    assert!(UserId::from_string(&text.replacen("ab", "ag", 1)).is_none());
}

fn membership(roles: Vec<Role>) -> (MembershipRecord, [u8; 32]) {
    let (sk, vk) = key_pair();
    let record = MembershipRecord::create(
        &sk,
        UserId::from_verifying_key(&vk),
        CommunityId(5),
        "Alice".to_string(),
        Timestamp { secs: 10, nanos: 0 },
        roles,
        vk,
        [3; 32],
    );
    (record, sk)
}

#[test]
fn memberships_verify_until_they_are_changed() {
    let (mut record, _) = membership(vec![Role::Member]);
    assert!(record.verify());
    assert!(!record.is_admin());
    assert!(!record.is_privileged());
    record.roles = vec![Role::Admin];
    assert!(!record.verify());
    assert!(record.is_admin());
    let copy = record.clone();
    assert_eq!(copy.display_name, "Alice");
    assert_eq!(copy.signature, record.signature);
}

#[test]
fn a_name_of_another_user_does_not_verify() {
    let (mut record, _) = membership(vec![Role::Moderator]);
    assert!(record.is_privileged());
    record.user_id = UserId([0; 32]);
    assert!(!record.verify());
}

#[test]
fn memberships_sign_ids_name_time_and_roles() {
    let bytes = MembershipRecord::signable_bytes(
        &UserId([1; 32]),
        &CommunityId(2),
        "Al",
        &Timestamp { secs: 1, nanos: 0 },
        &vec![Role::Admin, Role::Member],
    );
    let mut wanted = vec![1u8; 32];
    wanted.extend_from_slice(&2u128.to_be_bytes());
    wanted.extend_from_slice(b"Al");
    wanted.extend_from_slice(&1_000i64.to_le_bytes());
    wanted.extend_from_slice(&postcard::to_allocvec(&vec![0u32, 2u32]).unwrap());
    assert_eq!(bytes, wanted);
    assert_eq!(index_of_role(Role::Moderator), 1);
}

#[test]
fn channel_manifests_know_who_holds_their_key() {
    let m = ChannelManifest {
        id: ChannelId(1),
        community_id: CommunityId(2),
        name: "general".to_string(),
        kind: ChannelKind::Text,
        encrypted_channel_key: vec![MemberKey { user_id: UserId([1; 32]), wrapped: vec![4, 2] }],
        created_at: Timestamp { secs: 0, nanos: 0 },
        version: 3,
    };
    assert_eq!(m.key_for(&UserId([1; 32])), Some(&vec![4, 2]));
    assert_eq!(m.key_for(&UserId([2; 32])), None);
    let at = chrono::DateTime::from_timestamp(0, 0).unwrap();
    let wanted = postcard::to_allocvec(&(
        ulid::Ulid(1),
        ulid::Ulid(2),
        "general",
        0u32,
        vec![("01".repeat(32), vec![4u8, 2])],
        at,
        3u64,
    ))
    .unwrap();
    assert_eq!(m.canonical_bytes(), wanted);
    assert_eq!(m.clone().canonical_bytes(), wanted);
}

#[test]
fn signed_bytes_of_events() {
    let m = 1u128.to_be_bytes().to_vec();
    let c = 2u128.to_be_bytes().to_vec();
    let joined = |parts: Vec<Vec<u8>>| parts.concat();
    assert_eq!(
        edit_bytes(&MessageId(1), &ChannelId(2), &[8, 8]),
        joined(vec![m.clone(), c.clone(), vec![8, 8]])
    );
    assert_eq!(
        delete_bytes(&MessageId(1), &ChannelId(2)),
        joined(vec![m, c.clone(), b"delete".to_vec()])
    );
    assert_eq!(
        leave_bytes(&UserId([3; 32]), &CommunityId(2)),
        joined(vec![vec![3; 32], c.clone(), b"leave".to_vec()])
    );
    assert_eq!(
        role_bytes(&UserId([3; 32]), &CommunityId(2), Role::Moderator),
        joined(vec![vec![3; 32], c, vec![1], b"role_update".to_vec()])
    );
    assert_eq!(
        presence_bytes(&UserId([3; 32]), "idle", &Timestamp { secs: 1, nanos: 0 }),
        joined(vec![vec![3; 32], b"idle".to_vec(), 1_000i64.to_le_bytes().to_vec()])
    );
}

#[test]
fn instants_and_milliseconds() {
    let t = Timestamp::from_millis(-1);
    assert_eq!(t, Timestamp { secs: -1, nanos: 999_000_000 });
    assert_eq!(t.millis(), -1);
    assert_eq!(Timestamp { secs: i64::MAX, nanos: 0 }.millis(), i64::MAX);
    assert_eq!(Timestamp { secs: i64::MIN, nanos: 0 }.millis(), i64::MIN);
    assert_eq!(Timestamp::from_stored_millis(i64::MAX), Timestamp { secs: 0, nanos: 0 });
    assert_eq!(Timestamp::from_millis_or(i64::MAX, t), t);
    assert_eq!(Timestamp::from_millis_or(5, t), Timestamp { secs: 0, nanos: 5_000_000 });
    assert_eq!(
        Timestamp { secs: 1_700_000_000, nanos: 5_000_000 }.to_rfc3339(),
        "2023-11-14T22:13:20.005Z"
    );
    assert!(Timestamp::now().secs > 1_700_000_000);
}

#[test]
fn signatures_of_events() {
    let (sk, vk) = key_pair();
    let sig = sign_bytes(&sk, b"event");
    assert_eq!(sig.len(), 64);
    assert!(verify_bytes(&vk, b"event", &sig));
    assert!(!verify_bytes(&vk, b"other", &sig));
    assert!(!verify_bytes(&vk, b"event", &sig[..63]));
    assert!(!verify_bytes(&vk, b"event", &[]));
}
