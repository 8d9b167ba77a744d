//! What a node makes of events from the network.

use bitcord_core::api::dialing::OwnAddresses;
use bitcord_core::api::effects::{Effect, StoreUpdate, TableFile};
use bitcord_core::api::event_processor::community_handler::Stored;
use bitcord_core::api::event_processor::Surroundings;
use bitcord_core::api::invite::{invite_json_bytes, InvitePayload};
use bitcord_core::api::push_broadcaster::PushEvent;
use bitcord_core::api::seed_sync::HISTORY_BATCH;
use bitcord_core::api::startup::Tables;
use bitcord_core::api::types::{
    ChannelKindDto, CreateChannelParams, CreateCommunityParams, DeleteMessageParams,
    EditMessageParams, GetHistoryParams, KickBanParams, PeerSummary, ReactionParams, RoleDto,
    RotateKeyParams, SendDmParams, SendMessageParams, SetStatusParams, UpdateManifestParams,
    UpdateRoleParams, UserStatus,
};
use bitcord_core::api::AppState;
use bitcord_core::config::{NodeConfig, NodeMode};
use bitcord_core::crypto::channel_keys::ChannelKey;
use bitcord_core::identity::NodeIdentity;
use bitcord_core::model::channel::ChannelManifest;
use bitcord_core::model::membership::{MembershipRecord, Role};
use bitcord_core::model::network_event::NetworkEvent;
use bitcord_core::model::types::{CommunityId, UserId};
use bitcord_core::network::network_handle::types::{
    CommunityRef, ManifestResponse, NetworkCommand, NetworkEvent as SwarmEvent,
};
use bitcord_core::network::node_addr::{Ip, NodeAddr};
use bitcord_core::node::store::CommunityMeta;
use bitcord_core::network::network_handle::command::unsigned_cert;
use bitcord_core::state::message_log::{LogEntry, MessageLog};
use bitcord_core::table::Table;
use bitcord_core::time::Timestamp;

fn empty_tables() -> Tables {
    Tables {
        communities: Table::new(),
        channels: Table::new(),
        channel_keys: Table::new(),
        previous_channel_keys: Table::new(),
        dms: Table::new(),
        dm_peers: Table::new(),
        members: Table::new(),
        bans: Table::new(),
        read_state: Table::new(),
        hosting_passwords: Table::new(),
        seed_fingerprints: Table::new(),
    }
}

fn peer(n: u8) -> AppState {
    AppState::new(
        &[n; 32],
        NodeConfig::default_in("/data", "/data/identity.key"),
        MessageLog::new(),
        empty_tables(),
        &vec![],
        &Table::new(),
        None,
    )
}

/// Read an invite link as a client does.
fn parsed_invite(link: &str) -> InvitePayload {
    let json = invite_json_bytes(link.strip_prefix("bitcord://join/").unwrap()).unwrap();
    let v: serde_json::Value = serde_json::from_slice(&json).unwrap();
    let field = |k: &str| v.get(k).and_then(|x| x.as_str()).unwrap().to_string();
    InvitePayload {
        community_id: field("community_id"),
        name: field("name"),
        description: field("description"),
        seed_nodes: vec![],
        public_key_hex: field("public_key_hex"),
        sig_hex: field("sig_hex"),
        cert_fingerprint_hex: field("cert_fingerprint_hex"),
    }
}

fn own_record(s: &AppState, community: &str) -> MembershipRecord {
    s.members.get(community).unwrap().get(&s.local.peer_id()).unwrap().clone()
}

fn shared_manifests(effects: Vec<Effect>) -> Vec<ChannelManifest> {
    let mut out = Vec::new();
    for e in effects {
        if let Effect::Publish { event: NetworkEvent::ChannelManifestBroadcast(p), .. } = e {
            out.push(p.manifest);
        }
    }
    out
}

/// Hand what one node publishes to another.
fn deliver(to: &mut AppState, effects: Vec<Effect>) -> Vec<Effect> {
    let mut out = Vec::new();
    for e in effects {
        if let Effect::Publish { topic, event } = e {
            let around = Surroundings {
                decoded: Some(event),
                last_seqs: None,
                parsed: Table::new(),
                stored: Stored::Nothing,
                interfaces: None,
            };
            let more = to.process_swarm_event(
                SwarmEvent::MessageReceived { topic, source: Some("peer".to_string()), data: vec![] },
                around,
            );
            out.extend(more);
        }
    }
    out
}

/// Two nodes in one community with one channel that both can read.
fn pair() -> (AppState, AppState, String, String) {
    let mut a = peer(1);
    let mut b = peer(2);
    let own = OwnAddresses { ips: vec![], port: 9042, listen: vec![], public_addr: None };
    let p = CreateCommunityParams {
        name: "Club".to_string(),
        description: String::new(),
        seed_nodes: vec![],
        hosting_password: None,
        seed_fingerprint_hex: None,
    };
    let c = a.community_create(p, &Table::new(), &own).0.unwrap().id;
    let ch = a
        .channel_create(CreateChannelParams {
            community_id: c.clone(),
            name: "general".to_string(),
            kind: ChannelKindDto::Text,
        })
        .0
        .unwrap()
        .id;
    let link = a.community_generate_invite(&c).unwrap();
    b.community_join(parsed_invite(&link), None, &Table::new()).0.unwrap();
    let admin = own_record(&a, &c);
    b.handle_member_joined(admin);
    let effects = a.handle_member_joined(own_record(&b, &c));
    for m in shared_manifests(effects) {
        b.handle_channel_manifest(m, &None);
    }
    (a, b, c, ch)
}

fn bodies(s: &AppState, c: &str, ch: &str) -> Vec<String> {
    s.message_get_history(GetHistoryParams {
        community_id: c.to_string(),
        channel_id: ch.to_string(),
        before: None,
        limit: None,
    })
    .unwrap()
    .iter()
    .map(|m| m.body.clone())
    .collect()
}

fn saying(c: &str, ch: &str, body: &str) -> SendMessageParams {
    SendMessageParams {
        community_id: c.to_string(),
        channel_id: ch.to_string(),
        body: body.to_string(),
        reply_to: None,
    }
}

#[test]
fn new_members_receive_every_channel_key() {
    let (a, b, c, ch) = pair();
    assert_eq!(a.channel_keys.get(&ch), b.channel_keys.get(&ch));
    assert!(b.channel_keys.contains_key(&ch));
    assert_eq!(a.member_list(&c).len(), 2);
    assert_eq!(b.member_list(&c).len(), 2);
}

#[test]
fn messages_arrive_and_only_once() {
    let (mut a, mut b, c, ch) = pair();
    let (r, effects) = a.message_send(saying(&c, &ch, "hello"));
    let id = r.unwrap().id;
    let copy = a.message_log.get_entry(&ch, &id).unwrap().clone();
    let seen = deliver(&mut b, effects);
    assert_eq!(bodies(&b, &c, &ch), vec!["hello".to_string()]);
    assert!(seen.iter().any(|e| matches!(e, Effect::Push(PushEvent::MessageNew(d)) if d.message_id == id)));
    b.handle_channel_history_received(c.clone(), ch.clone(), vec![copy]);
    assert_eq!(bodies(&b, &c, &ch).len(), 1);
}

#[test]
fn forged_messages_are_dropped() {
    let (mut a, mut b, c, ch) = pair();
    let (_, effects) = a.message_send(saying(&c, &ch, "hello"));
    for e in effects {
        if let Effect::Publish { topic, event: NetworkEvent::NewMessage(mut m) } = e {
            m.timestamp = Timestamp { secs: m.timestamp.secs + 1, nanos: 0 };
            assert!(b.handle_new_message(&topic, m).is_empty());
        }
    }
    assert!(bodies(&b, &c, &ch).is_empty());
}

#[test]
fn edits_and_deletions_arrive() {
    let (mut a, mut b, c, ch) = pair();
    let (r, effects) = a.message_send(saying(&c, &ch, "helo"));
    let id = r.unwrap().id;
    deliver(&mut b, effects);
    let (_, effects) = a.message_edit(EditMessageParams {
        community_id: c.clone(),
        channel_id: ch.clone(),
        message_id: id.clone(),
        body: "hello".to_string(),
    });
    deliver(&mut b, effects);
    assert_eq!(bodies(&b, &c, &ch), vec!["hello".to_string()]);
    let (_, effects) = a.message_delete(DeleteMessageParams {
        community_id: c.clone(),
        channel_id: ch.clone(),
        message_id: id,
    });
    deliver(&mut b, effects);
    assert_eq!(bodies(&b, &c, &ch), vec![String::new()]);
}

#[test]
fn forged_edits_change_nothing() {
    let (mut a, mut b, c, ch) = pair();
    let (r, effects) = a.message_send(saying(&c, &ch, "mine"));
    let id = r.unwrap().id;
    deliver(&mut b, effects);
    let (_, effects) = a.message_edit(EditMessageParams {
        community_id: c.clone(),
        channel_id: ch.clone(),
        message_id: id,
        body: "yours".to_string(),
    });
    for e in effects {
        if let Effect::Publish { event: NetworkEvent::EditMessage(mut p), .. } = e {
            p.signature[0] ^= 1;
            b.handle_edit_message(p);
        }
    }
    assert_eq!(bodies(&b, &c, &ch), vec!["mine".to_string()]);
}

#[test]
fn reactions_arrive() {
    let (mut a, mut b, c, ch) = pair();
    let (r, effects) = a.message_send(saying(&c, &ch, "hello"));
    let id = r.unwrap().id;
    deliver(&mut b, effects);
    let params = || ReactionParams {
        community_id: c.clone(),
        channel_id: ch.clone(),
        message_id: id.clone(),
        emoji: "+1".to_string(),
    };
    let (_, effects) = b.reaction_add(params());
    deliver(&mut a, effects);
    assert_eq!(a.message_log.get_reactions(&id)[0].user_ids, vec![b.local.peer_id()]);
    let (_, effects) = b.reaction_remove(params());
    deliver(&mut a, effects);
    assert!(a.message_log.get_reactions(&id).is_empty());
}

#[test]
fn messages_under_an_unknown_key_wait_for_the_rotation() {
    let (mut a, mut b, c, ch) = pair();
    let (_, rotation) = a.channel_rotate_key(RotateKeyParams { community_id: c.clone(), channel_id: ch.clone() });
    let (_, sent) = a.message_send(saying(&c, &ch, "new key"));
    let announced = rotation
        .into_iter()
        .filter(|e| matches!(e, Effect::Publish { event: NetworkEvent::ChannelKeyRotation(_), .. }))
        .collect();
    deliver(&mut b, announced);
    assert_ne!(b.channel_keys.get(&ch), a.channel_keys.get(&ch));
    deliver(&mut b, sent);
    assert!(bodies(&b, &c, &ch).is_empty());
    assert_eq!(b.pending_rotation_messages.get(&ch).unwrap().len(), 1);
    b.handle_manifest_received(response(&a, &c, [7; 32], &ch), &None);
    assert_eq!(b.channel_keys.get(&ch), a.channel_keys.get(&ch));
    assert_eq!(bodies(&b, &c, &ch), vec!["new key".to_string()]);
    assert!(b.pending_rotation_messages.get(&ch).is_none());
}

#[test]
fn messages_that_no_key_opens_are_dropped_otherwise() {
    let (mut a, mut b, c, ch) = pair();
    a.channel_rotate_key(RotateKeyParams { community_id: c.clone(), channel_id: ch.clone() }).0.unwrap();
    let (_, sent) = a.message_send(saying(&c, &ch, "new key"));
    deliver(&mut b, sent);
    assert!(bodies(&b, &c, &ch).is_empty());
    assert!(b.pending_rotation_messages.get(&ch).is_none());
}

#[test]
fn history_is_merged() {
    let (mut a, mut b, c, ch) = pair();
    a.message_send(saying(&c, &ch, "one")).0.unwrap();
    a.message_send(saying(&c, &ch, "two")).0.unwrap();
    let entries = a.message_log.get_since(&ch, 0);
    let effects = b.handle_channel_history_received(c.clone(), ch.clone(), entries);
    assert_eq!(bodies(&b, &c, &ch), vec!["one".to_string(), "two".to_string()]);
    assert!(effects.iter().any(|e| matches!(e, Effect::Push(PushEvent::ChannelHistorySynced(_)))));
}

#[test]
fn a_banned_user_does_not_join() {
    let (mut a, b, c, _) = pair();
    let record = own_record(&b, &c);
    a.member_ban(KickBanParams { community_id: c.clone(), user_id: b.local.peer_id(), reason: None }).0.unwrap();
    assert!(a.handle_member_joined(record).is_empty());
    assert_eq!(a.member_list(&c).len(), 1);
}

#[test]
fn an_unsigned_membership_is_discarded() {
    let (mut a, b, c, _) = pair();
    let mut record = own_record(&b, &c);
    record.display_name = "Mallory".to_string();
    assert!(a.handle_member_joined(record).is_empty());
    assert!(a.member_list(&c).iter().all(|m| m.display_name != "Mallory"));
}

#[test]
fn members_that_leave_are_removed() {
    let (mut a, mut b, c, _) = pair();
    let (_, effects) = b.community_leave(&c);
    let seen = deliver(&mut a, effects);
    assert_eq!(a.member_list(&c).len(), 1);
    assert!(seen.iter().any(|e| matches!(e, Effect::Push(PushEvent::MemberLeft(_)))));
}

#[test]
fn role_changes_arrive() {
    let (mut a, mut b, c, _) = pair();
    let (_, effects) = a.member_update_role(UpdateRoleParams {
        community_id: c.clone(),
        user_id: b.local.peer_id(),
        role: RoleDto::Moderator,
    });
    deliver(&mut b, effects);
    assert_eq!(own_record(&b, &c).roles, vec![Role::Moderator]);
}

#[test]
fn presence_arrives() {
    let (mut a, mut b, _, _) = pair();
    let (_, effects) = b.presence_heartbeat(SetStatusParams { status: UserStatus::Idle });
    deliver(&mut a, effects);
    assert_eq!(a.presence.get(&b.local.peer_id()), Some(&UserStatus::Idle));
}

#[test]
fn manifests_move_forward_only() {
    let (mut a, mut b, c, _) = pair();
    let old = a.communities.get(&c).unwrap().clone();
    let (_, effects) = a.community_update_manifest(UpdateManifestParams {
        community_id: c.clone(),
        name: Some("New".to_string()),
        description: None,
        seed_nodes: None,
        seed_fingerprint_hex: None,
    });
    deliver(&mut b, effects);
    assert_eq!(b.community_get(&c).unwrap().name, "New");
    b.handle_manifest_update(old, None, &Table::new());
    assert_eq!(b.community_get(&c).unwrap().name, "New");
}

#[test]
fn a_deleted_community_goes_everywhere() {
    let (mut a, mut b, c, ch) = pair();
    let (_, effects) = a.community_delete(&c);
    let seen = deliver(&mut b, effects);
    assert!(b.communities.get(&c).is_none());
    assert!(b.channel_keys.get(&ch).is_none());
    assert!(seen.iter().any(|e| matches!(e, Effect::Push(PushEvent::CommunityDeleted(_)))));
}

fn response(from: &AppState, c: &str, key: [u8; 32], ch: &str) -> ManifestResponse {
    let mut channel_keys = Table::new();
    channel_keys.insert(ch, key.to_vec());
    ManifestResponse {
        from: "seed".to_string(),
        manifest: from.communities.get(c).unwrap().clone(),
        channels: vec![from.channels.get(ch).unwrap().clone()],
        channel_keys,
        members: vec![own_record(from, c)],
    }
}

#[test]
fn a_fetched_manifest_is_taken_over() {
    let (a, mut b, c, ch) = pair();
    let effects = b.handle_manifest_received(response(&a, &c, [7; 32], &ch), &None);
    assert_eq!(b.channel_keys.get(&ch), a.channel_keys.get(&ch));
    assert!(effects.iter().any(|e| matches!(e, Effect::Save(TableFile::Communities))));
    assert_eq!(b.community_get(&c).unwrap().channel_ids, vec![ch]);
}

#[test]
fn an_unsigned_manifest_is_discarded() {
    let (a, mut b, c, ch) = pair();
    let mut r = response(&a, &c, [7; 32], &ch);
    r.manifest.manifest.name = "Evil".to_string();
    assert!(b.handle_manifest_received(r, &None).is_empty());
    assert_ne!(b.community_get(&c).unwrap().name, "Evil");
}

#[test]
fn the_creator_key_is_permanent() {
    let (a, mut b, c, ch) = pair();
    b.handle_manifest_received(response(&a, &c, [7; 32], &ch), &None);
    let mut m = a.communities.get(&c).unwrap().manifest.clone();
    m.public_key = b.local.public_key();
    m.version += 5;
    m.name = "Evil".to_string();
    let evil = m.sign(&[2; 32]);
    assert!(evil.verify());
    assert!(b.handle_manifest_update(evil.clone(), None, &Table::new()).is_empty());
    let mut r = response(&a, &c, [7; 32], &ch);
    r.manifest = evil.clone();
    assert!(b.handle_manifest_received(r, &None).is_empty());
    let mut gone = evil.manifest;
    gone.deleted = true;
    let mut r = response(&a, &c, [7; 32], &ch);
    r.manifest = gone.sign(&[2; 32]);
    assert!(b.handle_manifest_update(r.manifest.clone(), None, &Table::new()).is_empty());
    assert!(b.handle_manifest_received(r, &None).is_empty());
    assert_eq!(b.community_get(&c).unwrap().name, "Club");
    assert_eq!(b.communities.get(&c).unwrap().manifest.public_key, a.local.public_key());
    assert!(b.channel_keys.contains_key(&ch));
}

#[test]
fn a_placeholder_gives_way_to_the_first_manifest() {
    let (a, mut b, c, ch) = pair();
    let mut placeholder = b.communities.remove(&c).unwrap();
    assert_eq!(placeholder.manifest.version, 0);
    placeholder.manifest.public_key = [0; 32];
    b.communities.insert(&c, placeholder);
    assert!(!b.handle_manifest_received(response(&a, &c, [7; 32], &ch), &None).is_empty());
    assert_eq!(b.communities.get(&c).unwrap().manifest.public_key, a.local.public_key());
}

/// A record that the user of key `n` signed.
fn signed_record(n: u8, community: CommunityId, name: &str, roles: Vec<Role>) -> MembershipRecord {
    let id = NodeIdentity::from_signing_key_bytes(&[n; 32]);
    MembershipRecord::create(
        &[n; 32],
        UserId::from_verifying_key(id.verifying_key()),
        community,
        name.to_string(),
        Timestamp { secs: 100, nanos: 0 },
        roles,
        *id.verifying_key(),
        id.x25519_public_key_bytes(),
    )
}

#[test]
fn served_member_records_are_checked() {
    let (a, mut b, c, ch) = pair();
    let id = CommunityId::from_string(&c).unwrap();
    let good = signed_record(3, id, "Good", vec![Role::Member]);
    let mut promoted = signed_record(4, id, "Old name", vec![Role::Member]);
    promoted.roles = vec![Role::Moderator];
    promoted.display_name = "New name".to_string();
    assert!(!promoted.verify());
    let mut forged = signed_record(6, id, "Forged", vec![Role::Member]);
    forged.public_key = [6; 32];
    let banned = signed_record(5, id, "Banned", vec![Role::Member]);
    b.bans.insert(&c, vec![banned.user_id.to_string()]);
    let creator = signed_record(1, id, "Creator", vec![Role::Member]);
    assert!(own_record(&a, &c).roles.contains(&Role::Admin));
    let mut r = response(&a, &c, [7; 32], &ch);
    r.members = vec![good.clone(), promoted.clone(), forged.clone(), banned.clone(), creator.clone()];
    let effects = b.handle_manifest_received(r, &None);
    let list = b.members.get(&c).unwrap();
    assert!(list.contains_key(&good.user_id.to_string()));
    let late = list.get(&promoted.user_id.to_string()).unwrap();
    assert_eq!(late.display_name, "New name");
    assert_eq!(late.roles, vec![Role::Moderator]);
    for refused in [forged, banned] {
        assert!(!list.contains_key(&refused.user_id.to_string()));
        assert!(!b.dm_peers.contains_key(&refused.user_id.to_string()));
    }
    let kept = list.get(&creator.user_id.to_string()).unwrap();
    assert_eq!(kept.display_name, "Creator");
    assert!(kept.roles.contains(&Role::Admin));
    let mut stored = false;
    for e in effects {
        if let Effect::Store(update) = e {
            if matches!(update, StoreUpdate::ReplaceCommunity { .. }) {
                let meta = b.stored_after(&update, None).unwrap();
                assert_eq!(meta.channels.len(), 1);
                assert_eq!(meta.channel_keys.len(), 1);
                assert_eq!(meta.members.len(), 3);
                assert!(!meta.members.contains_key(&b.local.peer_id()));
                assert_eq!(meta.members.get(&good.user_id.to_string()).unwrap().display_name, "Good");
                stored = true;
            }
        }
    }
    assert!(stored);
}

#[test]
fn the_creator_wraps_keys_for_served_members() {
    let (mut a, _, c, ch) = pair();
    let id = CommunityId::from_string(&c).unwrap();
    let late = signed_record(3, id, "Late", vec![Role::Member]);
    assert!(a.channels.get(&ch).unwrap().encrypted_channel_key.iter().all(|k| k.user_id != late.user_id));
    let mut r = response(&a, &c, [7; 32], &ch);
    r.members.push(late.clone());
    let announced = shared_manifests(a.handle_manifest_received(r, &None));
    assert_eq!(announced.len(), 1);
    let wrapped = announced[0].encrypted_channel_key.iter().find(|k| k.user_id == late.user_id).unwrap();
    let sk = NodeIdentity::from_signing_key_bytes(&[3; 32]).x25519_secret();
    let opened = ChannelKey::decrypt_for_self(&sk, &wrapped.wrapped);
    assert!(matches!(opened, Ok(k) if Some(k.as_bytes()) == a.channel_keys.get(&ch)));
    let known = a.members.get(&c).unwrap();
    assert_eq!(known.len(), 3);
    assert_eq!(a.channels.get(&ch).unwrap().encrypted_channel_key.len(), 3);
}

#[test]
fn a_moved_seed_is_dialled_only_with_a_pin() {
    let (mut a, mut b, c, ch) = pair();
    b.handle_manifest_received(response(&a, &c, [7; 32], &ch), &None);
    let mut other = peer(2);
    let link = a.community_generate_invite(&c).unwrap();
    other.community_join(parsed_invite(&link), None, &Table::new()).0.unwrap();
    let (r, _) = a.community_update_manifest(UpdateManifestParams {
        community_id: c.clone(),
        name: None,
        description: None,
        seed_nodes: Some(vec!["8.8.8.8:9042".to_string()]),
        seed_fingerprint_hex: Some("0c".repeat(32)),
    });
    r.unwrap();
    let moved = a.communities.get(&c).unwrap().clone();
    let mut parsed = Table::new();
    parsed.insert("8.8.8.8:9042", NodeAddr { ip: Ip::V4(0x0808_0808), port: 9042 });
    let dials = |fx: Vec<Effect>| {
        let mut out = Vec::new();
        for e in fx {
            if let Effect::Command(NetworkCommand::Dial { cert_fingerprint, .. }) = e {
                out.push(cert_fingerprint);
            }
        }
        out
    };
    assert!(dials(b.handle_manifest_update(moved.clone(), None, &parsed)).is_empty());
    assert_eq!(b.community_get(&c).unwrap().seed_nodes, vec!["8.8.8.8:9042".to_string()]);
    other.seed_fingerprints.insert("8.8.8.8:9042", [12; 32]);
    assert_eq!(dials(other.handle_manifest_update(moved, None, &parsed)), vec![[12u8; 32]]);
    assert!(dials(b.bootstrap_network(vec![], &parsed)).is_empty());
    assert_eq!(dials(other.bootstrap_network(vec![], &parsed)), vec![[12u8; 32]]);
}

#[test]
fn a_missing_manifest_deletes_nothing() {
    let (a, _, c, _) = pair();
    a.handle_manifest_not_found(c.clone());
    assert!(a.communities.get(&c).is_some());
}

#[test]
fn direct_messages_arrive_once() {
    let (mut a, mut b, _, _) = pair();
    let (r, effects) = a.dm_send(
        SendDmParams { peer_id: b.local.peer_id(), body: "psst".to_string(), reply_to: None },
        None,
        None,
    );
    let id = r.unwrap().id;
    let mut arrived = false;
    for e in effects {
        if let Effect::Command(NetworkCommand::SendDm { envelope, recipient_x25519_pk, .. }) = e {
            assert_eq!(recipient_x25519_pk, b.local.x25519_public());
            let entry = || LogEntry {
                seq: 0,
                nonce: envelope.nonce,
                ciphertext: envelope.to_bytes(),
                message_id: id.clone(),
                author_id: a.local.peer_id(),
                timestamp_ms: 1_700_000_000_000,
                deleted: false,
            };
            let fx = b.handle_dm_received(entry(), b.local.x25519_public());
            assert!(fx.iter().any(|e| matches!(e, Effect::Push(PushEvent::DmNew(d)) if d.message.body == "psst")));
            assert!(b.handle_dm_received(entry(), b.local.x25519_public()).is_empty());
            arrived = true;
        }
    }
    assert!(arrived);
    assert_eq!(b.dms.get(&a.local.peer_id()).unwrap().len(), 1);
}

fn summary(id: &str, c: &str) -> PeerSummary {
    PeerSummary {
        peer_id: id.to_string(),
        addresses: vec![],
        latency_ms: None,
        relay_capable: false,
        reputation: 0,
        is_admin: false,
        community_id: c.to_string(),
    }
}

#[test]
fn connected_peers_are_listed_once() {
    let (mut a, _, c, _) = pair();
    a.handle_peer_connected("p".to_string(), c.clone());
    let fx = a.handle_peer_connected("p".to_string(), c.clone());
    assert!(fx.iter().all(|e| !matches!(e, Effect::Push(PushEvent::MemberJoined(_)))));
    assert_eq!(a.connected_peers.get(&c).unwrap().len(), 1);
    assert_eq!(a.connected_total(), 1);
    a.handle_peer_connected("p".to_string(), "other".to_string());
    assert_eq!(a.connected_total(), 2);
    assert_eq!(a.peer_for_sync(&c), Some("p".to_string()));
    a.handle_peer_disconnected("p");
    assert_eq!(a.connected_total(), 0);
    assert_eq!(a.peer_for_sync(&c), None);
    a.connected_peers.insert(&c, vec![summary("q", &c)]);
    assert_eq!(a.node_get_peers().len(), 1);
}

#[test]
fn seeds_come_and_go() {
    let (mut a, _, c, _) = pair();
    let fx = a.handle_seed_peer_connected(c.clone(), "s".to_string());
    assert!(fx.iter().any(|e| matches!(e, Effect::Push(PushEvent::SeedStatusChanged(d)) if d.connected)));
    assert_eq!(a.seed_connected_communities, vec![c.clone()]);
    let fx = a.handle_seed_peer_disconnected(c.clone());
    assert!(fx.iter().any(|e| matches!(e, Effect::Push(PushEvent::SeedStatusChanged(d)) if !d.connected)));
    assert!(a.seed_connected_communities.is_empty());
}

#[test]
fn the_first_public_address_is_kept() {
    let mut a = peer(1);
    let mut parsed = Table::new();
    parsed.insert("10.0.0.1:9042", NodeAddr { ip: Ip::V4(0x0a00_0001), port: 9042 });
    parsed.insert("8.8.8.8:9042", NodeAddr { ip: Ip::V4(0x0808_0808), port: 9042 });
    parsed.insert("9.9.9.9:9042", NodeAddr { ip: Ip::V4(0x0909_0909), port: 9042 });
    a.handle_new_listen_addr("10.0.0.1:9042", &None, &parsed);
    assert!(a.public_addr.is_none());
    a.handle_new_listen_addr("8.8.8.8:9042", &None, &parsed);
    a.handle_new_listen_addr("9.9.9.9:9042", &None, &parsed);
    assert_eq!(a.public_addr.as_deref(), Some("8.8.8.8:9042"));
    assert_eq!(a.actual_listen_addrs.len(), 3);
}

#[test]
fn listen_addresses_are_listed_once_in_order() {
    let mut a = peer(1);
    let mut parsed = Table::new();
    parsed.insert("10.0.0.1:9042", NodeAddr { ip: Ip::V4(0x0a00_0001), port: 9042 });
    parsed.insert("9.9.9.9:9042", NodeAddr { ip: Ip::V4(0x0909_0909), port: 9042 });
    parsed.insert("8.8.8.8:9042", NodeAddr { ip: Ip::V4(0x0808_0808), port: 9042 });
    for addr in ["10.0.0.1:9042", "9.9.9.9:9042", "10.0.0.1:9042", "8.8.8.8:9042", "9.9.9.9:9042"] {
        a.handle_new_listen_addr(addr, &None, &parsed);
    }
    let listed: Vec<&str> = a.actual_listen_addrs.iter().map(|x| x.as_str()).collect();
    assert_eq!(listed, vec!["10.0.0.1:9042", "9.9.9.9:9042", "8.8.8.8:9042"]);
    assert_eq!(a.public_addr.as_deref(), Some("9.9.9.9:9042"));
}

#[test]
fn failures_are_reported_to_clients() {
    let mut a = peer(1);
    let around = Surroundings {
        decoded: None,
        last_seqs: None,
        parsed: Table::new(),
        stored: Stored::Nothing,
        interfaces: None,
    };
    let fx = a.process_swarm_event(
        SwarmEvent::DmSendFailed { peer_id: "p".to_string(), message_id: "m".to_string() },
        around,
    );
    assert!(matches!(fx[0], Effect::Push(PushEvent::DmSendFailed(ref d)) if d.message_id == "m"));
}

#[test]
fn a_seed_is_handed_the_whole_community() {
    let (mut a, _, c, ch) = pair();
    for i in 0..(HISTORY_BATCH + 1) {
        a.message_log.append(&ch, format!("m{}", i), "x".to_string(), 0, [0; 24], vec![]);
    }
    let sync = a.seed_sync(&c).unwrap();
    assert_eq!(sync.channels.len(), 1);
    assert_eq!(sync.members.len(), 2);
    assert_eq!(sync.channel_keys.len(), 0);
    assert_eq!(sync.history[0].batches.len(), 2);
    assert_eq!(sync.history[0].batches[0].len(), HISTORY_BATCH);
    assert_eq!(sync.history[0].batches[1].len(), 1);
    assert!(a.seed_sync("nope").is_none());
}

#[test]
fn the_hosting_store_follows_the_community() {
    let (a, _, c, ch) = pair();
    let create = StoreUpdate::CreateCommunity { community_id: c.clone() };
    let meta = a.stored_after(&create, None).unwrap();
    assert!(meta.manifest.is_some());
    let sync = StoreUpdate::SyncChannel { community_id: c.clone(), channel_id: ch.clone(), with_key: true };
    let meta = a.stored_after(&sync, Some(meta)).unwrap();
    assert_eq!(meta.channels.len(), 1);
    assert!(meta.channel_keys.contains_key(&ch));
    let drop = StoreUpdate::DropChannel { community_id: c, channel_id: ch };
    let meta = a.stored_after(&drop, Some(meta)).unwrap();
    assert!(meta.channels.is_empty());
    assert_eq!(meta.channel_keys.len(), 0);
}

#[test]
fn a_rotation_replaces_a_hosted_channel_and_adds_none() {
    let (mut a, _, c, ch) = pair();
    let create = StoreUpdate::CreateCommunity { community_id: c.clone() };
    let (r, effects) =
        a.channel_rotate_key(RotateKeyParams { community_id: c.clone(), channel_id: ch.clone() });
    r.unwrap();
    let mut seen = false;
    for e in effects {
        if let Effect::Store(update) = e {
            assert!(a.stored_after(&update, None).is_none());
            let empty = a.stored_after(&create, None);
            let meta = a.stored_after(&update, empty).unwrap();
            assert!(meta.channels.is_empty());
            assert_eq!(meta.channel_keys.get(&ch).unwrap().as_slice(), &a.channel_keys.get(&ch).unwrap()[..]);
            let mut held = a.stored_after(&create, None).unwrap();
            let mut old = a.channels.get(&ch).unwrap().clone();
            old.version = 1;
            held.put_channel(old);
            let meta = a.stored_after(&update, Some(held)).unwrap();
            assert_eq!(meta.channels.len(), 1);
            assert_eq!(meta.channels[0].version, 2);
            seen = true;
        }
    }
    assert!(seen);
}

#[test]
fn a_node_starts_with_what_it_hosts() {
    let (a, _, c, ch) = pair();
    let mut meta = CommunityMeta {
        cert: unsigned_cert([0; 32], [0; 32]),
        manifest: Some(a.communities.get(&c).unwrap().clone()),
        channels: vec![],
        channel_keys: Table::new(),
        members: Table::new(),
    };
    meta.put_channel(a.channels.get(&ch).unwrap().clone());
    assert!(meta.merge_members(a.members.get(&c).unwrap()));
    assert!(!meta.merge_members(a.members.get(&c).unwrap()));
    assert_eq!(meta.members.len(), 2);
    let mut config = NodeConfig::default_in("/data", "/data/identity.key");
    config.node_mode = NodeMode::HeadlessSeed;
    let s = AppState::new(&[9; 32], config, MessageLog::new(), empty_tables(), &vec![meta], &Table::new(), None);
    assert!(s.communities.contains_key(&c));
    assert_eq!(s.channel_list(&c).len(), 1);
    assert_eq!(s.member_list(&c).len(), 2);
    assert!(s.channel_keys.get(&ch).is_none());
}

#[test]
fn a_starting_node_subscribes_to_its_topics() {
    let (mut a, _, c, ch) = pair();
    let fx = a.bootstrap_network(vec![], &Table::new());
    let topics: Vec<&String> = fx
        .iter()
        .filter_map(|e| match e {
            Effect::Command(NetworkCommand::Subscribe(t)) => Some(t),
            _ => None,
        })
        .collect();
    assert!(topics.iter().any(|t| t.contains(&c)));
    assert!(topics.iter().any(|t| t.contains(&ch)));
}

#[test]
fn hosting_a_community_makes_a_placeholder() {
    let mut a = peer(1);
    a.config.node_mode = NodeMode::HeadlessSeed;
    let (b, _, c, _) = pair();
    let around = Surroundings {
        decoded: None,
        last_seqs: None,
        parsed: Table::new(),
        stored: Stored::Manifest(b.communities.get(&c).unwrap().clone()),
        interfaces: None,
    };
    let joined = SwarmEvent::CommunityJoined(CommunityRef { pk: b.local.public_key(), id: c.clone() });
    let fx = a.process_swarm_event(joined, around);
    assert!(!fx.is_empty());
    assert!(a.communities.contains_key(&c));
}
