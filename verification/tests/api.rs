//! Commands of the node's own user.

use bitcord_core::api::dialing::OwnAddresses;
use bitcord_core::api::effects::{DhtAction, Effect, StoreUpdate, TableFile};
use bitcord_core::api::invite::{invite_json_bytes, make_link, InvitePayload};
use bitcord_core::api::push_broadcaster::PushEvent;
use bitcord_core::api::rpc_server::community::parse_fingerprint_hex;
use bitcord_core::api::rpc_server::dm::DhtPeer;
use bitcord_core::api::rpc_server::RpcError;
use bitcord_core::api::startup::Tables;
use bitcord_core::api::types::{
    ChangePassphraseParams, ChannelKindDto, CommunityInfo, CreateChannelParams,
    CreateCommunityParams, DeleteChannelParams, DeleteMessageParams, DiscardDmParams,
    EditMessageParams, GetDmHistoryParams, GetHistoryParams, KickBanParams, MarkReadParams,
    ReactionParams, RoleDto, RotateKeyParams, SendDmParams, SendMessageParams, SetConfigParams,
    SetDisplayNameParams, SetStatusParams, UpdateManifestParams, UpdateRoleParams, UserStatus,
};
use bitcord_core::api::AppState;
use bitcord_core::config::{NodeConfig, NodeMode};
use bitcord_core::identity::keystore::KeyStore;
use bitcord_core::identity::NodeIdentity;
use bitcord_core::model::membership::{MembershipRecord, Role};
use bitcord_core::model::network_event::NetworkEvent;
use bitcord_core::model::types::{CommunityId, MessageId, UserId};
use bitcord_core::network::network_handle::types::NetworkCommand;
use bitcord_core::network::node_addr::{Ip, NodeAddr};
use bitcord_core::state::message_log::MessageLog;
use bitcord_core::table::Table;
use bitcord_core::time::Timestamp;

fn no_tables() -> Tables {
    Tables {
        communities: Table::new(),
        channels: Table::new(),
        channel_keys: Table::new(),
        previous_channel_keys: Table::new(),
        dms: Table::new(),
        dm_peers: Table::new(),
        members: Table::new(),
        bans: Table::new(),
        read_state: Table::new(),
        hosting_passwords: Table::new(),
        seed_fingerprints: Table::new(),
    }
}

fn user(n: u8) -> AppState {
    AppState::new(
        &[n; 32],
        NodeConfig::default_in("/data", "/data/identity.key"),
        MessageLog::new(),
        no_tables(),
        &vec![],
        &Table::new(),
        Some("ab".repeat(32)),
    )
}

fn nowhere() -> OwnAddresses {
    OwnAddresses { ips: vec![], port: 9042, listen: vec![], public_addr: None }
}

fn creation(name: &str, description: &str) -> CreateCommunityParams {
    CreateCommunityParams {
        name: name.to_string(),
        description: description.to_string(),
        seed_nodes: vec![],
        hosting_password: None,
        seed_fingerprint_hex: None,
    }
}

fn create_community(s: &mut AppState) -> CommunityInfo {
    let (r, _) = s.community_create(creation("Club", "A club"), &Table::new(), &nowhere());
    r.unwrap()
}

fn create_channel(s: &mut AppState, community: &str, kind: ChannelKindDto) -> String {
    let (r, _) = s.channel_create(CreateChannelParams {
        community_id: community.to_string(),
        name: "general".to_string(),
        kind,
    });
    r.unwrap().id
}

fn message(community: &str, channel: &str, body: &str) -> SendMessageParams {
    SendMessageParams {
        community_id: community.to_string(),
        channel_id: channel.to_string(),
        body: body.to_string(),
        reply_to: None,
    }
}

fn history(s: &AppState, community: &str, channel: &str) -> Vec<String> {
    s.message_get_history(GetHistoryParams {
        community_id: community.to_string(),
        channel_id: channel.to_string(),
        before: None,
        limit: None,
    })
    .unwrap()
    .iter()
    .map(|m| m.body.clone())
    .collect()
}

fn saves(effects: &Vec<Effect>, file: TableFile) -> bool {
    effects.iter().any(|e| matches!(e, Effect::Save(f) if *f == file))
}

/// A member record that its own user signed.
fn member_record(n: u8, community: &str, roles: Vec<Role>) -> MembershipRecord {
    let id = NodeIdentity::from_signing_key_bytes(&[n; 32]);
    MembershipRecord::create(
        &[n; 32],
        UserId::from_verifying_key(id.verifying_key()),
        CommunityId::from_string(community).unwrap(),
        format!("User {}", n),
        Timestamp { secs: 100, nanos: 0 },
        roles,
        *id.verifying_key(),
        id.x25519_public_key_bytes(),
    )
}

fn user_name(n: u8) -> String {
    UserId::from_verifying_key(NodeIdentity::from_signing_key_bytes(&[n; 32]).verifying_key())
        .to_string()
}

fn add_member(s: &mut AppState, n: u8, community: &str, roles: Vec<Role>) -> String {
    let name = user_name(n);
    s.put_member(community, &name, member_record(n, community, roles));
    name
}

#[test]
fn creators_are_the_first_admin() {
    let mut s = user(1);
    let (r, effects) = s.community_create(creation("Club", "A club"), &Table::new(), &nowhere());
    let info = r.unwrap();
    assert_eq!(info.name, "Club");
    assert_eq!(info.version, 1);
    assert_eq!(info.admin_ids, vec![s.local.peer_id()]);
    assert_eq!(info.public_key_hex, s.local.public_key_hex());
    assert!(saves(&effects, TableFile::Communities) && saves(&effects, TableFile::Members));
    assert!(s.communities.get(&info.id).unwrap().verify());
    let members = s.member_list(&info.id);
    assert_eq!(members.len(), 1);
    assert_eq!(members[0].roles, vec![RoleDto::Admin]);
    assert!(effects.iter().any(|e| matches!(e, Effect::Dht(DhtAction::AnnounceCommunity { .. }))));
    assert_eq!(s.community_list().len(), 1);
    assert!(s.community_get(&info.id).unwrap().reachable);
}

#[test]
fn names_are_bounded() {
    let mut s = user(1);
    let mut try_create = |name: &str, description: &str| {
        let (r, effects) = s.community_create(creation(name, description), &Table::new(), &nowhere());
        assert_eq!(r.is_ok(), !effects.is_empty());
        match r {
            Ok(_) => None,
            Err(e) => Some(e),
        }
    };
    assert_eq!(try_create("", ""), Some(RpcError::NameLength));
    assert_eq!(try_create(&"n".repeat(101), ""), Some(RpcError::NameLength));
    assert_eq!(try_create(&"n".repeat(100), ""), None);
    assert_eq!(try_create("n", &"d".repeat(2001)), None);
}

#[test]
fn clients_without_a_server_need_a_seed() {
    let mut s = user(1);
    s.config.node_mode = NodeMode::GossipClient;
    let (r, _) = s.community_create(creation("Club", ""), &Table::new(), &nowhere());
    assert!(matches!(r, Err(RpcError::GossipClientNeedsSeed)));
    let mut p = creation("Club", "");
    p.seed_nodes = vec!["seed.example:9042".to_string()];
    let (r, _) = s.community_create(p, &Table::new(), &nowhere());
    assert!(matches!(r, Err(RpcError::SeedFingerprintRequired)));
}

#[test]
fn seeds_are_dialled_with_their_fingerprint() {
    let mut s = user(1);
    let addr = NodeAddr { ip: Ip::V4(0x0808_0808), port: 9042 };
    let mut parsed = Table::new();
    parsed.insert("8.8.8.8:9042", addr);
    let mut p = creation("Club", "");
    p.seed_nodes = vec!["8.8.8.8:9042".to_string(), "unresolved:1".to_string()];
    p.seed_fingerprint_hex = Some("0c".repeat(32));
    p.hosting_password = Some("pw".to_string());
    let (r, effects) = s.community_create(p, &parsed, &nowhere());
    let info = r.unwrap();
    let dials: Vec<&Effect> = effects
        .iter()
        .filter(|e| matches!(e, Effect::Command(NetworkCommand::Dial { .. })))
        .collect();
    assert_eq!(dials.len(), 1);
    assert!(matches!(dials[0], Effect::Command(NetworkCommand::Dial { addr: a, is_seed: true, join_community: Some(c), join_community_password: Some(pw), cert_fingerprint })
        if *a == addr && c.id == info.id && pw == "pw" && *cert_fingerprint == [12; 32]));
    assert_eq!(s.seed_fingerprints.get("8.8.8.8:9042"), Some(&[12u8; 32]));
    assert_eq!(s.hosting_passwords.get(&info.id), Some(&"pw".to_string()));
    assert!(info.seeded);
    assert!(!s.community_get(&info.id).unwrap().reachable);
    assert!(matches!(s.require_seed_connected(&info.id), Err(RpcError::SeedUnavailable)));
}

#[test]
fn a_seed_of_its_own_is_not_dialled() {
    let mut s = user(1);
    let addr = NodeAddr { ip: Ip::V4(0x0808_0808), port: 9042 };
    let mut parsed = Table::new();
    parsed.insert("8.8.8.8:9042", addr);
    let own = OwnAddresses { ips: vec![Ip::V4(0x0808_0808)], port: 9042, listen: vec![], public_addr: None };
    assert!(own.is_self("8.8.8.8:9042", addr));
    let mut p = creation("Club", "");
    p.seed_nodes = vec!["8.8.8.8:9042".to_string()];
    p.seed_fingerprint_hex = Some("0c".repeat(32));
    let (_, effects) = s.community_create(p, &parsed, &own);
    assert!(!effects.iter().any(|e| matches!(e, Effect::Command(NetworkCommand::Dial { .. }))));
}

#[test]
fn channels_are_listed_and_named() {
    let mut s = user(1);
    let c = create_community(&mut s).id;
    let (r, effects) = s.channel_create(CreateChannelParams {
        community_id: c.clone(),
        name: "general".to_string(),
        kind: ChannelKindDto::Text,
    });
    let info = r.unwrap();
    assert_eq!(info.community_id, c);
    assert_eq!(info.version, 1);
    assert_eq!(s.channel_get(&info.id).unwrap().name, "general");
    assert_eq!(s.channel_list(&c).len(), 1);
    assert_eq!(s.community_get(&c).unwrap().channel_ids, vec![info.id.clone()]);
    assert_eq!(s.community_get(&c).unwrap().version, 2);
    assert!(s.communities.get(&c).unwrap().verify());
    assert!(saves(&effects, TableFile::ChannelKeys));
    assert!(effects.iter().any(|e| matches!(e, Effect::Push(PushEvent::ChannelCreated(d)) if d.name == "general")));
    assert!(s.channel_keys.contains_key(&info.id));
    assert!(matches!(s.channel_get("nope"), Err(RpcError::ChannelNotFound)));
}

#[test]
fn channels_are_made_with_a_name() {
    let mut s = user(1);
    let c = create_community(&mut s).id;
    let mut try_create = |community: &str, name: &str| {
        s.channel_create(CreateChannelParams {
            community_id: community.to_string(),
            name: name.to_string(),
            kind: ChannelKindDto::Voice,
        })
        .0
    };
    assert!(matches!(try_create(&c, ""), Err(RpcError::NameLength)));
    assert!(matches!(try_create("nope", "x"), Err(RpcError::CommunityNotFound)));
    assert!(matches!(try_create(&c, &"x".repeat(101)), Err(RpcError::NameLength)));
    assert!(try_create(&c, &"x".repeat(100)).is_ok());
}

#[test]
fn a_deleted_channel_is_gone() {
    let mut s = user(1);
    let c = create_community(&mut s).id;
    let ch = create_channel(&mut s, &c, ChannelKindDto::Text);
    let (r, effects) = s.channel_delete(DeleteChannelParams { community_id: c.clone(), channel_id: ch.clone() });
    assert!(matches!(r, Ok(true)));
    assert!(s.channel_list(&c).is_empty());
    assert!(!s.channel_keys.contains_key(&ch));
    assert!(s.community_get(&c).unwrap().channel_ids.is_empty());
    assert!(effects.iter().any(|e| matches!(e, Effect::Push(PushEvent::ChannelDeleted(_)))));
    let (r, _) = s.channel_delete(DeleteChannelParams { community_id: c, channel_id: ch });
    assert!(matches!(r, Err(RpcError::ChannelNotFound)));
}

#[test]
fn rotation_keeps_old_messages_readable() {
    let mut s = user(1);
    let c = create_community(&mut s).id;
    let ch = create_channel(&mut s, &c, ChannelKindDto::Text);
    s.message_send(message(&c, &ch, "before")).0.unwrap();
    let old_key = *s.channel_keys.get(&ch).unwrap();
    let (r, effects) = s.channel_rotate_key(RotateKeyParams { community_id: c.clone(), channel_id: ch.clone() });
    assert!(matches!(r, Ok(true)));
    assert_ne!(s.channel_keys.get(&ch), Some(&old_key));
    assert_eq!(s.previous_channel_keys.get(&ch), Some(&old_key));
    assert_eq!(s.channel_get(&ch).unwrap().version, 2);
    s.message_send(message(&c, &ch, "after")).0.unwrap();
    assert_eq!(history(&s, &c, &ch), vec!["before".to_string(), "after".to_string()]);
    assert!(effects.iter().any(|e| matches!(e, Effect::Publish { event: NetworkEvent::ChannelKeyRotation(_), .. })));
}

#[test]
fn what_is_sent_can_be_read() {
    let mut s = user(1);
    let c = create_community(&mut s).id;
    let ch = create_channel(&mut s, &c, ChannelKindDto::Text);
    let (r, effects) = s.message_send(message(&c, &ch, "hello"));
    let info = r.unwrap();
    assert_eq!(info.body, "hello");
    assert_eq!(info.author_id, s.local.peer_id());
    assert_eq!(history(&s, &c, &ch), vec!["hello".to_string()]);
    let entry = s.message_log.get_entry(&ch, &info.id).unwrap();
    assert!(!entry.ciphertext.windows(5).any(|w| w == b"hello"));
    assert!(effects.iter().any(|e| matches!(e, Effect::Publish { event: NetworkEvent::NewMessage(m), .. } if m.id.to_string() == info.id)));
    assert!(effects.iter().any(|e| matches!(e, Effect::Push(PushEvent::MessageNew(d)) if d.message_id == info.id)));
    assert!(effects.iter().any(|e| matches!(e, Effect::Store(StoreUpdate::AppendMessage { .. }))));
}

#[test]
fn messages_are_checked_before_they_are_sent() {
    let mut s = user(1);
    let c = create_community(&mut s).id;
    let ch = create_channel(&mut s, &c, ChannelKindDto::Text);
    assert!(matches!(s.message_send(message(&c, &ch, "")).0, Err(RpcError::EmptyBody)));
    assert!(matches!(s.message_send(message(&c, "nope", "x")).0, Err(_)));
    let (r, effects) = s.message_send(message("nope", &ch, "x"));
    assert!(r.is_err() && effects.is_empty());
    assert!(history(&s, &c, &ch).is_empty());
}

#[test]
fn only_moderators_announce() {
    let mut s = user(1);
    let c = create_community(&mut s).id;
    let ch = create_channel(&mut s, &c, ChannelKindDto::Announcement);
    assert!(s.message_send(message(&c, &ch, "news")).0.is_ok());
    let own = s.local.peer_id();
    s.set_role(&c, &own, Role::Member);
    assert!(matches!(s.message_send(message(&c, &ch, "news")).0, Err(RpcError::AnnouncementOnly)));
}

#[test]
fn own_messages_are_edited_and_deleted() {
    let mut s = user(1);
    let c = create_community(&mut s).id;
    let ch = create_channel(&mut s, &c, ChannelKindDto::Text);
    let id = s.message_send(message(&c, &ch, "helo")).0.unwrap().id;
    let edit = |id: &str, body: &str| EditMessageParams {
        community_id: c.clone(),
        channel_id: ch.clone(),
        message_id: id.to_string(),
        body: body.to_string(),
    };
    let (r, effects) = s.message_edit(edit(&id, "hello"));
    assert!(matches!(r, Ok(true)));
    assert!(effects.iter().any(|e| matches!(e, Effect::Push(PushEvent::MessageEdited(_)))));
    assert_eq!(history(&s, &c, &ch), vec!["hello".to_string()]);
    assert!(matches!(s.message_edit(edit(&MessageId(5).to_string(), "x")).0, Err(RpcError::MessageNotFound)));
    let delete = |id: &str| DeleteMessageParams {
        community_id: c.clone(),
        channel_id: ch.clone(),
        message_id: id.to_string(),
    };
    let (r, effects) = s.message_delete(delete(&id));
    assert!(matches!(r, Ok(true)));
    assert!(effects.iter().any(|e| matches!(e, Effect::Push(PushEvent::MessageDeleted(_)))));
    let all = s
        .message_get_history(GetHistoryParams { community_id: c.clone(), channel_id: ch.clone(), before: None, limit: None })
        .unwrap();
    assert!(all.iter().all(|m| m.deleted && m.body.is_empty()));
    assert!(matches!(s.message_delete(delete(&MessageId(5).to_string())).0, Err(RpcError::MessageNotFound)));
}

#[test]
fn history_comes_in_pages() {
    let mut s = user(1);
    let c = create_community(&mut s).id;
    let ch = create_channel(&mut s, &c, ChannelKindDto::Text);
    let mut ids = Vec::new();
    for i in 0..5 {
        ids.push(s.message_send(message(&c, &ch, &format!("m{}", i))).0.unwrap().id);
    }
    let page = |before: Option<String>, limit: Option<u32>| -> Vec<String> {
        s.message_get_history(GetHistoryParams { community_id: c.clone(), channel_id: ch.clone(), before, limit })
            .unwrap()
            .iter()
            .map(|m| m.body.clone())
            .collect()
    };
    assert_eq!(page(None, Some(2)), vec!["m3".to_string(), "m4".to_string()]);
    assert_eq!(page(Some(ids[3].clone()), Some(2)), vec!["m3".to_string(), "m4".to_string()]);
    assert_eq!(page(None, Some(0)).len(), 0);
    assert_eq!(page(None, None).len(), 5);
}

#[test]
fn reactions_are_added_once_and_removed() {
    let mut s = user(1);
    let c = create_community(&mut s).id;
    let ch = create_channel(&mut s, &c, ChannelKindDto::Text);
    let id = s.message_send(message(&c, &ch, "hello")).0.unwrap().id;
    let params = || ReactionParams {
        community_id: c.clone(),
        channel_id: ch.clone(),
        message_id: id.clone(),
        emoji: "+1".to_string(),
    };
    assert!(s.reaction_add(params()).0.is_ok());
    let (r, effects) = s.reaction_add(params());
    assert!(r.is_ok());
    assert!(effects.iter().any(|e| matches!(e, Effect::Push(PushEvent::ReactionUpdated(d)) if d.message_id == id)));
    let reactions = s.message_log.get_reactions(&id);
    assert_eq!(reactions.len(), 1);
    assert_eq!(reactions[0].user_ids, vec![s.local.peer_id()]);
    assert_eq!(history(&s, &c, &ch), vec!["hello".to_string()]);
    assert!(s.reaction_remove(params()).0.is_ok());
    assert!(s.message_log.get_reactions(&id).is_empty());
}

#[test]
fn reading_moves_forward() {
    let mut s = user(1);
    let c = create_community(&mut s).id;
    let ch = create_channel(&mut s, &c, ChannelKindDto::Text);
    let a = s.message_send(message(&c, &ch, "a")).0.unwrap().id;
    let b = s.message_send(message(&c, &ch, "b")).0.unwrap().id;
    let read = |id: &str| MarkReadParams { community_id: c.clone(), channel_id: ch.clone(), message_id: id.to_string() };
    let (_, effects) = s.mark_read(read(&b));
    assert!(saves(&effects, TableFile::ReadState));
    assert_eq!(s.read_state.get(&ch), Some(&s.message_log.get_entry(&ch, &b).unwrap().seq));
    let (r, effects) = s.mark_read(read(&a));
    assert!(r.is_ok() && effects.is_empty());
    assert_eq!(s.read_state.get(&ch), Some(&s.message_log.get_entry(&ch, &b).unwrap().seq));
}

fn removal(c: &str, u: &str) -> KickBanParams {
    KickBanParams { community_id: c.to_string(), user_id: u.to_string(), reason: None }
}

#[test]
fn kicked_members_are_gone_and_banned_ones_listed() {
    let mut s = user(1);
    let c = create_community(&mut s).id;
    let u2 = add_member(&mut s, 2, &c, vec![Role::Member]);
    let u3 = add_member(&mut s, 3, &c, vec![Role::Member]);
    assert_eq!(s.member_list(&c).len(), 3);
    let (r, effects) = s.member_kick(removal(&c, &u2));
    assert!(matches!(r, Ok(true)));
    assert_eq!(s.member_list(&c).len(), 2);
    assert!(effects.iter().any(|e| matches!(e, Effect::Publish { event: NetworkEvent::MemberLeft(_), .. })));
    assert!(s.bans.get(&c).is_none());
    let (r, _) = s.member_ban(removal(&c, &u3));
    assert!(matches!(r, Ok(true)));
    assert_eq!(s.bans.get(&c), Some(&vec![u3.clone()]));
    assert!(matches!(s.member_kick(removal(&c, &u2)).0, Err(RpcError::MemberNotFound)));
    assert!(s.member_kick(removal("nope", &u3)).0.is_err());
}

#[test]
fn members_without_a_role_remove_nobody() {
    let mut s = user(1);
    let c = create_community(&mut s).id;
    let u2 = add_member(&mut s, 2, &c, vec![Role::Member]);
    let own = s.local.peer_id();
    s.set_role(&c, &own, Role::Member);
    assert!(matches!(s.member_kick(removal(&c, &u2)).0, Err(RpcError::ModeratorRequired)));
    s.set_role(&c, &own, Role::Moderator);
    assert!(matches!(s.member_ban(removal(&c, &u2)).0, Err(RpcError::AdminRequired)));
    assert!(matches!(s.member_kick(removal(&c, &u2)).0, Ok(true)));
}

#[test]
fn roles_change_but_not_that_of_the_creator() {
    let mut s = user(1);
    let c = create_community(&mut s).id;
    let u2 = add_member(&mut s, 2, &c, vec![Role::Member]);
    let own = s.local.peer_id();
    let change = |u: &str, role| UpdateRoleParams { community_id: c.clone(), user_id: u.to_string(), role };
    let (r, effects) = s.member_update_role(change(&u2, RoleDto::Moderator));
    assert!(matches!(r, Ok(true)));
    assert!(effects.iter().any(|e| matches!(e, Effect::Push(PushEvent::MemberRoleUpdated(d)) if d.new_role == "moderator")));
    let info = s.member_list(&c);
    assert!(info.iter().any(|m| m.user_id == u2 && m.roles == vec![RoleDto::Moderator]));
    assert!(matches!(s.member_update_role(change(&own, RoleDto::Member)).0, Err(RpcError::CreatorRole)));
    assert!(matches!(s.member_update_role(change("nope", RoleDto::Member)).0, Err(RpcError::MemberNotFound)));
}

#[test]
fn left_and_deleted_communities_leave_nothing_behind() {
    let mut s = user(1);
    let c = create_community(&mut s).id;
    let ch = create_channel(&mut s, &c, ChannelKindDto::Text);
    let (r, effects) = s.community_delete(&c);
    assert!(matches!(r, Ok(true)));
    assert!(effects.iter().any(|e| matches!(e, Effect::Publish { event: NetworkEvent::ManifestUpdate(m), .. }
        if m.manifest.deleted && m.manifest.version == 3 && m.verify())));
    assert!(s.communities.get(&c).is_none());
    assert!(s.channel_keys.get(&ch).is_none());
    assert!(matches!(s.community_delete(&c).0, Err(RpcError::CommunityNotFound)));
    let d = create_community(&mut s).id;
    let (r, effects) = s.community_leave(&d);
    assert!(matches!(r, Ok(true)));
    assert!(effects.iter().any(|e| matches!(e, Effect::Publish { event: NetworkEvent::MemberLeft(_), .. })));
    assert!(s.community_list().is_empty());
    assert!(matches!(s.community_leave(&d).0, Err(RpcError::CommunityNotFound)));
}

#[test]
fn manifests_are_updated_by_their_admin() {
    let mut s = user(1);
    let c = create_community(&mut s).id;
    let update = |name: Option<&str>| UpdateManifestParams {
        community_id: c.clone(),
        name: name.map(|n| n.to_string()),
        description: None,
        seed_nodes: None,
        seed_fingerprint_hex: None,
    };
    let (r, effects) = s.community_update_manifest(update(Some("New")));
    assert!(matches!(r, Ok(true)));
    assert!(!effects.is_empty());
    assert_eq!(s.community_get(&c).unwrap().name, "New");
    assert_eq!(s.community_get(&c).unwrap().description, "A club");
    assert!(s.communities.get(&c).unwrap().verify());
    let before = s.community_get(&c).unwrap().version;
    let (r, _) = s.community_update_manifest(update(Some("")));
    assert!(matches!(r, Err(RpcError::NameLength)));
    assert_eq!(s.community_get(&c).unwrap().version, before);
    let mut described = update(None);
    described.description = Some("d".repeat(501));
    assert!(matches!(s.community_update_manifest(described).0, Err(RpcError::DescriptionLength)));
    let mut moved = update(None);
    moved.seed_nodes = Some(vec!["9.9.9.9:1".to_string()]);
    let (r, _) = s.community_update_manifest(moved);
    assert!(matches!(r, Err(RpcError::NewSeedFingerprintRequired)));
    assert!(s.community_get(&c).unwrap().seed_nodes.is_empty());
}

/// Read an invite as a client does.
fn read_invite(link: &str) -> InvitePayload {
    let body = link.strip_prefix("bitcord://join/").unwrap();
    let json = invite_json_bytes(body).unwrap();
    let v: serde_json::Value = serde_json::from_slice(&json).unwrap();
    let field = |k: &str| v.get(k).and_then(|x| x.as_str()).unwrap().to_string();
    InvitePayload {
        community_id: field("community_id"),
        name: field("name"),
        description: field("description"),
        seed_nodes: v
            .get("seed_nodes")
            .and_then(|x| x.as_array())
            .unwrap()
            .iter()
            .map(|x| x.as_str().unwrap().to_string())
            .collect(),
        public_key_hex: field("public_key_hex"),
        sig_hex: field("sig_hex"),
        cert_fingerprint_hex: field("cert_fingerprint_hex"),
    }
}

#[test]
fn invites_are_signed_links() {
    let mut s = user(1);
    let (r, _) = s.community_create(creation("Cl\"ub", "d\u{e9}j\u{e0}"), &Table::new(), &nowhere());
    let c = r.unwrap().id;
    let link = s.community_generate_invite(&c).unwrap();
    let invite = read_invite(&link);
    assert_eq!(invite.community_id, c);
    assert_eq!(invite.name, "Cl\"ub");
    assert_eq!(invite.description, "d\u{e9}j\u{e0}");
    assert!(!invite.signature_is_bad());
    assert_eq!(invite.public_key(), s.local.public_key());
    assert_eq!(make_link(&invite), link);
    assert!(matches!(s.community_generate_invite("nope"), Err(RpcError::CommunityNotFound)));
    assert!(matches!(invite_json_bytes("***"), Err(RpcError::InviteEncoding)));
}

#[test]
fn joining_takes_a_sound_invite() {
    let mut a = user(1);
    let c = create_community(&mut a).id;
    let link = a.community_generate_invite(&c).unwrap();
    let mut b = user(2);
    let mut refused = |change: &dyn Fn(&mut InvitePayload)| {
        let mut invite = read_invite(&link);
        change(&mut invite);
        let (r, effects) = b.community_join(invite, None, &Table::new());
        assert!(effects.is_empty());
        match r {
            Ok(_) => panic!("must be refused"),
            Err(e) => e,
        }
    };
    assert_eq!(refused(&|i| i.name.clear()), RpcError::InviteWithoutName);
    assert_eq!(refused(&|i| i.community_id = "x".to_string()), RpcError::InviteCommunityId);
    assert_eq!(refused(&|i| i.name = "Other".to_string()), RpcError::InviteSignature);
    assert_eq!(
        refused(&|i| i.cert_fingerprint_hex = "zz".repeat(32)),
        RpcError::InviteFingerprintMalformed
    );
    assert_eq!(
        refused(&|i| i.cert_fingerprint_hex = "ab".to_string()),
        RpcError::InviteFingerprintLength
    );
    assert!(b.community_list().is_empty());
    let (r, effects) = b.community_join(read_invite(&link), None, &Table::new());
    assert_eq!(r.unwrap().name, "Club");
    assert!(effects.iter().any(|e| matches!(e, Effect::Publish { event: NetworkEvent::MemberJoined(_), .. })
        || matches!(e, Effect::Dht(DhtAction::DiscoverCommunity { .. }))));
    let (r, _) = b.community_join(read_invite(&link), None, &Table::new());
    assert!(matches!(r, Err(RpcError::AlreadyMember)));
}

#[test]
fn banned_users_do_not_come_back() {
    let mut a = user(1);
    let c = create_community(&mut a).id;
    let link = a.community_generate_invite(&c).unwrap();
    let mut b = user(2);
    b.bans.insert(&c, vec![b.local.peer_id()]);
    let (r, _) = b.community_join(read_invite(&link), None, &Table::new());
    assert!(matches!(r, Err(RpcError::Banned)));
}

#[test]
fn only_the_creator_invites_updates_and_deletes() {
    let mut a = user(1);
    let c = create_community(&mut a).id;
    let link = a.community_generate_invite(&c).unwrap();
    let mut b = user(2);
    b.community_join(read_invite(&link), None, &Table::new()).0.unwrap();
    assert!(matches!(b.community_generate_invite(&c), Err(RpcError::InviteByAdminOnly)));
    assert!(matches!(b.community_delete(&c).0, Err(RpcError::DeleteByAdminOnly)));
    let (r, _) = b.community_update_manifest(UpdateManifestParams {
        community_id: c.clone(),
        name: Some("Mine".to_string()),
        description: None,
        seed_nodes: None,
        seed_fingerprint_hex: None,
    });
    assert!(matches!(r, Err(RpcError::UpdateByAdminOnly)));
}

#[test]
fn only_the_creator_changes_a_community() {
    let mut a = user(1);
    let c = create_community(&mut a).id;
    let ch = create_channel(&mut a, &c, ChannelKindDto::Text);
    let mut b = user(2);
    let mut signed = a.communities.get(&c).unwrap().clone();
    signed.manifest.admin_ids.push(UserId::from_string(&user_name(2)).unwrap());
    let version = signed.manifest.version;
    b.communities.insert(&c, signed);
    b.channels.insert(&ch, a.channels.get(&ch).unwrap().clone());
    let (r, effects) = b.channel_create(CreateChannelParams {
        community_id: c.clone(),
        name: "mine".to_string(),
        kind: ChannelKindDto::Text,
    });
    assert!(matches!(r, Err(RpcError::CreatorOnly)) && effects.is_empty());
    let (r, effects) =
        b.channel_delete(DeleteChannelParams { community_id: c.clone(), channel_id: ch.clone() });
    assert!(matches!(r, Err(RpcError::CreatorOnly)) && effects.is_empty());
    let (r, effects) =
        b.channel_rotate_key(RotateKeyParams { community_id: c.clone(), channel_id: ch.clone() });
    assert!(matches!(r, Err(RpcError::CreatorOnly)) && effects.is_empty());
    let (r, effects) = b.community_update_manifest(UpdateManifestParams {
        community_id: c.clone(),
        name: Some("Mine".to_string()),
        description: None,
        seed_nodes: None,
        seed_fingerprint_hex: None,
    });
    assert!(matches!(r, Err(RpcError::CreatorOnly)) && effects.is_empty());
    let (r, effects) = b.community_delete(&c);
    assert!(matches!(r, Err(RpcError::CreatorOnly)) && effects.is_empty());
    assert_eq!(RpcError::CreatorOnly.code(), -32003);
    assert_eq!(RpcError::CreatorOnly.message(), "only the creator of the community can do this");
    assert_eq!(b.communities.get(&c).unwrap().manifest.version, version);
    assert!(b.channels.contains_key(&ch));
    assert!(!b.channel_keys.contains_key(&ch));
    let (r, _) = a.channel_delete(DeleteChannelParams { community_id: c.clone(), channel_id: ch });
    assert!(matches!(r, Ok(true)));
    assert!(a.communities.get(&c).unwrap().verify());
}

#[test]
fn seeds_of_an_invite_without_a_fingerprint_are_not_dialled() {
    let mut a = user(1);
    let c = create_community(&mut a).id;
    let mut invite = read_invite(&a.community_generate_invite(&c).unwrap());
    invite.seed_nodes = vec!["8.8.8.8:9042".to_string()];
    invite.sig_hex = String::new();
    invite.cert_fingerprint_hex = String::new();
    let mut parsed = Table::new();
    parsed.insert("8.8.8.8:9042", NodeAddr { ip: Ip::V4(0x0808_0808), port: 9042 });
    let mut b = user(2);
    let (r, effects) = b.community_join(invite, None, &parsed);
    assert_eq!(r.unwrap().name, "Club");
    assert!(!effects.iter().any(|e| matches!(e, Effect::Command(NetworkCommand::Dial { .. }))));
    assert!(effects.iter().any(|e| matches!(e, Effect::Dht(DhtAction::DiscoverCommunity { .. }))));
    assert!(b.seed_fingerprints.get("8.8.8.8:9042").is_none());
}

fn dm(peer: &str, body: &str) -> SendDmParams {
    SendDmParams { peer_id: peer.to_string(), body: body.to_string(), reply_to: None }
}

#[test]
fn direct_messages_are_kept_and_paged() {
    let mut s = user(1);
    let c = create_community(&mut s).id;
    let u2 = add_member(&mut s, 2, &c, vec![Role::Member]);
    assert!(s.local_recipient_key(&u2).is_some());
    let (r, effects) = s.dm_send(dm(&u2, "hi"), None, None);
    let info = r.unwrap();
    assert_eq!(info.body, "hi");
    assert!(effects.iter().any(|e| matches!(e, Effect::Command(NetworkCommand::SendDm { peer_id, .. }) if *peer_id == u2)));
    s.dm_send(dm(&u2, "there"), None, None).0.unwrap();
    let all = s.dm_get_history(GetDmHistoryParams { peer_id: u2.clone(), before: None, limit: None });
    assert_eq!(all.len(), 2);
    let last = s.dm_get_history(GetDmHistoryParams { peer_id: u2.clone(), before: None, limit: Some(1) });
    assert_eq!(last.len(), 1);
    assert_eq!(last[0].body, "there");
    assert!(s.dm_get_history(GetDmHistoryParams { peer_id: "x".to_string(), before: None, limit: None }).is_empty());
    let (r, _) = s.dm_discard(DiscardDmParams { peer_id: u2.clone(), message_id: info.id });
    assert!(r.is_ok());
    assert_eq!(s.dms.get(&u2).unwrap().len(), 1);
}

#[test]
fn direct_messages_to_strangers_are_kept() {
    let mut s = user(1);
    assert!(matches!(s.dm_send(dm("nobody-nobody", ""), None, None).0, Err(RpcError::EmptyBody)));
    let (r, effects) = s.dm_send(dm("nobody-nobody", "x"), None, None);
    assert!(r.is_ok());
    assert!(!effects.iter().any(|e| matches!(e, Effect::Command(NetworkCommand::SendDm { .. }))));
    assert_eq!(s.dms.get("nobody-nobody").unwrap().len(), 1);
    let found = DhtPeer {
        addr: NodeAddr { ip: Ip::V4(1), port: 2 },
        x25519_pk: NodeIdentity::from_signing_key_bytes(&[9; 32]).x25519_public_key_bytes(),
        display_name: "Nina".to_string(),
    };
    let (r, effects) = s.dm_send(dm("nobody-nobody", "x"), Some(found), None);
    assert!(r.is_ok());
    assert_eq!(s.dm_peer_name("nobody-nobody"), Some("Nina".to_string()));
    assert!(effects.iter().any(|e| matches!(e, Effect::Command(NetworkCommand::SendDm { peer_node_addr: Some(a), .. }) if a.port == 2)));
}

#[test]
fn a_mailbox_is_chosen_and_cleared() {
    let mut s = user(1);
    let addr = NodeAddr { ip: Ip::V4(0x0808_0808), port: 9042 };
    let mut parsed = Table::new();
    parsed.insert("8.8.8.8:9042", addr);
    let mut p = creation("Club", "");
    p.seed_nodes = vec!["8.8.8.8:9042".to_string()];
    p.seed_fingerprint_hex = Some("0c".repeat(32));
    let c = s.community_create(p, &parsed, &nowhere()).0.unwrap().id;
    let d = create_community(&mut s).id;
    let (r, effects) = s.dm_set_preferred_mailbox_community(&c, &parsed);
    assert_eq!(r.unwrap(), "8.8.8.8:9042");
    assert!(effects.iter().any(|e| matches!(e, Effect::SaveConfig)));
    assert_eq!(s.config.preferred_mailbox_node.as_deref(), Some("8.8.8.8:9042"));
    assert!(matches!(s.dm_set_preferred_mailbox_community(&d, &parsed).0, Err(RpcError::NoSeedNodes)));
    assert!(matches!(s.dm_set_preferred_mailbox_community(&c, &Table::new()).0, Err(RpcError::BadSeedAddress)));
    assert!(matches!(s.dm_set_preferred_mailbox_community("nope", &parsed).0, Err(RpcError::CommunityNotFound)));
    assert!(s.dm_clear_preferred_mailbox().0.is_ok());
    assert!(s.config.preferred_mailbox_node.is_none());
}

#[test]
fn the_identity_is_shown_and_changed() {
    let mut s = user(1);
    let c = create_community(&mut s).id;
    let info = s.identity_get();
    assert_eq!(info.peer_id, s.local.peer_id());
    assert_eq!(info.tls_fingerprint_hex, Some("ab".repeat(32)));
    let name = |n: &str| SetDisplayNameParams { display_name: n.to_string() };
    assert!(matches!(s.identity_set_display_name(name("")).0, Err(RpcError::DisplayNameLength)));
    let (r, effects) = s.identity_set_display_name(name("Ann"));
    assert!(matches!(r, Ok(true)));
    assert!(effects.iter().any(|e| matches!(e, Effect::SaveConfig)));
    assert_eq!(s.identity_get().display_name.as_deref(), Some("Ann"));
    assert_eq!(s.member_list(&c)[0].display_name, "Ann");
    let (r, effects) = s.identity_set_status(SetStatusParams { status: UserStatus::Idle });
    assert!(matches!(r, Ok(true)));
    assert_eq!(s.identity_get().status, UserStatus::Idle);
    assert!(effects.iter().any(|e| matches!(e, Effect::Push(PushEvent::PresenceChanged(d)) if d.status == "idle")));
    let (r, effects) = s.presence_heartbeat(SetStatusParams { status: UserStatus::DoNotDisturb });
    assert!(matches!(r, Ok(true)));
    assert!(effects.iter().any(|e| matches!(e, Effect::Publish { event: NetworkEvent::PresenceHeartbeat(_), .. })));
}

fn passphrases(old: &str, new: &str) -> ChangePassphraseParams {
    ChangePassphraseParams { old_passphrase: old.to_string(), new_passphrase: new.to_string() }
}

#[test]
fn passphrases_are_changed_with_the_old_one() {
    let s = user(1);
    let file = KeyStore::save(&NodeIdentity::from_signing_key_bytes(&[1; 32]), "old-pass");
    let new_file = s.identity_change_passphrase(&file, &passphrases("old-pass", "new-pass-123")).unwrap();
    assert_eq!(new_file.len(), 104);
    assert_ne!(new_file[..32].to_vec(), file[..32].to_vec());
}

#[test]
fn passphrases_are_not_changed_otherwise() {
    let s = user(1);
    let file = KeyStore::save(&NodeIdentity::from_signing_key_bytes(&[1; 32]), "old-pass");
    assert!(matches!(
        s.identity_change_passphrase(&file, &passphrases("other", "new-pass-123")),
        Err(RpcError::WrongPassphrase)
    ));
    assert!(matches!(
        s.identity_change_passphrase(&file, &passphrases("old-pass", "")),
        Err(RpcError::PassphraseLength)
    ));
}

#[test]
fn the_configuration_is_changed_field_by_field() {
    let mut s = user(1);
    let (r, effects) = s.node_set_config(SetConfigParams {
        listen_addrs: None,
        max_connections: Some(9),
        storage_limit_mb: None,
        bandwidth_limit_kbps: Some(Some(100)),
        node_mode: Some(NodeMode::HeadlessSeed),
        seed_priority: None,
        log_level: Some("debug".to_string()),
        preferred_mailbox_node: None,
    });
    assert!(matches!(r, Ok(true)));
    assert!(effects.iter().any(|e| matches!(e, Effect::SaveConfig)));
    let c = s.node_get_config();
    assert_eq!(c.max_connections, 9);
    assert_eq!(c.storage_limit_mb, 512);
    assert_eq!(c.bandwidth_limit_kbps, Some(100));
    assert_eq!(c.node_mode, NodeMode::HeadlessSeed);
    assert_eq!(c.log_level, "debug");
    assert!(s.node_get_peers().is_empty());
    assert_eq!(s.node_get_local_addrs().node_address, s.local.node_address());
}

#[test]
fn errors_have_codes_and_words() {
    assert_eq!(RpcError::CommunityNotFound.message(), "community not found");
    assert_ne!(RpcError::CommunityNotFound.code(), RpcError::NameLength.code());
}

#[test]
fn fingerprints_are_read_from_hex_digits_only() {
    assert_eq!(parse_fingerprint_hex(&"0a".repeat(32)), Some([10; 32]));
    assert_eq!(parse_fingerprint_hex(&"0A".repeat(32)), Some([10; 32]));
    assert_eq!(parse_fingerprint_hex(&"+1".repeat(32)), None);
    assert_eq!(parse_fingerprint_hex(&"0a".repeat(31)), None);
}

#[test]
fn tables_have_files() {
    assert_eq!(TableFile::Communities.file_name(), "communities.json");
    assert_eq!(TableFile::PreviousChannelKeys.file_name(), "previous_channel_keys.json");
    assert_eq!(TableFile::SeedFingerprints.file_name(), "seed_fingerprints.json");
}

#[test]
fn ids_that_are_no_ids_are_refused() {
    let mut s = user(1);
    let c = create_community(&mut s).id;
    let ch = create_channel(&mut s, &c, ChannelKindDto::Text);
    let copy = s.communities.get(&c).unwrap().clone();
    s.communities.insert("odd", copy);
    let (r, _) = s.channel_create(CreateChannelParams {
        community_id: "odd".to_string(),
        name: "x".to_string(),
        kind: ChannelKindDto::Text,
    });
    assert!(matches!(r, Err(RpcError::InvalidCommunityId)));
    s.channel_keys.insert("odd", [1; 32]);
    assert!(matches!(s.message_send(message(&c, "odd", "x")).0, Err(RpcError::InvalidChannelId)));
    let own = s.local.peer_id();
    s.message_log.append(&ch, "odd".to_string(), own, 0, [0; 24], vec![]);
    let (r, effects) = s.message_delete(DeleteMessageParams {
        community_id: c.clone(),
        channel_id: ch.clone(),
        message_id: "odd".to_string(),
    });
    assert!(matches!(r, Err(RpcError::InvalidMessageId)));
    assert!(effects.is_empty());
}

#[test]
fn messages_of_others_are_left_alone() {
    let mut s = user(1);
    let c = create_community(&mut s).id;
    let ch = create_channel(&mut s, &c, ChannelKindDto::Text);
    let id = MessageId(9).to_string();
    s.message_log.append(&ch, id.clone(), user_name(2), 0, [0; 24], vec![]);
    let (r, _) = s.message_edit(EditMessageParams {
        community_id: c.clone(),
        channel_id: ch.clone(),
        message_id: id.clone(),
        body: "x".to_string(),
    });
    assert!(matches!(r, Err(RpcError::NotTheAuthorOfEdit)));
    let (r, _) = s.message_delete(DeleteMessageParams {
        community_id: c.clone(),
        channel_id: ch.clone(),
        message_id: id.clone(),
    });
    assert!(matches!(r, Err(RpcError::NotTheAuthorOfDelete)));
    assert!(!s.message_log.get_entry(&ch, &id).unwrap().deleted);
}

#[test]
fn strangers_remove_nobody() {
    let mut s = user(1);
    let c = create_community(&mut s).id;
    let u2 = add_member(&mut s, 2, &c, vec![Role::Member]);
    let own = s.local.peer_id();
    assert!(s.take_member(&c, &own).is_some());
    assert!(matches!(s.member_kick(removal(&c, &u2)).0, Err(RpcError::NotAMember)));
}
