//! Frames, certificates, discovery, address finding, connections and answers.

use bitcord_core::api::event_processor::addr::{
    expand_wildcard_addr, is_publicly_routable, Interface,
};
use bitcord_core::api::local::LocalNode;
use bitcord_core::identity::{verify, NodeIdentity};
use bitcord_core::network::client::{
    after_failed_join, announce_peer, authenticate, authenticate_with, authenticated,
    fetch_manifest, find_community_peers, find_node, find_peer_info, get_dms, get_messages,
    heartbeat, is_not_found, join_community, pushed, send_dm, send_gossip, send_message,
    store_community_peer, store_dht_record, store_peer_info, ClientError, JoinRetry,
};
use bitcord_core::network::connection_manager::{Backoff, ConnState, ConnStep};
use bitcord_core::network::mdns::{
    host_name, instance_name, is_virtual_iface, pick_lan_ip, takes_part, Discovery, LanInterface,
    ResolvedService,
};
use bitcord_core::network::nat_traversal::{
    choose_external, local_ipv4, parse_stun_response, stun_request, stun_request_with, upnp_result,
    LocalIp, PortMapping,
};
use bitcord_core::network::network_handle::command::{
    discovery_cert, hosting_cert, peers_to_dial, unsigned_cert, DmRoute, Links, Registration,
    SeedPeer,
};
use bitcord_core::network::network_handle::gossip::{
    dialled, discovered, report_outcome, LinkAction, Outcome, Plan,
};
use bitcord_core::network::network_handle::push_reader::push_event;
use bitcord_core::network::network_handle::types::{CommunityRef, NetworkCommand, NetworkEvent};
use bitcord_core::network::node_addr::{Ip, NodeAddr};
use bitcord_core::network::peer_manager::PeerManager;
use bitcord_core::network::protocol::{
    encode_frame, frame_len, ClientRequest, CommunityPeerRecord, NodePush, NodeResponse,
};
use bitcord_core::network::tls::{FingerprintVerifier, NodeTlsCert};
use bitcord_core::state::message_log::LogEntry;
use bitcord_core::text::bytes_to_hex;
use sha2::{Digest, Sha256};

fn ipv4(a: u8, b: u8, c: u8, d: u8) -> u32 {
    u32::from_be_bytes([a, b, c, d])
}

fn at(a: u8, b: u8, c: u8, d: u8, port: u16) -> NodeAddr {
    NodeAddr { ip: Ip::V4(ipv4(a, b, c, d)), port }
}

fn log_entry(seq: u64) -> LogEntry {
    LogEntry {
        seq,
        nonce: [0; 24],
        ciphertext: vec![1, 2, 3],
        message_id: format!("m{}", seq),
        author_id: "a".to_string(),
        timestamp_ms: 5,
        deleted: false,
    }
}

#[test]
fn frame_encode_decode_roundtrip() {
    let payload = [9u8];
    let frame = encode_frame(&payload).unwrap();
    assert!(frame.len() >= 4);
    let head: [u8; 4] = frame[..4].try_into().unwrap();
    let len = u32::from_be_bytes(head) as usize;
    assert_eq!(frame.len(), 4 + len);
    assert_eq!(frame_len(&head), 1);
    assert_eq!(frame[4..].to_vec(), payload.to_vec());
}

#[test]
fn frames_carry_their_length_first() {
    let frame = encode_frame(&[7u8; 258]).unwrap();
    assert_eq!(frame[..4].to_vec(), vec![0, 0, 1, 2]);
    assert_eq!(frame_len(&[1, 2, 3, 4]), 0x0102_0304);
    assert_eq!(encode_frame(&[]), Some(vec![0, 0, 0, 0]));
}

#[test]
fn cert_is_deterministic() {
    let sk = NodeIdentity::generate().signing_key_bytes();
    let a = NodeTlsCert::generate(&sk).unwrap();
    let b = NodeTlsCert::generate(&sk).unwrap();
    assert_eq!(a.cert_der, b.cert_der);
    assert_eq!(a.fingerprint, b.fingerprint);
}

#[test]
fn different_keys_give_different_fingerprints() {
    let a = NodeTlsCert::generate(&NodeIdentity::generate().signing_key_bytes()).unwrap();
    let b = NodeTlsCert::generate(&NodeIdentity::generate().signing_key_bytes()).unwrap();
    assert_ne!(a.fingerprint, b.fingerprint);
}

#[test]
fn fingerprint_matches_sha256_of_cert_der() {
    let cert = NodeTlsCert::generate(&NodeIdentity::generate().signing_key_bytes()).unwrap();
    let computed: [u8; 32] = Sha256::digest(&cert.cert_der).into();
    assert_eq!(cert.fingerprint, computed);
}

#[test]
fn verifier_rejects_mismatched_fingerprint() {
    let cert = NodeTlsCert::generate(&NodeIdentity::generate().signing_key_bytes()).unwrap();
    let verifier = FingerprintVerifier::new([0xABu8; 32]);
    assert!(!verifier.verify_server_cert(&cert.cert_der), "should reject mismatched fingerprint");
}

#[test]
fn verifier_accepts_correct_fingerprint() {
    let cert = NodeTlsCert::generate(&NodeIdentity::generate().signing_key_bytes()).unwrap();
    let verifier = FingerprintVerifier::new(cert.fingerprint);
    assert!(verifier.verify_server_cert(&cert.cert_der), "should accept correct fingerprint");
}

#[test]
fn verifier_accepts_tofu_all_zeros() {
    let cert = NodeTlsCert::generate(&NodeIdentity::generate().signing_key_bytes()).unwrap();
    let verifier = FingerprintVerifier::new([0u8; 32]);
    assert!(
        verifier.verify_server_cert(&cert.cert_der),
        "all-zeros fingerprint (TOFU) should accept any certificate"
    );
}

#[test]
fn the_key_of_a_certificate_is_in_pkcs8_form() {
    let cert = NodeTlsCert::generate(&[7; 32]).unwrap();
    assert!(cert.key_der.windows(32).any(|w| w == [7u8; 32]));
    assert!(cert.key_der.len() > 32);
    assert!(cert.cert_der.windows(12).any(|w| w == b"bitcord-node"));
}

/// An answer with one attribute.
fn answer(txid: &[u8; 12], kind: u16, data: &[u8]) -> Vec<u8> {
    let mut buf = vec![0x01, 0x01];
    buf.extend_from_slice(&(4 + data.len() as u16).to_be_bytes());
    buf.extend_from_slice(&[0x21, 0x12, 0xA4, 0x42]);
    buf.extend_from_slice(txid);
    buf.extend_from_slice(&kind.to_be_bytes());
    buf.extend_from_slice(&(data.len() as u16).to_be_bytes());
    buf.extend_from_slice(data);
    buf
}

#[test]
fn binding_requests_carry_the_transaction() {
    let (req, txid) = stun_request();
    assert_eq!(req, stun_request_with(&txid));
    assert_eq!(req[..8].to_vec(), vec![0, 1, 0, 0, 0x21, 0x12, 0xA4, 0x42]);
    assert_eq!(req[8..].to_vec(), txid.to_vec());
    assert_ne!(stun_request().1, stun_request().1);
}

#[test]
fn masked_addresses_are_unmasked() {
    let txid = [5u8; 12];
    let data = [0, 1, 0x90 ^ 0x21, 0x42 ^ 0x12, 203 ^ 0x21, 0x12, 113 ^ 0xA4, 9 ^ 0x42];
    let buf = answer(&txid, 0x0020, &data);
    assert_eq!(parse_stun_response(&buf, &txid), Some(at(203, 0, 113, 9, 0x9042)));
}

#[test]
fn plain_addresses_are_read_too() {
    let txid = [5u8; 12];
    let buf = answer(&txid, 0x0001, &[0, 1, 0x23, 0x52, 203, 0, 113, 9]);
    assert_eq!(parse_stun_response(&buf, &txid), Some(at(203, 0, 113, 9, 9042)));
}

#[test]
fn answers_to_other_requests_are_ignored() {
    let txid = [5u8; 12];
    let mut buf = answer(&txid, 0x0001, &[0, 1, 0x23, 0x52, 203, 0, 113, 9]);
    assert_eq!(parse_stun_response(&buf, &[6; 12]), None);
    assert_eq!(parse_stun_response(&buf[..19], &txid), None);
    assert_eq!(parse_stun_response(&buf[..22], &txid), None);
    let other = answer(&txid, 0x8022, b"soft");
    assert_eq!(parse_stun_response(&other, &txid), None);
    buf[4] = 0;
    assert_eq!(parse_stun_response(&buf, &txid), None);
}

#[test]
fn a_port_mapping_goes_before_a_reported_address() {
    let mapped = upnp_result(ipv4(1, 2, 3, 4), PortMapping::Added, 9042);
    assert_eq!(mapped, Some(at(1, 2, 3, 4, 9042)));
    assert_eq!(upnp_result(ipv4(1, 2, 3, 4), PortMapping::InUse, 9042), mapped);
    assert_eq!(upnp_result(ipv4(1, 2, 3, 4), PortMapping::Failed, 9042), None);
    let reported = Some(at(5, 6, 7, 8, 4000));
    assert_eq!(choose_external(mapped, reported, 9042), mapped);
    assert_eq!(choose_external(None, reported, 9042), Some(at(5, 6, 7, 8, 9042)));
    assert_eq!(choose_external(None, None, 9042), None);
}

#[test]
fn the_gateway_is_asked_from_an_ordinary_address() {
    let list = vec![
        LocalIp { is_loopback: true, ip: Ip::V4(ipv4(127, 0, 0, 1)) },
        LocalIp { is_loopback: false, ip: Ip::V6(1) },
        LocalIp { is_loopback: false, ip: Ip::V4(ipv4(169, 254, 1, 1)) },
        LocalIp { is_loopback: false, ip: Ip::V4(ipv4(10, 0, 0, 7)) },
    ];
    assert_eq!(local_ipv4(&list), Some(ipv4(10, 0, 0, 7)));
    assert_eq!(local_ipv4(&vec![]), None);
}

fn lan(name: &str, a: u8, b: u8, c: u8, d: u8) -> LanInterface {
    LanInterface { name: name.to_string(), is_loopback: false, ip: Ip::V4(ipv4(a, b, c, d)) }
}

#[test]
fn tunnels_are_told_by_name_whatever_its_case() {
    assert!(is_virtual_iface("tun0"));
    assert!(is_virtual_iface("my vpn adapter"));
    assert!(is_virtual_iface("vethernet (default switch)"));
    assert!(!is_virtual_iface("eth0"));
    assert_eq!(pick_lan_ip(&vec![lan("TUN0", 10, 0, 0, 1)]), None);
    assert_eq!(pick_lan_ip(&vec![lan("NordLynx", 10, 0, 0, 1)]), None);
    assert_eq!(pick_lan_ip(&vec![lan("Ethernet", 10, 0, 0, 1)]), Some(ipv4(10, 0, 0, 1)));
}

#[test]
fn home_networks_go_first() {
    let list = vec![
        lan("eth1", 8, 8, 8, 8),
        lan("eth0", 10, 0, 0, 1),
        lan("eth2", 172, 16, 0, 1),
        lan("wlan0", 192, 168, 1, 5),
        lan("wlan1", 192, 168, 1, 6),
    ];
    assert_eq!(pick_lan_ip(&list), Some(ipv4(192, 168, 1, 5)));
    let loopback = LanInterface { name: "lo".to_string(), is_loopback: true, ip: Ip::V4(ipv4(10, 0, 0, 1)) };
    assert_eq!(pick_lan_ip(&vec![loopback]), None);
}

#[test]
fn services_are_named_after_the_key() {
    let pk = "0123456789abcdef0123";
    assert_eq!(instance_name(pk), "bitcord-0123456789abcdef");
    assert_eq!(host_name(pk), "0123456789abcdef.local.");
    assert!(takes_part(false));
    assert!(!takes_part(true));
}

fn service(pk: Option<&str>, name: &str) -> ResolvedService {
    ResolvedService {
        peer_pk: pk.map(|s| s.to_string()),
        fullname: name.to_string(),
        port: 9042,
        addresses: vec![Ip::V6(1), Ip::V4(ipv4(192, 168, 1, 7))],
    }
}

#[test]
fn peers_of_the_local_network_are_dialled_once() {
    let mut d = Discovery::new("own".to_string());
    assert!(d.service_resolved(service(Some("own"), "me")).is_none());
    assert!(d.service_resolved(service(None, "nobody")).is_none());
    match d.service_resolved(service(Some("peer"), "p")) {
        Some(NetworkCommand::Dial { addr, is_seed, join_community, cert_fingerprint, .. }) => {
            assert_eq!(addr, at(192, 168, 1, 7, 9042));
            assert!(!is_seed);
            assert!(join_community.is_none());
            assert_eq!(cert_fingerprint, [0; 32]);
        }
        _ => panic!("must dial"),
    }
    assert!(d.service_resolved(service(Some("peer"), "p")).is_none());
    d.service_removed("p");
    assert!(d.service_resolved(service(Some("peer"), "p")).is_some());
}

#[test]
fn connections_are_made_once_and_stay_down() {
    let mut s = ConnState::Fresh;
    assert_eq!(s.use_connection(false), ConnStep::Connect);
    s.connected();
    assert_eq!(s.use_connection(false), ConnStep::Use);
    assert_eq!(s.use_connection(true), ConnStep::Refuse);
    assert_eq!(s, ConnState::Down);
    assert_eq!(s.use_connection(false), ConnStep::Refuse);
    s.connected();
    s.lost();
    assert_eq!(s, ConnState::Down);
}

#[test]
fn delays_double_up_to_the_cap() {
    let mut b = Backoff::for_node();
    let mut delays = Vec::new();
    for _ in 0..11 {
        delays.push(b.next_delay());
    }
    assert_eq!(
        delays,
        vec![100, 200, 400, 800, 1600, 3200, 6400, 12800, 25600, 30000, 30000]
    );
    let mut b = Backoff::for_seed();
    let mut delays = Vec::new();
    for _ in 0..8 {
        delays.push(b.next_delay());
    }
    assert_eq!(delays, vec![5, 10, 20, 40, 80, 160, 300, 300]);
    let mut b = Backoff { delay: u64::MAX - 1, cap: u64::MAX };
    b.next_delay();
    assert_eq!(b.delay, u64::MAX);
}

#[test]
fn attempts_end() {
    let mut b = Backoff::for_node();
    assert_eq!(b.after_failure(1, 3), Some(100));
    assert_eq!(b.after_failure(2, 3), Some(200));
    assert_eq!(b.after_failure(3, 3), None);
    assert_eq!(b.delay, 400);
}

#[test]
fn nodes_prove_their_key_with_a_signed_nonce() {
    let id = NodeIdentity::generate();
    match authenticate_with(&id.signing_key_bytes(), [8; 32]) {
        ClientRequest::Authenticate { pk, sig_r, sig_s, nonce } => {
            assert_eq!(pk, *id.verifying_key());
            assert_eq!(nonce, [8; 32]);
            let mut sig = [0u8; 64];
            sig[..32].copy_from_slice(&sig_r);
            sig[32..].copy_from_slice(&sig_s);
            assert!(verify(&pk, &nonce, &sig));
        }
        _ => panic!("wrong variant"),
    }
    match (authenticate(&[1; 32]), authenticate(&[1; 32])) {
        (ClientRequest::Authenticate { nonce: a, .. }, ClientRequest::Authenticate { nonce: b, .. }) => {
            assert_ne!(a, b);
        }
        _ => panic!("wrong variant"),
    }
}

#[test]
fn announcements_sign_id_key_and_address() {
    let id = NodeIdentity::generate();
    let req = announce_peer(
        &id.signing_key_bytes(),
        [1; 32],
        [2; 32],
        at(1, 2, 3, 4, 5),
        &[3, 3],
        "Ann".to_string(),
    );
    match req {
        ClientRequest::StorePeerInfo { peer_id, ed25519_pk, x25519_pk, addr, display_name, sig_r, sig_s } => {
            assert_eq!(peer_id, [1; 32]);
            assert_eq!(x25519_pk, [2; 32]);
            assert_eq!(addr, at(1, 2, 3, 4, 5));
            assert_eq!(display_name, "Ann");
            let mut msg = vec![1u8; 32];
            msg.extend_from_slice(&[2u8; 32]);
            msg.extend_from_slice(&[3, 3]);
            let mut sig = [0u8; 64];
            sig[..32].copy_from_slice(&sig_r);
            sig[32..].copy_from_slice(&sig_s);
            assert!(verify(&ed25519_pk, &msg, &sig));
        }
        _ => panic!("wrong variant"),
    }
}

fn refusal(code: u16) -> NodeResponse {
    NodeResponse::Error { code, msg: "no".to_string() }
}

fn refused<T>(r: Result<T, ClientError>) -> bool {
    matches!(r, Err(ClientError::Refused { code: 403, ref msg }) if msg == "no")
}

fn unexpected<T>(r: Result<T, ClientError>) -> bool {
    matches!(r, Err(ClientError::Unexpected))
}

#[test]
fn expected_answers_are_accepted() {
    assert!(matches!(authenticated(NodeResponse::Authenticated { pk: [4; 32] }), Ok(pk) if pk == [4; 32]));
    assert!(join_community(NodeResponse::Authenticated { pk: [4; 32] }).is_ok());
    assert!(matches!(send_message(NodeResponse::MessageAck { seq: 7 }), Ok(7)));
    assert!(matches!(get_messages(NodeResponse::Messages { entries: vec![log_entry(1)] }), Ok(v) if v.len() == 1));
    assert!(matches!(send_dm(NodeResponse::DmAck { seq: 8 }), Ok(8)));
    assert!(matches!(get_dms(NodeResponse::Dms { entries: vec![log_entry(1)] }), Ok(v) if v[0].message_id == "m1"));
    let found = find_node(NodeResponse::ClosestPeers {
        peers: vec![([1; 32], at(1, 1, 1, 1, 1))],
        mailbox: Some(at(2, 2, 2, 2, 2)),
    });
    assert!(matches!(found, Ok(n) if n.peers.len() == 1 && n.mailbox == Some(at(2, 2, 2, 2, 2))));
    assert!(store_dht_record(NodeResponse::DhtAck).is_ok());
    assert!(store_community_peer(NodeResponse::CommunityPeerAck).is_ok());
    let record = CommunityPeerRecord { node_pk: [1; 32], addr: at(1, 1, 1, 1, 1), announced_at: 3 };
    assert!(matches!(find_community_peers(NodeResponse::CommunityPeers(vec![record])), Ok(v) if v[0].announced_at == 3));
    assert!(store_peer_info(NodeResponse::PeerInfoAck).is_ok());
    assert!(send_gossip(NodeResponse::GossipAck).is_ok());
    assert!(heartbeat(NodeResponse::DhtAck).is_ok());
    assert!(pushed(NodeResponse::PushAck).is_ok());
}

#[test]
fn other_answers_are_errors() {
    assert!(refused(authenticated(refusal(403))) && unexpected(authenticated(NodeResponse::DhtAck)));
    assert!(refused(join_community(refusal(403))) && unexpected(join_community(NodeResponse::DhtAck)));
    assert!(refused(fetch_manifest(refusal(403))) && unexpected(fetch_manifest(NodeResponse::DhtAck)));
    assert!(refused(send_message(refusal(403))) && unexpected(send_message(NodeResponse::DhtAck)));
    assert!(refused(get_messages(refusal(403))) && unexpected(get_messages(NodeResponse::DhtAck)));
    assert!(refused(send_dm(refusal(403))) && unexpected(send_dm(NodeResponse::DhtAck)));
    assert!(refused(get_dms(refusal(403))) && unexpected(get_dms(NodeResponse::DhtAck)));
    assert!(refused(find_node(refusal(403))) && unexpected(find_node(NodeResponse::DhtAck)));
    assert!(refused(store_dht_record(refusal(403))) && unexpected(store_dht_record(NodeResponse::PushAck)));
    assert!(refused(store_community_peer(refusal(403))) && unexpected(store_community_peer(NodeResponse::PushAck)));
    assert!(refused(find_community_peers(refusal(403))) && unexpected(find_community_peers(NodeResponse::PushAck)));
    assert!(refused(store_peer_info(refusal(403))) && unexpected(store_peer_info(NodeResponse::PushAck)));
    assert!(refused(send_gossip(refusal(403))) && unexpected(send_gossip(NodeResponse::PushAck)));
    assert!(refused(heartbeat(refusal(403))));
    assert!(refused(pushed(refusal(403))) && unexpected(pushed(NodeResponse::DhtAck)));
}

#[test]
fn an_unknown_peer_is_no_error() {
    assert!(matches!(find_peer_info(refusal(404), 9), Ok(None)));
    assert!(refused(find_peer_info(refusal(403), 9)));
    assert!(unexpected(find_peer_info(NodeResponse::DhtAck, 9)));
    let found = find_peer_info(
        NodeResponse::PeerInfo { x25519_pk: [6; 32], addr: at(1, 1, 1, 1, 1), display_name: "B".to_string() },
        9,
    );
    assert!(matches!(found, Ok(Some(p)) if p.announced_at == 9 && p.x25519_pk == [6; 32] && p.display_name == "B"));
}

#[test]
fn errors_are_reported_in_words() {
    let e = ClientError::Refused { code: 404, msg: "manifest missing".to_string() };
    let text = e.report("fetch_manifest");
    assert_eq!(text, "fetch_manifest failed (code=404): manifest missing");
    assert!(is_not_found(&text));
    assert!(is_not_found("it was not found"));
    assert!(!is_not_found("timed out"));
    assert_eq!(ClientError::Unexpected.report("auth"), "unexpected auth response");
}

#[test]
fn joins_are_tried_again_only_when_that_helps() {
    assert_eq!(after_failed_join("failed (code=403): not yet", 1), JoinRetry::Again);
    assert_eq!(after_failed_join("failed (code=403): not yet", 15), JoinRetry::GiveUp);
    assert_eq!(after_failed_join("code=403: invalid node join password", 1), JoinRetry::GiveUp);
    assert_eq!(after_failed_join("timed out", 1), JoinRetry::GiveUp);
}

fn seed(join: Option<&str>) -> SeedPeer {
    SeedPeer {
        addr: at(9, 9, 9, 9, 9042),
        join_community: join.map(|id| CommunityRef { pk: [3; 32], id: id.to_string() }),
        password: None,
        cert_fingerprint: [0; 32],
    }
}

fn registration(peer: &str, node_pk: [u8; 32], is_seed: bool, join: Option<&str>) -> Registration {
    Registration { peer_id: peer.to_string(), node_pk, is_seed, seed: seed(join) }
}

#[test]
fn a_second_connection_to_a_peer_is_dropped() {
    let (mut links, events) = Links::new(vec!["0.0.0.0:1".to_string(), "0.0.0.0:1".to_string()]);
    assert_eq!(events.len(), 2);
    assert_eq!(links.own_addrs.len(), 1);
    let (kept, events) = links.register(registration("p", [1; 32], false, Some("c")));
    assert!(kept);
    assert!(matches!(events[0], NetworkEvent::PeerAddrKnown { node_pk, .. } if node_pk == [1; 32]));
    assert!(matches!(events[1], NetworkEvent::PeerConnected { ref peer_id, ref community_id }
        if peer_id == "p" && community_id == "c"));
    let (kept, events) = links.register(registration("p", [1; 32], false, Some("c")));
    assert!(!kept && events.is_empty());
    let (kept, events) = links.register(registration("p", [1; 32], true, Some("c")));
    assert!(!kept && events.len() == 1);
    assert_eq!(links.peers, vec!["p".to_string()]);
}

#[test]
fn lost_seeds_are_reached_again() {
    let (mut links, _) = Links::new(vec![]);
    links.register(registration("s", [1; 32], true, Some("c")));
    links.register(registration("l", [2; 32], false, None));
    let (events, again) = links.peers_lost(&vec!["s".to_string(), "l".to_string()]);
    assert_eq!(events.len(), 3);
    assert!(matches!(events[0], NetworkEvent::PeerDisconnected(ref p) if p == "s"));
    assert!(matches!(events[1], NetworkEvent::SeedPeerDisconnected { ref community_id } if community_id == "c"));
    assert!(matches!(events[2], NetworkEvent::PeerDisconnected(ref p) if p == "l"));
    assert_eq!(again.len(), 1);
    assert_eq!(again[0].addr, at(9, 9, 9, 9, 9042));
    assert!(links.peers.is_empty());
    assert_eq!(links.by_user.len(), 0);
}

#[test]
fn direct_messages_take_the_shortest_way() {
    let (mut links, _) = Links::new(vec![]);
    links.register(registration("peer", [1; 32], false, Some("c")));
    let user = bytes_to_hex(&Sha256::digest([1u8; 32]));
    let mailbox = Some(at(1, 1, 1, 1, 1));
    let direct = Some(at(2, 2, 2, 2, 2));
    assert!(matches!(links.route_dm(&user, mailbox, direct), DmRoute::Peer(p) if p == "peer"));
    assert!(matches!(links.route_dm("peer", mailbox, direct), DmRoute::Peer(p) if p == "peer"));
    assert!(matches!(links.route_dm("x", mailbox, direct), DmRoute::Mailbox(a) if Some(a) == mailbox));
    assert!(matches!(links.route_dm("x", None, direct), DmRoute::Direct(a) if Some(a) == direct));
    assert!(matches!(links.route_dm("x", None, None), DmRoute::Unreachable));
}

#[test]
fn a_node_that_is_its_own_seed_counts_as_connected() {
    let (mut links, _) = Links::new(vec![]);
    let join = Some(CommunityRef { pk: [3; 32], id: "c".to_string() });
    let f = links.dial_failed(true, "1.2.3.4:9042", &join);
    assert!(f.reconnect);
    assert!(matches!(f.events[0], NetworkEvent::SeedPeerDisconnected { .. }));
    assert!(links.keep_trying("1.2.3.4:9042"));
    assert!(matches!(links.add_listen_addr("1.2.3.4:9042".to_string()), NetworkEvent::NewListenAddr(_)));
    let f = links.dial_failed(true, "1.2.3.4:9042", &join);
    assert!(!f.reconnect);
    assert!(matches!(f.events[0], NetworkEvent::SeedPeerConnected { ref peer_id, .. } if peer_id.is_empty()));
    assert!(!links.keep_trying("1.2.3.4:9042"));
    let f = links.dial_failed(false, "5.5.5.5:1", &join);
    assert!(!f.reconnect && f.events.is_empty());
}

#[test]
fn only_creators_sign_hosting_certificates() {
    let local = LocalNode::new(&[4; 32]);
    let own = local.public_key();
    let cert = hosting_cert(&local, [1; 32], &own).unwrap();
    assert_eq!(cert.verify_at(&own, u64::MAX), Ok(()));
    assert!(hosting_cert(&local, [1; 32], &[9; 32]).is_none());
    let bare = unsigned_cert([1; 32], [9; 32]);
    assert_eq!(bare.signature, [0; 64]);
    assert_eq!(bare.expires_at, u64::MAX);
    assert_eq!(discovery_cert(&local, [1; 32], own).signature, cert.signature);
    assert_eq!(discovery_cert(&local, [1; 32], [9; 32]).signature, [0; 64]);
}

#[test]
fn a_node_does_not_dial_itself() {
    let list = vec![([1; 32], at(1, 1, 1, 1, 1)), ([2; 32], at(2, 2, 2, 2, 2))];
    assert_eq!(peers_to_dial(&list, &[1; 32]), vec![at(2, 2, 2, 2, 2)]);
}

#[test]
fn own_messages_that_come_back_are_dropped() {
    let push = |source: &str| NodePush::GossipMessage {
        topic: "t".to_string(),
        source: source.to_string(),
        data: vec![1],
    };
    assert!(push_event(push("me"), "me").is_none());
    assert!(matches!(push_event(push("you"), "me"),
        Some(NetworkEvent::MessageReceived { topic, source, data })
        if topic == "t" && source.as_deref() == Some("you") && data == vec![1]));
    let dm = NodePush::NewDm { entry: log_entry(3), recipient_pk: [2; 32] };
    assert!(matches!(push_event(dm, "me"), Some(NetworkEvent::DmReceived { entry, .. }) if entry.seq == 3));
    assert!(push_event(NodePush::Presence { user_pk: [0; 32], status: 1 }, "me").is_none());
}

fn interface(text: &str, is_v4: bool, is_loopback: bool) -> Interface {
    Interface { is_loopback, is_v4, text: text.to_string() }
}

#[test]
fn wildcards_stand_for_every_interface() {
    let list = Some(vec![
        interface("127.0.0.1", true, true),
        interface("10.0.0.5", true, false),
        interface("fe80::1", false, false),
    ]);
    assert_eq!(
        expand_wildcard_addr("0.0.0.0:9042", &list),
        vec!["10.0.0.5:9042".to_string(), "127.0.0.1:9042".to_string()]
    );
    assert_eq!(expand_wildcard_addr("[::]:9042", &list), vec!["[fe80::1]:9042".to_string()]);
    assert_eq!(expand_wildcard_addr("[::]:9042", &Some(vec![])), vec!["[::]:9042".to_string()]);
    assert_eq!(expand_wildcard_addr("1.2.3.4:1", &list), vec!["1.2.3.4:1".to_string()]);
    assert_eq!(expand_wildcard_addr("0.0.0.0:1", &None), vec!["0.0.0.0:1".to_string()]);
}

#[test]
fn public_addresses_are_told_from_private_ones() {
    assert!(is_publicly_routable(at(8, 8, 8, 8, 1)));
    assert!(!is_publicly_routable(at(127, 0, 0, 1, 1)));
    assert!(!is_publicly_routable(at(10, 0, 0, 1, 1)));
    assert!(!is_publicly_routable(at(172, 31, 0, 1, 1)));
    assert!(is_publicly_routable(at(172, 32, 0, 1, 1)));
    assert!(!is_publicly_routable(at(192, 168, 0, 1, 1)));
    assert!(!is_publicly_routable(at(169, 254, 0, 1, 1)));
    assert!(!is_publicly_routable(at(0, 0, 0, 0, 1)));
    assert!(!is_publicly_routable(NodeAddr { ip: Ip::V6(1), port: 1 }));
}

#[test]
fn the_peer_with_the_worst_reputation_goes_first() {
    let mut m = PeerManager::new(1);
    assert!(!m.is_at_limit());
    m.peer_connected("a".to_string(), vec![at(1, 1, 1, 1, 1)]);
    assert!(m.is_at_limit());
    assert_eq!(m.evict_candidate(), None);
    m.peer_connected("b".to_string(), vec![]);
    m.peer_connected("a".to_string(), vec![]);
    assert_eq!(m.connected_count(), 2);
    assert_eq!(m.get("a").unwrap().addresses.len(), 1);
    m.adjust_reputation("a", -10);
    assert_eq!(m.evict_candidate(), Some("a".to_string()));
    m.adjust_reputation("a", i32::MAX);
    assert_eq!(m.get("a").unwrap().reputation, 100);
    m.adjust_reputation("a", i32::MIN);
    assert_eq!(m.get("a").unwrap().reputation, 0);
    m.set_relay_capable("b", true);
    m.record_latency("b", std::time::Duration::from_millis(5));
    assert!(m.get("b").unwrap().relay_capable);
    assert_eq!(m.get("b").unwrap().latency, Some(std::time::Duration::from_millis(5)));
    assert_eq!(m.iter().len(), 2);
    m.peer_disconnected("b");
    assert!(m.get("b").is_none());
}

fn planned(links: &mut Links, cmd: NetworkCommand) -> Plan {
    links.handle_command(&[7; 32], cmd)
}

#[test]
fn publications_go_to_every_peer_and_to_own_clients() {
    let (mut links, _) = Links::new(vec![]);
    links.register(registration("p", [1; 32], false, None));
    links.register(registration("q", [2; 32], false, None));
    let plan = planned(&mut links, NetworkCommand::Publish { topic: "t".to_string(), data: vec![5] });
    assert!(plan.go_on);
    assert_eq!(plan.actions.len(), 2);
    assert!(matches!(plan.actions[0], LinkAction::Gossip { ref peers, ref topic, ref data }
        if *peers == vec!["p".to_string(), "q".to_string()] && topic == "t" && *data == vec![5]));
    assert!(matches!(plan.actions[1], LinkAction::Broadcast { ref source, .. } if *source == "07".repeat(32)));
}

#[test]
fn peers_that_are_not_connected_are_not_asked() {
    let (mut links, _) = Links::new(vec![]);
    let manifest = || NetworkCommand::FetchManifest {
        peer_id: "p".to_string(),
        community_id: "c".to_string(),
        community_pk: [3; 32],
    };
    let history = |channel: &str| NetworkCommand::FetchChannelHistory {
        peer_id: "p".to_string(),
        community_id: "c".to_string(),
        community_pk: [3; 32],
        channel_id: channel.to_string(),
        since_seq: 4,
    };
    let id = "00000000000000000000000010";
    assert!(planned(&mut links, manifest()).actions.is_empty());
    assert!(planned(&mut links, history(id)).actions.is_empty());
    assert!(planned(&mut links, NetworkCommand::FetchMailbox { peer_id: "p".to_string() }).actions.is_empty());
    links.register(registration("p", [1; 32], false, None));
    assert!(matches!(planned(&mut links, manifest()).actions[0], LinkAction::FetchManifest { ref community, .. }
        if community.pk == [3; 32] && community.id == "c"));
    assert!(planned(&mut links, history("no channel")).actions.is_empty());
    match &planned(&mut links, history(id)).actions[0] {
        LinkAction::FetchHistory { cert, channel, channel_id, since_seq, .. } => {
            assert_eq!(channel.0, 32);
            assert_eq!(channel_id, id);
            assert_eq!(*since_seq, 4);
            assert_eq!(cert.community_pk, [3; 32]);
            assert_eq!(cert.node_pk, [0; 32]);
        }
        _ => panic!("wrong action"),
    }
    assert!(matches!(
        planned(&mut links, NetworkCommand::FetchMailbox { peer_id: "p".to_string() }).actions[0],
        LinkAction::FetchMailbox { .. }
    ));
}

#[test]
fn unreachable_recipients_are_reported() {
    let (mut links, _) = Links::new(vec![]);
    let envelope = || bitcord_core::crypto::dm::DmEnvelope {
        sender_pk: [0; 32],
        ephem_pk: [0; 32],
        nonce: [0; 24],
        ciphertext: vec![],
    };
    let send = |mailbox_addr: Option<NodeAddr>| NetworkCommand::SendDm {
        peer_id: "u".to_string(),
        message_id: "m".to_string(),
        recipient_x25519_pk: [9; 32],
        envelope: envelope(),
        mailbox_addr,
        peer_node_addr: None,
    };
    let plan = planned(&mut links, send(None));
    assert!(plan.actions.is_empty());
    assert!(matches!(plan.events[0], NetworkEvent::DmSendFailed { ref message_id, .. } if message_id == "m"));
    let plan = planned(&mut links, send(Some(at(1, 1, 1, 1, 1))));
    assert!(plan.events.is_empty());
    assert!(matches!(plan.actions[0], LinkAction::SendDm { route: DmRoute::Mailbox(_), .. }));
}

#[test]
fn other_commands() {
    let (mut links, _) = Links::new(vec![]);
    let plan = planned(&mut links, NetworkCommand::AddListenAddr("a:1".to_string()));
    assert!(matches!(plan.events[0], NetworkEvent::NewListenAddr(ref a) if a == "a:1"));
    assert_eq!(links.own_addrs, vec!["a:1".to_string()]);
    let joined = CommunityRef { pk: [3; 32], id: "c".to_string() };
    let plan = planned(&mut links, NetworkCommand::NotifyCommunityJoined(joined));
    assert!(matches!(plan.events[0], NetworkEvent::CommunityJoined(ref c) if c.id == "c"));
    let found = vec![([7; 32], at(1, 1, 1, 1, 1)), ([8; 32], at(2, 2, 2, 2, 2))];
    let plan = planned(&mut links, NetworkCommand::DiscoverAndDial {
        peers: found,
        community_pk: [3; 32],
        community_id: "c".to_string(),
    });
    assert_eq!(plan.actions.len(), 1);
    assert!(matches!(plan.actions[0], LinkAction::Discover { addr, .. } if addr == at(2, 2, 2, 2, 2)));
    let dial = NetworkCommand::Dial {
        addr: at(1, 1, 1, 1, 1),
        is_seed: true,
        join_community: None,
        join_community_password: Some("pw".to_string()),
        cert_fingerprint: [4; 32],
    };
    assert!(matches!(planned(&mut links, dial).actions[0], LinkAction::Dial { is_seed: true, ref seed }
        if seed.cert_fingerprint == [4; 32] && seed.password.as_deref() == Some("pw")));
    assert!(planned(&mut links, NetworkCommand::Subscribe("t".to_string())).go_on);
    assert!(!planned(&mut links, NetworkCommand::Shutdown).go_on);
}

#[test]
fn seeds_are_asked_to_host_by_the_creator_only() {
    let local = LocalNode::new(&[4; 32]);
    let mut own = seed(Some("c"));
    own.join_community = Some(CommunityRef { pk: local.public_key(), id: "c".to_string() });
    own.password = Some("pw".to_string());
    let (reg, join) = dialled(&local, [1; 32], true, own);
    assert_eq!(reg.peer_id, "01".repeat(32));
    let join = join.unwrap();
    assert_eq!(join.community_id, "c");
    assert_eq!(join.password.as_deref(), Some("pw"));
    assert_eq!(join.cert.verify_at(&local.public_key(), u64::MAX), Ok(()));
    assert!(dialled(&local, [1; 32], true, seed(Some("c"))).1.is_none());
    assert!(dialled(&local, [1; 32], true, seed(None)).1.is_none());
    let community = CommunityRef { pk: [3; 32], id: "c".to_string() };
    let (reg, join) = discovered(&local, [1; 32], at(1, 1, 1, 1, 1), community);
    assert!(!reg.is_seed);
    assert_eq!(join.cert.signature, [0; 64]);
    assert!(join.password.is_none());
}

#[test]
fn outcomes_are_reported() {
    let refused = |error: &str| Outcome::ManifestRefused {
        peer_id: "p".to_string(),
        community_id: "c".to_string(),
        error: error.to_string(),
    };
    assert!(matches!(report_outcome(refused("code=404"), [9; 32])[0], NetworkEvent::ManifestNotFound { .. }));
    assert!(report_outcome(refused("timed out"), [9; 32]).is_empty());
    let mail = report_outcome(Outcome::MailboxServed { entries: vec![log_entry(1), log_entry(2)] }, [9; 32]);
    assert_eq!(mail.len(), 2);
    assert!(matches!(mail[1], NetworkEvent::DmReceived { ref entry, recipient_pk } if entry.seq == 2 && recipient_pk == [9; 32]));
    let failed = Outcome::JoinRefused { community_id: "c".to_string(), reason: "no".to_string() };
    assert!(matches!(report_outcome(failed, [9; 32])[0], NetworkEvent::CommunityJoinFailed { ref reason, .. } if reason == "no"));
    let lost = Outcome::DmNotSent { peer_id: "p".to_string(), message_id: "m".to_string() };
    assert!(matches!(report_outcome(lost, [9; 32])[0], NetworkEvent::DmSendFailed { .. }));
    let history = Outcome::HistoryServed {
        community_id: "c".to_string(),
        channel_id: "h".to_string(),
        entries: vec![log_entry(1)],
    };
    assert!(matches!(report_outcome(history, [9; 32])[0], NetworkEvent::ChannelHistoryReceived { ref entries, .. } if entries.len() == 1));
}
