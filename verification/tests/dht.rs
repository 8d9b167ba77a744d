//! Walks through the routing table.

use bitcord_core::dht::kademlia::{is_closer, merge_records, rank, Candidate, Walk, MAX_ROUNDS};
use bitcord_core::network::node_addr::{Ip, NodeAddr};
use bitcord_core::network::protocol::CommunityPeerRecord;

fn node_at(n: u8) -> Candidate {
    let mut id = [0u8; 32];
    id[0] = n;
    Candidate { id, addr: NodeAddr { ip: Ip::V4(n as u32), port: 1 } }
}

fn numbers(list: &Vec<Candidate>) -> Vec<u8> {
    list.iter().map(|c| c.id[0]).collect()
}

#[test]
fn distance_is_that_of_differing_bits() {
    let target = [0u8; 32];
    assert!(is_closer(&target, &node_at(1), &node_at(2)));
    assert!(!is_closer(&target, &node_at(2), &node_at(1)));
    assert!(!is_closer(&target, &node_at(1), &node_at(1)));
    let mut target = [0u8; 32];
    target[0] = 3;
    assert!(is_closer(&target, &node_at(2), &node_at(1)));
}

#[test]
fn nearest_first_and_each_once() {
    let list = vec![node_at(5), node_at(1), node_at(5), node_at(3)];
    assert_eq!(numbers(&rank(&[0; 32], &list)), vec![1, 3, 5]);
}

#[test]
fn a_walk_asks_three_at_a_time_and_nobody_twice() {
    let mut w = Walk::new([0; 32], vec![node_at(1), node_at(2), node_at(3), node_at(4)]);
    assert_eq!(numbers(&w.next_batch()), vec![1, 2, 3]);
    let fresh = w.learn(&vec![node_at(9), node_at(1), node_at(7)]);
    assert_eq!(numbers(&fresh), vec![9, 7]);
    w.end_round();
    assert_eq!(numbers(&w.next_batch()), vec![4, 7, 9]);
    w.end_round();
    assert!(w.next_batch().is_empty());
    assert_eq!(numbers(&w.closest()), vec![1, 2, 3, 4, 7, 9]);
}

#[test]
fn a_walk_ends_after_eight_rounds() {
    let mut w = Walk::new([0; 32], vec![node_at(200)]);
    let mut rounds = 0;
    loop {
        let batch = w.next_batch();
        if batch.is_empty() {
            break;
        }
        rounds += 1;
        w.learn(&vec![node_at(200 - rounds)]);
        w.end_round();
    }
    assert_eq!(rounds as u32, MAX_ROUNDS);
    assert!(w.next_batch().is_empty());
}

fn community_record(n: u8, announced_at: u64) -> CommunityPeerRecord {
    CommunityPeerRecord { node_pk: [n; 32], addr: node_at(n).addr, announced_at }
}

#[test]
fn records_are_merged_by_node() {
    let mut out = vec![community_record(1, 10)];
    merge_records(&mut out, &vec![community_record(1, 20), community_record(2, 5), community_record(2, 6)]);
    assert_eq!(out.len(), 2);
    assert_eq!(out[0].node_pk, [1; 32]);
    assert_eq!(out[1].node_pk, [2; 32]);
    assert_eq!(out[0].announced_at, 10);
    assert_eq!(out[1].announced_at, 5);
}
