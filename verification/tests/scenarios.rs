//! Whole-protocol scenarios on a simulated network: messages produced by
//! the pure handlers are delivered between in-memory nodes.

use chord_dht::chord;
use chord_dht::chord::StabilizeAction;
use chord_dht::node::Node;
use chord_dht::node::OtherNode;
use chord_dht::protocols::Outbound;
use chord_dht::protocols::Response;
use chord_dht::storage::DHTEntry;

const M: usize = 6;

fn peer(id: u64) -> OtherNode {
    OtherNode::new(id, format!("10.0.0.{}:4000", id))
}

fn entry(key: &str, value: &str) -> DHTEntry {
    DHTEntry { key: key.to_string(), value: value.to_string() }
}

/// Deliver queued messages until quiescence; messages to unreachable
/// addresses are dropped, as a failed send would be.
fn drain(nodes: &mut Vec<Node>, queue: &mut Vec<Outbound>) {
    while !queue.is_empty() {
        let ob = queue.remove(0);
        let target = nodes.iter().position(|n| n.ip_addr == ob.dest);
        if let Some(i) = target {
            let outcome = nodes[i].process_incoming_message(ob.message);
            assert!(!outcome.shutdown);
            if let Some(reply) = outcome.reply {
                queue.push(reply);
            }
            if let Some(extra) = outcome.extra {
                queue.push(extra);
            }
        }
    }
}

/// One maintenance tick on every node.  Check-predecessor runs at twice
/// the stabilize rate, so dead predecessors are cleared first; then each
/// node stabilizes with real liveness flags and fixes one finger.
fn tick(nodes: &mut Vec<Node>, queue: &mut Vec<Outbound>) {
    let addrs: Vec<String> = nodes.iter().map(|n| n.ip_addr.clone()).collect();
    for i in 0..nodes.len() {
        let pred_alive = match nodes[i].get_predecessor() {
            Some(p) => addrs.contains(&p.ip_addr),
            None => true,
        };
        chord::check_predecessor(&mut nodes[i], pred_alive);
    }
    for i in 0..nodes.len() {
        let entries = nodes[i].get_successor_list().clone_entries();
        let flags: Vec<bool> = entries.iter().map(|e| addrs.contains(&e.ip_addr)).collect();
        match chord::stabilize(&mut nodes[i], &flags) {
            StabilizeAction::Stabilized { msgs, .. } => queue.extend(msgs),
            StabilizeAction::NotJoined => {}
            StabilizeAction::RingDead => panic!("ring died during the scenario"),
        }
        if let Some(ob) = chord::fix_fingers(&mut nodes[i]) {
            queue.push(ob);
        }
        drain(nodes, queue);
    }
}

#[test]
fn single_peer_ring() {
    let mut n = Node::new_first(M, peer(10));
    assert_eq!(n.get_predecessor().as_ref().map(|p| p.id), Some(10));
    let list = n.get_successor_list().clone_entries();
    assert_eq!(list.len(), 1);
    assert_eq!(list[0].id, 10);
    assert_eq!(n.fingers.entries.len(), M);
    for e in n.fingers.entries.iter() {
        assert_eq!(e.node.id, 10);
    }
    assert!(n.is_joined());
    assert!(matches!(
        n.handle_dht_store_request(7, entry("seven", "x")),
        Response::DHTStoredKey { .. }
    ));
    match n.handle_dht_find_request(7) {
        Response::DHTFoundKey { data: (7, Some(e)) } => assert_eq!(e.value, "x"),
        _ => panic!("stored key not found"),
    }
    assert!(matches!(
        n.handle_dht_delete_request(7),
        Response::DHTDeletedKey { key_existed: true }
    ));
}

#[test]
fn two_peer_join() {
    let mut nodes = vec![Node::new_first(M, peer(10)), Node::new(M, peer(30), peer(10))];
    let mut queue: Vec<Outbound> = Vec::new();
    queue.push(nodes[1].join());
    drain(&mut nodes, &mut queue);
    assert!(nodes[1].is_joined());
    for _ in 0..3 {
        tick(&mut nodes, &mut queue);
    }
    assert_eq!(nodes[0].get_successor().get_id(), 30);
    assert_eq!(nodes[0].get_predecessor().as_ref().map(|p| p.id), Some(30));
    assert_eq!(nodes[1].get_successor().get_id(), 10);
    assert_eq!(nodes[1].get_predecessor().as_ref().map(|p| p.id), Some(10));
}

#[test]
fn routing_walk() {
    // Ring {10, 30, 50}, each successor pointer set.
    let mut n10 = Node::new_first(M, peer(10));
    n10.handle_found_successor_response(peer(30));
    let mut n30 = Node::new_first(M, peer(30));
    n30.handle_found_successor_response(peer(50));
    // A lookup for 35 at peer-10 walks to 30, then settles on 50.
    let hop1 = n10.handle_find_successor_request(35);
    let next = match hop1 {
        Response::AskFurther { next_node } => next_node,
        _ => panic!("peer-10 does not own 35 and must forward"),
    };
    assert_eq!(next.id, 30);
    match n30.handle_find_successor_request(35) {
        Response::FoundSuccessor { successor } => assert_eq!(successor.id, 50),
        _ => panic!("peer-30's successor 50 owns 35"),
    }
}

#[test]
fn predecessor_handoff() {
    // Ring {10, 50} with keys 20 and 40 held at peer-50.
    let mut nodes = vec![Node::new_first(M, peer(10)), Node::new(M, peer(50), peer(10))];
    let mut queue: Vec<Outbound> = Vec::new();
    queue.push(nodes[1].join());
    drain(&mut nodes, &mut queue);
    for _ in 0..3 {
        tick(&mut nodes, &mut queue);
    }
    assert!(matches!(
        nodes[1].handle_dht_store_request(20, entry("twenty", "a")),
        Response::DHTStoredKey { .. }
    ));
    assert!(matches!(
        nodes[1].handle_dht_store_request(40, entry("forty", "b")),
        Response::DHTStoredKey { .. }
    ));
    // Insert peer-20 bootstrapped at peer-10.
    nodes.push(Node::new(M, peer(20), peer(10)));
    queue.push(nodes[2].join());
    drain(&mut nodes, &mut queue);
    for _ in 0..3 {
        tick(&mut nodes, &mut queue);
    }
    assert_eq!(nodes[2].get_predecessor().as_ref().map(|p| p.id), Some(10));
    assert_eq!(nodes[2].get_successor().get_id(), 50);
    assert_eq!(nodes[1].get_predecessor().as_ref().map(|p| p.id), Some(20));
    // Key 20 moved to peer-20; key 40 stayed at peer-50.
    assert!(matches!(
        nodes[2].handle_dht_find_request(20),
        Response::DHTFoundKey { data: (20, Some(_)) }
    ));
    assert!(matches!(
        nodes[1].handle_dht_find_request(40),
        Response::DHTFoundKey { data: (40, Some(_)) }
    ));
    assert!(matches!(
        nodes[1].handle_dht_find_request(20),
        Response::DHTAskFurtherFind { key_id: 20, .. }
    ));
}

#[test]
fn successor_failure() {
    // Stabilized ring {10, 30, 50}; then peer-30 dies.
    let mut nodes = vec![Node::new_first(M, peer(10))];
    let mut queue: Vec<Outbound> = Vec::new();
    for id in [30u64, 50u64] {
        nodes.push(Node::new(M, peer(id), peer(10)));
        let join = nodes.last().unwrap().join();
        queue.push(join);
        drain(&mut nodes, &mut queue);
        for _ in 0..4 {
            tick(&mut nodes, &mut queue);
        }
    }
    assert_eq!(nodes[0].get_successor().get_id(), 30);
    // Kill peer-30: it disappears from the network.
    nodes.remove(1);
    for _ in 0..3 {
        tick(&mut nodes, &mut queue);
    }
    assert_eq!(nodes[0].get_successor().get_id(), 50);
    assert_eq!(nodes[1].get_predecessor().as_ref().map(|p| p.id), Some(10));
}

#[test]
fn ring_dead_gating() {
    // A peer bootstrapped against an unreachable address never joins, so
    // stabilize stays gated off and no ring-dead exit can fire.
    let mut n = Node::new(M, peer(10), OtherNode::new(45, "10.9.9.9:1".to_string()));
    let flags = vec![false];
    assert!(matches!(chord::stabilize(&mut n, &flags), StabilizeAction::NotJoined));
    assert!(chord::fix_fingers(&mut n).is_none());
    assert!(!n.is_joined());
}

#[test]
fn three_peer_ring_converges() {
    // After enough idle maintenance rounds the successor pointers form a
    // single cycle visiting every live peer exactly once.
    let mut nodes = vec![Node::new_first(M, peer(10))];
    let mut queue: Vec<Outbound> = Vec::new();
    for id in [30u64, 50u64] {
        nodes.push(Node::new(M, peer(id), peer(10)));
        let join = nodes.last().unwrap().join();
        queue.push(join);
        drain(&mut nodes, &mut queue);
        for _ in 0..4 {
            tick(&mut nodes, &mut queue);
        }
    }
    let ids: Vec<u64> = nodes.iter().map(|n| n.get_id()).collect();
    let mut seen = vec![ids[0]];
    let mut cur = 0usize;
    for _ in 0..nodes.len() {
        let succ = nodes[cur].get_successor().get_id();
        cur = ids.iter().position(|&x| x == succ).expect("successor must be a live peer");
        if nodes[cur].get_id() == seen[0] {
            break;
        }
        seen.push(nodes[cur].get_id());
    }
    seen.sort();
    assert_eq!(seen, vec![10, 30, 50]);
    assert_eq!(nodes[cur].get_id(), 10);
}
