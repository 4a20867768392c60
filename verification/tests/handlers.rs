//! Request and response handler behaviour on single nodes.

use chord_dht::chord;
use chord_dht::chord::StabilizeAction;
use chord_dht::node::Node;
use chord_dht::node::OtherNode;
use chord_dht::protocols::Message;
use chord_dht::protocols::Request;
use chord_dht::protocols::Response;
use chord_dht::storage::DHTEntry;

const M: usize = 6;

fn peer(id: u64) -> OtherNode {
    OtherNode::new(id, format!("10.0.0.{}:4000", id))
}

fn entry(key: &str, value: &str) -> DHTEntry {
    DHTEntry { key: key.to_string(), value: value.to_string() }
}

#[test]
fn store_then_find_returns_payload() {
    let mut n = Node::new_first(M, peer(10));
    let stored = n.handle_dht_store_request(7, entry("seven", "x"));
    assert!(matches!(stored, Response::DHTStoredKey { ref key } if key == "seven"));
    match n.handle_dht_find_request(7) {
        Response::DHTFoundKey { data: (k, Some(e)) } => {
            assert_eq!(k, 7);
            assert_eq!(e.value, "x");
        }
        other => panic!("unexpected reply: {:?}", response_tag(&other)),
    }
}

#[test]
fn store_overwrites_same_key() {
    let mut n = Node::new_first(M, peer(10));
    n.handle_dht_store_request(7, entry("seven", "x"));
    n.handle_dht_store_request(7, entry("seven", "y"));
    match n.handle_dht_find_request(7) {
        Response::DHTFoundKey { data: (_, Some(e)) } => assert_eq!(e.value, "y"),
        _ => panic!("key not found after overwrite"),
    }
}

#[test]
fn delete_then_find_returns_none() {
    let mut n = Node::new_first(M, peer(10));
    n.handle_dht_store_request(7, entry("seven", "x"));
    let deleted = n.handle_dht_delete_request(7);
    assert!(matches!(deleted, Response::DHTDeletedKey { key_existed: true }));
    assert!(matches!(
        n.handle_dht_find_request(7),
        Response::DHTFoundKey { data: (7, None) }
    ));
    let deleted_again = n.handle_dht_delete_request(7);
    assert!(matches!(deleted_again, Response::DHTDeletedKey { key_existed: false }));
}

#[test]
fn unowned_key_is_routed_onward() {
    // Node 30 with predecessor 10 and successor 50 owns (10, 30] only.
    let mut n = Node::new_first(M, peer(30));
    n.handle_found_successor_response(peer(50));
    let (resp, handoff) = n.handle_notify_request(peer(10));
    assert!(matches!(resp, Response::NotifyResponse));
    assert!(handoff.is_some());
    assert!(matches!(
        n.handle_dht_find_request(40),
        Response::DHTAskFurtherFind { key_id: 40, .. }
    ));
    assert!(matches!(
        n.handle_dht_store_request(40, entry("forty", "z")),
        Response::DHTAskFurtherStore { .. }
    ));
    assert!(matches!(
        n.handle_dht_delete_request(40),
        Response::DHTAskFurtherDelete { key_id: 40, .. }
    ));
}

#[test]
fn notify_twice_same_predecessor() {
    let mut n = Node::new_first(M, peer(30));
    let (_, _) = n.handle_notify_request(peer(10));
    let first = n.get_predecessor().clone();
    let (_, handoff) = n.handle_notify_request(peer(10));
    assert!(handoff.is_none());
    let second = n.get_predecessor().clone();
    assert_eq!(first.as_ref().map(|p| p.id), Some(10));
    assert_eq!(
        first.as_ref().map(|p| p.id),
        second.as_ref().map(|p| p.id)
    );
}

#[test]
fn notify_ignores_worse_candidate() {
    let mut n = Node::new_first(M, peer(30));
    n.handle_notify_request(peer(10));
    // 20 lies in (10, 30): adopted.  10 again afterwards: not adopted.
    n.handle_notify_request(peer(20));
    assert_eq!(n.get_predecessor().as_ref().map(|p| p.id), Some(20));
    n.handle_notify_request(peer(10));
    assert_eq!(n.get_predecessor().as_ref().map(|p| p.id), Some(20));
}

#[test]
fn take_over_keys_reduces_and_stores() {
    let mut n = Node::new_first(M, peer(10));
    let batch = vec![(7u64, entry("seven", "x")), (70u64, entry("seventy", "y"))];
    n.handle_take_over_keys(batch);
    assert!(matches!(
        n.handle_dht_find_request(7),
        Response::DHTFoundKey { data: (7, Some(_)) }
    ));
    // 70 wraps to 6 on the 2^6 ring.
    match n.handle_dht_find_request(6) {
        Response::DHTFoundKey { data: (6, Some(e)) } => assert_eq!(e.value, "y"),
        _ => panic!("wrapped key not stored"),
    }
}

#[test]
fn get_predecessor_request_echoes_state() {
    let n = Node::new_first(M, peer(10));
    match n.handle_get_predecessor_request() {
        Response::GetPredecessorResponse { predecessor: Some(p) } => assert_eq!(p.id, 10),
        _ => panic!("first node must report itself as predecessor"),
    }
}

#[test]
fn successor_list_request_returns_list() {
    let n = Node::new_first(M, peer(10));
    match n.handle_get_successor_list_request() {
        Response::GetSuccessorListResponse { successor_list } => {
            assert_eq!(successor_list.len(), 1);
            assert_eq!(successor_list[0].id, 10);
        }
        _ => panic!("wrong reply kind"),
    }
}

#[test]
fn successor_list_refill_skips_self_and_duplicates() {
    let mut n = Node::new_first(M, peer(10));
    n.handle_found_successor_response(peer(30));
    n.handle_get_successor_list_response(vec![peer(50), peer(30), peer(10), peer(50), peer(20)]);
    let ids: Vec<u64> = n.get_successor_list().clone_entries().iter().map(|p| p.id).collect();
    assert_eq!(ids, vec![30, 50, 20]);
}

#[test]
fn fix_fingers_cycles_and_targets_starts() {
    let mut n = Node::new_first(M, peer(10));
    for round in 0..11usize {
        let expected_index = 1 + (round % (M - 1));
        let ob = chord::fix_fingers(&mut n).expect("joined node must emit a lookup");
        match ob.message {
            Message::RequestMessage {
                request: Request::FindSuccessorFinger { index, finger_id },
                ..
            } => {
                assert_eq!(index, expected_index);
                assert_eq!(finger_id, (10 + (1u64 << index)) % 64);
            }
            _ => panic!("fix-fingers must send FindSuccessorFinger"),
        }
    }
}

#[test]
fn check_predecessor_clears_dead_peer() {
    let mut n = Node::new_first(M, peer(30));
    n.handle_notify_request(peer(10));
    chord::check_predecessor(&mut n, true);
    assert_eq!(n.get_predecessor().as_ref().map(|p| p.id), Some(10));
    chord::check_predecessor(&mut n, false);
    assert!(n.get_predecessor().is_none());
}

#[test]
fn stabilize_picks_first_live_entry() {
    let mut n = Node::new_first(M, peer(10));
    n.handle_found_successor_response(peer(30));
    n.handle_get_successor_list_response(vec![peer(50)]);
    let action = chord::stabilize(&mut n, &vec![false, true]);
    match action {
        StabilizeAction::Stabilized { live_index, msgs } => {
            assert_eq!(live_index, 1);
            assert_eq!(msgs.len(), 2);
            assert!(matches!(
                msgs[0].message,
                Message::RequestMessage { request: Request::GetPredecessor, .. }
            ));
            assert!(matches!(
                msgs[1].message,
                Message::RequestMessage { request: Request::GetSuccessorList, .. }
            ));
        }
        _ => panic!("expected a stabilized outcome"),
    }
    assert_eq!(n.get_successor().get_id(), 50);
}

#[test]
fn stabilize_reports_dead_ring() {
    let mut n = Node::new_first(M, peer(10));
    let action = chord::stabilize(&mut n, &vec![false]);
    assert!(matches!(action, StabilizeAction::RingDead));
}

#[test]
fn kill_message_requests_shutdown() {
    let mut n = Node::new_first(M, peer(10));
    let outcome = n.process_incoming_message(Message::Kill);
    assert!(outcome.shutdown);
    assert!(outcome.reply.is_none());
    let ping = n.process_incoming_message(Message::Ping { sender: peer(30) });
    assert!(!ping.shutdown);
    assert!(ping.reply.is_none());
}

#[test]
fn request_message_is_answered_to_sender() {
    let mut n = Node::new_first(M, peer(10));
    let outcome = n.process_incoming_message(Message::RequestMessage {
        sender: peer(30),
        request: Request::FindSuccessor { id: 30 },
    });
    let reply = outcome.reply.expect("a request deserves a reply");
    assert_eq!(reply.dest, peer(30).ip_addr);
    assert!(matches!(
        reply.message,
        Message::ResponseMessage { response: Response::FoundSuccessor { .. }, .. }
    ));
}

#[test]
fn graceful_shutdown_hands_keys_to_successor() {
    let mut n = Node::new_first(M, peer(10));
    n.handle_dht_store_request(7, entry("seven", "x"));
    let msgs = n.graceful_shutdown();
    assert_eq!(msgs.len(), 2);
    match &msgs[0].message {
        Message::RequestMessage { request: Request::DHTTakeOverKeys { data }, .. } => {
            assert_eq!(data.len(), 1);
            assert_eq!(data[0].0, 7);
        }
        _ => panic!("first shutdown message must hand the keys over"),
    }
    assert!(matches!(
        &msgs[1].message,
        Message::RequestMessage { request: Request::Notify { node }, .. } if node.id == 10
    ));
    assert!(matches!(
        n.handle_dht_find_request(7),
        Response::DHTFoundKey { data: (7, None) }
    ));
}

#[test]
fn found_successor_normalizes_identifier() {
    let mut n = Node::new_first(M, peer(10));
    // 94 wraps to 30 on the 2^6 ring.
    n.handle_found_successor_response(OtherNode::new(94, "10.0.0.30:4000".to_string()));
    assert_eq!(n.get_successor().get_id(), 30);
    assert_eq!(n.fingers.entries[0].node.id, 30);
}

#[test]
fn finger_response_places_entry() {
    let mut n = Node::new_first(M, peer(10));
    let start = n.fingers.entries[3].start;
    let out = n.process_incoming_response(Response::FoundSuccessorFinger {
        index: 3,
        finger_id: start,
        successor: peer(30),
    });
    assert!(out.is_none());
    assert_eq!(n.fingers.entries[3].node.id, 30);
    assert_eq!(n.fingers.entries[3].start, start);
    // Index 0 is the successor slot and out-of-range indexes are stale:
    // both are ignored.
    n.process_incoming_response(Response::FoundSuccessorFinger {
        index: 0,
        finger_id: 11,
        successor: peer(50),
    });
    assert_eq!(n.fingers.entries[0].node.id, 10);
    n.process_incoming_response(Response::FoundSuccessorFinger {
        index: M,
        finger_id: 11,
        successor: peer(50),
    });
    assert_eq!(n.fingers.entries.len(), M);
}

#[test]
fn ask_further_finger_is_reissued() {
    let mut n = Node::new_first(M, peer(10));
    let out = n
        .process_incoming_response(Response::AskFurtherFinger {
            index: 2,
            finger_id: 14,
            next_node: peer(30),
        })
        .expect("the walk must continue");
    assert_eq!(out.dest, peer(30).ip_addr);
    assert!(matches!(
        out.message,
        Message::RequestMessage {
            request: Request::FindSuccessorFinger { index: 2, finger_id: 14 },
            ..
        }
    ));
}

#[test]
fn dht_walk_responses_are_reissued() {
    let mut n = Node::new_first(M, peer(10));
    let out = n
        .process_incoming_response(Response::DHTAskFurtherFind { next_node: peer(30), key_id: 20 })
        .expect("the lookup must continue");
    assert_eq!(out.dest, peer(30).ip_addr);
    assert!(matches!(
        out.message,
        Message::RequestMessage { request: Request::DHTFindKey { key_id: 20 }, .. }
    ));
    let terminal = n.process_incoming_response(Response::DHTFoundKey { data: (20, None) });
    assert!(terminal.is_none());
}

#[test]
fn closest_preceding_falls_back_to_self() {
    // With every finger aimed at the node itself nothing can precede the
    // target, so the scan settles on the node.
    let n = Node::new_first(M, peer(10));
    let r = n.closest_preceding(40);
    assert_eq!(r.id, 10);
    // With the successor placed, the successor is the best hop.
    let mut n = Node::new_first(M, peer(10));
    n.handle_found_successor_response(peer(30));
    assert_eq!(n.closest_preceding(40).id, 30);
}

#[test]
fn get_predecessor_response_always_notifies_successor() {
    let mut n = Node::new_first(M, peer(10));
    n.handle_found_successor_response(peer(30));
    // A predecessor report that does not supersede 30 leaves the
    // successor alone but still notifies it.
    let out = n
        .process_incoming_response(Response::GetPredecessorResponse { predecessor: None })
        .expect("stabilize must notify the successor");
    assert_eq!(n.get_successor().get_id(), 30);
    assert_eq!(out.dest, peer(30).ip_addr);
    assert!(matches!(
        out.message,
        Message::RequestMessage { request: Request::Notify { ref node }, .. } if node.id == 10
    ));
    // A fresher peer between self and the successor is adopted.
    let out = n
        .process_incoming_response(Response::GetPredecessorResponse {
            predecessor: Some(peer(20)),
        })
        .expect("stabilize must notify the successor");
    assert_eq!(n.get_successor().get_id(), 20);
    assert_eq!(out.dest, peer(20).ip_addr);
}

fn response_tag(r: &Response) -> &'static str {
    match r {
        Response::FoundSuccessor { .. } => "FoundSuccessor",
        Response::AskFurther { .. } => "AskFurther",
        Response::GetPredecessorResponse { .. } => "GetPredecessorResponse",
        Response::NotifyResponse => "NotifyResponse",
        Response::FoundSuccessorFinger { .. } => "FoundSuccessorFinger",
        Response::AskFurtherFinger { .. } => "AskFurtherFinger",
        Response::GetSuccessorListResponse { .. } => "GetSuccessorListResponse",
        Response::DHTStoredKey { .. } => "DHTStoredKey",
        Response::DHTFoundKey { .. } => "DHTFoundKey",
        Response::DHTDeletedKey { .. } => "DHTDeletedKey",
        Response::DHTAskFurtherStore { .. } => "DHTAskFurtherStore",
        Response::DHTAskFurtherFind { .. } => "DHTAskFurtherFind",
        Response::DHTAskFurtherDelete { .. } => "DHTAskFurtherDelete",
    }
}
