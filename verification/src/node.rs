//! The node data model: peer references and the process-local `Node` with
//! its request and response handlers.

use vstd::prelude::*;

use crate::chord;
use crate::finger::FingerEntry;
use crate::finger::FingerTable;
use crate::protocols::Message;
use crate::protocols::Outbound;
use crate::protocols::Request;
use crate::protocols::Response;
use crate::storage;
use crate::storage::DHTEntry;
use crate::storage::Storage;
use crate::successors;
use crate::successors::SuccessorList;

verus! {

/// Externally shareable reference to a peer: its ring identifier and its
/// printable network address.  Equality is by identifier only; the address
/// is transport metadata.
#[derive(Debug)]
pub struct OtherNode {
    pub id: u64,
    pub ip_addr: String,
}

impl OtherNode {
    pub fn new(id: u64, ip: String) -> (r: OtherNode)
        ensures
            r.id == id,
            r.ip_addr == ip,
    {
        OtherNode { id, ip_addr: ip }
    }

    pub fn get_id(&self) -> (r: u64)
        ensures
            r == self.id,
    {
        self.id
    }

    pub fn get_ip_addr(&self) -> (r: &String)
        ensures
            r == &self.ip_addr,
    {
        &self.ip_addr
    }
}

impl Clone for OtherNode {
    fn clone(&self) -> (r: OtherNode)
        ensures
            r == *self,
    {
        OtherNode { id: self.id, ip_addr: self.ip_addr.clone() }
    }
}

impl PartialEq for OtherNode {
    /// Peers are compared by identifier alone.
    fn eq(&self, other: &OtherNode) -> (r: bool) {
        self.id == other.id
    }
}

impl vstd::std_specs::cmp::PartialEqSpecImpl for OtherNode {
    open spec fn obeys_eq_spec() -> bool {
        true
    }

    open spec fn eq_spec(&self, other: &OtherNode) -> bool {
        self.id == other.id
    }
}

/// The process-local node: its own identity, neighbour pointers, routing
/// tables and key store.
pub struct Node {
    pub id: u64,
    pub ip_addr: String,
    pub bits: usize,
    pub ring: u64,
    pub predecessor: Option<OtherNode>,
    pub successor_list: SuccessorList,
    pub fingers: FingerTable,
    pub next_finger: usize,
    pub joined: bool,
    pub store: Storage,
}

impl Node {
    /// Structural well-formedness: the ring parameters agree, every pointer
    /// lies on the ring, the finger table and successor list are well
    /// formed, and the head finger coincides with the successor-list head.
    pub open spec fn wf(self) -> bool {
        &&& 2 <= self.bits <= 63
        &&& self.ring == chord::pow2(self.bits as nat)
        &&& self.id < self.ring
        &&& self.fingers.wf(self.id, self.bits as nat, self.ring as int)
        &&& self.successor_list.wf(self.ring as int)
        &&& self.successor_list.cap == self.bits
        &&& self.fingers.entries@[0].node.id == self.successor_list.entries@[0].id
        &&& 1 <= self.next_finger < self.bits
        &&& (match self.predecessor {
            Some(p) => p.id < self.ring,
            None => true,
        })
        &&& storage::keys_bounded(self.store.entries@, self.ring as int)
    }

    /// This node as a shareable peer reference.
    pub open spec fn self_ref(self) -> OtherNode {
        OtherNode { id: self.id, ip_addr: self.ip_addr }
    }

    /// The current successor: the head of the successor list.
    pub open spec fn succ(self) -> OtherNode {
        self.successor_list.entries@[0]
    }

    /// The key-ownership rule: with a predecessor `p` the node owns the
    /// keys in `(p.id, self.id]`; with none it answers for every key.
    pub open spec fn owns(self, k: u64) -> bool {
        match self.predecessor {
            Some(p) => chord::spec_in_half_open(p.id as int, self.id as int, k as int, self.ring as int),
            None => true,
        }
    }

    /// Every locally stored key is owned under the current predecessor.
    pub open spec fn store_owned(self) -> bool {
        match self.predecessor {
            Some(p) => forall|i: int|
                0 <= i < self.store.entries@.len() ==> chord::spec_in_half_open(
                    p.id as int,
                    self.id as int,
                    (#[trigger] self.store.entries@[i]).0 as int,
                    self.ring as int,
                ),
            None => true,
        }
    }

    /// First member of a fresh ring: its own predecessor and successor,
    /// every finger aimed at itself, already joined.
    pub fn new_first(bits: usize, self_ref: OtherNode) -> (r: Node)
        requires
            2 <= bits <= 63,
            self_ref.id < chord::pow2(bits as nat),
        ensures
            r.wf(),
            r.id == self_ref.id,
            r.ip_addr == self_ref.ip_addr,
            r.bits == bits,
            r.ring == chord::pow2(bits as nat),
            r.predecessor == Some(self_ref),
            r.successor_list.entries@ =~= seq![self_ref],
            forall|i: int| 0 <= i < bits ==> (#[trigger] r.fingers.entries@[i]).node == self_ref,
            r.next_finger == 1,
            r.joined,
            r.store.entries@ =~= Seq::<(u64, DHTEntry)>::empty(),
    {
        let ring = chord::ring_size(bits);
        let fingers = FingerTable::new(self_ref.id, &self_ref, bits, ring);
        let successor_list = SuccessorList::new(self_ref.clone(), bits);
        Node {
            id: self_ref.id,
            ip_addr: self_ref.ip_addr.clone(),
            bits,
            ring,
            predecessor: Some(self_ref),
            successor_list,
            fingers,
            next_finger: 1,
            joined: true,
            store: Storage::new(),
        }
    }

    /// Joining node: its successor seeded with the bootstrap peer, no
    /// predecessor yet, not joined until a `FoundSuccessor` arrives.
    pub fn new(bits: usize, self_ref: OtherNode, entry: OtherNode) -> (r: Node)
        requires
            2 <= bits <= 63,
            self_ref.id < chord::pow2(bits as nat),
            entry.id < chord::pow2(bits as nat),
        ensures
            r.wf(),
            r.id == self_ref.id,
            r.ip_addr == self_ref.ip_addr,
            r.bits == bits,
            r.ring == chord::pow2(bits as nat),
            r.predecessor is None,
            r.successor_list.entries@ =~= seq![entry],
            forall|i: int| 0 <= i < bits ==> (#[trigger] r.fingers.entries@[i]).node == entry,
            r.next_finger == 1,
            !r.joined,
            r.store.entries@ =~= Seq::<(u64, DHTEntry)>::empty(),
    {
        let ring = chord::ring_size(bits);
        let fingers = FingerTable::new(self_ref.id, &entry, bits, ring);
        let successor_list = SuccessorList::new(entry, bits);
        Node {
            id: self_ref.id,
            ip_addr: self_ref.ip_addr,
            bits,
            ring,
            predecessor: None,
            successor_list,
            fingers,
            next_finger: 1,
            joined: false,
            store: Storage::new(),
        }
    }

    /// This node as a peer reference, for the sender field of messages.
    pub fn to_other_node(&self) -> (r: OtherNode)
        ensures
            r == self.self_ref(),
    {
        OtherNode { id: self.id, ip_addr: self.ip_addr.clone() }
    }

    /// The join request: ask the bootstrap successor who owns this node's
    /// identifier.
    pub fn join(&self) -> (r: Outbound)
        requires
            self.wf(),
        ensures
            r == (Outbound {
                dest: self.succ().ip_addr,
                message: Message::RequestMessage {
                    sender: self.self_ref(),
                    request: Request::FindSuccessor { id: self.id },
                },
            }),
    {
        let dest = self.successor_list.head().get_ip_addr().clone();
        Outbound {
            dest,
            message: Message::RequestMessage {
                sender: self.to_other_node(),
                request: Request::FindSuccessor { id: self.id },
            },
        }
    }

    pub fn is_joined(&self) -> (r: bool)
        ensures
            r == self.joined,
    {
        self.joined
    }

    pub fn get_id(&self) -> (r: u64)
        ensures
            r == self.id,
    {
        self.id
    }

    pub fn get_predecessor(&self) -> (r: &Option<OtherNode>)
        ensures
            r == &self.predecessor,
    {
        &self.predecessor
    }

    pub fn get_successor(&self) -> (r: &OtherNode)
        requires
            self.wf(),
        ensures
            *r == self.succ(),
    {
        self.successor_list.head()
    }

    pub fn get_successor_list(&self) -> (r: &SuccessorList)
        ensures
            r == &self.successor_list,
    {
        &self.successor_list
    }

    /// The peer this node consults next for `target`: the scan of the
    /// finger table from the top entry down.
    pub open spec fn spec_closest_preceding(self, target: u64) -> OtherNode {
        FingerTable::closest_preceding_from(
            self.fingers.entries@,
            self.self_ref(),
            target,
            self.ring as int,
            self.fingers.entries@.len() - 1,
        )
    }

    /// The reply to `FindSuccessor` for the reduced identifier `k`: the
    /// successor when it owns `k`, else the closest preceding finger.
    pub open spec fn find_successor_reply(self, k: u64) -> Response {
        if chord::spec_in_half_open(
            self.id as int,
            self.succ().id as int,
            k as int,
            self.ring as int,
        ) {
            Response::FoundSuccessor { successor: self.succ() }
        } else {
            Response::AskFurther { next_node: self.spec_closest_preceding(k) }
        }
    }

    /// The reply to `FindSuccessorFinger`, preserving the table index.
    pub open spec fn find_finger_reply(self, index: usize, k: u64) -> Response {
        if chord::spec_in_half_open(
            self.id as int,
            self.succ().id as int,
            k as int,
            self.ring as int,
        ) {
            Response::FoundSuccessorFinger { index, finger_id: k, successor: self.succ() }
        } else {
            Response::AskFurtherFinger {
                index,
                finger_id: k,
                next_node: self.spec_closest_preceding(k),
            }
        }
    }

    /// The predecessor after a `Notify` from candidate `c`: adopted when
    /// none is known, or when `c` lies strictly between the present
    /// predecessor and this node.
    pub open spec fn notify_new_pred(self, c: OtherNode) -> Option<OtherNode> {
        match self.predecessor {
            None => Some(c),
            Some(p) => if p.id != c.id && chord::spec_in_open_interval(
                p.id as int,
                self.id as int,
                c.id as int,
                self.ring as int,
            ) {
                Some(c)
            } else {
                Some(p)
            },
        }
    }

    /// Whether a `Notify` from `c` replaces the predecessor.
    pub open spec fn notify_changes(self, c: OtherNode) -> bool {
        match self.predecessor {
            None => true,
            Some(p) => p.id != c.id && chord::spec_in_open_interval(
                p.id as int,
                self.id as int,
                c.id as int,
                self.ring as int,
            ),
        }
    }

    /// The reply to a `DHTStoreKey` of `e` under the reduced key `k`.
    pub open spec fn dht_store_reply(self, k: u64, e: DHTEntry) -> Response {
        if self.owns(k) {
            Response::DHTStoredKey { key: e.key }
        } else {
            Response::DHTAskFurtherStore { next_node: self.spec_closest_preceding(k), data: (k, e) }
        }
    }

    /// The reply to a `DHTFindKey` of the reduced key `k`.
    pub open spec fn dht_find_reply(self, k: u64) -> Response {
        if self.owns(k) {
            Response::DHTFoundKey { data: (k, storage::lookup(self.store.entries@, k)) }
        } else {
            Response::DHTAskFurtherFind { next_node: self.spec_closest_preceding(k), key_id: k }
        }
    }

    /// The reply to a `DHTDeleteKey` of the reduced key `k`.
    pub open spec fn dht_delete_reply(self, k: u64) -> Response {
        if self.owns(k) {
            Response::DHTDeletedKey {
                key_existed: storage::lookup(self.store.entries@, k) is Some,
            }
        } else {
            Response::DHTAskFurtherDelete { next_node: self.spec_closest_preceding(k), key_id: k }
        }
    }

    /// Whether this node owns the reduced key `k`.
    pub fn owns_key(&self, k: u64) -> (r: bool)
        requires
            self.wf(),
            k < self.ring,
        ensures
            r == self.owns(k),
    {
        match &self.predecessor {
            None => true,
            Some(p) => chord::is_my_key(self.id, p.id, k, self.ring),
        }
    }

    /// Consult the finger table for the peer closest to `target` that
    /// still precedes it.
    pub fn closest_preceding(&self, target: u64) -> (r: OtherNode)
        requires
            self.wf(),
            target < self.ring,
        ensures
            r == self.spec_closest_preceding(target),
            r.id < self.ring,
    {
        let me = self.to_other_node();
        self.fingers.closest_preceding(&me, target, self.ring)
    }

    pub fn handle_find_successor_request(&self, id: u64) -> (r: Response)
        requires
            self.wf(),
        ensures
            r == self.find_successor_reply(id % self.ring),
    {
        let k = chord::mod_ring(id, self.ring);
        let succ_id = self.successor_list.head().get_id();
        if chord::in_half_open(self.id, succ_id, k, self.ring) {
            Response::FoundSuccessor { successor: self.successor_list.head().clone() }
        } else {
            Response::AskFurther { next_node: self.closest_preceding(k) }
        }
    }

    pub fn handle_find_successor_finger_request(&self, index: usize, finger_id: u64) -> (r:
        Response)
        requires
            self.wf(),
        ensures
            r == self.find_finger_reply(index, finger_id % self.ring),
    {
        let k = chord::mod_ring(finger_id, self.ring);
        let succ_id = self.successor_list.head().get_id();
        if chord::in_half_open(self.id, succ_id, k, self.ring) {
            Response::FoundSuccessorFinger {
                index,
                finger_id: k,
                successor: self.successor_list.head().clone(),
            }
        } else {
            Response::AskFurtherFinger { index, finger_id: k, next_node: self.closest_preceding(k) }
        }
    }

    pub fn handle_get_predecessor_request(&self) -> (r: Response)
        ensures
            r == (Response::GetPredecessorResponse { predecessor: self.predecessor }),
    {
        Response::GetPredecessorResponse { predecessor: clone_opt_peer(&self.predecessor) }
    }

    /// Adopt a better predecessor and hand it the keys it now owns.
    pub fn handle_notify_request(&mut self, node: OtherNode) -> (r: (Response, Option<Outbound>))
        requires
            old(self).wf(),
        ensures
            final(self).wf(),
            r.0 == Response::NotifyResponse,
            ({
                let c = (OtherNode { id: node.id % old(self).ring, ip_addr: node.ip_addr });
                &&& same_except_pred_store(*old(self), *final(self))
                &&& final(self).predecessor == old(self).notify_new_pred(c)
                &&& if old(self).notify_changes(c) {
                    &&& final(self).store.entries@ == storage::keep_owned(
                        old(self).store.entries@,
                        c.id,
                        old(self).id,
                        old(self).ring as int,
                    )
                    &&& notify_handoff_ok(*old(self), c, r.1)
                } else {
                    &&& final(self).store == old(self).store
                    &&& r.1 is None
                }
            }),
            old(self).store_owned() || old(self).notify_changes(
                (OtherNode { id: node.id % old(self).ring, ip_addr: node.ip_addr }),
            ) ==> final(self).store_owned(),
    {
        let c = OtherNode { id: chord::mod_ring(node.id, self.ring), ip_addr: node.ip_addr };
        let change: bool = match &self.predecessor {
            None => true,
            Some(p) => p.id != c.id && chord::in_open_interval(p.id, self.id, c.id, self.ring),
        };
        if change {
            proof {
                storage::lemma_keep_owned_bounded(
                    self.store.entries@,
                    c.id,
                    self.id,
                    self.ring as int,
                    self.ring as int,
                );
                storage::lemma_keep_owned_owned(
                    self.store.entries@,
                    c.id,
                    self.id,
                    self.ring as int,
                );
            }
            let taken = self.store.extract_not_owned(c.id, self.id, self.ring);
            let dest = c.ip_addr.clone();
            let sender = self.to_other_node();
            self.predecessor = Some(c);
            let ob = Outbound {
                dest,
                message: Message::RequestMessage {
                    sender,
                    request: Request::DHTTakeOverKeys { data: taken },
                },
            };
            (Response::NotifyResponse, Some(ob))
        } else {
            (Response::NotifyResponse, None)
        }
    }

    pub fn handle_get_successor_list_request(&self) -> (r: Response)
        ensures
            (match r {
                Response::GetSuccessorListResponse { successor_list } => successor_list@
                    == self.successor_list.entries@,
                _ => false,
            }),
    {
        Response::GetSuccessorListResponse { successor_list: self.successor_list.clone_entries() }
    }

    /// Store a payload locally when owned, else name the peer to ask.
    pub fn handle_dht_store_request(&mut self, key_id: u64, entry: DHTEntry) -> (r: Response)
        requires
            old(self).wf(),
        ensures
            final(self).wf(),
            ({
                let k = key_id % old(self).ring;
                &&& r == old(self).dht_store_reply(k, entry)
                &&& same_except_pred_store(*old(self), *final(self))
                &&& final(self).predecessor == old(self).predecessor
                &&& if old(self).owns(k) {
                    final(self).store.entries@ == storage::remove_key(
                        old(self).store.entries@,
                        k,
                    ).push((k, entry))
                } else {
                    final(self).store == old(self).store
                }
            }),
            old(self).store_owned() ==> final(self).store_owned(),
    {
        let k = chord::mod_ring(key_id, self.ring);
        if self.owns_key(k) {
            proof {
                storage::lemma_remove_key_bounded(self.store.entries@, k, self.ring as int);
                if self.predecessor is Some {
                    storage::lemma_remove_key_owned(
                        self.store.entries@,
                        k,
                        self.predecessor.unwrap().id,
                        self.id,
                        self.ring as int,
                    );
                }
            }
            let key_echo = entry.key.clone();
            self.store.put(k, entry);
            Response::DHTStoredKey { key: key_echo }
        } else {
            let next_node = self.closest_preceding(k);
            Response::DHTAskFurtherStore { next_node, data: (k, entry) }
        }
    }

    /// Look a key up locally when owned, else name the peer to ask.
    pub fn handle_dht_find_request(&self, key_id: u64) -> (r: Response)
        requires
            self.wf(),
        ensures
            r == self.dht_find_reply(key_id % self.ring),
    {
        let k = chord::mod_ring(key_id, self.ring);
        if self.owns_key(k) {
            Response::DHTFoundKey { data: (k, self.store.get(k)) }
        } else {
            let next_node = self.closest_preceding(k);
            Response::DHTAskFurtherFind { next_node, key_id: k }
        }
    }

    /// Delete a key locally when owned, else name the peer to ask.
    pub fn handle_dht_delete_request(&mut self, key_id: u64) -> (r: Response)
        requires
            old(self).wf(),
        ensures
            final(self).wf(),
            ({
                let k = key_id % old(self).ring;
                &&& r == old(self).dht_delete_reply(k)
                &&& same_except_pred_store(*old(self), *final(self))
                &&& final(self).predecessor == old(self).predecessor
                &&& if old(self).owns(k) {
                    final(self).store.entries@ == storage::remove_key(old(self).store.entries@, k)
                } else {
                    final(self).store == old(self).store
                }
            }),
            old(self).store_owned() ==> final(self).store_owned(),
    {
        let k = chord::mod_ring(key_id, self.ring);
        if self.owns_key(k) {
            proof {
                storage::lemma_remove_key_bounded(self.store.entries@, k, self.ring as int);
                if self.predecessor is Some {
                    storage::lemma_remove_key_owned(
                        self.store.entries@,
                        k,
                        self.predecessor.unwrap().id,
                        self.id,
                        self.ring as int,
                    );
                }
            }
            let existed = self.store.remove(k);
            Response::DHTDeletedKey { key_existed: existed }
        } else {
            let next_node = self.closest_preceding(k);
            Response::DHTAskFurtherDelete { next_node, key_id: k }
        }
    }

    /// Accept a batch of handed-over keys.  The batch may precede the
    /// matching predecessor update, so ownership is re-established by the
    /// next `Notify`, not here.
    pub fn handle_take_over_keys(&mut self, data: Vec<(u64, DHTEntry)>)
        requires
            old(self).wf(),
        ensures
            final(self).wf(),
            final(self).store.entries@ == storage::put_all(
                old(self).store.entries@,
                data@,
                old(self).ring,
            ),
            same_except_pred_store(*old(self), *final(self)),
            final(self).predecessor == old(self).predecessor,
    {
        let n = data.len();
        let mut i: usize = 0;
        proof {
            assert(data@.skip(0) =~= data@);
        }
        while i < n
            invariant
                i <= n,
                n == data@.len(),
                self.wf(),
                storage::put_all(old(self).store.entries@, data@, old(self).ring)
                    == storage::put_all(self.store.entries@, data@.skip(i as int), self.ring),
                same_except_pred_store(*old(self), *self),
                self.predecessor == old(self).predecessor,
                self.ring == old(self).ring,
            decreases n - i,
        {
            proof {
                assert(data@.skip(i as int)[0] == data@[i as int]);
                assert(data@.skip(i as int).drop_first() =~= data@.skip(i + 1));
                storage::lemma_remove_key_bounded(
                    self.store.entries@,
                    data@[i as int].0 % self.ring,
                    self.ring as int,
                );
            }
            let pair = &data[i];
            let k = chord::mod_ring(pair.0, self.ring);
            let e = pair.1.clone();
            self.store.put(k, e);
            i = i + 1;
        }
        proof {
            assert(data@.skip(n as int) =~= Seq::<(u64, DHTEntry)>::empty());
        }
    }

    /// The request handler: a pure function from the current state and a
    /// request to the new state, the reply owed to the requester, and at
    /// most one hand-off message.
    pub fn process_incoming_request(&mut self, request: Request) -> (r: RequestOutcome)
        requires
            old(self).wf(),
        ensures
            final(self).wf(),
            req_transition(*old(self), *final(self), request, r.response, r.handoff),
            old(self).store_owned() && !(request is DHTTakeOverKeys) ==> final(self).store_owned(),
    {
        match request {
            Request::FindSuccessor { id } => {
                let resp = self.handle_find_successor_request(id);
                RequestOutcome { response: Some(resp), handoff: None }
            },
            Request::GetPredecessor => {
                let resp = self.handle_get_predecessor_request();
                RequestOutcome { response: Some(resp), handoff: None }
            },
            Request::Notify { node } => {
                let (resp, handoff) = self.handle_notify_request(node);
                RequestOutcome { response: Some(resp), handoff }
            },
            Request::FindSuccessorFinger { index, finger_id } => {
                let resp = self.handle_find_successor_finger_request(index, finger_id);
                RequestOutcome { response: Some(resp), handoff: None }
            },
            Request::GetSuccessorList => {
                let resp = self.handle_get_successor_list_request();
                RequestOutcome { response: Some(resp), handoff: None }
            },
            Request::DHTStoreKey { data } => {
                let resp = self.handle_dht_store_request(data.0, data.1);
                RequestOutcome { response: Some(resp), handoff: None }
            },
            Request::DHTFindKey { key_id } => {
                let resp = self.handle_dht_find_request(key_id);
                RequestOutcome { response: Some(resp), handoff: None }
            },
            Request::DHTDeleteKey { key_id } => {
                let resp = self.handle_dht_delete_request(key_id);
                RequestOutcome { response: Some(resp), handoff: None }
            },
            Request::DHTTakeOverKeys { data } => {
                self.handle_take_over_keys(data);
                RequestOutcome { response: None, handoff: None }
            },
        }
    }

    /// A fresh successor was found: it becomes the head of the successor
    /// list and of the finger table, and the node counts as joined.
    pub fn handle_found_successor_response(&mut self, successor: OtherNode)
        requires
            old(self).wf(),
        ensures
            final(self).wf(),
            ({
                let s = (OtherNode { id: successor.id % old(self).ring, ip_addr: successor.ip_addr });
                &&& final(self).successor_list.entries@ == seq![s] + successors::without_id(
                    old(self).successor_list.entries@.subrange(
                        1,
                        old(self).successor_list.entries@.len() as int,
                    ),
                    s.id,
                )
                &&& final(self).successor_list.cap == old(self).successor_list.cap
                &&& final(self).fingers.entries@ == old(self).fingers.entries@.update(
                    0,
                    (FingerEntry { start: old(self).fingers.entries@[0].start, node: s }),
                )
            }),
            final(self).joined,
            same_except_tables(*old(self), *final(self)),
    {
        let s = OtherNode {
            id: chord::mod_ring(successor.id, self.ring),
            ip_addr: successor.ip_addr,
        };
        let ghost pre = *self;
        let ghost tail = self.successor_list.entries@.subrange(
            1,
            self.successor_list.entries@.len() as int,
        );
        proof {
            successors::lemma_without_id_props(tail, s.id);
            assert(successors::no_dup_ids(tail)) by {
                assert(forall|i: int, j: int|
                    0 <= i < j < tail.len() ==> tail[i].id != tail[j].id) by {
                    assert(forall|i: int|
                        0 <= i < tail.len() ==> tail[i] == pre.successor_list.entries@[i + 1]);
                }
            }
            assert(successors::ids_bounded(tail, self.ring as int)) by {
                assert(forall|i: int|
                    0 <= i < tail.len() ==> tail[i] == pre.successor_list.entries@[i + 1]);
            }
        }
        self.successor_list.set_head(s.clone());
        proof {
            let w = successors::without_id(tail, s.id);
            let merged = seq![s] + w;
            assert(successors::no_dup_ids(merged)) by {
                assert(forall|j: int| 1 <= j < merged.len() ==> merged[j] == w[j - 1]);
                assert(forall|j: int| 0 <= j < w.len() ==> w[j].id != s.id) by {
                    assert(!successors::has_id(w, s.id));
                }
            }
            assert(successors::ids_bounded(merged, self.ring as int)) by {
                assert(forall|j: int| 1 <= j < merged.len() ==> merged[j] == w[j - 1]);
            }
        }
        self.fingers.put(0, s);
        self.joined = true;
    }

    /// A walk hop: re-issue the join lookup to the peer named by the
    /// `AskFurther` reply.
    pub fn handle_ask_further_response(&self, next_node: OtherNode) -> (r: Outbound)
        ensures
            r == (Outbound {
                dest: next_node.ip_addr,
                message: Message::RequestMessage {
                    sender: self.self_ref(),
                    request: Request::FindSuccessor { id: self.id },
                },
            }),
    {
        Outbound {
            dest: next_node.ip_addr,
            message: Message::RequestMessage {
                sender: self.to_other_node(),
                request: Request::FindSuccessor { id: self.id },
            },
        }
    }

    /// A finger lookup settled: place the peer at its table index.
    pub fn handle_found_successor_finger_response(
        &mut self,
        index: usize,
        successor: OtherNode,
    )
        requires
            old(self).wf(),
        ensures
            final(self).wf(),
            ({
                let s = (OtherNode { id: successor.id % old(self).ring, ip_addr: successor.ip_addr });
                if 1 <= index < old(self).bits {
                    &&& final(self).fingers.entries@ == old(self).fingers.entries@.update(
                        index as int,
                        (FingerEntry {
                            start: old(self).fingers.entries@[index as int].start,
                            node: s,
                        }),
                    )
                    &&& final(self).successor_list == old(self).successor_list
                    &&& same_except_tables(*old(self), *final(self))
                    &&& final(self).joined == old(self).joined
                } else {
                    *final(self) == *old(self)
                }
            }),
    {
        if 1 <= index && index < self.bits {
            let s = OtherNode {
                id: chord::mod_ring(successor.id, self.ring),
                ip_addr: successor.ip_addr,
            };
            self.fingers.put(index, s);
        }
    }

    /// A finger walk hop: re-issue the finger lookup to the named peer.
    pub fn handle_ask_further_finger_response(
        &self,
        index: usize,
        finger_id: u64,
        next_node: OtherNode,
    ) -> (r: Outbound)
        ensures
            r == (Outbound {
                dest: next_node.ip_addr,
                message: Message::RequestMessage {
                    sender: self.self_ref(),
                    request: Request::FindSuccessorFinger { index, finger_id },
                },
            }),
    {
        Outbound {
            dest: next_node.ip_addr,
            message: Message::RequestMessage {
                sender: self.to_other_node(),
                request: Request::FindSuccessorFinger { index, finger_id },
            },
        }
    }

    /// Whether the successor's reported predecessor supersedes the
    /// current successor.
    pub open spec fn gp_advances(self, x: OtherNode) -> bool {
        chord::spec_in_open_interval(
            self.id as int,
            self.succ().id as int,
            x.id as int,
            self.ring as int,
        )
    }

    /// Stabilize, second half: a fresher successor reported by the current
    /// one is adopted, then the (possibly new) successor is notified.
    pub fn handle_get_predecessor_response(&mut self, predecessor: Option<OtherNode>) -> (r:
        Outbound)
        requires
            old(self).wf(),
        ensures
            final(self).wf(),
            ({
                let xn = (OtherNode {
                    id: predecessor.unwrap().id % old(self).ring,
                    ip_addr: predecessor.unwrap().ip_addr,
                });
                if predecessor is Some && old(self).gp_advances(xn) {
                    &&& final(self).successor_list.entries@ == successors::take_up_to(
                        seq![xn] + successors::without_id(
                            old(self).successor_list.entries@,
                            xn.id,
                        ),
                        old(self).successor_list.cap as int,
                    )
                    &&& final(self).successor_list.cap == old(self).successor_list.cap
                    &&& final(self).fingers.entries@ == old(self).fingers.entries@.update(
                        0,
                        (FingerEntry { start: old(self).fingers.entries@[0].start, node: xn }),
                    )
                    &&& same_except_tables(*old(self), *final(self))
                    &&& final(self).joined == old(self).joined
                } else {
                    *final(self) == *old(self)
                }
            }),
            r == (Outbound {
                dest: final(self).succ().ip_addr,
                message: Message::RequestMessage {
                    sender: old(self).self_ref(),
                    request: Request::Notify { node: old(self).self_ref() },
                },
            }),
    {
        let ghost pre = *self;
        if let Some(x) = predecessor {
            let xn = OtherNode { id: chord::mod_ring(x.id, self.ring), ip_addr: x.ip_addr };
            let succ_id = self.successor_list.head().get_id();
            if chord::in_open_interval(self.id, succ_id, xn.id, self.ring) {
                proof {
                    successors::lemma_without_id_props(self.successor_list.entries@, xn.id);
                }
                self.successor_list.advance_to(xn.clone());
                proof {
                    let w = successors::without_id(pre.successor_list.entries@, xn.id);
                    let merged = seq![xn] + w;
                    let cut = successors::take_up_to(merged, pre.successor_list.cap as int);
                    assert(successors::no_dup_ids(merged)) by {
                        assert(forall|j: int| 1 <= j < merged.len() ==> merged[j] == w[j - 1]);
                        assert(forall|j: int| 0 <= j < w.len() ==> w[j].id != xn.id) by {
                            assert(!successors::has_id(w, xn.id));
                        }
                    }
                    assert(successors::ids_bounded(merged, self.ring as int)) by {
                        assert(forall|j: int| 1 <= j < merged.len() ==> merged[j] == w[j - 1]);
                    }
                    assert(successors::no_dup_ids(cut)) by {
                        assert(forall|j: int| 0 <= j < cut.len() ==> cut[j] == merged[j]);
                    }
                    assert(successors::ids_bounded(cut, self.ring as int)) by {
                        assert(forall|j: int| 0 <= j < cut.len() ==> cut[j] == merged[j]);
                    }
                    assert(cut[0] == xn);
                }
                self.fingers.put(0, xn);
            }
        }
        let dest = self.successor_list.head().get_ip_addr().clone();
        Outbound {
            dest,
            message: Message::RequestMessage {
                sender: self.to_other_node(),
                request: Request::Notify { node: self.to_other_node() },
            },
        }
    }

    /// A `NotifyResponse` carries nothing and changes nothing.
    pub fn handle_notify_response(&self) {
    }

    /// Refill the successor list from the head's own list.
    pub fn handle_get_successor_list_response(&mut self, successor_list: Vec<OtherNode>)
        requires
            old(self).wf(),
        ensures
            final(self).wf(),
            final(self).successor_list.entries@ == successors::merge_extend(
                seq![old(self).succ()],
                successor_list@,
                old(self).id,
                old(self).successor_list.cap as int,
                old(self).ring,
            ),
            final(self).successor_list.cap == old(self).successor_list.cap,
            final(self).fingers == old(self).fingers,
            same_except_tables(*old(self), *final(self)),
            final(self).joined == old(self).joined,
    {
        let ghost pre = *self;
        proof {
            assert(successors::no_dup_ids(seq![pre.succ()]));
            assert(successors::ids_bounded(seq![pre.succ()], pre.ring as int));
            successors::lemma_merge_extend_props(
                seq![pre.succ()],
                successor_list@,
                pre.id,
                pre.successor_list.cap as int,
                pre.ring,
            );
        }
        let self_id = self.id;
        let ring = self.ring;
        self.successor_list.update_from(&successor_list, self_id, ring);
        proof {
            let merged = successors::merge_extend(
                seq![pre.succ()],
                successor_list@,
                pre.id,
                pre.successor_list.cap as int,
                pre.ring,
            );
            assert(merged.take(1)[0] == merged[0]);
            assert(merged[0] == pre.succ());
        }
    }

    /// The response handler: applies a reply to the node state and names
    /// at most one follow-up message.
    pub fn process_incoming_response(&mut self, response: Response) -> (r: Option<Outbound>)
        requires
            old(self).wf(),
        ensures
            final(self).wf(),
            resp_transition(*old(self), *final(self), response, r),
            final(self).store == old(self).store,
            final(self).predecessor == old(self).predecessor,
            old(self).store_owned() ==> final(self).store_owned(),
    {
        match response {
            Response::FoundSuccessor { successor } => {
                self.handle_found_successor_response(successor);
                None
            },
            Response::AskFurther { next_node } => Some(self.handle_ask_further_response(next_node)),
            Response::GetPredecessorResponse { predecessor } => Some(
                self.handle_get_predecessor_response(predecessor),
            ),
            Response::NotifyResponse => {
                self.handle_notify_response();
                None
            },
            Response::FoundSuccessorFinger { index, finger_id: _, successor } => {
                self.handle_found_successor_finger_response(index, successor);
                None
            },
            Response::AskFurtherFinger { index, finger_id, next_node } => Some(
                self.handle_ask_further_finger_response(index, finger_id, next_node),
            ),
            Response::GetSuccessorListResponse { successor_list } => {
                self.handle_get_successor_list_response(successor_list);
                None
            },
            Response::DHTStoredKey { key: _ } => None,
            Response::DHTFoundKey { data: _ } => None,
            Response::DHTDeletedKey { key_existed: _ } => None,
            Response::DHTAskFurtherStore { next_node, data } => Some(
                Outbound {
                    dest: next_node.ip_addr,
                    message: Message::RequestMessage {
                        sender: self.to_other_node(),
                        request: Request::DHTStoreKey { data },
                    },
                },
            ),
            Response::DHTAskFurtherFind { next_node, key_id } => Some(
                Outbound {
                    dest: next_node.ip_addr,
                    message: Message::RequestMessage {
                        sender: self.to_other_node(),
                        request: Request::DHTFindKey { key_id },
                    },
                },
            ),
            Response::DHTAskFurtherDelete { next_node, key_id } => Some(
                Outbound {
                    dest: next_node.ip_addr,
                    message: Message::RequestMessage {
                        sender: self.to_other_node(),
                        request: Request::DHTDeleteKey { key_id },
                    },
                },
            ),
        }
    }

    /// Dispatch one framed message: decide whether to shut down, reply to
    /// a request, or apply a response, and name what to send.
    pub fn process_incoming_message(&mut self, message: Message) -> (r: MessageOutcome)
        requires
            old(self).wf(),
        ensures
            final(self).wf(),
            msg_transition(*old(self), *final(self), message, r),
    {
        match message {
            Message::Kill => MessageOutcome { shutdown: true, reply: None, extra: None },
            Message::Ping { sender: _ } => MessageOutcome {
                shutdown: false,
                reply: None,
                extra: None,
            },
            Message::RequestMessage { sender, request } => {
                let outcome = self.process_incoming_request(request);
                let reply = match outcome.response {
                    Some(resp) => Some(
                        Outbound {
                            dest: sender.ip_addr,
                            message: Message::ResponseMessage {
                                sender: self.to_other_node(),
                                response: resp,
                            },
                        },
                    ),
                    None => None,
                };
                MessageOutcome { shutdown: false, reply, extra: outcome.handoff }
            },
            Message::ResponseMessage { sender: _, response } => {
                let follow_up = self.process_incoming_response(response);
                MessageOutcome { shutdown: false, reply: None, extra: follow_up }
            },
        }
    }

    /// Leave the ring: hand every key to the successor and point it at
    /// the departing node's predecessor.
    pub fn graceful_shutdown(&mut self) -> (r: Vec<Outbound>)
        requires
            old(self).wf(),
        ensures
            final(self).wf(),
            final(self).store.entries@ =~= Seq::<(u64, DHTEntry)>::empty(),
            same_except_pred_store(*old(self), *final(self)),
            final(self).predecessor == old(self).predecessor,
            r@.len() == (if old(self).predecessor is Some {
                2int
            } else {
                1int
            }),
            (match r@[0].message {
                Message::RequestMessage { sender, request } => {
                    &&& r@[0].dest == old(self).succ().ip_addr
                    &&& sender == old(self).self_ref()
                    &&& (match request {
                        Request::DHTTakeOverKeys { data } => data@ == old(self).store.entries@,
                        _ => false,
                    })
                },
                _ => false,
            }),
            old(self).predecessor is Some ==> r@[1] == (Outbound {
                dest: old(self).succ().ip_addr,
                message: Message::RequestMessage {
                    sender: old(self).self_ref(),
                    request: Request::Notify { node: old(self).predecessor.unwrap() },
                },
            }),
    {
        let dest = self.successor_list.head().get_ip_addr().clone();
        let sender = self.to_other_node();
        let data = self.store.take_all();
        let mut out: Vec<Outbound> = Vec::new();
        out.push(Outbound {
            dest: dest.clone(),
            message: Message::RequestMessage {
                sender,
                request: Request::DHTTakeOverKeys { data },
            },
        });
        if let Some(p) = &self.predecessor {
            out.push(Outbound {
                dest,
                message: Message::RequestMessage {
                    sender: self.to_other_node(),
                    request: Request::Notify { node: p.clone() },
                },
            });
        }
        out
    }

    pub fn set_predecessor(&mut self, predecessor: Option<OtherNode>)
        requires
            (match predecessor {
                Some(p) => p.id < old(self).ring,
                None => true,
            }),
        ensures
            *final(self) == (Node { predecessor, ..*old(self) }),
    {
        self.predecessor = predecessor;
    }
}

/// What a request handler returns: the reply owed to the requester, if
/// any, and at most one extra message to send.
pub struct RequestOutcome {
    pub response: Option<Response>,
    pub handoff: Option<Outbound>,
}

/// Everything but the predecessor and the key store is untouched.
pub open spec fn same_except_pred_store(pre: Node, post: Node) -> bool {
    &&& post.id == pre.id
    &&& post.ip_addr == pre.ip_addr
    &&& post.bits == pre.bits
    &&& post.ring == pre.ring
    &&& post.successor_list == pre.successor_list
    &&& post.fingers == pre.fingers
    &&& post.next_finger == pre.next_finger
    &&& post.joined == pre.joined
}

/// Everything but the successor list, the finger table and the joined
/// flag is untouched.
pub open spec fn same_except_tables(pre: Node, post: Node) -> bool {
    &&& post.id == pre.id
    &&& post.ip_addr == pre.ip_addr
    &&& post.bits == pre.bits
    &&& post.ring == pre.ring
    &&& post.predecessor == pre.predecessor
    &&& post.next_finger == pre.next_finger
    &&& post.store == pre.store
}

/// The hand-off emitted when `Notify` adopts candidate `c`: a
/// `DHTTakeOverKeys` to `c` carrying exactly the keys that left
/// `(c.id, pre.id]`.
pub open spec fn notify_handoff_ok(pre: Node, c: OtherNode, handoff: Option<Outbound>) -> bool {
    match handoff {
        Some(ob) => {
            &&& ob.dest == c.ip_addr
            &&& (match ob.message {
                Message::RequestMessage { sender, request } => {
                    &&& sender == pre.self_ref()
                    &&& (match request {
                        Request::DHTTakeOverKeys { data } => data@ == storage::take_unowned(
                            pre.store.entries@,
                            c.id,
                            pre.id,
                            pre.ring as int,
                        ),
                        _ => false,
                    })
                },
                _ => false,
            })
        },
        None => false,
    }
}

/// The request handler's full relation between the state before, the
/// state after, the reply and the hand-off, one case per request kind.
pub open spec fn req_transition(
    pre: Node,
    post: Node,
    request: Request,
    resp: Option<Response>,
    handoff: Option<Outbound>,
) -> bool {
    match request {
        Request::FindSuccessor { id } => {
            &&& post == pre
            &&& resp == Some(pre.find_successor_reply(id % pre.ring))
            &&& handoff is None
        },
        Request::GetPredecessor => {
            &&& post == pre
            &&& resp == Some(Response::GetPredecessorResponse { predecessor: pre.predecessor })
            &&& handoff is None
        },
        Request::Notify { node } => {
            let c = (OtherNode { id: node.id % pre.ring, ip_addr: node.ip_addr });
            &&& resp == Some(Response::NotifyResponse)
            &&& same_except_pred_store(pre, post)
            &&& post.predecessor == pre.notify_new_pred(c)
            &&& if pre.notify_changes(c) {
                &&& post.store.entries@ == storage::keep_owned(
                    pre.store.entries@,
                    c.id,
                    pre.id,
                    pre.ring as int,
                )
                &&& notify_handoff_ok(pre, c, handoff)
            } else {
                &&& post.store == pre.store
                &&& handoff is None
            }
        },
        Request::FindSuccessorFinger { index, finger_id } => {
            &&& post == pre
            &&& resp == Some(pre.find_finger_reply(index, finger_id % pre.ring))
            &&& handoff is None
        },
        Request::GetSuccessorList => {
            &&& post == pre
            &&& (match resp {
                Some(Response::GetSuccessorListResponse { successor_list }) => successor_list@
                    == pre.successor_list.entries@,
                _ => false,
            })
            &&& handoff is None
        },
        Request::DHTStoreKey { data } => {
            let k = data.0 % pre.ring;
            &&& resp == Some(pre.dht_store_reply(k, data.1))
            &&& same_except_pred_store(pre, post)
            &&& post.predecessor == pre.predecessor
            &&& if pre.owns(k) {
                post.store.entries@ == storage::remove_key(pre.store.entries@, k).push((k, data.1))
            } else {
                post.store == pre.store
            }
            &&& handoff is None
        },
        Request::DHTFindKey { key_id } => {
            &&& post == pre
            &&& resp == Some(pre.dht_find_reply(key_id % pre.ring))
            &&& handoff is None
        },
        Request::DHTDeleteKey { key_id } => {
            let k = key_id % pre.ring;
            &&& resp == Some(pre.dht_delete_reply(k))
            &&& same_except_pred_store(pre, post)
            &&& post.predecessor == pre.predecessor
            &&& if pre.owns(k) {
                post.store.entries@ == storage::remove_key(pre.store.entries@, k)
            } else {
                post.store == pre.store
            }
            &&& handoff is None
        },
        Request::DHTTakeOverKeys { data } => {
            &&& post.store.entries@ == storage::put_all(pre.store.entries@, data@, pre.ring)
            &&& same_except_pred_store(pre, post)
            &&& post.predecessor == pre.predecessor
            &&& resp is None
            &&& handoff is None
        },
    }
}

/// The response handler's full relation between the state before, the
/// state after and the follow-up message, one case per response kind.
pub open spec fn resp_transition(
    pre: Node,
    post: Node,
    response: Response,
    out: Option<Outbound>,
) -> bool {
    match response {
        Response::FoundSuccessor { successor } => {
            let s = (OtherNode { id: successor.id % pre.ring, ip_addr: successor.ip_addr });
            &&& post.successor_list.entries@ == seq![s] + successors::without_id(
                pre.successor_list.entries@.subrange(
                    1,
                    pre.successor_list.entries@.len() as int,
                ),
                s.id,
            )
            &&& post.successor_list.cap == pre.successor_list.cap
            &&& post.fingers.entries@ == pre.fingers.entries@.update(
                0,
                (FingerEntry { start: pre.fingers.entries@[0].start, node: s }),
            )
            &&& post.joined
            &&& same_except_tables(pre, post)
            &&& out is None
        },
        Response::AskFurther { next_node } => {
            &&& post == pre
            &&& out == Some(Outbound {
                dest: next_node.ip_addr,
                message: Message::RequestMessage {
                    sender: pre.self_ref(),
                    request: Request::FindSuccessor { id: pre.id },
                },
            })
        },
        Response::GetPredecessorResponse { predecessor } => {
            let xn = (OtherNode {
                id: predecessor.unwrap().id % pre.ring,
                ip_addr: predecessor.unwrap().ip_addr,
            });
            &&& if predecessor is Some && pre.gp_advances(xn) {
                &&& post.successor_list.entries@ == successors::take_up_to(
                    seq![xn] + successors::without_id(pre.successor_list.entries@, xn.id),
                    pre.successor_list.cap as int,
                )
                &&& post.successor_list.cap == pre.successor_list.cap
                &&& post.fingers.entries@ == pre.fingers.entries@.update(
                    0,
                    (FingerEntry { start: pre.fingers.entries@[0].start, node: xn }),
                )
                &&& same_except_tables(pre, post)
                &&& post.joined == pre.joined
            } else {
                post == pre
            }
            &&& out == Some(Outbound {
                dest: post.succ().ip_addr,
                message: Message::RequestMessage {
                    sender: pre.self_ref(),
                    request: Request::Notify { node: pre.self_ref() },
                },
            })
        },
        Response::NotifyResponse => {
            &&& post == pre
            &&& out is None
        },
        Response::FoundSuccessorFinger { index, finger_id: _, successor } => {
            let s = (OtherNode { id: successor.id % pre.ring, ip_addr: successor.ip_addr });
            &&& if 1 <= index < pre.bits {
                &&& post.fingers.entries@ == pre.fingers.entries@.update(
                    index as int,
                    (FingerEntry { start: pre.fingers.entries@[index as int].start, node: s }),
                )
                &&& post.successor_list == pre.successor_list
                &&& same_except_tables(pre, post)
                &&& post.joined == pre.joined
            } else {
                post == pre
            }
            &&& out is None
        },
        Response::AskFurtherFinger { index, finger_id, next_node } => {
            &&& post == pre
            &&& out == Some(Outbound {
                dest: next_node.ip_addr,
                message: Message::RequestMessage {
                    sender: pre.self_ref(),
                    request: Request::FindSuccessorFinger { index, finger_id },
                },
            })
        },
        Response::GetSuccessorListResponse { successor_list } => {
            &&& post.successor_list.entries@ == successors::merge_extend(
                seq![pre.succ()],
                successor_list@,
                pre.id,
                pre.successor_list.cap as int,
                pre.ring,
            )
            &&& post.successor_list.cap == pre.successor_list.cap
            &&& post.fingers == pre.fingers
            &&& same_except_tables(pre, post)
            &&& post.joined == pre.joined
            &&& out is None
        },
        Response::DHTStoredKey { key: _ } => {
            &&& post == pre
            &&& out is None
        },
        Response::DHTFoundKey { data: _ } => {
            &&& post == pre
            &&& out is None
        },
        Response::DHTDeletedKey { key_existed: _ } => {
            &&& post == pre
            &&& out is None
        },
        Response::DHTAskFurtherStore { next_node, data } => {
            &&& post == pre
            &&& out == Some(Outbound {
                dest: next_node.ip_addr,
                message: Message::RequestMessage {
                    sender: pre.self_ref(),
                    request: Request::DHTStoreKey { data },
                },
            })
        },
        Response::DHTAskFurtherFind { next_node, key_id } => {
            &&& post == pre
            &&& out == Some(Outbound {
                dest: next_node.ip_addr,
                message: Message::RequestMessage {
                    sender: pre.self_ref(),
                    request: Request::DHTFindKey { key_id },
                },
            })
        },
        Response::DHTAskFurtherDelete { next_node, key_id } => {
            &&& post == pre
            &&& out == Some(Outbound {
                dest: next_node.ip_addr,
                message: Message::RequestMessage {
                    sender: pre.self_ref(),
                    request: Request::DHTDeleteKey { key_id },
                },
            })
        },
    }
}

/// What the message dispatcher decides: whether to shut the process
/// down, the reply owed to the sender, and at most one more message.
pub struct MessageOutcome {
    pub shutdown: bool,
    pub reply: Option<Outbound>,
    pub extra: Option<Outbound>,
}

/// The dispatcher's relation: a `Kill` asks for shutdown, a `Ping` is
/// answered by accepting the connection, a request is handled and its
/// reply addressed to the sender, and a response is applied.
pub open spec fn msg_transition(pre: Node, post: Node, message: Message, r: MessageOutcome) -> bool {
    match message {
        Message::Kill => {
            &&& post == pre
            &&& r.shutdown
            &&& r.reply is None
            &&& r.extra is None
        },
        Message::Ping { sender: _ } => {
            &&& post == pre
            &&& !r.shutdown
            &&& r.reply is None
            &&& r.extra is None
        },
        Message::RequestMessage { sender, request } => {
            &&& !r.shutdown
            &&& (match r.reply {
                Some(ob) => {
                    &&& ob.dest == sender.ip_addr
                    &&& (match ob.message {
                        Message::ResponseMessage { sender: replier, response } => {
                            &&& replier == post.self_ref()
                            &&& req_transition(pre, post, request, Some(response), r.extra)
                        },
                        _ => false,
                    })
                },
                None => req_transition(pre, post, request, None, r.extra),
            })
        },
        Message::ResponseMessage { sender: _, response } => {
            &&& !r.shutdown
            &&& r.reply is None
            &&& resp_transition(pre, post, response, r.extra)
        },
    }
}

/// Law: at every well-formed state the first finger points at the same
/// peer as the successor-list head.
pub proof fn lemma_successor_finger_agreement(n: Node)
    requires
        n.wf(),
    ensures
        n.fingers.entries@[0].node.id == n.successor_list.entries@[0].id,
{
}

/// Law: at every state satisfying the ownership invariant, a locally
/// stored key lies in `(predecessor.id, self.id]` in ring order.
pub proof fn lemma_store_ownership(n: Node, i: int)
    requires
        n.store_owned(),
        n.predecessor is Some,
        0 <= i < n.store.entries@.len(),
    ensures
        chord::spec_in_half_open(
            n.predecessor.unwrap().id as int,
            n.id as int,
            n.store.entries@[i].0 as int,
            n.ring as int,
        ),
{
}

/// Law: applying `Notify` from the same candidate twice leaves the same
/// predecessor as applying it once, and the second application changes
/// nothing.
pub proof fn lemma_notify_idempotent(n: Node, c: OtherNode)
    ensures
        (Node { predecessor: n.notify_new_pred(c), ..n }).notify_new_pred(c) == n.notify_new_pred(
            c,
        ),
        !(Node { predecessor: n.notify_new_pred(c), ..n }).notify_changes(c),
{
}

/// Law: after a store of `e` under an owned key `k` succeeds, a find of
/// `k` on the resulting state returns exactly `e`.
pub proof fn lemma_store_then_find(n1: Node, n2: Node, k: u64, e: DHTEntry)
    requires
        n1.owns(k),
        n2.store.entries@ == storage::remove_key(n1.store.entries@, k).push((k, e)),
        n2.predecessor == n1.predecessor,
        n2.id == n1.id,
        n2.ring == n1.ring,
    ensures
        n2.owns(k),
        n2.dht_find_reply(k) == (Response::DHTFoundKey { data: (k, Some(e)) }),
{
    storage::lemma_put_then_lookup(n1.store.entries@, k, e, k);
}

/// Law: after a delete of an owned key `k`, a find of `k` on the
/// resulting state returns nothing.
pub proof fn lemma_delete_then_find(n1: Node, n2: Node, k: u64)
    requires
        n1.owns(k),
        n2.store.entries@ == storage::remove_key(n1.store.entries@, k),
        n2.predecessor == n1.predecessor,
        n2.id == n1.id,
        n2.ring == n1.ring,
    ensures
        n2.owns(k),
        n2.dht_find_reply(k) == (Response::DHTFoundKey { data: (k, None::<DHTEntry>) }),
{
    storage::lemma_remove_then_lookup(n1.store.entries@, k, k);
}

/// Copy an optional peer reference.
fn clone_opt_peer(p: &Option<OtherNode>) -> (r: Option<OtherNode>)
    ensures
        r == *p,
{
    match p {
        None => None,
        Some(x) => Some(x.clone()),
    }
}

} // verus!
