//! The wire protocol: tagged request, response and notification values,
//! and the outbound envelope that handlers ask the transport to send.

use vstd::prelude::*;

use crate::node::OtherNode;
use crate::storage::DHTEntry;

verus! {

/// A named operation sent to a peer, expecting a `Response`.
pub enum Request {
    FindSuccessor { id: u64 },
    GetPredecessor,
    Notify { node: OtherNode },
    FindSuccessorFinger { index: usize, finger_id: u64 },
    GetSuccessorList,
    DHTStoreKey { data: (u64, DHTEntry) },
    DHTFindKey { key_id: u64 },
    DHTDeleteKey { key_id: u64 },
    DHTTakeOverKeys { data: Vec<(u64, DHTEntry)> },
}

/// The matched reply to a `Request`, routed back to the requester.
pub enum Response {
    FoundSuccessor { successor: OtherNode },
    AskFurther { next_node: OtherNode },
    GetPredecessorResponse { predecessor: Option<OtherNode> },
    NotifyResponse,
    FoundSuccessorFinger { index: usize, finger_id: u64, successor: OtherNode },
    AskFurtherFinger { index: usize, finger_id: u64, next_node: OtherNode },
    GetSuccessorListResponse { successor_list: Vec<OtherNode> },
    DHTStoredKey { key: String },
    DHTFoundKey { data: (u64, Option<DHTEntry>) },
    DHTDeletedKey { key_existed: bool },
    DHTAskFurtherStore { next_node: OtherNode, data: (u64, DHTEntry) },
    DHTAskFurtherFind { next_node: OtherNode, key_id: u64 },
    DHTAskFurtherDelete { next_node: OtherNode, key_id: u64 },
}

/// One framed value on the wire.
pub enum Message {
    Kill,
    Ping { sender: OtherNode },
    RequestMessage { sender: OtherNode, request: Request },
    ResponseMessage { sender: OtherNode, response: Response },
}

/// A message the caller is asked to send to `dest`.
pub struct Outbound {
    pub dest: String,
    pub message: Message,
}

} // verus!
