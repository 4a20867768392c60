//! Core of a Chord distributed-hash-table peer: the ring identifier space,
//! the node data model, the request/response protocol, and the periodic
//! maintenance decisions that keep successor, predecessor and finger
//! pointers consistent.  All networking lives outside this crate; the
//! functions here are pure state transitions with verified contracts.

pub mod chord;
pub mod finger;
pub mod node;
pub mod protocols;
pub mod storage;
pub mod successors;
