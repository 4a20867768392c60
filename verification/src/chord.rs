//! Ring identifier arithmetic on the m-bit Chord circle.
//!
//! Identifiers are integers in `[0, R)` where `R = 2^m` is the ring size.
//! The interval predicates below are the only legitimate way to compare
//! identifiers; ordinary integer order never decides placement.

use vstd::prelude::*;

use crate::finger::FingerEntry;
use crate::node;
use crate::node::Node;
use crate::protocols::Message;
use crate::protocols::Outbound;
use crate::protocols::Request;
use crate::successors;

verus! {

/// Default ring bit-width m.
pub const CHORD_CIRCLE_BITS: usize = 24;

/// Number of finger-table entries, one per ring bit.
pub const FINGERTABLE_SIZE: usize = CHORD_CIRCLE_BITS;

/// Length of the successor backup list.
pub const SUCCESSORLIST_SIZE: usize = CHORD_CIRCLE_BITS;

/// Default ring size `R = 2^CHORD_CIRCLE_BITS`.
pub const CHORD_RING_SIZE: u64 = 0x1000000;

/// `2^e` as a mathematical integer.
pub open spec fn pow2(e: nat) -> nat
    decreases e,
{
    if e == 0 {
        1
    } else {
        2 * pow2((e - 1) as nat)
    }
}

pub proof fn lemma_pow2_pos(e: nat)
    ensures
        pow2(e) >= 1,
    decreases e,
{
    if e > 0 {
        lemma_pow2_pos((e - 1) as nat);
    }
}

pub proof fn lemma_pow2_increases(e1: nat, e2: nat)
    requires
        e1 <= e2,
    ensures
        pow2(e1) <= pow2(e2),
    decreases e2,
{
    if e1 < e2 {
        lemma_pow2_increases(e1, (e2 - 1) as nat);
        lemma_pow2_pos((e2 - 1) as nat);
    }
}

pub proof fn lemma_pow2_strictly_increases(e1: nat, e2: nat)
    requires
        e1 < e2,
    ensures
        pow2(e1) < pow2(e2),
{
    lemma_pow2_increases(e1, (e2 - 1) as nat);
    lemma_pow2_pos(e1);
}

pub proof fn lemma_pow2_63()
    ensures
        pow2(63) == 0x8000000000000000,
{
    assert(pow2(63) == 0x8000000000000000) by {
        reveal_with_fuel(pow2, 64);
    }
}

/// Ring size `2^bits` as a machine integer.
pub fn ring_size(bits: usize) -> (r: u64)
    requires
        1 <= bits <= 63,
    ensures
        r == pow2(bits as nat),
{
    let mut p: u64 = 1;
    let mut i: usize = 0;
    while i < bits
        invariant
            i <= bits,
            bits <= 63,
            p == pow2(i as nat),
        decreases bits - i,
    {
        proof {
            lemma_pow2_increases((i + 1) as nat, 63);
            lemma_pow2_63();
        }
        p = p * 2;
        i = i + 1;
    }
    p
}

/// Clockwise distance from `a` to `b` on a ring of size `r`,
/// for identifiers already reduced into `[0, r)`.
pub open spec fn ring_dist(a: int, b: int, r: int) -> int {
    if b >= a {
        b - a
    } else {
        r + b - a
    }
}

/// `x` lies strictly between `a` and `b` walking clockwise; when `a == b`
/// the interval is the full ring.
pub open spec fn spec_in_open_interval(a: int, b: int, x: int, r: int) -> bool {
    a == b || (0 < ring_dist(a, x, r) && ring_dist(a, x, r) < ring_dist(a, b, r))
}

/// `x` lies in `(a, b]` walking clockwise: strict on the left, inclusive on
/// the right; when `a == b` the interval is the full ring.
pub open spec fn spec_in_half_open(a: int, b: int, x: int, r: int) -> bool {
    a == b || (0 < ring_dist(a, x, r) && ring_dist(a, x, r) <= ring_dist(a, b, r))
}

/// Reduce an arbitrary identifier into the ring `[0, ring)`.
pub fn mod_ring(x: u64, ring: u64) -> (r: u64)
    requires
        ring >= 1,
    ensures
        r == x % ring,
        r < ring,
{
    x % ring
}

/// Clockwise distance `(b - a) mod R` from `a` to `b`.
pub fn ring_distance(a: u64, b: u64, ring: u64) -> (r: u64)
    requires
        a < ring,
        b < ring,
    ensures
        r as int == ring_dist(a as int, b as int, ring as int),
        r < ring,
{
    if b >= a {
        b - a
    } else {
        ring - a + b
    }
}

/// True iff `id` lies strictly between `first` and `second` on the ring;
/// the full ring when `first == second`.
pub fn in_open_interval(first: u64, second: u64, id: u64, ring: u64) -> (r: bool)
    requires
        first < ring,
        second < ring,
        id < ring,
    ensures
        r == spec_in_open_interval(first as int, second as int, id as int, ring as int),
{
    if first == second {
        true
    } else {
        let d_id = ring_distance(first, id, ring);
        let d_end = ring_distance(first, second, ring);
        0 < d_id && d_id < d_end
    }
}

/// True iff `id` lies in `(first, second]` on the ring; the full ring when
/// `first == second`.
pub fn in_half_open(first: u64, second: u64, id: u64, ring: u64) -> (r: bool)
    requires
        first < ring,
        second < ring,
        id < ring,
    ensures
        r == spec_in_half_open(first as int, second as int, id as int, ring as int),
{
    if first == second {
        true
    } else {
        let d_id = ring_distance(first, id, ring);
        let d_end = ring_distance(first, second, ring);
        0 < d_id && d_id <= d_end
    }
}

/// True iff `id` lies strictly between `first` and `second` on the ring,
/// both endpoints excluded; the full ring when `first == second`.
pub fn is_in_interval(first: u64, second: u64, id: u64, ring: u64) -> (r: bool)
    requires
        first < ring,
        second < ring,
        id < ring,
    ensures
        r == spec_in_open_interval(first as int, second as int, id as int, ring as int),
{
    in_open_interval(first, second, id, ring)
}

/// Clockwise distance from `b` back to `a`: `(a - b) mod R`.
pub fn chord_abs(a: u64, b: u64, ring: u64) -> (r: u64)
    requires
        a < ring,
        b < ring,
    ensures
        r as int == ring_dist(b as int, a as int, ring as int),
{
    if b > a {
        ring - b + a
    } else {
        a - b
    }
}

/// The key-ownership rule: a node with identifier `self_id` and predecessor
/// `pre_id` owns exactly the keys in `(pre_id, self_id]`.
pub fn is_my_key(self_id: u64, pre_id: u64, key_id: u64, ring: u64) -> (r: bool)
    requires
        self_id < ring,
        pre_id < ring,
        key_id < ring,
    ensures
        r == spec_in_half_open(pre_id as int, self_id as int, key_id as int, ring as int),
{
    self_id == key_id || (key_id != pre_id && is_in_interval(pre_id, self_id, key_id, ring))
}

/// The big-endian integer value of a byte string.
pub open spec fn digits_val(s: Seq<u8>) -> int
    decreases s.len(),
{
    if s.len() == 0 {
        0
    } else {
        digits_val(s.drop_last()) * 256 + s.last()
    }
}

/// The 40 hexadecimal-digit bytes that the SHA-1 digest of a string prints
/// as; the digest depends on the input characters alone.
pub uninterp spec fn sha1_hex_digits_of(s: Seq<char>) -> Seq<u8>;

/// Relies on crypto's `Sha1` with `Digest::input_str` and
/// `Digest::result_str`: the 160-bit digest is rendered as 40 lowercase
/// hexadecimal characters and depends on the input string alone.
#[verifier::external_body]
fn sha1_hex_digits(s: &str) -> (r: Vec<u8>)
    ensures
        r@ == sha1_hex_digits_of(s@),
        r@.len() == 40,
{
    let mut hasher = crypto::sha1::Sha1::new();
    crypto::digest::Digest::input_str(&mut hasher, s);
    let hex = crypto::digest::Digest::result_str(&mut hasher);
    hex.into_bytes()
}

/// Reduce the big-endian value of a byte string into the ring `[0, ring)`.
pub fn id_from_digits(bytes: &Vec<u8>, ring: u64) -> (r: u64)
    requires
        1 <= ring <= 0x100000000000000,
    ensures
        r as int == digits_val(bytes@) % (ring as int),
        r < ring,
{
    let mut acc: u64 = 0;
    let n = bytes.len();
    let mut i: usize = 0;
    proof {
        assert(bytes@.take(0) =~= Seq::<u8>::empty());
        vstd::arithmetic::div_mod::lemma_small_mod(0, ring as nat);
    }
    while i < n
        invariant
            i <= n,
            n == bytes@.len(),
            1 <= ring <= 0x100000000000000,
            acc as int == digits_val(bytes@.take(i as int)) % (ring as int),
            acc < ring,
        decreases n - i,
    {
        let b = bytes[i];
        proof {
            let prefix = bytes@.take(i as int);
            let longer = bytes@.take(i + 1);
            assert(longer.drop_last() =~= prefix);
            assert(longer.last() == bytes@[i as int]);
            let v = digits_val(prefix);
            let m = ring as int;
            vstd::arithmetic::div_mod::lemma_mul_mod_noop_left(v, 256, m);
            vstd::arithmetic::div_mod::lemma_add_mod_noop((v % m) * 256, b as int, m);
            vstd::arithmetic::div_mod::lemma_add_mod_noop(v * 256, b as int, m);
            vstd::arithmetic::div_mod::lemma_mod_twice(v * 256, m);
            vstd::arithmetic::div_mod::lemma_mod_twice(b as int, m);
            vstd::arithmetic::div_mod::lemma_mod_bound(v * 256 + b, m);
        }
        acc = (acc * 256 + b as u64) % ring;
        i = i + 1;
    }
    proof {
        assert(bytes@.take(n as int) =~= bytes@);
    }
    acc
}

/// Identifier of an arbitrary string: its SHA-1 digest, printed as
/// hexadecimal, read as a big-endian number and reduced modulo the ring
/// size.
pub fn create_id(string: &str) -> (r: u64)
    ensures
        r as int == digits_val(sha1_hex_digits_of(string@)) % (CHORD_RING_SIZE as int),
        r < CHORD_RING_SIZE,
{
    let digits = sha1_hex_digits(string);
    id_from_digits(&digits, CHORD_RING_SIZE)
}

/// Identifier of a peer: the hash of its printable network address.
pub fn create_node_id(ip_addr: &str) -> (r: u64)
    ensures
        r as int == digits_val(sha1_hex_digits_of(ip_addr@)) % (CHORD_RING_SIZE as int),
        r < CHORD_RING_SIZE,
{
    create_id(ip_addr)
}

/// Rotation invariance: whether `x` lies strictly between `a` and `b` does
/// not change when all three identifiers are shifted by the same offset `c`
/// around the ring.
pub proof fn lemma_in_open_interval_rotation(a: int, b: int, x: int, c: int, r: int)
    requires
        r >= 1,
        0 <= a < r,
        0 <= b < r,
        0 <= x < r,
    ensures
        spec_in_open_interval((a + c) % r, (b + c) % r, (x + c) % r, r) == spec_in_open_interval(
            a,
            b,
            x,
            r,
        ),
{
    let a2 = (a + c) % r;
    let b2 = (b + c) % r;
    let x2 = (x + c) % r;
    vstd::arithmetic::div_mod::lemma_mod_bound(a + c, r);
    vstd::arithmetic::div_mod::lemma_mod_bound(b + c, r);
    vstd::arithmetic::div_mod::lemma_mod_bound(x + c, r);
    lemma_ring_dist_shift(a, x, c, r);
    lemma_ring_dist_shift(a, b, c, r);
    lemma_ring_dist_zero(a, x, r);
    lemma_ring_dist_zero(a, b, r);
    lemma_ring_dist_zero(a2, x2, r);
    lemma_ring_dist_zero(a2, b2, r);
}

/// For in-range identifiers the branch-free characterization of the
/// clockwise distance agrees with the Euclidean remainder.
proof fn lemma_ring_dist_is_mod(a: int, b: int, r: int)
    requires
        r >= 1,
        0 <= a < r,
        0 <= b < r,
    ensures
        ring_dist(a, b, r) == (b - a) % r,
{
    if b >= a {
        vstd::arithmetic::div_mod::lemma_small_mod((b - a) as nat, r as nat);
    } else {
        vstd::arithmetic::div_mod::lemma_mod_add_multiples_vanish(b - a, r);
        vstd::arithmetic::div_mod::lemma_small_mod((r + b - a) as nat, r as nat);
    }
}

/// Shifting both endpoints by the same offset keeps the clockwise distance.
proof fn lemma_ring_dist_shift(a: int, b: int, c: int, r: int)
    requires
        r >= 1,
        0 <= a < r,
        0 <= b < r,
    ensures
        ring_dist((a + c) % r, (b + c) % r, r) == ring_dist(a, b, r),
{
    let a2 = (a + c) % r;
    let b2 = (b + c) % r;
    vstd::arithmetic::div_mod::lemma_mod_bound(a + c, r);
    vstd::arithmetic::div_mod::lemma_mod_bound(b + c, r);
    lemma_ring_dist_is_mod(a2, b2, r);
    lemma_ring_dist_is_mod(a, b, r);
    vstd::arithmetic::div_mod::lemma_sub_mod_noop(b + c, a + c, r);
    vstd::arithmetic::div_mod::lemma_mod_twice(b - a, r);
}

/// On a ring the clockwise distance is zero exactly between equal points.
proof fn lemma_ring_dist_zero(a: int, b: int, r: int)
    requires
        r >= 1,
        0 <= a < r,
        0 <= b < r,
    ensures
        (ring_dist(a, b, r) == 0) == (a == b),
{
}

/// What one stabilize tick decides, given which successor-list entries
/// answered a liveness probe.
pub enum StabilizeAction {
    /// The node has not joined yet; nothing to do.
    NotJoined,
    /// No entry of the successor list is alive: the ring is dead and the
    /// process must exit.
    RingDead,
    /// The first live entry became the successor; send it `msgs`.
    Stabilized { live_index: usize, msgs: Vec<Outbound> },
}

/// One stabilize tick: walk the successor list head first, make the first
/// live entry the successor, ask it for its predecessor, and refill the
/// backup list from it.  `alive[i]` reports the liveness probe of
/// successor-list entry `i`.
pub fn stabilize(node: &mut Node, alive: &Vec<bool>) -> (r: StabilizeAction)
    requires
        old(node).wf(),
        alive@.len() == old(node).successor_list.entries@.len(),
    ensures
        final(node).wf(),
        (match r {
            StabilizeAction::NotJoined => {
                &&& !old(node).joined
                &&& *final(node) == *old(node)
            },
            StabilizeAction::RingDead => {
                &&& old(node).joined
                &&& forall|i: int| 0 <= i < alive@.len() ==> !alive@[i]
                &&& *final(node) == *old(node)
            },
            StabilizeAction::Stabilized { live_index, msgs } => {
                let head = old(node).successor_list.entries@[live_index as int];
                &&& old(node).joined
                &&& 0 <= live_index < alive@.len()
                &&& alive@[live_index as int]
                &&& (forall|i: int| 0 <= i < live_index ==> !alive@[i])
                &&& final(node).successor_list.entries@ == old(
                    node,
                ).successor_list.entries@.skip(live_index as int)
                &&& final(node).successor_list.cap == old(node).successor_list.cap
                &&& final(node).fingers.entries@ == old(node).fingers.entries@.update(
                    0,
                    (FingerEntry { start: old(node).fingers.entries@[0].start, node: head }),
                )
                &&& node::same_except_tables(*old(node), *final(node))
                &&& final(node).joined == old(node).joined
                &&& msgs@.len() == 2
                &&& msgs@[0] == (Outbound {
                    dest: head.ip_addr,
                    message: Message::RequestMessage {
                        sender: old(node).self_ref(),
                        request: Request::GetPredecessor,
                    },
                })
                &&& msgs@[1] == (Outbound {
                    dest: head.ip_addr,
                    message: Message::RequestMessage {
                        sender: old(node).self_ref(),
                        request: Request::GetSuccessorList,
                    },
                })
            },
        }),
{
    if !node.is_joined() {
        return StabilizeAction::NotJoined;
    }
    let n = node.successor_list.len();
    let mut i: usize = 0;
    while i < n
        invariant
            i <= n,
            n == alive@.len(),
            *node == *old(node),
            node.wf(),
            node.joined,
            alive@.len() == node.successor_list.entries@.len(),
            forall|j: int| 0 <= j < i ==> !alive@[j],
        decreases n - i,
    {
        if alive[i] {
            let ghost pre = *node;
            if i > 0 {
                node.successor_list.drop_prefix(i);
                proof {
                    let sk = pre.successor_list.entries@.skip(i as int);
                    assert(forall|a: int| 0 <= a < sk.len() ==> sk[a] == pre.successor_list.entries@[a + i]);
                    assert(successors::no_dup_ids(sk));
                    assert(successors::ids_bounded(sk, pre.ring as int));
                }
            }
            let head = node.successor_list.head().clone();
            node.fingers.put(0, head.clone());
            let sender = node.to_other_node();
            let mut msgs: Vec<Outbound> = Vec::new();
            msgs.push(Outbound {
                dest: head.ip_addr.clone(),
                message: Message::RequestMessage { sender, request: Request::GetPredecessor },
            });
            msgs.push(Outbound {
                dest: head.ip_addr,
                message: Message::RequestMessage {
                    sender: node.to_other_node(),
                    request: Request::GetSuccessorList,
                },
            });
            return StabilizeAction::Stabilized { live_index: i, msgs };
        }
        i = i + 1;
    }
    StabilizeAction::RingDead
}

/// One fix-fingers tick: look up the owner of the next finger interval's
/// start through the current successor, and advance the cursor, wrapping
/// from the last entry back to 1 (entry 0 is the successor slot that
/// stabilize maintains).
pub fn fix_fingers(node: &mut Node) -> (r: Option<Outbound>)
    requires
        old(node).wf(),
    ensures
        final(node).wf(),
        !old(node).joined ==> r is None && *final(node) == *old(node),
        old(node).joined ==> {
            &&& r == Some(Outbound {
                dest: old(node).succ().ip_addr,
                message: Message::RequestMessage {
                    sender: old(node).self_ref(),
                    request: Request::FindSuccessorFinger {
                        index: old(node).next_finger,
                        finger_id: old(node).fingers.entries@[old(node).next_finger as int].start,
                    },
                },
            })
            &&& final(node).next_finger == (if old(node).next_finger + 1 < old(node).bits {
                old(node).next_finger + 1
            } else {
                1int
            })
            &&& *final(node) == (Node { next_finger: final(node).next_finger, ..*old(node) })
        },
{
    if !node.is_joined() {
        return None;
    }
    let idx = node.next_finger;
    let finger_id = node.fingers.entries[idx].start;
    let dest = node.successor_list.head().get_ip_addr().clone();
    let sender = node.to_other_node();
    let ob = Outbound {
        dest,
        message: Message::RequestMessage {
            sender,
            request: Request::FindSuccessorFinger { index: idx, finger_id },
        },
    };
    node.next_finger = if idx + 1 < node.bits {
        idx + 1
    } else {
        1
    };
    Some(ob)
}

/// One check-predecessor tick: clear a predecessor that failed its
/// liveness probe.  `predecessor_alive` reports that probe; it is read
/// only when a predecessor is set.
pub fn check_predecessor(node: &mut Node, predecessor_alive: bool)
    requires
        old(node).wf(),
    ensures
        final(node).wf(),
        (if old(node).joined && old(node).predecessor is Some && !predecessor_alive {
            final(node).predecessor is None
        } else {
            final(node).predecessor == old(node).predecessor
        }),
        *final(node) == (Node { predecessor: final(node).predecessor, ..*old(node) }),
{
    if node.is_joined() && !predecessor_alive && node.get_predecessor().is_some() {
        node.set_predecessor(None);
    }
}

} // verus!
