//! Ring arithmetic and identifier hashing.

use chord_dht::chord;

const R: u64 = 64;

#[test]
fn mod_ring_reduces() {
    assert_eq!(chord::mod_ring(0, R), 0);
    assert_eq!(chord::mod_ring(63, R), 63);
    assert_eq!(chord::mod_ring(64, R), 0);
    assert_eq!(chord::mod_ring(130, R), 2);
}

#[test]
fn ring_distance_wraps() {
    assert_eq!(chord::ring_distance(10, 30, R), 20);
    assert_eq!(chord::ring_distance(30, 10, R), 44);
    assert_eq!(chord::ring_distance(10, 10, R), 0);
    assert_eq!(chord::ring_distance(63, 0, R), 1);
}

#[test]
fn open_interval_basics() {
    assert!(chord::in_open_interval(10, 30, 20, R));
    assert!(!chord::in_open_interval(10, 30, 10, R));
    assert!(!chord::in_open_interval(10, 30, 30, R));
    assert!(!chord::in_open_interval(10, 30, 35, R));
    // Wrapping interval (50, 10).
    assert!(chord::in_open_interval(50, 10, 60, R));
    assert!(chord::in_open_interval(50, 10, 5, R));
    assert!(!chord::in_open_interval(50, 10, 20, R));
    // Equal endpoints mean the full ring.
    assert!(chord::in_open_interval(10, 10, 45, R));
    assert!(chord::in_open_interval(10, 10, 10, R));
}

#[test]
fn half_open_interval_basics() {
    assert!(chord::in_half_open(10, 30, 30, R));
    assert!(!chord::in_half_open(10, 30, 10, R));
    assert!(chord::in_half_open(10, 30, 20, R));
    assert!(!chord::in_half_open(10, 30, 31, R));
    assert!(chord::in_half_open(50, 10, 10, R));
    assert!(chord::in_half_open(50, 10, 0, R));
    assert!(chord::in_half_open(7, 7, 42, R));
}

#[test]
fn is_in_interval_excludes_both_endpoints() {
    assert!(!chord::is_in_interval(10, 30, 10, R));
    assert!(!chord::is_in_interval(10, 30, 30, R));
    assert!(chord::is_in_interval(10, 30, 29, R));
    assert!(chord::is_in_interval(10, 30, 11, R));
    assert!(chord::is_in_interval(10, 10, 45, R));
    assert!(chord::is_in_interval(50, 10, 60, R));
    assert!(!chord::is_in_interval(50, 10, 50, R));
}

#[test]
fn chord_abs_is_backward_distance() {
    assert_eq!(chord::chord_abs(30, 10, R), 20);
    assert_eq!(chord::chord_abs(10, 30, R), 44);
    assert_eq!(chord::chord_abs(10, 10, R), 0);
}

#[test]
fn ownership_rule() {
    // A node 30 with predecessor 10 owns (10, 30].
    assert!(chord::is_my_key(30, 10, 30, R));
    assert!(chord::is_my_key(30, 10, 11, R));
    assert!(!chord::is_my_key(30, 10, 10, R));
    assert!(!chord::is_my_key(30, 10, 31, R));
    // A node that is its own predecessor owns the full ring.
    assert!(chord::is_my_key(10, 10, 45, R));
}

#[test]
fn open_interval_rotation_instances() {
    // Shifting all three identifiers by the same offset keeps membership.
    for c in 0..64u64 {
        assert_eq!(
            chord::in_open_interval(10, 30, 20, R),
            chord::in_open_interval((10 + c) % R, (30 + c) % R, (20 + c) % R, R)
        );
        assert_eq!(
            chord::in_open_interval(50, 10, 20, R),
            chord::in_open_interval((50 + c) % R, (10 + c) % R, (20 + c) % R, R)
        );
    }
}

#[test]
fn digits_reduce_big_endian() {
    // [1, 2] read big-endian is 258.
    let bytes = vec![1u8, 2u8];
    assert_eq!(chord_dht::chord::id_from_digits(&bytes, 1 << 24), 258);
    // Reduction modulo a small ring.
    assert_eq!(chord_dht::chord::id_from_digits(&bytes, 64), 258 % 64);
    let empty: Vec<u8> = vec![];
    assert_eq!(chord_dht::chord::id_from_digits(&empty, 64), 0);
}

#[test]
fn create_id_matches_sha1() {
    // SHA-1("abc") prints as a9993e364706816aba3e25717850c26c9cd0d89d; the
    // identifier is the ASCII bytes of that text read big-endian modulo
    // 2^24, i.e. the codes of the last three characters '8' '9' 'd'.
    let expected = (0x38u64 << 16) | (0x39u64 << 8) | 0x64u64;
    assert_eq!(chord::create_id("abc"), expected);
    assert_eq!(chord::create_node_id("abc"), expected);
    // Identifiers are deterministic and on the default ring.
    let a = chord::create_id("127.0.0.1:8080");
    let b = chord::create_id("127.0.0.1:8080");
    assert_eq!(a, b);
    assert!(a < chord::CHORD_RING_SIZE);
    assert_ne!(chord::create_id("x"), chord::create_id("y"));
}
