use rns_vpn::addr::{Cidr, Ip};
use rns_vpn::registry::{BuildError, Registry};

const DEST_A: &[u8] = b"000102030405060708090a0b0c0d0e0f";
const DEST_B: &[u8] = b"ffeeddccbbaa99887766554433221100";
const VAL_A: u128 = 0x000102030405060708090a0b0c0d0e0f;
const VAL_B: u128 = 0xffeeddccbbaa99887766554433221100;

fn ip_a() -> Ip {
    Ip::V4(0x0a000002)
}

fn ip_b() -> Ip {
    Ip::V4(0x0a000003)
}

fn cidr(addr: Ip) -> Cidr {
    Cidr { addr, prefix_len: 24 }
}

fn two_peer_registry() -> Registry {
    Registry::build(&vec![
        (cidr(ip_a()), DEST_A.to_vec()),
        (cidr(ip_b()), DEST_B.to_vec()),
    ])
    .unwrap()
}

#[test]
fn build_parses_destinations() {
    let reg = two_peer_registry();
    let a = reg.lookup_by_ip(ip_a()).unwrap();
    assert_eq!(a.dest, VAL_A);
    assert_eq!(a.link_id, None);
    assert!(!a.link_active);
    assert!(!a.link_reserved);
    let b = reg.lookup_by_ip(ip_b()).unwrap();
    assert_eq!(b.dest, VAL_B);
    assert_eq!(reg.lookup_by_ip(Ip::V4(0x0a000009)), None);
}

#[test]
fn build_rejects_bad_destination_hex() {
    let r = Registry::build(&vec![
        (cidr(ip_a()), DEST_A.to_vec()),
        (cidr(ip_b()), b"not hex at all".to_vec()),
    ]);
    assert_eq!(r.err(), Some(BuildError::BadDestHex { index: 1 }));
}

#[test]
fn build_rejects_repeated_address() {
    let r = Registry::build(&vec![
        (Cidr { addr: ip_a(), prefix_len: 24 }, DEST_A.to_vec()),
        (Cidr { addr: ip_a(), prefix_len: 16 }, DEST_B.to_vec()),
    ]);
    assert_eq!(r.err(), Some(BuildError::DuplicateIp { index: 1 }));
}

#[test]
fn announce_reserves_one_attempt() {
    let mut reg = two_peer_registry();
    assert_eq!(reg.try_begin_link(VAL_A), Some(ip_a()));
    let a = reg.lookup_by_ip(ip_a()).unwrap();
    assert!(a.link_reserved);
    assert_eq!(a.link_id, None);
    // A repeated announce while the attempt is in flight selects nothing.
    assert_eq!(reg.try_begin_link(VAL_A), None);
}

#[test]
fn repeated_announce_after_recorded_link_is_ignored() {
    let mut reg = two_peer_registry();
    assert_eq!(reg.try_begin_link(VAL_A), Some(ip_a()));
    assert!(reg.mark_link_id(ip_a(), 7777));
    let a = reg.lookup_by_ip(ip_a()).unwrap();
    assert_eq!(a.link_id, Some(7777));
    assert!(!a.link_active);
    assert!(!a.link_reserved);
    // Announces keep arriving; no second attempt ever starts.
    assert_eq!(reg.try_begin_link(VAL_A), None);
    assert_eq!(reg.try_begin_link(VAL_A), None);
}

#[test]
fn announce_for_unknown_destination_selects_nothing() {
    let mut reg = two_peer_registry();
    assert_eq!(reg.try_begin_link(0xdead_beef), None);
    assert_eq!(reg.lookup_by_ip(ip_a()).unwrap().link_id, None);
}

#[test]
fn mark_link_id_without_reservation_is_refused() {
    let mut reg = two_peer_registry();
    assert!(!reg.mark_link_id(ip_a(), 7777));
    assert_eq!(reg.lookup_by_ip(ip_a()).unwrap().link_id, None);
}

#[test]
fn activation_marks_matching_peer() {
    let mut reg = two_peer_registry();
    reg.try_begin_link(VAL_A);
    reg.mark_link_id(ip_a(), 7777);
    reg.mark_active(7777);
    let a = reg.lookup_by_ip(ip_a()).unwrap();
    assert!(a.link_active);
    assert_eq!(a.link_id, Some(7777));
    let b = reg.lookup_by_ip(ip_b()).unwrap();
    assert!(!b.link_active);
}

#[test]
fn unmatched_activation_changes_no_peer() {
    let mut reg = two_peer_registry();
    reg.try_begin_link(VAL_A);
    reg.mark_link_id(ip_a(), 7777);
    let before_a = reg.lookup_by_ip(ip_a()).unwrap();
    let before_b = reg.lookup_by_ip(ip_b()).unwrap();
    reg.mark_active(8888);
    assert_eq!(reg.lookup_by_ip(ip_a()).unwrap(), before_a);
    assert_eq!(reg.lookup_by_ip(ip_b()).unwrap(), before_b);
}

#[test]
fn two_peers_with_one_destination_get_their_own_attempts() {
    let mut reg = Registry::build(&vec![
        (cidr(ip_a()), DEST_A.to_vec()),
        (cidr(ip_b()), DEST_A.to_vec()),
    ])
    .unwrap();
    assert_eq!(reg.try_begin_link(VAL_A), Some(ip_a()));
    assert!(reg.mark_link_id(ip_a(), 1));
    assert_eq!(reg.try_begin_link(VAL_A), Some(ip_b()));
    assert!(reg.mark_link_id(ip_b(), 2));
    assert_eq!(reg.try_begin_link(VAL_A), None);
}
