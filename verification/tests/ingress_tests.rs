use rns_vpn::addr::{Cidr, Ip};
use rns_vpn::ingress::{on_link_event, IngressAction, LinkEventKind, LinkEventMsg};
use rns_vpn::registry::Registry;

const DEST_A: &[u8] = b"000102030405060708090a0b0c0d0e0f";
const VAL_A: u128 = 0x000102030405060708090a0b0c0d0e0f;
const LOCAL: u128 = 0x1111_2222_3333_4444_5555_6666_7777_8888;
const FOREIGN: u128 = 0x9999_aaaa_bbbb_cccc_dddd_eeee_ffff_0000;

fn ip_a() -> Ip {
    Ip::V4(0x0a000002)
}

fn registry_with_link(link_id: u128) -> Registry {
    let mut reg = Registry::build(&vec![(
        Cidr { addr: ip_a(), prefix_len: 24 },
        DEST_A.to_vec(),
    )])
    .unwrap();
    assert_eq!(reg.try_begin_link(VAL_A), Some(ip_a()));
    assert!(reg.mark_link_id(ip_a(), link_id));
    reg
}

#[test]
fn local_data_event_writes_exact_payload() {
    let mut reg = registry_with_link(5);
    let payload = vec![1u8, 2, 3, 4, 5, 250];
    let ev = LinkEventMsg { id: 77, address_hash: LOCAL, kind: LinkEventKind::Data(payload.clone()) };
    // The payload reaches the interface byte for byte, whichever link carried it.
    assert_eq!(on_link_event(&mut reg, LOCAL, ev), IngressAction::WriteTun(payload));
}

#[test]
fn foreign_events_cause_no_write_and_no_change() {
    let mut reg = registry_with_link(5);
    let before = reg.lookup_by_ip(ip_a()).unwrap();
    let data = LinkEventMsg { id: 5, address_hash: FOREIGN, kind: LinkEventKind::Data(vec![1, 2]) };
    assert_eq!(on_link_event(&mut reg, LOCAL, data), IngressAction::Ignore);
    let activated = LinkEventMsg { id: 5, address_hash: FOREIGN, kind: LinkEventKind::Activated };
    assert_eq!(on_link_event(&mut reg, LOCAL, activated), IngressAction::Ignore);
    assert_eq!(reg.lookup_by_ip(ip_a()).unwrap(), before);
    assert!(!reg.lookup_by_ip(ip_a()).unwrap().link_active);
}

#[test]
fn local_activation_marks_matching_peer() {
    let mut reg = registry_with_link(5);
    let ev = LinkEventMsg { id: 5, address_hash: LOCAL, kind: LinkEventKind::Activated };
    assert_eq!(on_link_event(&mut reg, LOCAL, ev), IngressAction::Ignore);
    assert!(reg.lookup_by_ip(ip_a()).unwrap().link_active);
}

#[test]
fn unmatched_activation_leaves_peers_alone() {
    let mut reg = registry_with_link(5);
    let before = reg.lookup_by_ip(ip_a()).unwrap();
    let ev = LinkEventMsg { id: 6, address_hash: LOCAL, kind: LinkEventKind::Activated };
    assert_eq!(on_link_event(&mut reg, LOCAL, ev), IngressAction::Ignore);
    assert_eq!(reg.lookup_by_ip(ip_a()).unwrap(), before);
}

#[test]
fn closure_reports_only_and_keeps_stale_state() {
    let mut reg = registry_with_link(5);
    let activate = LinkEventMsg { id: 5, address_hash: LOCAL, kind: LinkEventKind::Activated };
    on_link_event(&mut reg, LOCAL, activate);
    let close = LinkEventMsg { id: 5, address_hash: LOCAL, kind: LinkEventKind::Closed };
    assert_eq!(on_link_event(&mut reg, LOCAL, close), IngressAction::Ignore);
    // Deliberately no cleanup: the peer keeps its recorded, active link.
    let peer = reg.lookup_by_ip(ip_a()).unwrap();
    assert_eq!(peer.link_id, Some(5));
    assert!(peer.link_active);
    // And no later announce starts a fresh attempt.
    assert_eq!(reg.try_begin_link(VAL_A), None);
}
