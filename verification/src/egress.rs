//! Egress: the decision taken for each raw IP packet read from the virtual
//! interface.  The packet's destination address is read out of its IP
//! header by the parsing crate; the routing decision over the registry is
//! verified for every possible parse result.

use vstd::prelude::*;

use crate::addr::Ip;
use crate::registry::{has_ip, peer_of, Peer, Registry};

verus! {

/// The destination address the IP header of a packet carries, or `None`
/// where the bytes do not parse as an IP packet; a function of the packet
/// bytes alone.
pub uninterp spec fn parsed_ip_destination(packet: Seq<u8>) -> Option<Ip>;

/// Relies on `etherparse::IpHeaders::from_slice` to parse the packet's IP
/// header, of either address family, and hand out its destination address;
/// the result depends on the packet bytes alone.
#[verifier::external_body]
fn parse_ip_destination(packet: &Vec<u8>) -> (r: Option<Ip>)
    ensures
        r == parsed_ip_destination(packet@),
{
    match etherparse::IpHeaders::from_slice(packet.as_slice()) {
        Ok((headers, _)) => {
            if let Some((h, _)) = headers.ipv4() {
                Some(Ip::V4(u32::from_be_bytes(h.destination)))
            } else if let Some((h, _)) = headers.ipv6() {
                Some(Ip::V6(u128::from_be_bytes(h.destination)))
            } else {
                None
            }
        },
        Err(_) => None,
    }
}

/// What happens to one egress packet.  Every drop is local: no drop fails
/// the run, and egress never starts link establishment.
#[derive(Clone, Copy, Debug, PartialEq, Eq)]
pub enum EgressAction {
    /// The bytes do not parse as an IP packet: drop, logged by the caller.
    DropUnparsed,
    /// No peer is configured at the destination address: drop silently.
    DropNoPeer,
    /// The peer has no recorded link yet: drop; only announces start one.
    DropNoLink,
    /// Hand the packet to the transport: the payload is the packet itself,
    /// sent on the peer's recorded link to its destination.
    Forward { dest: u128, link_id: u128 },
}

/// The routing decision for one egress packet, given the parse of its
/// destination address.
pub open spec fn egress_action(s: Seq<(Ip, Peer)>, dest_ip: Option<Ip>) -> EgressAction {
    match dest_ip {
        None => EgressAction::DropUnparsed,
        Some(ip) => if !has_ip(s, ip) {
            EgressAction::DropNoPeer
        } else {
            let p = peer_of(s, ip);
            match p.link_id {
                None => EgressAction::DropNoLink,
                Some(l) => EgressAction::Forward { dest: p.dest, link_id: l },
            }
        },
    }
}

/// Route one egress packet whose destination address has already been
/// parsed: the decision is exactly `egress_action`.
pub fn route_egress(reg: &Registry, dest_ip: Option<Ip>) -> (r: EgressAction)
    ensures
        r == egress_action(reg@, dest_ip),
{
    match dest_ip {
        None => EgressAction::DropUnparsed,
        Some(ip) => match reg.lookup_by_ip(ip) {
            None => EgressAction::DropNoPeer,
            Some(p) => match p.link_id {
                None => EgressAction::DropNoLink,
                Some(l) => EgressAction::Forward { dest: p.dest, link_id: l },
            },
        },
    }
}

/// Handle one raw packet read from the virtual interface: parse its
/// destination address and route it.  The caller transmits the packet
/// bytes verbatim where the decision says `Forward`, and drops them
/// otherwise.
pub fn handle_egress_packet(reg: &Registry, packet: &Vec<u8>) -> (r: EgressAction)
    ensures
        r == egress_action(reg@, parsed_ip_destination(packet@)),
{
    let dest_ip = parse_ip_destination(packet);
    route_egress(reg, dest_ip)
}

} // verus!
