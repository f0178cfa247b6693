//! Ingress: the handling of each inbound link event the mesh transport
//! reports.  Events are scoped by the destination they belong to: only
//! events for the local destination act; a data event becomes an interface
//! write, an activation event marks the matching peer's link active, and a
//! closure event is deliberately left without state cleanup.

use vstd::prelude::*;

use crate::addr::Ip;
use crate::registry::{spec_mark_active, Peer, Registry};

verus! {

/// What an inbound link event carries, in plain values.
#[derive(Debug, PartialEq, Eq)]
pub enum LinkEventKind {
    /// A data payload arrived on the link.
    Data(Vec<u8>),
    /// The transport reports the link usable for data.
    Activated,
    /// The transport reports the link closed.
    Closed,
}

/// One inbound link event: the link's identifier, the destination the
/// event is scoped to, and what it carries.
#[derive(Debug, PartialEq, Eq)]
pub struct LinkEventMsg {
    pub id: u128,
    pub address_hash: u128,
    pub kind: LinkEventKind,
}

/// What the caller does after one link event.
#[derive(Debug, PartialEq, Eq)]
pub enum IngressAction {
    /// Nothing: the event was not a data event for the local destination.
    Ignore,
    /// Write this payload, verbatim, to the virtual interface.
    WriteTun(Vec<u8>),
}

/// The registry after one link event: only an activation event scoped to
/// the local destination changes it.
pub open spec fn spec_ingress_registry(
    s: Seq<(Ip, Peer)>,
    local: u128,
    ev: LinkEventMsg,
) -> Seq<(Ip, Peer)> {
    if ev.address_hash == local && ev.kind is Activated {
        spec_mark_active(s, ev.id)
    } else {
        s
    }
}

/// The interface action after one link event: exactly the payload of a
/// data event scoped to the local destination is written, whichever link
/// it arrived on.
pub open spec fn spec_ingress_action(local: u128, ev: LinkEventMsg) -> IngressAction {
    match ev.kind {
        LinkEventKind::Data(payload) => if ev.address_hash == local {
            IngressAction::WriteTun(payload)
        } else {
            IngressAction::Ignore
        },
        LinkEventKind::Activated => IngressAction::Ignore,
        LinkEventKind::Closed => IngressAction::Ignore,
    }
}

/// Handle one inbound link event against the registry of peers.  Events
/// scoped to another destination sharing the transport are ignored whole.
/// A closure event only reports: the peer's recorded link state is
/// deliberately left in place, exactly as observed behaviour has it, so
/// the caller may log it distinctly.
pub fn on_link_event(reg: &mut Registry, local: u128, ev: LinkEventMsg) -> (r: IngressAction)
    ensures
        final (reg)@ == spec_ingress_registry(old(reg)@, local, ev),
        r == spec_ingress_action(local, ev),
{
    let foreign = ev.address_hash != local;
    match ev.kind {
        LinkEventKind::Data(payload) => {
            if foreign {
                IngressAction::Ignore
            } else {
                IngressAction::WriteTun(payload)
            }
        },
        LinkEventKind::Activated => {
            if !foreign {
                reg.mark_active(ev.id);
            }
            IngressAction::Ignore
        },
        LinkEventKind::Closed => IngressAction::Ignore,
    }
}

} // verus!
