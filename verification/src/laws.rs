//! The router's laws: properties that hold of every registry and every
//! event, proved once and for all over the same spec functions the
//! executable functions' contracts use.

use vstd::prelude::*;

use crate::addr::Ip;
use crate::egress::{egress_action, EgressAction};
use crate::ingress::{spec_ingress_action, spec_ingress_registry, IngressAction, LinkEventKind, LinkEventMsg};
use crate::registry::{
    first_needs_link, first_needs_link_from, has_ip, needs_link, peer_of, peer_wf, registry_wf,
    reserve_peer, spec_mark_active, spec_mark_link_id, spec_try_begin_link, Peer,
};

verus! {

/// What the first-match scan returns: a position between the start and the
/// length; a peer needing a link where it is inside; no peer needing one
/// before it.
pub proof fn lemma_first_needs_link_from(s: Seq<(Ip, Peer)>, dest: u128, j: int)
    requires
        0 <= j <= s.len(),
    ensures
        j <= first_needs_link_from(s, dest, j) <= s.len(),
        first_needs_link_from(s, dest, j) < s.len() ==> needs_link(
            s[first_needs_link_from(s, dest, j)].1,
            dest,
        ),
        forall|m: int|
            j <= m < first_needs_link_from(s, dest, j) ==> !needs_link(
                (#[trigger] s[m]).1,
                dest,
            ),
    decreases s.len() - j,
{
    if j < s.len() && !needs_link(s[j].1, dest) {
        lemma_first_needs_link_from(s, dest, j + 1);
    }
}

/// Law: no transition moves, adds or removes a key.  An announce, a
/// recorded link identifier and an activation all leave the registry's
/// length and every virtual address in place.
pub proof fn law_keys_fixed(s: Seq<(Ip, Peer)>, dest: u128, ip: Ip, link_id: u128)
    ensures
        spec_try_begin_link(s, dest).0.len() == s.len(),
        forall|i: int|
            0 <= i < s.len() ==> (#[trigger] spec_try_begin_link(s, dest).0[i]).0 == s[i].0,
        spec_mark_link_id(s, ip, link_id).len() == s.len(),
        forall|i: int|
            0 <= i < s.len() ==> (#[trigger] spec_mark_link_id(s, ip, link_id)[i]).0 == s[i].0,
        spec_mark_active(s, link_id).len() == s.len(),
        forall|i: int|
            0 <= i < s.len() ==> (#[trigger] spec_mark_active(s, link_id)[i]).0 == s[i].0,
{
    lemma_first_needs_link_from(s, dest, 0);
}

/// Law: every transition keeps the per-peer invariant: an active link is a
/// recorded link, and a reservation stands only while none is recorded.
pub proof fn law_wf_preserved(s: Seq<(Ip, Peer)>, dest: u128, ip: Ip, link_id: u128)
    requires
        registry_wf(s),
    ensures
        registry_wf(spec_try_begin_link(s, dest).0),
        registry_wf(spec_mark_link_id(s, ip, link_id)),
        registry_wf(spec_mark_active(s, link_id)),
{
    lemma_first_needs_link_from(s, dest, 0);
    let t1 = spec_try_begin_link(s, dest).0;
    assert forall|a: int| 0 <= a < t1.len() implies peer_wf((#[trigger] t1[a]).1) by {
        assert(peer_wf(s[a].1));
    }
    assert forall|a: int, b: int| 0 <= a < b < t1.len() implies (#[trigger] t1[a]).0 != (
    #[trigger] t1[b]).0 by {
        assert(s[a].0 != s[b].0);
    }
    let t2 = spec_mark_link_id(s, ip, link_id);
    assert forall|a: int| 0 <= a < t2.len() implies peer_wf((#[trigger] t2[a]).1) by {
        assert(peer_wf(s[a].1));
    }
    assert forall|a: int, b: int| 0 <= a < b < t2.len() implies (#[trigger] t2[a]).0 != (
    #[trigger] t2[b]).0 by {
        assert(s[a].0 != s[b].0);
    }
    let t3 = spec_mark_active(s, link_id);
    assert forall|a: int| 0 <= a < t3.len() implies peer_wf((#[trigger] t3[a]).1) by {
        assert(peer_wf(s[a].1));
    }
    assert forall|a: int, b: int| 0 <= a < b < t3.len() implies (#[trigger] t3[a]).0 != (
    #[trigger] t3[b]).0 by {
        assert(s[a].0 != s[b].0);
    }
}

/// Law: an announce never starts a second link attempt at a peer whose
/// attempt has begun.  A peer whose link identifier is recorded, or whose
/// slot is reserved, is neither selected nor changed by any announce.
pub proof fn law_at_most_one_link_attempt(s: Seq<(Ip, Peer)>, dest: u128, i: int)
    requires
        registry_wf(s),
        0 <= i < s.len(),
        s[i].1.link_id is Some || s[i].1.link_reserved,
    ensures
        spec_try_begin_link(s, dest).0[i] == s[i],
        spec_try_begin_link(s, dest).1 != Some(s[i].0),
{
    lemma_first_needs_link_from(s, dest, 0);
    let k = first_needs_link(s, dest);
    if k < s.len() {
        assert(k != i);
        assert(s[k].0 != s[i].0);
    }
}

/// Law: repeated announces are idempotent per peer.  The peer one announce
/// selects for a link attempt is not selected again by the announce that
/// follows it.
pub proof fn law_no_repeat_attempt(s: Seq<(Ip, Peer)>, dest: u128)
    requires
        registry_wf(s),
        spec_try_begin_link(s, dest).1 is Some,
    ensures
        spec_try_begin_link(spec_try_begin_link(s, dest).0, dest).1 != spec_try_begin_link(
            s,
            dest,
        ).1,
{
    lemma_first_needs_link_from(s, dest, 0);
    let k = first_needs_link(s, dest);
    let t = spec_try_begin_link(s, dest).0;
    law_wf_preserved(s, dest, s[k].0, 0);
    assert(t[k].1 == reserve_peer(s[k].1));
    law_at_most_one_link_attempt(t, dest, k);
}

/// Law: an activation event whose link identifier no peer has recorded
/// leaves every peer unchanged.
pub proof fn law_unmatched_activation_is_noop(s: Seq<(Ip, Peer)>, link_id: u128)
    requires
        forall|i: int| 0 <= i < s.len() ==> (#[trigger] s[i]).1.link_id != Some(link_id),
    ensures
        spec_mark_active(s, link_id) == s,
{
    assert(spec_mark_active(s, link_id) =~= s);
}

/// Law: a packet whose destination address resolves to a peer with a
/// recorded link is forwarded on exactly that peer's destination and link.
pub proof fn law_egress_dispatch(s: Seq<(Ip, Peer)>, ip: Ip, dest: u128, link_id: u128)
    requires
        has_ip(s, ip),
        peer_of(s, ip).dest == dest,
        peer_of(s, ip).link_id == Some(link_id),
    ensures
        egress_action(s, Some(ip)) == (EgressAction::Forward { dest, link_id }),
{
}

/// Law: a packet whose destination address matches no registry key is
/// dropped: no peer is selected and nothing is forwarded.
pub proof fn law_drop_on_miss(s: Seq<(Ip, Peer)>, ip: Ip)
    requires
        !has_ip(s, ip),
    ensures
        egress_action(s, Some(ip)) == EgressAction::DropNoPeer,
{
}

/// Law: a data event scoped to the local destination writes exactly its
/// payload to the interface, once, whichever link it arrived on, and
/// changes no peer.
pub proof fn law_ingress_fan_in(s: Seq<(Ip, Peer)>, local: u128, ev: LinkEventMsg, payload: Vec<u8>)
    requires
        ev.address_hash == local,
        ev.kind == LinkEventKind::Data(payload),
    ensures
        spec_ingress_action(local, ev) == IngressAction::WriteTun(payload),
        spec_ingress_registry(s, local, ev) == s,
{
}

/// Law: a link event scoped to a foreign destination causes no interface
/// write and no registry change.
pub proof fn law_foreign_event_ignored(s: Seq<(Ip, Peer)>, local: u128, ev: LinkEventMsg)
    requires
        ev.address_hash != local,
    ensures
        spec_ingress_action(local, ev) == IngressAction::Ignore,
        spec_ingress_registry(s, local, ev) == s,
{
}

} // verus!
