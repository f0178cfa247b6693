//! The peer registry: a fixed mapping from each peer's virtual address to
//! its destination identifier and per-link lifecycle state.
//!
//! The key set is fixed at construction; the only mutable state is each
//! peer's link lifecycle, which moves from no link, over a reserved
//! attempt and a recorded link identifier, to an active link.  A closure
//! reported by the transport deliberately leaves that state in place, so a
//! peer whose link closed keeps its recorded identifier.

use vstd::prelude::*;
use vstd::pervasive::VecAdditionalExecFns;

use crate::addr::{dest_hex_value, valid_dest_hex, Cidr, Ip};

verus! {

/// One peer's destination identifier and link lifecycle state.
#[derive(Clone, Copy, Debug, PartialEq, Eq)]
pub struct Peer {
    /// The peer's destination identifier on the mesh transport.
    pub dest: u128,
    /// The identifier of the outbound link recorded for this peer, `None`
    /// until an attempt's link identifier comes back from the transport.
    pub link_id: Option<u128>,
    /// True once the transport has reported the recorded link usable.
    pub link_active: bool,
    /// True while a link attempt is reserved: the slot is taken but the
    /// transport has not yet returned the link's identifier.
    pub link_reserved: bool,
}

/// A peer's lifecycle fields are well formed: an active link is a recorded
/// link, and a reservation stands only while no identifier is recorded.
pub open spec fn peer_wf(p: Peer) -> bool {
    &&& p.link_active ==> p.link_id is Some
    &&& p.link_reserved ==> p.link_id is None
}

/// A freshly configured peer: no link attempt made yet.
pub open spec fn fresh_peer(dest: u128) -> Peer {
    Peer { dest, link_id: None, link_active: false, link_reserved: false }
}

/// The registry's virtual addresses are pairwise distinct and every peer
/// is well formed.
pub open spec fn registry_wf(s: Seq<(Ip, Peer)>) -> bool {
    &&& forall|i: int, j: int| 0 <= i < j < s.len() ==> (#[trigger] s[i]).0 != (#[trigger] s[j]).0
    &&& forall|i: int| 0 <= i < s.len() ==> peer_wf((#[trigger] s[i]).1)
}

/// Whether some entry carries the given virtual address.
pub open spec fn has_ip(s: Seq<(Ip, Peer)>, ip: Ip) -> bool {
    exists|i: int| 0 <= i < s.len() && (#[trigger] s[i]).0 == ip
}

/// The index of the entry carrying the given virtual address.
pub open spec fn ip_index(s: Seq<(Ip, Peer)>, ip: Ip) -> int {
    choose|i: int| 0 <= i < s.len() && (#[trigger] s[i]).0 == ip
}

/// The peer recorded under the given virtual address.
pub open spec fn peer_of(s: Seq<(Ip, Peer)>, ip: Ip) -> Peer {
    s[ip_index(s, ip)].1
}

/// Whether an announce from `dest` starts a link attempt at this peer: the
/// destination matches and no attempt has begun.
pub open spec fn needs_link(p: Peer, dest: u128) -> bool {
    p.dest == dest && p.link_id is None && !p.link_reserved
}

/// The reserved form of a peer: its link slot is taken for the attempt in
/// flight.
pub open spec fn reserve_peer(p: Peer) -> Peer {
    Peer { link_reserved: true, ..p }
}

/// The first position at or after `i` whose peer an announce from `dest`
/// starts a link attempt at; the length where there is none.
pub open spec fn first_needs_link_from(s: Seq<(Ip, Peer)>, dest: u128, i: int) -> int
    decreases s.len() - i,
{
    if i >= s.len() {
        s.len() as int
    } else if needs_link(s[i].1, dest) {
        i
    } else {
        first_needs_link_from(s, dest, i + 1)
    }
}

pub open spec fn first_needs_link(s: Seq<(Ip, Peer)>, dest: u128) -> int {
    first_needs_link_from(s, dest, 0)
}

/// The registry after an announce from `dest`, paired with the virtual
/// address of the peer whose link attempt the announce starts, if any.
pub open spec fn spec_try_begin_link(s: Seq<(Ip, Peer)>, dest: u128) -> (Seq<(Ip, Peer)>, Option<
    Ip,
>) {
    let k = first_needs_link(s, dest);
    if k == s.len() {
        (s, None)
    } else {
        (s.update(k, (s[k].0, reserve_peer(s[k].1))), Some(s[k].0))
    }
}

/// The registry after the transport returned `link_id` for the attempt
/// reserved at `ip`: the identifier is recorded, not yet active.  A peer
/// that is not reserved keeps its state: an identifier is recorded once
/// per attempt.
pub open spec fn spec_mark_link_id(s: Seq<(Ip, Peer)>, ip: Ip, link_id: u128) -> Seq<(Ip, Peer)> {
    Seq::new(
        s.len(),
        |i: int|
            if s[i].0 == ip && s[i].1.link_reserved {
                (
                    s[i].0,
                    Peer {
                        dest: s[i].1.dest,
                        link_id: Some(link_id),
                        link_active: false,
                        link_reserved: false,
                    },
                )
            } else {
                s[i]
            },
    )
}

/// The registry after the transport reported the link with `link_id`
/// active: every peer that recorded that identifier becomes active.
pub open spec fn spec_mark_active(s: Seq<(Ip, Peer)>, link_id: u128) -> Seq<(Ip, Peer)> {
    Seq::new(
        s.len(),
        |i: int|
            if s[i].1.link_id == Some(link_id) {
                (s[i].0, Peer { link_active: true, ..s[i].1 })
            } else {
                s[i]
            },
    )
}

/// Errors found while building the registry from the configured peers; all
/// are fatal at construction, before any loop runs.
#[derive(Clone, Copy, Debug, PartialEq, Eq)]
pub enum BuildError {
    /// The destination identifier of the peer at this position is not a
    /// well-formed hex string.
    BadDestHex { index: usize },
    /// The peer at this position repeats the virtual address of an earlier
    /// peer.
    DuplicateIp { index: usize },
}

/// The fault, if any, that building finds at position `i`, the earlier
/// positions being sound.
pub open spec fn build_fault_at(ps: Seq<(Cidr, Vec<u8>)>, i: int) -> Option<BuildError> {
    if !valid_dest_hex(ps[i].1@) {
        Some(BuildError::BadDestHex { index: i as usize })
    } else if exists|j: int| 0 <= j < i && (#[trigger] ps[j]).0.addr == ps[i].0.addr {
        Some(BuildError::DuplicateIp { index: i as usize })
    } else {
        None
    }
}

/// The first fault at or after position `i`, if any.
pub open spec fn first_build_fault_from(ps: Seq<(Cidr, Vec<u8>)>, i: int) -> Option<BuildError>
    decreases ps.len() - i,
{
    if i >= ps.len() {
        None
    } else if build_fault_at(ps, i) is Some {
        build_fault_at(ps, i)
    } else {
        first_build_fault_from(ps, i + 1)
    }
}

pub open spec fn first_build_fault(ps: Seq<(Cidr, Vec<u8>)>) -> Option<BuildError> {
    first_build_fault_from(ps, 0)
}

/// The entries a sound peer list builds: each peer fresh under its virtual
/// address, in configuration order.
pub open spec fn built_entries(ps: Seq<(Cidr, Vec<u8>)>) -> Seq<(Ip, Peer)> {
    Seq::new(ps.len(), |i: int| (ps[i].0.addr, fresh_peer(dest_hex_value(ps[i].1@) as u128)))
}

/// The registry.  Its key set never changes after construction; the only
/// mutable state is each peer's link lifecycle.
pub struct Registry {
    entries: Vec<(Ip, Peer)>,
}

impl View for Registry {
    type V = Seq<(Ip, Peer)>;

    closed spec fn view(&self) -> Seq<(Ip, Peer)> {
        self.entries@
    }
}

impl Registry {
    #[verifier::type_invariant]
    spec fn type_wf(self) -> bool {
        registry_wf(self@)
    }

    /// Build the registry from the configured peers, parsing each
    /// destination identifier; fails on the first ill-formed identifier or
    /// repeated virtual address.
    pub fn build(peers: &Vec<(Cidr, Vec<u8>)>) -> (r: Result<Registry, BuildError>)
        ensures
            r matches Ok(reg) ==> first_build_fault(peers@) is None && reg@ == built_entries(
                peers@,
            ),
            r matches Err(e) ==> first_build_fault(peers@) == Some(e),
    {
        let ghost ps = peers@;
        let mut entries: Vec<(Ip, Peer)> = Vec::new();
        let mut i: usize = 0;
        while i < peers.len()
            invariant
                i <= ps.len(),
                ps == peers@,
                forall|j: int| 0 <= j < i ==> build_fault_at(ps, j) is None,
                entries@ == built_entries(ps).take(i as int),
            decreases ps.len() - i,
        {
            let addr = peers[i].0.addr;
            let dest = match crate::addr::parse_dest_hex(&peers[i].1) {
                Some(d) => d,
                None => {
                    proof {
                        lemma_first_fault_reaches(ps, i as int);
                    }
                    return Err(BuildError::BadDestHex { index: i });
                },
            };
            let mut k: usize = 0;
            while k < entries.len()
                invariant
                    k <= entries@.len(),
                    entries@ == built_entries(ps).take(i as int),
                    i < ps.len(),
                    ps == peers@,
                    forall|j: int| 0 <= j < i ==> build_fault_at(ps, j) is None,
                    forall|j: int| 0 <= j < k ==> (#[trigger] entries@[j]).0 != addr,
                    addr == ps[i as int].0.addr,
                    valid_dest_hex(ps[i as int].1@),
                decreases entries@.len() - k,
            {
                if entries[k].0 == addr {
                    proof {
                        assert(built_entries(ps).take(i as int)[k as int].0 == ps[k as int].0.addr);
                        assert(0 <= k < i && ps[k as int].0.addr == ps[i as int].0.addr);
                        assert(build_fault_at(ps, i as int) == Some(
                            BuildError::DuplicateIp { index: i },
                        ));
                        lemma_first_fault_reaches(ps, i as int);
                    }
                    return Err(BuildError::DuplicateIp { index: i });
                }
                k = k + 1;
            }
            proof {
                let gi = i as int;
                assert forall|j: int| 0 <= j < gi implies (#[trigger] ps[j]).0.addr != ps[gi].0.addr by {
                    assert(built_entries(ps).take(i as int)[j].0 == ps[j].0.addr);
                }
                assert(build_fault_at(ps, i as int) is None);
            }
            entries.push(
                (addr, Peer { dest, link_id: None, link_active: false, link_reserved: false }),
            );
            proof {
                assert(entries@ =~= built_entries(ps).take(i as int + 1));
            }
            i = i + 1;
        }
        proof {
            lemma_first_fault_reaches(ps, ps.len() as int);
            assert(entries@ =~= built_entries(ps));
            assert forall|a: int, b: int|
                0 <= a < b < entries@.len() implies (#[trigger] entries@[a]).0 != (
            #[trigger] entries@[b]).0 by {
                assert(build_fault_at(ps, b) is None);
                assert(entries@[a].0 == ps[a].0.addr);
                assert(entries@[b].0 == ps[b].0.addr);
            }
        }
        Ok(Registry { entries })
    }

    /// The peer recorded under the given virtual address, if any.
    pub fn lookup_by_ip(&self, ip: Ip) -> (r: Option<Peer>)
        ensures
            r is Some <==> has_ip(self@, ip),
            has_ip(self@, ip) ==> r == Some(peer_of(self@, ip)),
    {
        proof {
            use_type_invariant(&*self);
        }
        let mut i: usize = 0;
        while i < self.entries.len()
            invariant
                i <= self.entries@.len(),
                registry_wf(self@),
                forall|j: int| 0 <= j < i ==> (#[trigger] self.entries@[j]).0 != ip,
            decreases self.entries@.len() - i,
        {
            let e = self.entries[i];
            if e.0 == ip {
                return Some(e.1);
            }
            i = i + 1;
        }
        None
    }

    /// React to an announce from `dest`: reserve the link slot of the
    /// first peer with that destination whose link attempt has not begun,
    /// and hand back its virtual address; `None` when no peer needs a
    /// link, the registry then unchanged.
    pub fn try_begin_link(&mut self, dest: u128) -> (r: Option<Ip>)
        ensures
            final (self)@ == spec_try_begin_link(old(self)@, dest).0,
            r == spec_try_begin_link(old(self)@, dest).1,
    {
        proof {
            use_type_invariant(&*self);
        }
        let ghost s0 = self@;
        let mut entries: Vec<(Ip, Peer)> = Vec::new();
        core::mem::swap(&mut entries, &mut self.entries);
        let mut r: Option<Ip> = None;
        let mut i: usize = 0;
        while i < entries.len()
            invariant_except_break
                i <= entries@.len(),
                entries@ == s0,
                registry_wf(s0),
                r is None,
                first_needs_link(s0, dest) == first_needs_link_from(s0, dest, i as int),
            ensures
                registry_wf(entries@),
                entries@ == spec_try_begin_link(s0, dest).0,
                r == spec_try_begin_link(s0, dest).1,
            decreases entries@.len() - i,
        {
            let e = entries[i];
            if e.1.dest == dest && e.1.link_id.is_none() && !e.1.link_reserved {
                let updated = (
                    e.0,
                    Peer {
                        dest: e.1.dest,
                        link_id: e.1.link_id,
                        link_active: e.1.link_active,
                        link_reserved: true,
                    },
                );
                proof {
                    assert(peer_wf(s0[i as int].1));
                    lemma_wf_update(s0, i as int, updated);
                }
                entries.set(i, updated);
                r = Some(e.0);
                proof {
                    assert(first_needs_link(s0, dest) == i);
                    assert(updated.1 == reserve_peer(s0[i as int].1));
                    assert(entries@ =~= spec_try_begin_link(s0, dest).0);
                }
                break ;
            }
            i = i + 1;
        }
        self.entries = entries;
        r
    }

    /// Record the link identifier the transport returned for the attempt
    /// reserved at `ip`; the link is not active until the transport
    /// reports it so.  True exactly when a reserved slot took it.
    pub fn mark_link_id(&mut self, ip: Ip, link_id: u128) -> (r: bool)
        ensures
            final (self)@ == spec_mark_link_id(old(self)@, ip, link_id),
            r <==> exists|i: int|
                0 <= i < old(self)@.len() && (#[trigger] old(self)@[i]).0 == ip && old(
                    self,
                )@[i].1.link_reserved,
    {
        proof {
            use_type_invariant(&*self);
        }
        let ghost s0 = self@;
        let mut entries: Vec<(Ip, Peer)> = Vec::new();
        core::mem::swap(&mut entries, &mut self.entries);
        let mut found = false;
        let mut i: usize = 0;
        while i < entries.len()
            invariant
                i <= s0.len(),
                entries@.len() == s0.len(),
                registry_wf(entries@),
                forall|j: int| 0 <= j < i ==> entries@[j] == spec_mark_link_id(s0, ip, link_id)[j],
                forall|j: int| i <= j < s0.len() ==> entries@[j] == s0[j],
                found <==> exists|j: int|
                    0 <= j < i && (#[trigger] s0[j]).0 == ip && s0[j].1.link_reserved,
            decreases s0.len() - i,
        {
            let e = entries[i];
            proof {
                assert(e == s0[i as int]);
            }
            if e.0 == ip && e.1.link_reserved {
                let updated = (
                    e.0,
                    Peer {
                        dest: e.1.dest,
                        link_id: Some(link_id),
                        link_active: false,
                        link_reserved: false,
                    },
                );
                proof {
                    lemma_wf_update(entries@, i as int, updated);
                }
                entries.set(i, updated);
                found = true;
            }
            i = i + 1;
        }
        proof {
            assert(entries@ =~= spec_mark_link_id(s0, ip, link_id));
        }
        self.entries = entries;
        found
    }

    /// React to the transport reporting the link with `link_id` active:
    /// every peer that recorded that identifier becomes active; with no
    /// match, a silent no-op.
    pub fn mark_active(&mut self, link_id: u128)
        ensures
            final (self)@ == spec_mark_active(old(self)@, link_id),
    {
        proof {
            use_type_invariant(&*self);
        }
        let ghost s0 = self@;
        let mut entries: Vec<(Ip, Peer)> = Vec::new();
        core::mem::swap(&mut entries, &mut self.entries);
        let mut i: usize = 0;
        while i < entries.len()
            invariant
                i <= s0.len(),
                entries@.len() == s0.len(),
                registry_wf(entries@),
                forall|j: int| 0 <= j < i ==> entries@[j] == spec_mark_active(s0, link_id)[j],
                forall|j: int| i <= j < s0.len() ==> entries@[j] == s0[j],
            decreases s0.len() - i,
        {
            let e = entries[i];
            if let Some(l) = e.1.link_id {
                if l == link_id {
                    let updated = (
                        e.0,
                        Peer {
                            dest: e.1.dest,
                            link_id: e.1.link_id,
                            link_active: true,
                            link_reserved: e.1.link_reserved,
                        },
                    );
                    proof {
                        assert(peer_wf(entries@[i as int].1));
                        lemma_wf_update(entries@, i as int, updated);
                    }
                    entries.set(i, updated);
                }
            }
            i = i + 1;
        }
        proof {
            assert(entries@ =~= spec_mark_active(s0, link_id));
        }
        self.entries = entries;
    }
}

/// Replacing one entry by one with the same virtual address and a
/// well-formed peer keeps the registry well formed.
proof fn lemma_wf_update(s: Seq<(Ip, Peer)>, i: int, e: (Ip, Peer))
    requires
        registry_wf(s),
        0 <= i < s.len(),
        e.0 == s[i].0,
        peer_wf(e.1),
    ensures
        registry_wf(s.update(i, e)),
{
    let t = s.update(i, e);
    assert forall|a: int, b: int| 0 <= a < b < t.len() implies (#[trigger] t[a]).0 != (
    #[trigger] t[b]).0 by {
        assert(s[a].0 != s[b].0);
    }
    assert forall|a: int| 0 <= a < t.len() implies peer_wf((#[trigger] t[a]).1) by {
        assert(peer_wf(s[a].1));
    }
}

/// Where no fault stands before position `i`, the first fault overall is
/// the first fault at or after `i`.
pub proof fn lemma_first_fault_reaches(ps: Seq<(Cidr, Vec<u8>)>, i: int)
    requires
        0 <= i <= ps.len(),
        forall|j: int| 0 <= j < i ==> build_fault_at(ps, j) is None,
    ensures
        first_build_fault(ps) == first_build_fault_from(ps, i),
    decreases i,
{
    if i > 0 {
        lemma_first_fault_reaches(ps, i - 1);
    }
}

} // verus!
