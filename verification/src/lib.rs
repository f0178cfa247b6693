//! Peer-link router for a virtual-IP tunnel over a store-and-forward mesh
//! transport.
//!
//! The crate holds the routing core of the tunnel: a registry that maps each
//! peer's virtual IP address to its mesh destination and per-link lifecycle
//! state, the decision taken for every packet read from the virtual
//! interface (egress), and the handling of every inbound link event
//! (ingress).  The mesh transport and the interface device themselves are
//! external collaborators: the surrounding program performs their I/O and
//! feeds the results to this crate as plain values.

pub mod addr;
pub mod config;
pub mod egress;
pub mod ingress;
pub mod laws;
pub mod registry;
