//! The configuration the router core is built from, as plain values, and
//! its construction-time validation.

use vstd::prelude::*;

use crate::addr::Cidr;

verus! {

/// The announce interval, in seconds, used when the configuration does not
/// give one.
pub fn default_announce_freq_secs() -> (r: u32)
    ensures
        r == 1,
{
    1
}

/// The router's configuration: the local virtual address, the peers (each
/// peer's virtual address paired with the bytes of its hex-encoded
/// destination identifier), and the announce interval in seconds.
pub struct Config {
    pub vpn_ip: Cidr,
    pub peers: Vec<(Cidr, Vec<u8>)>,
    pub announce_freq_secs: u32,
}

/// A configuration is in conflict when the local virtual address also
/// stands among the peer keys.
pub open spec fn config_conflict(c: Config) -> bool {
    exists|i: int| 0 <= i < c.peers@.len() && (#[trigger] c.peers@[i]).0 == c.vpn_ip
}

/// The one configuration error the router itself detects; everything else
/// is found by the surrounding setup.
#[derive(Clone, Copy, Debug, PartialEq, Eq)]
pub enum ConfigError {
    /// The local virtual address also appears as a peer key.
    VpnIpInPeers,
}

impl Config {
    /// Construction-time validation: fails exactly when the local virtual
    /// address also stands among the peer keys, so that no router is ever
    /// started on a conflicting configuration.
    pub fn validate(&self) -> (r: Result<(), ConfigError>)
        ensures
            r is Ok <==> !config_conflict(*self),
            r is Err ==> r == Err::<(), ConfigError>(ConfigError::VpnIpInPeers),
    {
        let mut i: usize = 0;
        while i < self.peers.len()
            invariant
                i <= self.peers@.len(),
                forall|j: int| 0 <= j < i ==> (#[trigger] self.peers@[j]).0 != self.vpn_ip,
            decreases self.peers@.len() - i,
        {
            if self.peers[i].0 == self.vpn_ip {
                return Err(ConfigError::VpnIpInPeers);
            }
            i = i + 1;
        }
        Ok(())
    }
}

} // verus!
