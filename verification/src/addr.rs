//! Link-layer and network-layer addresses, the capture interface's own
//! address set, and the direction classifier: an address counts as incoming
//! exactly when it is one of the interface's own bound addresses.

use vstd::prelude::*;

verus! {

/// A 48-bit Ethernet hardware address.
#[derive(Debug, Clone, Copy, PartialEq, Eq, Structural)]
pub struct MacAddr(pub u8, pub u8, pub u8, pub u8, pub u8, pub u8);

/// A network-layer address: four IPv4 octets or eight IPv6 groups.
#[derive(Debug, Clone, Copy, PartialEq, Eq, Structural)]
pub enum IpAddress {
    V4(u8, u8, u8, u8),
    V6(u16, u16, u16, u16, u16, u16, u16, u16),
}

impl IpAddress {
    /// Whether this is an IPv4 address.
    pub open spec fn spec_is_v4(&self) -> bool {
        self is V4
    }
}

/// The addresses bound to the capture interface: its hardware address, if it
/// has one, and its assigned network-layer addresses.
#[derive(Debug, Clone)]
pub struct InterfaceAddrs {
    pub mac: Option<MacAddr>,
    pub ips: Vec<IpAddress>,
}

impl InterfaceAddrs {
    pub fn new(mac: Option<MacAddr>, ips: Vec<IpAddress>) -> (r: InterfaceAddrs)
        ensures
            r.mac == mac,
            r.ips == ips,
    {
        InterfaceAddrs { mac, ips }
    }
}

/// Direction classification: a packet or frame is incoming exactly when the
/// address under inspection is one of the interface's own.
pub trait IsIncoming {
    /// The mathematical direction decision for this address kind.
    spec fn spec_is_incoming(&self, interface: &InterfaceAddrs) -> bool;

    /// Decide the direction; true means incoming.
    fn is_incoming(&self, interface: &InterfaceAddrs) -> (r: bool)
        ensures
            r == self.spec_is_incoming(interface),
    ;
}

impl IsIncoming for MacAddr {
    /// A frame addressed to the interface's own hardware address is
    /// incoming.
    open spec fn spec_is_incoming(&self, interface: &InterfaceAddrs) -> bool {
        interface.mac == Some(*self)
    }

    fn is_incoming(&self, interface: &InterfaceAddrs) -> (r: bool) {
        match interface.mac {
            Some(m) => m == *self,
            None => false,
        }
    }
}

impl IsIncoming for IpAddress {
    /// A packet addressed to one of the interface's own network addresses is
    /// incoming; an address of the other family never matches.
    open spec fn spec_is_incoming(&self, interface: &InterfaceAddrs) -> bool {
        interface.ips@.contains(*self)
    }

    fn is_incoming(&self, interface: &InterfaceAddrs) -> (r: bool) {
        let n = interface.ips.len();
        for i in 0..n
            invariant
                n == interface.ips@.len(),
                forall|j: int| 0 <= j < i ==> interface.ips@[j] != *self,
        {
            if interface.ips[i] == *self {
                return true;
            }
        }
        proof {
            assert(!interface.ips@.contains(*self));
        }
        false
    }
}

/// Family mismatch never classifies as incoming: an IPv4 address is not
/// contained in a set of IPv6 addresses, and the other way round.
pub proof fn lemma_family_mismatch_is_outgoing(addr: IpAddress, interface: InterfaceAddrs)
    requires
        forall|j: int|
            0 <= j < interface.ips@.len() ==> (#[trigger] interface.ips@[j]).spec_is_v4()
                != addr.spec_is_v4(),
    ensures
        !addr.spec_is_incoming(&interface),
{
    if interface.ips@.contains(addr) {
        let j = choose|j: int| 0 <= j < interface.ips@.len() && interface.ips@[j] == addr;
        assert(interface.ips@[j].spec_is_v4() != addr.spec_is_v4());
    }
}

} // verus!
