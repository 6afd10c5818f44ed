//! Transport addresses as the wire protocol sees them.
//!
//! An introduction frame carries an IP address as its raw octets (four for
//! IPv4, sixteen for IPv6) followed by a port in network byte order. The
//! library keeps addresses in exactly that shape, so the codec and the
//! registry can be reasoned about over plain bytes; conversion to and from
//! the operating system's socket address type happens outside the library.

use vstd::prelude::*;

verus! {

/// The mathematical value of a [`SockAddr`]: its address octets and port.
#[verifier::ext_equal]
pub struct AddrModel {
    pub octets: Seq<u8>,
    pub port: u16,
}

impl AddrModel {
    /// An address is well formed when its octets are those of an IPv4 or an
    /// IPv6 address.
    pub open spec fn wf(self) -> bool {
        self.octets.len() == 4 || self.octets.len() == 16
    }
}

/// An IP address (IPv4 or IPv6, told apart by the number of octets) together
/// with a port.
#[derive(Debug, Clone)]
pub struct SockAddr {
    pub octets: Vec<u8>,
    pub port: u16,
}

impl View for SockAddr {
    type V = AddrModel;

    open spec fn view(&self) -> AddrModel {
        AddrModel { octets: self.octets@, port: self.port }
    }
}

impl SockAddr {
    pub open spec fn wf(&self) -> bool {
        self@.wf()
    }

    /// Builds an address from its raw octets and port.
    pub fn new(octets: Vec<u8>, port: u16) -> (r: Self)
        ensures
            r@ == (AddrModel { octets: octets@, port }),
    {
        SockAddr { octets, port }
    }

    pub fn is_ipv4(&self) -> (r: bool)
        ensures
            r == (self@.octets.len() == 4),
    {
        self.octets.len() == 4
    }

    pub fn is_ipv6(&self) -> (r: bool)
        ensures
            r == (self@.octets.len() == 16),
    {
        self.octets.len() == 16
    }

    /// A copy of the address, octet for octet.
    pub fn duplicate(&self) -> (r: SockAddr)
        ensures
            r@ == self@,
    {
        let mut octets: Vec<u8> = Vec::new();
        let mut i: usize = 0;
        while i < self.octets.len()
            invariant
                i <= self.octets.len(),
                octets@ =~= self.octets@.take(i as int),
            decreases self.octets.len() - i,
        {
            octets.push(self.octets[i]);
            i += 1;
        }
        proof {
            assert(octets@ =~= self.octets@);
        }
        SockAddr::new(octets, self.port)
    }

    /// Two addresses are the same exactly when their octets and ports agree.
    pub fn same_addr(&self, other: &SockAddr) -> (r: bool)
        ensures
            r == (self@ == other@),
    {
        if self.port != other.port {
            return false;
        }
        if self.octets.len() != other.octets.len() {
            return false;
        }
        let mut i: usize = 0;
        while i < self.octets.len()
            invariant
                i <= self.octets.len(),
                self.octets@.len() == other.octets@.len(),
                self@.port == other@.port,
                forall|j: int| 0 <= j < i ==> self.octets@[j] == other.octets@[j],
            decreases self.octets.len() - i,
        {
            if self.octets[i] != other.octets[i] {
                return false;
            }
            i += 1;
        }
        proof {
            assert(self@ =~= other@);
        }
        true
    }
}

} // verus!
