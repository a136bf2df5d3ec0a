//! Network addresses as a daemon reports them.

use vstd::prelude::*;

verus! {

/// An IP address: the four octets of an IPv4 address or the eight segments of
/// an IPv6 address.
#[derive(Clone, Copy, Debug, PartialEq, Eq)]
pub enum IpAddress {
    V4([u8; 4]),
    V6([u16; 8]),
}

/// One of the two address families.
#[derive(Clone, Copy, Debug, PartialEq, Eq)]
pub enum Family {
    V4,
    V6,
}

impl IpAddress {
    /// The family that the address belongs to.
    pub open spec fn family_of(self) -> Family {
        match self {
            IpAddress::V4(_) => Family::V4,
            IpAddress::V6(_) => Family::V6,
        }
    }

    /// The family that the address belongs to.
    pub fn family(&self) -> (family: Family)
        ensures
            family == self.family_of(),
    {
        match self {
            IpAddress::V4(_) => Family::V4,
            IpAddress::V6(_) => Family::V6,
        }
    }
}

/// An address as a daemon reports it, after its words have been read: the
/// address that they write, or the words themselves where they write none.
#[derive(Clone, Debug, PartialEq, Eq)]
pub enum HostAddress {
    /// The address that the daemon's words write.
    Parsed(IpAddress),
    /// The daemon's words, which write no address.
    Malformed(String),
}

impl HostAddress {
    /// The family of the address, where the daemon's words write one.
    pub open spec fn family_of(self) -> Option<Family> {
        match self {
            HostAddress::Parsed(address) => Some(address.family_of()),
            HostAddress::Malformed(_) => None,
        }
    }
}

} // verus!
