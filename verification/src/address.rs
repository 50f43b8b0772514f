//! Socket addresses as plain values.
use vstd::prelude::*;

verus! {

/// An internet address together with a port.
#[derive(Debug, Clone, Copy, PartialEq, Eq, Structural)]
pub enum SocketAddr {
    /// An IPv4 address: its four octets as one number, the first one highest.
    V4 { octets: u32, port: u16 },
    /// An IPv6 address: its eight segments as one number, the first one highest.
    V6 { segments: u128, port: u16, flowinfo: u32, scope_id: u32 },
}

/// A socket address as a tuple of integers: which kind of address it is, and its
/// fields.
pub type AddressKey = (u8, u128, u16, u32, u32);

impl SocketAddr {
    /// The address as a tuple of integers.
    pub open spec fn spec_key(self) -> AddressKey {
        match self {
            SocketAddr::V4 { octets, port } => (4, octets as u128, port, 0, 0),
            SocketAddr::V6 { segments, port, flowinfo, scope_id } => (6, segments, port, flowinfo, scope_id),
        }
    }

    /// The address as a tuple of integers, by which a table can be keyed.
    pub fn key(self) -> (key: AddressKey)
        ensures
            key == self.spec_key(),
    {
        match self {
            SocketAddr::V4 { octets, port } => (4, octets as u128, port, 0, 0),
            SocketAddr::V6 { segments, port, flowinfo, scope_id } => (6, segments, port, flowinfo, scope_id),
        }
    }
}

/// Two addresses with the same key are the same address.
pub proof fn law_key_tells_addresses_apart(one: SocketAddr, other: SocketAddr)
    requires
        one.spec_key() == other.spec_key(),
    ensures
        one == other,
{
}

/// The address to use of those that a name resolved to: the first one.
pub fn first_address(resolved: &Vec<SocketAddr>) -> (address: Option<SocketAddr>)
    ensures
        resolved@.len() == 0 ==> address is None,
        resolved@.len() > 0 ==> address == Some(resolved@[0]),
{
    if resolved.len() == 0 {
        None
    } else {
        Some(resolved[0])
    }
}

} // verus!
