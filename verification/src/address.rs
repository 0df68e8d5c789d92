//! Plain-value network addresses.

use vstd::prelude::*;

verus! {

/// An IP address as its bits: 32 for version 4, 128 for version 6.
#[derive(Clone, Copy, Debug, PartialEq, Eq, Hash, Structural)]
pub enum IpAddress {
    V4(u32),
    V6(u128),
}

/// The address a peer listens on: an IP address and a port.
#[derive(Clone, Copy, Debug, PartialEq, Eq, Hash, Structural)]
pub struct SocketAddress {
    pub ip: IpAddress,
    pub port: u16,
}

impl IpAddress {
    /// The unspecified version 4 address, `0.0.0.0`.
    pub fn unspecified() -> (ip: IpAddress)
        ensures
            ip == IpAddress::V4(0),
    {
        IpAddress::V4(0)
    }
}

impl SocketAddress {
    /// The address made of `ip` and `port`.
    pub fn new(ip: IpAddress, port: u16) -> (addr: SocketAddress)
        ensures
            addr.ip == ip,
            addr.port == port,
    {
        SocketAddress { ip, port }
    }
}

} // verus!
