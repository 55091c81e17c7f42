//! Network endpoints, held as plain values.

use vstd::prelude::*;

verus! {

/// Port on which the directory service listens by default.
pub const LOCATOR_PORT: u16 = 10053;

/// An IP address of either family, held as its octets (IPv4) or its
/// eight 16-bit segments (IPv6).
#[derive(Clone, Copy, Debug, PartialEq, Eq, Structural, Hash)]
pub enum IpAddr {
    V4(u8, u8, u8, u8),
    V6(u16, u16, u16, u16, u16, u16, u16, u16),
}

/// A network endpoint: an IP address and a port.
#[derive(Clone, Copy, Debug, PartialEq, Eq, Structural, Hash)]
pub struct Endpoint {
    pub ip: IpAddr,
    pub port: u16,
}

/// The IPv6 loopback address `::1`.
pub open spec fn ipv6_loopback() -> IpAddr {
    IpAddr::V6(0, 0, 0, 0, 0, 0, 0, 1)
}

impl Endpoint {
    /// Builds an endpoint from an address and a port.
    pub fn new(ip: IpAddr, port: u16) -> (r: Endpoint)
        ensures
            r.ip == ip,
            r.port == port,
    {
        Endpoint { ip, port }
    }

}

} // verus!
