//! What the server keeps of one connected client.

use vstd::prelude::*;

verus! {

/// An IP address of either family, as a plain integer in host order.
#[derive(Clone, Copy, Debug, PartialEq, Eq, Structural)]
pub enum IpAddress {
    V4(u32),
    V6(u128),
}

/// The UDP endpoint a datagram came from, and to which replies go. The flow
/// label and the scope are those of an IPv6 endpoint, zero for IPv4.
#[derive(Clone, Copy, Debug, PartialEq, Eq, Structural)]
pub struct Endpoint {
    pub ip: IpAddress,
    pub port: u16,
    pub flowinfo: u32,
    pub scope_id: u32,
}

/// One session: the client's endpoint, its two virtual addresses, and when
/// it was admitted and last heard from. Instants are milliseconds on the
/// caller's monotonic clock.
#[derive(Clone, Copy, Debug, PartialEq, Eq, Structural)]
pub struct VpnClient {
    pub sockaddr: Endpoint,
    pub created: u64,
    pub last_read: u64,
    pub virtual_ipv4: u32,
    pub virtual_ipv6: u128,
}

impl VpnClient {
    /// The record of a client admitted at `now`.
    pub fn new(sockaddr: Endpoint, virtual_ipv4: u32, virtual_ipv6: u128, now: u64) -> (c: Self)
        ensures
            c == (VpnClient { sockaddr, created: now, last_read: now, virtual_ipv4, virtual_ipv6 }),
    {
        VpnClient { sockaddr, created: now, last_read: now, virtual_ipv4, virtual_ipv6 }
    }

    /// The record after a datagram from `sockaddr` at `now`.
    pub open spec fn touched(self, sockaddr: Endpoint, now: u64) -> VpnClient {
        VpnClient { sockaddr, last_read: now, ..self }
    }
}

} // verus!
