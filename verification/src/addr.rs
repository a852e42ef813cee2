//! Internet socket addresses.
use vstd::prelude::*;

verus! {

/// The address and port of an internet socket.
#[derive(Clone, Copy, Debug, PartialEq, Eq, Structural)]
pub enum SocketAddr {
    V4 { ip: u32, port: u16 },
    V6 { ipv6: u128, port: u16, flowinfo: u32, scope_id: u32 },
}

impl SocketAddr {
    /// Port 0 of the unspecified IPv4 address.
    pub open spec fn is_unspecified(self) -> bool {
        self == (SocketAddr::V4 { ip: 0, port: 0 })
    }

    pub fn unspecified() -> (r: SocketAddr)
        ensures
            r.is_unspecified(),
    {
        SocketAddr::V4 { ip: 0, port: 0 }
    }
}

} // verus!
