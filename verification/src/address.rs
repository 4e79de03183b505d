//! Socket addresses.

use vstd::prelude::*;

verus! {

/// The address of a socket.
#[derive(Debug, Clone, Copy, PartialEq, Eq, Structural)]
pub enum SocketAddr {
    /// The bits of an IPv4 address, and a port.
    V4 { ipv4: u32, port: u16 },
    /// The bits of an IPv6 address, a port, a flow label and a scope.
    V6 { ipv6: u128, port: u16, flowinfo: u32, scope_id: u32 },
}

} // verus!
