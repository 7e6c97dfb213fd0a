//! Socket addresses as plain values.
use vstd::prelude::*;

verus! {

/// An IP address: four octets, or eight 16-bit segments.
#[derive(Debug, Clone, Copy, PartialEq, Eq, Structural)]
pub enum IpAddress {
    V4(u8, u8, u8, u8),
    V6(u16, u16, u16, u16, u16, u16, u16, u16),
}

/// A socket address: an IP address and a port, with the flow information
/// and scope id that an IPv6 socket address also carries.
#[derive(Debug, Clone, Copy, PartialEq, Eq, Structural)]
pub struct SocketAddress {
    pub ip: IpAddress,
    pub port: u16,
    pub flowinfo: u32,
    pub scope_id: u32,
}

/// The socket address that `<core::net::SocketAddr as FromStr>::from_str`
/// reads from the text `s`, or `None` where it refuses the text.
pub uninterp spec fn socket_addr_from_str(s: Seq<char>) -> Option<SocketAddress>;

/// Reads a socket address with `<core::net::SocketAddr as FromStr>::from_str`
/// ("ip:port" or "[ipv6]:port") and converts the result field by field.
/// Its contract claims only that the result is a function of the text.
#[verifier::external_body]
pub fn parse_socket_addr(s: &str) -> (res: Option<SocketAddress>)
    ensures
        res == socket_addr_from_str(s@),
{
    match s.parse::<core::net::SocketAddr>() {
        Ok(core::net::SocketAddr::V4(a)) => {
            let [b0, b1, b2, b3] = a.ip().octets();
            let ip = IpAddress::V4(b0, b1, b2, b3);
            Some(SocketAddress { ip, port: a.port(), flowinfo: 0, scope_id: 0 })
        },
        Ok(core::net::SocketAddr::V6(a)) => {
            let [s0, s1, s2, s3, s4, s5, s6, s7] = a.ip().segments();
            let ip = IpAddress::V6(s0, s1, s2, s3, s4, s5, s6, s7);
            Some(SocketAddress { ip, port: a.port(), flowinfo: a.flowinfo(), scope_id: a.scope_id() })
        },
        _ => None,
    }
}

} // verus!
