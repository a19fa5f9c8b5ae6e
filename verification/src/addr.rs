use vstd::prelude::*;

verus! {

/// An IPv4 address, held as the big-endian number its four octets spell.
#[derive(Clone, Copy, Debug, PartialEq, Eq, Hash, Structural)]
pub struct Ipv4Addr(pub u32);

/// An IPv6 address, held as the big-endian number its sixteen octets spell.
#[derive(Clone, Copy, Debug, PartialEq, Eq, Hash, Structural)]
pub struct Ipv6Addr(pub u128);

/// An IPv4 or IPv6 address.
#[derive(Clone, Copy, Debug, PartialEq, Eq, Hash, Structural)]
pub enum IpAddr {
    V4(Ipv4Addr),
    V6(Ipv6Addr),
}

/// An IP address and a port.
#[derive(Clone, Copy, Debug, PartialEq, Eq, Hash, Structural)]
pub struct SocketAddr {
    pub ip: IpAddr,
    pub port: u16,
}

/// Whether `ip` is the unspecified address (`0.0.0.0` or `::`).
pub open spec fn ip_is_unspecified(ip: IpAddr) -> bool {
    match ip {
        IpAddr::V4(a) => a.0 == 0,
        IpAddr::V6(a) => a.0 == 0,
    }
}

impl Ipv4Addr {
    /// The address `a.b.c.d`.
    pub fn new(a: u8, b: u8, c: u8, d: u8) -> (r: Ipv4Addr)
        ensures
            r.0 == a as int * 0x100_0000 + b as int * 0x1_0000 + c as int * 0x100 + d as int,
    {
        Ipv4Addr((a as u32) * 0x100_0000 + (b as u32) * 0x1_0000 + (c as u32) * 0x100 + (d as u32))
    }

    /// The address `0.0.0.0`.
    pub fn unspecified() -> (r: Ipv4Addr)
        ensures
            r.0 == 0,
    {
        Ipv4Addr(0)
    }

    /// The four octets, most significant first.
    pub fn octets(&self) -> (r: [u8; 4])
        ensures
            r@ == seq![
                (self.0 / 0x100_0000) as u8,
                (self.0 / 0x1_0000 % 0x100) as u8,
                (self.0 / 0x100 % 0x100) as u8,
                (self.0 % 0x100) as u8,
            ],
    {
        [
            (self.0 / 0x100_0000) as u8,
            (self.0 / 0x1_0000 % 0x100) as u8,
            (self.0 / 0x100 % 0x100) as u8,
            (self.0 % 0x100) as u8,
        ]
    }

    /// Whether this is `0.0.0.0`.
    pub fn is_unspecified(&self) -> (r: bool)
        ensures
            r == (self.0 == 0),
    {
        self.0 == 0
    }
}

impl Ipv6Addr {
    /// Whether this is `::`.
    pub fn is_unspecified(&self) -> (r: bool)
        ensures
            r == (self.0 == 0),
    {
        self.0 == 0
    }
}

impl IpAddr {
    /// Whether this is the unspecified address of its family.
    pub fn is_unspecified(&self) -> (r: bool)
        ensures
            r == ip_is_unspecified(*self),
    {
        match self {
            IpAddr::V4(a) => a.is_unspecified(),
            IpAddr::V6(a) => a.is_unspecified(),
        }
    }
}

impl SocketAddr {
    /// The address `ip` with port `port`.
    pub fn new(ip: IpAddr, port: u16) -> (r: SocketAddr)
        ensures
            r.ip == ip,
            r.port == port,
    {
        SocketAddr { ip, port }
    }

    /// The IP address.
    pub fn ip(&self) -> (r: IpAddr)
        ensures
            r == self.ip,
    {
        self.ip
    }

    /// The port.
    pub fn port(&self) -> (r: u16)
        ensures
            r == self.port,
    {
        self.port
    }
}

/// The bound address to report for a socket asked to bind `requested` that the system bound
/// to `actual`: `actual`, unless the system reports an unspecified address where a specific
/// one was asked for; then the asked-for address with the actual port.
pub fn normalize_local_addr(actual: SocketAddr, requested: SocketAddr) -> (r: SocketAddr)
    ensures
        ip_is_unspecified(requested.ip) || !ip_is_unspecified(actual.ip) ==> r == actual,
        !ip_is_unspecified(requested.ip) && ip_is_unspecified(actual.ip) ==> r.ip == requested.ip
            && r.port == actual.port,
{
    if requested.ip().is_unspecified() || !actual.ip().is_unspecified() {
        actual
    } else {
        SocketAddr::new(requested.ip(), actual.port())
    }
}

} // verus!
