use vstd::prelude::*;
use crate::addr::{IpAddr, Ipv4Addr, Ipv6Addr, SocketAddr};
use crate::quic::peer_id::PeerId;

verus! {

/// How a NAT maps a local socket to public ports.
#[derive(Clone, Copy, Debug, PartialEq, Eq, Structural)]
pub enum NatType {
    /// One public port per local socket, whoever the remote side is.
    Cone,
    /// A new public port for each remote destination.
    Symmetric,
}

/// What a node knows of its own network position.
#[derive(Clone, Debug)]
pub struct NatInfo {
    pub nat_type: NatType,
    pub public_ips: Vec<Ipv4Addr>,
    pub public_udp_ports: Vec<u16>,
    pub mapping_tcp_addr: Vec<SocketAddr>,
    pub mapping_udp_addr: Vec<SocketAddr>,
    pub public_port_range: u16,
    pub local_ipv4: Ipv4Addr,
    pub local_ipv4s: Vec<Ipv4Addr>,
    pub ipv6: Option<Ipv6Addr>,
    pub local_udp_ports: Vec<u16>,
    pub local_tcp_port: u16,
    pub public_tcp_port: u16,
    pub stun_mapped_ports: Vec<u16>,
}

impl Default for NatInfo {
    /// A cone NAT with nothing known: empty lists, zero ports, `0.0.0.0` and no IPv6 address.
    fn default() -> (r: NatInfo)
        ensures
            r.nat_type == NatType::Cone,
            r.public_ips@ == Seq::<Ipv4Addr>::empty(),
            r.public_udp_ports@ == Seq::<u16>::empty(),
            r.mapping_tcp_addr@ == Seq::<SocketAddr>::empty(),
            r.mapping_udp_addr@ == Seq::<SocketAddr>::empty(),
            r.public_port_range == 0,
            r.local_ipv4.0 == 0,
            r.local_ipv4s@ == Seq::<Ipv4Addr>::empty(),
            r.ipv6 is None,
            r.local_udp_ports@ == Seq::<u16>::empty(),
            r.local_tcp_port == 0,
            r.public_tcp_port == 0,
            r.stun_mapped_ports@ == Seq::<u16>::empty(),
    {
        NatInfo {
            nat_type: NatType::Cone,
            public_ips: Vec::new(),
            public_udp_ports: Vec::new(),
            mapping_tcp_addr: Vec::new(),
            mapping_udp_addr: Vec::new(),
            public_port_range: 0,
            local_ipv4: Ipv4Addr(0),
            local_ipv4s: Vec::new(),
            ipv6: None,
            local_udp_ports: Vec::new(),
            local_tcp_port: 0,
            public_tcp_port: 0,
            stun_mapped_ports: Vec::new(),
        }
    }
}

/// What a STUN probe found out.
#[derive(Clone, Debug)]
pub struct StunResult {
    pub nat_type: NatType,
    pub public_ipv4: Vec<Ipv4Addr>,
    pub public_ipv6: Option<Ipv6Addr>,
    pub public_udp_ports: Vec<u16>,
    pub port_range: u16,
}

/// The transport over which a peer observed our address.
#[derive(Clone, Copy, Debug, PartialEq, Eq, Structural)]
pub enum ObservedProtocol {
    Udp,
    Tcp,
}

/// A peer's report of the address our packets came from.
#[derive(Clone, Debug)]
pub struct NatObservation {
    pub observed_protocol: ObservedProtocol,
    pub observed_addr: SocketAddr,
    pub observer_peer_id: PeerId,
    pub observed_at: u64,
}

/// `s` with `x` appended, unless `x` is already in it.
pub open spec fn add_unique<T>(s: Seq<T>, x: T) -> Seq<T> {
    if s.contains(x) {
        s
    } else {
        s.push(x)
    }
}

/// The fields of `a` and `b` hold the same values.
pub open spec fn same_nat_info(a: NatInfo, b: NatInfo) -> bool {
    &&& a.nat_type == b.nat_type
    &&& a.public_ips@ == b.public_ips@
    &&& a.public_udp_ports@ == b.public_udp_ports@
    &&& a.mapping_tcp_addr@ == b.mapping_tcp_addr@
    &&& a.mapping_udp_addr@ == b.mapping_udp_addr@
    &&& a.public_port_range == b.public_port_range
    &&& a.local_ipv4 == b.local_ipv4
    &&& a.local_ipv4s@ == b.local_ipv4s@
    &&& a.ipv6 == b.ipv6
    &&& a.local_udp_ports@ == b.local_udp_ports@
    &&& a.local_tcp_port == b.local_tcp_port
    &&& a.public_tcp_port == b.public_tcp_port
    &&& a.stun_mapped_ports@ == b.stun_mapped_ports@
}

/// `after` is `before` once it has taken in `obs`: an observed IPv4 address joins the public
/// addresses once, an observed IPv6 address becomes the IPv6 address; a UDP port joins the
/// public UDP ports once, a TCP port becomes the public TCP port; nothing else changes.
pub open spec fn observation_applied(before: NatInfo, after: NatInfo, obs: NatObservation) -> bool {
    let port = obs.observed_addr.port;
    &&& after.nat_type == before.nat_type
    &&& after.public_ips@ == match obs.observed_addr.ip {
        IpAddr::V4(ip) => add_unique(before.public_ips@, ip),
        IpAddr::V6(_) => before.public_ips@,
    }
    &&& after.ipv6 == match obs.observed_addr.ip {
        IpAddr::V4(_) => before.ipv6,
        IpAddr::V6(ip) => Some(ip),
    }
    &&& after.public_udp_ports@ == match obs.observed_protocol {
        ObservedProtocol::Udp => add_unique(before.public_udp_ports@, port),
        ObservedProtocol::Tcp => before.public_udp_ports@,
    }
    &&& after.public_tcp_port == match obs.observed_protocol {
        ObservedProtocol::Udp => before.public_tcp_port,
        ObservedProtocol::Tcp => port,
    }
    &&& after.mapping_tcp_addr@ == before.mapping_tcp_addr@
    &&& after.mapping_udp_addr@ == before.mapping_udp_addr@
    &&& after.public_port_range == before.public_port_range
    &&& after.local_ipv4 == before.local_ipv4
    &&& after.local_ipv4s@ == before.local_ipv4s@
    &&& after.local_udp_ports@ == before.local_udp_ports@
    &&& after.local_tcp_port == before.local_tcp_port
    &&& after.stun_mapped_ports@ == before.stun_mapped_ports@
}

/// Where an observed port goes depends on the transport alone, whatever the address family:
/// a TCP port becomes the public TCP port and leaves the UDP ports alone; a UDP port joins the
/// public UDP ports (keeping those there, adding no other) and leaves the TCP port alone. An
/// IPv4 address joins the public addresses and an IPv6 address becomes the IPv6 address.
pub proof fn law_observed_port_follows_transport(before: NatInfo, after: NatInfo, obs: NatObservation)
    requires
        observation_applied(before, after, obs),
    ensures
        obs.observed_protocol == ObservedProtocol::Tcp ==> after.public_tcp_port
            == obs.observed_addr.port && after.public_udp_ports@ == before.public_udp_ports@,
        obs.observed_protocol == ObservedProtocol::Udp ==> {
            &&& after.public_tcp_port == before.public_tcp_port
            &&& after.public_udp_ports@.contains(obs.observed_addr.port)
            &&& forall|p: u16| #[trigger]
                before.public_udp_ports@.contains(p) ==> after.public_udp_ports@.contains(p)
            &&& forall|p: u16| #[trigger]
                after.public_udp_ports@.contains(p) ==> p == obs.observed_addr.port
                    || before.public_udp_ports@.contains(p)
        },
        obs.observed_addr.ip matches IpAddr::V6(ip) ==> after.ipv6 == Some(ip)
            && after.public_ips@ == before.public_ips@,
        obs.observed_addr.ip matches IpAddr::V4(ip) ==> after.ipv6 == before.ipv6
            && after.public_ips@.contains(ip),
{
    if obs.observed_protocol == ObservedProtocol::Udp {
        lemma_add_unique_contents(before.public_udp_ports@, obs.observed_addr.port);
    }
    if obs.observed_addr.ip is V4 {
        lemma_add_unique_contents(before.public_ips@, obs.observed_addr.ip->V4_0);
    }
}

fn contains_u16(v: &Vec<u16>, x: u16) -> (r: bool)
    ensures
        r == v@.contains(x),
{
    let mut i: usize = 0;
    while i < v.len()
        invariant
            i <= v@.len(),
            forall|j: int| 0 <= j < i ==> v@[j] != x,
        decreases v@.len() - i,
    {
        if v[i] == x {
            assert(v@[i as int] == x);
            return true;
        }
        i = i + 1;
    }
    false
}

fn contains_ipv4(v: &Vec<Ipv4Addr>, x: Ipv4Addr) -> (r: bool)
    ensures
        r == v@.contains(x),
{
    let mut i: usize = 0;
    while i < v.len()
        invariant
            i <= v@.len(),
            forall|j: int| 0 <= j < i ==> v@[j] != x,
        decreases v@.len() - i,
    {
        if v[i] == x {
            assert(v@[i as int] == x);
            return true;
        }
        i = i + 1;
    }
    false
}

fn add_port(ports: &mut Vec<u16>, port: u16)
    ensures
        final(ports)@ == add_unique(old(ports)@, port),
{
    if !contains_u16(ports, port) {
        ports.push(port);
    }
}

/// Takes in a STUN result. STUN runs on a temporary socket, so its mapped ports are kept
/// apart, as a hint of the NAT's port allocation, and the public addresses are left alone:
/// only the NAT type, the port range and the STUN-mapped ports change.
pub fn apply_stun_result_to_nat_info(info: &mut NatInfo, result: &StunResult)
    ensures
        final(info).nat_type == result.nat_type,
        final(info).public_port_range == result.port_range,
        final(info).stun_mapped_ports@ == result.public_udp_ports@,
        final(info).public_ips@ == old(info).public_ips@,
        final(info).public_udp_ports@ == old(info).public_udp_ports@,
        final(info).mapping_tcp_addr@ == old(info).mapping_tcp_addr@,
        final(info).mapping_udp_addr@ == old(info).mapping_udp_addr@,
        final(info).local_ipv4 == old(info).local_ipv4,
        final(info).local_ipv4s@ == old(info).local_ipv4s@,
        final(info).ipv6 == old(info).ipv6,
        final(info).local_udp_ports@ == old(info).local_udp_ports@,
        final(info).local_tcp_port == old(info).local_tcp_port,
        final(info).public_tcp_port == old(info).public_tcp_port,
{
    info.nat_type = result.nat_type;
    info.public_port_range = result.port_range;
    info.stun_mapped_ports = result.public_udp_ports.clone();
}

/// Takes in a peer's observation of our address; see [`observation_applied`].
pub fn apply_observation_to_nat_info(info: &mut NatInfo, observation: &NatObservation)
    ensures
        observation_applied(*old(info), *final(info), *observation),
{
    let port = observation.observed_addr.port();
    match observation.observed_addr.ip() {
        IpAddr::V4(ip) => {
            if !contains_ipv4(&info.public_ips, ip) {
                info.public_ips.push(ip);
            }
        },
        IpAddr::V6(ip) => {
            info.ipv6 = Some(ip);
        },
    }
    match observation.observed_protocol {
        ObservedProtocol::Udp => {
            add_port(&mut info.public_udp_ports, port);
        },
        ObservedProtocol::Tcp => {
            info.public_tcp_port = port;
        },
    }
}

/// Taking in the same observation twice leaves what one time left.
pub proof fn law_observation_idempotent(a: NatInfo, b: NatInfo, c: NatInfo, obs: NatObservation)
    requires
        observation_applied(a, b, obs),
        observation_applied(b, c, obs),
    ensures
        same_nat_info(b, c),
{
    if let IpAddr::V4(ip) = obs.observed_addr.ip {
        assert(add_unique(a.public_ips@, ip).contains(ip)) by {
            if !a.public_ips@.contains(ip) {
                assert(a.public_ips@.push(ip)[a.public_ips@.len() as int] == ip);
            }
        }
    }
    if obs.observed_protocol == ObservedProtocol::Udp {
        let p = obs.observed_addr.port;
        assert(add_unique(a.public_udp_ports@, p).contains(p)) by {
            if !a.public_udp_ports@.contains(p) {
                assert(a.public_udp_ports@.push(p)[a.public_udp_ports@.len() as int] == p);
            }
        }
    }
}

/// Observations never put an address or a UDP port into the public lists twice.
pub proof fn law_observation_keeps_lists_unique(before: NatInfo, after: NatInfo, obs: NatObservation)
    requires
        observation_applied(before, after, obs),
        before.public_ips@.no_duplicates(),
        before.public_udp_ports@.no_duplicates(),
    ensures
        after.public_ips@.no_duplicates(),
        after.public_udp_ports@.no_duplicates(),
        obs.observed_addr.ip matches IpAddr::V4(ip) ==> after.public_ips@.contains(ip),
        obs.observed_protocol == ObservedProtocol::Udp ==> after.public_udp_ports@.contains(
            obs.observed_addr.port,
        ),
{
    lemma_add_unique_contents(before.public_ips@, obs.observed_addr.ip->V4_0);
    lemma_add_unique_contents(before.public_udp_ports@, obs.observed_addr.port);
}

/// What `add_unique` holds, and that it adds no repeat.
pub proof fn lemma_add_unique_contents<T>(s: Seq<T>, x: T)
    ensures
        forall|y: T| add_unique(s, x).contains(y) <==> (s.contains(y) || y == x),
        s.no_duplicates() ==> add_unique(s, x).no_duplicates(),
{
    if !s.contains(x) {
        let u = s.push(x);
        assert forall|y: T| u.contains(y) <==> (s.contains(y) || y == x) by {
            if u.contains(y) {
                let k = choose|k: int| 0 <= k < u.len() && u[k] == y;
                if k < s.len() {
                    assert(s[k] == y);
                }
            }
            if s.contains(y) {
                let k = choose|k: int| 0 <= k < s.len() && s[k] == y;
                assert(u[k] == y);
            }
            if y == x {
                assert(u[s.len() as int] == y);
            }
        }
        assert forall|i: int, j: int| s.no_duplicates() && 0 <= i < u.len() && 0 <= j < u.len() && i != j
            implies u[i] != u[j] by {
            if i == s.len() {
                assert(u[j] == s[j]);
            } else if j == s.len() {
                assert(u[i] == s[i]);
            } else {
                assert(u[i] == s[i] && u[j] == s[j]);
            }
        }
    }
}

/// What a freshly bound endpoint knows of its network position: the configured mapped
/// addresses, the bound UDP port as its one local UDP port, the port of the TCP listener (0
/// without one), the bound IPv4 address (`0.0.0.0` when bound to IPv6); nothing else yet.
pub fn initial_nat_info(
    mapping_udp_addrs: &Vec<SocketAddr>,
    mapping_tcp_addrs: &Vec<SocketAddr>,
    local_addr: SocketAddr,
    local_tcp_addr: Option<SocketAddr>,
) -> (r: NatInfo)
    ensures
        r.nat_type == NatType::Cone,
        r.mapping_udp_addr@ == mapping_udp_addrs@,
        r.mapping_tcp_addr@ == mapping_tcp_addrs@,
        r.local_udp_ports@ == seq![local_addr.port],
        r.local_tcp_port == match local_tcp_addr {
            Some(a) => a.port,
            None => 0u16,
        },
        r.local_ipv4 == match local_addr.ip {
            IpAddr::V4(ip) => ip,
            IpAddr::V6(_) => Ipv4Addr(0),
        },
        r.public_ips@ == Seq::<Ipv4Addr>::empty(),
        r.public_udp_ports@ == Seq::<u16>::empty(),
        r.public_port_range == 0,
        r.local_ipv4s@ == Seq::<Ipv4Addr>::empty(),
        r.ipv6 is None,
        r.public_tcp_port == 0,
        r.stun_mapped_ports@ == Seq::<u16>::empty(),
{
    let mut info = NatInfo::default();
    info.mapping_udp_addr = mapping_udp_addrs.clone();
    info.mapping_tcp_addr = mapping_tcp_addrs.clone();
    let mut ports: Vec<u16> = Vec::new();
    ports.push(local_addr.port());
    info.local_udp_ports = ports;
    info.local_tcp_port = match local_tcp_addr {
        Some(a) => a.port(),
        None => 0,
    };
    if let IpAddr::V4(ip) = local_addr.ip() {
        info.local_ipv4 = ip;
    }
    info
}

} // verus!
