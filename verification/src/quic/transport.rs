use vstd::prelude::*;
use crate::addr::SocketAddr;
use crate::clock::now_millis;
use crate::quic::nat_info::{NatInfo, add_unique, lemma_add_unique_contents, same_nat_info};
use crate::quic::peer_id::PeerId;

verus! {

impl NatInfo {
    /// A copy of the NAT information.
    pub fn duplicate(&self) -> (r: NatInfo)
        ensures
            same_nat_info(r, *self),
    {
        NatInfo {
            nat_type: self.nat_type,
            public_ips: self.public_ips.clone(),
            public_udp_ports: self.public_udp_ports.clone(),
            mapping_tcp_addr: self.mapping_tcp_addr.clone(),
            mapping_udp_addr: self.mapping_udp_addr.clone(),
            public_port_range: self.public_port_range,
            local_ipv4: self.local_ipv4,
            local_ipv4s: self.local_ipv4s.clone(),
            ipv6: self.ipv6,
            local_udp_ports: self.local_udp_ports.clone(),
            local_tcp_port: self.local_tcp_port,
            public_tcp_port: self.public_tcp_port,
            stun_mapped_ports: self.stun_mapped_ports.clone(),
        }
    }
}

/// What the protocol layer knows of a peer.
#[derive(Clone, Debug)]
pub struct PeerInfo {
    /// Application-level peer id.
    pub peer_id: PeerId,
    /// Direct socket addresses observed or advertised for this peer.
    pub addrs: Vec<SocketAddr>,
    /// Peer id of a relay that may currently reach this peer.
    pub relay_hint: Option<PeerId>,
    /// Last update time in milliseconds since the Unix epoch.
    pub last_seen: u64,
    /// Whether the peer currently has confirmed direct reachability.
    pub is_direct: bool,
    /// Latest NAT information learned for this peer, if any.
    pub nat_info: Option<NatInfo>,
}

impl PeerInfo {
    /// Information on `peer_id` without any address, seen now.
    pub fn new(peer_id: PeerId) -> (r: PeerInfo)
        ensures
            r.peer_id == peer_id,
            r.addrs@ == Seq::<SocketAddr>::empty(),
            r.relay_hint is None,
            !r.is_direct,
            r.nat_info is None,
    {
        PeerInfo {
            peer_id,
            addrs: Vec::new(),
            relay_hint: None,
            last_seen: now_millis(),
            is_direct: false,
            nat_info: None,
        }
    }

    /// Adds a direct address and marks the peer as direct.
    pub fn with_addr(self, addr: SocketAddr) -> (r: PeerInfo)
        ensures
            r.addrs@ == self.addrs@.push(addr),
            r.is_direct,
            r.peer_id == self.peer_id,
            r.relay_hint == self.relay_hint,
            r.last_seen == self.last_seen,
            r.nat_info == self.nat_info,
    {
        let mut p = self;
        p.addrs.push(addr);
        p.is_direct = true;
        p
    }
}

/// `s` with the items of `t` appended in order, each unless it is already there.
pub open spec fn add_all_unique<T>(s: Seq<T>, t: Seq<T>) -> Seq<T>
    decreases t.len(),
{
    if t.len() == 0 {
        s
    } else {
        add_all_unique(add_unique(s, t[0]), t.drop_first())
    }
}

fn contains_addr(v: &Vec<SocketAddr>, x: SocketAddr) -> (r: bool)
    ensures
        r == v@.contains(x),
{
    let mut i: usize = 0;
    while i < v.len()
        invariant
            i <= v@.len(),
            forall|j: int| 0 <= j < i ==> v@[j] != x,
        decreases v@.len() - i,
    {
        if v[i] == x {
            assert(v@[i as int] == x);
            return true;
        }
        i = i + 1;
    }
    false
}

fn copy_peer_id(p: &Option<PeerId>) -> (r: Option<PeerId>)
    ensures
        r == *p,
{
    match p {
        Some(id) => Some(id.duplicate()),
        None => None,
    }
}

/// What the peer table holds for `peer` once it is recorded at time `now`, given what it
/// held before (`existing`); `None` when `peer` is this node itself, which is never recorded.
/// The record is `peer` seen at `now`, with the earlier addresses it lacks appended, direct
/// if either was, and the earlier relay hint and NAT information where `peer` has none.
pub fn merged_peer_info(self_id: &PeerId, peer: PeerInfo, existing: Option<&PeerInfo>, now: u64) -> (r:
    Option<PeerInfo>)
    ensures
        peer.peer_id.0@ == self_id.0@ ==> r is None,
        peer.peer_id.0@ != self_id.0@ ==> (r matches Some(m) && m.peer_id == peer.peer_id
            && m.last_seen == now && match existing {
            None => {
                &&& m.addrs@ == peer.addrs@
                &&& m.is_direct == peer.is_direct
                &&& m.relay_hint == peer.relay_hint
                &&& m.nat_info == peer.nat_info
            },
            Some(e) => {
                &&& m.addrs@ == add_all_unique(peer.addrs@, e.addrs@)
                &&& m.is_direct == (peer.is_direct || e.is_direct)
                &&& m.relay_hint == if peer.relay_hint is Some {
                    peer.relay_hint
                } else {
                    e.relay_hint
                }
                &&& peer.nat_info is Some ==> m.nat_info == peer.nat_info
                &&& peer.nat_info is None ==> match e.nat_info {
                    Some(n) => m.nat_info matches Some(k) && same_nat_info(k, n),
                    None => m.nat_info is None,
                }
            },
        }),
{
    if peer.peer_id == *self_id {
        return None;
    }
    let ghost p0 = peer;
    let mut merged = peer;
    merged.last_seen = now;
    match existing {
        None => {},
        Some(e) => {
            let ghost start = merged.addrs@;
            let mut i: usize = 0;
            proof {
                assert(e.addrs@.skip(0) =~= e.addrs@);
            }
            while i < e.addrs.len()
                invariant
                    i <= e.addrs@.len(),
                    merged.peer_id == p0.peer_id,
                    merged.last_seen == now,
                    merged.is_direct == p0.is_direct,
                    merged.relay_hint == p0.relay_hint,
                    merged.nat_info == p0.nat_info,
                    start == p0.addrs@,
                    add_all_unique(start, e.addrs@) == add_all_unique(
                        merged.addrs@,
                        e.addrs@.skip(i as int),
                    ),
                decreases e.addrs@.len() - i,
            {
                let a = e.addrs[i];
                proof {
                    assert(e.addrs@.skip(i as int).drop_first() =~= e.addrs@.skip(i + 1));
                }
                if !contains_addr(&merged.addrs, a) {
                    merged.addrs.push(a);
                }
                i = i + 1;
            }
            proof {
                assert(e.addrs@.skip(i as int).len() == 0);
            }
            merged.is_direct = merged.is_direct || e.is_direct;
            if merged.relay_hint.is_none() {
                merged.relay_hint = copy_peer_id(&e.relay_hint);
            }
            if merged.nat_info.is_none() {
                merged.nat_info = match &e.nat_info {
                    Some(n) => Some(n.duplicate()),
                    None => None,
                };
            }
        },
    }
    Some(merged)
}

/// What is recorded of `peer` once a route to it with hop metric `metric` is confirmed: a
/// direct route (`metric == 0`) marks it direct and adds the route's address `route_addr`
/// unless known; a relayed route marks it not direct, forgets its addresses and, where it has
/// no relay hint, takes the peer that owns the route (`route_owner`) as hint.
pub fn peer_for_confirmed_route(
    peer: PeerInfo,
    route_addr: SocketAddr,
    metric: u8,
    route_owner: Option<PeerId>,
) -> (r: PeerInfo)
    ensures
        r.peer_id == peer.peer_id,
        r.last_seen == peer.last_seen,
        r.nat_info == peer.nat_info,
        metric == 0 ==> r.is_direct && r.addrs@ == add_unique(peer.addrs@, route_addr)
            && r.relay_hint == peer.relay_hint,
        metric != 0 ==> !r.is_direct && r.addrs@ == Seq::<SocketAddr>::empty() && r.relay_hint
            == if peer.relay_hint is Some {
            peer.relay_hint
        } else {
            route_owner
        },
{
    let mut p = peer;
    if metric == 0 {
        p.is_direct = true;
        if !contains_addr(&p.addrs, route_addr) {
            p.addrs.push(route_addr);
        }
    } else {
        p.is_direct = false;
        p.addrs.clear();
        if p.relay_hint.is_none() {
            p.relay_hint = route_owner;
        }
    }
    p
}

/// Whether the best confirmed route to a peer is direct or relayed.
#[derive(Clone, Copy, Debug, Eq, PartialEq, Structural)]
pub enum LinkMode {
    /// The best confirmed route is a direct transport route.
    Direct,
    /// The best confirmed route reaches the peer through another node.
    Relay,
}

/// The best confirmed route to a peer.
#[derive(Clone, Debug, Eq, PartialEq)]
pub struct LinkInfo {
    /// Peer described by this route snapshot.
    pub peer_id: PeerId,
    /// Direct or relayed mode for the selected route.
    pub mode: LinkMode,
    /// Route hop metric. `0` means direct; larger values mean relayed.
    pub metric: u8,
}

/// The link to `peer_id` over a route with hop metric `metric`: direct exactly at metric 0.
pub fn link_info_for(peer_id: PeerId, metric: u8) -> (r: LinkInfo)
    ensures
        r.peer_id == peer_id,
        r.metric == metric,
        r.mode == if metric == 0 {
            LinkMode::Direct
        } else {
            LinkMode::Relay
        },
{
    LinkInfo {
        peer_id,
        mode: if metric == 0 {
            LinkMode::Direct
        } else {
            LinkMode::Relay
        },
        metric,
    }
}

/// Merging address lists loses no address, adds no other, and keeps a list without repeats
/// free of them.
pub proof fn law_merged_addresses<T>(s: Seq<T>, t: Seq<T>)
    ensures
        forall|x: T| add_all_unique(s, t).contains(x) <==> (s.contains(x) || t.contains(x)),
        s.no_duplicates() ==> add_all_unique(s, t).no_duplicates(),
    decreases t.len(),
{
    if t.len() > 0 {
        let s1 = add_unique(s, t[0]);
        lemma_add_unique_contents(s, t[0]);
        law_merged_addresses(s1, t.drop_first());
        assert forall|x: T| add_all_unique(s, t).contains(x) <==> (s.contains(x) || t.contains(x)) by {
            if t.contains(x) && x != t[0] {
                let k = choose|k: int| 0 <= k < t.len() && t[k] == x;
                assert(t.drop_first()[k - 1] == x);
            }
            if t.drop_first().contains(x) {
                let k = choose|k: int| 0 <= k < t.drop_first().len() && t.drop_first()[k] == x;
                assert(t[k + 1] == x);
            }
            assert(t[0] == t[0]);
            if x == t[0] {
                assert(t.contains(x)) by {
                    assert(t[0] == x);
                }
            }
        }
    }
}

/// What a packet from `src` that arrived `metric` hops away over a route to `route_addr`
/// tells of its sender at time `now`: over a direct route, that address; over a relayed one,
/// no address and the peer that owns the route (`route_owner`) as relay hint. The peer is not
/// yet confirmed direct, and its NAT information is what is known of it (`peer_nat`).
pub fn peer_info_from_packet(
    src: PeerId,
    route_addr: SocketAddr,
    metric: u8,
    route_owner: Option<PeerId>,
    peer_nat: Option<NatInfo>,
    now: u64,
) -> (r: PeerInfo)
    ensures
        r.peer_id == src,
        metric == 0 ==> r.addrs@ == seq![route_addr] && r.relay_hint is None,
        metric > 0 ==> r.addrs@ == Seq::<SocketAddr>::empty() && r.relay_hint == route_owner,
        r.last_seen == now,
        !r.is_direct,
        r.nat_info == peer_nat,
{
    let mut addrs: Vec<SocketAddr> = Vec::new();
    let relay_hint = if metric > 0 {
        route_owner
    } else {
        addrs.push(route_addr);
        None
    };
    PeerInfo { peer_id: src, addrs, relay_hint, last_seen: now, is_direct: false, nat_info: peer_nat }
}

/// What this node advertises of itself at time `now`: its bound address, then the address of
/// its TCP listener unless that is the same; direct, without relay hint, with its NAT
/// information.
pub fn self_peer_info(
    peer_id: PeerId,
    local_addr: SocketAddr,
    local_tcp_addr: Option<SocketAddr>,
    nat_info: NatInfo,
    now: u64,
) -> (r: PeerInfo)
    ensures
        r.peer_id == peer_id,
        r.addrs@ == match local_tcp_addr {
            Some(t) => add_unique(seq![local_addr], t),
            None => seq![local_addr],
        },
        r.relay_hint is None,
        r.last_seen == now,
        r.is_direct,
        r.nat_info == Some(nat_info),
{
    let mut addrs: Vec<SocketAddr> = Vec::new();
    addrs.push(local_addr);
    if let Some(t) = local_tcp_addr {
        if !contains_addr(&addrs, t) {
            addrs.push(t);
        }
    }
    PeerInfo { peer_id, addrs, relay_hint: None, last_seen: now, is_direct: true, nat_info: Some(nat_info) }
}

} // verus!
