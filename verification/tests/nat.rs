use rustp2p::addr::{normalize_local_addr, IpAddr, Ipv4Addr, Ipv6Addr, SocketAddr};
use rustp2p::quic::dispatch::{punch_allowed, should_observe_with};
use rustp2p::quic::nat_info::{
    apply_observation_to_nat_info, apply_stun_result_to_nat_info, initial_nat_info, NatInfo,
    NatObservation, NatType, ObservedProtocol, StunResult,
};
use rustp2p::quic::peer_id::PeerId;
use rustp2p::quic::transport::{
    link_info_for, merged_peer_info, peer_for_confirmed_route, peer_info_from_packet,
    self_peer_info, LinkMode, PeerInfo,
};

fn v4(a: u8, b: u8, c: u8, d: u8, port: u16) -> SocketAddr {
    SocketAddr::new(IpAddr::V4(Ipv4Addr::new(a, b, c, d)), port)
}

fn observation(protocol: ObservedProtocol, addr: SocketAddr) -> NatObservation {
    NatObservation {
        observed_protocol: protocol,
        observed_addr: addr,
        observer_peer_id: PeerId::from("observer"),
        observed_at: 1,
    }
}

const DOC_V6: u128 = 0x2001_0db8_0000_0000_0000_0000_0000_0001;

#[test]
fn stun_updates_nat_type_port_range_and_stun_ports() {
    let mut info = NatInfo::default();
    let result = StunResult {
        nat_type: NatType::Symmetric,
        public_ipv4: vec![Ipv4Addr::new(203, 0, 113, 10)],
        public_ipv6: Some(Ipv6Addr(1)),
        public_udp_ports: vec![34567],
        port_range: 42,
    };

    apply_stun_result_to_nat_info(&mut info, &result);

    assert_eq!(info.nat_type, NatType::Symmetric);
    assert_eq!(info.public_port_range, 42);
    assert_eq!(info.stun_mapped_ports, vec![34567]);
    assert!(info.public_ips.is_empty());
    assert!(info.public_udp_ports.is_empty());
    assert!(info.ipv6.is_none());
}

#[test]
fn udp_ipv4_observation_updates_public_udp_addr() {
    let mut info = NatInfo::default();
    apply_observation_to_nat_info(
        &mut info,
        &observation(ObservedProtocol::Udp, v4(203, 0, 113, 1, 4567)),
    );

    assert_eq!(info.public_ips, vec![Ipv4Addr::new(203, 0, 113, 1)]);
    assert_eq!(info.public_udp_ports, vec![4567]);
    assert_eq!(info.public_tcp_port, 0);
}

#[test]
fn tcp_ipv4_observation_updates_public_tcp_port() {
    let mut info = NatInfo::default();
    apply_observation_to_nat_info(
        &mut info,
        &observation(ObservedProtocol::Tcp, v4(203, 0, 113, 2, 7788)),
    );

    assert_eq!(info.public_ips, vec![Ipv4Addr::new(203, 0, 113, 2)]);
    assert_eq!(info.public_tcp_port, 7788);
    assert!(info.public_udp_ports.is_empty());
}

#[test]
fn ipv6_observation_updates_ipv6_and_protocol_port() {
    let mut info = NatInfo::default();
    apply_observation_to_nat_info(
        &mut info,
        &observation(
            ObservedProtocol::Udp,
            SocketAddr::new(IpAddr::V6(Ipv6Addr(DOC_V6)), 9000),
        ),
    );

    assert_eq!(info.ipv6, Some(Ipv6Addr(DOC_V6)));
    assert_eq!(info.public_udp_ports, vec![9000]);
}

#[test]
fn repeated_observation_changes_nothing_more() {
    let mut info = NatInfo::default();
    let obs = observation(ObservedProtocol::Udp, v4(198, 51, 100, 7, 5000));
    apply_observation_to_nat_info(&mut info, &obs);
    apply_observation_to_nat_info(&mut info, &obs);
    assert_eq!(info.public_ips, vec![Ipv4Addr::new(198, 51, 100, 7)]);
    assert_eq!(info.public_udp_ports, vec![5000]);
    let other = observation(ObservedProtocol::Udp, v4(198, 51, 100, 8, 5001));
    apply_observation_to_nat_info(&mut info, &other);
    assert_eq!(
        info.public_ips,
        vec![Ipv4Addr::new(198, 51, 100, 7), Ipv4Addr::new(198, 51, 100, 8)]
    );
    assert_eq!(info.public_udp_ports, vec![5000, 5001]);
}

#[test]
fn ipv4_address_octets() {
    let ip = Ipv4Addr::new(203, 0, 113, 1);
    assert_eq!(ip.0, 0xcb00_7101);
    assert_eq!(ip.octets(), [203, 0, 113, 1]);
    assert!(Ipv4Addr::unspecified().is_unspecified());
    assert!(!ip.is_unspecified());
}

#[test]
fn local_addr_keeps_requested_ip_when_system_reports_unspecified() {
    let requested = v4(10, 0, 0, 2, 0);
    let actual = v4(0, 0, 0, 0, 4433);
    assert_eq!(normalize_local_addr(actual, requested), v4(10, 0, 0, 2, 4433));
    let bound = v4(10, 0, 0, 3, 4433);
    assert_eq!(normalize_local_addr(bound, requested), bound);
    assert_eq!(normalize_local_addr(actual, v4(0, 0, 0, 0, 0)), actual);
}

#[test]
fn merged_peer_info_combines_old_and_new_records() {
    let me = PeerId::from("me");
    let mut old = PeerInfo::new(PeerId::from("peer"));
    old.addrs = vec![v4(127, 0, 0, 1, 1), v4(127, 0, 0, 1, 2)];
    old.is_direct = true;
    old.relay_hint = Some(PeerId::from("relay"));
    old.nat_info = Some(NatInfo::default());
    let mut new = PeerInfo::new(PeerId::from("peer"));
    new.addrs = vec![v4(127, 0, 0, 1, 2), v4(127, 0, 0, 1, 3)];
    let merged = merged_peer_info(&me, new, Some(&old), 99).unwrap();
    assert_eq!(
        merged.addrs,
        vec![v4(127, 0, 0, 1, 2), v4(127, 0, 0, 1, 3), v4(127, 0, 0, 1, 1)]
    );
    assert!(merged.is_direct);
    assert_eq!(merged.relay_hint, Some(PeerId::from("relay")));
    assert!(merged.nat_info.is_some());
    assert_eq!(merged.last_seen, 99);

    let myself = PeerInfo::new(PeerId::from("me"));
    assert!(merged_peer_info(&me, myself, None, 1).is_none());
}

#[test]
fn confirmed_routes_update_peer_records() {
    let peer = PeerInfo::new(PeerId::from("peer")).with_addr(v4(127, 0, 0, 1, 7));
    let direct = peer_for_confirmed_route(peer.clone(), v4(127, 0, 0, 1, 8), 0, None);
    assert!(direct.is_direct);
    assert_eq!(direct.addrs, vec![v4(127, 0, 0, 1, 7), v4(127, 0, 0, 1, 8)]);
    let relayed =
        peer_for_confirmed_route(peer, v4(127, 0, 0, 1, 9), 2, Some(PeerId::from("hop")));
    assert!(!relayed.is_direct);
    assert!(relayed.addrs.is_empty());
    assert_eq!(relayed.relay_hint, Some(PeerId::from("hop")));
}

#[test]
fn link_mode_follows_metric() {
    let direct = link_info_for(PeerId::from("a"), 0);
    assert_eq!(direct.mode, LinkMode::Direct);
    let relay = link_info_for(PeerId::from("a"), 3);
    assert_eq!(relay.mode, LinkMode::Relay);
    assert_eq!(relay.metric, 3);
}

#[test]
fn initial_nat_info_reflects_the_bound_sockets() {
    let mapped = vec![v4(192, 0, 2, 10, 6001)];
    let info = initial_nat_info(&mapped, &vec![], v4(10, 0, 0, 2, 7001), Some(v4(10, 0, 0, 2, 7003)));
    assert_eq!(info.mapping_udp_addr, mapped);
    assert!(info.mapping_tcp_addr.is_empty());
    assert_eq!(info.local_udp_ports, vec![7001]);
    assert_eq!(info.local_tcp_port, 7003);
    assert_eq!(info.local_ipv4, Ipv4Addr::new(10, 0, 0, 2));
    assert!(info.public_ips.is_empty());
    let v6 = SocketAddr::new(IpAddr::V6(Ipv6Addr(DOC_V6)), 7001);
    let info = initial_nat_info(&vec![], &vec![], v6, None);
    assert_eq!(info.local_ipv4, Ipv4Addr::new(0, 0, 0, 0));
    assert_eq!(info.local_tcp_port, 0);
}

#[test]
fn peer_records_from_packets_and_self() {
    let direct = peer_info_from_packet(PeerId::from("a"), v4(127, 0, 0, 1, 5), 0, None, None, 7);
    assert_eq!(direct.addrs, vec![v4(127, 0, 0, 1, 5)]);
    assert!(direct.relay_hint.is_none());
    assert!(!direct.is_direct);
    assert_eq!(direct.last_seen, 7);
    let relayed = peer_info_from_packet(
        PeerId::from("a"),
        v4(127, 0, 0, 1, 5),
        2,
        Some(PeerId::from("hop")),
        Some(NatInfo::default()),
        7,
    );
    assert!(relayed.addrs.is_empty());
    assert_eq!(relayed.relay_hint, Some(PeerId::from("hop")));
    assert!(relayed.nat_info.is_some());

    let me = self_peer_info(
        PeerId::from("me"),
        v4(0, 0, 0, 0, 4433),
        Some(v4(0, 0, 0, 0, 4434)),
        NatInfo::default(),
        9,
    );
    assert_eq!(me.addrs, vec![v4(0, 0, 0, 0, 4433), v4(0, 0, 0, 0, 4434)]);
    assert!(me.is_direct);
    let same = self_peer_info(
        PeerId::from("me"),
        v4(0, 0, 0, 0, 4433),
        Some(v4(0, 0, 0, 0, 4433)),
        NatInfo::default(),
        9,
    );
    assert_eq!(same.addrs, vec![v4(0, 0, 0, 0, 4433)]);
}

#[test]
fn whitelists_and_observers() {
    let a = PeerId::from("a");
    let b = PeerId::from("b");
    assert!(punch_allowed(&None, &a));
    assert!(punch_allowed(&Some(vec![a.clone()]), &a));
    assert!(!punch_allowed(&Some(vec![a.clone()]), &b));
    assert!(!punch_allowed(&Some(vec![]), &a));
    assert!(should_observe_with(&vec![], &a));
    assert!(should_observe_with(&vec![b.clone(), a.clone()], &a));
    assert!(!should_observe_with(&vec![b.clone()], &a));
}
