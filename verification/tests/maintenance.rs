use rustp2p::addr::Ipv4Addr;
use rustp2p::quic::dispatch::{inbound_receipt, ReceiptStep};
use rustp2p::quic::maintenance::{
    last_punch_time, maintenance_tick, punch_round_plan, record_punch, route_query_targets,
    hello_probe_targets, KnownPeer,
};
use rustp2p::quic::nat_info::NatInfo;
use rustp2p::quic::packet::{Packet, ProtocolType};
use rustp2p::quic::peer_id::PeerId;
use rustp2p::stun::{stun_server_with_port, stun_servers_with_port};

fn known(id: &str, route_metric: Option<u8>, nat: Option<NatInfo>) -> KnownPeer {
    KnownPeer { peer_id: PeerId::from(id), route_metric, nat }
}

fn punchable_nat() -> NatInfo {
    let mut n = NatInfo::default();
    n.public_ips.push(Ipv4Addr::new(1, 2, 3, 4));
    n.public_udp_ports.push(4000);
    n
}

fn ids(v: &[PeerId]) -> Vec<String> {
    v.iter().map(|p| p.as_str().to_string()).collect()
}

#[test]
fn punch_times_record_the_latest_punch() {
    let times = vec![(PeerId::from("a"), 5), (PeerId::from("b"), 7)];
    assert_eq!(last_punch_time(&times, &PeerId::from("a")), Some(5));
    assert_eq!(last_punch_time(&times, &PeerId::from("c")), None);
    let times = record_punch(&times, &PeerId::from("a"), 30);
    assert_eq!(times.len(), 2);
    assert_eq!(last_punch_time(&times, &PeerId::from("a")), Some(30));
    assert_eq!(last_punch_time(&times, &PeerId::from("b")), Some(7));
}

#[test]
fn tick_queries_probes_and_punches_other_peers() {
    let me = PeerId::from("me");
    let peers = vec![
        known("me", None, None),
        known("direct", Some(0), Some(punchable_nat())),
        known("relayed", Some(1), Some(punchable_nat())),
        known("unknown", None, None),
        known("recent", Some(2), None),
    ];
    assert_eq!(ids(&route_query_targets(&me, &peers)), vec!["direct", "relayed", "unknown", "recent"]);
    let candidates = vec![
        (PeerId::from("me"), 1u32, false),
        (PeerId::from("x"), 2u32, true),
        (PeerId::from("y"), 3u32, false),
    ];
    let probes = hello_probe_targets(&me, &candidates);
    assert_eq!(probes.len(), 1);
    assert_eq!((probes[0].0.as_str(), probes[0].1), ("y", 3));

    let times = vec![(PeerId::from("recent"), 95), (PeerId::from("unknown"), 80)];
    let (plan, times) = maintenance_tick(false, &me, &peers, &candidates, &None, times, 100);
    let plan = plan.unwrap();
    assert_eq!(plan.route_queries.len(), 4);
    assert_eq!(plan.hello_probes.len(), 1);
    let punches: Vec<(String, bool)> =
        plan.punches.iter().map(|(p, e)| (p.as_str().to_string(), *e)).collect();
    assert_eq!(punches, vec![("relayed".to_string(), true), ("unknown".to_string(), false)]);
    assert_eq!(last_punch_time(&times, &PeerId::from("relayed")), Some(100));
    assert_eq!(last_punch_time(&times, &PeerId::from("unknown")), Some(100));
    assert_eq!(last_punch_time(&times, &PeerId::from("recent")), Some(95));
    assert_eq!(last_punch_time(&times, &PeerId::from("me")), None);
}

#[test]
fn tick_respects_whitelist_and_repeats() {
    let me = PeerId::from("me");
    let peers = vec![known("a", None, None), known("b", None, None), known("a", None, None)];
    let whitelist = Some(vec![PeerId::from("a")]);
    let (punches, times) = punch_round_plan(&me, &whitelist, &peers, Vec::new(), 50);
    assert_eq!(ids(&punches.iter().map(|(p, _)| p.clone()).collect::<Vec<_>>()), vec!["a"]);
    assert_eq!(last_punch_time(&times, &PeerId::from("b")), None);
}

#[test]
fn closed_tick_sends_nothing() {
    let me = PeerId::from("me");
    let peers = vec![known("a", None, None)];
    let candidates: Vec<(PeerId, u32, bool)> = vec![(PeerId::from("a"), 1, false)];
    let times = vec![(PeerId::from("a"), 1)];
    let (plan, times) = maintenance_tick(true, &me, &peers, &candidates, &None, times, 100);
    assert!(plan.is_none());
    assert_eq!(last_punch_time(&times, &PeerId::from("a")), Some(1));
}

#[test]
fn receipts_of_received_packets() {
    let me = PeerId::from("me");
    let direct = Packet::build(ProtocolType::HelloRequest, PeerId::from("a"), me.clone(), 3, b"x")
        .unwrap()
        .into_bytes();
    let r = inbound_receipt(&me, &direct).unwrap();
    assert_eq!(r.src.as_str(), "a");
    assert_eq!(r.metric, 0);
    assert_eq!(
        r.steps,
        vec![ReceiptStep::UpdateRouteReadTime, ReceiptStep::UpsertPeer, ReceiptStep::AddCandidate]
    );
    let mut relayed = Packet::build(ProtocolType::HelloRequest, PeerId::from("a"), PeerId::from("b"), 3, b"x")
        .unwrap();
    assert!(relayed.decrement_ttl());
    let r = inbound_receipt(&me, &relayed.into_bytes()).unwrap();
    assert_eq!(r.metric, 1);
    assert_eq!(r.steps, vec![ReceiptStep::UpdateRouteReadTime, ReceiptStep::UpsertPeer]);
    let own = Packet::build(ProtocolType::HelloRequest, me.clone(), PeerId::from("b"), 3, b"x")
        .unwrap()
        .into_bytes();
    assert!(inbound_receipt(&me, &own).is_none());
    assert!(inbound_receipt(&me, &[]).is_none());
    assert!(inbound_receipt(&me, &[0x80, 1, 2]).is_none());
}

#[test]
fn stun_servers_get_the_default_port() {
    assert_eq!(stun_server_with_port("stun.example.com".to_string()), "stun.example.com:3478");
    assert_eq!(stun_server_with_port("1.2.3.4:19302".to_string()), "1.2.3.4:19302");
    assert_eq!(
        stun_servers_with_port(vec!["a".to_string(), "b:1".to_string()]),
        vec!["a:3478".to_string(), "b:1".to_string()]
    );
}
