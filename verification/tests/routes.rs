use rustp2p::error::{received_len, IoKind, RecvError};
use rustp2p::quic::peer_id::PeerId;
use rustp2p::quic::routes::{discovery_entries, ingest_route_entries, RouteEntry};
use rustp2p::quic::transport::PeerInfo;

fn peer(id: &str) -> PeerInfo {
    PeerInfo::new(PeerId::from(id))
}

fn ids_and_metrics(entries: &[RouteEntry]) -> Vec<(String, u8)> {
    entries.iter().map(|e| (e.peer.peer_id.as_str().to_string(), e.metric)).collect()
}

#[test]
fn discovery_advertises_self_then_routed_peers() {
    let known = vec![
        (peer("b"), Some(0)),
        (peer("requester"), Some(1)),
        (peer("c"), None),
        (peer("d"), Some(2)),
    ];
    let entries = discovery_entries(peer("a"), &PeerId::from("requester"), known);
    assert_eq!(
        ids_and_metrics(&entries),
        vec![("a".to_string(), 0), ("b".to_string(), 0), ("d".to_string(), 2)]
    );
}

#[test]
fn ingested_routes_add_one_hop() {
    let entries = vec![
        RouteEntry { peer: peer("a"), metric: 0 },
        RouteEntry { peer: peer("me"), metric: 1 },
        RouteEntry { peer: peer(""), metric: 1 },
        RouteEntry { peer: peer("d"), metric: 2 },
        RouteEntry { peer: peer("e"), metric: 255 },
    ];
    let routes = ingest_route_entries(&PeerId::from("me"), entries);
    let got: Vec<(String, u8)> =
        routes.iter().map(|(p, m)| (p.peer_id.as_str().to_string(), *m)).collect();
    assert_eq!(
        got,
        vec![("a".to_string(), 1), ("d".to_string(), 3), ("e".to_string(), 255)]
    );
}

#[test]
fn advertised_metric_plus_one_round_trip() {
    let known = vec![(peer("x"), Some(4)), (peer("y"), None)];
    let entries = discovery_entries(peer("adv"), &PeerId::from("me"), known);
    let routes = ingest_route_entries(&PeerId::from("me"), entries);
    let got: Vec<(String, u8)> =
        routes.iter().map(|(p, m)| (p.peer_id.as_str().to_string(), *m)).collect();
    assert_eq!(got, vec![("adv".to_string(), 1), ("x".to_string(), 5)]);
}

#[test]
fn receive_outcomes() {
    assert_eq!(received_len(true, Some(Ok(10))), Err(RecvError::Done));
    assert_eq!(received_len(false, None), Err(RecvError::Done));
    assert_eq!(received_len(false, Some(Err(IoKind::Other))), Err(RecvError::Io(IoKind::Other)));
    assert_eq!(received_len(false, Some(Ok(0))), Err(RecvError::Io(IoKind::UnexpectedEof)));
    assert_eq!(received_len(false, Some(Ok(7))), Ok(7));
}
