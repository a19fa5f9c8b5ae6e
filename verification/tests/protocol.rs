use rustp2p::addr::Ipv4Addr;
use rustp2p::error::{Error, IoKind};
use rustp2p::protocol::broadcast::{Builder as BroadcastBuilder, RangeBroadcastPacket};
use rustp2p::protocol::handle::{
    handle_net_packet, into_reply, range_broadcast_targets, timestamp_rtt, Handling,
};
use rustp2p::protocol::id_route::{Builder as IdRouteBuilder, IDRouteReplyPacket};
use rustp2p::protocol::net_packet::NetPacket;
use rustp2p::protocol::node_id::{GroupCode, NodeID};
use rustp2p::protocol::protocol_type::ProtocolType;

#[test]
fn mod_test_build() {
    let buf = [0u8; 20];
    let mut packet = NetPacket::unchecked(buf.to_vec());
    packet.set_ttl(2);
    packet.reset_data_len();
    packet.set_src_id(&3.into());
    packet.set_dest_id(&2.into());
    packet.set_protocol(ProtocolType::IDRouteQuery);
    assert_eq!(packet.max_ttl(), packet.ttl());
    assert_eq!(packet.max_ttl(), 2);
    assert_eq!(packet.dest_id(), &2_u32.to_be_bytes());
    assert_eq!(packet.src_id(), &3_u32.to_be_bytes());
    assert_eq!(packet.protocol().unwrap(), ProtocolType::IDRouteQuery);
}

#[test]
fn test_new_protocol() {
    assert_eq!(ProtocolType::try_from(4).unwrap(), ProtocolType::PunchReply);
    assert!(ProtocolType::try_from(128).is_err());
}

fn broadcast_test_build0(list: Vec<NodeID>, payload: &[u8]) {
    let packet = BroadcastBuilder::build_range_broadcast(&list, payload).unwrap();
    let packet = RangeBroadcastPacket::new(packet.payload().to_vec()).unwrap();
    assert_eq!(packet.iter().len(), list.len());
    assert_eq!(packet.payload(), payload);
    for (index, node_id) in packet.iter().into_iter().enumerate() {
        assert_eq!(node_id, list[index]);
    }
}

#[test]
fn broadcast_test_build() {
    let list = vec![NodeID::from(1), NodeID::from(2), NodeID::from(3)];
    let payload = [1; 100];
    broadcast_test_build0(list, &payload);
}

fn id_route_test_build0(list: Vec<(NodeID, u8)>) {
    let packet = IdRouteBuilder::build_reply(&list, 16, 20).unwrap();
    let packet = IDRouteReplyPacket::new(packet.payload().to_vec()).unwrap();
    assert_eq!(packet.iter().len(), list.len());
    assert_eq!(packet.query_id(), 16);
    assert_eq!(packet.all_id_num(), 20);
    for (index, (node_id, metric)) in packet.iter().into_iter().enumerate() {
        assert_eq!(node_id, list[index].0);
        assert_eq!(metric, list[index].1);
    }
}

#[test]
fn id_route_test_build() {
    let list = vec![
        (NodeID::from(1), 1),
        (NodeID::from(2), 1),
        (NodeID::from(1), 3),
    ];
    id_route_test_build0(list);
    let list = vec![
        (NodeID::from(1), 1),
        (NodeID::from(2), 1),
        (NodeID::from(1), 3),
        (NodeID::from(4), 2),
    ];
    id_route_test_build0(list);
}

#[test]
fn node_id_round_trips_through_u32() {
    let id = NodeID::from(0x0A00_0001u32);
    assert_eq!(id.as_ref(), &[10, 0, 0, 1]);
    assert_eq!(u32::from(id), 0x0A00_0001);
    assert_eq!(i32::from(NodeID::from(-1i32)), -1);
    assert!(NodeID::broadcast().is_broadcast());
    assert!(NodeID::unspecified().is_unspecified());
    assert!(!NodeID::from(1u32).is_unspecified());
    assert!(NodeID::try_from(&[1u8, 2, 3][..]).is_err());
    assert_eq!(NodeID::try_from(&[1u8, 2, 3, 4][..]).unwrap(), NodeID::from([1, 2, 3, 4]));
}

#[test]
fn group_code_conversions() {
    assert!(GroupCode::unspecified().is_unspecified());
    assert!(GroupCode::default().is_unspecified());
    let g = GroupCode::try_from_str("my-group").unwrap();
    assert_eq!(&g.as_ref()[..8], b"my-group");
    assert_eq!(&g.as_ref()[8..], &[0u8; 8]);
    assert!(GroupCode::try_from_str("this text is much too long").is_err());
    let g: GroupCode = 12345u128.into();
    assert_eq!(g.as_ref(), &12345u128.to_be_bytes());
    assert!(GroupCode::try_from(&[0u8; 15][..]).is_err());
}

#[test]
fn net_packet_checks_its_length() {
    assert!(matches!(
        NetPacket::new(vec![0u8; 10]),
        Err(rustp2p::error::Error::Overflow { cap: 10, required: 16 })
    ));
    let mut p = NetPacket::unchecked(vec![0u8; 20]);
    p.reset_data_len();
    assert!(NetPacket::new(p.buffer().to_vec()).is_ok());
    let mut q = NetPacket::unchecked(vec![0u8; 20]);
    q.set_ttl(3);
    assert!(q.incr_ttl());
    assert_eq!(q.ttl(), 2);
    q.set_ttl(1);
    assert!(!q.incr_ttl());
    assert_eq!(q.ttl(), 1);
    assert!(matches!(
        NetPacket::new(q.buffer().to_vec()),
        Err(rustp2p::error::Error::InvalidArgument(_))
    ));
}

#[test]
fn broadcast_rejects_bad_lists() {
    assert!(BroadcastBuilder::build_range_broadcast(&[], b"x").is_err());
    let many = vec![NodeID::from(1u32); 256];
    assert!(BroadcastBuilder::build_range_broadcast(&many, b"x").is_err());
    assert!(RangeBroadcastPacket::new(vec![]).is_err());
    assert!(RangeBroadcastPacket::new(vec![2, 0, 0, 0, 1]).is_err());
}

#[test]
fn id_route_reply_checks_size() {
    assert!(matches!(
        IDRouteReplyPacket::new(vec![0, 0, 0, 0]),
        Err(rustp2p::error::Error::Overflow { cap: 4, required: 5 })
    ));
    assert!(matches!(
        IDRouteReplyPacket::new(vec![1, 0, 0, 0, 0]),
        Err(rustp2p::error::Error::Overflow { cap: 5, required: 10 })
    ));
    let many = vec![(NodeID::from(1u32), 1u8); 256];
    assert!(IdRouteBuilder::build_reply(&many, 1, 1).is_err());
}

fn raw_packet(protocol: u8, max_ttl: u8, ttl: u8, src: [u8; 4], dest: [u8; 4], payload: &[u8]) -> Vec<u8> {
    let len = 16 + payload.len();
    let mut b = vec![0x80 | protocol, (len >> 8) as u8, len as u8, (max_ttl << 4) | ttl, 0, 0, 0, 0];
    b.extend_from_slice(&src);
    b.extend_from_slice(&dest);
    b.extend_from_slice(payload);
    b
}

#[test]
fn net_packets_are_forwarded_or_handled_locally() {
    let me = Some(NodeID::from([10, 0, 0, 1]));
    // Too short, wrong length, bad TTLs.
    assert!(matches!(handle_net_packet(vec![0x80; 5], me), Err(Error::Overflow { cap: 5, required: 16 })));
    let mut bad_len = raw_packet(0, 5, 5, [10, 0, 0, 2], [10, 0, 0, 1], b"x");
    bad_len[2] = 99;
    assert!(matches!(handle_net_packet(bad_len, me), Err(Error::InvalidArgument(_))));
    match handle_net_packet(raw_packet(0, 3, 5, [10, 0, 0, 2], [10, 0, 0, 1], b""), me) {
        Err(Error::Io(IoKind::InvalidData, Some(m))) => assert_eq!(m, "ttl error"),
        other => panic!("unexpected {:?}", other),
    }
    assert!(matches!(
        handle_net_packet(raw_packet(0, 3, 0, [10, 0, 0, 2], [10, 0, 0, 1], b""), me),
        Ok(Handling::Drop)
    ));
    // Bad sources.
    match handle_net_packet(raw_packet(0, 5, 5, [0, 0, 0, 0], [10, 0, 0, 1], b""), me) {
        Err(Error::Io(IoKind::InvalidData, Some(m))) => assert_eq!(m, "src id is unspecified"),
        other => panic!("unexpected {:?}", other),
    }
    match handle_net_packet(raw_packet(0, 5, 5, [10, 0, 0, 2], [10, 0, 0, 1], b""), None) {
        Err(Error::Io(IoKind::InvalidData, Some(m))) => assert_eq!(m, "self id is none"),
        other => panic!("unexpected {:?}", other),
    }
    match handle_net_packet(raw_packet(0, 5, 5, [10, 0, 0, 1], [10, 0, 0, 3], b""), me) {
        Err(Error::Io(IoKind::InvalidData, Some(m))) => assert_eq!(m, "id loop error"),
        other => panic!("unexpected {:?}", other),
    }
    // For another node: forwarded with the TTL stepped down (by the header's own rule).
    match handle_net_packet(raw_packet(0, 7, 7, [10, 0, 0, 2], [10, 0, 0, 3], b"x"), me) {
        Ok(Handling::Forward { packet, src, dest, metric }) => {
            assert_eq!(packet.buffer()[3], 0x76);
            assert_eq!(src, NodeID::from([10, 0, 0, 2]));
            assert_eq!(dest, NodeID::from([10, 0, 0, 3]));
            assert_eq!(metric, 0);
        }
        other => panic!("unexpected {:?}", other),
    }
    assert!(matches!(
        handle_net_packet(raw_packet(0, 7, 1, [10, 0, 0, 2], [10, 0, 0, 3], b"x"), me),
        Ok(Handling::Drop)
    ));
    // For this node or everyone: handled here.
    for dest in [[10, 0, 0, 1], [0, 0, 0, 0], [255, 255, 255, 255]] {
        match handle_net_packet(raw_packet(5, 7, 5, [10, 0, 0, 2], dest, b"x"), me) {
            Ok(Handling::Local { protocol, metric, .. }) => {
                assert_eq!(protocol, ProtocolType::EchoRequest);
                assert_eq!(metric, 2);
            }
            other => panic!("unexpected {:?}", other),
        }
    }
    match handle_net_packet(raw_packet(20, 7, 5, [10, 0, 0, 2], [10, 0, 0, 1], b""), me) {
        Err(Error::Io(IoKind::InvalidData, Some(m))) => assert_eq!(m, "invalid protocol:20"),
        other => panic!("unexpected {:?}", other),
    }
}

#[test]
fn requests_turn_into_replies_in_place() {
    let raw = raw_packet(5, 7, 4, [10, 0, 0, 2], [10, 0, 0, 1], b"ping");
    let mut packet = NetPacket::new(raw).unwrap();
    into_reply(
        &mut packet,
        ProtocolType::EchoReply,
        &NodeID::from([10, 0, 0, 2]),
        &NodeID::from([10, 0, 0, 1]),
    );
    assert_eq!(packet.protocol().unwrap(), ProtocolType::EchoReply);
    assert_eq!(packet.ttl(), 7);
    assert_eq!(packet.max_ttl(), 7);
    assert_eq!(packet.src_id(), &[10, 0, 0, 1]);
    assert_eq!(packet.dest_id(), &[10, 0, 0, 2]);
    assert_eq!(packet.payload(), b"ping");
}

#[test]
fn timestamps_and_broadcast_ranges() {
    assert_eq!(timestamp_rtt(&1000u32.to_be_bytes(), 1250).unwrap(), 250);
    assert_eq!(timestamp_rtt(&1000u32.to_be_bytes(), 900).unwrap(), 0);
    match timestamp_rtt(&[1, 2, 3], 5) {
        Err(Error::Io(IoKind::InvalidData, Some(m))) => assert_eq!(m, "time error"),
        other => panic!("unexpected {:?}", other),
    }
    let me = NodeID::from([1, 1, 1, 1]);
    let ids = vec![NodeID::from([2, 2, 2, 2]), me, NodeID::from([3, 3, 3, 3])];
    let (others, to_self) = range_broadcast_targets(&ids, &me);
    assert_eq!(others, vec![NodeID::from([2, 2, 2, 2]), NodeID::from([3, 3, 3, 3])]);
    assert!(to_self);
    let (others, to_self) = range_broadcast_targets(&others, &me);
    assert_eq!(others.len(), 2);
    assert!(!to_self);
}

#[test]
fn node_id_and_ipv4_address_convert_both_ways() {
    let ip = Ipv4Addr::new(10, 26, 0, 3);
    let id = NodeID::from(ip);
    assert_eq!(id.octets(), [10, 26, 0, 3]);
    let back: Ipv4Addr = id.into();
    assert_eq!(back, ip);
}

fn io_parts(e: Error) -> (IoKind, Option<String>) {
    match e {
        Error::Io(kind, message) => (kind, message),
        other => panic!("unexpected {:?}", other),
    }
}

#[test]
fn io_errors_carry_their_messages() {
    let invalid = |m: &str| (IoKind::InvalidData, Some(m.to_string()));
    assert_eq!(io_parts(ProtocolType::try_from(14).err().unwrap()), invalid("invalid protocol:14"));
    assert_eq!(io_parts(ProtocolType::try_from(128).err().unwrap()), invalid("invalid protocol:128"));
    assert_eq!(io_parts(ProtocolType::try_from(255).err().unwrap()), invalid("invalid protocol:255"));
    assert_eq!(io_parts(RangeBroadcastPacket::new(vec![]).err().unwrap()), invalid("buf len == 0"));
    assert_eq!(
        io_parts(RangeBroadcastPacket::new(vec![2, 0, 0, 0, 1]).err().unwrap()),
        invalid("buf len < head_len")
    );
    assert_eq!(io_parts(BroadcastBuilder::build_range_broadcast(&[], b"x").err().unwrap()), invalid("empty"));
    let many = vec![NodeID::from([1, 2, 3, 4]); 256];
    assert_eq!(
        io_parts(BroadcastBuilder::build_range_broadcast(&many, b"x").err().unwrap()),
        invalid("list len > 255")
    );
    assert_eq!(io_parts(NodeID::try_from(&[1u8, 2, 3][..]).err().unwrap()), (IoKind::InvalidData, None));
    assert_eq!(io_parts(GroupCode::try_from(&[0u8; 15][..]).err().unwrap()), (IoKind::InvalidData, None));
    assert_eq!(
        io_parts(GroupCode::try_from_str("this text is much too long").err().unwrap()),
        (
            IoKind::Other,
            Some("The number of bytes in the string exceeds the limit of group code len 16".to_string())
        )
    );
}
