use rustp2p::error::IoKind;
use rustp2p::quic::demux;
use rustp2p::addr::Ipv4Addr;
use rustp2p::clock;
use rustp2p::quic::dispatch::{
    auto_punch_plan, classify_inbound, echo_reply_rtt, echo_request_payload, quic_path,
    route_metric_or_candidate, Inbound, PunchPlan, QuicPath, protocol_actions, InboundAction,
    punch_execution_plan, PunchExecution, nat_for_punch,
};
use rustp2p::quic::nat_info::NatInfo;
use rustp2p::quic::frame::{
    checked_u16, checked_u16_vec, checked_u8, decode_datagram_frame, decode_stream_frame, frame_len,
    frame_prefix,
    encode_datagram_frame, encode_stream_frame, required, DatagramFrame, FrameError, StreamFrame,
    StreamHeader,
};
use rustp2p::quic::identity::{Identity, IdentityError};
use rustp2p::quic::packet::{self, Packet, PacketError, ProtocolType, VERSION};
use rustp2p::quic::peer_id::PeerId;

#[test]
fn demux_classifies_quic_by_fixed_bit() {
    assert_eq!(demux::classify_packet(0xc0), demux::PacketType::Quic);
    assert_eq!(demux::classify_packet(0x40), demux::PacketType::Quic);
}

#[test]
fn demux_keeps_rustp2p_packets_out_of_quic_path() {
    assert_eq!(demux::classify_packet(0x80), demux::PacketType::RustP2p(0));
    assert_eq!(demux::classify_packet(0x8e), demux::PacketType::RustP2p(14));
}

#[test]
fn protocol_classifies_quic_by_fixed_bit() {
    assert_eq!(packet::classify_packet(0xc0), packet::PacketType::Quic);
    assert_eq!(packet::classify_packet(0x40), packet::PacketType::Quic);
}

#[test]
fn protocol_keeps_rustp2p_packets_out_of_quic_path() {
    assert_eq!(packet::classify_packet(0x80), packet::PacketType::RustP2p(0));
    assert_eq!(packet::classify_packet(0x8e), packet::PacketType::RustP2p(14));
}

#[test]
fn classify_other_first_bytes() {
    assert_eq!(demux::classify_packet(0x01), demux::PacketType::Stun);
    assert_eq!(demux::classify_packet(0x02), demux::PacketType::Punch);
    assert_eq!(demux::classify_packet(0x03), demux::PacketType::Punch);
    assert_eq!(demux::classify_packet(0x04), demux::PacketType::Other(4));
    assert_eq!(demux::classify_packet(0x00), demux::PacketType::Other(0));
}

#[test]
fn identity_is_deterministic_from_seed() {
    let a = Identity::new("node-a", b"seed-a").unwrap();
    let b = Identity::new("node-a", b"seed-a").unwrap();
    assert_eq!(a.peer_id(), PeerId::from("node-a"));
    assert_eq!(a.certificate_der(), b.certificate_der());
    assert_eq!(a.private_key_der(), b.private_key_der());
}

#[test]
fn peer_id_is_independent_from_certificate_seed() {
    let a = Identity::new("node-a", b"seed-a").unwrap();
    let b = Identity::new("node-a", b"seed-b").unwrap();
    assert_eq!(a.peer_id(), b.peer_id());
    assert_ne!(a.certificate_der(), b.certificate_der());
}

#[test]
fn peer_helpers_work() {
    assert!(PeerId::broadcast().is_broadcast());
    assert!(PeerId::unspecified().is_unspecified());
    assert_eq!(PeerId::from("abc").as_str(), "abc");
}

#[test]
fn identity_rejects_reserved_peer_ids() {
    assert_eq!(Identity::new("", b"s").err(), Some(IdentityError::InvalidPeerId));
    assert_eq!(Identity::new("*", b"s").err(), Some(IdentityError::InvalidPeerId));
    assert_eq!(Identity::new("nœud", b"s").err(), Some(IdentityError::Certificate));
    assert_eq!(Identity::new("nœud", b"s").err().map(|e| e.kind()), Some(IoKind::Other));
    assert_eq!(IdentityError::InvalidPeerId.kind(), IoKind::InvalidInput);
}

#[test]
fn identity_key_is_pkcs8_of_seed_hash() {
    let a = Identity::new("node-a", b"seed-a").unwrap();
    let key = a.private_key_der();
    assert_eq!(key.len(), 48);
    assert_eq!(&key[..16], &[0x30, 0x2e, 0x02, 0x01, 0x00, 0x30, 0x05, 0x06, 0x03, 0x2b, 0x65, 0x70, 0x04, 0x22, 0x04, 0x20]);
    assert_eq!(&key[16..], &a.seed_hash());
    assert_ne!(a.seed_hash(), [0u8; 32]);
}

#[test]
fn packet_round_trip_for_quic_relay() {
    let src = PeerId::from("node-a");
    let dest = PeerId::from("node-b");
    let packet = Packet::build(
        ProtocolType::QuicRelay,
        src.clone(),
        dest.clone(),
        8,
        b"encrypted-quic-packet",
    )
    .unwrap();
    assert_eq!(packet.protocol().unwrap(), ProtocolType::QuicRelay);
    assert_eq!(packet.src(), src);
    assert_eq!(packet.dest(), dest);
    assert_eq!(packet.payload(), b"encrypted-quic-packet");
    let parsed = Packet::parse(packet.into_bytes()).unwrap();
    assert_eq!(parsed.payload(), b"encrypted-quic-packet");
}

#[test]
fn packet_rejects_v2_header() {
    let mut bytes = Packet::build(
        ProtocolType::QuicRelay,
        PeerId::from("node-a"),
        PeerId::from("node-b"),
        8,
        b"payload",
    )
    .unwrap()
    .into_bytes();
    bytes[1] = 2;

    let err = Packet::parse(bytes).unwrap_err();
    assert_eq!(err.kind(), IoKind::InvalidData);
    assert_eq!(VERSION, 3);
}

#[test]
fn packet_ttl_and_parse_errors() {
    let mut p = Packet::build(ProtocolType::HelloRequest, PeerId::from("a"), PeerId::from("b"), 2, b"x").unwrap();
    assert_eq!(p.max_ttl(), 2);
    assert_eq!(p.ttl(), 2);
    assert!(p.decrement_ttl());
    assert_eq!(p.ttl(), 1);
    assert!(!p.decrement_ttl());
    assert_eq!(p.ttl(), 1);
    let bytes = p.as_bytes().to_vec();
    assert_eq!(bytes.len(), 13 + 1 + 1 + 1);
    assert_eq!(bytes[0], 0x80 | 13);
    assert_eq!(Packet::parse(bytes[..12].to_vec()).unwrap_err(), PacketError::ShortPacket);
    let mut low = bytes.clone();
    low[0] = 0x0d;
    assert_eq!(Packet::parse(low).unwrap_err(), PacketError::NotRustP2p);
    let mut longer = bytes.clone();
    longer.push(0);
    assert_eq!(Packet::parse(longer).unwrap_err(), PacketError::LengthMismatch);
    let mut bad_utf8 = bytes.clone();
    bad_utf8[13] = 0xff;
    assert_eq!(Packet::parse(bad_utf8).unwrap_err(), PacketError::InvalidSrcPeerId);
    assert_eq!(ProtocolType::try_from(17), Err(PacketError::InvalidProtocol(17)));
    assert_eq!(u8::from(ProtocolType::NatObserveReply), 16);
}

#[test]
fn protobuf_quic_frames_round_trip() {
    let stream = StreamFrame::User(StreamHeader {
        src: PeerId::from("node-a"),
        dest: PeerId::from("node-b"),
    });
    let StreamFrame::User(decoded_stream) =
        decode_stream_frame(&encode_stream_frame(&stream)).unwrap();
    assert_eq!(decoded_stream.src, PeerId::from("node-a"));
    assert_eq!(decoded_stream.dest, PeerId::from("node-b"));

    let datagram = DatagramFrame::User {
        id: 42,
        src: PeerId::from("node-a"),
        dest: PeerId::from("node-b"),
        payload: b"hello".to_vec(),
    };
    let DatagramFrame::User {
        id,
        src,
        dest,
        payload,
    } = decode_datagram_frame(&encode_datagram_frame(&datagram)).unwrap();
    assert_eq!(id, 42);
    assert_eq!(src, PeerId::from("node-a"));
    assert_eq!(dest, PeerId::from("node-b"));
    assert_eq!(payload, b"hello");
}

#[test]
fn stream_frame_wire_bytes() {
    let stream = StreamFrame::User(StreamHeader {
        src: PeerId::from("a"),
        dest: PeerId::from("bc"),
    });
    // Field 1 (length-delimited) holding a header with field 1 "a" and field 2 "bc".
    assert_eq!(
        encode_stream_frame(&stream),
        vec![0x0a, 0x07, 0x0a, 0x01, b'a', 0x12, 0x02, b'b', b'c']
    );
}

#[test]
fn datagram_frame_wire_bytes_leave_out_defaults() {
    let datagram = DatagramFrame::User {
        id: 0,
        src: PeerId::from(""),
        dest: PeerId::from("d"),
        payload: Vec::new(),
    };
    assert_eq!(encode_datagram_frame(&datagram), vec![0x0a, 0x03, 0x1a, 0x01, b'd']);
    let datagram = DatagramFrame::User {
        id: 300,
        src: PeerId::from(""),
        dest: PeerId::from(""),
        payload: vec![7],
    };
    assert_eq!(
        encode_datagram_frame(&datagram),
        vec![0x0a, 0x06, 0x08, 0xac, 0x02, 0x22, 0x01, 7]
    );
}

#[test]
fn empty_frame_is_missing_its_field() {
    match decode_stream_frame(&[]) {
        Err(FrameError::MissingField(f)) => assert_eq!(f, "stream_frame.frame"),
        other => panic!("unexpected {:?}", other),
    }
    match decode_datagram_frame(&[]) {
        Err(e) => {
            assert_eq!(e, FrameError::MissingField("datagram_frame.frame".to_string()));
            assert_eq!(e.kind(), IoKind::InvalidData);
        }
        Ok(_) => panic!("decoded an empty datagram frame"),
    }
}

#[test]
fn malformed_frames_are_refused() {
    // Truncated length-delimited field.
    assert_eq!(decode_stream_frame(&[0x0a, 0x05, 0x0a]).unwrap_err(), FrameError::Decode);
    // Field 1 with the varint wire type.
    assert_eq!(decode_stream_frame(&[0x08, 0x01]).unwrap_err(), FrameError::Decode);
    // Field number zero.
    assert_eq!(decode_stream_frame(&[0x02, 0x00]).unwrap_err(), FrameError::Decode);
    // A source that is not UTF-8.
    assert_eq!(
        decode_stream_frame(&[0x0a, 0x03, 0x0a, 0x01, 0xff]).unwrap_err(),
        FrameError::Decode
    );
    // A varint longer than ten bytes.
    let mut long = vec![0x08];
    long.extend(std::iter::repeat(0x80).take(10));
    long.push(0x01);
    assert_eq!(decode_datagram_frame(&long).unwrap_err(), FrameError::Decode);
}

#[test]
fn unknown_fields_are_skipped_and_repeated_headers_merge() {
    // Unknown varint field 5, then the header in two pieces, then an unknown 32-bit field.
    let bytes = [
        0x28, 0x07, // field 5 = 7
        0x0a, 0x03, 0x0a, 0x01, b'x', // header.src = "x"
        0x0a, 0x03, 0x12, 0x01, b'y', // header.dest = "y"
        0x3d, 1, 2, 3, 4, // field 7, fixed32
    ];
    let StreamFrame::User(h) = decode_stream_frame(&bytes).unwrap();
    assert_eq!(h.src, PeerId::from("x"));
    assert_eq!(h.dest, PeerId::from("y"));
    // A later id replaces an earlier one.
    let bytes = [0x0a, 0x04, 0x08, 0x01, 0x08, 0x02];
    let DatagramFrame::User { id, .. } = decode_datagram_frame(&bytes).unwrap();
    assert_eq!(id, 2);
}

#[test]
fn checked_conversions_name_the_field() {
    assert_eq!(checked_u16("nat.port", 65535), Ok(65535));
    assert_eq!(
        checked_u16("nat.port", 65536),
        Err(FrameError::ExceedsU16 { field: "nat.port".to_string(), value: 65536 })
    );
    assert_eq!(checked_u8("route.metric", 255), Ok(255));
    assert_eq!(
        checked_u8("route.metric", 256).unwrap_err(),
        FrameError::ExceedsU8 { field: "route.metric".to_string(), value: 256 }
    );
    assert_eq!(checked_u16_vec("ports", &[1, 2, 65535]), Ok(vec![1, 2, 65535]));
    assert_eq!(checked_u16_vec("ports", &[]), Ok(vec![]));
    assert_eq!(
        checked_u16_vec("ports", &[1, 70000, 80000]),
        Err(FrameError::ExceedsU16 { field: "ports".to_string(), value: 70000 })
    );
    assert_eq!(required(Some(3), "x"), Ok(3));
    assert_eq!(
        required::<u8>(None, "x"),
        Err(FrameError::MissingField("x".to_string()))
    );
}

#[test]
fn clock_readings_become_timestamps() {
    assert_eq!(clock::millis_from_reading(Some(5)), 5);
    assert_eq!(clock::millis_from_reading(Some((1u128 << 64) + 3)), 3);
    assert_eq!(clock::millis_from_reading(None), 0);
    assert_eq!(clock::millis32_from_reading(Some((1u128 << 32) + 7)), Ok(7));
    assert_eq!(clock::millis32_from_reading(None), Err(IoKind::Other));
    assert!(clock::now_millis() > 1_600_000_000_000);
    assert!(clock::now().is_ok());
}

#[test]
fn inbound_packets_are_sorted_by_destination() {
    let me = PeerId::from("me");
    assert!(matches!(classify_inbound(&me, vec![]), Ok(Inbound::Ignore)));
    assert!(matches!(classify_inbound(&me, vec![0xc0, 1, 2]), Ok(Inbound::Ignore)));
    let own = Packet::build(ProtocolType::EchoRequest, PeerId::from("me"), PeerId::from("x"), 5, b"")
        .unwrap()
        .into_bytes();
    assert!(matches!(classify_inbound(&me, own), Ok(Inbound::Ignore)));
    let anonymous = Packet::build(ProtocolType::EchoRequest, PeerId::from(""), PeerId::from("me"), 5, b"")
        .unwrap()
        .into_bytes();
    assert!(matches!(classify_inbound(&me, anonymous), Ok(Inbound::Ignore)));

    let mut relayed =
        Packet::build(ProtocolType::QuicRelay, PeerId::from("a"), PeerId::from("b"), 5, b"x")
            .unwrap();
    assert!(relayed.decrement_ttl());
    assert!(relayed.decrement_ttl());
    match classify_inbound(&me, relayed.into_bytes()) {
        Ok(Inbound::Forward { src, metric, packet }) => {
            assert_eq!(src, PeerId::from("a"));
            assert_eq!(metric, 2);
            assert_eq!(packet.dest(), PeerId::from("b"));
        }
        other => panic!("unexpected {:?}", other),
    }

    for dest in ["me", "*"] {
        let p = Packet::build(ProtocolType::HelloRequest, PeerId::from("a"), PeerId::from(dest), 5, b"")
            .unwrap();
        match classify_inbound(&me, p.into_bytes()) {
            Ok(Inbound::Deliver { protocol, metric, src, .. }) => {
                assert_eq!(protocol, ProtocolType::HelloRequest);
                assert_eq!(metric, 0);
                assert_eq!(src, PeerId::from("a"));
            }
            other => panic!("unexpected {:?}", other),
        }
    }

    let mut bytes = Packet::build(ProtocolType::EchoReply, PeerId::from("a"), PeerId::from("me"), 5, b"")
        .unwrap()
        .into_bytes();
    bytes[0] = 0x80 | 20;
    assert_eq!(classify_inbound(&me, bytes.clone()).unwrap_err(), PacketError::InvalidProtocol(20));
    bytes[1] = 2;
    assert_eq!(classify_inbound(&me, bytes).unwrap_err(), PacketError::UnsupportedVersion(2));
}

#[test]
fn echo_replies_give_round_trip_times() {
    let sent = 1_700_000_000_000u64;
    let payload = echo_request_payload(sent);
    assert_eq!(payload, sent.to_be_bytes());
    assert_eq!(echo_reply_rtt(&payload, sent + 25, 0), Some(25));
    assert_eq!(echo_reply_rtt(&payload, sent + 25, 1), None);
    assert_eq!(echo_reply_rtt(&payload, sent + 60_000, 0), None);
    assert_eq!(echo_reply_rtt(&payload, sent, 0), None);
    assert_eq!(echo_reply_rtt(&payload[..7], sent + 25, 0), None);
}

#[test]
fn auto_punch_is_rate_limited() {
    let mut nat = NatInfo::default();
    assert_eq!(auto_punch_plan(true, true, None, None, 100, None), PunchPlan::Skip);
    assert_eq!(auto_punch_plan(false, false, None, None, 100, None), PunchPlan::Skip);
    assert_eq!(auto_punch_plan(false, true, Some(0), None, 100, None), PunchPlan::Skip);
    assert_eq!(auto_punch_plan(false, true, Some(1), Some(95), 100, None), PunchPlan::Skip);
    assert_eq!(
        auto_punch_plan(false, true, Some(1), Some(90), 100, Some(&nat)),
        PunchPlan::Punch { execute: false }
    );
    nat.public_ips.push(Ipv4Addr::new(198, 51, 100, 1));
    nat.public_udp_ports.push(4000);
    assert_eq!(
        auto_punch_plan(false, true, None, None, 100, Some(&nat)),
        PunchPlan::Punch { execute: true }
    );
    assert_eq!(auto_punch_plan(false, true, None, Some(200), 100, Some(&nat)), PunchPlan::Skip);
}

#[test]
fn stream_frame_length_prefix() {
    assert_eq!(frame_prefix(5), Ok([0, 0, 0, 5]));
    assert_eq!(frame_prefix(65536), Ok([0, 1, 0, 0]));
    assert_eq!(frame_prefix(65537), Err(IoKind::InvalidInput));
    assert_eq!(frame_len([0, 0, 1, 2]), Ok(258));
    assert_eq!(frame_len([0, 1, 0, 1]), Err(IoKind::InvalidData));
    assert_eq!(frame_len(frame_prefix(1234).unwrap()), Ok(1234));
}

fn frame_with_nested_groups(levels: usize) -> Vec<u8> {
    let mut bytes = Vec::new();
    for _ in 0..levels {
        bytes.push(0x2b); // field 5, start group
    }
    for _ in 0..levels {
        bytes.push(0x2c); // field 5, end group
    }
    bytes.extend_from_slice(&[0x0a, 0x03, 0x0a, 0x01, b'x']);
    bytes
}

#[test]
fn unknown_groups_are_skipped_up_to_the_recursion_limit() {
    // A group holding a varint field and a 64-bit field, then the header.
    let bytes = [
        0x2b, 0x08, 0x01, 0x11, 1, 2, 3, 4, 5, 6, 7, 8, 0x2c, 0x0a, 0x03, 0x0a, 0x01, b'x',
    ];
    let StreamFrame::User(h) = decode_stream_frame(&bytes).unwrap();
    assert_eq!(h.src, PeerId::from("x"));
    // An end key with another number, or with none open, is refused.
    assert_eq!(decode_stream_frame(&[0x2b, 0x34]).unwrap_err(), FrameError::Decode);
    assert_eq!(decode_stream_frame(&[0x2c]).unwrap_err(), FrameError::Decode);
    // An unterminated group is refused.
    assert_eq!(decode_stream_frame(&[0x2b, 0x08, 0x01]).unwrap_err(), FrameError::Decode);
    // Groups nest a hundred deep, not deeper.
    assert!(decode_stream_frame(&frame_with_nested_groups(100)).is_ok());
    assert_eq!(
        decode_stream_frame(&frame_with_nested_groups(101)).unwrap_err(),
        FrameError::Decode
    );
}

#[test]
fn quic_payloads_prefer_direct_routes() {
    assert_eq!(quic_path(Some((7u32, 0)), Some(9)), QuicPath::Route(7));
    assert_eq!(quic_path(Some((7u32, 2)), Some(9)), QuicPath::Peer);
    assert_eq!(quic_path(None, Some(9u32)), QuicPath::Route(9));
    assert_eq!(quic_path::<u32>(None, None), QuicPath::NotFound);
    assert_eq!(route_metric_or_candidate(Some((7u32, 3)), Some(9)), Some((7, 3)));
    assert_eq!(route_metric_or_candidate(None, Some(9u32)), Some((9, 0)));
    assert_eq!(route_metric_or_candidate::<u32>(None, None), None);
}

#[test]
fn seed_hash_is_sha256_of_the_seed() {
    let id = Identity::new("node", b"abc").unwrap();
    assert_eq!(
        id.seed_hash(),
        [
            0xba, 0x78, 0x16, 0xbf, 0x8f, 0x01, 0xcf, 0xea, 0x41, 0x41, 0x40, 0xde, 0x5d, 0xae,
            0x22, 0x23, 0xb0, 0x03, 0x61, 0xa3, 0x96, 0x17, 0x7a, 0x9c, 0xb4, 0x10, 0xff, 0x61,
            0xf2, 0x00, 0x15, 0xad
        ]
    );
}

#[test]
fn delivered_packets_lead_to_protocol_steps() {
    let acts = |p, metric, hello, direct, allowed, pending| {
        protocol_actions(p, metric, hello, direct, allowed, pending, false, false)
    };
    assert_eq!(
        acts(ProtocolType::HelloRequest, 0, false, false, false, false),
        vec![InboundAction::ConfirmDirect, InboundAction::Reply(ProtocolType::HelloReply)]
    );
    assert_eq!(
        acts(ProtocolType::HelloRequest, 2, false, false, false, false),
        vec![InboundAction::Reply(ProtocolType::HelloReply)]
    );
    assert_eq!(
        acts(ProtocolType::HelloReply, 0, true, false, false, false),
        vec![InboundAction::StoreNat, InboundAction::ApplyObservation, InboundAction::ConfirmDirect, InboundAction::NotifyHello, InboundAction::IngestRoutes]
    );
    assert_eq!(
        acts(ProtocolType::HelloReply, 0, false, false, false, false),
        vec![InboundAction::StoreNat, InboundAction::ApplyObservation, InboundAction::UpsertPeer, InboundAction::NotifyHello, InboundAction::IngestRoutes]
    );
    assert_eq!(
        acts(ProtocolType::IDRouteQuery, 1, false, false, false, false),
        vec![InboundAction::ConfirmRelay, InboundAction::Reply(ProtocolType::IDRouteReply)]
    );
    assert_eq!(acts(ProtocolType::IDRouteReply, 0, false, false, false, false), vec![InboundAction::ConfirmTcp, InboundAction::IngestRoutes]);
    assert_eq!(acts(ProtocolType::QuicRelay, 3, false, false, false, false), vec![InboundAction::InjectQuic]);
    assert_eq!(
        acts(ProtocolType::PunchRequest, 0, false, false, true, false),
        vec![InboundAction::StoreNat, InboundAction::ConfirmDirect, InboundAction::AddCandidate, InboundAction::TryPunch, InboundAction::Reply(ProtocolType::PunchReply)]
    );
    assert_eq!(acts(ProtocolType::PunchRequest, 1, false, false, false, false), vec![InboundAction::StoreNat]);
    assert_eq!(
        acts(ProtocolType::PunchReply, 0, false, false, true, true),
        vec![InboundAction::StoreNat, InboundAction::ConfirmDirect, InboundAction::TryPunch]
    );
    assert_eq!(acts(ProtocolType::PunchReply, 0, false, true, false, true), vec![InboundAction::StoreNat]);
    assert_eq!(
        acts(ProtocolType::PunchConsultRequest, 1, false, false, true, false),
        vec![InboundAction::StoreNat, InboundAction::Reply(ProtocolType::PunchConsultReply)]
    );
    assert_eq!(
        acts(ProtocolType::EchoRequest, 0, false, false, false, false),
        vec![InboundAction::ConfirmTcp, InboundAction::Reply(ProtocolType::EchoReply)]
    );
    assert_eq!(acts(ProtocolType::EchoReply, 0, false, false, false, false), vec![InboundAction::MeasureRtt]);
    assert!(acts(ProtocolType::EchoReply, 1, false, false, false, false).is_empty());
    assert!(acts(ProtocolType::MessageData, 0, false, false, false, false).is_empty());
    assert_eq!(
        protocol_actions(ProtocolType::NatObserveRequest, 0, false, false, false, false, true, false),
        vec![InboundAction::Reply(ProtocolType::NatObserveReply)]
    );
    assert_eq!(
        protocol_actions(ProtocolType::NatObserveReply, 0, false, false, false, false, true, true),
        vec![InboundAction::ApplyObservation, InboundAction::ConfirmDirect]
    );
    assert!(protocol_actions(ProtocolType::NatObserveReply, 0, false, false, false, false, true, false)
        .is_empty());
}

#[test]
fn tried_punches_are_rate_limited_when_relayed() {
    assert_eq!(punch_execution_plan(true, 0, None, 100), PunchExecution::Skip);
    assert_eq!(punch_execution_plan(false, 2, Some(97), 100), PunchExecution::Skip);
    assert_eq!(
        punch_execution_plan(false, 2, Some(95), 100),
        PunchExecution::Execute { record_time: true }
    );
    assert_eq!(
        punch_execution_plan(false, 0, Some(99), 100),
        PunchExecution::Execute { record_time: false }
    );
    let mut nat = NatInfo::default();
    nat.public_udp_ports.push(4000);
    let route = rustp2p::addr::SocketAddr::new(
        rustp2p::addr::IpAddr::V4(Ipv4Addr::new(198, 51, 100, 9)),
        4000,
    );
    let direct = nat_for_punch(nat.clone(), route, 0);
    assert_eq!(direct.public_ips, vec![Ipv4Addr::new(198, 51, 100, 9)]);
    assert_eq!(direct.public_udp_ports, vec![4000]);
    let relayed = nat_for_punch(nat, route, 1);
    assert!(relayed.public_ips.is_empty());
}

#[test]
fn identity_needs_an_ascii_peer_id_for_its_certificate() {
    assert!(Identity::new("node-a", b"seed").is_ok());
    assert_eq!(
        Identity::new("nœud", b"seed").err().map(|e| e.kind()),
        Some(IoKind::Other)
    );
}
