use vstd::prelude::*;
use vstd::utf8::{decode_utf8, encode_utf8, valid_utf8};
use crate::bytes::{lemma_u16_be_round_trip, push_all, push_u16_be, u16_be_bytes};
use crate::error::IoKind;
use crate::protocol::net_packet::be16;
use crate::protocol::node_id::{be_bytes_u32, lemma_u32_be_round_trip, u32_be_bytes};
use crate::quic::peer_id::{PeerId, peer_bytes};

pub use crate::quic::demux::{PacketType, classify_packet};

verus! {

/// Version of the overlay packet header.
pub const VERSION: u8 = 3;

/// Length of the fixed part of the header.
pub const FIXED_HEADER_LEN: usize = 13;

/// Kind of an overlay packet of the QUIC overlay.
#[derive(Copy, Clone, Debug, Eq, PartialEq, Structural)]
pub enum ProtocolType {
    MessageData,
    PunchConsultRequest,
    PunchConsultReply,
    PunchRequest,
    PunchReply,
    EchoRequest,
    EchoReply,
    TimestampRequest,
    TimestampReply,
    IDRouteQuery,
    IDRouteReply,
    RangeBroadcast,
    QuicRelay,
    HelloRequest,
    HelloReply,
    NatObserveRequest,
    NatObserveReply,
}

/// The number that stands for `p` on the wire.
pub open spec fn quic_protocol_code(p: ProtocolType) -> u8 {
    match p {
        ProtocolType::MessageData => 0,
        ProtocolType::PunchConsultRequest => 1,
        ProtocolType::PunchConsultReply => 2,
        ProtocolType::PunchRequest => 3,
        ProtocolType::PunchReply => 4,
        ProtocolType::EchoRequest => 5,
        ProtocolType::EchoReply => 6,
        ProtocolType::TimestampRequest => 7,
        ProtocolType::TimestampReply => 8,
        ProtocolType::IDRouteQuery => 9,
        ProtocolType::IDRouteReply => 10,
        ProtocolType::RangeBroadcast => 11,
        ProtocolType::QuicRelay => 12,
        ProtocolType::HelloRequest => 13,
        ProtocolType::HelloReply => 14,
        ProtocolType::NatObserveRequest => 15,
        ProtocolType::NatObserveReply => 16,
    }
}

/// The kind whose number is `v`, if there is one (`v <= 16`).
pub open spec fn quic_protocol_of_code(v: u8) -> Option<ProtocolType> {
    if v == 0 {
        Some(ProtocolType::MessageData)
    } else if v == 1 {
        Some(ProtocolType::PunchConsultRequest)
    } else if v == 2 {
        Some(ProtocolType::PunchConsultReply)
    } else if v == 3 {
        Some(ProtocolType::PunchRequest)
    } else if v == 4 {
        Some(ProtocolType::PunchReply)
    } else if v == 5 {
        Some(ProtocolType::EchoRequest)
    } else if v == 6 {
        Some(ProtocolType::EchoReply)
    } else if v == 7 {
        Some(ProtocolType::TimestampRequest)
    } else if v == 8 {
        Some(ProtocolType::TimestampReply)
    } else if v == 9 {
        Some(ProtocolType::IDRouteQuery)
    } else if v == 10 {
        Some(ProtocolType::IDRouteReply)
    } else if v == 11 {
        Some(ProtocolType::RangeBroadcast)
    } else if v == 12 {
        Some(ProtocolType::QuicRelay)
    } else if v == 13 {
        Some(ProtocolType::HelloRequest)
    } else if v == 14 {
        Some(ProtocolType::HelloReply)
    } else if v == 15 {
        Some(ProtocolType::NatObserveRequest)
    } else if v == 16 {
        Some(ProtocolType::NatObserveReply)
    } else {
        None
    }
}

/// Every kind's number maps back to that kind, and the numbers of kinds are 0 to 16.
pub proof fn lemma_quic_protocol_code_round_trip(p: ProtocolType, v: u8)
    ensures
        quic_protocol_code(p) <= 16,
        quic_protocol_of_code(quic_protocol_code(p)) == Some(p),
        v <= 16 ==> quic_protocol_of_code(v) is Some && quic_protocol_code(
            quic_protocol_of_code(v).unwrap(),
        ) == v,
        v > 16 ==> quic_protocol_of_code(v) is None,
{
}

impl ProtocolType {
    /// The kind numbered `value`; numbers above 16 are refused as invalid data.
    pub fn try_from(value: u8) -> (r: Result<ProtocolType, PacketError>)
        ensures
            value <= 16 ==> r == Ok::<ProtocolType, PacketError>(quic_protocol_of_code(value).unwrap()),
            value > 16 ==> r == Err::<ProtocolType, PacketError>(PacketError::InvalidProtocol(value)),
    {
        match value {
            0 => Ok(ProtocolType::MessageData),
            1 => Ok(ProtocolType::PunchConsultRequest),
            2 => Ok(ProtocolType::PunchConsultReply),
            3 => Ok(ProtocolType::PunchRequest),
            4 => Ok(ProtocolType::PunchReply),
            5 => Ok(ProtocolType::EchoRequest),
            6 => Ok(ProtocolType::EchoReply),
            7 => Ok(ProtocolType::TimestampRequest),
            8 => Ok(ProtocolType::TimestampReply),
            9 => Ok(ProtocolType::IDRouteQuery),
            10 => Ok(ProtocolType::IDRouteReply),
            11 => Ok(ProtocolType::RangeBroadcast),
            12 => Ok(ProtocolType::QuicRelay),
            13 => Ok(ProtocolType::HelloRequest),
            14 => Ok(ProtocolType::HelloReply),
            15 => Ok(ProtocolType::NatObserveRequest),
            16 => Ok(ProtocolType::NatObserveReply),
            val => Err(PacketError::InvalidProtocol(val)),
        }
    }

    /// The number of this kind on the wire.
    pub fn to_u8(self) -> (r: u8)
        ensures
            r == quic_protocol_code(self),
    {
        match self {
            ProtocolType::MessageData => 0,
            ProtocolType::PunchConsultRequest => 1,
            ProtocolType::PunchConsultReply => 2,
            ProtocolType::PunchRequest => 3,
            ProtocolType::PunchReply => 4,
            ProtocolType::EchoRequest => 5,
            ProtocolType::EchoReply => 6,
            ProtocolType::TimestampRequest => 7,
            ProtocolType::TimestampReply => 8,
            ProtocolType::IDRouteQuery => 9,
            ProtocolType::IDRouteReply => 10,
            ProtocolType::RangeBroadcast => 11,
            ProtocolType::QuicRelay => 12,
            ProtocolType::HelloRequest => 13,
            ProtocolType::HelloReply => 14,
            ProtocolType::NatObserveRequest => 15,
            ProtocolType::NatObserveReply => 16,
        }
    }
}

impl From<ProtocolType> for u8 {
    fn from(value: ProtocolType) -> (r: u8) {
        value.to_u8()
    }
}

impl vstd::std_specs::convert::FromSpecImpl<ProtocolType> for u8 {
    open spec fn obeys_from_spec() -> bool {
        true
    }

    open spec fn from_spec(value: ProtocolType) -> u8 {
        quic_protocol_code(value)
    }
}

} // verus!

verus! {

/// Why a packet of the QUIC overlay could not be built or read.
#[derive(Clone, Copy, Debug, PartialEq, Eq, Structural)]
pub enum PacketError {
    /// Fewer bytes than the fixed header.
    ShortPacket,
    /// The high bit of the first byte is clear.
    NotRustP2p,
    /// The version byte is not [`VERSION`].
    UnsupportedVersion(u8),
    /// The length field differs from the number of bytes.
    LengthMismatch,
    /// The source identifier length cannot be added to the header length.
    InvalidSrcLength,
    /// The destination identifier length cannot be added to the source end.
    InvalidDestLength,
    /// The identifiers reach beyond the end of the packet.
    PeerIdExceedsPacket,
    /// The source identifier is not UTF-8.
    InvalidSrcPeerId,
    /// The destination identifier is not UTF-8.
    InvalidDestPeerId,
    /// A protocol number above 16.
    InvalidProtocol(u8),
    /// An identifier of more than 65535 bytes.
    PeerIdTooLong,
    /// A packet longer than 2^32 - 1 bytes.
    PacketTooLarge,
}

impl PacketError {
    /// The category of the failure: bad arguments to `build` are invalid input, everything
    /// else is invalid data.
    pub fn kind(&self) -> (r: IoKind)
        ensures
            (*self == PacketError::PeerIdTooLong || *self == PacketError::PacketTooLarge) ==> r
                == IoKind::InvalidInput,
            !(*self == PacketError::PeerIdTooLong || *self == PacketError::PacketTooLarge) ==> r
                == IoKind::InvalidData,
    {
        match self {
            PacketError::PeerIdTooLong => IoKind::InvalidInput,
            PacketError::PacketTooLarge => IoKind::InvalidInput,
            _ => IoKind::InvalidData,
        }
    }
}

/// Views `bytes` as text if they are valid UTF-8.
///
/// Calls `std::str::from_utf8`, which the standard library documents to succeed exactly on
/// valid UTF-8 and to return the text those bytes encode.
#[verifier::external_body]
pub(crate) fn str_from_utf8(bytes: &[u8]) -> (r: Option<&str>)
    ensures
        r is Some <==> valid_utf8(bytes@),
        r matches Some(s) ==> s@ == decode_utf8(bytes@),
{
    std::str::from_utf8(bytes).ok()
}

/// The bytes `Packet::build` produces for a packet of protocol number `code` from the source
/// identifier bytes `src` to `dest` with TTL `ttl`.
pub open spec fn packet_bytes(code: u8, src: Seq<u8>, dest: Seq<u8>, ttl: u8, payload: Seq<u8>) -> Seq<u8> {
    let len = 13 + src.len() + dest.len() + payload.len();
    seq![0x80u8 | code, VERSION, 0u8, ttl, ttl] + u32_be_bytes(len as u32) + u16_be_bytes(
        src.len() as u16,
    ) + u16_be_bytes(dest.len() as u16) + src + dest + payload
}

/// What `Packet::parse` makes of `b`: the source and destination identifiers and where the
/// payload starts, or the first check that fails.
pub open spec fn parse_outcome(b: Seq<u8>) -> Result<(Seq<char>, Seq<char>, int), PacketError> {
    if b.len() < FIXED_HEADER_LEN {
        Err(PacketError::ShortPacket)
    } else if b[0] & 0x80u8 == 0 {
        Err(PacketError::NotRustP2p)
    } else if b[1] != VERSION {
        Err(PacketError::UnsupportedVersion(b[1]))
    } else if be_bytes_u32(b.subrange(5, 9)) != b.len() {
        Err(PacketError::LengthMismatch)
    } else {
        let src_end = 13 + be16(b[9], b[10]);
        let end = src_end + be16(b[11], b[12]);
        if end > b.len() {
            Err(PacketError::PeerIdExceedsPacket)
        } else if !valid_utf8(b.subrange(13, src_end)) {
            Err(PacketError::InvalidSrcPeerId)
        } else if !valid_utf8(b.subrange(src_end, end)) {
            Err(PacketError::InvalidDestPeerId)
        } else {
            Ok((decode_utf8(b.subrange(13, src_end)), decode_utf8(b.subrange(src_end, end)), end))
        }
    }
}

/// Packet of the QUIC overlay: a fixed header, the source and destination identifiers, and
/// the payload.
#[derive(Clone, Debug)]
pub struct Packet {
    buf: Vec<u8>,
    src: PeerId,
    dest: PeerId,
    payload_offset: usize,
}

impl Packet {
    /// The bytes parse back to the identifiers and payload start that the packet records.
    pub closed spec fn wf(self) -> bool {
        parse_outcome(self.buf@) == Ok::<(Seq<char>, Seq<char>, int), PacketError>(
            (self.src.0@, self.dest.0@, self.payload_offset as int),
        )
    }

    /// The bytes of the packet.
    pub closed spec fn bytes(self) -> Seq<u8> {
        self.buf@
    }

    /// The source identifier.
    pub closed spec fn src_peer(self) -> PeerId {
        self.src
    }

    /// The destination identifier.
    pub closed spec fn dest_peer(self) -> PeerId {
        self.dest
    }

    /// Where the payload starts.
    pub closed spec fn payload_start(self) -> int {
        self.payload_offset as int
    }
}


/// A packet built from identifiers of at most 65535 bytes and a total length below 2^32
/// parses back to the same identifiers, with the payload right after them.
pub proof fn law_parse_after_build(code: u8, src: Seq<char>, dest: Seq<char>, ttl: u8, payload: Seq<u8>)
    requires
        encode_utf8(src).len() <= 65535,
        encode_utf8(dest).len() <= 65535,
        13 + encode_utf8(src).len() + encode_utf8(dest).len() + payload.len() <= u32::MAX,
    ensures
        parse_outcome(packet_bytes(code, encode_utf8(src), encode_utf8(dest), ttl, payload)) == Ok::<
            (Seq<char>, Seq<char>, int),
            PacketError,
        >((src, dest, 13int + encode_utf8(src).len() + encode_utf8(dest).len())),
        packet_bytes(code, encode_utf8(src), encode_utf8(dest), ttl, payload).subrange(
            13int + encode_utf8(src).len() + encode_utf8(dest).len(),
            13int + encode_utf8(src).len() + encode_utf8(dest).len() + payload.len(),
        ) == payload,
{
    broadcast use vstd::utf8::encode_utf8_valid_utf8, vstd::utf8::encode_utf8_decode_utf8;

    let sb = encode_utf8(src);
    let db = encode_utf8(dest);
    let b = packet_bytes(code, sb, db, ttl, payload);
    let len = 13int + sb.len() + db.len() + payload.len();
    assert(b.len() == len);
    assert(b[0] == 0x80u8 | code);
    assert((0x80u8 | code) & 0x80u8 != 0) by (bit_vector);
    assert(b.subrange(5, 9) =~= u32_be_bytes(len as u32));
    lemma_u32_be_round_trip(len as u32);
    lemma_u16_be_round_trip(sb.len() as u16);
    lemma_u16_be_round_trip(db.len() as u16);
    assert(b[9] == (((sb.len() as u16) >> 8u16) as u8));
    assert(b[11] == (((db.len() as u16) >> 8u16) as u8));
    assert(b.subrange(13, 13int + sb.len()) =~= sb);
    assert(b.subrange(13int + sb.len(), 13int + sb.len() + db.len()) =~= db);
    assert(b.subrange(13int + sb.len() + db.len(), len) =~= payload);
}

/// Every packet that `Packet::build` or `Packet::parse` gives, and every packet after any number
/// of `decrement_ttl` steps (all of which keep `wf`), has the header shape: the overlay bit set,
/// version 3, a length field equal to its length, and after the 13-byte fixed header exactly the
/// bytes of its source identifier, then those of its destination identifier, then its payload,
/// which runs to the end.
pub proof fn law_packet_shape(p: Packet)
    requires
        p.wf(),
    ensures
        p.bytes().len() >= FIXED_HEADER_LEN,
        p.bytes()[0] & 0x80u8 != 0,
        p.bytes()[1] == VERSION,
        be_bytes_u32(p.bytes().subrange(5, 9)) == p.bytes().len(),
        p.payload_start() == 13 + peer_bytes(p.src_peer()).len() + peer_bytes(p.dest_peer()).len(),
        p.payload_start() <= p.bytes().len(),
        p.bytes().subrange(13, 13int + peer_bytes(p.src_peer()).len()) == peer_bytes(p.src_peer()),
        p.bytes().subrange(13int + peer_bytes(p.src_peer()).len(), p.payload_start()) == peer_bytes(
            p.dest_peer(),
        ),
{
    broadcast use vstd::utf8::decode_utf8_encode_utf8;

    let b = p.buf@;
    let src_end = 13 + be16(b[9], b[10]);
    let end = src_end + be16(b[11], b[12]);
    assert(encode_utf8(decode_utf8(b.subrange(13, src_end))) == b.subrange(13, src_end));
    assert(encode_utf8(decode_utf8(b.subrange(src_end, end))) == b.subrange(src_end, end));
}

/// Changing the current TTL byte does not change how a packet parses.
proof fn lemma_parse_ignores_ttl(b: Seq<u8>, v: u8)
    requires
        b.len() > 4,
    ensures
        parse_outcome(b.update(4, v)) == parse_outcome(b),
{
    let c = b.update(4, v);
    if b.len() >= 13 {
        assert(c.subrange(5, 9) =~= b.subrange(5, 9));
        let src_end = 13 + be16(b[9], b[10]);
        let end = src_end + be16(b[11], b[12]);
        if end <= b.len() {
            assert(c.subrange(13, src_end) =~= b.subrange(13, src_end));
            assert(c.subrange(src_end, end) =~= b.subrange(src_end, end));
        }
    }
}

fn read_u16(buf: &Vec<u8>, at: usize) -> (r: usize)
    requires
        at + 2 <= buf@.len(),
    ensures
        r == be16(buf@[at as int], buf@[at + 1]),
{
    let _len = buf.len();
    (buf[at] as usize) * 256 + (buf[at + 1] as usize)
}

impl Packet {
    /// A packet of kind `protocol` from `src` to `dest` whose maximal and current TTL are
    /// `max_ttl`, carrying `payload`. Identifiers of more than 65535 bytes and packets of
    /// 2^32 bytes or more are refused.
    pub fn build(protocol: ProtocolType, src: PeerId, dest: PeerId, max_ttl: u8, payload: &[u8]) -> (r:
        Result<Packet, PacketError>)
        ensures
            peer_bytes(src).len() > 65535 || peer_bytes(dest).len() > 65535 ==> r
                == Err::<Packet, PacketError>(PacketError::PeerIdTooLong),
            peer_bytes(src).len() <= 65535 && peer_bytes(dest).len() <= 65535 && 13 + peer_bytes(
                src,
            ).len() + peer_bytes(dest).len() + payload@.len() > u32::MAX ==> r == Err::<
                Packet,
                PacketError,
            >(PacketError::PacketTooLarge),
            peer_bytes(src).len() <= 65535 && peer_bytes(dest).len() <= 65535 && 13 + peer_bytes(
                src,
            ).len() + peer_bytes(dest).len() + payload@.len() <= u32::MAX ==> (r matches Ok(p)
                && p.bytes() == packet_bytes(
                quic_protocol_code(protocol),
                peer_bytes(src),
                peer_bytes(dest),
                max_ttl,
                payload@,
            ) && p.wf() && p.src_peer() == src && p.dest_peer() == dest && p.payload_start() == 13
                + peer_bytes(src).len() + peer_bytes(dest).len()),
    {
        let src_bytes = src.as_str().as_bytes();
        let dest_bytes = dest.as_str().as_bytes();
        if src_bytes.len() > 65535 || dest_bytes.len() > 65535 {
            return Err(PacketError::PeerIdTooLong);
        }
        let len = match FIXED_HEADER_LEN.checked_add(src_bytes.len()) {
            Some(n) => match n.checked_add(dest_bytes.len()) {
                Some(n) => match n.checked_add(payload.len()) {
                    Some(n) => n,
                    None => return Err(PacketError::PacketTooLarge),
                },
                None => return Err(PacketError::PacketTooLarge),
            },
            None => return Err(PacketError::PacketTooLarge),
        };
        if len > u32::MAX as usize {
            return Err(PacketError::PacketTooLarge);
        }
        let mut buf: Vec<u8> = Vec::with_capacity(len);
        buf.push(0x80u8 | protocol.to_u8());
        buf.push(VERSION);
        buf.push(0);
        buf.push(max_ttl);
        buf.push(max_ttl);
        let len32 = len as u32;
        buf.push((len32 >> 24u32) as u8);
        buf.push((len32 >> 16u32) as u8);
        buf.push((len32 >> 8u32) as u8);
        buf.push(#[verifier::truncate] (len32 as u8));
        push_u16_be(&mut buf, src_bytes.len() as u16);
        push_u16_be(&mut buf, dest_bytes.len() as u16);
        push_all(&mut buf, src_bytes);
        push_all(&mut buf, dest_bytes);
        let payload_offset = buf.len();
        push_all(&mut buf, payload);
        assert(buf@ =~= packet_bytes(
            quic_protocol_code(protocol),
            peer_bytes(src),
            peer_bytes(dest),
            max_ttl,
            payload@,
        ));
        proof {
            law_parse_after_build(
                quic_protocol_code(protocol),
                src.0@,
                dest.0@,
                max_ttl,
                payload@,
            );
        }
        Ok(Packet { buf, src, dest, payload_offset })
    }

    /// Reads a packet; see [`parse_outcome`] for the checks and their order.
    pub fn parse(buf: Vec<u8>) -> (r: Result<Packet, PacketError>)
        ensures
            parse_outcome(buf@) matches Err(e) ==> r == Err::<Packet, PacketError>(e),
            parse_outcome(buf@) matches Ok((s, d, off)) ==> (r matches Ok(p) && p.wf() && p.bytes() == buf@
                && p.src_peer().0@ == s && p.dest_peer().0@ == d && p.payload_start() == off),
    {
        if buf.len() < FIXED_HEADER_LEN {
            return Err(PacketError::ShortPacket);
        }
        if buf[0] & 0x80 == 0 {
            return Err(PacketError::NotRustP2p);
        }
        if buf[1] != VERSION {
            return Err(PacketError::UnsupportedVersion(buf[1]));
        }
        let len32: u32 = (buf[5] as u32) << 24u32 | (buf[6] as u32) << 16u32 | (buf[7] as u32)
            << 8u32 | (buf[8] as u32);
        assert(len32 == be_bytes_u32(buf@.subrange(5, 9)));
        if len32 as usize != buf.len() {
            return Err(PacketError::LengthMismatch);
        }
        let src_len = read_u16(&buf, 9);
        let dest_len = read_u16(&buf, 11);
        let src_start = FIXED_HEADER_LEN;
        let dest_start = match src_start.checked_add(src_len) {
            Some(n) => n,
            None => return Err(PacketError::InvalidSrcLength),
        };
        let payload_offset = match dest_start.checked_add(dest_len) {
            Some(n) => n,
            None => return Err(PacketError::InvalidDestLength),
        };
        if payload_offset > buf.len() {
            return Err(PacketError::PeerIdExceedsPacket);
        }
        let src = match str_from_utf8(&buf.as_slice()[src_start..dest_start]) {
            Some(s) => s.to_owned(),
            None => return Err(PacketError::InvalidSrcPeerId),
        };
        let dest = match str_from_utf8(&buf.as_slice()[dest_start..payload_offset]) {
            Some(s) => s.to_owned(),
            None => return Err(PacketError::InvalidDestPeerId),
        };
        Ok(Packet { buf, src: PeerId(src), dest: PeerId(dest), payload_offset })
    }

    /// The protocol of the packet, from the low seven bits of its first byte.
    pub fn protocol(&self) -> (r: Result<ProtocolType, PacketError>)
        requires
            self.wf(),
        ensures
            self.bytes().len() >= FIXED_HEADER_LEN,
            (self.bytes()[0] & 0x7fu8) <= 16 ==> r == Ok::<ProtocolType, PacketError>(
                quic_protocol_of_code(self.bytes()[0] & 0x7fu8).unwrap(),
            ),
            (self.bytes()[0] & 0x7fu8) > 16 ==> r == Err::<ProtocolType, PacketError>(
                PacketError::InvalidProtocol(self.bytes()[0] & 0x7fu8),
            ),
    {
        ProtocolType::try_from(self.buf[0] & 0x7f)
    }

    /// The source identifier.
    pub fn src(&self) -> (r: PeerId)
        requires
            self.wf(),
        ensures
            r == self.src_peer(),
    {
        self.src.duplicate()
    }

    /// The destination identifier.
    pub fn dest(&self) -> (r: PeerId)
        requires
            self.wf(),
        ensures
            r == self.dest_peer(),
    {
        self.dest.duplicate()
    }

    /// The current TTL (byte 4).
    pub fn ttl(&self) -> (r: u8)
        requires
            self.wf(),
        ensures
            self.bytes().len() >= FIXED_HEADER_LEN,
            r == self.bytes()[4],
    {
        self.buf[4]
    }

    /// The maximal TTL (byte 3).
    pub fn max_ttl(&self) -> (r: u8)
        requires
            self.wf(),
        ensures
            self.bytes().len() >= FIXED_HEADER_LEN,
            r == self.bytes()[3],
    {
        self.buf[3]
    }

    /// Steps the current TTL down by one and says whether the packet may travel on; a TTL
    /// of at most one is left as it is and gives `false`.
    pub fn decrement_ttl(&mut self) -> (r: bool)
        requires
            old(self).wf(),
        ensures
            final(self).wf(),
            old(self).bytes().len() >= FIXED_HEADER_LEN,
            r == (old(self).bytes()[4] > 1),
            r ==> final(self).bytes() == old(self).bytes().update(4, (old(self).bytes()[4] - 1) as u8),
            !r ==> final(self).bytes() == old(self).bytes(),
            final(self).src_peer() == old(self).src_peer(),
            final(self).dest_peer() == old(self).dest_peer(),
            final(self).payload_start() == old(self).payload_start(),
    {
        let t = self.buf[4];
        if t <= 1 {
            return false;
        }
        proof {
            lemma_parse_ignores_ttl(self.buf@, (t - 1) as u8);
        }
        self.buf.set(4, t - 1);
        true
    }

    /// The bytes after the identifiers.
    pub fn payload(&self) -> (r: &[u8])
        requires
            self.wf(),
        ensures
            0 <= self.payload_start() <= self.bytes().len(),
            r@ == self.bytes().subrange(self.payload_start(), self.bytes().len() as int),
    {
        let s = self.buf.as_slice();
        &s[self.payload_offset..s.len()]
    }

    /// The whole packet.
    pub fn as_bytes(&self) -> (r: &[u8])
        requires
            self.wf(),
        ensures
            r@ == self.bytes(),
    {
        self.buf.as_slice()
    }

    /// Gives up the packet and returns its bytes.
    pub fn into_bytes(self) -> (r: Vec<u8>)
        requires
            self.wf(),
        ensures
            r@ == self.bytes(),
    {
        self.buf
    }
}

} // verus!
