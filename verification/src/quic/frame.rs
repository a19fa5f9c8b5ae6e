use vstd::prelude::*;
use crate::error::IoKind;
use crate::protocol::node_id::{be_bytes_u32, lemma_u32_be_round_trip, u32_be_bytes};
use crate::quic::pb;
use crate::quic::peer_id::PeerId;

verus! {

/// Header sent at the start of a user stream: who opened it and for whom.
#[derive(Clone, Debug)]
pub struct StreamHeader {
    pub src: PeerId,
    pub dest: PeerId,
}

/// Metadata frame at the start of a QUIC stream.
#[derive(Clone, Debug)]
pub enum StreamFrame {
    User(StreamHeader),
}

/// A datagram carried over QUIC.
#[derive(Clone, Debug)]
pub enum DatagramFrame {
    User { id: u64, src: PeerId, dest: PeerId, payload: Vec<u8> },
}

/// Why a frame could not be read.
#[derive(Clone, Debug, PartialEq, Eq)]
pub enum FrameError {
    /// The bytes are not a protobuf message of the frame's type.
    Decode,
    /// The message lacks the named field.
    MissingField(String),
    /// The named field holds a value above 65535 where a 16-bit value belongs.
    ExceedsU16 { field: String, value: u32 },
    /// The named field holds a value above 255 where an 8-bit value belongs.
    ExceedsU8 { field: String, value: u32 },
}

impl FrameError {
    /// Every failure to read a frame is invalid data.
    pub fn kind(&self) -> (r: IoKind)
        ensures
            r == IoKind::InvalidData,
    {
        IoKind::InvalidData
    }
}

/// The header as protobuf message.
fn stream_header_to_pb(header: &StreamHeader) -> (r: pb::StreamHeader)
    ensures
        r@ == (header.src.0@, header.dest.0@),
{
    pb::StreamHeader { src: header.src.as_str().to_owned(), dest: header.dest.as_str().to_owned() }
}

/// The header that a protobuf message holds.
fn stream_header_from_pb(header: pb::StreamHeader) -> (r: StreamHeader)
    ensures
        r.src.0@ == header.src@,
        r.dest.0@ == header.dest@,
{
    StreamHeader { src: PeerId::from(header.src), dest: PeerId::from(header.dest) }
}

/// The value of a message field that must be present; its absence is reported with the
/// field's name.
pub fn required<T>(value: Option<T>, field: &str) -> (r: Result<T, FrameError>)
    ensures
        value matches Some(v) ==> r == Ok::<T, FrameError>(v),
        value is None ==> (r matches Err(FrameError::MissingField(f)) && f@ == field@),
{
    match value {
        Some(v) => Ok(v),
        None => Err(FrameError::MissingField(field.to_owned())),
    }
}

/// The protobuf encoding of a stream frame.
pub fn encode_stream_frame(frame: &StreamFrame) -> (r: Vec<u8>)
    ensures
        frame matches StreamFrame::User(h) && r@ == pb::stream_frame_bytes(
            Some((h.src.0@, h.dest.0@)),
        ),
{
    let kind = match frame {
        StreamFrame::User(header) => pb::StreamFrameKind::User(stream_header_to_pb(header)),
    };
    let msg = pb::StreamFrame { frame: Some(kind) };
    msg.encode_to_vec()
}

/// Reads a stream frame from its protobuf encoding.
pub fn decode_stream_frame(payload: &[u8]) -> (r: Result<StreamFrame, FrameError>)
    ensures
        match pb::decode_stream_frame_bytes(payload@) {
            None => r == Err::<StreamFrame, FrameError>(FrameError::Decode),
            Some(None) => r matches Err(FrameError::MissingField(f)) && f@
                == "stream_frame.frame"@,
            Some(Some(h)) => r matches Ok(StreamFrame::User(x)) && x.src.0@ == h.0 && x.dest.0@
                == h.1,
        },
{
    let frame = match pb::StreamFrame::decode(payload) {
        Ok(f) => f,
        Err(_) => return Err(FrameError::Decode),
    };
    match required(frame.frame, "stream_frame.frame") {
        Ok(pb::StreamFrameKind::User(header)) => Ok(StreamFrame::User(stream_header_from_pb(header))),
        Err(e) => Err(e),
    }
}

/// The protobuf encoding of a datagram frame.
pub fn encode_datagram_frame(frame: &DatagramFrame) -> (r: Vec<u8>)
    ensures
        frame matches DatagramFrame::User { id, src, dest, payload } && r@
            == pb::datagram_frame_bytes(Some((*id, src.0@, dest.0@, payload@))),
{
    let kind = match frame {
        DatagramFrame::User { id, src, dest, payload } => pb::DatagramFrameKind::User(
            pb::UserDatagram {
                id: *id,
                src: src.as_str().to_owned(),
                dest: dest.as_str().to_owned(),
                payload: payload.clone(),
            },
        ),
    };
    let msg = pb::DatagramFrame { frame: Some(kind) };
    msg.encode_to_vec()
}

/// Reads a datagram frame from its protobuf encoding.
pub fn decode_datagram_frame(payload: &[u8]) -> (r: Result<DatagramFrame, FrameError>)
    ensures
        match pb::decode_datagram_frame_bytes(payload@) {
            None => r == Err::<DatagramFrame, FrameError>(FrameError::Decode),
            Some(None) => r matches Err(FrameError::MissingField(f)) && f@
                == "datagram_frame.frame"@,
            Some(Some(u)) => r matches Ok(DatagramFrame::User { id, src, dest, payload }) && id
                == u.0 && src.0@ == u.1 && dest.0@ == u.2 && payload@ == u.3,
        },
{
    let frame = match pb::DatagramFrame::decode(payload) {
        Ok(f) => f,
        Err(_) => return Err(FrameError::Decode),
    };
    match required(frame.frame, "datagram_frame.frame") {
        Ok(pb::DatagramFrameKind::User(user)) => Ok(
            DatagramFrame::User {
                id: user.id,
                src: PeerId::from(user.src),
                dest: PeerId::from(user.dest),
                payload: user.payload,
            },
        ),
        Err(e) => Err(e),
    }
}

/// `value` as a 16-bit number; a larger value is refused, naming `field`.
pub fn checked_u16(field: &str, value: u32) -> (r: Result<u16, FrameError>)
    ensures
        value <= 0xffff ==> r == Ok::<u16, FrameError>(value as u16),
        value > 0xffff ==> (r matches Err(FrameError::ExceedsU16 { field: f, value: v }) && f@
            == field@ && v == value),
{
    if value <= 0xffff {
        Ok(value as u16)
    } else {
        Err(FrameError::ExceedsU16 { field: field.to_owned(), value })
    }
}

/// `value` as an 8-bit number; a larger value is refused, naming `field`.
pub fn checked_u8(field: &str, value: u32) -> (r: Result<u8, FrameError>)
    ensures
        value <= 0xff ==> r == Ok::<u8, FrameError>(value as u8),
        value > 0xff ==> (r matches Err(FrameError::ExceedsU8 { field: f, value: v }) && f@
            == field@ && v == value),
{
    if value <= 0xff {
        Ok(value as u8)
    } else {
        Err(FrameError::ExceedsU8 { field: field.to_owned(), value })
    }
}

/// Every value of `values` as a 16-bit number, in order; the first value above 65535 is
/// refused, naming `field`.
pub fn checked_u16_vec(field: &str, values: &[u32]) -> (r: Result<Vec<u16>, FrameError>)
    ensures
        (forall|i: int| 0 <= i < values@.len() ==> values@[i] <= 0xffff) ==> (r matches Ok(v)
            && v@ == values@.map_values(|x: u32| x as u16)),
        (exists|i: int| 0 <= i < values@.len() && values@[i] > 0xffff) ==> (r matches Err(
            FrameError::ExceedsU16 { field: f, value: x },
        ) && f@ == field@ && exists|i: int|
            0 <= i < values@.len() && values@[i] == x && x > 0xffff && forall|j: int|
                0 <= j < i ==> values@[j] <= 0xffff),
{
    let mut out: Vec<u16> = Vec::new();
    let mut i: usize = 0;
    while i < values.len()
        invariant
            i <= values@.len(),
            forall|j: int| 0 <= j < i ==> values@[j] <= 0xffff,
            out@ == values@.take(i as int).map_values(|x: u32| x as u16),
        decreases values@.len() - i,
    {
        match checked_u16(field, values[i]) {
            Ok(x) => {
                out.push(x);
            },
            Err(e) => {
                return Err(e);
            },
        }
        i = i + 1;
        assert(out@ =~= values@.take(i as int).map_values(|x: u32| x as u16));
    }
    assert(values@.take(i as int) =~= values@);
    Ok(out)
}

/// The largest stream frame, 64 KiB.
pub const MAX_STREAM_FRAME_LEN: usize = 65536;

/// The length prefix that goes before a stream frame of `len` bytes: the length as four
/// big-endian bytes. A frame over 64 KiB is refused as invalid input.
pub fn frame_prefix(len: usize) -> (r: Result<[u8; 4], IoKind>)
    ensures
        len > MAX_STREAM_FRAME_LEN ==> r == Err::<[u8; 4], IoKind>(IoKind::InvalidInput),
        len <= MAX_STREAM_FRAME_LEN ==> (r matches Ok(b) && b@ == u32_be_bytes(len as u32)),
{
    if len > MAX_STREAM_FRAME_LEN {
        return Err(IoKind::InvalidInput);
    }
    let v = len as u32;
    let b = [(v >> 24u32) as u8, (v >> 16u32) as u8, (v >> 8u32) as u8, #[verifier::truncate] (v as u8)];
    assert(b@ =~= u32_be_bytes(v));
    Ok(b)
}

/// The length of the stream frame announced by `prefix`; more than 64 KiB is refused as
/// invalid data.
pub fn frame_len(prefix: [u8; 4]) -> (r: Result<usize, IoKind>)
    ensures
        be_bytes_u32(prefix@) > MAX_STREAM_FRAME_LEN ==> r == Err::<usize, IoKind>(IoKind::InvalidData),
        be_bytes_u32(prefix@) <= MAX_STREAM_FRAME_LEN ==> r == Ok::<usize, IoKind>(
            be_bytes_u32(prefix@) as usize,
        ),
{
    let n: u32 = (prefix[0] as u32) << 24u32 | (prefix[1] as u32) << 16u32 | (prefix[2] as u32)
        << 8u32 | (prefix[3] as u32);
    assert(n == be_bytes_u32(prefix@));
    if n > 65536 {
        Err(IoKind::InvalidData)
    } else {
        Ok(n as usize)
    }
}

/// A frame length that may be written reads back from its prefix.
pub proof fn law_frame_prefix_round_trip(len: usize)
    requires
        len <= MAX_STREAM_FRAME_LEN,
    ensures
        be_bytes_u32(u32_be_bytes(len as u32)) == len,
{
    lemma_u32_be_round_trip(len as u32);
}

} // verus!
