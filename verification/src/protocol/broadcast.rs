//  Broadcast to the designated range (payload of a NetPacket whose protocol is RangeBroadcast):
//  +-+-+-+-+-+-+-+-+-+-+-+-+-+-+-+-+-+-+-+-+-+-+-+-+-+-+-+-+-+-+-+-+-+-+-+-+-+-+-+-+-+-+-+-+-+-+-+
//  | Range ID num(8)     |               broadcast ID...                                         |
//  +-+-+-+-+-+-+-+-+-+-+-+-+-+-+-+-+-+-+-+-+-+-+-+-+-+-+-+-+-+-+-+-+-+-+-+-+-+-+-+-+-+-+-+-+-+-+-+
//  |                                          payload                                            |
//  +-+-+-+-+-+-+-+-+-+-+-+-+-+-+-+-+-+-+-+-+-+-+-+-+-+-+-+-+-+-+-+-+-+-+-+-+-+-+-+-+-+-+-+-+-+-+-+
use vstd::prelude::*;
use crate::error::{Error, IoKind, io_error};
use crate::protocol::net_packet::{
    HEAD_LEN, NetPacket, header_data_length, header_max_ttl, header_protocol_code, header_ttl,
    lemma_store_len, ttl_byte,
};
use crate::protocol::node_id::{NodeID, ID_LEN};
use crate::protocol::protocol_type::{ProtocolType, protocol_code};

verus! {

broadcast use NodeID::lemma_bytes_len;

/// Length of the range header of the broadcast payload `b`: the count byte and the identifiers.
pub open spec fn range_head_len(b: Seq<u8>) -> int {
    1 + b[0] as int * 4
}

/// The identifiers of `list`, one after another.
pub open spec fn ids_bytes(list: Seq<NodeID>) -> Seq<u8> {
    Seq::new((4 * list.len()) as nat, |k: int| list[k / 4].bytes()[k % 4])
}

/// The header of a range-broadcast packet of total length `len`: protocol RangeBroadcast
/// with the high bit set, the length modulo 2^16, TTL one, and zeros.
pub open spec fn range_broadcast_header(len: usize) -> Seq<u8> {
    seq![0x8bu8, (len >> 8usize) as u8, len as u8, 0x11u8] + Seq::new(12, |i: int| 0u8)
}

/// The whole packet that `Builder::build_range_broadcast` makes of `list` and `payload`.
pub open spec fn range_broadcast_packet(list: Seq<NodeID>, payload: Seq<u8>) -> Seq<u8> {
    let len = (HEAD_LEN + 1 + 4 * list.len() + payload.len()) as usize;
    range_broadcast_header(len) + seq![list.len() as u8] + ids_bytes(list) + payload
}

/// A range-broadcast payload: a count, that many identifiers, then the data.
pub struct RangeBroadcastPacket {
    buffer: Vec<u8>,
}

impl View for RangeBroadcastPacket {
    type V = Seq<u8>;

    closed spec fn view(&self) -> Seq<u8> {
        self.buffer@
    }
}

impl RangeBroadcastPacket {
    /// Wraps `buffer` without looking at it.
    pub fn unchecked(buffer: Vec<u8>) -> (r: RangeBroadcastPacket)
        ensures
            r@ == buffer@,
    {
        RangeBroadcastPacket { buffer }
    }

    /// Wraps `buffer` if it is not empty and holds the whole range header.
    pub fn new(buffer: Vec<u8>) -> (r: Result<RangeBroadcastPacket, Error>)
        ensures
            buffer@.len() == 0 ==> (r matches Err(Error::Io(IoKind::InvalidData, Some(m))) && m@
                == "buf len == 0"@),
            buffer@.len() > 0 && buffer@.len() < range_head_len(buffer@) ==> (r matches Err(
                Error::Io(IoKind::InvalidData, Some(m)),
            ) && m@ == "buf len < head_len"@),
            buffer@.len() > 0 && buffer@.len() >= range_head_len(buffer@) ==> (r matches Ok(p)
                && p@ == buffer@),
    {
        let len = buffer.len();
        if len == 0 {
            return Err(io_error(IoKind::InvalidData, "buf len == 0"));
        }
        let packet = RangeBroadcastPacket::unchecked(buffer);
        let head_len = packet.head_len();
        if len < head_len {
            return Err(io_error(IoKind::InvalidData, "buf len < head_len"));
        }
        Ok(packet)
    }

    /// Length of the range header.
    pub fn head_len(&self) -> (r: usize)
        requires
            self@.len() >= 1,
        ensures
            r == range_head_len(self@),
    {
        1 + self.range_id_num() as usize * ID_LEN
    }

    /// Number of identifiers in the range.
    pub fn range_id_num(&self) -> (r: u8)
        requires
            self@.len() >= 1,
        ensures
            r == self@[0],
    {
        self.buffer[0]
    }

    /// The data after the range header.
    pub fn payload(&self) -> (r: &[u8])
        requires
            self@.len() >= 1,
            self@.len() >= range_head_len(self@),
        ensures
            r@ == self@.subrange(range_head_len(self@), self@.len() as int),
    {
        let h = self.head_len();
        let s = self.buffer.as_slice();
        &s[h..s.len()]
    }

    /// The whole payload.
    pub fn buffer(&self) -> (r: &[u8])
        ensures
            r@ == self@,
    {
        self.buffer.as_slice()
    }

    /// The identifiers of the range, in order.
    pub fn iter(&self) -> (r: Vec<NodeID>)
        requires
            self@.len() >= 1,
            self@.len() >= range_head_len(self@),
        ensures
            r@.len() == self@[0],
            forall|i: int|
                0 <= i < r@.len() ==> #[trigger] r@[i].bytes() == self@.subrange(
                    1 + 4 * i,
                    5 + 4 * i,
                ),
    {
        let n = self.range_id_num() as usize;
        let s = self.buffer.as_slice();
        let mut r: Vec<NodeID> = Vec::new();
        let mut index: usize = 0;
        while index < n
            invariant
                n == self@[0],
                s@ == self@,
                self@.len() >= range_head_len(self@),
                index <= n,
                r@.len() == index,
                forall|i: int|
                    0 <= i < index ==> #[trigger] r@[i].bytes() == self@.subrange(
                        1 + 4 * i,
                        5 + 4 * i,
                    ),
            decreases n - index,
        {
            let start = 1 + index * ID_LEN;
            let end = start + ID_LEN;
            let id = NodeID::try_from(&s[start..end]);
            match id {
                Ok(id) => r.push(id),
                Err(_) => {
                    assert(false);
                    return r;
                },
            }
            index = index + 1;
        }
        r
    }

    /// The data after the range header, for writing.
    pub fn payload_mut(&mut self) -> (r: &mut [u8])
        requires
            old(self)@.len() >= 1,
            old(self)@.len() >= range_head_len(old(self)@),
        ensures
            r@ == old(self)@.subrange(range_head_len(old(self)@), old(self)@.len() as int),
            final(self)@ == old(self)@.subrange(0, range_head_len(old(self)@)) + final(r)@,
    {
        let h = self.head_len();
        let s = self.buffer.as_mut_slice();
        let (_head, payload) = s.split_at_mut(h);
        payload
    }

    /// The whole payload, for writing.
    pub fn buffer_mut(&mut self) -> (r: &mut [u8])
        ensures
            r@ == old(self)@,
            final(self)@ == final(r)@,
    {
        self.buffer.as_mut_slice()
    }
}

/// Builds range-broadcast packets.
pub struct Builder;

impl Builder {
    /// The length of the range header and of the whole packet for `list` and a payload of
    /// `payload_len` bytes; the list must hold between 1 and 255 identifiers.
    pub fn calculate_len(list: &[NodeID], payload_len: usize) -> (r: Result<(usize, usize), Error>)
        requires
            payload_len <= usize::MAX - 1037,
        ensures
            list@.len() == 0 ==> (r matches Err(Error::Io(IoKind::InvalidData, Some(m))) && m@
                == "empty"@),
            list@.len() > 255 ==> (r matches Err(Error::Io(IoKind::InvalidData, Some(m))) && m@
                == "list len > 255"@),
            1 <= list@.len() <= 255 ==> r == Ok::<(usize, usize), Error>(
                ((1 + 4 * list@.len()) as usize, (HEAD_LEN + 1 + 4 * list@.len() + payload_len) as usize),
            ),
    {
        if list.len() == 0 {
            return Err(io_error(IoKind::InvalidData, "empty"));
        }
        if list.len() > 255 {
            return Err(io_error(IoKind::InvalidData, "list len > 255"));
        }
        let id_num = list.len();
        let broadcast_packet_head = 1 + ID_LEN * id_num;
        let len = HEAD_LEN + broadcast_packet_head + payload_len;
        Ok((broadcast_packet_head, len))
    }

    /// A RangeBroadcast packet with TTL one carrying `list` and `broadcast_payload`; the
    /// source and destination fields are left zero.
    pub fn build_range_broadcast(list: &[NodeID], broadcast_payload: &[u8]) -> (r: Result<
        NetPacket,
        Error,
    >)
        requires
            broadcast_payload@.len() <= usize::MAX - 1037,
        ensures
            list@.len() == 0 ==> (r matches Err(Error::Io(IoKind::InvalidData, Some(m))) && m@
                == "empty"@),
            list@.len() > 255 ==> (r matches Err(Error::Io(IoKind::InvalidData, Some(m))) && m@
                == "list len > 255"@),
            1 <= list@.len() <= 255 ==> (r matches Ok(p) && p@ == range_broadcast_packet(
                list@,
                broadcast_payload@,
            )),
    {
        let (head, len) = match Builder::calculate_len(list, broadcast_payload.len()) {
            Ok(v) => v,
            Err(e) => return Err(e),
        };
        let mut packet = NetPacket::unchecked(vec![0u8; len]);
        packet.set_high_flag();
        packet.set_protocol(ProtocolType::RangeBroadcast);
        packet.set_ttl(1);
        packet.reset_data_len();
        let mut buf = packet.into_buffer();
        let ghost header = buf@.subrange(0, 16);
        assert(header =~= range_broadcast_header(len)) by {
            assert(protocol_code(ProtocolType::RangeBroadcast) == 11);
            assert((0u8 | 0x80u8) | 0x80u8 == 0x80u8) by (bit_vector);
            assert(11u8 | 0x80u8 == 0x8bu8) by (bit_vector);
            assert(ttl_byte(1) == 0x11u8) by (bit_vector);
        }
        let n = list.len();
        buf.set(16, n as u8);
        let mut index: usize = 0;
        while index < n
            invariant
                n == list@.len(),
                1 <= n <= 255,
                head == 1 + 4 * n,
                len == HEAD_LEN + head + broadcast_payload@.len(),
                buf@.len() == len,
                index <= n,
                buf@.subrange(0, 16) == header,
                buf@[16] == n as u8,
                forall|k: int| 0 <= k < 4 * index ==> #[trigger] buf@[17 + k] == ids_bytes(list@)[k],
            decreases n - index,
        {
            let b = list[index].octets();
            let start = 17 + index * ID_LEN;
            buf.set(start, b[0]);
            buf.set(start + 1, b[1]);
            buf.set(start + 2, b[2]);
            buf.set(start + 3, b[3]);
            assert forall|k: int| 0 <= k < 4 * (index + 1) implies #[trigger] buf@[17 + k]
                == ids_bytes(list@)[k] by {
                if k >= 4 * index {
                    assert(k / 4 == index);
                }
            }
            assert(buf@.subrange(0, 16) =~= header);
            index = index + 1;
        }
        let plen = broadcast_payload.len();
        let mut j: usize = 0;
        while j < plen
            invariant
                plen == broadcast_payload@.len(),
                head == 1 + 4 * n,
                n == list@.len(),
                len == HEAD_LEN + head + plen,
                buf@.len() == len,
                j <= plen,
                buf@.subrange(0, 16) == header,
                buf@[16] == n as u8,
                forall|k: int| 0 <= k < 4 * n ==> #[trigger] buf@[17 + k] == ids_bytes(list@)[k],
                forall|k: int| 0 <= k < j ==> #[trigger] buf@[HEAD_LEN + head + k]
                    == broadcast_payload@[k],
            decreases plen - j,
        {
            buf.set(HEAD_LEN + head + j, broadcast_payload[j]);
            assert(buf@.subrange(0, 16) =~= header);
            j = j + 1;
        }
        let ghost expected = range_broadcast_packet(list@, broadcast_payload@);
        assert(buf@ =~= expected) by {
            assert forall|i: int| 0 <= i < len implies #[trigger] buf@[i] == expected[i] by {
                if i < 16 {
                    assert(buf@[i] == header[i]);
                } else if i == 16 {
                } else if i < 17 + 4 * n {
                    assert(buf@[17 + (i - 17)] == ids_bytes(list@)[i - 17]);
                } else {
                    assert(buf@[HEAD_LEN + head + (i - 17 - 4 * n)] == broadcast_payload@[i - 17
                        - 4 * n]);
                }
            }
        }
        Ok(NetPacket::unchecked(buf))
    }
}

/// A range-broadcast packet built from a list of 1 to 255 identifiers and a payload reads
/// back as a RangeBroadcast packet of TTL one whose range payload parses, lists the same
/// identifiers in the same order and carries the same data.
pub proof fn law_range_broadcast_round_trip(list: Seq<NodeID>, payload: Seq<u8>)
    requires
        1 <= list.len() <= 255,
        payload.len() <= usize::MAX - 1037,
    ensures
        ({
            let p = range_broadcast_packet(list, payload);
            let body = p.subrange(HEAD_LEN as int, p.len() as int);
            &&& p.len() == HEAD_LEN + 1 + 4 * list.len() + payload.len()
            &&& header_protocol_code(p) == protocol_code(ProtocolType::RangeBroadcast)
            &&& header_ttl(p) == 1 && header_max_ttl(p) == 1
            &&& header_data_length(p) == p.len() % 65536
            &&& body.len() > 0 && body.len() >= range_head_len(body)
            &&& body[0] == list.len()
            &&& forall|i: int|
                0 <= i < list.len() ==> #[trigger] body.subrange(1 + 4 * i, 5 + 4 * i)
                    == list[i].bytes()
            &&& body.subrange(range_head_len(body), body.len() as int) == payload
        }),
{
    let p = range_broadcast_packet(list, payload);
    let n = list.len();
    let len = (HEAD_LEN + 1 + 4 * n + payload.len()) as usize;
    let body = p.subrange(HEAD_LEN as int, p.len() as int);
    assert(body =~= seq![n as u8] + ids_bytes(list) + payload);
    assert(body[0] == n as u8);
    assert(0x8bu8 & 0x7fu8 == 11u8) by (bit_vector);
    assert(0x11u8 & 0xfu8 == 1u8 && 0x11u8 >> 4u8 == 1u8) by (bit_vector);
    lemma_store_len(len);
    assert forall|i: int| 0 <= i < n implies #[trigger] body.subrange(1 + 4 * i, 5 + 4 * i)
        == list[i].bytes() by {
        assert forall|k: int| 0 <= k < 4 implies body.subrange(1 + 4 * i, 5 + 4 * i)[k]
            == list[i].bytes()[k] by {
            assert((4 * i + k) / 4 == i && (4 * i + k) % 4 == k);
        }
        assert(body.subrange(1 + 4 * i, 5 + 4 * i) =~= list[i].bytes());
    }
    assert(body.subrange(range_head_len(body), body.len() as int) =~= payload);
}

} // verus!
