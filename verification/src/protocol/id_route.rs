//  Reply to a query for all identifiers reachable through the other party (payload of a
//  NetPacket whose protocol is IDRouteReply):
//  +-+-+-+-+-+-+-+-+-+-+-+-+-+-+-+-+-+-+-+-+-+-+-+-+-+-+-+-+-+-+-+-+-+-+-+-+-+-+-+-+-+-+-+-+-+-+-+
//  |   current id num(8) |            query id(16)               |      all id num(16)            |
//  +-+-+-+-+-+-+-+-+-+-+-+-+-+-+-+-+-+-+-+-+-+-+-+-+-+-+-+-+-+-+-+-+-+-+-+-+-+-+-+-+-+-+-+-+-+-+-+
//  |                          ID metric (4 bits per identifier)                                  |
//  +-+-+-+-+-+-+-+-+-+-+-+-+-+-+-+-+-+-+-+-+-+-+-+-+-+-+-+-+-+-+-+-+-+-+-+-+-+-+-+-+-+-+-+-+-+-+-+
//  |                                     Reachable ID 1, 2, ...                                  |
//  +-+-+-+-+-+-+-+-+-+-+-+-+-+-+-+-+-+-+-+-+-+-+-+-+-+-+-+-+-+-+-+-+-+-+-+-+-+-+-+-+-+-+-+-+-+-+-+
use vstd::prelude::*;
use crate::error::Error;
use crate::protocol::broadcast::ids_bytes;
use crate::protocol::net_packet::{
    HEAD_LEN, NetPacket, be16, header_data_length, header_max_ttl, header_protocol_code,
    header_ttl, lemma_store_len, ttl_byte, lemma_be16,
};
use crate::protocol::node_id::{NodeID, ID_LEN};
use crate::protocol::protocol_type::{ProtocolType, protocol_code};

verus! {

broadcast use NodeID::lemma_bytes_len;

/// Number of metric bytes for `n` identifiers: one half-byte each, rounded up.
pub open spec fn metric_len_of(n: int) -> int {
    n / 2 + n % 2
}

/// The metric of the `i`-th identifier of the reply payload `b`.
pub open spec fn reply_metric(b: Seq<u8>, i: int) -> u8 {
    let byte = b[5 + i / 2];
    if i % 2 == 0 {
        (byte >> 4u8) & 0xfu8
    } else {
        byte & 0xfu8
    }
}

/// Metric byte `j` written for the first `k` entries of `list`: the even entry shifted into the
/// high half, the odd entry or'ed into it.
pub open spec fn metric_byte_upto(list: Seq<(NodeID, u8)>, k: int, j: int) -> u8 {
    (if 2 * j < k {
        (list[2 * j].1 << 4u8) as u8
    } else {
        0u8
    }) | (if 2 * j + 1 < k {
        list[2 * j + 1].1
    } else {
        0u8
    })
}

/// All metric bytes of `list`.
pub open spec fn metric_bytes(list: Seq<(NodeID, u8)>) -> Seq<u8> {
    Seq::new(metric_len_of(list.len() as int) as nat, |j: int| metric_byte_upto(list, list.len() as int, j))
}

/// The identifiers of `list`.
pub open spec fn reply_ids(list: Seq<(NodeID, u8)>) -> Seq<NodeID> {
    list.map_values(|e: (NodeID, u8)| e.0)
}

/// The header of an IDRouteReply packet of total length `len`: protocol IDRouteReply with the
/// high bit set, the length modulo 2^16, TTL fifteen, and zeros.
pub open spec fn id_route_reply_header(len: usize) -> Seq<u8> {
    seq![0x8au8, (len >> 8usize) as u8, len as u8, 0xffu8] + Seq::new(12, |i: int| 0u8)
}

/// The whole packet that `Builder::build_reply` makes.
pub open spec fn id_route_reply_packet(list: Seq<(NodeID, u8)>, query_id: u16, all_id_num: u16) -> Seq<u8> {
    let n = list.len();
    let len = (HEAD_LEN + 5 + metric_len_of(n as int) + 4 * n) as usize;
    id_route_reply_header(len) + seq![
        n as u8,
        (query_id >> 8u16) as u8,
        query_id as u8,
        (all_id_num >> 8u16) as u8,
        all_id_num as u8,
    ] + metric_bytes(list) + ids_bytes(reply_ids(list))
}

/// Exact size check of a reply payload.
pub open spec fn reply_size(b: Seq<u8>) -> int {
    metric_len_of(b[0] as int) + b[0] as int * 4 + 5
}

/// An IDRouteReply payload.
pub struct IDRouteReplyPacket {
    buffer: Vec<u8>,
}

impl View for IDRouteReplyPacket {
    type V = Seq<u8>;

    closed spec fn view(&self) -> Seq<u8> {
        self.buffer@
    }
}

proof fn lemma_odd_bit(n: u8)
    ensures
        (n & 1u8 == 1u8) == (n % 2 == 1),
{
    assert((n & 1u8 == 1u8) == (n % 2 == 1)) by (bit_vector);
}

impl IDRouteReplyPacket {
    /// Wraps `buffer` without looking at it.
    pub fn unchecked(buffer: Vec<u8>) -> (r: IDRouteReplyPacket)
        ensures
            r@ == buffer@,
    {
        IDRouteReplyPacket { buffer }
    }

    /// Wraps `buffer` if its length is exactly what its identifier count calls for.
    pub fn new(buffer: Vec<u8>) -> (r: Result<IDRouteReplyPacket, Error>)
        ensures
            buffer@.len() < 5 ==> (r matches Err(Error::Overflow { cap, required }) && cap
                == buffer@.len() && required == 5),
            buffer@.len() >= 5 && reply_size(buffer@) != buffer@.len() ==> (r matches Err(
                Error::Overflow { cap, required },
            ) && cap == buffer@.len() && required == reply_size(buffer@)),
            buffer@.len() >= 5 && reply_size(buffer@) == buffer@.len() ==> (r matches Ok(p) && p@
                == buffer@),
    {
        let len = buffer.len();
        if len < 5 {
            return Err(Error::Overflow { cap: len, required: 5 });
        }
        let packet = IDRouteReplyPacket { buffer };
        let calculate_size = packet.metric_len() as usize + packet.current_id_num() as usize
            * ID_LEN + 5;
        if calculate_size != len {
            return Err(Error::Overflow { cap: len, required: calculate_size });
        }
        Ok(packet)
    }

    /// Number of identifiers in this reply.
    pub fn current_id_num(&self) -> (r: u8)
        requires
            self@.len() >= 1,
        ensures
            r == self@[0],
    {
        self.buffer[0]
    }

    /// The query this reply answers.
    pub fn query_id(&self) -> (r: u16)
        requires
            self@.len() >= 5,
        ensures
            r as int == be16(self@[1], self@[2]),
    {
        proof {
            lemma_be16(self@[1], self@[2]);
        }
        (self.buffer[1] as u16) << 8u16 | self.buffer[2] as u16
    }

    /// Number of identifiers reachable in all.
    pub fn all_id_num(&self) -> (r: u16)
        requires
            self@.len() >= 5,
        ensures
            r as int == be16(self@[3], self@[4]),
    {
        proof {
            lemma_be16(self@[3], self@[4]);
        }
        (self.buffer[3] as u16) << 8u16 | self.buffer[4] as u16
    }

    /// Number of metric bytes.
    pub fn metric_len(&self) -> (r: u8)
        requires
            self@.len() >= 1,
        ensures
            r == metric_len_of(self@[0] as int),
    {
        let id_num = self.current_id_num();
        proof {
            lemma_odd_bit(id_num);
        }
        id_num / 2 + if id_num & 0b1 == 0b1 {
            1
        } else {
            0
        }
    }

    /// The whole payload.
    pub fn buffer(&self) -> (r: &[u8])
        ensures
            r@ == self@,
    {
        self.buffer.as_slice()
    }

    /// The identifiers with their metrics, in order.
    pub fn iter(&self) -> (r: Vec<(NodeID, u8)>)
        requires
            self@.len() >= 5,
            self@.len() >= reply_size(self@),
        ensures
            r@.len() == self@[0],
            forall|i: int|
                0 <= i < r@.len() ==> (#[trigger] r@[i]).1 == reply_metric(self@, i)
                    && r@[i].0.bytes() == self@.subrange(
                    5 + metric_len_of(self@[0] as int) + 4 * i,
                    9 + metric_len_of(self@[0] as int) + 4 * i,
                ),
    {
        let n = self.current_id_num() as usize;
        let ml = self.metric_len() as usize;
        let s = self.buffer.as_slice();
        let mut r: Vec<(NodeID, u8)> = Vec::new();
        let mut index: usize = 0;
        while index < n
            invariant
                n == self@[0],
                ml == metric_len_of(n as int),
                s@ == self@,
                self@.len() >= reply_size(self@),
                index <= n,
                r@.len() == index,
                forall|i: int|
                    0 <= i < index ==> (#[trigger] r@[i]).1 == reply_metric(self@, i)
                        && r@[i].0.bytes() == self@.subrange(5 + ml + 4 * i, 9 + ml + 4 * i),
            decreases n - index,
        {
            let metric_index = 5 + index / 2;
            let byte = s[metric_index];
            proof {
                lemma_odd_bit(index as u8);
                assert(index % 2 == (index as u8) % 2);
            }
            let metric = if index & 0b1 == 0b0 {
                (byte >> 4u8) & 0xf
            } else {
                byte & 0xf
            };
            assert((index & 1usize == 0usize) == (index % 2 == 0)) by (bit_vector);
            let start = 5 + ml + index * ID_LEN;
            let end = start + ID_LEN;
            let id = NodeID::try_from(&s[start..end]);
            match id {
                Ok(id) => r.push((id, metric)),
                Err(_) => {
                    assert(false);
                    return r;
                },
            }
            index = index + 1;
        }
        r
    }
}

/// Builds IDRouteReply packets.
pub struct Builder;

impl Builder {
    /// Length of the whole reply packet for `list`; at most 255 entries fit.
    pub fn calculate_len(list: &[(NodeID, u8)]) -> (r: Result<usize, Error>)
        ensures
            list@.len() > 255 ==> r matches Err(Error::InvalidArgument(_)),
            list@.len() <= 255 ==> r == Ok::<usize, Error>(
                (HEAD_LEN + 5 + metric_len_of(list@.len() as int) + ID_LEN * list@.len()) as usize,
            ),
    {
        if list.len() > 255 {
            return Err(Error::InvalidArgument(String::new()));
        }
        let id_num = list.len();
        assert((id_num & 1usize == 1usize) == (id_num % 2 == 1)) by (bit_vector);
        let metric_len = id_num / 2 + if id_num & 0b1 == 0b1 {
            1
        } else {
            0
        };
        let len = HEAD_LEN + 5 + metric_len + ID_LEN * id_num;
        Ok(len)
    }

    /// An IDRouteReply packet with TTL fifteen holding `list`, `query_id` and `all_id_num`; the
    /// source and destination fields are left zero.
    pub fn build_reply(list: &[(NodeID, u8)], query_id: u16, all_id_num: u16) -> (r: Result<
        NetPacket,
        Error,
    >)
        ensures
            list@.len() > 255 ==> r matches Err(Error::InvalidArgument(_)),
            list@.len() <= 255 ==> (r matches Ok(p) && p@ == id_route_reply_packet(
                list@,
                query_id,
                all_id_num,
            )),
    {
        let len = Builder::calculate_len(list)?;
        let mut packet = NetPacket::unchecked(vec![0u8; len]);
        packet.set_protocol(ProtocolType::IDRouteReply);
        packet.set_ttl(15);
        packet.reset_data_len();
        let mut buf = packet.into_buffer();
        let ghost header = buf@.subrange(0, 16);
        assert(header =~= id_route_reply_header(len)) by {
            assert(protocol_code(ProtocolType::IDRouteReply) == 10);
            assert(10u8 | 0x80u8 == 0x8au8) by (bit_vector);
            assert(ttl_byte(15) == 0xffu8) by (bit_vector);
        }
        let id_num = list.len();
        assert((id_num & 1usize == 1usize) == (id_num % 2 == 1)) by (bit_vector);
        let metric_len = id_num / 2 + if id_num & 0b1 == 0b1 {
            1
        } else {
            0
        };
        buf.set(16, id_num as u8);
        buf.set(17, #[verifier::truncate] ((query_id >> 8u16) as u8));
        buf.set(18, #[verifier::truncate] (query_id as u8));
        buf.set(19, #[verifier::truncate] ((all_id_num >> 8u16) as u8));
        buf.set(20, #[verifier::truncate] (all_id_num as u8));
        let ghost fixed = buf@.subrange(0, 21);
        assert(0u8 | 0u8 == 0u8) by (bit_vector);
        assert forall|i: int| 21 <= i < len implies #[trigger] buf@[i] == 0u8 by {}
        let mut index: usize = 0;
        while index < id_num
            invariant
                id_num == list@.len(),
                id_num <= 255,
                metric_len == metric_len_of(id_num as int),
                len == HEAD_LEN + 5 + metric_len + 4 * id_num,
                buf@.len() == len,
                index <= id_num,
                buf@.subrange(0, 21) == fixed,
                forall|j: int|
                    0 <= j < metric_len ==> #[trigger] buf@[21 + j] == metric_byte_upto(
                        list@,
                        index as int,
                        j,
                    ),
                forall|k: int|
                    0 <= k < 4 * index ==> #[trigger] buf@[21 + metric_len + k] == ids_bytes(
                        reply_ids(list@),
                    )[k],
                forall|k: int|
                    4 * index <= k < 4 * id_num ==> #[trigger] buf@[21 + metric_len + k] == 0u8,
            decreases id_num - index,
        {
            let (node_id, metric) = list[index];
            let metric_index = 21 + index / 2;
            assert((index & 1usize == 0usize) == (index % 2 == 0)) by (bit_vector);
            let offset: u8 = if index & 0b1 == 0b0 {
                4
            } else {
                0
            };
            let old_byte = buf[metric_index];
            let ghost before = buf@;
            buf.set(metric_index, old_byte | (metric << offset));
            proof {
                let j = (index / 2) as int;
                assert(0u8 | 0u8 == 0u8) by (bit_vector);
                if index % 2 == 0 {
                    assert(before[21 + j] == metric_byte_upto(list@, index as int, j));
                    assert(old_byte == 0u8);
                    assert(0u8 | (metric << 4u8) == (metric << 4u8) as u8) by (bit_vector);
                    assert((metric << 4u8) as u8 | 0u8 == (metric << 4u8) as u8) by (bit_vector);
                } else {
                    assert(metric << 0u8 == metric) by (bit_vector);
                    let hi = (list@[2 * j].1 << 4u8) as u8;
                    assert(hi | 0u8 == hi) by (bit_vector);
                }
                assert forall|j2: int|
                    0 <= j2 < metric_len implies #[trigger] buf@[21 + j2] == metric_byte_upto(
                    list@,
                    index + 1,
                    j2,
                ) by {
                    if j2 != j {
                        assert(buf@[21 + j2] == before[21 + j2]);
                    }
                }
            }
            let b = node_id.octets();
            let start = 21 + metric_len + index * ID_LEN;
            buf.set(start, b[0]);
            buf.set(start + 1, b[1]);
            buf.set(start + 2, b[2]);
            buf.set(start + 3, b[3]);
            proof {
                assert forall|k: int| 0 <= k < 4 * (index + 1) implies #[trigger] buf@[21
                    + metric_len + k] == ids_bytes(reply_ids(list@))[k] by {
                    if k >= 4 * index {
                        assert(k / 4 == index);
                    }
                }
                assert forall|j2: int|
                    0 <= j2 < metric_len implies #[trigger] buf@[21 + j2] == metric_byte_upto(
                    list@,
                    index + 1,
                    j2,
                ) by {
                    assert(21 + j2 < start);
                }
            }
            assert(buf@.subrange(0, 21) =~= fixed);
            index = index + 1;
        }
        let ghost expected = id_route_reply_packet(list@, query_id, all_id_num);
        assert(buf@ =~= expected) by {
            assert forall|i: int| 0 <= i < len implies #[trigger] buf@[i] == expected[i] by {
                if i < 21 {
                    assert(buf@[i] == fixed[i]);
                    if i < 16 {
                        assert(fixed[i] == header[i]);
                    }
                } else if i < 21 + metric_len {
                    assert(buf@[21 + (i - 21)] == metric_byte_upto(list@, id_num as int, i - 21));
                } else {
                    assert(buf@[21 + metric_len + (i - 21 - metric_len)] == ids_bytes(
                        reply_ids(list@),
                    )[i - 21 - metric_len]);
                }
            }
        }
        Ok(NetPacket::unchecked(buf))
    }
}

proof fn lemma_metric_pair(a: u8, b: u8)
    requires
        a < 16,
        b < 16,
    ensures
        ((((a << 4u8) as u8) | b) >> 4u8) & 0xfu8 == a,
        (((a << 4u8) as u8) | b) & 0xfu8 == b,
        (((a << 4u8) as u8) | 0u8) >> 4u8 & 0xfu8 == a,
{
    assert(((((a << 4u8) as u8) | b) >> 4u8) & 0xfu8 == a && (((a << 4u8) as u8) | b) & 0xfu8
        == b && (((a << 4u8) as u8) | 0u8) >> 4u8 & 0xfu8 == a) by (bit_vector)
        requires
            a < 16,
            b < 16,
    ;
}

/// A reply built from at most 255 entries whose metrics are below sixteen reads back as an
/// IDRouteReply packet of TTL fifteen whose payload has exactly the size its count calls
/// for, carries the same query id and total, and lists the same identifiers with the same
/// metrics in the same order.
pub proof fn law_id_route_reply_round_trip(list: Seq<(NodeID, u8)>, query_id: u16, all_id_num: u16)
    requires
        list.len() <= 255,
        forall|i: int| 0 <= i < list.len() ==> (#[trigger] list[i]).1 < 16,
    ensures
        ({
            let p = id_route_reply_packet(list, query_id, all_id_num);
            let body = p.subrange(HEAD_LEN as int, p.len() as int);
            let ml = metric_len_of(list.len() as int);
            &&& header_protocol_code(p) == protocol_code(ProtocolType::IDRouteReply)
            &&& header_ttl(p) == 15 && header_max_ttl(p) == 15
            &&& header_data_length(p) == p.len() % 65536
            &&& body.len() >= 5 && body.len() == reply_size(body)
            &&& body[0] == list.len()
            &&& be16(body[1], body[2]) == query_id
            &&& be16(body[3], body[4]) == all_id_num
            &&& forall|i: int|
                0 <= i < list.len() ==> reply_metric(body, i) == (#[trigger] list[i]).1
                    && body.subrange(5 + ml + 4 * i, 9 + ml + 4 * i) == list[i].0.bytes()
        }),
{
    let p = id_route_reply_packet(list, query_id, all_id_num);
    let n = list.len();
    let ml = metric_len_of(n as int);
    let len = (HEAD_LEN + 5 + ml + 4 * n) as usize;
    let body = p.subrange(HEAD_LEN as int, p.len() as int);
    let ids = reply_ids(list);
    assert(body =~= seq![
        n as u8,
        (query_id >> 8u16) as u8,
        query_id as u8,
        (all_id_num >> 8u16) as u8,
        all_id_num as u8,
    ] + metric_bytes(list) + ids_bytes(ids));
    assert(0x8au8 & 0x7fu8 == 10u8) by (bit_vector);
    assert(0xffu8 & 0xfu8 == 15u8 && 0xffu8 >> 4u8 == 15u8) by (bit_vector);
    lemma_store_len(len);
    lemma_be16((query_id >> 8u16) as u8, query_id as u8);
    lemma_be16((all_id_num >> 8u16) as u8, all_id_num as u8);
    assert(((((query_id >> 8u16) as u8) as u16) << 8u16 | ((query_id as u8) as u16)) == query_id)
        by (bit_vector);
    assert(((((all_id_num >> 8u16) as u8) as u16) << 8u16 | ((all_id_num as u8) as u16))
        == all_id_num) by (bit_vector);
    assert forall|i: int| 0 <= i < n implies reply_metric(body, i) == (#[trigger] list[i]).1
        && body.subrange(5 + ml + 4 * i, 9 + ml + 4 * i) == list[i].0.bytes() by {
        let j = i / 2;
        assert(body[5 + j] == metric_byte_upto(list, n as int, j));
        if i % 2 == 0 {
            if 2 * j + 1 < n {
                lemma_metric_pair(list[2 * j].1, list[2 * j + 1].1);
            } else {
                lemma_metric_pair(list[2 * j].1, 0u8);
            }
        } else {
            lemma_metric_pair(list[2 * j].1, list[2 * j + 1].1);
        }
        assert forall|k: int| 0 <= k < 4 implies body.subrange(5 + ml + 4 * i, 9 + ml + 4 * i)[k]
            == list[i].0.bytes()[k] by {
            assert((4 * i + k) / 4 == i && (4 * i + k) % 4 == k);
            assert(ids[i] == list[i].0);
        }
        assert(body.subrange(5 + ml + 4 * i, 9 + ml + 4 * i) =~= list[i].0.bytes());
    }
}

} // verus!
