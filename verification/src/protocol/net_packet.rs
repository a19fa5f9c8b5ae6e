//   0                                            15                                              31
//  +-+-+-+-+-+-+-+-+-+-+-+-+-+-+-+-+-+-+-+-+-+-+-+-+-+-+-+-+-+-+-+-+-+-+-+-+-+-+-+-+-+-+-+-+-+-+-+
//  |1|   protocol(7)       |                 data len(16)               |max ttl(4) |curr ttl(4) |
//  +-+-+-+-+-+-+-+-+-+-+-+-+-+-+-+-+-+-+-+-+-+-+-+-+-+-+-+-+-+-+-+-+-+-+-+-+-+-+-+-+-+-+-+-+-+-+-+
//  |                                         reserve(32)                                         |
//  +-+-+-+-+-+-+-+-+-+-+-+-+-+-+-+-+-+-+-+-+-+-+-+-+-+-+-+-+-+-+-+-+-+-+-+-+-+-+-+-+-+-+-+-+-+-+-+
//  |                                         src ID(32)                                          |
//  +-+-+-+-+-+-+-+-+-+-+-+-+-+-+-+-+-+-+-+-+-+-+-+-+-+-+-+-+-+-+-+-+-+-+-+-+-+-+-+-+-+-+-+-+-+-+-+
//  |                                         dest ID(32)                                         |
//  +-+-+-+-+-+-+-+-+-+-+-+-+-+-+-+-+-+-+-+-+-+-+-+-+-+-+-+-+-+-+-+-+-+-+-+-+-+-+-+-+-+-+-+-+-+-+-+
//  |                                         payload(n)                                          |
//  +-+-+-+-+-+-+-+-+-+-+-+-+-+-+-+-+-+-+-+-+-+-+-+-+-+-+-+-+-+-+-+-+-+-+-+-+-+-+-+-+-+-+-+-+-+-+-+
use vstd::prelude::*;
use crate::error::{Error, IoKind};
use crate::protocol::node_id::NodeID;
use crate::protocol::protocol_type::{
    ProtocolType, invalid_protocol_message, protocol_code, protocol_of_code,
};

verus! {

/// Length in bytes of the fixed packet header.
pub const HEAD_LEN: usize = 16;

/// The 16-bit value stored big-endian in `hi`, `lo`.
pub open spec fn be16(hi: u8, lo: u8) -> int {
    hi as int * 256 + lo as int
}

/// The protocol number in the header `b`: the low seven bits of the first byte.
pub open spec fn header_protocol_code(b: Seq<u8>) -> u8 {
    b[0] & 0x7fu8
}

/// The data length stored in bytes 1 and 2 of the header `b`.
pub open spec fn header_data_length(b: Seq<u8>) -> int {
    be16(b[1], b[2])
}

/// The maximal TTL: the high four bits of byte 3.
pub open spec fn header_max_ttl(b: Seq<u8>) -> u8 {
    b[3] >> 4u8
}

/// The current TTL: the low four bits of byte 3.
pub open spec fn header_ttl(b: Seq<u8>) -> u8 {
    b[3] & 0xfu8
}

/// The byte that holds `ttl` both as maximal and as current TTL.
pub open spec fn ttl_byte(ttl: u8) -> u8 {
    ((ttl << 4u8) | (ttl & 0xfu8)) as u8
}

/// A packet of the overlay: a 16-byte header followed by the payload.
#[derive(Debug)]
pub struct NetPacket {
    buffer: Vec<u8>,
}

impl View for NetPacket {
    type V = Seq<u8>;

    closed spec fn view(&self) -> Seq<u8> {
        self.buffer@
    }
}

/// Big-endian byte pair facts used by the header accessors.
pub proof fn lemma_be16(hi: u8, lo: u8)
    ensures
        ((hi as u16) << 8u16 | lo as u16) as int == be16(hi, lo),
{
    assert(((hi as u16) << 8u16 | lo as u16) == (hi as u16) * 256 + (lo as u16)) by (bit_vector);
}

/// Storing a length in two bytes keeps its low sixteen bits.
pub proof fn lemma_store_len(len: usize)
    ensures
        be16((len >> 8usize) as u8, len as u8) == len % 65536,
{
    assert(((len >> 8usize) as u8) as int * 256 + (len as u8) as int == len % 65536) by (bit_vector);
}

/// A TTL below sixteen set with `set_ttl` reads back as both maximal and current TTL.
pub proof fn lemma_ttl_byte(ttl: u8)
    requires
        ttl < 16,
    ensures
        ttl_byte(ttl) >> 4u8 == ttl,
        ttl_byte(ttl) & 0xfu8 == ttl,
{
    assert(((((ttl << 4u8) | (ttl & 0xfu8)) as u8) >> 4u8 == ttl) && ((((ttl << 4u8) | (ttl
        & 0xfu8)) as u8) & 0xfu8 == ttl)) by (bit_vector)
        requires
            ttl < 16,
    ;
}

impl NetPacket {
    /// Wraps `buffer` without looking at it.
    pub fn unchecked(buffer: Vec<u8>) -> (r: NetPacket)
        ensures
            r@ == buffer@,
    {
        NetPacket { buffer }
    }

    /// Wraps `buffer` if it holds a whole header and its length field equals its length.
    pub fn new(buffer: Vec<u8>) -> (r: Result<NetPacket, Error>)
        ensures
            buffer@.len() < HEAD_LEN ==> (r matches Err(Error::Overflow { cap, required }) && cap
                == buffer@.len() && required == HEAD_LEN),
            buffer@.len() >= HEAD_LEN && header_data_length(buffer@) != buffer@.len() ==> r matches Err(
                Error::InvalidArgument(_),
            ),
            buffer@.len() >= HEAD_LEN && header_data_length(buffer@) == buffer@.len() ==> (r matches Ok(
                p,
            ) && p@ == buffer@),
    {
        let len = buffer.len();
        if len < HEAD_LEN {
            return Err(Error::Overflow { cap: len, required: 16 });
        }
        let packet = NetPacket::unchecked(buffer);
        if packet.data_length() as usize != len {
            return Err(Error::InvalidArgument("packet len invalid".to_string()));
        }
        Ok(packet)
    }

    /// The protocol of the packet, from the low seven bits of its first byte.
    pub fn protocol(&self) -> (r: Result<ProtocolType, Error>)
        requires
            self@.len() >= 1,
        ensures
            header_protocol_code(self@) <= 13 ==> r == Ok::<ProtocolType, Error>(
                protocol_of_code(header_protocol_code(self@)).unwrap(),
            ),
            header_protocol_code(self@) > 13 ==> (r matches Err(Error::Io(IoKind::InvalidData, Some(m)))
                && m@ == invalid_protocol_message(header_protocol_code(self@))),
    {
        ProtocolType::try_from(self.buffer[0] & 0x7f)
    }

    /// The length field of the header.
    pub fn data_length(&self) -> (r: u16)
        requires
            self@.len() >= 3,
        ensures
            r as int == header_data_length(self@),
    {
        proof {
            lemma_be16(self@[1], self@[2]);
        }
        (self.buffer[1] as u16) << 8u16 | self.buffer[2] as u16
    }

    /// The maximal TTL (high four bits of byte 3).
    pub fn max_ttl(&self) -> (r: u8)
        requires
            self@.len() >= 4,
        ensures
            r == header_max_ttl(self@),
    {
        self.buffer[3] >> 4u8
    }

    /// The current TTL (low four bits of byte 3).
    pub fn ttl(&self) -> (r: u8)
        requires
            self@.len() >= 4,
        ensures
            r == header_ttl(self@),
    {
        self.buffer[3] & 0xf
    }

    /// Bytes 8 to 12: the source identifier.
    pub fn src_id(&self) -> (r: &[u8])
        requires
            self@.len() >= 12,
        ensures
            r@ == self@.subrange(8, 12),
    {
        let s = self.buffer.as_slice();
        &s[8..12]
    }

    /// Bytes 12 to 16: the destination identifier.
    pub fn dest_id(&self) -> (r: &[u8])
        requires
            self@.len() >= HEAD_LEN,
        ensures
            r@ == self@.subrange(12, 16),
    {
        let s = self.buffer.as_slice();
        &s[12..16]
    }

    /// The bytes after the header.
    pub fn payload(&self) -> (r: &[u8])
        requires
            self@.len() >= HEAD_LEN,
        ensures
            r@ == self@.subrange(16, self@.len() as int),
    {
        let s = self.buffer.as_slice();
        &s[16..s.len()]
    }

    /// The whole packet.
    pub fn buffer(&self) -> (r: &[u8])
        ensures
            r@ == self@,
    {
        self.buffer.as_slice()
    }

    /// Gives up the packet and returns its bytes.
    pub fn into_buffer(self) -> (r: Vec<u8>)
        ensures
            r@ == self@,
    {
        self.buffer
    }

    /// Sets the high bit of the first byte.
    pub fn set_high_flag(&mut self)
        requires
            old(self)@.len() >= 1,
        ensures
            final(self)@ == old(self)@.update(0, old(self)@[0] | 0x80u8),
    {
        let b = self.buffer[0] | 0x80;
        self.buffer.set(0, b);
    }

    /// Steps the current TTL down and says whether the packet may travel on: a current TTL
    /// of at most one is left as it is and gives `false`. The new byte 3 is the old one
    /// masked with `0xF0 | (ttl - 1)`.
    pub fn incr_ttl(&mut self) -> (r: bool)
        requires
            old(self)@.len() >= 4,
        ensures
            r == (header_ttl(old(self)@) > 1),
            r ==> final(self)@ == old(self)@.update(
                3,
                old(self)@[3] & (0xf0u8 | ((header_ttl(old(self)@) - 1) as u8)),
            ),
            !r ==> final(self)@ == old(self)@,
    {
        let ttl = self.ttl();
        if ttl <= 1 {
            return false;
        }
        let b = self.buffer[3] & (0xf0 | (ttl - 1));
        self.buffer.set(3, b);
        true
    }

    /// Sets both the maximal and the current TTL to `ttl`.
    pub fn set_ttl(&mut self, ttl: u8)
        requires
            old(self)@.len() >= 4,
        ensures
            final(self)@ == old(self)@.update(3, ttl_byte(ttl)),
    {
        let b: u8 = (ttl << 4u8) | (ttl & 0xf);
        self.buffer.set(3, b);
    }

    /// Writes the protocol number into the first byte and sets its high bit.
    pub fn set_protocol(&mut self, protocol_type: ProtocolType)
        requires
            old(self)@.len() >= 1,
        ensures
            final(self)@ == old(self)@.update(0, protocol_code(protocol_type) | 0x80u8),
    {
        self.buffer.set(0, protocol_type.to_u8());
        self.set_high_flag();
    }

    /// Stores the packet's length, modulo 2^16, in the length field.
    pub fn reset_data_len(&mut self)
        requires
            old(self)@.len() >= 3,
        ensures
            final(self)@ == old(self)@.update(1, ((old(self)@.len() as usize) >> 8usize) as u8).update(
                2,
                (old(self)@.len() as usize) as u8,
            ),
            header_data_length(final(self)@) == old(self)@.len() % 65536,
    {
        let len = self.buffer.len();
        self.buffer.set(1, (len >> 8usize) as u8);
        self.buffer.set(2, len as u8);
        proof {
            lemma_store_len(len);
        }
    }

    /// Writes `id` into bytes 8 to 12.
    pub fn set_src_id(&mut self, id: &NodeID)
        requires
            old(self)@.len() >= 12,
        ensures
            final(self)@ == old(self)@.subrange(0, 8) + id.bytes() + old(self)@.subrange(
                12,
                old(self)@.len() as int,
            ),
    {
        self.write_id(8, id);
    }

    /// Writes `id` into bytes 12 to 16.
    pub fn set_dest_id(&mut self, id: &NodeID)
        requires
            old(self)@.len() >= HEAD_LEN,
        ensures
            final(self)@ == old(self)@.subrange(0, 12) + id.bytes() + old(self)@.subrange(
                16,
                old(self)@.len() as int,
            ),
    {
        self.write_id(12, id);
    }

    fn write_id(&mut self, at: usize, id: &NodeID)
        requires
            at + 4 <= old(self)@.len(),
        ensures
            final(self)@ == old(self)@.subrange(0, at as int) + id.bytes() + old(self)@.subrange(
                at + 4,
                old(self)@.len() as int,
            ),
    {
        let b = id.octets();
        let _len = self.buffer.len();
        self.buffer.set(at, b[0]);
        self.buffer.set(at + 1, b[1]);
        self.buffer.set(at + 2, b[2]);
        self.buffer.set(at + 3, b[3]);
        proof {
            NodeID::lemma_bytes_len(*id);
        }
        assert(self@ =~= old(self)@.subrange(0, at as int) + id.bytes() + old(self)@.subrange(
            at + 4,
            old(self)@.len() as int,
        ));
    }

    /// The bytes after the header, for writing.
    pub fn payload_mut(&mut self) -> (r: &mut [u8])
        requires
            old(self)@.len() >= HEAD_LEN,
        ensures
            r@ == old(self)@.subrange(16, old(self)@.len() as int),
            final(self)@ == old(self)@.subrange(0, 16) + final(r)@,
    {
        let s = self.buffer.as_mut_slice();
        let (_head, payload) = s.split_at_mut(16);
        payload
    }

    /// The whole packet, for writing.
    pub fn buffer_mut(&mut self) -> (r: &mut [u8])
        ensures
            r@ == old(self)@,
            final(self)@ == final(r)@,
    {
        self.buffer.as_mut_slice()
    }
}

/// Setting a TTL below sixteen and then reading the header gives that TTL back, both as
/// maximal and as current TTL.
pub proof fn law_set_ttl_reads_back(before: Seq<u8>, after: Seq<u8>, ttl: u8)
    requires
        before.len() >= 4,
        ttl < 16,
        after == before.update(3, ttl_byte(ttl)),
    ensures
        header_max_ttl(after) == ttl,
        header_ttl(after) == ttl,
{
    lemma_ttl_byte(ttl);
}

/// Setting the protocol and then reading it gives the same protocol back.
pub proof fn law_set_protocol_reads_back(before: Seq<u8>, after: Seq<u8>, p: ProtocolType)
    requires
        before.len() >= 1,
        after == before.update(0, protocol_code(p) | 0x80u8),
    ensures
        header_protocol_code(after) == protocol_code(p),
        protocol_of_code(header_protocol_code(after)) == Some(p),
{
    let c = protocol_code(p);
    assert(c <= 13);
    assert((c | 0x80u8) & 0x7fu8 == c) by (bit_vector)
        requires
            c <= 13,
    ;
}

/// Setting the source identifier and then reading the identifiers gives that source back and
/// leaves the destination as it was; the same holds the other way round.
pub proof fn law_set_ids_read_back(before: Seq<u8>, id: NodeID)
    requires
        before.len() >= HEAD_LEN,
    ensures
        ({
            let after = before.subrange(0, 8) + id.bytes() + before.subrange(12, before.len() as int);
            after.subrange(8, 12) == id.bytes() && after.subrange(12, 16) == before.subrange(12, 16)
        }),
        ({
            let after = before.subrange(0, 12) + id.bytes() + before.subrange(16, before.len() as int);
            after.subrange(12, 16) == id.bytes() && after.subrange(8, 12) == before.subrange(8, 12)
        }),
{
    NodeID::lemma_bytes_len(id);
    let a = before.subrange(0, 8) + id.bytes() + before.subrange(12, before.len() as int);
    assert(a.subrange(8, 12) =~= id.bytes());
    assert(a.subrange(12, 16) =~= before.subrange(12, 16));
    let b = before.subrange(0, 12) + id.bytes() + before.subrange(16, before.len() as int);
    assert(b.subrange(12, 16) =~= id.bytes());
    assert(b.subrange(8, 12) =~= before.subrange(8, 12));
}

} // verus!
