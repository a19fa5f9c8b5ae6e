use vstd::prelude::*;
use crate::error::{Error, IoKind, io_error};
use crate::protocol::net_packet::{
    HEAD_LEN, NetPacket, header_data_length, header_max_ttl, header_protocol_code, header_ttl,
    ttl_byte,
};
use crate::protocol::node_id::NodeID;
use crate::protocol::protocol_type::{
    ProtocolType, invalid_protocol_message, protocol_code, protocol_of_code,
};

verus! {

/// Whether the four bytes `s` are all 0 (the unspecified identifier).
pub open spec fn id_bytes_zero(s: Seq<u8>) -> bool {
    forall|i: int| 0 <= i < 4 ==> #[trigger] s[i] == 0u8
}

/// Whether the four bytes `s` are all 255 (the broadcast identifier).
pub open spec fn id_bytes_all_ones(s: Seq<u8>) -> bool {
    forall|i: int| 0 <= i < 4 ==> #[trigger] s[i] == 255u8
}

/// What a node does with a packet of its own group.
#[derive(Debug)]
pub enum Handling {
    /// Nothing: the packet's TTL is spent.
    Drop,
    /// The packet is for another node: it goes on to `dest`, its TTL stepped down.
    Forward { packet: NetPacket, src: NodeID, dest: NodeID, metric: u8 },
    /// The packet is for this node, for every node or for no node in particular.
    Local { packet: NetPacket, src: NodeID, dest: NodeID, metric: u8, protocol: ProtocolType },
}

/// How node `self_id` (`None` while it has no identifier) handles the received bytes `buf`.
/// In order: a buffer that is no packet is refused as `NetPacket::new` refuses it; a current
/// TTL above the maximal TTL is an error, a current TTL of 0 drops the packet; an unspecified
/// or broadcast source is an error, so is a node without identifier and a packet from the
/// node itself. A packet for another node (neither this one, nor unspecified, nor broadcast)
/// is forwarded when its TTL can be stepped down and dropped otherwise; any other is handled
/// here by its protocol, and an unknown protocol number is an error. The errors after the
/// buffer check are invalid-data failures whose message names the cause. `metric` is the
/// number of hops made: maximal minus current TTL.
pub fn handle_net_packet(buf: Vec<u8>, self_id: Option<NodeID>) -> (r: Result<Handling, Error>)
    ensures
        buf@.len() < HEAD_LEN ==> (r matches Err(Error::Overflow { cap, required }) && cap
            == buf@.len() && required == HEAD_LEN),
        buf@.len() >= HEAD_LEN && header_data_length(buf@) != buf@.len() ==> r matches Err(
            Error::InvalidArgument(_),
        ),
        buf@.len() >= HEAD_LEN && header_data_length(buf@) == buf@.len() ==> {
            let b = buf@;
            let src = b.subrange(8, 12);
            let dest = b.subrange(12, 16);
            let metric = (header_max_ttl(b) - header_ttl(b)) as u8;
            if header_max_ttl(b) < header_ttl(b) {
                r matches Err(Error::Io(IoKind::InvalidData, Some(m))) && m@ == "ttl error"@
            } else if header_ttl(b) == 0 {
                r matches Ok(Handling::Drop)
            } else if id_bytes_zero(src) || id_bytes_all_ones(src) {
                r matches Err(Error::Io(IoKind::InvalidData, Some(m))) && m@
                    == "src id is unspecified"@
            } else if self_id is None {
                r matches Err(Error::Io(IoKind::InvalidData, Some(m))) && m@ == "self id is none"@
            } else if self_id.unwrap().bytes() == src {
                r matches Err(Error::Io(IoKind::InvalidData, Some(m))) && m@ == "id loop error"@
            } else if self_id.unwrap().bytes() != dest && !id_bytes_zero(dest)
                && !id_bytes_all_ones(dest) {
                if header_ttl(b) > 1 {
                    r matches Ok(Handling::Forward { packet, src: s, dest: d, metric: m }) && packet@
                        == b.update(3, b[3] & (0xf0u8 | ((header_ttl(b) - 1) as u8)))
                        && s.bytes() == src && d.bytes() == dest && m == metric
                } else {
                    r matches Ok(Handling::Drop)
                }
            } else if header_protocol_code(b) > 13 {
                r matches Err(Error::Io(IoKind::InvalidData, Some(m))) && m@
                    == invalid_protocol_message(header_protocol_code(b))
            } else {
                r matches Ok(Handling::Local { packet, src: s, dest: d, metric: m, protocol })
                    && packet@ == b && s.bytes() == src && d.bytes() == dest && m == metric
                    && protocol == protocol_of_code(header_protocol_code(b)).unwrap()
            }
        },
{
    let mut packet = match NetPacket::new(buf) {
        Ok(p) => p,
        Err(e) => return Err(e),
    };
    let max_ttl = packet.max_ttl();
    let ttl = packet.ttl();
    if max_ttl < ttl {
        return Err(io_error(IoKind::InvalidData, "ttl error"));
    }
    if ttl == 0 {
        return Ok(Handling::Drop);
    }
    let src = match NodeID::try_from(packet.src_id()) {
        Ok(id) => id,
        Err(e) => return Err(e),
    };
    if src.is_unspecified() || src.is_broadcast() {
        return Err(io_error(IoKind::InvalidData, "src id is unspecified"));
    }
    let me = match self_id {
        Some(id) => id,
        None => return Err(io_error(IoKind::InvalidData, "self id is none")),
    };
    let dest = match NodeID::try_from(packet.dest_id()) {
        Ok(id) => id,
        Err(e) => return Err(e),
    };
    let metric = max_ttl - ttl;
    if me == src {
        return Err(io_error(IoKind::InvalidData, "id loop error"));
    }
    if !(me == dest) && !dest.is_unspecified() && !dest.is_broadcast() {
        if packet.incr_ttl() {
            return Ok(Handling::Forward { packet, src, dest, metric });
        }
        return Ok(Handling::Drop);
    }
    match packet.protocol() {
        Ok(protocol) => Ok(Handling::Local { packet, src, dest, metric, protocol }),
        Err(e) => Err(e),
    }
}

/// Turns a request received from `src` into its reply in place: protocol `reply`, both TTLs
/// set to the maximal TTL, addressed from `self_id` back to `src`; the payload is kept.
pub fn into_reply(packet: &mut NetPacket, reply: ProtocolType, src: &NodeID, self_id: &NodeID)
    requires
        old(packet)@.len() >= HEAD_LEN,
    ensures
        final(packet)@.len() == old(packet)@.len(),
        final(packet)@[0] == protocol_code(reply) | 0x80u8,
        final(packet)@.subrange(1, 3) == old(packet)@.subrange(1, 3),
        final(packet)@[3] == ttl_byte(header_max_ttl(old(packet)@)),
        final(packet)@.subrange(4, 8) == old(packet)@.subrange(4, 8),
        final(packet)@.subrange(8, 12) == self_id.bytes(),
        final(packet)@.subrange(12, 16) == src.bytes(),
        final(packet)@.subrange(16, final(packet)@.len() as int) == old(packet)@.subrange(
            16,
            old(packet)@.len() as int,
        ),
{
    let ghost b = packet@;
    proof {
        NodeID::lemma_bytes_len(*self_id);
        NodeID::lemma_bytes_len(*src);
    }
    packet.set_protocol(reply);
    let max_ttl = packet.max_ttl();
    packet.set_ttl(max_ttl);
    packet.set_dest_id(src);
    packet.set_src_id(self_id);
    proof {
        let f = packet@;
        assert(f.subrange(1, 3) =~= b.subrange(1, 3));
        assert(f.subrange(4, 8) =~= b.subrange(4, 8));
        assert(f.subrange(16, f.len() as int) =~= b.subrange(16, b.len() as int));
        assert(f.subrange(8, 12) =~= self_id.bytes());
        assert(f.subrange(12, 16) =~= src.bytes());
    }
}

/// The round-trip time a timestamp reply shows at `now` milliseconds: `now` less the
/// four-byte big-endian timestamp of the payload, or 0 if that is later; any other payload
/// length is an error.
pub fn timestamp_rtt(payload: &[u8], now: u32) -> (r: Result<u32, Error>)
    ensures
        payload@.len() != 4 ==> (r matches Err(Error::Io(IoKind::InvalidData, Some(m))) && m@
            == "time error"@),
        payload@.len() == 4 ==> {
            let sent = (payload@[0] as u32) << 24u32 | (payload@[1] as u32) << 16u32 | (
            payload@[2] as u32) << 8u32 | (payload@[3] as u32);
            r == Ok::<u32, Error>(if now > sent {
                (now - sent) as u32
            } else {
                0u32
            })
        },
{
    if payload.len() != 4 {
        return Err(io_error(IoKind::InvalidData, "time error"));
    }
    let sent: u32 = (payload[0] as u32) << 24u32 | (payload[1] as u32) << 16u32 | (payload[2] as u32)
        << 8u32 | (payload[3] as u32);
    if now > sent {
        Ok(now - sent)
    } else {
        Ok(0)
    }
}

/// The identifiers of `ids` other than `me`, in order.
pub open spec fn other_ids(ids: Seq<NodeID>, me: NodeID) -> Seq<NodeID>
    decreases ids.len(),
{
    if ids.len() == 0 {
        ids
    } else if ids.last().bytes() == me.bytes() {
        other_ids(ids.drop_last(), me)
    } else {
        other_ids(ids.drop_last(), me).push(ids.last())
    }
}

/// The identifiers of a range broadcast other than `self_id`, in order, and whether `self_id`
/// is among them.
pub fn range_broadcast_targets(ids: &Vec<NodeID>, self_id: &NodeID) -> (r: (Vec<NodeID>, bool))
    ensures
        r.0@ == other_ids(ids@, *self_id),
        r.1 == exists|i: int| 0 <= i < ids@.len() && ids@[i].bytes() == self_id.bytes(),
{
    let mut others: Vec<NodeID> = Vec::new();
    let mut to_self = false;
    let mut i: usize = 0;
    while i < ids.len()
        invariant
            i <= ids@.len(),
            others@ == other_ids(ids@.take(i as int), *self_id),
            to_self == exists|j: int| 0 <= j < i && ids@[j].bytes() == self_id.bytes(),
        decreases ids@.len() - i,
    {
        let id = ids[i];
        proof {
            assert(ids@.take(i + 1).drop_last() =~= ids@.take(i as int));
        }
        if id == *self_id {
            to_self = true;
        } else {
            others.push(id);
        }
        i = i + 1;
        proof {
            assert(ids@.take(i as int).last() == id);
        }
    }
    proof {
        assert(ids@.take(i as int) =~= ids@);
    }
    (others, to_self)
}

} // verus!
