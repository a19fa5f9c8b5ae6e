use vstd::prelude::*;

verus! {

/// Packet types identified by the first byte.
#[derive(Debug, Clone, Copy, PartialEq, Eq, Structural)]
pub enum PacketType {
    Stun,
    Quic,
    Punch,
    RustP2p(u8),
    Other(u8),
}

/// The type of a packet whose first byte is `b`: QUIC when the fixed bit 0x40 is set, then
/// STUN for 1, hole punching for 2 and 3, an overlay packet (with its protocol number) when
/// the high bit is set, and anything else otherwise.
pub open spec fn packet_type_of(b: u8) -> PacketType {
    if b & 0x40u8 != 0 {
        PacketType::Quic
    } else if b == 1 {
        PacketType::Stun
    } else if 2 <= b <= 3 {
        PacketType::Punch
    } else if b & 0x80u8 != 0 {
        PacketType::RustP2p(b & 0x7fu8)
    } else {
        PacketType::Other(b)
    }
}

/// Identify packet type from the first byte.
pub fn classify_packet(first_byte: u8) -> (r: PacketType)
    ensures
        r == packet_type_of(first_byte),
{
    if first_byte & 0x40 != 0 {
        PacketType::Quic
    } else {
        match first_byte {
            0x01 => PacketType::Stun,
            0x02..=0x03 => PacketType::Punch,
            b if b & 0x80 != 0 => PacketType::RustP2p(b & 0x7f),
            b => PacketType::Other(b),
        }
    }
}

/// Every byte with the fixed bit set is QUIC, and every byte with the high bit set but not
/// the fixed bit is an overlay packet whose protocol number is its low seven bits.
pub proof fn law_classify_quic_and_overlay(b: u8)
    ensures
        b & 0x40u8 != 0 ==> packet_type_of(b) == PacketType::Quic,
        b & 0x40u8 == 0 && b & 0x80u8 != 0 ==> packet_type_of(b) == PacketType::RustP2p(b & 0x7fu8),
{
    assert(b & 0x40u8 == 0 && b & 0x80u8 != 0 ==> b >= 0x80u8) by (bit_vector);
}

} // verus!
