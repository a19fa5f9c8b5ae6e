use vstd::prelude::*;
use crate::addr::Ipv4Addr;
use crate::error::{Error, IoKind, io_error};
use vstd::string::StringSliceAdditionalSpecFns;

verus! {

/// Length in bytes of a [`NodeID`].
pub const ID_LEN: usize = 4;

/// The big-endian encoding of a 32-bit value.
pub open spec fn u32_be_bytes(v: u32) -> Seq<u8> {
    seq![(v >> 24u32) as u8, (v >> 16u32) as u8, (v >> 8u32) as u8, v as u8]
}

/// The 32-bit value whose big-endian encoding is `b` (four bytes).
pub open spec fn be_bytes_u32(b: Seq<u8>) -> u32 {
    (b[0] as u32) << 24u32 | (b[1] as u32) << 16u32 | (b[2] as u32) << 8u32 | (b[3] as u32)
}

/// Unique 4-byte identifier of a peer, usually derived from an IPv4 address.
#[derive(Clone, Copy, Eq, Debug, Hash, PartialOrd, Ord)]
pub struct NodeID([u8; 4]);

impl PartialEq for NodeID {
    fn eq(&self, other: &NodeID) -> (r: bool) {
        let r = self.0[0] == other.0[0] && self.0[1] == other.0[1] && self.0[2] == other.0[2]
            && self.0[3] == other.0[3];
        proof {
            if r {
                assert(self.bytes() =~= other.bytes());
            }
        }
        r
    }
}

impl vstd::std_specs::cmp::PartialEqSpecImpl for NodeID {
    open spec fn obeys_eq_spec() -> bool {
        true
    }

    open spec fn eq_spec(&self, other: &NodeID) -> bool {
        self.bytes() == other.bytes()
    }
}

impl NodeID {
    /// The four bytes of the identifier.
    pub closed spec fn bytes(self) -> Seq<u8> {
        self.0@
    }

    /// Every identifier is exactly four bytes long.
    pub broadcast proof fn lemma_bytes_len(id: NodeID)
        ensures
            #[trigger] id.bytes().len() == ID_LEN,
    {
    }

    pub open spec fn spec_is_unspecified(self) -> bool {
        forall|i: int| 0 <= i < 4 ==> #[trigger] self.bytes()[i] == 0u8
    }

    pub open spec fn spec_is_broadcast(self) -> bool {
        forall|i: int| 0 <= i < 4 ==> #[trigger] self.bytes()[i] == 255u8
    }

    /// The broadcast identifier 255.255.255.255.
    pub fn broadcast() -> (r: NodeID)
        ensures
            r.bytes() == seq![255u8, 255u8, 255u8, 255u8],
            r.spec_is_broadcast(),
    {
        let r = NodeID([255u8; 4]);
        assert(r.bytes() =~= seq![255u8, 255u8, 255u8, 255u8]);
        r
    }

    /// The unspecified identifier 0.0.0.0.
    pub fn unspecified() -> (r: NodeID)
        ensures
            r.bytes() == seq![0u8, 0u8, 0u8, 0u8],
            r.spec_is_unspecified(),
    {
        let r = NodeID([0u8; 4]);
        assert(r.bytes() =~= seq![0u8, 0u8, 0u8, 0u8]);
        r
    }

    /// Whether every byte is zero.
    pub fn is_unspecified(&self) -> (r: bool)
        ensures
            r == self.spec_is_unspecified(),
    {
        let r = self.0[0] == 0 && self.0[1] == 0 && self.0[2] == 0 && self.0[3] == 0;
        proof {
            if r {
                assert forall|i: int| 0 <= i < 4 implies #[trigger] self.bytes()[i] == 0u8 by {
                    assert(0 <= i < 4);
                }
            } else {
                assert(self.bytes()[0] != 0u8 || self.bytes()[1] != 0u8 || self.bytes()[2] != 0u8
                    || self.bytes()[3] != 0u8);
            }
        }
        r
    }

    /// Whether every byte is 255.
    pub fn is_broadcast(&self) -> (r: bool)
        ensures
            r == self.spec_is_broadcast(),
    {
        let r = self.0[0] == 255 && self.0[1] == 255 && self.0[2] == 255 && self.0[3] == 255;
        proof {
            if r {
                assert forall|i: int| 0 <= i < 4 implies #[trigger] self.bytes()[i] == 255u8 by {
                    assert(0 <= i < 4);
                }
            } else {
                assert(self.bytes()[0] != 255u8 || self.bytes()[1] != 255u8 || self.bytes()[2] != 255u8
                    || self.bytes()[3] != 255u8);
            }
        }
        r
    }
}

impl NodeID {
    /// The identifier made of the four bytes of `b`.
    pub closed spec fn spec_from_bytes(b: Seq<u8>) -> NodeID {
        NodeID([b[0], b[1], b[2], b[3]])
    }

    /// An identifier built from four bytes holds exactly those bytes.
    pub broadcast proof fn lemma_from_bytes(b: Seq<u8>)
        requires
            b.len() == ID_LEN,
        ensures
            #[trigger] NodeID::spec_from_bytes(b).bytes() == b,
    {
        assert(NodeID::spec_from_bytes(b).bytes() =~= b);
    }

    /// Two identifiers with the same bytes are the same identifier.
    pub broadcast proof fn lemma_bytes_injective(a: NodeID, b: NodeID)
        requires
            #[trigger] a.bytes() == #[trigger] b.bytes(),
        ensures
            a == b,
    {
        assert(a.0[0] == b.0[0] && a.0[1] == b.0[1] && a.0[2] == b.0[2] && a.0[3] == b.0[3]);
        assert(a.0 =~= b.0);
    }

    /// The identifier whose bytes are `b`.
    pub fn from_array(b: [u8; 4]) -> (r: NodeID)
        ensures
            r.bytes() == b@,
            r == NodeID::spec_from_bytes(b@),
    {
        let r = NodeID(b);
        proof {
            NodeID::lemma_from_bytes(b@);
            NodeID::lemma_bytes_injective(r, NodeID::spec_from_bytes(b@));
        }
        r
    }

    /// The four bytes of the identifier.
    pub fn octets(&self) -> (r: [u8; 4])
        ensures
            r@ == self.bytes(),
    {
        self.0
    }

    /// The bytes of the identifier as a slice.
    pub fn as_ref(&self) -> (r: &[u8])
        ensures
            r@ == self.bytes(),
    {
        self.0.as_slice()
    }

    /// The identifier whose big-endian encoding is `v`.
    pub fn from_u32(v: u32) -> (r: NodeID)
        ensures
            r.bytes() == u32_be_bytes(v),
            r == NodeID::spec_from_bytes(u32_be_bytes(v)),
    {
        let r = NodeID([(v >> 24u32) as u8, (v >> 16u32) as u8, (v >> 8u32) as u8, v as u8]);
        assert(r.bytes() =~= u32_be_bytes(v));
        proof {
            NodeID::lemma_from_bytes(u32_be_bytes(v));
            NodeID::lemma_bytes_injective(r, NodeID::spec_from_bytes(u32_be_bytes(v)));
        }
        r
    }

    /// The identifier read as a big-endian 32-bit number.
    pub fn to_u32(&self) -> (r: u32)
        ensures
            r == be_bytes_u32(self.bytes()),
    {
        (self.0[0] as u32) << 24u32 | (self.0[1] as u32) << 16u32 | (self.0[2] as u32) << 8u32
            | (self.0[3] as u32)
    }

    /// The identifier made of the first four bytes of `value`, which must be exactly four long.
    pub fn try_from(value: &[u8]) -> (r: Result<NodeID, Error>)
        ensures
            value@.len() == ID_LEN ==> (r matches Ok(id) && id.bytes() == value@),
            value@.len() != ID_LEN ==> r matches Err(Error::Io(IoKind::InvalidData, None)),
    {
        if value.len() == ID_LEN {
            let r = NodeID([value[0], value[1], value[2], value[3]]);
            assert(r.bytes() =~= value@);
            Ok(r)
        } else {
            Err(Error::Io(IoKind::InvalidData, None))
        }
    }
}

/// Reading back the big-endian encoding of a number gives the number.
pub proof fn lemma_u32_be_round_trip(v: u32)
    ensures
        be_bytes_u32(u32_be_bytes(v)) == v,
{
    assert(((v >> 24u32) as u8 as u32) << 24u32 | ((v >> 16u32) as u8 as u32) << 16u32 | ((v
        >> 8u32) as u8 as u32) << 8u32 | (v as u8 as u32) == v) by (bit_vector);
}

/// Encoding the number read from four bytes gives back those bytes.
pub proof fn lemma_be_u32_round_trip(b: Seq<u8>)
    requires
        b.len() == 4,
    ensures
        u32_be_bytes(be_bytes_u32(b)) == b,
{
    let (b0, b1, b2, b3) = (b[0], b[1], b[2], b[3]);
    let v = (b0 as u32) << 24u32 | (b1 as u32) << 16u32 | (b2 as u32) << 8u32 | (b3 as u32);
    assert((v >> 24u32) as u8 == b0 && (v >> 16u32) as u8 == b1 && (v >> 8u32) as u8 == b2
        && v as u8 == b3) by (bit_vector)
        requires
            v == (b0 as u32) << 24u32 | (b1 as u32) << 16u32 | (b2 as u32) << 8u32 | (b3 as u32),
    ;
    assert(u32_be_bytes(be_bytes_u32(b)) =~= b);
}

impl From<u32> for NodeID {
    fn from(value: u32) -> (r: NodeID) {
        NodeID::from_u32(value)
    }
}

impl vstd::std_specs::convert::FromSpecImpl<u32> for NodeID {
    open spec fn obeys_from_spec() -> bool {
        true
    }

    open spec fn from_spec(value: u32) -> NodeID {
        NodeID::spec_from_bytes(u32_be_bytes(value))
    }
}

impl From<Ipv4Addr> for NodeID {
    fn from(value: Ipv4Addr) -> (r: NodeID) {
        NodeID::from_u32(value.0)
    }
}

impl vstd::std_specs::convert::FromSpecImpl<Ipv4Addr> for NodeID {
    open spec fn obeys_from_spec() -> bool {
        true
    }

    open spec fn from_spec(value: Ipv4Addr) -> NodeID {
        NodeID::spec_from_bytes(u32_be_bytes(value.0))
    }
}

impl From<NodeID> for Ipv4Addr {
    fn from(value: NodeID) -> (r: Ipv4Addr) {
        Ipv4Addr(value.to_u32())
    }
}

impl vstd::std_specs::convert::FromSpecImpl<NodeID> for Ipv4Addr {
    open spec fn obeys_from_spec() -> bool {
        true
    }

    open spec fn from_spec(value: NodeID) -> Ipv4Addr {
        Ipv4Addr(be_bytes_u32(value.bytes()))
    }
}

impl From<i32> for NodeID {
    fn from(value: i32) -> (r: NodeID) {
        NodeID::from_u32(#[verifier::truncate] (value as u32))
    }
}

impl vstd::std_specs::convert::FromSpecImpl<i32> for NodeID {
    open spec fn obeys_from_spec() -> bool {
        true
    }

    open spec fn from_spec(value: i32) -> NodeID {
        NodeID::spec_from_bytes(u32_be_bytes(value as u32))
    }
}

impl From<[u8; 4]> for NodeID {
    fn from(value: [u8; 4]) -> (r: NodeID) {
        NodeID::from_array(value)
    }
}

impl vstd::std_specs::convert::FromSpecImpl<[u8; 4]> for NodeID {
    open spec fn obeys_from_spec() -> bool {
        true
    }

    open spec fn from_spec(value: [u8; 4]) -> NodeID {
        NodeID::spec_from_bytes(value@)
    }
}

impl From<NodeID> for u32 {
    fn from(value: NodeID) -> (r: u32) {
        value.to_u32()
    }
}

impl vstd::std_specs::convert::FromSpecImpl<NodeID> for u32 {
    open spec fn obeys_from_spec() -> bool {
        true
    }

    open spec fn from_spec(value: NodeID) -> u32 {
        be_bytes_u32(value.bytes())
    }
}

impl From<NodeID> for i32 {
    fn from(value: NodeID) -> (r: i32) {
        value.to_u32() as i32
    }
}

impl vstd::std_specs::convert::FromSpecImpl<NodeID> for i32 {
    open spec fn obeys_from_spec() -> bool {
        true
    }

    open spec fn from_spec(value: NodeID) -> i32 {
        be_bytes_u32(value.bytes()) as i32
    }
}

impl From<NodeID> for [u8; 4] {
    fn from(value: NodeID) -> (r: [u8; 4]) {
        value.octets()
    }
}

impl vstd::std_specs::convert::FromSpecImpl<NodeID> for [u8; 4] {
    open spec fn obeys_from_spec() -> bool {
        true
    }

    open spec fn from_spec(value: NodeID) -> [u8; 4] {
        value.spec_octets()
    }
}

impl NodeID {
    /// The four bytes of the identifier as an array.
    pub closed spec fn spec_octets(self) -> [u8; 4] {
        self.0
    }
}

} // verus!

verus! {

/// Length in bytes of a [`GroupCode`].
pub const GROUP_CODE_LEN: usize = 16;

/// Byte `i` (from the most significant) of the big-endian encoding of `v`.
pub open spec fn u128_be_byte(v: u128, i: int) -> u8 {
    (v >> ((8 * (15 - i)) as u128)) as u8
}

/// The big-endian encoding of a 128-bit value.
pub open spec fn u128_be_bytes(v: u128) -> Seq<u8> {
    Seq::new(16, |i: int| u128_be_byte(v, i))
}

/// Identifier of a group of peers; peers of different groups cannot talk to each other.
#[derive(Clone, Copy, Eq, Debug, Hash, PartialOrd, Ord)]
pub struct GroupCode([u8; 16]);

impl PartialEq for GroupCode {
    fn eq(&self, other: &GroupCode) -> (r: bool) {
        let mut i: usize = 0;
        while i < GROUP_CODE_LEN
            invariant
                i <= GROUP_CODE_LEN,
                forall|j: int| 0 <= j < i ==> self.0@[j] == other.0@[j],
            decreases GROUP_CODE_LEN - i,
        {
            if self.0[i] != other.0[i] {
                return false;
            }
            i = i + 1;
        }
        assert(self.bytes() =~= other.bytes());
        true
    }
}

impl vstd::std_specs::cmp::PartialEqSpecImpl for GroupCode {
    open spec fn obeys_eq_spec() -> bool {
        true
    }

    open spec fn eq_spec(&self, other: &GroupCode) -> bool {
        self.bytes() == other.bytes()
    }
}

impl GroupCode {
    /// The sixteen bytes of the code.
    pub closed spec fn bytes(self) -> Seq<u8> {
        self.0@
    }

    /// Every code is exactly sixteen bytes long.
    pub broadcast proof fn lemma_bytes_len(g: GroupCode)
        ensures
            #[trigger] g.bytes().len() == GROUP_CODE_LEN,
    {
    }

    pub open spec fn spec_is_unspecified(self) -> bool {
        forall|i: int| 0 <= i < 16 ==> #[trigger] self.bytes()[i] == 0u8
    }

    /// The unspecified code: sixteen zero bytes.
    pub fn unspecified() -> (r: GroupCode)
        ensures
            r.bytes() == Seq::new(16, |i: int| 0u8),
            r.spec_is_unspecified(),
    {
        let r = GroupCode([0u8; 16]);
        assert(r.bytes() =~= Seq::new(16, |i: int| 0u8));
        r
    }

    /// Whether every byte is zero.
    pub fn is_unspecified(&self) -> (r: bool)
        ensures
            r == self.spec_is_unspecified(),
    {
        let mut i: usize = 0;
        while i < GROUP_CODE_LEN
            invariant
                i <= GROUP_CODE_LEN,
                forall|j: int| 0 <= j < i ==> self.0@[j] == 0u8,
            decreases GROUP_CODE_LEN - i,
        {
            if self.0[i] != 0 {
                assert(self.bytes()[i as int] != 0u8);
                return false;
            }
            i = i + 1;
        }
        true
    }

    /// The code made of the bytes of `b`.
    pub fn from_array(b: [u8; 16]) -> (r: GroupCode)
        ensures
            r.bytes() == b@,
    {
        GroupCode(b)
    }

    /// The bytes of the code as a slice.
    pub fn as_ref(&self) -> (r: &[u8])
        ensures
            r@ == self.bytes(),
    {
        self.0.as_slice()
    }

    /// The code made of `value`, which must be exactly sixteen bytes long.
    pub fn try_from(value: &[u8]) -> (r: Result<GroupCode, Error>)
        ensures
            value@.len() == GROUP_CODE_LEN ==> (r matches Ok(g) && g.bytes() == value@),
            value@.len() != GROUP_CODE_LEN ==> r matches Err(Error::Io(IoKind::InvalidData, None)),
    {
        if value.len() != GROUP_CODE_LEN {
            return Err(Error::Io(IoKind::InvalidData, None));
        }
        let mut a = [0u8; 16];
        let mut i: usize = 0;
        while i < GROUP_CODE_LEN
            invariant
                i <= GROUP_CODE_LEN,
                value@.len() == GROUP_CODE_LEN,
                forall|j: int| 0 <= j < i ==> a@[j] == value@[j],
            decreases GROUP_CODE_LEN - i,
        {
            a[i] = value[i];
            i = i + 1;
        }
        let r = GroupCode(a);
        assert(r.bytes() =~= value@);
        Ok(r)
    }

    /// The code holding the UTF-8 bytes of `value` followed by zero bytes; a text of more
    /// than sixteen bytes is refused.
    pub fn try_from_str(value: &str) -> (r: Result<GroupCode, Error>)
        ensures
            value.spec_bytes().len() <= GROUP_CODE_LEN ==> (r matches Ok(g) && g.bytes()
                == value.spec_bytes() + Seq::new(
                (GROUP_CODE_LEN - value.spec_bytes().len()) as nat,
                |i: int| 0u8,
            )),
            value.spec_bytes().len() > GROUP_CODE_LEN ==> (r matches Err(Error::Io(IoKind::Other, Some(m))) && m@
                == "The number of bytes in the string exceeds the limit of group code len 16"@),
    {
        let bytes = value.as_bytes();
        if bytes.len() > GROUP_CODE_LEN {
            return Err(io_error(
                IoKind::Other,
                "The number of bytes in the string exceeds the limit of group code len 16",
            ));
        }
        let mut a = [0u8; 16];
        let mut i: usize = 0;
        while i < bytes.len()
            invariant
                i <= bytes@.len() <= GROUP_CODE_LEN,
                forall|j: int| 0 <= j < i ==> a@[j] == bytes@[j],
                forall|j: int| i <= j < 16 ==> a@[j] == 0u8,
            decreases bytes.len() - i,
        {
            a[i] = bytes[i];
            i = i + 1;
        }
        let r = GroupCode(a);
        assert(r.bytes() =~= value.spec_bytes() + Seq::new(
            (GROUP_CODE_LEN - value.spec_bytes().len()) as nat,
            |i: int| 0u8,
        ));
        Ok(r)
    }

    /// The code whose big-endian encoding is `v`.
    pub fn from_u128(v: u128) -> (r: GroupCode)
        ensures
            r.bytes() == u128_be_bytes(v),
    {
        let mut a = [0u8; 16];
        let mut i: usize = 0;
        while i < GROUP_CODE_LEN
            invariant
                i <= GROUP_CODE_LEN,
                forall|j: int| 0 <= j < i ==> a@[j] == u128_be_byte(v, j),
            decreases GROUP_CODE_LEN - i,
        {
            let shift: u128 = (8 * (15 - i)) as u128;
            a[i] = (v >> shift) as u8;
            i = i + 1;
        }
        let r = GroupCode(a);
        assert(r.bytes() =~= u128_be_bytes(v));
        r
    }
}

impl Default for GroupCode {
    fn default() -> (r: GroupCode)
        ensures
            r.spec_is_unspecified(),
    {
        GroupCode::unspecified()
    }
}

impl From<u128> for GroupCode {
    fn from(value: u128) -> (r: GroupCode) {
        let r = GroupCode::from_u128(value);
        proof {
            GroupCode::lemma_from_bytes(u128_be_bytes(value), r);
        }
        r
    }
}

impl From<i128> for GroupCode {
    fn from(value: i128) -> (r: GroupCode) {
        let r = GroupCode::from_u128(#[verifier::truncate] (value as u128));
        proof {
            GroupCode::lemma_from_bytes(u128_be_bytes(value as u128), r);
        }
        r
    }
}

impl From<[u8; 16]> for GroupCode {
    fn from(value: [u8; 16]) -> (r: GroupCode) {
        let r = GroupCode::from_array(value);
        proof {
            GroupCode::lemma_from_bytes(value@, r);
        }
        r
    }
}

impl GroupCode {
    /// The code made of the sixteen bytes of `b`.
    pub closed spec fn spec_from_bytes(b: Seq<u8>) -> GroupCode {
        GroupCode(
            [
                b[0],
                b[1],
                b[2],
                b[3],
                b[4],
                b[5],
                b[6],
                b[7],
                b[8],
                b[9],
                b[10],
                b[11],
                b[12],
                b[13],
                b[14],
                b[15],
            ],
        )
    }

    /// A code built from sixteen bytes holds exactly those bytes, and a code is determined by
    /// its bytes.
    pub broadcast proof fn lemma_from_bytes(b: Seq<u8>, g: GroupCode)
        requires
            b.len() == GROUP_CODE_LEN,
            #[trigger] g.bytes() == b,
        ensures
            #[trigger] GroupCode::spec_from_bytes(b) == g,
    {
        assert(GroupCode::spec_from_bytes(b).0 =~= g.0);
    }
}

impl vstd::std_specs::convert::FromSpecImpl<u128> for GroupCode {
    open spec fn obeys_from_spec() -> bool {
        true
    }

    open spec fn from_spec(value: u128) -> GroupCode {
        GroupCode::spec_from_bytes(u128_be_bytes(value))
    }
}

impl vstd::std_specs::convert::FromSpecImpl<i128> for GroupCode {
    open spec fn obeys_from_spec() -> bool {
        true
    }

    open spec fn from_spec(value: i128) -> GroupCode {
        GroupCode::spec_from_bytes(u128_be_bytes(value as u128))
    }
}

impl vstd::std_specs::convert::FromSpecImpl<[u8; 16]> for GroupCode {
    open spec fn obeys_from_spec() -> bool {
        true
    }

    open spec fn from_spec(value: [u8; 16]) -> GroupCode {
        GroupCode::spec_from_bytes(value@)
    }
}

} // verus!
