use vstd::prelude::*;
use crate::error::{Error, IoKind, decimal, decimal_u8};
use vstd::string::StringExecFns;

verus! {

/// Kind of a packet of the overlay, carried in the low seven bits of its first byte.
#[derive(Clone, Copy, PartialEq, Eq, Structural, Debug)]
pub enum ProtocolType {
    UserData,
    PunchConsultRequest,
    PunchConsultReply,
    PunchRequest,
    PunchReply,
    /// Maintain mapping
    EchoRequest,
    EchoReply,
    /// Detecting RTT
    TimestampRequest,
    TimestampReply,
    /// ID route query
    IDRouteQuery,
    IDRouteReply,
    /// Broadcast to the designated range
    RangeBroadcast,
    IDQuery,
    IDReply,
}

/// The number that stands for `p` on the wire.
pub open spec fn protocol_code(p: ProtocolType) -> u8 {
    match p {
        ProtocolType::UserData => 0,
        ProtocolType::PunchConsultRequest => 1,
        ProtocolType::PunchConsultReply => 2,
        ProtocolType::PunchRequest => 3,
        ProtocolType::PunchReply => 4,
        ProtocolType::EchoRequest => 5,
        ProtocolType::EchoReply => 6,
        ProtocolType::TimestampRequest => 7,
        ProtocolType::TimestampReply => 8,
        ProtocolType::IDRouteQuery => 9,
        ProtocolType::IDRouteReply => 10,
        ProtocolType::RangeBroadcast => 11,
        ProtocolType::IDQuery => 12,
        ProtocolType::IDReply => 13,
    }
}

/// The kind whose number is `v`, if there is one (`v <= 13`).
pub open spec fn protocol_of_code(v: u8) -> Option<ProtocolType> {
    if v == 0 {
        Some(ProtocolType::UserData)
    } else if v == 1 {
        Some(ProtocolType::PunchConsultRequest)
    } else if v == 2 {
        Some(ProtocolType::PunchConsultReply)
    } else if v == 3 {
        Some(ProtocolType::PunchRequest)
    } else if v == 4 {
        Some(ProtocolType::PunchReply)
    } else if v == 5 {
        Some(ProtocolType::EchoRequest)
    } else if v == 6 {
        Some(ProtocolType::EchoReply)
    } else if v == 7 {
        Some(ProtocolType::TimestampRequest)
    } else if v == 8 {
        Some(ProtocolType::TimestampReply)
    } else if v == 9 {
        Some(ProtocolType::IDRouteQuery)
    } else if v == 10 {
        Some(ProtocolType::IDRouteReply)
    } else if v == 11 {
        Some(ProtocolType::RangeBroadcast)
    } else if v == 12 {
        Some(ProtocolType::IDQuery)
    } else if v == 13 {
        Some(ProtocolType::IDReply)
    } else {
        None
    }
}

/// The message with which the protocol number `value` is refused.
pub open spec fn invalid_protocol_message(value: u8) -> Seq<char> {
    "invalid protocol:"@ + decimal(value as nat)
}

impl ProtocolType {
    /// The kind numbered `value`; numbers above 13 are refused as invalid data, with the
    /// message `invalid protocol:` and the number.
    pub fn try_from(value: u8) -> (r: Result<ProtocolType, Error>)
        ensures
            value <= 13 ==> r == Ok::<ProtocolType, Error>(protocol_of_code(value).unwrap()),
            value > 13 ==> (r matches Err(Error::Io(IoKind::InvalidData, Some(m))) && m@
                == invalid_protocol_message(value)),
    {
        match value {
            0 => Ok(ProtocolType::UserData),
            1 => Ok(ProtocolType::PunchConsultRequest),
            2 => Ok(ProtocolType::PunchConsultReply),
            3 => Ok(ProtocolType::PunchRequest),
            4 => Ok(ProtocolType::PunchReply),
            5 => Ok(ProtocolType::EchoRequest),
            6 => Ok(ProtocolType::EchoReply),
            7 => Ok(ProtocolType::TimestampRequest),
            8 => Ok(ProtocolType::TimestampReply),
            9 => Ok(ProtocolType::IDRouteQuery),
            10 => Ok(ProtocolType::IDRouteReply),
            11 => Ok(ProtocolType::RangeBroadcast),
            12 => Ok(ProtocolType::IDQuery),
            13 => Ok(ProtocolType::IDReply),
            _ => {
                let mut m = "invalid protocol:".to_owned();
                let digits = decimal_u8(value);
                m.append(digits.as_str());
                Err(Error::Io(IoKind::InvalidData, Some(m)))
            },
        }
    }

    /// The number of this kind on the wire.
    pub fn to_u8(self) -> (r: u8)
        ensures
            r == protocol_code(self),
    {
        match self {
            ProtocolType::UserData => 0,
            ProtocolType::PunchConsultRequest => 1,
            ProtocolType::PunchConsultReply => 2,
            ProtocolType::PunchRequest => 3,
            ProtocolType::PunchReply => 4,
            ProtocolType::EchoRequest => 5,
            ProtocolType::EchoReply => 6,
            ProtocolType::TimestampRequest => 7,
            ProtocolType::TimestampReply => 8,
            ProtocolType::IDRouteQuery => 9,
            ProtocolType::IDRouteReply => 10,
            ProtocolType::RangeBroadcast => 11,
            ProtocolType::IDQuery => 12,
            ProtocolType::IDReply => 13,
        }
    }
}

impl From<ProtocolType> for u8 {
    fn from(val: ProtocolType) -> (r: u8) {
        val.to_u8()
    }
}

impl vstd::std_specs::convert::FromSpecImpl<ProtocolType> for u8 {
    open spec fn obeys_from_spec() -> bool {
        true
    }

    open spec fn from_spec(val: ProtocolType) -> u8 {
        protocol_code(val)
    }
}

/// Every kind's number maps back to that kind, and every number up to 13 is some kind's.
pub proof fn lemma_protocol_code_round_trip(p: ProtocolType, v: u8)
    ensures
        protocol_code(p) <= 13,
        protocol_of_code(protocol_code(p)) == Some(p),
        v <= 13 ==> protocol_of_code(v) is Some && protocol_code(protocol_of_code(v).unwrap()) == v,
        v > 13 ==> protocol_of_code(v) is None,
{
}

} // verus!
