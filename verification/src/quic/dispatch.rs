use vstd::prelude::*;
use crate::quic::demux::{PacketType, classify_packet, packet_type_of};
use crate::addr::{IpAddr, Ipv4Addr, SocketAddr};
use crate::quic::nat_info::{NatInfo, add_unique};
use crate::quic::packet::{Packet, PacketError, ProtocolType, parse_outcome, quic_protocol_of_code};
use crate::quic::peer_id::PeerId;

verus! {

/// `a - b`, or 0 when `b` is the larger.
pub open spec fn sat_sub_u8(a: u8, b: u8) -> u8 {
    if a > b {
        (a - b) as u8
    } else {
        0
    }
}

/// What becomes of a datagram that reached the protocol layer.
#[derive(Debug)]
pub enum Inbound {
    /// Nothing: the datagram is empty, not an overlay packet, or comes from this node itself
    /// or from a peer without identifier.
    Ignore,
    /// An overlay packet for another node, to be forwarded; `metric` is the number of hops
    /// it has made.
    Forward { packet: Packet, src: PeerId, metric: u8 },
    /// An overlay packet for this node or for every node, of protocol `protocol`.
    Deliver { packet: Packet, src: PeerId, metric: u8, protocol: ProtocolType },
}

/// How the protocol layer of node `self_id` takes a received datagram `data`: empty data
/// and data that is not an overlay packet are ignored; a packet that does not parse is an
/// error; a packet from this node or from an unspecified peer is ignored; a packet for
/// another node (neither this one nor `*`) is forwarded; any other is delivered by protocol,
/// and an unknown protocol number is an error.
pub fn classify_inbound(self_id: &PeerId, data: Vec<u8>) -> (r: Result<Inbound, PacketError>)
    ensures
        data@.len() == 0 ==> r matches Ok(Inbound::Ignore),
        data@.len() > 0 && !(packet_type_of(data@[0]) is RustP2p) ==> r matches Ok(Inbound::Ignore),
        data@.len() > 0 && packet_type_of(data@[0]) is RustP2p ==> match parse_outcome(data@) {
            Err(e) => r == Err::<Inbound, PacketError>(e),
            Ok((s, d, off)) => if s == self_id.0@ || s.len() == 0 {
                r matches Ok(Inbound::Ignore)
            } else if d != self_id.0@ && d != seq!['*'] {
                r matches Ok(Inbound::Forward { packet, src, metric }) && packet.wf()
                    && packet.bytes() == data@ && src.0@ == s && packet.dest_peer().0@ == d
                    && metric == sat_sub_u8(data@[3], data@[4])
            } else if (data@[0] & 0x7fu8) > 16 {
                r == Err::<Inbound, PacketError>(PacketError::InvalidProtocol(data@[0] & 0x7fu8))
            } else {
                r matches Ok(Inbound::Deliver { packet, src, metric, protocol }) && packet.wf()
                    && packet.bytes() == data@ && src.0@ == s && packet.dest_peer().0@ == d
                    && metric == sat_sub_u8(data@[3], data@[4]) && protocol
                    == quic_protocol_of_code(data@[0] & 0x7fu8).unwrap()
            },
        },
{
    if data.len() == 0 {
        return Ok(Inbound::Ignore);
    }
    match classify_packet(data[0]) {
        PacketType::RustP2p(_) => {},
        _ => return Ok(Inbound::Ignore),
    }
    let packet = match Packet::parse(data) {
        Ok(p) => p,
        Err(e) => return Err(e),
    };
    let src = packet.src();
    if src == *self_id || src.is_unspecified() {
        return Ok(Inbound::Ignore);
    }
    let max_ttl = packet.max_ttl();
    let ttl = packet.ttl();
    let metric = if max_ttl > ttl {
        max_ttl - ttl
    } else {
        0
    };
    let dest = packet.dest();
    if !(dest == *self_id) && !dest.is_broadcast() {
        return Ok(Inbound::Forward { packet, src, metric });
    }
    match packet.protocol() {
        Ok(protocol) => Ok(Inbound::Deliver { packet, src, metric, protocol }),
        Err(e) => Err(e),
    }
}

/// A step of the bookkeeping done for every received overlay packet from another peer,
/// before it is forwarded or delivered.
#[derive(Clone, Copy, Debug, PartialEq, Eq, Structural)]
pub enum ReceiptStep {
    /// Note that the route it came on was just read from.
    UpdateRouteReadTime,
    /// Record the sender in the peer table (see `peer_info_from_packet`).
    UpsertPeer,
    /// Keep the route it came on as a route candidate for the sender.
    AddCandidate,
}

/// The bookkeeping steps for a packet that made `metric` hops: the route's read time and the
/// sender's record are always updated; a packet that came directly (metric 0) also makes
/// its route a candidate.
pub open spec fn receipt_steps(metric: u8) -> Seq<ReceiptStep> {
    if metric == 0 {
        seq![ReceiptStep::UpdateRouteReadTime, ReceiptStep::UpsertPeer, ReceiptStep::AddCandidate]
    } else {
        seq![ReceiptStep::UpdateRouteReadTime, ReceiptStep::UpsertPeer]
    }
}

/// The sender and hop count of a received datagram with the bookkeeping they call for.
pub struct Receipt {
    pub src: PeerId,
    pub metric: u8,
    pub steps: Vec<ReceiptStep>,
}

/// The bookkeeping node `self_id` does for the received datagram `data` before
/// [`classify_inbound`] decides on it: none for data that is empty, not an overlay packet,
/// does not parse, or comes from this node or an unspecified peer; for any other packet,
/// whether it is then forwarded, delivered or refused for its protocol number, the steps of
/// [`receipt_steps`] for its sender and hop count.
pub fn inbound_receipt(self_id: &PeerId, data: &[u8]) -> (r: Option<Receipt>)
    ensures
        r is Some <==> (data@.len() > 0 && packet_type_of(data@[0]) is RustP2p && parse_outcome(
            data@,
        ) is Ok && parse_outcome(data@)->Ok_0.0 != self_id.0@ && parse_outcome(data@)->Ok_0.0.len()
            != 0),
        r matches Some(rc) ==> rc.src.0@ == parse_outcome(data@)->Ok_0.0 && rc.metric
            == sat_sub_u8(data@[3], data@[4]) && rc.steps@ == receipt_steps(rc.metric),
{
    if data.len() == 0 {
        return None;
    }
    match classify_packet(data[0]) {
        PacketType::RustP2p(_) => {},
        _ => return None,
    }
    let packet = match Packet::parse(vstd::slice::slice_to_vec(data)) {
        Ok(p) => p,
        Err(_) => return None,
    };
    let src = packet.src();
    if src == *self_id || src.is_unspecified() {
        return None;
    }
    let max_ttl = packet.max_ttl();
    let ttl = packet.ttl();
    let metric = if max_ttl > ttl {
        max_ttl - ttl
    } else {
        0
    };
    let mut steps: Vec<ReceiptStep> = Vec::new();
    steps.push(ReceiptStep::UpdateRouteReadTime);
    steps.push(ReceiptStep::UpsertPeer);
    if metric == 0 {
        steps.push(ReceiptStep::AddCandidate);
    }
    proof {
        if metric == 0 {
            assert(steps@ =~= receipt_steps(metric));
        } else {
            assert(steps@ =~= receipt_steps(metric));
        }
    }
    Some(Receipt { src, metric, steps })
}

/// The big-endian number the eight bytes `b` spell.
pub open spec fn be_u64(b: Seq<u8>) -> u64 {
    ((b[0] as u64) << 56u64) | ((b[1] as u64) << 48u64) | ((b[2] as u64) << 40u64) | ((
    b[3] as u64) << 32u64) | ((b[4] as u64) << 24u64) | ((b[5] as u64) << 16u64) | ((
    b[6] as u64) << 8u64) | (b[7] as u64)
}

/// The big-endian bytes of `v`.
pub open spec fn u64_be_bytes(v: u64) -> Seq<u8> {
    seq![
        (v >> 56u64) as u8,
        (v >> 48u64) as u8,
        (v >> 40u64) as u8,
        (v >> 32u64) as u8,
        (v >> 24u64) as u8,
        (v >> 16u64) as u8,
        (v >> 8u64) as u8,
        v as u8,
    ]
}

/// The payload of an echo request sent at `ts` milliseconds: the timestamp, big-endian.
pub fn echo_request_payload(ts: u64) -> (r: [u8; 8])
    ensures
        r@ == u64_be_bytes(ts),
{
    let r = [
        (ts >> 56u64) as u8,
        (ts >> 48u64) as u8,
        (ts >> 40u64) as u8,
        (ts >> 32u64) as u8,
        (ts >> 24u64) as u8,
        (ts >> 16u64) as u8,
        (ts >> 8u64) as u8,
        #[verifier::truncate] (ts as u8),
    ];
    assert(r@ =~= u64_be_bytes(ts));
    r
}

/// The round-trip time that an echo reply carrying `payload` and received at `now` over a
/// route with hop metric `metric` shows: only over a direct route, from a payload that starts
/// with an eight-byte timestamp earlier than `now` by less than a minute.
pub open spec fn echo_rtt(payload: Seq<u8>, now: u64, metric: u8) -> Option<u32> {
    if metric == 0 && payload.len() >= 8 {
        let sent = be_u64(payload.take(8));
        if now > sent && now - sent < 60_000 {
            Some((now - sent) as u32)
        } else {
            None
        }
    } else {
        None
    }
}

/// See [`echo_rtt`].
pub fn echo_reply_rtt(payload: &[u8], now: u64, metric: u8) -> (r: Option<u32>)
    ensures
        r == echo_rtt(payload@, now, metric),
{
    if metric == 0 && payload.len() >= 8 {
        let sent: u64 = ((payload[0] as u64) << 56u64) | ((payload[1] as u64) << 48u64) | ((
        payload[2] as u64) << 40u64) | ((payload[3] as u64) << 32u64) | ((payload[4] as u64)
            << 24u64) | ((payload[5] as u64) << 16u64) | ((payload[6] as u64) << 8u64) | (
        payload[7] as u64);
        assert(payload@.take(8)[0] == payload@[0] && payload@.take(8)[1] == payload@[1]
            && payload@.take(8)[2] == payload@[2] && payload@.take(8)[3] == payload@[3]
            && payload@.take(8)[4] == payload@[4] && payload@.take(8)[5] == payload@[5]
            && payload@.take(8)[6] == payload@[6] && payload@.take(8)[7] == payload@[7]);
        if now > sent && now - sent < 60_000 {
            return Some((now - sent) as u32);
        }
    }
    None
}

/// An echo request answered over a direct route less than a minute after it was sent shows
/// the time between sending and receiving as round-trip time.
pub proof fn law_echo_round_trip(ts: u64, now: u64)
    requires
        ts < now,
        now - ts < 60_000,
    ensures
        echo_rtt(u64_be_bytes(ts), now, 0) == Some((now - ts) as u32),
{
    let b = u64_be_bytes(ts);
    assert(b.take(8) =~= b);
    assert(be_u64(b) == ts) by {
        let b0 = (ts >> 56u64) as u8;
        let b1 = (ts >> 48u64) as u8;
        let b2 = (ts >> 40u64) as u8;
        let b3 = (ts >> 32u64) as u8;
        let b4 = (ts >> 24u64) as u8;
        let b5 = (ts >> 16u64) as u8;
        let b6 = (ts >> 8u64) as u8;
        let b7 = ts as u8;
        assert(((b0 as u64) << 56u64) | ((b1 as u64) << 48u64) | ((b2 as u64) << 40u64) | ((
        b3 as u64) << 32u64) | ((b4 as u64) << 24u64) | ((b5 as u64) << 16u64) | ((b6 as u64)
            << 8u64) | (b7 as u64) == ts) by (bit_vector)
            requires
                b0 == (ts >> 56u64) as u8,
                b1 == (ts >> 48u64) as u8,
                b2 == (ts >> 40u64) as u8,
                b3 == (ts >> 32u64) as u8,
                b4 == (ts >> 24u64) as u8,
                b5 == (ts >> 16u64) as u8,
                b6 == (ts >> 8u64) as u8,
                b7 == ts as u8,
        ;
    }
}

/// What the maintenance loop does about a known peer in one round of automatic hole
/// punching.
#[derive(Clone, Copy, Debug, PartialEq, Eq, Structural)]
pub enum PunchPlan {
    /// Leave the peer alone this round.
    Skip,
    /// Record the time, send a punch request through the relay and, when `execute`, punch
    /// towards the peer's public address too.
    Punch { execute: bool },
}

/// Whether NAT information names a public address and a public UDP port to punch towards.
pub open spec fn nat_punchable(n: NatInfo) -> bool {
    n.public_ips@.len() > 0 && n.public_udp_ports@.len() > 0
}

/// The plan for a peer: none for this node itself, for a peer that may not be punched, for
/// one with a direct route (metric 0) and for one punched less than ten seconds before `now`
/// (`now` and `last_punch` in seconds); otherwise a punch, executed directly when the peer's
/// NAT information is known and names a public address and port.
pub open spec fn punch_plan(
    is_self: bool,
    punch_allowed: bool,
    route_metric: Option<u8>,
    last_punch: Option<u64>,
    now: u64,
    peer_nat: Option<NatInfo>,
) -> PunchPlan {
    if is_self || !punch_allowed || route_metric == Some(0u8) {
        PunchPlan::Skip
    } else if last_punch matches Some(last) && (if now > last {
        now - last
    } else {
        0
    }) < 10 {
        PunchPlan::Skip
    } else {
        PunchPlan::Punch {
            execute: match peer_nat {
                Some(n) => nat_punchable(n),
                None => false,
            },
        }
    }
}

/// See [`punch_plan`].
pub fn auto_punch_plan(
    is_self: bool,
    punch_allowed: bool,
    route_metric: Option<u8>,
    last_punch: Option<u64>,
    now: u64,
    peer_nat: Option<&NatInfo>,
) -> (r: PunchPlan)
    ensures
        r == punch_plan(
            is_self,
            punch_allowed,
            route_metric,
            last_punch,
            now,
            match peer_nat {
                Some(n) => Some(*n),
                None => None,
            },
        ),
{
    if is_self || !punch_allowed {
        return PunchPlan::Skip;
    }
    if let Some(m) = route_metric {
        if m == 0 {
            return PunchPlan::Skip;
        }
    }
    if let Some(last) = last_punch {
        let elapsed = if now > last {
            now - last
        } else {
            0
        };
        if elapsed < 10 {
            return PunchPlan::Skip;
        }
    }
    let execute = match peer_nat {
        Some(n) => n.public_ips.len() > 0 && n.public_udp_ports.len() > 0,
        None => false,
    };
    PunchPlan::Punch { execute }
}

/// A peer is punched at most once every ten seconds: after a punch recorded at `last`, every
/// round before `last + 10` skips it.
pub proof fn law_punch_rate_limit(
    punch_allowed: bool,
    route_metric: Option<u8>,
    last: u64,
    now: u64,
    peer_nat: Option<NatInfo>,
)
    requires
        now < last + 10,
    ensures
        punch_plan(false, punch_allowed, route_metric, Some(last), now, peer_nat) == PunchPlan::Skip,
{
}

/// Who is punched in a maintenance round: never this node, a peer that may not be punched or
/// one with a direct route; a peer punched less than ten seconds before is skipped; any other
/// peer is punched, directly exactly when its NAT information names a public address and a
/// public UDP port.
pub proof fn law_punch_plan(
    is_self: bool,
    punch_allowed: bool,
    route_metric: Option<u8>,
    last_punch: Option<u64>,
    now: u64,
    peer_nat: Option<NatInfo>,
)
    ensures
        ({
            let plan = punch_plan(is_self, punch_allowed, route_metric, last_punch, now, peer_nat);
            &&& is_self || !punch_allowed || route_metric == Some(0u8) ==> plan == PunchPlan::Skip
            &&& (last_punch matches Some(l) && now < l + 10) ==> plan == PunchPlan::Skip
            &&& !is_self && punch_allowed && route_metric != Some(0u8) && !(last_punch matches Some(
                l,
            ) && now < l + 10) ==> plan == (PunchPlan::Punch {
                execute: peer_nat matches Some(n) && n.public_ips@.len() > 0
                    && n.public_udp_ports@.len() > 0,
            })
        }),
{
}

/// The bookkeeping for a received packet always refreshes the route's read time and the
/// sender's record, and makes the route a candidate exactly when the packet came directly.
pub proof fn law_receipt_steps(metric: u8)
    ensures
        receipt_steps(metric).contains(ReceiptStep::UpdateRouteReadTime),
        receipt_steps(metric).contains(ReceiptStep::UpsertPeer),
        receipt_steps(metric).contains(ReceiptStep::AddCandidate) <==> metric == 0,
{
    let s = receipt_steps(metric);
    assert(s[0] == ReceiptStep::UpdateRouteReadTime);
    assert(s[1] == ReceiptStep::UpsertPeer);
    if metric == 0 {
        assert(s[2] == ReceiptStep::AddCandidate);
    } else {
        assert forall|i: int| 0 <= i < s.len() implies s[i] != ReceiptStep::AddCandidate by {}
    }
}

/// Whether `ids` holds the identifier `id`.
pub open spec fn holds_peer(ids: Seq<PeerId>, id: PeerId) -> bool {
    exists|i: int| 0 <= i < ids.len() && ids[i].0@ == id.0@
}

fn contains_peer(ids: &Vec<PeerId>, id: &PeerId) -> (r: bool)
    ensures
        r == holds_peer(ids@, *id),
{
    let mut i: usize = 0;
    while i < ids.len()
        invariant
            i <= ids@.len(),
            forall|j: int| 0 <= j < i ==> ids@[j].0@ != id.0@,
        decreases ids@.len() - i,
    {
        if ids[i] == *id {
            return true;
        }
        i = i + 1;
    }
    false
}

/// Whether `peer_id` may be hole-punched: every peer when there is no whitelist, else the
/// peers on it.
pub fn punch_allowed(whitelist: &Option<Vec<PeerId>>, peer_id: &PeerId) -> (r: bool)
    ensures
        r == match whitelist {
            None => true,
            Some(ids) => holds_peer(ids@, *peer_id),
        },
{
    match whitelist {
        None => true,
        Some(ids) => contains_peer(ids, peer_id),
    }
}

/// Whether `peer_id` may report our public address: any direct peer when no observers are
/// named, else the named ones.
pub fn should_observe_with(observers: &Vec<PeerId>, peer_id: &PeerId) -> (r: bool)
    ensures
        r == (observers@.len() == 0 || holds_peer(observers@, *peer_id)),
{
    observers.len() == 0 || contains_peer(observers, peer_id)
}

/// Where QUIC ciphertext for a peer is sent.
#[derive(Clone, Copy, Debug, PartialEq, Eq)]
pub enum QuicPath<R> {
    /// Straight over this route.
    Route(R),
    /// Through the route table by peer id (a relayed route).
    Peer,
    /// Nowhere: no route to the peer is known.
    NotFound,
}

/// The path for QUIC ciphertext to a peer, given its best confirmed route with hop metric
/// (`confirmed`) and an unconfirmed direct candidate (`candidate`): a confirmed direct route
/// is used as it is, a confirmed relayed route through the route table; without a confirmed
/// route the candidate is used, and without either the peer cannot be reached.
pub fn quic_path<R>(confirmed: Option<(R, u8)>, candidate: Option<R>) -> (r: QuicPath<R>)
    ensures
        r == match confirmed {
            Some((route, metric)) => if metric == 0 {
                QuicPath::Route(route)
            } else {
                QuicPath::Peer
            },
            None => match candidate {
                Some(c) => QuicPath::Route(c),
                None => QuicPath::NotFound,
            },
        },
{
    match confirmed {
        Some((route, metric)) => if metric == 0 {
            QuicPath::Route(route)
        } else {
            QuicPath::Peer
        },
        None => match candidate {
            Some(c) => QuicPath::Route(c),
            None => QuicPath::NotFound,
        },
    }
}

/// The route and hop metric that QUIC metadata uses for a peer: the best confirmed route, else
/// an unconfirmed direct candidate at metric 0, else none.
pub fn route_metric_or_candidate<R>(confirmed: Option<(R, u8)>, candidate: Option<R>) -> (r: Option<
    (R, u8),
>)
    ensures
        r == match confirmed {
            Some(x) => Some(x),
            None => match candidate {
                Some(c) => Some((c, 0u8)),
                None => None,
            },
        },
{
    match confirmed {
        Some(x) => Some(x),
        None => match candidate {
            Some(c) => Some((c, 0)),
            None => None,
        },
    }
}

/// One step of handling an overlay packet delivered to this node.
#[derive(Clone, Copy, Debug, PartialEq, Eq, Structural)]
pub enum InboundAction {
    /// Confirm the route the packet came over as a direct route to its sender and promote it.
    ConfirmDirect,
    /// Confirm the route as a direct route if it is a TCP route: a TCP connection already
    /// proves that both sides reach each other.
    ConfirmTcp,
    /// Confirm the route as a relay route towards the sender.
    ConfirmRelay,
    /// Record what the payload tells of the sender without confirming any route.
    UpsertPeer,
    /// Send a packet of this protocol back over the same route.
    Reply(ProtocolType),
    /// Take in the peers and routes the payload advertises.
    IngestRoutes,
    /// Hand the payload, QUIC ciphertext, to the QUIC endpoint.
    InjectQuic,
    /// Store the NAT information the payload carries for its peer.
    StoreNat,
    /// Apply the observation of our address that the payload carries to our NAT information.
    ApplyObservation,
    /// Keep the route as an unconfirmed direct candidate for the sender.
    AddCandidate,
    /// Try to punch a hole towards the sender.
    TryPunch,
    /// Tell those waiting on a bootstrap hello which peer answered.
    NotifyHello,
    /// Measure the round-trip time from the echoed timestamp.
    MeasureRtt,
}

/// `seq![a]` when `b`, else nothing.
pub open spec fn action_if(b: bool, a: InboundAction) -> Seq<InboundAction> {
    if b {
        seq![a]
    } else {
        Seq::empty()
    }
}

/// The steps for a packet of protocol `protocol` delivered to this node `metric` hops from its
/// sender, in order. `pending_hello`: the route carried a hello request of ours still waiting
/// for its reply; `has_direct_route`: a direct route to the punching peer is confirmed already;
/// `punch_allowed`: the punching peer may be punched; `pending_punch_src_matches`: the punch
/// reply answers a punch request of ours sent to its sender; `observe_route_known`: the route
/// is a confirmed or candidate direct route of the sender (for an observation reply: or one a
/// pending observation request went over); `observation_accepted`: the observation comes from
/// its sender, a peer we accept observations from.
///
/// A hello request confirms a direct route and is answered; a hello reply stores the peer's NAT
/// information, applies its observation when direct, confirms the route when it answers our
/// pending direct hello and otherwise only records the peer, then wakes waiting callers and
/// takes in the routes. Route queries confirm a relay route and are answered; route replies
/// confirm a TCP or relay route and are taken in. QUIC ciphertext goes to QUIC. Punch messages
/// store the peer's NAT information; a direct punch request confirms a direct route if there is
/// none and keeps the route as candidate; an allowed punch request is tried and answered; a
/// direct punch reply to our own pending request confirms a direct route if there is none; an
/// allowed punch reply is tried. Echo and timestamp requests confirm a TCP route and are
/// answered; a direct echo reply gives a round-trip time. Observation requests over known
/// direct routes are answered; accepted observation replies are applied and, when direct,
/// confirm the route. The rest needs nothing.
pub open spec fn spec_protocol_actions(
    protocol: ProtocolType,
    metric: u8,
    pending_hello: bool,
    has_direct_route: bool,
    punch_allowed: bool,
    pending_punch_src_matches: bool,
    observe_route_known: bool,
    observation_accepted: bool,
) -> Seq<InboundAction> {
    let direct = metric == 0;
    match protocol {
        ProtocolType::HelloRequest => action_if(direct, InboundAction::ConfirmDirect) + seq![
            InboundAction::Reply(ProtocolType::HelloReply),
        ],
        ProtocolType::HelloReply => seq![InboundAction::StoreNat] + action_if(
            direct,
            InboundAction::ApplyObservation,
        ) + seq![
            if direct && pending_hello {
                InboundAction::ConfirmDirect
            } else {
                InboundAction::UpsertPeer
            },
            InboundAction::NotifyHello,
            InboundAction::IngestRoutes,
        ],
        ProtocolType::IDRouteQuery => action_if(!direct, InboundAction::ConfirmRelay) + seq![
            InboundAction::Reply(ProtocolType::IDRouteReply),
        ],
        ProtocolType::IDRouteReply => seq![
            if direct {
                InboundAction::ConfirmTcp
            } else {
                InboundAction::ConfirmRelay
            },
            InboundAction::IngestRoutes,
        ],
        ProtocolType::QuicRelay => seq![InboundAction::InjectQuic],
        ProtocolType::PunchConsultRequest => seq![InboundAction::StoreNat] + action_if(
            punch_allowed,
            InboundAction::Reply(ProtocolType::PunchConsultReply),
        ),
        ProtocolType::PunchConsultReply => seq![InboundAction::StoreNat],
        ProtocolType::PunchRequest => seq![InboundAction::StoreNat] + action_if(
            direct && !has_direct_route,
            InboundAction::ConfirmDirect,
        ) + action_if(direct, InboundAction::AddCandidate) + (if punch_allowed {
            seq![InboundAction::TryPunch, InboundAction::Reply(ProtocolType::PunchReply)]
        } else {
            Seq::empty()
        }),
        ProtocolType::PunchReply => seq![InboundAction::StoreNat] + action_if(
            pending_punch_src_matches && direct && !has_direct_route,
            InboundAction::ConfirmDirect,
        ) + action_if(punch_allowed, InboundAction::TryPunch),
        ProtocolType::EchoRequest => action_if(direct, InboundAction::ConfirmTcp) + seq![
            InboundAction::Reply(ProtocolType::EchoReply),
        ],
        ProtocolType::EchoReply => action_if(direct, InboundAction::MeasureRtt),
        ProtocolType::TimestampRequest => action_if(direct, InboundAction::ConfirmTcp) + seq![
            InboundAction::Reply(ProtocolType::TimestampReply),
        ],
        ProtocolType::NatObserveRequest => action_if(
            observe_route_known,
            InboundAction::Reply(ProtocolType::NatObserveReply),
        ),
        ProtocolType::NatObserveReply => if observe_route_known && observation_accepted {
            seq![InboundAction::ApplyObservation] + action_if(direct, InboundAction::ConfirmDirect)
        } else {
            Seq::empty()
        },
        _ => Seq::empty(),
    }
}

fn push_if(v: &mut Vec<InboundAction>, b: bool, a: InboundAction)
    ensures
        final(v)@ == old(v)@ + action_if(b, a),
{
    if b {
        v.push(a);
        assert(v@ =~= old(v)@ + action_if(b, a));
    } else {
        assert(old(v)@ + action_if(b, a) =~= old(v)@);
    }
}

/// The steps for a delivered packet; see [`spec_protocol_actions`].
pub fn protocol_actions(
    protocol: ProtocolType,
    metric: u8,
    pending_hello: bool,
    has_direct_route: bool,
    punch_allowed: bool,
    pending_punch_src_matches: bool,
    observe_route_known: bool,
    observation_accepted: bool,
) -> (r: Vec<InboundAction>)
    ensures
        r@ == spec_protocol_actions(
            protocol,
            metric,
            pending_hello,
            has_direct_route,
            punch_allowed,
            pending_punch_src_matches,
            observe_route_known,
            observation_accepted,
        ),
{
    let direct = metric == 0;
    let mut v: Vec<InboundAction> = Vec::new();
    match protocol {
        ProtocolType::HelloRequest => {
            push_if(&mut v, direct, InboundAction::ConfirmDirect);
            v.push(InboundAction::Reply(ProtocolType::HelloReply));
        },
        ProtocolType::HelloReply => {
            v.push(InboundAction::StoreNat);
            push_if(&mut v, direct, InboundAction::ApplyObservation);
            if direct && pending_hello {
                v.push(InboundAction::ConfirmDirect);
            } else {
                v.push(InboundAction::UpsertPeer);
            }
            v.push(InboundAction::NotifyHello);
            v.push(InboundAction::IngestRoutes);
        },
        ProtocolType::IDRouteQuery => {
            push_if(&mut v, !direct, InboundAction::ConfirmRelay);
            v.push(InboundAction::Reply(ProtocolType::IDRouteReply));
        },
        ProtocolType::IDRouteReply => {
            if direct {
                v.push(InboundAction::ConfirmTcp);
            } else {
                v.push(InboundAction::ConfirmRelay);
            }
            v.push(InboundAction::IngestRoutes);
        },
        ProtocolType::QuicRelay => {
            v.push(InboundAction::InjectQuic);
        },
        ProtocolType::PunchConsultRequest => {
            v.push(InboundAction::StoreNat);
            push_if(&mut v, punch_allowed, InboundAction::Reply(ProtocolType::PunchConsultReply));
        },
        ProtocolType::PunchConsultReply => {
            v.push(InboundAction::StoreNat);
        },
        ProtocolType::PunchRequest => {
            v.push(InboundAction::StoreNat);
            push_if(&mut v, direct && !has_direct_route, InboundAction::ConfirmDirect);
            push_if(&mut v, direct, InboundAction::AddCandidate);
            if punch_allowed {
                v.push(InboundAction::TryPunch);
                v.push(InboundAction::Reply(ProtocolType::PunchReply));
            }
        },
        ProtocolType::PunchReply => {
            v.push(InboundAction::StoreNat);
            push_if(
                &mut v,
                pending_punch_src_matches && direct && !has_direct_route,
                InboundAction::ConfirmDirect,
            );
            push_if(&mut v, punch_allowed, InboundAction::TryPunch);
        },
        ProtocolType::EchoRequest => {
            push_if(&mut v, direct, InboundAction::ConfirmTcp);
            v.push(InboundAction::Reply(ProtocolType::EchoReply));
        },
        ProtocolType::EchoReply => {
            push_if(&mut v, direct, InboundAction::MeasureRtt);
        },
        ProtocolType::TimestampRequest => {
            push_if(&mut v, direct, InboundAction::ConfirmTcp);
            v.push(InboundAction::Reply(ProtocolType::TimestampReply));
        },
        ProtocolType::NatObserveRequest => {
            push_if(&mut v, observe_route_known, InboundAction::Reply(ProtocolType::NatObserveReply));
        },
        ProtocolType::NatObserveReply => {
            if observe_route_known && observation_accepted {
                v.push(InboundAction::ApplyObservation);
                push_if(&mut v, direct, InboundAction::ConfirmDirect);
            }
        },
        _ => {},
    }
    assert(v@ =~= spec_protocol_actions(
        protocol,
        metric,
        pending_hello,
        has_direct_route,
        punch_allowed,
        pending_punch_src_matches,
        observe_route_known,
        observation_accepted,
    ));
    v
}

/// The reply kind that answers the request kind `p`; none for a kind that is no request.
pub open spec fn reply_kind(p: ProtocolType) -> Option<ProtocolType> {
    match p {
        ProtocolType::HelloRequest => Some(ProtocolType::HelloReply),
        ProtocolType::IDRouteQuery => Some(ProtocolType::IDRouteReply),
        ProtocolType::EchoRequest => Some(ProtocolType::EchoReply),
        ProtocolType::TimestampRequest => Some(ProtocolType::TimestampReply),
        ProtocolType::PunchRequest => Some(ProtocolType::PunchReply),
        ProtocolType::PunchConsultRequest => Some(ProtocolType::PunchConsultReply),
        ProtocolType::NatObserveRequest => Some(ProtocolType::NatObserveReply),
        _ => None,
    }
}

/// Whether the protocol steps `acts` send a reply of kind `q`.
pub open spec fn replies_with(acts: Seq<InboundAction>, q: ProtocolType) -> bool {
    exists|i: int| 0 <= i < acts.len() && acts[i] == InboundAction::Reply(q)
}

/// Each request is answered with its own reply kind, and only requests are answered: hello,
/// route, echo and timestamp requests always; punch and punch-consult requests exactly when
/// punching the sender is allowed; a NAT-observe request exactly when the route it came on is
/// known.
#[verifier::spinoff_prover]
#[verifier::rlimit(60)]
pub proof fn law_requests_get_their_own_reply(
    protocol: ProtocolType,
    metric: u8,
    pending_hello: bool,
    has_direct_route: bool,
    punch_allowed: bool,
    pending_punch_src_matches: bool,
    observe_route_known: bool,
    observation_accepted: bool,
    q: ProtocolType,
)
    ensures
        ({
            let acts = spec_protocol_actions(
                protocol,
                metric,
                pending_hello,
                has_direct_route,
                punch_allowed,
                pending_punch_src_matches,
                observe_route_known,
                observation_accepted,
            );
            &&& replies_with(acts, q) ==> reply_kind(protocol) == Some(q)
            &&& (protocol == ProtocolType::HelloRequest || protocol == ProtocolType::IDRouteQuery
                || protocol == ProtocolType::EchoRequest || protocol
                == ProtocolType::TimestampRequest) ==> replies_with(acts, reply_kind(protocol)->0)
            &&& (protocol == ProtocolType::PunchRequest || protocol
                == ProtocolType::PunchConsultRequest) ==> (replies_with(
                acts,
                reply_kind(protocol)->0,
            ) <==> punch_allowed)
            &&& protocol == ProtocolType::NatObserveRequest ==> (replies_with(
                acts,
                reply_kind(protocol)->0,
            ) <==> observe_route_known)
        }),
{
    let acts = spec_protocol_actions(
        protocol,
        metric,
        pending_hello,
        has_direct_route,
        punch_allowed,
        pending_punch_src_matches,
        observe_route_known,
        observation_accepted,
    );
    if replies_with(acts, q) {
        let i = choose|i: int| 0 <= i < acts.len() && acts[i] == InboundAction::Reply(q);
        assert(acts[i] == InboundAction::Reply(q));
    }
    let k = acts.len() - 1;
    match protocol {
        ProtocolType::HelloRequest => {
            assert(acts[k] == InboundAction::Reply(ProtocolType::HelloReply));
        },
        ProtocolType::IDRouteQuery => {
            assert(acts[k] == InboundAction::Reply(ProtocolType::IDRouteReply));
        },
        ProtocolType::EchoRequest => {
            assert(acts[k] == InboundAction::Reply(ProtocolType::EchoReply));
        },
        ProtocolType::TimestampRequest => {
            assert(acts[k] == InboundAction::Reply(ProtocolType::TimestampReply));
        },
        ProtocolType::PunchRequest => {
            if punch_allowed {
                assert(acts[k] == InboundAction::Reply(ProtocolType::PunchReply));
            }
        },
        ProtocolType::PunchConsultRequest => {
            if punch_allowed {
                assert(acts[k] == InboundAction::Reply(ProtocolType::PunchConsultReply));
            }
        },
        ProtocolType::NatObserveRequest => {
            if observe_route_known {
                assert(acts[0] == InboundAction::Reply(ProtocolType::NatObserveReply));
            }
        },
        _ => {},
    }
}

/// Only a packet that came straight from its sender confirms a direct route, and only one
/// that came through relays confirms a relay route.
#[verifier::spinoff_prover]
#[verifier::rlimit(40)]
pub proof fn law_route_confirmation_follows_metric(
    protocol: ProtocolType,
    metric: u8,
    pending_hello: bool,
    has_direct_route: bool,
    punch_allowed: bool,
    pending_punch_src_matches: bool,
    observe_route_known: bool,
    observation_accepted: bool,
)
    ensures
        ({
            let acts = spec_protocol_actions(
                protocol,
                metric,
                pending_hello,
                has_direct_route,
                punch_allowed,
                pending_punch_src_matches,
                observe_route_known,
                observation_accepted,
            );
            &&& (acts.contains(InboundAction::ConfirmDirect) || acts.contains(
                InboundAction::ConfirmTcp,
            )) ==> metric == 0
            &&& acts.contains(InboundAction::ConfirmRelay) ==> metric > 0
        }),
{
    let acts = spec_protocol_actions(
        protocol,
        metric,
        pending_hello,
        has_direct_route,
        punch_allowed,
        pending_punch_src_matches,
        observe_route_known,
        observation_accepted,
    );
    if metric != 0 {
        assert forall|i: int| 0 <= i < acts.len() implies acts[i] != InboundAction::ConfirmDirect
            && acts[i] != InboundAction::ConfirmTcp by {}
    } else {
        assert forall|i: int| 0 <= i < acts.len() implies acts[i] != InboundAction::ConfirmRelay by {}
    }
}

/// What happens to a punch that is tried towards a peer.
#[derive(Clone, Copy, Debug, PartialEq, Eq, Structural)]
pub enum PunchExecution {
    /// Nothing: a direct route exists, or a relayed punch came too soon after the last.
    Skip,
    /// Punch; when `record_time`, remember now as the peer's last punch time.
    Execute { record_time: bool },
}

/// Whether a punch towards a peer `metric` hops away is carried out at `now` (seconds), given
/// whether a direct route to it exists and when it was last punched: never with a direct
/// route; a punch that arrived relayed waits five seconds after the last and records its time;
/// one that arrived directly always goes ahead.
pub open spec fn punch_execution(has_direct_route: bool, metric: u8, last_punch: Option<u64>, now: u64) -> PunchExecution {
    if has_direct_route {
        PunchExecution::Skip
    } else if metric > 0 && (last_punch matches Some(last) && (if now > last {
        now - last
    } else {
        0
    }) < 5) {
        PunchExecution::Skip
    } else {
        PunchExecution::Execute { record_time: metric > 0 }
    }
}

/// Carrying out a punch: with a direct route it is skipped; otherwise a relayed punch is
/// held back exactly when a punch was recorded less than five seconds before `now`, and goes
/// ahead recording its time otherwise; a direct punch always goes ahead without recording.
pub proof fn law_punch_execution(has_direct_route: bool, metric: u8, last_punch: Option<u64>, now: u64)
    ensures
        has_direct_route ==> punch_execution(has_direct_route, metric, last_punch, now)
            == PunchExecution::Skip,
        !has_direct_route && metric == 0 ==> punch_execution(
            has_direct_route,
            metric,
            last_punch,
            now,
        ) == (PunchExecution::Execute { record_time: false }),
        !has_direct_route && last_punch is None ==> punch_execution(
            has_direct_route,
            metric,
            last_punch,
            now,
        ) == (PunchExecution::Execute { record_time: metric > 0 }),
        !has_direct_route && metric > 0 ==> (punch_execution(
            has_direct_route,
            metric,
            last_punch,
            now,
        ) == PunchExecution::Skip <==> (last_punch matches Some(l) && now < l + 5)),
        !has_direct_route && metric > 0 && !(last_punch matches Some(l) && now < l + 5)
            ==> punch_execution(has_direct_route, metric, last_punch, now) == (
        PunchExecution::Execute { record_time: true }),
{
}

/// See [`punch_execution`].
pub fn punch_execution_plan(has_direct_route: bool, metric: u8, last_punch: Option<u64>, now: u64) -> (r:
    PunchExecution)
    ensures
        r == punch_execution(has_direct_route, metric, last_punch, now),
{
    if has_direct_route {
        return PunchExecution::Skip;
    }
    if metric > 0 {
        if let Some(last) = last_punch {
            let elapsed = if now > last {
                now - last
            } else {
                0
            };
            if elapsed < 5 {
                return PunchExecution::Skip;
            }
        }
    }
    PunchExecution::Execute { record_time: metric > 0 }
}

fn push_port_once(v: &mut Vec<u16>, x: u16)
    ensures
        final(v)@ == add_unique(old(v)@, x),
{
    let mut i: usize = 0;
    while i < v.len()
        invariant
            i <= v@.len(),
            forall|j: int| 0 <= j < i ==> v@[j] != x,
        decreases v@.len() - i,
    {
        if v[i] == x {
            assert(v@[i as int] == x);
            return;
        }
        i = i + 1;
    }
    v.push(x);
}

fn push_ip_once(v: &mut Vec<Ipv4Addr>, x: Ipv4Addr)
    ensures
        final(v)@ == add_unique(old(v)@, x),
{
    let mut i: usize = 0;
    while i < v.len()
        invariant
            i <= v@.len(),
            forall|j: int| 0 <= j < i ==> v@[j] != x,
        decreases v@.len() - i,
    {
        if v[i] == x {
            assert(v@[i as int] == x);
            return;
        }
        i = i + 1;
    }
    v.push(x);
}

/// The NAT information to punch towards for a peer whose punch arrived `metric` hops away over
/// a route from `route_addr`: over a direct IPv4 route, that address and port join the peer's
/// public addresses and ports unless there already, as the freshest mapping; otherwise it is
/// left as it is.
pub fn nat_for_punch(info: NatInfo, route_addr: SocketAddr, metric: u8) -> (r: NatInfo)
    ensures
        metric == 0 && route_addr.ip is V4 ==> r.public_ips@ == add_unique(
            info.public_ips@,
            route_addr.ip->V4_0,
        ) && r.public_udp_ports@ == add_unique(info.public_udp_ports@, route_addr.port),
        !(metric == 0 && route_addr.ip is V4) ==> r.public_ips@ == info.public_ips@
            && r.public_udp_ports@ == info.public_udp_ports@,
        r.nat_type == info.nat_type,
        r.mapping_tcp_addr@ == info.mapping_tcp_addr@,
        r.mapping_udp_addr@ == info.mapping_udp_addr@,
        r.public_port_range == info.public_port_range,
        r.local_ipv4 == info.local_ipv4,
        r.local_ipv4s@ == info.local_ipv4s@,
        r.ipv6 == info.ipv6,
        r.local_udp_ports@ == info.local_udp_ports@,
        r.local_tcp_port == info.local_tcp_port,
        r.public_tcp_port == info.public_tcp_port,
        r.stun_mapped_ports@ == info.stun_mapped_ports@,
{
    let mut n = info;
    if metric == 0 {
        if let IpAddr::V4(ip) = route_addr.ip {
            push_ip_once(&mut n.public_ips, ip);
            push_port_once(&mut n.public_udp_ports, route_addr.port);
        }
    }
    n
}

} // verus!
