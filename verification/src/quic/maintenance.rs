use vstd::prelude::*;
use crate::quic::dispatch::{PunchPlan, auto_punch_plan, holds_peer, punch_allowed, punch_plan};
use crate::quic::nat_info::NatInfo;
use crate::quic::peer_id::PeerId;

verus! {

/// What the maintenance loop knows of a peer at a tick: its id, the metric of its confirmed
/// route if it has one, and its NAT information if it is known.
pub struct KnownPeer {
    pub peer_id: PeerId,
    pub route_metric: Option<u8>,
    pub nat: Option<NatInfo>,
}

/// The time (in seconds) of the last punch recorded for `id` in `times`; the latest entry
/// for an id counts.
pub open spec fn last_punch_of(times: Seq<(PeerId, u64)>, id: Seq<char>) -> Option<u64>
    decreases times.len(),
{
    if times.len() == 0 {
        None
    } else if times.last().0.0@ == id {
        Some(times.last().1)
    } else {
        last_punch_of(times.drop_last(), id)
    }
}

/// `times` without the entries for `id`.
pub open spec fn without_peer(times: Seq<(PeerId, u64)>, id: Seq<char>) -> Seq<(PeerId, u64)>
    decreases times.len(),
{
    if times.len() == 0 {
        times
    } else {
        let rest = without_peer(times.drop_last(), id);
        if times.last().0.0@ == id {
            rest
        } else {
            rest.push(times.last())
        }
    }
}

/// `times` with the punch of `p` at `t` recorded in place of any earlier one.
pub open spec fn recorded(times: Seq<(PeerId, u64)>, p: PeerId, t: u64) -> Seq<(PeerId, u64)> {
    without_peer(times, p.0@).push((p, t))
}

/// Whether a whitelist (`None`: every peer) lets `id` be punched.
pub open spec fn allowed_by(whitelist: Option<Vec<PeerId>>, id: PeerId) -> bool {
    match whitelist {
        None => true,
        Some(ids) => holds_peer(ids@, id),
    }
}

/// The punches of one tick and the punch times after it: the known `peers` are taken in
/// order, each planned by [`punch_plan`] against the times recorded so far, and each punch
/// records `now` for its peer.
pub open spec fn punch_round(
    self_id: Seq<char>,
    whitelist: Option<Vec<PeerId>>,
    peers: Seq<KnownPeer>,
    times: Seq<(PeerId, u64)>,
    now: u64,
) -> (Seq<(PeerId, bool)>, Seq<(PeerId, u64)>)
    decreases peers.len(),
{
    if peers.len() == 0 {
        (Seq::empty(), times)
    } else {
        let prev = punch_round(self_id, whitelist, peers.drop_last(), times, now);
        let p = peers.last();
        match punch_plan(
            p.peer_id.0@ == self_id,
            allowed_by(whitelist, p.peer_id),
            p.route_metric,
            last_punch_of(prev.1, p.peer_id.0@),
            now,
            p.nat,
        ) {
            PunchPlan::Skip => prev,
            PunchPlan::Punch { execute } => (
                prev.0.push((p.peer_id, execute)),
                recorded(prev.1, p.peer_id, now),
            ),
        }
    }
}

/// The peers a tick queries for routes: every known peer but this node, in order.
pub open spec fn query_targets(self_id: Seq<char>, peers: Seq<KnownPeer>) -> Seq<PeerId>
    decreases peers.len(),
{
    if peers.len() == 0 {
        Seq::empty()
    } else {
        let rest = query_targets(self_id, peers.drop_last());
        if peers.last().peer_id.0@ == self_id {
            rest
        } else {
            rest.push(peers.last().peer_id)
        }
    }
}

/// The route candidates a tick probes with a hello: those of other peers whose route is not
/// confirmed yet (the flag of each candidate), in order.
pub open spec fn probe_targets<R>(self_id: Seq<char>, candidates: Seq<(PeerId, R, bool)>) -> Seq<
    (PeerId, R),
>
    decreases candidates.len(),
{
    if candidates.len() == 0 {
        Seq::empty()
    } else {
        let rest = probe_targets(self_id, candidates.drop_last());
        let c = candidates.last();
        if c.0.0@ == self_id || c.2 {
            rest
        } else {
            rest.push((c.0, c.1))
        }
    }
}

/// Whether `id` is among the punched peers.
pub open spec fn punched(punches: Seq<(PeerId, bool)>, id: Seq<char>) -> bool {
    exists|i: int| 0 <= i < punches.len() && punches[i].0.0@ == id
}

/// The last punch time recorded for `id`.
pub fn last_punch_time(times: &Vec<(PeerId, u64)>, id: &PeerId) -> (r: Option<u64>)
    ensures
        r == last_punch_of(times@, id.0@),
{
    let mut found: Option<u64> = None;
    let mut i: usize = 0;
    while i < times.len()
        invariant
            i <= times@.len(),
            found == last_punch_of(times@.subrange(0, i as int), id.0@),
        decreases times@.len() - i,
    {
        proof {
            assert(times@.subrange(0, i + 1).drop_last() =~= times@.subrange(0, i as int));
        }
        if times[i].0 == *id {
            found = Some(times[i].1);
        }
        i = i + 1;
    }
    proof {
        assert(times@.subrange(0, times@.len() as int) =~= times@);
    }
    found
}

/// `times` with a punch of `id` at `t` recorded; see [`recorded`].
pub fn record_punch(times: &Vec<(PeerId, u64)>, id: &PeerId, t: u64) -> (r: Vec<(PeerId, u64)>)
    ensures
        r@ == recorded(times@, *id, t),
{
    let mut out: Vec<(PeerId, u64)> = Vec::new();
    let mut i: usize = 0;
    while i < times.len()
        invariant
            i <= times@.len(),
            out@ == without_peer(times@.subrange(0, i as int), id.0@),
        decreases times@.len() - i,
    {
        proof {
            assert(times@.subrange(0, i + 1).drop_last() =~= times@.subrange(0, i as int));
        }
        if !(times[i].0 == *id) {
            out.push((times[i].0.duplicate(), times[i].1));
        }
        i = i + 1;
    }
    proof {
        assert(times@.subrange(0, times@.len() as int) =~= times@);
    }
    out.push((id.duplicate(), t));
    out
}

/// The punches of one tick and the punch times after it; see [`punch_round`].
pub fn punch_round_plan(
    self_id: &PeerId,
    whitelist: &Option<Vec<PeerId>>,
    peers: &Vec<KnownPeer>,
    times: Vec<(PeerId, u64)>,
    now: u64,
) -> (r: (Vec<(PeerId, bool)>, Vec<(PeerId, u64)>))
    ensures
        (r.0@, r.1@) == punch_round(self_id.0@, *whitelist, peers@, times@, now),
{
    let ghost t0 = times@;
    let mut punches: Vec<(PeerId, bool)> = Vec::new();
    let mut t = times;
    let mut i: usize = 0;
    proof {
        assert(peers@.subrange(0, 0) =~= Seq::<KnownPeer>::empty());
    }
    while i < peers.len()
        invariant
            i <= peers@.len(),
            (punches@, t@) == punch_round(
                self_id.0@,
                *whitelist,
                peers@.subrange(0, i as int),
                t0,
                now,
            ),
        decreases peers@.len() - i,
    {
        proof {
            assert(peers@.subrange(0, i + 1).drop_last() =~= peers@.subrange(0, i as int));
        }
        let p = &peers[i];
        let last = last_punch_time(&t, &p.peer_id);
        let allowed = punch_allowed(whitelist, &p.peer_id);
        let plan = auto_punch_plan(
            p.peer_id == *self_id,
            allowed,
            p.route_metric,
            last,
            now,
            p.nat.as_ref(),
        );
        match plan {
            PunchPlan::Skip => {},
            PunchPlan::Punch { execute } => {
                punches.push((p.peer_id.duplicate(), execute));
                t = record_punch(&t, &p.peer_id, now);
            },
        }
        i = i + 1;
    }
    proof {
        assert(peers@.subrange(0, peers@.len() as int) =~= peers@);
    }
    (punches, t)
}

/// The peers to query for routes; see [`query_targets`].
pub fn route_query_targets(self_id: &PeerId, peers: &Vec<KnownPeer>) -> (r: Vec<PeerId>)
    ensures
        r@ == query_targets(self_id.0@, peers@),
{
    let mut out: Vec<PeerId> = Vec::new();
    let mut i: usize = 0;
    while i < peers.len()
        invariant
            i <= peers@.len(),
            out@ == query_targets(self_id.0@, peers@.subrange(0, i as int)),
        decreases peers@.len() - i,
    {
        proof {
            assert(peers@.subrange(0, i + 1).drop_last() =~= peers@.subrange(0, i as int));
        }
        if !(peers[i].peer_id == *self_id) {
            out.push(peers[i].peer_id.duplicate());
        }
        i = i + 1;
    }
    proof {
        assert(peers@.subrange(0, peers@.len() as int) =~= peers@);
    }
    out
}

/// The candidates to probe with a hello; see [`probe_targets`].
pub fn hello_probe_targets<R: Copy>(self_id: &PeerId, candidates: &Vec<(PeerId, R, bool)>) -> (r: Vec<
    (PeerId, R),
>)
    ensures
        r@ == probe_targets(self_id.0@, candidates@),
{
    let mut out: Vec<(PeerId, R)> = Vec::new();
    let mut i: usize = 0;
    while i < candidates.len()
        invariant
            i <= candidates@.len(),
            out@ == probe_targets(self_id.0@, candidates@.subrange(0, i as int)),
        decreases candidates@.len() - i,
    {
        proof {
            assert(candidates@.subrange(0, i + 1).drop_last() =~= candidates@.subrange(
                0,
                i as int,
            ));
        }
        let c = &candidates[i];
        if !(c.0 == *self_id) && !c.2 {
            out.push((c.0.duplicate(), c.1));
        }
        i = i + 1;
    }
    proof {
        assert(candidates@.subrange(0, candidates@.len() as int) =~= candidates@);
    }
    out
}

/// What one tick of the maintenance loop sends: route queries, hello probes (each to record
/// as a pending hello on its route) and punches (each with whether to punch directly too).
pub struct TickPlan<R> {
    pub route_queries: Vec<PeerId>,
    pub hello_probes: Vec<(PeerId, R)>,
    pub punches: Vec<(PeerId, bool)>,
}

/// One tick of the maintenance loop of node `self_id` at `now` (seconds): once the layer is
/// `closed` the loop ends, with nothing sent and the punch times unchanged; otherwise the
/// known peers are queried for routes, the unconfirmed route candidates probed and the
/// peers due punched, and the punch times come back updated.
pub fn maintenance_tick<R: Copy>(
    closed: bool,
    self_id: &PeerId,
    peers: &Vec<KnownPeer>,
    candidates: &Vec<(PeerId, R, bool)>,
    whitelist: &Option<Vec<PeerId>>,
    times: Vec<(PeerId, u64)>,
    now: u64,
) -> (r: (Option<TickPlan<R>>, Vec<(PeerId, u64)>))
    ensures
        closed ==> r.0 is None && r.1@ == times@,
        !closed ==> (r.0 matches Some(plan) && plan.route_queries@ == query_targets(
            self_id.0@,
            peers@,
        ) && plan.hello_probes@ == probe_targets(self_id.0@, candidates@) && (
        plan.punches@, r.1@) == punch_round(self_id.0@, *whitelist, peers@, times@, now)),
{
    if closed {
        return (None, times);
    }
    let route_queries = route_query_targets(self_id, peers);
    let hello_probes = hello_probe_targets(self_id, candidates);
    let (punches, t) = punch_round_plan(self_id, whitelist, peers, times, now);
    (Some(TickPlan { route_queries, hello_probes, punches }), t)
}

proof fn lemma_without_peer(times: Seq<(PeerId, u64)>, id: Seq<char>, q: Seq<char>)
    ensures
        last_punch_of(without_peer(times, id), q) == if q == id {
            None
        } else {
            last_punch_of(times, q)
        },
    decreases times.len(),
{
    if times.len() > 0 {
        lemma_without_peer(times.drop_last(), id, q);
        let rest = without_peer(times.drop_last(), id);
        assert(rest.push(times.last()).drop_last() =~= rest);
    }
}

proof fn lemma_recorded(times: Seq<(PeerId, u64)>, p: PeerId, t: u64, q: Seq<char>)
    ensures
        last_punch_of(recorded(times, p, t), q) == if q == p.0@ {
            Some(t)
        } else {
            last_punch_of(times, q)
        },
{
    lemma_without_peer(times, p.0@, q);
    let w = without_peer(times, p.0@);
    assert(w.push((p, t)).drop_last() =~= w);
}

/// After a tick, a punched peer's time is `now`; any other peer's is what it was.
proof fn lemma_round_times(
    self_id: Seq<char>,
    whitelist: Option<Vec<PeerId>>,
    peers: Seq<KnownPeer>,
    times: Seq<(PeerId, u64)>,
    now: u64,
    q: Seq<char>,
)
    ensures
        ({
            let r = punch_round(self_id, whitelist, peers, times, now);
            last_punch_of(r.1, q) == if punched(r.0, q) {
                Some(now)
            } else {
                last_punch_of(times, q)
            }
        }),
    decreases peers.len(),
{
    if peers.len() > 0 {
        let prev = punch_round(self_id, whitelist, peers.drop_last(), times, now);
        lemma_round_times(self_id, whitelist, peers.drop_last(), times, now, q);
        let p = peers.last();
        match punch_plan(
            p.peer_id.0@ == self_id,
            allowed_by(whitelist, p.peer_id),
            p.route_metric,
            last_punch_of(prev.1, p.peer_id.0@),
            now,
            p.nat,
        ) {
            PunchPlan::Skip => {},
            PunchPlan::Punch { execute } => {
                let x = (p.peer_id, execute);
                let s = prev.0.push(x);
                lemma_recorded(prev.1, p.peer_id, now, q);
                if q == p.peer_id.0@ {
                    assert(s[prev.0.len() as int] == x);
                } else {
                    if punched(prev.0, q) {
                        let i = choose|i: int| 0 <= i < prev.0.len() && prev.0[i].0.0@ == q;
                        assert(s[i] == prev.0[i]);
                    }
                    if punched(s, q) {
                        let i = choose|i: int| 0 <= i < s.len() && s[i].0.0@ == q;
                        assert(i < prev.0.len());
                        assert(s[i] == prev.0[i]);
                    }
                }
            },
        }
    }
}

/// Each punch of a tick is for a known peer other than this node, that the punch plan, taken
/// against the times from before the tick, says to punch.
proof fn lemma_round_punch(
    self_id: Seq<char>,
    whitelist: Option<Vec<PeerId>>,
    peers: Seq<KnownPeer>,
    times: Seq<(PeerId, u64)>,
    now: u64,
    i: int,
)
    requires
        0 <= i < punch_round(self_id, whitelist, peers, times, now).0.len(),
    ensures
        ({
            let x = punch_round(self_id, whitelist, peers, times, now).0[i];
            &&& x.0.0@ != self_id
            &&& exists|j: int|
                0 <= j < peers.len() && #[trigger] peers[j].peer_id == x.0 && punch_plan(
                    false,
                    allowed_by(whitelist, peers[j].peer_id),
                    peers[j].route_metric,
                    last_punch_of(times, x.0.0@),
                    now,
                    peers[j].nat,
                ) == (PunchPlan::Punch { execute: x.1 })
        }),
    decreases peers.len(),
{
    let prev = punch_round(self_id, whitelist, peers.drop_last(), times, now);
    let p = peers.last();
    let n = peers.len() - 1;
    assert(peers[n] == p);
    let plan = punch_plan(
        p.peer_id.0@ == self_id,
        allowed_by(whitelist, p.peer_id),
        p.route_metric,
        last_punch_of(prev.1, p.peer_id.0@),
        now,
        p.nat,
    );
    if i < prev.0.len() {
        lemma_round_punch(self_id, whitelist, peers.drop_last(), times, now, i);
        let x = prev.0[i];
        let j = choose|j: int|
            0 <= j < peers.drop_last().len() && #[trigger] peers.drop_last()[j].peer_id == x.0
                && punch_plan(
                false,
                allowed_by(whitelist, peers.drop_last()[j].peer_id),
                peers.drop_last()[j].route_metric,
                last_punch_of(times, x.0.0@),
                now,
                peers.drop_last()[j].nat,
            ) == (PunchPlan::Punch { execute: x.1 });
        assert(peers[j] == peers.drop_last()[j]);
        if plan is Punch {
            assert(prev.0.push((p.peer_id, plan->execute))[i] == x);
        }
    } else {
        // The punch of the last peer: it was not punched earlier in the tick, else its time
        // would be `now` and the plan would skip it.
        lemma_round_times(self_id, whitelist, peers.drop_last(), times, now, p.peer_id.0@);
        assert(plan is Punch);
        if punched(prev.0, p.peer_id.0@) {
            assert(last_punch_of(prev.1, p.peer_id.0@) == Some(now));
            assert(false);
        }
    }
}

/// A maintenance tick never addresses this node, and punches keep their pace: every route
/// query and hello probe of a tick that is not closed goes to another peer; every punch goes
/// to a known peer other than this node that the punch plan, taken against the punch times
/// from before the tick, says to punch (allowed, no direct route, ten seconds since its last
/// punch), and its time becomes `now`; every other peer keeps its time. A closed tick sends
/// nothing (see [`maintenance_tick`]).
pub proof fn law_maintenance_tick(
    self_id: Seq<char>,
    whitelist: Option<Vec<PeerId>>,
    peers: Seq<KnownPeer>,
    times: Seq<(PeerId, u64)>,
    now: u64,
    q: Seq<char>,
)
    ensures
        forall|i: int|
            0 <= i < query_targets(self_id, peers).len() ==> (#[trigger] query_targets(
                self_id,
                peers,
            )[i]).0@ != self_id,
        ({
            let r = punch_round(self_id, whitelist, peers, times, now);
            &&& punched(r.0, q) ==> last_punch_of(r.1, q) == Some(now)
            &&& !punched(r.0, q) ==> last_punch_of(r.1, q) == last_punch_of(times, q)
            &&& forall|i: int|
                0 <= i < r.0.len() ==> {
                    &&& (#[trigger] r.0[i]).0.0@ != self_id
                    &&& exists|j: int|
                        0 <= j < peers.len() && #[trigger] peers[j].peer_id == r.0[i].0
                            && punch_plan(
                            false,
                            allowed_by(whitelist, peers[j].peer_id),
                            peers[j].route_metric,
                            last_punch_of(times, r.0[i].0.0@),
                            now,
                            peers[j].nat,
                        ) == (PunchPlan::Punch { execute: r.0[i].1 })
                }
        }),
{
    lemma_query_targets_not_self(self_id, peers);
    lemma_round_times(self_id, whitelist, peers, times, now, q);
    let r = punch_round(self_id, whitelist, peers, times, now);
    assert forall|i: int| 0 <= i < r.0.len() implies {
        &&& (#[trigger] r.0[i]).0.0@ != self_id
        &&& exists|j: int|
            0 <= j < peers.len() && #[trigger] peers[j].peer_id == r.0[i].0 && punch_plan(
                false,
                allowed_by(whitelist, peers[j].peer_id),
                peers[j].route_metric,
                last_punch_of(times, r.0[i].0.0@),
                now,
                peers[j].nat,
            ) == (PunchPlan::Punch { execute: r.0[i].1 })
    } by {
        lemma_round_punch(self_id, whitelist, peers, times, now, i);
    }
}

/// No route query goes to this node.
proof fn lemma_query_targets_not_self(self_id: Seq<char>, peers: Seq<KnownPeer>)
    ensures
        forall|i: int|
            0 <= i < query_targets(self_id, peers).len() ==> (#[trigger] query_targets(
                self_id,
                peers,
            )[i]).0@ != self_id,
    decreases peers.len(),
{
    if peers.len() > 0 {
        lemma_query_targets_not_self(self_id, peers.drop_last());
        let rest = query_targets(self_id, peers.drop_last());
        let r = query_targets(self_id, peers);
        assert forall|i: int| 0 <= i < r.len() implies (#[trigger] r[i]).0@ != self_id by {
            if i < rest.len() {
                assert(r[i] == rest[i]);
            }
        }
    }
}

/// No hello probe goes to this node or to a confirmed route.
pub proof fn law_probes_skip_self_and_confirmed<R>(self_id: Seq<char>, candidates: Seq<(PeerId, R, bool)>)
    ensures
        forall|i: int|
            0 <= i < probe_targets(self_id, candidates).len() ==> exists|j: int|
                0 <= j < candidates.len() && (#[trigger] probe_targets(self_id, candidates)[i]).0
                    == candidates[j].0 && probe_targets(self_id, candidates)[i].1
                    == candidates[j].1 && candidates[j].0.0@ != self_id && !candidates[j].2,
    decreases candidates.len(),
{
    if candidates.len() > 0 {
        let d = candidates.drop_last();
        law_probes_skip_self_and_confirmed(self_id, d);
        let rest = probe_targets(self_id, d);
        let n = candidates.len() - 1;
        assert forall|i: int| 0 <= i < probe_targets(self_id, candidates).len() implies exists|
            j: int,
        |
            0 <= j < candidates.len() && (#[trigger] probe_targets(self_id, candidates)[i]).0
                == candidates[j].0 && probe_targets(self_id, candidates)[i].1 == candidates[j].1
                && candidates[j].0.0@ != self_id && !candidates[j].2 by {
            let r = probe_targets(self_id, candidates);
            if i < rest.len() {
                assert(r[i] == rest[i]);
                let j = choose|j: int|
                    0 <= j < d.len() && (#[trigger] rest[i]).0 == d[j].0 && rest[i].1 == d[j].1
                        && d[j].0.0@ != self_id && !d[j].2;
                assert(candidates[j] == d[j]);
            } else {
                assert(candidates[n] == candidates.last());
            }
        }
    }
}

/// Every route candidate of another peer whose route is not confirmed is probed with a hello.
pub proof fn law_probes_cover_unconfirmed_candidates<R>(
    self_id: Seq<char>,
    candidates: Seq<(PeerId, R, bool)>,
    j: int,
)
    requires
        0 <= j < candidates.len(),
        candidates[j].0.0@ != self_id,
        !candidates[j].2,
    ensures
        probe_targets(self_id, candidates).contains((candidates[j].0, candidates[j].1)),
    decreases candidates.len(),
{
    let d = candidates.drop_last();
    let rest = probe_targets(self_id, d);
    let r = probe_targets(self_id, candidates);
    let x = (candidates[j].0, candidates[j].1);
    if j == candidates.len() - 1 {
        assert(r == rest.push(x));
        assert(r[rest.len() as int] == x);
    } else {
        assert(d[j] == candidates[j]);
        law_probes_cover_unconfirmed_candidates(self_id, d, j);
        let k = choose|k: int| 0 <= k < rest.len() && rest[k] == x;
        let c = candidates.last();
        if !(c.0.0@ == self_id || c.2) {
            assert(rest.push((c.0, c.1))[k] == x);
        }
    }
}

/// Every known peer other than this node is queried for routes.
pub proof fn law_queries_cover_known_peers(self_id: Seq<char>, peers: Seq<KnownPeer>, j: int)
    requires
        0 <= j < peers.len(),
        peers[j].peer_id.0@ != self_id,
    ensures
        query_targets(self_id, peers).contains(peers[j].peer_id),
    decreases peers.len(),
{
    let d = peers.drop_last();
    let rest = query_targets(self_id, d);
    let r = query_targets(self_id, peers);
    let x = peers[j].peer_id;
    if j == peers.len() - 1 {
        assert(r == rest.push(x));
        assert(r[rest.len() as int] == x);
    } else {
        assert(d[j] == peers[j]);
        law_queries_cover_known_peers(self_id, d, j);
        let k = choose|k: int| 0 <= k < rest.len() && rest[k] == x;
        if peers.last().peer_id.0@ != self_id {
            assert(rest.push(peers.last().peer_id)[k] == x);
        }
    }
}

/// Every peer due for a punch is punched in the tick: a known peer other than this node, that
/// may be punched, has no direct route and was not punched in the ten seconds before `now`
/// (by the times from before the tick), unless the same peer came earlier in the list.
pub proof fn law_due_peers_are_punched(
    self_id: Seq<char>,
    whitelist: Option<Vec<PeerId>>,
    peers: Seq<KnownPeer>,
    times: Seq<(PeerId, u64)>,
    now: u64,
    j: int,
)
    requires
        0 <= j < peers.len(),
        peers[j].peer_id.0@ != self_id,
        allowed_by(whitelist, peers[j].peer_id),
        peers[j].route_metric != Some(0u8),
        !(last_punch_of(times, peers[j].peer_id.0@) matches Some(l) && now < l + 10),
        forall|k: int| 0 <= k < j ==> peers[k].peer_id.0@ != peers[j].peer_id.0@,
    ensures
        punched(punch_round(self_id, whitelist, peers, times, now).0, peers[j].peer_id.0@),
    decreases peers.len(),
{
    let d = peers.drop_last();
    let prev = punch_round(self_id, whitelist, d, times, now);
    let id = peers[j].peer_id.0@;
    let r = punch_round(self_id, whitelist, peers, times, now);
    if j == peers.len() - 1 {
        lemma_round_times(self_id, whitelist, d, times, now, id);
        if punched(prev.0, id) {
            let i = choose|i: int| 0 <= i < prev.0.len() && prev.0[i].0.0@ == id;
            lemma_round_punch(self_id, whitelist, d, times, now, i);
            let k = choose|k: int|
                0 <= k < d.len() && #[trigger] d[k].peer_id == prev.0[i].0 && punch_plan(
                    false,
                    allowed_by(whitelist, d[k].peer_id),
                    d[k].route_metric,
                    last_punch_of(times, prev.0[i].0.0@),
                    now,
                    d[k].nat,
                ) == (PunchPlan::Punch { execute: prev.0[i].1 });
            assert(d[k] == peers[k]);
            assert(false);
        }
        assert(peers.last() == peers[j]);
        let x = r.0[prev.0.len() as int];
        assert(x.0.0@ == id);
    } else {
        assert(d[j] == peers[j]);
        assert forall|k: int| 0 <= k < j implies d[k].peer_id.0@ != d[j].peer_id.0@ by {
            assert(d[k] == peers[k]);
        }
        law_due_peers_are_punched(self_id, whitelist, d, times, now, j);
        let i = choose|i: int| 0 <= i < prev.0.len() && prev.0[i].0.0@ == id;
        let p = peers.last();
        match punch_plan(
            p.peer_id.0@ == self_id,
            allowed_by(whitelist, p.peer_id),
            p.route_metric,
            last_punch_of(prev.1, p.peer_id.0@),
            now,
            p.nat,
        ) {
            PunchPlan::Skip => {},
            PunchPlan::Punch { execute } => {
                assert(prev.0.push((p.peer_id, execute))[i] == prev.0[i]);
            },
        }
    }
}

} // verus!
