use vstd::prelude::*;
use crate::quic::peer_id::PeerId;
use crate::quic::transport::PeerInfo;

verus! {

/// One advertised route: a peer and the advertiser's own hop metric to it.
#[derive(Clone, Debug)]
pub struct RouteEntry {
    pub peer: PeerInfo,
    pub metric: u8,
}

/// The entries a node advertises for the peers it knows, in order: each known peer paired
/// with the metric of its first confirmed route, leaving out `requester` and the peers
/// without a route. The metric is passed on as it is.
pub open spec fn advertised_entries(requester: Seq<char>, known: Seq<(PeerInfo, Option<u8>)>) -> Seq<
    RouteEntry,
>
    decreases known.len(),
{
    if known.len() == 0 {
        Seq::empty()
    } else {
        let rest = advertised_entries(requester, known.drop_last());
        let p = known.last().0;
        let m = known.last().1;
        if p.peer_id.0@ == requester || m is None {
            rest
        } else {
            rest.push(RouteEntry { peer: p, metric: m.unwrap() })
        }
    }
}

/// Whether node `self_id` takes up the advertised `entry`: it is neither about the node
/// itself nor about the unspecified peer.
pub open spec fn entry_taken(self_id: Seq<char>, entry: RouteEntry) -> bool {
    entry.peer.peer_id.0@ != self_id && entry.peer.peer_id.0@.len() != 0
}

/// The metric of a route learned from an advertisement of metric `m`: one more hop, the one
/// to the advertiser, saturating at 255.
pub open spec fn learned_metric(m: u8) -> u8 {
    if m < 255 {
        (m + 1) as u8
    } else {
        255
    }
}

/// The routes node `self_id` confirms, through the advertiser, from the advertised
/// `entries`, in order: each entry it takes up, with its learned metric.
pub open spec fn learned_routes(self_id: Seq<char>, entries: Seq<RouteEntry>) -> Seq<(PeerInfo, u8)>
    decreases entries.len(),
{
    if entries.len() == 0 {
        Seq::empty()
    } else {
        let rest = learned_routes(self_id, entries.drop_last());
        let e = entries.last();
        if entry_taken(self_id, e) {
            rest.push((e.peer, learned_metric(e.metric)))
        } else {
            rest
        }
    }
}

/// The route entries node `self_peer` sends to `requester` in a hello: itself at metric 0,
/// then the known peers, each with the metric of its first route (`known`), as
/// [`advertised_entries`] says.
pub fn discovery_entries(self_peer: PeerInfo, requester: &PeerId, known: Vec<(PeerInfo, Option<u8>)>) -> (r:
    Vec<RouteEntry>)
    ensures
        r@ == seq![RouteEntry { peer: self_peer, metric: 0 }] + advertised_entries(
            requester.0@,
            known@,
        ),
{
    let ghost all = known@;
    let n = known.len();
    assert(all.len() == n);
    let mut out: Vec<RouteEntry> = Vec::new();
    out.push(RouteEntry { peer: self_peer, metric: 0 });
    let mut rest = known;
    let mut k: usize = 0;
    proof {
        assert(all.subrange(0, 0) =~= Seq::<(PeerInfo, Option<u8>)>::empty());
        assert(all.subrange(0, all.len() as int) =~= all);
    }
    while rest.len() > 0
        invariant
            k <= all.len(),
            all.len() <= usize::MAX,
            rest@ == all.subrange(k as int, all.len() as int),
            out@ == seq![RouteEntry { peer: self_peer, metric: 0 }] + advertised_entries(
                requester.0@,
                all.subrange(0, k as int),
            ),
        decreases rest@.len(),
    {
        let (p, m) = rest.remove(0);
        proof {
            assert(all.subrange(0, k + 1).drop_last() =~= all.subrange(0, k as int));
            assert(all.subrange(0, k + 1).last() == all[k as int]);
        }
        let skip = p.peer_id == *requester;
        match m {
            Some(metric) => {
                if !skip {
                    out.push(RouteEntry { peer: p, metric });
                }
            },
            None => {},
        }
        k = k + 1;
        proof {
            assert(rest@ =~= all.subrange(k as int, all.len() as int));
        }
    }
    proof {
        assert(all.subrange(0, k as int) =~= all);
    }
    out
}

/// The routes node `self_id` confirms from the advertised `entries`, as [`learned_routes`]
/// says: the advertised metric plus the hop to the advertiser. The NAT information of each
/// route's peer is the one to record for it.
pub fn ingest_route_entries(self_id: &PeerId, entries: Vec<RouteEntry>) -> (r: Vec<(PeerInfo, u8)>)
    ensures
        r@ == learned_routes(self_id.0@, entries@),
{
    let ghost all = entries@;
    let n = entries.len();
    assert(all.len() == n);
    let mut out: Vec<(PeerInfo, u8)> = Vec::new();
    let mut rest = entries;
    let mut k: usize = 0;
    proof {
        assert(all.subrange(0, 0) =~= Seq::<RouteEntry>::empty());
        assert(all.subrange(0, all.len() as int) =~= all);
    }
    while rest.len() > 0
        invariant
            k <= all.len(),
            all.len() <= usize::MAX,
            rest@ == all.subrange(k as int, all.len() as int),
            out@ == learned_routes(self_id.0@, all.subrange(0, k as int)),
        decreases rest@.len(),
    {
        let e = rest.remove(0);
        proof {
            assert(all.subrange(0, k + 1).drop_last() =~= all.subrange(0, k as int));
            assert(all.subrange(0, k + 1).last() == all[k as int]);
        }
        if !(e.peer.peer_id == *self_id) && !e.peer.peer_id.is_unspecified() {
            let metric = e.metric.saturating_add(1);
            out.push((e.peer, metric));
        }
        k = k + 1;
        proof {
            assert(rest@ =~= all.subrange(k as int, all.len() as int));
        }
    }
    proof {
        assert(all.subrange(0, k as int) =~= all);
    }
    out
}

/// Each taken entry of `entries` gives its peer a learned route.
proof fn lemma_learned_route_present(self_id: Seq<char>, entries: Seq<RouteEntry>, j: int)
    requires
        0 <= j < entries.len(),
        entry_taken(self_id, entries[j]),
    ensures
        learned_routes(self_id, entries).contains((entries[j].peer, learned_metric(entries[j].metric))),
    decreases entries.len(),
{
    let rest = learned_routes(self_id, entries.drop_last());
    let x = (entries[j].peer, learned_metric(entries[j].metric));
    if j == entries.len() - 1 {
        assert(learned_routes(self_id, entries) == rest.push(x));
        assert(rest.push(x)[rest.len() as int] == x);
    } else {
        assert(entries.drop_last()[j] == entries[j]);
        lemma_learned_route_present(self_id, entries.drop_last(), j);
        let k = choose|k: int| 0 <= k < rest.len() && rest[k] == x;
        let y = (entries.last().peer, learned_metric(entries.last().metric));
        if entry_taken(self_id, entries.last()) {
            assert(rest.push(y)[k] == x);
        }
    }
}

/// Each known peer other than `requester` with a route is advertised with that route's metric.
proof fn lemma_known_peer_advertised(
    requester: Seq<char>,
    known: Seq<(PeerInfo, Option<u8>)>,
    i: int,
) -> (j: int)
    requires
        0 <= i < known.len(),
        known[i].0.peer_id.0@ != requester,
        known[i].1 is Some,
    ensures
        0 <= j < advertised_entries(requester, known).len(),
        advertised_entries(requester, known)[j] == (RouteEntry {
            peer: known[i].0,
            metric: known[i].1.unwrap(),
        }),
    decreases known.len(),
{
    let rest = advertised_entries(requester, known.drop_last());
    if i == known.len() - 1 {
        rest.len() as int
    } else {
        assert(known.drop_last()[i] == known[i]);
        let k = lemma_known_peer_advertised(requester, known.drop_last(), i);
        k
    }
}

/// Route discovery counts hops: when node `self_id` takes up the entries that the node
/// `advertiser` sends to it, every peer known to the advertiser with a route of metric `m`
/// (other than `self_id` and the unspecified peer) is confirmed with metric `m + 1`
/// (saturating at 255), and the advertiser itself with metric 1.
pub proof fn law_learned_metric_counts_hops(
    self_id: Seq<char>,
    advertiser: PeerInfo,
    known: Seq<(PeerInfo, Option<u8>)>,
    i: int,
)
    requires
        0 <= i < known.len(),
        known[i].0.peer_id.0@ != self_id,
        known[i].0.peer_id.0@.len() != 0,
        known[i].1 is Some,
    ensures
        ({
            let entries = seq![RouteEntry { peer: advertiser, metric: 0 }] + advertised_entries(
                self_id,
                known,
            );
            &&& learned_routes(self_id, entries).contains(
                (known[i].0, learned_metric(known[i].1.unwrap())),
            )
            &&& known[i].1.unwrap() < 255 ==> learned_metric(known[i].1.unwrap())
                == known[i].1.unwrap() + 1
            &&& advertiser.peer_id.0@ != self_id && advertiser.peer_id.0@.len() != 0
                ==> learned_routes(self_id, entries).contains((advertiser, 1u8))
        }),
{
    let head = seq![RouteEntry { peer: advertiser, metric: 0 }];
    let adv = advertised_entries(self_id, known);
    let entries = head + adv;
    let j = lemma_known_peer_advertised(self_id, known, i);
    assert(entries[j + 1] == adv[j]);
    lemma_learned_route_present(self_id, entries, j + 1);
    if advertiser.peer_id.0@ != self_id && advertiser.peer_id.0@.len() != 0 {
        assert(entries[0] == (RouteEntry { peer: advertiser, metric: 0 }));
        lemma_learned_route_present(self_id, entries, 0);
    }
}

/// Nothing is learned that was not advertised: each learned route is the peer of an entry the
/// node takes up (not itself, not unspecified) with one hop more than advertised (saturating).
pub proof fn law_learned_routes_come_from_entries(self_id: Seq<char>, entries: Seq<RouteEntry>)
    ensures
        forall|i: int|
            #![trigger learned_routes(self_id, entries)[i]]
            0 <= i < learned_routes(self_id, entries).len() ==> exists|j: int|
                #![trigger entries[j]]
                0 <= j < entries.len() && entries[j].peer.peer_id.0@ != self_id
                    && entries[j].peer.peer_id.0@.len() != 0 && learned_routes(self_id, entries)[i].0
                    == entries[j].peer && learned_routes(self_id, entries)[i].1 == if entries[j].metric
                    < 255 {
                    (entries[j].metric + 1) as u8
                } else {
                    255u8
                },
    decreases entries.len(),
{
    if entries.len() > 0 {
        let d = entries.drop_last();
        law_learned_routes_come_from_entries(self_id, d);
        let rest = learned_routes(self_id, d);
        let r = learned_routes(self_id, entries);
        let n = entries.len() - 1;
        assert forall|i: int| #![trigger r[i]] 0 <= i < r.len() implies exists|j: int|
            #![trigger entries[j]]
            0 <= j < entries.len() && entries[j].peer.peer_id.0@ != self_id
                && entries[j].peer.peer_id.0@.len() != 0 && r[i].0 == entries[j].peer && r[i].1
                == if entries[j].metric < 255 {
                (entries[j].metric + 1) as u8
            } else {
                255u8
            } by {
            if i < rest.len() {
                assert(r[i] == rest[i]);
                let j = choose|j: int|
                    #![trigger d[j]]
                    0 <= j < d.len() && d[j].peer.peer_id.0@ != self_id
                        && d[j].peer.peer_id.0@.len() != 0 && rest[i].0 == d[j].peer && rest[i].1
                        == if d[j].metric < 255 {
                        (d[j].metric + 1) as u8
                    } else {
                        255u8
                    };
                assert(entries[j] == d[j]);
            } else {
                assert(entries[n] == entries.last());
                assert(r[i] == (entries[n].peer, learned_metric(entries[n].metric)));
            }
        }
    }
}

/// Nothing is advertised that is not known: each advertised entry is a known peer other than
/// the requester, with the metric of its route.
pub proof fn law_advertised_entries_come_from_known(
    requester: Seq<char>,
    known: Seq<(PeerInfo, Option<u8>)>,
)
    ensures
        forall|i: int|
            0 <= i < advertised_entries(requester, known).len() ==> exists|j: int|
                0 <= j < known.len() && known[j].0.peer_id.0@ != requester && known[j].1 == Some(
                    (#[trigger] advertised_entries(requester, known)[i]).metric,
                ) && advertised_entries(requester, known)[i].peer == known[j].0,
    decreases known.len(),
{
    if known.len() > 0 {
        let d = known.drop_last();
        law_advertised_entries_come_from_known(requester, d);
        let rest = advertised_entries(requester, d);
        let r = advertised_entries(requester, known);
        let n = known.len() - 1;
        assert forall|i: int| 0 <= i < r.len() implies exists|j: int|
            0 <= j < known.len() && known[j].0.peer_id.0@ != requester && known[j].1 == Some(
                (#[trigger] r[i]).metric,
            ) && r[i].peer == known[j].0 by {
            if i < rest.len() {
                assert(r[i] == rest[i]);
                let j = choose|j: int|
                    0 <= j < d.len() && d[j].0.peer_id.0@ != requester && d[j].1 == Some(
                        (#[trigger] rest[i]).metric,
                    ) && rest[i].peer == d[j].0;
                assert(known[j] == d[j]);
            } else {
                assert(known[n] == known.last());
            }
        }
    }
}

} // verus!
