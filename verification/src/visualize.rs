//! The topology graph of one route: group its visits by trip, order each
//! trip's visits by sequence number (ascending, ties keeping input order),
//! collapse every stop onto its parent station when it has one, and count
//! each directed stop-to-stop movement across all trips.
use vstd::prelude::*;

verus! {

use crate::archive::GtfsError;
use crate::gtfs::Stop;
use crate::gtfs::StopTime;
use crate::gtfs::stop_key;
use crate::idmap::IdMap;
use crate::idmap::id_map_of;
use crate::route::FullRoute;
use crate::route::stopid_stops_hash;
use crate::stop::first_trip_ids;
use crate::text::str_eq_value;

/// One directed edge of the topology graph, with its node identifiers,
/// their human-readable labels, and the number of observed traversals.
#[derive(Debug, Clone, PartialEq)]
pub struct TopologyEdge {
    pub from_id: String,
    pub to_id: String,
    pub from_label: String,
    pub to_label: String,
    pub weight: u64,
}

/// A directed, edge-weighted multigraph of stop-to-stop movement; edges in
/// opposite directions are distinct.
#[derive(Debug, Clone, PartialEq)]
pub struct TopologyGraph {
    pub edges: Vec<TopologyEdge>,
}

// ---------------------------------------------------------------------------
// The pipeline, stage by stage, as spec functions.
// ---------------------------------------------------------------------------

/// The sequence number of a visit.
pub open spec fn seq_no(st: StopTime) -> u64
    recommends
        st.stop_sequence is Some,
{
    st.stop_sequence->0
}

/// The visits of one trip, in table order.
pub open spec fn times_of_trip(sts: Seq<StopTime>, t: Seq<char>) -> Seq<StopTime>
    decreases sts.len(),
{
    if sts.len() == 0 {
        Seq::<StopTime>::empty()
    } else {
        let rest = times_of_trip(sts.drop_last(), t);
        if sts.last().trip_id.deep_view() == Some(t) {
            rest.push(sts.last())
        } else {
            rest
        }
    }
}

/// Insert a visit behind every earlier visit whose sequence number is not
/// greater: ascending order, ties keeping earlier input first.
pub open spec fn insert_by_seq(x: StopTime, s: Seq<StopTime>) -> Seq<StopTime>
    decreases s.len(),
{
    if s.len() == 0 {
        seq![x]
    } else if seq_no(x) < seq_no(s.last()) {
        insert_by_seq(x, s.drop_last()).push(s.last())
    } else {
        s.push(x)
    }
}

/// Order visits by sequence number: ascending, stable.
pub open spec fn sort_by_seq(s: Seq<StopTime>) -> Seq<StopTime>
    decreases s.len(),
{
    if s.len() == 0 {
        Seq::<StopTime>::empty()
    } else {
        insert_by_seq(s.last(), sort_by_seq(s.drop_last()))
    }
}

/// A visit's effective node: the visited stop's parent-station identifier
/// if it has one, else the stop's own identifier.
pub open spec fn eff_of(m: Map<Seq<char>, Stop>, st: StopTime) -> Seq<char>
    recommends
        st.stop_id.deep_view() is Some,
{
    let sid = st.stop_id.deep_view()->0;
    if m.contains_key(sid) && m[sid].parent_station is Some {
        m[sid].parent_station.deep_view()->0
    } else {
        sid
    }
}

/// The effective nodes of a visit sequence, in order.
pub open spec fn eff_seq(m: Map<Seq<char>, Stop>, s: Seq<StopTime>) -> Seq<Seq<char>> {
    Seq::new(s.len(), |i: int| eff_of(m, s[i]))
}

/// The consecutive pairs of a node sequence.
pub open spec fn pairs_of(ids: Seq<Seq<char>>) -> Seq<(Seq<char>, Seq<char>)>
    decreases ids.len(),
{
    if ids.len() < 2 {
        Seq::<(Seq<char>, Seq<char>)>::empty()
    } else {
        pairs_of(ids.drop_last()).push((ids[ids.len() - 2], ids[ids.len() - 1]))
    }
}

/// Every directed movement of the route: for each trip, the consecutive
/// pairs of its ordered, collapsed visit sequence.
pub open spec fn route_pairs(
    m: Map<Seq<char>, Stop>,
    sts: Seq<StopTime>,
    tids: Seq<Seq<char>>,
) -> Seq<(Seq<char>, Seq<char>)>
    decreases tids.len(),
{
    if tids.len() == 0 {
        Seq::<(Seq<char>, Seq<char>)>::empty()
    } else {
        route_pairs(m, sts, tids.drop_last()) + pairs_of(
            eff_seq(m, sort_by_seq(times_of_trip(sts, tids.last()))),
        )
    }
}

/// How often a directed pair occurs.
pub open spec fn pair_count(ps: Seq<(Seq<char>, Seq<char>)>, p: (Seq<char>, Seq<char>)) -> nat
    decreases ps.len(),
{
    if ps.len() == 0 {
        0
    } else {
        pair_count(ps.drop_last(), p) + if ps.last() == p {
            1nat
        } else {
            0nat
        }
    }
}

/// The distinct pairs, each at its first occurrence.
pub open spec fn first_pairs(ps: Seq<(Seq<char>, Seq<char>)>) -> Seq<(Seq<char>, Seq<char>)>
    decreases ps.len(),
{
    if ps.len() == 0 {
        Seq::<(Seq<char>, Seq<char>)>::empty()
    } else {
        let rest = first_pairs(ps.drop_last());
        if rest.contains(ps.last()) {
            rest
        } else {
            rest.push(ps.last())
        }
    }
}

/// A node's human-readable label: the name of the stop record with that
/// identifier, falling back to the raw identifier.
pub open spec fn label_of(m: Map<Seq<char>, Stop>, id: Seq<char>) -> Seq<char> {
    if m.contains_key(id) && m[id].stop_name is Some {
        m[id].stop_name.deep_view()->0
    } else {
        id
    }
}

/// The visits can feed the graph: every visit names a trip, carries a
/// sequence number, and references a stop resolvable in the route's
/// joined stop set.
pub open spec fn topology_ok(m: Map<Seq<char>, Stop>, sts: Seq<StopTime>) -> bool {
    forall|k: int|
        0 <= k < sts.len() ==> ({
            let st = #[trigger] sts[k];
            &&& st.trip_id.deep_view() is Some
            &&& st.stop_sequence is Some
            &&& (st.stop_id.deep_view() matches Some(sid) && m.contains_key(sid))
        })
}

/// How a finished graph relates to the route's movements: one edge per
/// distinct directed pair, in first-occurrence order, weighted by the
/// number of traversals, labeled from the given stop set.
pub open spec fn graph_matches(
    m: Map<Seq<char>, Stop>,
    lm: Map<Seq<char>, Stop>,
    sts: Seq<StopTime>,
    g: TopologyGraph,
) -> bool {
    let rp = route_pairs(m, sts, first_trip_ids(sts));
    let fp = first_pairs(rp);
    &&& g.edges@.len() == fp.len()
    &&& forall|i: int|
        0 <= i < g.edges@.len() ==> ({
            let e = #[trigger] g.edges@[i];
            &&& e.from_id@ == fp[i].0
            &&& e.to_id@ == fp[i].1
            &&& e.weight as nat == pair_count(rp, fp[i])
            &&& e.from_label@ == label_of(lm, fp[i].0)
            &&& e.to_label@ == label_of(lm, fp[i].1)
        })
}

// ---------------------------------------------------------------------------
// Executable helpers.
// ---------------------------------------------------------------------------

fn seq_no_of(st: &StopTime) -> (r: u64)
    requires
        st.stop_sequence is Some,
    ensures
        r == seq_no(*st),
{
    match st.stop_sequence {
        Some(v) => v,
        None => {
            proof {
                assert(false);
            }
            0
        },
    }
}

proof fn lemma_insert_by_seq_at(s: Seq<StopTime>, x: StopTime, p: int)
    requires
        0 <= p <= s.len(),
        forall|j: int| p <= j < s.len() ==> seq_no(x) < seq_no(#[trigger] s[j]),
        p > 0 ==> !(seq_no(x) < seq_no(s[p - 1])),
    ensures
        insert_by_seq(x, s) == s.take(p) + seq![x] + s.skip(p),
    decreases s.len(),
{
    if p == s.len() {
        if s.len() == 0 {
            assert(insert_by_seq(x, s) =~= s.take(p) + seq![x] + s.skip(p));
        } else {
            assert(!(seq_no(x) < seq_no(s.last())));
            assert(insert_by_seq(x, s) =~= s.take(p) + seq![x] + s.skip(p));
        }
    } else {
        assert(seq_no(x) < seq_no(s[s.len() - 1]));
        assert(forall|j: int|
            p <= j < s.len() - 1 ==> seq_no(x) < seq_no(#[trigger] s.drop_last()[j]));
        if p > 0 {
            assert(s.drop_last()[p - 1] == s[p - 1]);
        }
        lemma_insert_by_seq_at(s.drop_last(), x, p);
        assert(insert_by_seq(x, s) == (s.drop_last().take(p) + seq![x] + s.drop_last().skip(
            p,
        )).push(s.last()));
        assert((s.drop_last().take(p) + seq![x] + s.drop_last().skip(p)).push(s.last()) =~= s.take(
            p,
        ) + seq![x] + s.skip(p));
    }
}

/// Order a trip's visits by sequence number, ascending; equal sequence
/// numbers keep their input order.
fn sort_group(group: &Vec<StopTime>) -> (r: Vec<StopTime>)
    requires
        forall|j: int| 0 <= j < group@.len() ==> (#[trigger] group@[j]).stop_sequence is Some,
    ensures
        r@ == sort_by_seq(group@),
{
    let mut sorted: Vec<StopTime> = Vec::new();
    let mut g: usize = 0;
    proof {
        assert(group@.take(0) =~= Seq::<StopTime>::empty());
    }
    while g < group.len()
        invariant
            g <= group@.len(),
            forall|j: int| 0 <= j < group@.len() ==> (#[trigger] group@[j]).stop_sequence is Some,
            sorted@ == sort_by_seq(group@.take(g as int)),
            forall|j: int| 0 <= j < sorted@.len() ==> (#[trigger] sorted@[j]).stop_sequence is Some,
        decreases group@.len() - g,
    {
        proof {
            assert(group@.take(g + 1).drop_last() =~= group@.take(g as int));
            assert(group@.take(g + 1).last() == group@[g as int]);
        }
        let x = group[g].duplicate();
        let xseq = seq_no_of(&x);
        let mut p: usize = sorted.len();
        while p > 0 && xseq < seq_no_of(&sorted[p - 1])
            invariant
                p <= sorted@.len(),
                xseq == seq_no(x),
                forall|j: int|
                    0 <= j < sorted@.len() ==> (#[trigger] sorted@[j]).stop_sequence is Some,
                forall|j: int| p <= j < sorted@.len() ==> seq_no(x) < seq_no(#[trigger] sorted@[j]),
            decreases p,
        {
            p = p - 1;
        }
        proof {
            lemma_insert_by_seq_at(sorted@, x, p as int);
        }
        let ghost pre = sorted@;
        sorted.insert(p, x);
        proof {
            assert(sorted@ =~= pre.take(p as int) + seq![x] + pre.skip(p as int));
            assert(sorted@ == insert_by_seq(x, pre));
        }
        g = g + 1;
    }
    proof {
        assert(group@.take(group@.len() as int) =~= group@);
    }
    sorted
}

fn label_for(lmap: &IdMap<Stop>, id: &String) -> (r: String)
    requires
        lmap.wf(),
    ensures
        r@ == label_of(lmap.map_view(), id@),
{
    match lmap.get(id.as_str()) {
        Some(stop) => match &stop.stop_name {
            Some(n) => n.clone(),
            None => id.clone(),
        },
        None => id.clone(),
    }
}

fn edge_present(edges: &Vec<TopologyEdge>, x: &String, y: &String) -> (r: bool)
    ensures
        r == exists|i: int|
            0 <= i < edges@.len() && (#[trigger] edges@[i]).from_id@ == x@ && edges@[i].to_id@
                == y@,
{
    let mut i: usize = 0;
    while i < edges.len()
        invariant
            i <= edges@.len(),
            forall|j: int|
                0 <= j < i ==> !((#[trigger] edges@[j]).from_id@ == x@ && edges@[j].to_id@ == y@),
        decreases edges@.len() - i,
    {
        if str_eq_value(edges[i].from_id.as_str(), x.as_str()) && str_eq_value(
            edges[i].to_id.as_str(),
            y.as_str(),
        ) {
            return true;
        }
        i = i + 1;
    }
    false
}

// ---------------------------------------------------------------------------
// The builder.
// ---------------------------------------------------------------------------

/// Build the topology graph of a joined route. Every visit must name a
/// trip, carry a sequence number, and reference a stop of the route's
/// joined stop set; a violation is a referential error, never skipped.
/// Labels are resolved in `all_stops`, falling back to raw identifiers.
pub fn route_topology(route: &FullRoute, all_stops: &Vec<Stop>) -> (r: Result<
    TopologyGraph,
    GtfsError,
>)
    ensures
        r is Ok <==> topology_ok(
            id_map_of(route.associated_stops@, stop_key()),
            route.associated_stop_times@,
        ),
        r matches Ok(g) ==> graph_matches(
            id_map_of(route.associated_stops@, stop_key()),
            id_map_of(all_stops@, stop_key()),
            route.associated_stop_times@,
            g,
        ),
        r matches Err(e) ==> e == GtfsError::Referential,
{
    let smap = stopid_stops_hash(&route.associated_stops);
    let lmap = stopid_stops_hash(all_stops);
    let ghost m = id_map_of(route.associated_stops@, stop_key());
    let ghost sts = route.associated_stop_times@;

    // Validate every visit once, so that the pipeline below is total.
    let mut k: usize = 0;
    while k < route.associated_stop_times.len()
        invariant
            k <= sts.len(),
            sts == route.associated_stop_times@,
            m == id_map_of(route.associated_stops@, stop_key()),
            smap.wf(),
            smap.map_view() == m,
            forall|j: int|
                0 <= j < k ==> ({
                    let st = #[trigger] sts[j];
                    &&& st.trip_id.deep_view() is Some
                    &&& st.stop_sequence is Some
                    &&& (st.stop_id.deep_view() matches Some(sid) && m.contains_key(sid))
                }),
        decreases sts.len() - k,
    {
        let st = &route.associated_stop_times[k];
        match &st.trip_id {
            Some(_) => (),
            None => {
                return Err(GtfsError::Referential);
            },
        }
        match &st.stop_sequence {
            Some(_) => (),
            None => {
                return Err(GtfsError::Referential);
            },
        }
        match &st.stop_id {
            Some(sid) => {
                match smap.get(sid.as_str()) {
                    Some(_) => (),
                    None => {
                        proof {
                            assert(sts[k as int].stop_id.deep_view() == Some(sid@));
                            assert(!(sts[k as int].stop_id.deep_view() matches Some(s2)
                                && m.contains_key(s2)));
                        }
                        return Err(GtfsError::Referential);
                    },
                }
            },
            None => {
                return Err(GtfsError::Referential);
            },
        }
        k = k + 1;
    }

    // Distinct trip identifiers, each at its first occurrence.
    let mut tids: Vec<String> = Vec::new();
    let mut i: usize = 0;
    proof {
        assert(sts.take(0) =~= Seq::<StopTime>::empty());
    }
    while i < route.associated_stop_times.len()
        invariant
            i <= sts.len(),
            sts == route.associated_stop_times@,
            topology_ok(m, sts),
            tids.deep_view() == first_trip_ids(sts.take(i as int)),
        decreases sts.len() - i,
    {
        proof {
            assert(sts.take(i + 1).drop_last() =~= sts.take(i as int));
            assert(sts.take(i + 1).last() == sts[i as int]);
        }
        let ghost pre = tids.deep_view();
        match &route.associated_stop_times[i].trip_id {
            Some(tid) => {
                if !crate::route::ids_contain(&tids, tid.as_str()) {
                    let id = tid.clone();
                    tids.push(id);
                    proof {
                        assert(tids.deep_view() =~= pre.push(sts[i as int].trip_id.deep_view()->0));
                    }
                }
            },
            None => {
                proof {
                    assert(false);
                }
            },
        }
        i = i + 1;
    }
    proof {
        assert(sts.take(sts.len() as int) =~= sts);
    }
    let ghost tids_spec = first_trip_ids(sts);

    // Every directed movement, trip by trip.
    let mut pairs: Vec<(String, String)> = Vec::new();
    let mut t: usize = 0;
    proof {
        assert(tids_spec.take(0) =~= Seq::<Seq<char>>::empty());
        assert(pairs.deep_view() =~= route_pairs(m, sts, tids_spec.take(0)));
    }
    while t < tids.len()
        invariant
            t <= tids@.len(),
            sts == route.associated_stop_times@,
            topology_ok(m, sts),
            smap.wf(),
            smap.map_view() == m,
            tids.deep_view() == tids_spec,
            pairs.deep_view() == route_pairs(m, sts, tids_spec.take(t as int)),
        decreases tids@.len() - t,
    {
        proof {
            assert(tids_spec.take(t + 1).drop_last() =~= tids_spec.take(t as int));
            assert(tids_spec.take(t + 1).last() == tids_spec[t as int]);
            assert(tids.deep_view()[t as int] == tids@[t as int]@);
        }
        let tid = &tids[t];

        // The trip's visits, in table order.
        let mut group: Vec<StopTime> = Vec::new();
        let mut j: usize = 0;
        proof {
            assert(sts.take(0) =~= Seq::<StopTime>::empty());
        }
        while j < route.associated_stop_times.len()
            invariant
                j <= sts.len(),
                sts == route.associated_stop_times@,
                topology_ok(m, sts),
                tid@ == tids_spec[t as int],
                t < tids_spec.len(),
                group@ == times_of_trip(sts.take(j as int), tid@),
                forall|w: int|
                    0 <= w < group@.len() ==> ({
                        let st = #[trigger] group@[w];
                        &&& st.stop_sequence is Some
                        &&& (st.stop_id.deep_view() matches Some(sid) && m.contains_key(sid))
                    }),
            decreases sts.len() - j,
        {
            proof {
                assert(sts.take(j + 1).drop_last() =~= sts.take(j as int));
                assert(sts.take(j + 1).last() == sts[j as int]);
            }
            let keep = match &route.associated_stop_times[j].trip_id {
                Some(x) => str_eq_value(x.as_str(), tid.as_str()),
                None => false,
            };
            if keep {
                group.push(route.associated_stop_times[j].duplicate());
            }
            j = j + 1;
        }
        proof {
            assert(sts.take(sts.len() as int) =~= sts);
        }

        let sorted = sort_group(&group);
        proof {
            lemma_sort_elements(group@);
            assert forall|v: int| 0 <= v < sorted@.len() implies ({
                let st = #[trigger] sorted@[v];
                &&& st.stop_sequence is Some
                &&& (st.stop_id.deep_view() matches Some(sid) && m.contains_key(sid))
            }) by {
                assert(group@.contains(sorted@[v]));
                let u = choose|u: int| 0 <= u < group@.len() && group@[u] == sorted@[v];
                assert(group@[u].stop_sequence is Some);
            }
        }

        // The effective nodes, in order.
        let mut eff: Vec<String> = Vec::new();
        let mut w: usize = 0;
        while w < sorted.len()
            invariant
                w <= sorted@.len(),
                smap.wf(),
                smap.map_view() == m,
                forall|v: int|
                    0 <= v < sorted@.len() ==> ({
                        let st = #[trigger] sorted@[v];
                        &&& (st.stop_id.deep_view() matches Some(sid) && m.contains_key(sid))
                    }),
                eff.deep_view().len() == w,
                forall|v: int| 0 <= v < w ==> eff.deep_view()[v] == eff_of(m, sorted@[v]),
            decreases sorted@.len() - w,
        {
            let ghost pre = eff.deep_view();
            let st = &sorted[w];
            let node: String = match &st.stop_id {
                Some(sid) => {
                    match smap.get(sid.as_str()) {
                        Some(stop) => match &stop.parent_station {
                            Some(p) => p.clone(),
                            None => sid.clone(),
                        },
                        None => {
                            proof {
                                assert(false);
                            }
                            sid.clone()
                        },
                    }
                },
                None => {
                    proof {
                        assert(false);
                    }
                    String::new()
                },
            };
            let ghost nv = node@;
            proof {
                assert(nv == eff_of(m, sorted@[w as int]));
            }
            eff.push(node);
            proof {
                assert(eff.deep_view() =~= pre.push(nv));
            }
            w = w + 1;
        }
        let ghost eff_ids = eff_seq(m, sort_by_seq(times_of_trip(sts, tid@)));
        proof {
            assert(eff.deep_view() =~= eff_ids);
        }

        // The consecutive pairs.
        if eff.len() >= 1 {
            let mut w2: usize = 1;
            proof {
                assert(pairs.deep_view() =~~= route_pairs(m, sts, tids_spec.take(t as int))
                    + pairs_of(eff_ids.take(1)));
            }
            while w2 < eff.len()
                invariant
                    1 <= w2 <= eff@.len(),
                    eff.deep_view() == eff_ids,
                    eff@.len() == eff_ids.len(),
                    sts == route.associated_stop_times@,
                    pairs.deep_view() == route_pairs(m, sts, tids_spec.take(t as int)) + pairs_of(
                        eff_ids.take(w2 as int),
                    ),
                decreases eff@.len() - w2,
            {
                proof {
                    assert(eff_ids.take(w2 + 1).drop_last() =~= eff_ids.take(w2 as int));
                    assert(eff_ids.take(w2 + 1)[w2 as int] == eff_ids[w2 as int]);
                    assert(eff_ids.take(w2 + 1)[w2 - 1] == eff_ids[w2 - 1]);
                    assert(eff.deep_view()[w2 - 1] == eff@[w2 - 1]@);
                    assert(eff.deep_view()[w2 as int] == eff@[w2 as int]@);
                }
                let ghost pre = pairs.deep_view();
                let a = eff[w2 - 1].clone();
                let b = eff[w2].clone();
                pairs.push((a, b));
                proof {
                    assert(pairs.deep_view() =~= pre.push((eff_ids[w2 - 1], eff_ids[w2 as int])));
                    assert(pairs.deep_view() =~~= route_pairs(m, sts, tids_spec.take(t as int))
                        + pairs_of(eff_ids.take(w2 + 1)));
                }
                w2 = w2 + 1;
            }
            proof {
                assert(eff_ids.take(eff_ids.len() as int) =~= eff_ids);
                assert(pairs.deep_view() =~~= route_pairs(m, sts, tids_spec.take(t + 1)));
            }
        } else {
            proof {
                assert(pairs_of(eff_ids) =~= Seq::<(Seq<char>, Seq<char>)>::empty());
                assert(pairs.deep_view() =~~= route_pairs(m, sts, tids_spec.take(t + 1)));
            }
        }
        t = t + 1;
    }
    proof {
        assert(tids_spec.take(tids_spec.len() as int) =~= tids_spec);
    }
    let ghost rp = route_pairs(m, sts, tids_spec);
    proof {
        assert(pairs.deep_view() == rp);
    }

    // One edge per distinct pair, weighted by its occurrence count.
    let mut edges: Vec<TopologyEdge> = Vec::new();
    let mut a: usize = 0;
    proof {
        assert(rp.take(0) =~= Seq::<(Seq<char>, Seq<char>)>::empty());
    }
    while a < pairs.len()
        invariant
            a <= pairs@.len(),
            lmap.wf(),
            lmap.map_view() == id_map_of(all_stops@, stop_key()),
            pairs.deep_view() == rp,
            pairs@.len() == rp.len(),
            edges@.len() == first_pairs(rp.take(a as int)).len(),
            forall|i2: int|
                0 <= i2 < edges@.len() ==> ({
                    let e = #[trigger] edges@[i2];
                    let fp = first_pairs(rp.take(a as int));
                    &&& e.from_id@ == fp[i2].0
                    &&& e.to_id@ == fp[i2].1
                    &&& e.weight as nat == pair_count(rp, fp[i2])
                    &&& e.from_label@ == label_of(lmap.map_view(), fp[i2].0)
                    &&& e.to_label@ == label_of(lmap.map_view(), fp[i2].1)
                }),
        decreases pairs@.len() - a,
    {
        proof {
            assert(rp.take(a + 1).drop_last() =~= rp.take(a as int));
            assert(rp.take(a + 1).last() == rp[a as int]);
            assert(pairs.deep_view()[a as int] == (pairs@[a as int].0@, pairs@[a as int].1@));
        }
        let ghost fp_pre = first_pairs(rp.take(a as int));
        let present = edge_present(&edges, &pairs[a].0, &pairs[a].1);
        proof {
            assert(present <==> fp_pre.contains(rp[a as int])) by {
                if present {
                    let w = choose|w: int|
                        0 <= w < edges@.len() && (#[trigger] edges@[w]).from_id@
                            == pairs@[a as int].0@ && edges@[w].to_id@ == pairs@[a as int].1@;
                    assert(fp_pre[w] == rp[a as int]);
                }
                if fp_pre.contains(rp[a as int]) {
                    let w = choose|w: int| 0 <= w < fp_pre.len() && fp_pre[w] == rp[a as int];
                    assert(edges@[w].from_id@ == pairs@[a as int].0@ && edges@[w].to_id@
                        == pairs@[a as int].1@);
                }
            }
        }
        if !present {
            // Count this pair's occurrences over the whole movement list.
            let mut c: usize = 0;
            let mut b: usize = 0;
            while b < pairs.len()
                invariant
                    b <= pairs@.len(),
                    c <= b,
                    pairs.deep_view() == rp,
                    pairs@.len() == rp.len(),
                    a < pairs@.len(),
                    c as nat == pair_count(rp.take(b as int), rp[a as int]),
                decreases pairs@.len() - b,
            {
                proof {
                    assert(rp.take(b + 1).drop_last() =~= rp.take(b as int));
                    assert(rp.take(b + 1).last() == rp[b as int]);
                    assert(pairs.deep_view()[b as int] == (
                        pairs@[b as int].0@,
                        pairs@[b as int].1@,
                    ));
                }
                if str_eq_value(pairs[b].0.as_str(), pairs[a].0.as_str()) && str_eq_value(
                    pairs[b].1.as_str(),
                    pairs[a].1.as_str(),
                ) {
                    proof {
                        assert(rp[b as int] == rp[a as int]);
                    }
                    c = c + 1;
                } else {
                    proof {
                        assert(rp[b as int] != rp[a as int]);
                    }
                }
                b = b + 1;
            }
            proof {
                assert(rp.take(rp.len() as int) =~= rp);
            }
            let from_id = pairs[a].0.clone();
            let to_id = pairs[a].1.clone();
            let from_label = label_for(&lmap, &from_id);
            let to_label = label_for(&lmap, &to_id);
            let ghost epre = edges@;
            edges.push(
                TopologyEdge { from_id, to_id, from_label, to_label, weight: c as u64 },
            );
            proof {
                assert(first_pairs(rp.take(a + 1)) == fp_pre.push(rp[a as int]));
                assert(edges@.len() == first_pairs(rp.take(a + 1)).len());
            }
        } else {
            proof {
                assert(first_pairs(rp.take(a + 1)) == fp_pre);
            }
        }
        a = a + 1;
    }
    proof {
        assert(rp.take(rp.len() as int) =~= rp);
    }
    Ok(TopologyGraph { edges })
}

/// Ordering a visit sequence keeps exactly its elements.
pub proof fn lemma_sort_elements(s: Seq<StopTime>)
    ensures
        forall|w: int|
            0 <= w < sort_by_seq(s).len() ==> s.contains(#[trigger] sort_by_seq(s)[w]),
        sort_by_seq(s).len() == s.len(),
    decreases s.len(),
{
    if s.len() > 0 {
        lemma_sort_elements(s.drop_last());
        lemma_insert_elements(s.last(), sort_by_seq(s.drop_last()));
        assert forall|w: int|
            0 <= w < sort_by_seq(s).len() implies s.contains(#[trigger] sort_by_seq(s)[w]) by {
            let x = sort_by_seq(s)[w];
            if x == s.last() {
                assert(s[s.len() - 1] == x);
            } else {
                assert(sort_by_seq(s.drop_last()).contains(x));
                let u = choose|u: int|
                    0 <= u < sort_by_seq(s.drop_last()).len() && sort_by_seq(s.drop_last())[u] == x;
                lemma_sort_elements(s.drop_last());
                assert(s.drop_last().contains(x));
                let v = choose|v: int| 0 <= v < s.drop_last().len() && s.drop_last()[v] == x;
                assert(s[v] == x);
            }
        }
    }
}

/// Inserting into a visit sequence adds exactly the inserted element.
proof fn lemma_insert_elements(x: StopTime, s: Seq<StopTime>)
    ensures
        insert_by_seq(x, s).len() == s.len() + 1,
        forall|w: int|
            0 <= w < insert_by_seq(x, s).len() ==> (#[trigger] insert_by_seq(x, s)[w] == x
                || s.contains(insert_by_seq(x, s)[w])),
    decreases s.len(),
{
    if s.len() == 0 {
    } else if seq_no(x) < seq_no(s.last()) {
        lemma_insert_elements(x, s.drop_last());
        assert forall|w: int|
            0 <= w < insert_by_seq(x, s).len() implies (#[trigger] insert_by_seq(x, s)[w] == x
            || s.contains(insert_by_seq(x, s)[w])) by {
            let y = insert_by_seq(x, s)[w];
            if w < insert_by_seq(x, s).len() - 1 {
                assert(y == insert_by_seq(x, s.drop_last())[w]);
                if y != x {
                    assert(s.drop_last().contains(y));
                    let v = choose|v: int|
                        0 <= v < s.drop_last().len() && s.drop_last()[v] == y;
                    assert(s[v] == y);
                }
            } else {
                assert(y == s.last());
                assert(s[s.len() - 1] == y);
            }
        }
    } else {
        assert forall|w: int|
            0 <= w < insert_by_seq(x, s).len() implies (#[trigger] insert_by_seq(x, s)[w] == x
            || s.contains(insert_by_seq(x, s)[w])) by {
            let y = insert_by_seq(x, s)[w];
            if w < s.len() {
                assert(s[w] == y);
            }
        }
    }
}

// ---------------------------------------------------------------------------
// What the graph construction guarantees.
// ---------------------------------------------------------------------------

/// A movement list whose every element is the same pair folds into that
/// single pair, counted once per element.
proof fn lemma_constant_pairs(ps: Seq<(Seq<char>, Seq<char>)>, p: (Seq<char>, Seq<char>))
    requires
        forall|i: int| 0 <= i < ps.len() ==> #[trigger] ps[i] == p,
    ensures
        pair_count(ps, p) == ps.len(),
        forall|q: (Seq<char>, Seq<char>)| q != p ==> pair_count(ps, q) == 0,
        ps.len() > 0 ==> first_pairs(ps) == seq![p],
    decreases ps.len(),
{
    if ps.len() > 0 {
        assert(forall|i: int| 0 <= i < ps.len() - 1 ==> #[trigger] ps.drop_last()[i] == ps[i]);
        lemma_constant_pairs(ps.drop_last(), p);
        assert(ps.last() == p);
        assert forall|q: (Seq<char>, Seq<char>)| q != p implies pair_count(ps, q) == 0 by {
            assert(pair_count(ps.drop_last(), q) == 0);
        }
        if ps.len() == 1 {
            assert(ps.drop_last() =~= Seq::<(Seq<char>, Seq<char>)>::empty());
            assert(first_pairs(Seq::<(Seq<char>, Seq<char>)>::empty())
                =~= Seq::<(Seq<char>, Seq<char>)>::empty());
            assert(first_pairs(ps) =~= seq![p]);
        } else {
            assert(first_pairs(ps.drop_last()).contains(p)) by {
                assert(first_pairs(ps.drop_last())[0] == p);
            }
        }
    }
}

/// A route on which every trip visits effective nodes [a, b], in that
/// order, yields exactly one directed edge a→b, traversed once per trip:
/// its movement list is one (a, b) pair per trip, so the pair's count is
/// the number of trips and no other pair occurs.
pub proof fn lemma_two_stop_line(
    m: Map<Seq<char>, Stop>,
    sts: Seq<StopTime>,
    tids: Seq<Seq<char>>,
    a: Seq<char>,
    b: Seq<char>,
)
    requires
        forall|k: int|
            0 <= k < tids.len() ==> eff_seq(
                m,
                sort_by_seq(times_of_trip(sts, #[trigger] tids[k])),
            ) == seq![a, b],
    ensures
        route_pairs(m, sts, tids).len() == tids.len(),
        forall|i: int| 0 <= i < tids.len() ==> #[trigger] route_pairs(m, sts, tids)[i] == (a, b),
        pair_count(route_pairs(m, sts, tids), (a, b)) == tids.len(),
        forall|q: (Seq<char>, Seq<char>)| q != (a, b) ==> pair_count(route_pairs(m, sts, tids), q)
            == 0,
        tids.len() > 0 ==> first_pairs(route_pairs(m, sts, tids)) == seq![(a, b)],
    decreases tids.len(),
{
    lemma_pairs_of_two(a, b);
    if tids.len() > 0 {
        assert(forall|k: int| 0 <= k < tids.len() - 1 ==> #[trigger] tids.drop_last()[k] == tids[k]);
        lemma_two_stop_line(m, sts, tids.drop_last(), a, b);
        assert(eff_seq(m, sort_by_seq(times_of_trip(sts, tids.last()))) == seq![a, b]) by {
            assert(tids[tids.len() - 1] == tids.last());
        }
        assert(route_pairs(m, sts, tids) =~= route_pairs(m, sts, tids.drop_last()) + seq![
            (a, b),
        ]);
    }
    assert forall|i: int| 0 <= i < tids.len() implies #[trigger] route_pairs(m, sts, tids)[i] == (
        a,
        b,
    ) by {}
    lemma_constant_pairs(route_pairs(m, sts, tids), (a, b));
}

/// The consecutive pairs of a two-node sequence: the one movement.
proof fn lemma_pairs_of_two(a: Seq<char>, b: Seq<char>)
    ensures
        pairs_of(seq![a, b]) == seq![(a, b)],
{
    let ids = seq![a, b];
    assert(ids.drop_last() =~= seq![a]);
    assert(pairs_of(seq![a]) =~= Seq::<(Seq<char>, Seq<char>)>::empty());
    assert(pairs_of(ids) =~= seq![(a, b)]);
}

/// A single trip that visits effective nodes [a, b, a] yields the two
/// directed edges a→b and b→a, each traversed once: opposite directions
/// are distinct edges, never merged.
pub proof fn lemma_out_and_back(
    m: Map<Seq<char>, Stop>,
    sts: Seq<StopTime>,
    t: Seq<char>,
    a: Seq<char>,
    b: Seq<char>,
)
    requires
        a != b,
        eff_seq(m, sort_by_seq(times_of_trip(sts, t))) == seq![a, b, a],
    ensures
        route_pairs(m, sts, seq![t]) == seq![(a, b), (b, a)],
        pair_count(route_pairs(m, sts, seq![t]), (a, b)) == 1,
        pair_count(route_pairs(m, sts, seq![t]), (b, a)) == 1,
        first_pairs(route_pairs(m, sts, seq![t])) == seq![(a, b), (b, a)],
{
    let ids = seq![a, b, a];
    assert(ids.drop_last() =~= seq![a, b]);
    lemma_pairs_of_two(a, b);
    assert(pairs_of(ids) =~= seq![(a, b), (b, a)]);
    let one = seq![t];
    assert(one.drop_last() =~= Seq::<Seq<char>>::empty());
    assert(one.last() == t);
    assert(route_pairs(m, sts, Seq::<Seq<char>>::empty()) =~= Seq::<(Seq<char>, Seq<char>)>::empty());
    assert(route_pairs(m, sts, one) =~= seq![(a, b), (b, a)]);
    let rp = seq![(a, b), (b, a)];
    assert(rp.drop_last() =~= seq![(a, b)]);
    assert(rp.last() == (b, a));
    let single = seq![(a, b)];
    assert(single.drop_last() =~= Seq::<(Seq<char>, Seq<char>)>::empty());
    assert(single.last() == (a, b));
    assert(pair_count(Seq::<(Seq<char>, Seq<char>)>::empty(), (a, b)) == 0);
    assert(pair_count(Seq::<(Seq<char>, Seq<char>)>::empty(), (b, a)) == 0);
    assert((a, b) != (b, a)) by {
        if (a, b) == (b, a) {
            assert(a == b);
        }
    }
    assert(pair_count(single, (a, b)) == 1);
    assert(pair_count(single, (b, a)) == 0);
    assert(pair_count(rp, (a, b)) == 1);
    assert(pair_count(rp, (b, a)) == 1);
    assert(first_pairs(Seq::<(Seq<char>, Seq<char>)>::empty())
        =~= Seq::<(Seq<char>, Seq<char>)>::empty());
    assert(first_pairs(single) =~= seq![(a, b)]);
    assert(!first_pairs(seq![(a, b)]).contains((b, a))) by {
        if first_pairs(seq![(a, b)]).contains((b, a)) {
            let w = choose|w: int|
                0 <= w < first_pairs(seq![(a, b)]).len() && first_pairs(seq![(a, b)])[w] == (b, a);
            assert(w == 0);
        }
    }
    assert(first_pairs(rp) =~= seq![(a, b), (b, a)]);
}

/// Parent-station collapsing: a visit at a stop whose record names a
/// parent station contributes the parent's identifier to the graph, never
/// the platform-level identifier.
pub proof fn lemma_parent_collapse(m: Map<Seq<char>, Stop>, st: StopTime)
    requires
        st.stop_id.deep_view() matches Some(sid) && m.contains_key(sid) && m[sid].parent_station
            is Some,
    ensures
        eff_of(m, st) == m[st.stop_id.deep_view()->0].parent_station.deep_view()->0,
{
}

/// The visits of one trip are visits of the route.
proof fn lemma_times_elements(sts: Seq<StopTime>, t: Seq<char>)
    ensures
        forall|w: int|
            0 <= w < times_of_trip(sts, t).len() ==> sts.contains(
                #[trigger] times_of_trip(sts, t)[w],
            ),
    decreases sts.len(),
{
    if sts.len() > 0 {
        lemma_times_elements(sts.drop_last(), t);
        assert forall|w: int| 0 <= w < times_of_trip(sts, t).len() implies sts.contains(
            #[trigger] times_of_trip(sts, t)[w],
        ) by {
            let x = times_of_trip(sts, t)[w];
            let rest = times_of_trip(sts.drop_last(), t);
            if w < rest.len() {
                assert(sts.drop_last().contains(x));
                let v = choose|v: int| 0 <= v < sts.drop_last().len() && sts.drop_last()[v] == x;
                assert(sts[v] == x);
            } else {
                assert(x == sts.last());
                assert(sts[sts.len() - 1] == x);
            }
        }
    }
}

/// Each consecutive pair joins two adjacent nodes of its sequence.
proof fn lemma_pairs_of_index(ids: Seq<Seq<char>>, i: int)
    requires
        0 <= i < pairs_of(ids).len(),
    ensures
        pairs_of(ids).len() == (if ids.len() < 2 {
            0int
        } else {
            ids.len() - 1
        }),
        pairs_of(ids)[i] == (ids[i], ids[i + 1]),
    decreases ids.len(),
{
    lemma_pairs_of_len(ids);
    if ids.len() >= 2 && i < ids.len() - 2 {
        lemma_pairs_of_index(ids.drop_last(), i);
        assert(ids.drop_last()[i] == ids[i]);
        assert(ids.drop_last()[i + 1] == ids[i + 1]);
    }
}

proof fn lemma_pairs_of_len(ids: Seq<Seq<char>>)
    ensures
        pairs_of(ids).len() == (if ids.len() < 2 {
            0int
        } else {
            ids.len() - 1
        }),
    decreases ids.len(),
{
    if ids.len() >= 2 {
        lemma_pairs_of_len(ids.drop_last());
    }
}

/// Every endpoint of every movement of the route is the effective node of
/// one of the route's visits. With platform stops collapsed onto their
/// parent stations, the graph's edges therefore run between parent-station
/// nodes, not between platform-level identifiers.
pub proof fn lemma_edge_endpoints(
    m: Map<Seq<char>, Stop>,
    sts: Seq<StopTime>,
    tids: Seq<Seq<char>>,
    i: int,
)
    requires
        0 <= i < route_pairs(m, sts, tids).len(),
    ensures
        exists|j: int|
            0 <= j < sts.len() && #[trigger] route_pairs(m, sts, tids)[i].0 == eff_of(m, sts[j]),
        exists|j: int|
            0 <= j < sts.len() && #[trigger] route_pairs(m, sts, tids)[i].1 == eff_of(m, sts[j]),
    decreases tids.len(),
{
    if tids.len() > 0 {
        let rest = route_pairs(m, sts, tids.drop_last());
        if i < rest.len() {
            lemma_edge_endpoints(m, sts, tids.drop_last(), i);
            assert(route_pairs(m, sts, tids)[i] == rest[i]);
        } else {
            let group = times_of_trip(sts, tids.last());
            let sorted = sort_by_seq(group);
            let ids = eff_seq(m, sorted);
            let w = i - rest.len();
            assert(route_pairs(m, sts, tids)[i] == pairs_of(ids)[w]);
            lemma_pairs_of_index(ids, w);
            crate::visualize::lemma_sort_elements(group);
            lemma_times_elements(sts, tids.last());
            assert(ids[w] == eff_of(m, sorted[w]));
            assert(ids[w + 1] == eff_of(m, sorted[w + 1]));
            assert(group.contains(sorted[w]));
            let u1 = choose|u: int| 0 <= u < group.len() && group[u] == sorted[w];
            assert(sts.contains(group[u1]));
            let j1 = choose|j: int| 0 <= j < sts.len() && sts[j] == group[u1];
            assert(route_pairs(m, sts, tids)[i].0 == eff_of(m, sts[j1]));
            assert(group.contains(sorted[w + 1]));
            let u2 = choose|u: int| 0 <= u < group.len() && group[u] == sorted[w + 1];
            assert(sts.contains(group[u2]));
            let j2 = choose|j: int| 0 <= j < sts.len() && sts[j] == group[u2];
            assert(route_pairs(m, sts, tids)[i].1 == eff_of(m, sts[j2]));
        }
    }
}

} // verus!
