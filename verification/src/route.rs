//! The joined view of one route: its record, the trips that reference it,
//! their timed stop visits, and the stops those visits reference, ordered
//! by identifier for determinism.
use vstd::prelude::*;

verus! {

use crate::archive::GtfsError;
use crate::archive::GtfsFile;
use crate::fields::cell;
use crate::fields::opt_cell;
use crate::gtfs::Route;
use crate::gtfs::Stop;
use crate::gtfs::StopTime;
use crate::gtfs::Trip;
use crate::gtfs::route_key;
use crate::gtfs::stop_key;
use crate::idmap::IdMap;
use crate::idmap::id_map_of;
use crate::idmap::last_row_with;
use crate::idmap::lemma_id_map_rows;
use crate::table::GtfsObject;
use crate::table::lemma_padded_rows_len;
use crate::table::lemma_table_lenient_matches_data;
use crate::table::lemma_table_matches_data;
use crate::table::padded_rows;
use crate::table::table_data;
use crate::table::table_decodes;
use crate::table::table_decodes_lenient;
use crate::table::table_header;
use crate::text::lemma_lex_total;
use crate::text::lemma_lex_trans;
use crate::text::lex_lt;
use crate::text::str_eq_value;
use crate::text::str_lex_lt;

/// One route with everything a detail query joins to it.
#[derive(Debug, Clone)]
pub struct FullRoute {
    pub route_description: Route,
    pub trips: Vec<Trip>,
    pub associated_stop_times: Vec<StopTime>,
    pub associated_stops: Vec<Stop>,
}

// ---------------------------------------------------------------------------
// Indexing by identifier.
// ---------------------------------------------------------------------------

/// Index routes by identifier; duplicate identifiers overwrite, last wins.
pub fn routes_hash(routes: Vec<Route>) -> (m: IdMap<Route>)
    ensures
        m.wf(),
        m.map_view() == id_map_of(routes@, route_key()),
{
    let mut m: IdMap<Route> = IdMap::new();
    let mut i: usize = 0;
    proof {
        assert(routes@.take(0) =~= Seq::<Route>::empty());
    }
    while i < routes.len()
        invariant
            i <= routes@.len(),
            m.wf(),
            m.map_view() == id_map_of(routes@.take(i as int), route_key()),
        decreases routes@.len() - i,
    {
        proof {
            assert(routes@.take(i + 1).drop_last() =~= routes@.take(i as int));
            assert(routes@.take(i + 1).last() == routes@[i as int]);
        }
        let k = routes[i].route_id.clone();
        let v = routes[i].duplicate();
        m.insert(k, v);
        i = i + 1;
    }
    proof {
        assert(routes@.take(routes@.len() as int) =~= routes@);
    }
    m
}

/// Index stops by identifier; duplicate identifiers overwrite, last wins.
pub fn stopid_stops_hash(stops: &Vec<Stop>) -> (m: IdMap<Stop>)
    ensures
        m.wf(),
        m.map_view() == id_map_of(stops@, stop_key()),
{
    let mut m: IdMap<Stop> = IdMap::new();
    let mut i: usize = 0;
    proof {
        assert(stops@.take(0) =~= Seq::<Stop>::empty());
    }
    while i < stops.len()
        invariant
            i <= stops@.len(),
            m.wf(),
            m.map_view() == id_map_of(stops@.take(i as int), stop_key()),
        decreases stops@.len() - i,
    {
        proof {
            assert(stops@.take(i + 1).drop_last() =~= stops@.take(i as int));
            assert(stops@.take(i + 1).last() == stops@[i as int]);
        }
        let k = stops[i].stop_id.clone();
        let v = stops[i].duplicate();
        m.insert(k, v);
        i = i + 1;
    }
    proof {
        assert(stops@.take(stops@.len() as int) =~= stops@);
    }
    m
}

// ---------------------------------------------------------------------------
// Trips of a route.
// ---------------------------------------------------------------------------

/// The data rows whose route reference is exactly `id`, in table order.
pub open spec fn matching_trip_rows(
    h: Seq<Seq<char>>,
    d: Seq<Seq<Seq<char>>>,
    id: Seq<char>,
) -> Seq<Seq<Seq<char>>>
    decreases d.len(),
{
    if d.len() == 0 {
        Seq::<Seq<Seq<char>>>::empty()
    } else {
        let rest = matching_trip_rows(h, d.drop_last(), id);
        if cell(h, d.last(), "route_id"@) == Some(id) {
            rest.push(d.last())
        } else {
            rest
        }
    }
}

/// What `get_trips` returns on success: the decoded records of exactly the
/// trip rows whose route reference equals the queried identifier, in table
/// order.
pub open spec fn trips_result_ok(file: GtfsFile, id: Seq<char>, v: Seq<Trip>) -> bool {
    let h = table_header::<Trip>(file);
    let m = matching_trip_rows(h, table_data::<Trip>(file), id);
    &&& v.len() == m.len()
    &&& forall|i: int| 0 <= i < v.len() ==> Trip::row_matches(h, m[i], #[trigger] v[i])
    &&& forall|i: int| 0 <= i < v.len() ==> (#[trigger] v[i]).route_id@ == id
}

/// All trips whose route reference equals `route_id`: a linear scan with
/// exact identifier matching.
pub fn get_trips(file: &GtfsFile, route_id: &str) -> (r: Result<Vec<Trip>, GtfsError>)
    ensures
        r is Ok <==> table_decodes::<Trip>(*file),
        r matches Ok(v) ==> trips_result_ok(*file, route_id@, v@),
        r matches Err(e) ==> (e == GtfsError::MissingFile <==> file.text_of(Trip::spec_file())
            is None),
        r matches Err(e) ==> e == GtfsError::MissingFile || e == GtfsError::Decode,
{
    let trips = match file.read_vec::<Trip>() {
        Ok(v) => v,
        Err(e) => {
            return Err(e);
        },
    };
    let ghost h = table_header::<Trip>(*file);
    let ghost d = table_data::<Trip>(*file);
    proof {
        lemma_table_matches_data::<Trip>(*file, trips@);
        assert(d.take(0) =~= Seq::<Seq<Seq<char>>>::empty());
    }
    let mut out: Vec<Trip> = Vec::new();
    let mut i: usize = 0;
    while i < trips.len()
        invariant
            i <= trips@.len(),
            h == table_header::<Trip>(*file),
            d == table_data::<Trip>(*file),
            trips@.len() == d.len(),
            forall|j: int| 0 <= j < trips@.len() ==> Trip::row_matches(h, d[j], #[trigger] trips@[j]),
            out@.len() == matching_trip_rows(h, d.take(i as int), route_id@).len(),
            forall|j: int|
                0 <= j < out@.len() ==> Trip::row_matches(
                    h,
                    matching_trip_rows(h, d.take(i as int), route_id@)[j],
                    #[trigger] out@[j],
                ),
            forall|j: int| 0 <= j < out@.len() ==> (#[trigger] out@[j]).route_id@ == route_id@,
        decreases trips@.len() - i,
    {
        proof {
            assert(d.take(i + 1).drop_last() =~= d.take(i as int));
            assert(d.take(i + 1).last() == d[i as int]);
            assert(Trip::row_matches(h, d[i as int], trips@[i as int]));
        }
        let ghost prev = matching_trip_rows(h, d.take(i as int), route_id@);
        if str_eq_value(trips[i].route_id.as_str(), route_id) {
            out.push(trips[i].duplicate());
            proof {
                assert(matching_trip_rows(h, d.take(i + 1), route_id@) == prev.push(d[i as int]));
            }
        } else {
            proof {
                assert(matching_trip_rows(h, d.take(i + 1), route_id@) == prev);
            }
        }
        i = i + 1;
    }
    proof {
        assert(d.take(d.len() as int) =~= d);
    }
    Ok(out)
}

// ---------------------------------------------------------------------------
// Stop times of a trip set.
// ---------------------------------------------------------------------------

/// The identifiers of a sequence of trips, in order.
pub open spec fn seq_trip_ids(ts: Seq<Trip>) -> Seq<Seq<char>> {
    Seq::new(ts.len(), |i: int| ts[i].trip_id@)
}

/// The (repaired) data rows whose trip reference is one of `ids`.
pub open spec fn matching_stop_time_rows(
    h: Seq<Seq<char>>,
    d: Seq<Seq<Seq<char>>>,
    ids: Seq<Seq<char>>,
) -> Seq<Seq<Seq<char>>>
    decreases d.len(),
{
    if d.len() == 0 {
        Seq::<Seq<Seq<char>>>::empty()
    } else {
        let rest = matching_stop_time_rows(h, d.drop_last(), ids);
        if opt_cell(h, d.last(), "trip_id"@) matches Some(t) && ids.contains(t) {
            rest.push(d.last())
        } else {
            rest
        }
    }
}

/// What `get_stop_times` returns on success: the decoded records of
/// exactly the repaired stop-time rows whose trip reference is among the
/// given trip identifiers, in table order.
pub open spec fn stop_times_result_ok(file: GtfsFile, ids: Seq<Seq<char>>, v: Seq<StopTime>) -> bool {
    let h = table_header::<StopTime>(file);
    let pd = padded_rows(table_data::<StopTime>(file), h.len() as int);
    let m = matching_stop_time_rows(h, pd, ids);
    &&& v.len() == m.len()
    &&& forall|i: int| 0 <= i < v.len() ==> StopTime::row_matches(h, m[i], #[trigger] v[i])
    &&& forall|i: int|
        0 <= i < v.len() ==> ((#[trigger] v[i]).trip_id.deep_view() matches Some(t)
            && ids.contains(t))
}

/// Whether one of the held identifiers equals `s`.
pub fn ids_contain(ids: &Vec<String>, s: &str) -> (r: bool)
    ensures
        r == ids.deep_view().contains(s@),
{
    let mut i: usize = 0;
    while i < ids.len()
        invariant
            i <= ids@.len(),
            forall|j: int| 0 <= j < i ==> ids.deep_view()[j] != s@,
        decreases ids@.len() - i,
    {
        proof {
            assert(ids.deep_view()[i as int] == ids@[i as int]@);
        }
        if str_eq_value(ids[i].as_str(), s) {
            return true;
        }
        i = i + 1;
    }
    proof {
        if ids.deep_view().contains(s@) {
            let j = choose|j: int|
                0 <= j < ids.deep_view().len() && ids.deep_view()[j] == s@;
            assert(ids.deep_view()[j] != s@);
        }
    }
    false
}

/// All stop-time rows whose trip reference is among the given trips; the
/// stop-time table is read with short-row repair.
pub fn get_stop_times(file: &GtfsFile, trips: &Vec<Trip>) -> (r: Result<Vec<StopTime>, GtfsError>)
    ensures
        r is Ok <==> table_decodes_lenient::<StopTime>(*file),
        r matches Ok(v) ==> stop_times_result_ok(*file, seq_trip_ids(trips@), v@),
        r matches Err(e) ==> (e == GtfsError::MissingFile <==> file.text_of(StopTime::spec_file())
            is None),
        r matches Err(e) ==> e == GtfsError::MissingFile || e == GtfsError::Decode,
{
    let mut trip_ids: Vec<String> = Vec::new();
    let mut t: usize = 0;
    while t < trips.len()
        invariant
            t <= trips@.len(),
            trip_ids.deep_view().len() == t,
            forall|j: int| 0 <= j < t ==> trip_ids.deep_view()[j] == seq_trip_ids(trips@)[j],
        decreases trips@.len() - t,
    {
        let ghost pre = trip_ids.deep_view();
        let id = trips[t].trip_id.clone();
        trip_ids.push(id);
        proof {
            assert(trip_ids.deep_view() =~= pre.push(id@));
        }
        t = t + 1;
    }
    proof {
        assert(trip_ids.deep_view() =~= seq_trip_ids(trips@));
    }
    let sts = match StopTime::from_gtfs_file(file) {
        Ok(v) => v,
        Err(e) => {
            return Err(e);
        },
    };
    let ghost h = table_header::<StopTime>(*file);
    let ghost pd = padded_rows(table_data::<StopTime>(*file), h.len() as int);
    let ghost ids = seq_trip_ids(trips@);
    proof {
        lemma_table_lenient_matches_data::<StopTime>(*file, sts@);
        lemma_padded_rows_len(table_data::<StopTime>(*file), h.len() as int);
        assert(pd.take(0) =~= Seq::<Seq<Seq<char>>>::empty());
    }
    let mut out: Vec<StopTime> = Vec::new();
    let mut i: usize = 0;
    while i < sts.len()
        invariant
            i <= sts@.len(),
            h == table_header::<StopTime>(*file),
            pd == padded_rows(table_data::<StopTime>(*file), h.len() as int),
            ids == seq_trip_ids(trips@),
            trip_ids.deep_view() == ids,
            sts@.len() == pd.len(),
            forall|j: int|
                0 <= j < sts@.len() ==> StopTime::row_matches(h, pd[j], #[trigger] sts@[j]),
            out@.len() == matching_stop_time_rows(h, pd.take(i as int), ids).len(),
            forall|j: int|
                0 <= j < out@.len() ==> StopTime::row_matches(
                    h,
                    matching_stop_time_rows(h, pd.take(i as int), ids)[j],
                    #[trigger] out@[j],
                ),
            forall|j: int|
                0 <= j < out@.len() ==> ((#[trigger] out@[j]).trip_id.deep_view() matches Some(t)
                    && ids.contains(t)),
        decreases sts@.len() - i,
    {
        proof {
            assert(pd.take(i + 1).drop_last() =~= pd.take(i as int));
            assert(pd.take(i + 1).last() == pd[i as int]);
            assert(StopTime::row_matches(h, pd[i as int], sts@[i as int]));
        }
        let ghost prev = matching_stop_time_rows(h, pd.take(i as int), ids);
        let keep = match &sts[i].trip_id {
            Some(tid) => ids_contain(&trip_ids, tid.as_str()),
            None => false,
        };
        if keep {
            out.push(sts[i].duplicate());
            proof {
                assert(matching_stop_time_rows(h, pd.take(i + 1), ids) == prev.push(pd[i as int]));
            }
        } else {
            proof {
                assert(matching_stop_time_rows(h, pd.take(i + 1), ids) == prev);
            }
        }
        i = i + 1;
    }
    proof {
        assert(pd.take(pd.len() as int) =~= pd);
    }
    Ok(out)
}

// ---------------------------------------------------------------------------
// Stops referenced by a stop-time set, de-duplicated, ordered by identifier.
// ---------------------------------------------------------------------------

/// Some element of `s` has the given stop identifier.
pub open spec fn contains_stop_with(s: Seq<Stop>, id: Seq<char>) -> bool {
    exists|i: int| 0 <= i < s.len() && (#[trigger] s[i]).stop_id@ == id
}

/// Strictly ascending by stop identifier: sorted, with no duplicates.
pub open spec fn stops_sorted(s: Seq<Stop>) -> bool {
    forall|i: int, j: int|
        0 <= i < j < s.len() ==> lex_lt((#[trigger] s[i]).stop_id@, (#[trigger] s[j]).stop_id@)
}

/// Every visit carries a stop reference.
pub open spec fn st_refs_ok(sts: Seq<StopTime>) -> bool {
    forall|i: int| 0 <= i < sts.len() ==> (#[trigger] sts[i]).stop_id is Some
}

/// Some visit references the given stop identifier.
pub open spec fn referenced_id(sts: Seq<StopTime>, id: Seq<char>) -> bool {
    exists|i: int| 0 <= i < sts.len() && (#[trigger] sts[i]).stop_id.deep_view() == Some(id)
}

/// Some data row of the stop table declares the given identifier.
pub open spec fn stop_table_has_id(h: Seq<Seq<char>>, d: Seq<Seq<Seq<char>>>, id: Seq<char>) -> bool {
    exists|i: int| 0 <= i < d.len() && cell(h, #[trigger] d[i], "stop_id"@) == Some(id)
}

/// What `get_stops` returns on success: one stop per referenced identifier
/// found in the table, the record of the identifier's last table row,
/// strictly ordered by identifier.
pub open spec fn stops_result_ok(file: GtfsFile, sts: Seq<StopTime>, v: Seq<Stop>) -> bool {
    let h = table_header::<Stop>(file);
    let d = table_data::<Stop>(file);
    &&& stops_sorted(v)
    &&& forall|id: Seq<char>|
        #![trigger contains_stop_with(v, id)]
        #![trigger referenced_id(sts, id)]
        contains_stop_with(v, id) <==> (referenced_id(sts, id) && stop_table_has_id(h, d, id))
    &&& forall|i: int|
        0 <= i < v.len() ==> ({
            let j = last_row_with(h, d, "stop_id"@, (#[trigger] v[i]).stop_id@);
            &&& 0 <= j < d.len()
            &&& Stop::row_matches(h, d[j], v[i])
        })
}

/// Insert a stop into a strictly ordered sequence; an element with the
/// same identifier is already in place and the sequence is kept.
fn insert_stop_sorted(out: &mut Vec<Stop>, s: Stop)
    requires
        stops_sorted(old(out)@),
    ensures
        stops_sorted(final(out)@),
        forall|x: Stop| final(out)@.contains(x) ==> old(out)@.contains(x) || x == s,
        forall|x: Stop| old(out)@.contains(x) ==> final(out)@.contains(x),
        forall|id: Seq<char>|
            #![trigger contains_stop_with(final(out)@, id)]
            contains_stop_with(final(out)@, id) <==> (contains_stop_with(old(out)@, id) || id
                == s.stop_id@),
{
    let mut i: usize = 0;
    while i < out.len()
        invariant
            *out == *old(out),
            stops_sorted(old(out)@),
            i <= out@.len(),
            forall|j: int| 0 <= j < i ==> lex_lt((#[trigger] out@[j]).stop_id@, s.stop_id@),
        decreases out@.len() - i,
    {
        if str_eq_value(out[i].stop_id.as_str(), s.stop_id.as_str()) {
            proof {
                assert(contains_stop_with(out@, s.stop_id@)) by {
                    assert((out@[i as int]).stop_id@ == s.stop_id@);
                }
                assert forall|id: Seq<char>|
                    contains_stop_with(out@, id) <==> (contains_stop_with(old(out)@, id) || id
                        == s.stop_id@) by {}
            }
            return ;
        }
        if !str_lex_lt(out[i].stop_id.as_str(), s.stop_id.as_str()) {
            proof {
                lemma_lex_total(out@[i as int].stop_id@, s.stop_id@);
                assert(lex_lt(s.stop_id@, out@[i as int].stop_id@));
            }
            let ghost pre = out@;
            out.insert(i, s);
            proof {
                assert(out@ =~= pre.take(i as int) + seq![s] + pre.skip(i as int));
                assert(forall|a: int| 0 <= a < i ==> out@[a] == pre[a]);
                assert(out@[i as int] == s);
                assert(forall|b: int| i < b < out@.len() ==> out@[b] == pre[b - 1]);
                assert forall|a: int, b: int| 0 <= a < b < out@.len() implies lex_lt(
                    (#[trigger] out@[a]).stop_id@,
                    (#[trigger] out@[b]).stop_id@,
                ) by {
                    if a < i && b == i {
                    } else if a == i && b > i {
                        if b - 1 > i {
                            lemma_lex_trans(
                                s.stop_id@,
                                pre[i as int].stop_id@,
                                pre[b - 1].stop_id@,
                            );
                        }
                    } else if a < i && b > i {
                    } else if a > i && b > i {
                    }
                }
                assert forall|x: Stop| out@.contains(x) implies pre.contains(x) || x == s by {
                    let w = choose|w: int| 0 <= w < out@.len() && out@[w] == x;
                    if w < i {
                        assert(pre[w] == x);
                    } else if w > i {
                        assert(pre[w - 1] == x);
                    }
                }
                assert forall|x: Stop| pre.contains(x) implies out@.contains(x) by {
                    let w = choose|w: int| 0 <= w < pre.len() && pre[w] == x;
                    if w < i {
                        assert(out@[w] == x);
                    } else {
                        assert(out@[w + 1] == x);
                    }
                }
                assert forall|id: Seq<char>|
                    contains_stop_with(out@, id) <==> (contains_stop_with(pre, id) || id
                        == s.stop_id@) by {
                    if contains_stop_with(out@, id) {
                        let w = choose|w: int|
                            0 <= w < out@.len() && (#[trigger] out@[w]).stop_id@ == id;
                        if w < i {
                            assert(pre[w].stop_id@ == id);
                        } else if w > i {
                            assert(pre[w - 1].stop_id@ == id);
                        }
                    }
                    if contains_stop_with(pre, id) {
                        let w = choose|w: int|
                            0 <= w < pre.len() && (#[trigger] pre[w]).stop_id@ == id;
                        if w < i {
                            assert(out@[w].stop_id@ == id);
                        } else {
                            assert(out@[w + 1].stop_id@ == id);
                        }
                    }
                    if id == s.stop_id@ {
                        assert(out@[i as int].stop_id@ == id);
                    }
                }
            }
            return ;
        }
        i = i + 1;
    }
    let ghost pre = out@;
    out.push(s);
    proof {
        assert(out@ =~= pre.push(s));
        assert forall|a: int, b: int| 0 <= a < b < out@.len() implies lex_lt(
            (#[trigger] out@[a]).stop_id@,
            (#[trigger] out@[b]).stop_id@,
        ) by {
            if b == out@.len() - 1 {
                assert(out@[a] == pre[a]);
            }
        }
        assert forall|id: Seq<char>|
            contains_stop_with(out@, id) <==> (contains_stop_with(pre, id) || id == s.stop_id@) by {
            if contains_stop_with(out@, id) {
                let w = choose|w: int| 0 <= w < out@.len() && (#[trigger] out@[w]).stop_id@ == id;
                if w < pre.len() {
                    assert(pre[w].stop_id@ == id);
                }
            }
            if contains_stop_with(pre, id) {
                let w = choose|w: int| 0 <= w < pre.len() && (#[trigger] pre[w]).stop_id@ == id;
                assert(out@[w].stop_id@ == id);
            }
            if id == s.stop_id@ {
                assert(out@[out@.len() - 1].stop_id@ == id);
            }
        }
        assert forall|x: Stop| pre.contains(x) implies out@.contains(x) by {
            let w = choose|w: int| 0 <= w < pre.len() && pre[w] == x;
            assert(out@[w] == x);
        }
        assert forall|x: Stop| out@.contains(x) implies pre.contains(x) || x == s by {
            let w = choose|w: int| 0 <= w < out@.len() && out@[w] == x;
            if w < pre.len() {
                assert(pre[w] == x);
            }
        }
    }
}

/// The stops referenced by the given visits, resolved in the stop table,
/// de-duplicated by identifier and ordered by identifier; a visit without
/// a stop reference is a referential error; a reference absent from the
/// table is skipped.
pub fn get_stops(file: &GtfsFile, stop_times: &Vec<StopTime>) -> (r: Result<Vec<Stop>, GtfsError>)
    ensures
        r is Ok <==> (table_decodes::<Stop>(*file) && st_refs_ok(stop_times@)),
        r matches Ok(v) ==> stops_result_ok(*file, stop_times@, v@),
        r matches Err(e) ==> (e == GtfsError::MissingFile <==> file.text_of(Stop::spec_file())
            is None),
        r matches Err(e) ==> (e == GtfsError::Referential <==> (table_decodes::<Stop>(*file)
            && !st_refs_ok(stop_times@))),
        r matches Err(e) ==> e == GtfsError::MissingFile || e == GtfsError::Decode
            || e == GtfsError::Referential,
{
    let stops = match Stop::from_gtfs_file(file) {
        Ok(v) => v,
        Err(e) => {
            return Err(e);
        },
    };
    let smap = stopid_stops_hash(&stops);
    let ghost h = table_header::<Stop>(*file);
    let ghost d = table_data::<Stop>(*file);
    proof {
        lemma_table_matches_data::<Stop>(*file, stops@);
        assert(forall|i: int|
            0 <= i < stops@.len() ==> cell(h, #[trigger] d[i], "stop_id"@) == Some(
                stop_key()(stops@[i]),
            ));
    }
    let mut out: Vec<Stop> = Vec::new();
    let mut k: usize = 0;
    while k < stop_times.len()
        invariant
            k <= stop_times@.len(),
            h == table_header::<Stop>(*file),
            d == table_data::<Stop>(*file),
            table_decodes::<Stop>(*file),
            stops@.len() == d.len(),
            forall|i: int| 0 <= i < stops@.len() ==> Stop::row_matches(h, d[i], #[trigger] stops@[i]),
            forall|i: int|
                0 <= i < stops@.len() ==> cell(h, #[trigger] d[i], "stop_id"@) == Some(
                    stop_key()(stops@[i]),
                ),
            smap.wf(),
            smap.map_view() == id_map_of(stops@, stop_key()),
            forall|j: int| 0 <= j < k ==> (#[trigger] stop_times@[j]).stop_id is Some,
            stops_sorted(out@),
            forall|i: int|
                0 <= i < out@.len() ==> smap.map_view().contains_key((#[trigger] out@[i]).stop_id@)
                    && out@[i] == smap.map_view()[out@[i].stop_id@],
            forall|id: Seq<char>|
                #![trigger contains_stop_with(out@, id)]
                contains_stop_with(out@, id) <==> ((exists|j: int|
                    0 <= j < k && (#[trigger] stop_times@[j]).stop_id.deep_view() == Some(id))
                    && smap.map_view().contains_key(id)),
        decreases stop_times@.len() - k,
    {
        let sid = match &stop_times[k].stop_id {
            Some(sid) => sid,
            None => {
                return Err(GtfsError::Referential);
            },
        };
        let ghost pre = out@;
        match smap.get(sid.as_str()) {
            Some(st) => {
                let dup = st.duplicate();
                proof {
                    assert(stop_key()(smap.map_view()[sid@]) == sid@) by {
                        lemma_id_map_rows::<Stop>(
                            h,
                            d,
                            stops@,
                            stop_key(),
                            "stop_id"@,
                            |hh: Seq<Seq<char>>, row: Seq<Seq<char>>, t: Stop|
                                Stop::row_matches(hh, row, t),
                            sid@,
                        );
                    }
                    assert(dup.stop_id@ == sid@);
                }
                insert_stop_sorted(&mut out, dup);
                proof {
                    assert forall|i: int|
                        0 <= i < out@.len() implies smap.map_view().contains_key(
                        (#[trigger] out@[i]).stop_id@,
                    ) && out@[i] == smap.map_view()[out@[i].stop_id@] by {
                        assert(out@.contains(out@[i]));
                        if pre.contains(out@[i]) {
                            let w = choose|w: int| 0 <= w < pre.len() && pre[w] == out@[i];
                            assert(pre[w] == smap.map_view()[pre[w].stop_id@]);
                        }
                    }
                    assert forall|id: Seq<char>|
                        #![trigger contains_stop_with(out@, id)]
                        contains_stop_with(out@, id) <==> ((exists|j: int|
                            0 <= j < k + 1 && (#[trigger] stop_times@[j]).stop_id.deep_view()
                                == Some(id)) && smap.map_view().contains_key(id)) by {
                        if id == sid@ {
                            assert(stop_times@[k as int].stop_id.deep_view() == Some(id));
                        }
                        if contains_stop_with(out@, id) && id != sid@ {
                            assert(contains_stop_with(pre, id));
                        }
                        if (exists|j: int|
                            0 <= j < k + 1 && (#[trigger] stop_times@[j]).stop_id.deep_view()
                                == Some(id)) && smap.map_view().contains_key(id) && id != sid@ {
                            let j = choose|j: int|
                                0 <= j < k + 1 && (#[trigger] stop_times@[j]).stop_id.deep_view()
                                    == Some(id);
                            assert(0 <= j < k);
                            assert(contains_stop_with(pre, id));
                        }
                    }
                }
            },
            None => {
                proof {
                    assert forall|id: Seq<char>|
                        #![trigger contains_stop_with(out@, id)]
                        contains_stop_with(out@, id) <==> ((exists|j: int|
                            0 <= j < k + 1 && (#[trigger] stop_times@[j]).stop_id.deep_view()
                                == Some(id)) && smap.map_view().contains_key(id)) by {
                        if (exists|j: int|
                            0 <= j < k + 1 && (#[trigger] stop_times@[j]).stop_id.deep_view()
                                == Some(id)) && smap.map_view().contains_key(id) {
                            let j = choose|j: int|
                                0 <= j < k + 1 && (#[trigger] stop_times@[j]).stop_id.deep_view()
                                    == Some(id);
                            if j == k {
                                assert(id == sid@);
                                assert(false);
                            }
                        }
                    }
                }
            },
        }
        k = k + 1;
    }
    proof {
        assert forall|id: Seq<char>|
            #![trigger contains_stop_with(out@, id)]
            contains_stop_with(out@, id) <==> (referenced_id(stop_times@, id) && stop_table_has_id(
            h,
            d,
            id,
        )) by {
            lemma_id_map_rows::<Stop>(
                h,
                d,
                stops@,
                stop_key(),
                "stop_id"@,
                |hh: Seq<Seq<char>>, row: Seq<Seq<char>>, t: Stop| Stop::row_matches(hh, row, t),
                id,
            );
        }
        assert forall|i: int| 0 <= i < out@.len() implies ({
            let j = last_row_with(h, d, "stop_id"@, (#[trigger] out@[i]).stop_id@);
            &&& 0 <= j < d.len()
            &&& Stop::row_matches(h, d[j], out@[i])
        }) by {
            lemma_id_map_rows::<Stop>(
                h,
                d,
                stops@,
                stop_key(),
                "stop_id"@,
                |hh: Seq<Seq<char>>, row: Seq<Seq<char>>, t: Stop| Stop::row_matches(hh, row, t),
                out@[i].stop_id@,
            );
        }
    }
    Ok(out)
}

// ---------------------------------------------------------------------------
// The route record itself, and the joined detail.
// ---------------------------------------------------------------------------

/// What `get_route_description` returns on success.
pub open spec fn route_desc_ok(file: GtfsFile, id: Seq<char>, o: Option<Route>) -> bool {
    let h = table_header::<Route>(file);
    let d = table_data::<Route>(file);
    &&& (o is Some <==> exists|i: int|
        0 <= i < d.len() && cell(h, #[trigger] d[i], "route_id"@) == Some(id))
    &&& (o matches Some(rt) ==> rt.route_id@ == id && ({
        let j = last_row_with(h, d, "route_id"@, id);
        &&& 0 <= j < d.len()
        &&& Route::row_matches(h, d[j], rt)
    }))
}

/// The route with the given identifier, if the table holds one; of several
/// rows with the identifier, the last one wins.
pub fn get_route_description(file: &GtfsFile, id: &String) -> (r: Result<Option<Route>, GtfsError>)
    ensures
        r is Ok <==> table_decodes::<Route>(*file),
        r matches Ok(o) ==> route_desc_ok(*file, id@, o),
        r matches Err(e) ==> (e == GtfsError::MissingFile <==> file.text_of(Route::spec_file())
            is None),
        r matches Err(e) ==> e == GtfsError::MissingFile || e == GtfsError::Decode,
{
    let routes = match file.read_vec::<Route>() {
        Ok(v) => v,
        Err(e) => {
            return Err(e);
        },
    };
    let ghost h = table_header::<Route>(*file);
    let ghost d = table_data::<Route>(*file);
    proof {
        lemma_table_matches_data::<Route>(*file, routes@);
        assert(forall|i: int|
            0 <= i < routes@.len() ==> cell(h, #[trigger] d[i], "route_id"@) == Some(
                route_key()(routes@[i]),
            ));
    }
    let routes_map = routes_hash(routes);
    proof {
        lemma_id_map_rows::<Route>(
            h,
            d,
            routes@,
            route_key(),
            "route_id"@,
            |hh: Seq<Seq<char>>, row: Seq<Seq<char>>, t: Route| Route::row_matches(hh, row, t),
            id@,
        );
    }
    match routes_map.get(id.as_str()) {
        Some(rt) => Ok(Some(rt.duplicate())),
        None => Ok(None),
    }
}

/// The identifiers carried by the trip reference column of a row set.
pub open spec fn row_trip_ids(h: Seq<Seq<char>>, rows: Seq<Seq<Seq<char>>>) -> Seq<Seq<char>> {
    Seq::new(rows.len(), |i: int| cell(h, rows[i], "trip_id"@)->0)
}

/// Every row of the set carries a stop reference.
pub open spec fn rows_have_stop_refs(h: Seq<Seq<char>>, rows: Seq<Seq<Seq<char>>>) -> bool {
    forall|i: int| 0 <= i < rows.len() ==> opt_cell(h, #[trigger] rows[i], "stop_id"@) is Some
}

/// The route's join can be completed: every repaired stop-time row of one
/// of the route's trips carries a stop reference.
pub open spec fn route_join_refs_ok(file: GtfsFile, id: Seq<char>) -> bool {
    let ht = table_header::<Trip>(file);
    let ids = row_trip_ids(ht, matching_trip_rows(ht, table_data::<Trip>(file), id));
    let h = table_header::<StopTime>(file);
    let pd = padded_rows(table_data::<StopTime>(file), h.len() as int);
    rows_have_stop_refs(h, matching_stop_time_rows(h, pd, ids))
}

/// The route table declares the identifier.
pub open spec fn route_exists(file: GtfsFile, id: Seq<char>) -> bool {
    exists|i: int|
        0 <= i < table_data::<Route>(file).len() && cell(
            table_header::<Route>(file),
            #[trigger] table_data::<Route>(file)[i],
            "route_id"@,
        ) == Some(id)
}

/// What `extract_route_info` returns when the route exists: every joined
/// component satisfies its own result description, each built from the one
/// before it.
pub open spec fn full_route_ok(file: GtfsFile, id: Seq<char>, fr: FullRoute) -> bool {
    &&& route_desc_ok(file, id, Some(fr.route_description))
    &&& trips_result_ok(file, id, fr.trips@)
    &&& stop_times_result_ok(file, seq_trip_ids(fr.trips@), fr.associated_stop_times@)
    &&& stops_result_ok(file, fr.associated_stop_times@, fr.associated_stops@)
}

/// The joined detail of one route: its record, the trips that reference
/// it, their timed stop visits, and the visited stops, de-duplicated and
/// ordered by identifier. An unknown route identifier yields no detail;
/// a visit without a stop reference is a referential error.
pub fn extract_route_info(file: &GtfsFile, id: &String) -> (r: Result<Option<FullRoute>, GtfsError>)
    ensures
        r is Ok <==> (table_decodes::<Route>(*file) && (route_exists(*file, id@) ==> ({
            &&& table_decodes::<Trip>(*file)
            &&& table_decodes_lenient::<StopTime>(*file)
            &&& table_decodes::<Stop>(*file)
            &&& route_join_refs_ok(*file, id@)
        }))),
        r matches Ok(o) ==> (o is Some <==> route_exists(*file, id@)),
        r matches Ok(Some(fr)) ==> full_route_ok(*file, id@, fr),
        r matches Err(e) ==> e == GtfsError::Referential || !(table_decodes::<Route>(*file)
            && table_decodes::<Trip>(*file) && table_decodes_lenient::<StopTime>(*file)
            && table_decodes::<Stop>(*file)),
{
    let route = match get_route_description(file, id) {
        Ok(Some(rt)) => rt,
        Ok(None) => {
            return Ok(None);
        },
        Err(e) => {
            return Err(e);
        },
    };
    let trips = match get_trips(file, id.as_str()) {
        Ok(v) => v,
        Err(e) => {
            return Err(e);
        },
    };
    let ghost ht = table_header::<Trip>(*file);
    let ghost mtr = matching_trip_rows(ht, table_data::<Trip>(*file), id@);
    proof {
        assert(seq_trip_ids(trips@) =~= row_trip_ids(ht, mtr));
    }
    let associated_stop_times = match get_stop_times(file, &trips) {
        Ok(v) => v,
        Err(e) => {
            return Err(e);
        },
    };
    let ghost h = table_header::<StopTime>(*file);
    let ghost pd = padded_rows(table_data::<StopTime>(*file), h.len() as int);
    let ghost msr = matching_stop_time_rows(h, pd, row_trip_ids(ht, mtr));
    let associated_stops = match get_stops(file, &associated_stop_times) {
        Ok(v) => v,
        Err(e) => {
            proof {
                if e == GtfsError::Referential {
                    assert(!st_refs_ok(associated_stop_times@));
                    let k = choose|k: int|
                        0 <= k < associated_stop_times@.len() && !((
                        #[trigger] associated_stop_times@[k]).stop_id is Some);
                    assert(associated_stop_times@[k].stop_id.deep_view() == opt_cell(
                        h,
                        msr[k],
                        "stop_id"@,
                    ));
                    assert(!rows_have_stop_refs(h, msr));
                }
            }
            return Err(e);
        },
    };
    proof {
        assert(rows_have_stop_refs(h, msr)) by {
            assert forall|i: int| 0 <= i < msr.len() implies opt_cell(
                h,
                #[trigger] msr[i],
                "stop_id"@,
            ) is Some by {
                assert(associated_stop_times@[i].stop_id.deep_view() == opt_cell(
                    h,
                    msr[i],
                    "stop_id"@,
                ));
                assert(associated_stop_times@[i].stop_id is Some);
            }
        }
    }
    Ok(
        Some(
            FullRoute {
                route_description: route,
                trips,
                associated_stop_times,
                associated_stops,
            },
        ),
    )
}

} // verus!
