//! The joined view of one stop: its record, the timed visits at it, the
//! trips those visits belong to (a visit whose trip cannot be resolved is
//! a fatal referential error, never silently dropped), and the routes of
//! those trips, de-duplicated and ordered by identifier.
use vstd::prelude::*;

verus! {

use crate::archive::GtfsError;
use crate::archive::GtfsFile;
use crate::fields::cell;
use crate::fields::opt_cell;
use crate::gtfs::Route;
use crate::gtfs::Stop;
use crate::gtfs::StopTime;
use crate::gtfs::Trip;
use crate::gtfs::route_key;
use crate::gtfs::stop_key;
use crate::gtfs::trip_key;
use crate::idmap::IdMap;
use crate::idmap::id_map_of;
use crate::idmap::last_row_with;
use crate::idmap::lemma_id_map_rows;
use crate::table::GtfsObject;
use crate::table::lemma_padded_rows_len;
use crate::table::lemma_table_lenient_matches_data;
use crate::table::lemma_table_matches_data;
use crate::table::padded_rows;
use crate::table::table_data;
use crate::table::table_decodes;
use crate::table::table_decodes_lenient;
use crate::table::table_header;
use crate::text::lemma_lex_total;
use crate::text::lemma_lex_trans;
use crate::text::lex_lt;
use crate::text::str_eq_value;
use crate::text::str_lex_lt;

/// One stop with everything a detail query joins to it.
#[derive(Debug, Clone)]
pub struct FullStop {
    pub stop_description: Stop,
    pub stop_times: Vec<StopTime>,
    pub associated_trips: Vec<Trip>,
    pub associated_routes: Vec<Route>,
}

/// Index stops by identifier; duplicate identifiers overwrite, last wins.
pub fn stops_hash(stops: Vec<Stop>) -> (m: IdMap<Stop>)
    ensures
        m.wf(),
        m.map_view() == id_map_of(stops@, stop_key()),
{
    crate::route::stopid_stops_hash(&stops)
}

// ---------------------------------------------------------------------------
// The stop record itself.
// ---------------------------------------------------------------------------

/// What `get_stop_description` returns on success.
pub open spec fn stop_desc_ok(file: GtfsFile, id: Seq<char>, o: Option<Stop>) -> bool {
    let h = table_header::<Stop>(file);
    let d = table_data::<Stop>(file);
    &&& (o is Some <==> exists|i: int|
        0 <= i < d.len() && cell(h, #[trigger] d[i], "stop_id"@) == Some(id))
    &&& (o matches Some(st) ==> st.stop_id@ == id && ({
        let j = last_row_with(h, d, "stop_id"@, id);
        &&& 0 <= j < d.len()
        &&& Stop::row_matches(h, d[j], st)
    }))
}

/// The stop with the given identifier, if the table holds one; of several
/// rows with the identifier, the last one wins.
pub fn get_stop_description(file: &GtfsFile, id: &String) -> (r: Result<Option<Stop>, GtfsError>)
    ensures
        r is Ok <==> table_decodes::<Stop>(*file),
        r matches Ok(o) ==> stop_desc_ok(*file, id@, o),
        r matches Err(e) ==> (e == GtfsError::MissingFile <==> file.text_of(Stop::spec_file())
            is None),
        r matches Err(e) ==> e == GtfsError::MissingFile || e == GtfsError::Decode,
{
    let stops = match Stop::from_gtfs_file(file) {
        Ok(v) => v,
        Err(e) => {
            return Err(e);
        },
    };
    let ghost h = table_header::<Stop>(*file);
    let ghost d = table_data::<Stop>(*file);
    proof {
        lemma_table_matches_data::<Stop>(*file, stops@);
        assert(forall|i: int|
            0 <= i < stops@.len() ==> cell(h, #[trigger] d[i], "stop_id"@) == Some(
                stop_key()(stops@[i]),
            ));
    }
    let stops_map = stops_hash(stops);
    proof {
        lemma_id_map_rows::<Stop>(
            h,
            d,
            stops@,
            stop_key(),
            "stop_id"@,
            |hh: Seq<Seq<char>>, row: Seq<Seq<char>>, t: Stop| Stop::row_matches(hh, row, t),
            id@,
        );
    }
    match stops_map.get(id.as_str()) {
        Some(st) => Ok(Some(st.duplicate())),
        None => Ok(None),
    }
}

// ---------------------------------------------------------------------------
// Visits at a stop.
// ---------------------------------------------------------------------------

/// The (repaired) stop-time rows whose stop reference is exactly `id`; a
/// row without a stop reference never matches.
pub open spec fn rows_at_stop(
    h: Seq<Seq<char>>,
    d: Seq<Seq<Seq<char>>>,
    id: Seq<char>,
) -> Seq<Seq<Seq<char>>>
    decreases d.len(),
{
    if d.len() == 0 {
        Seq::<Seq<Seq<char>>>::empty()
    } else {
        let rest = rows_at_stop(h, d.drop_last(), id);
        if opt_cell(h, d.last(), "stop_id"@) == Some(id) {
            rest.push(d.last())
        } else {
            rest
        }
    }
}

/// What `get_stop_times` returns on success: the decoded records of
/// exactly the repaired stop-time rows that reference the queried stop,
/// in table order.
pub open spec fn visits_result_ok(file: GtfsFile, id: Seq<char>, v: Seq<StopTime>) -> bool {
    let h = table_header::<StopTime>(file);
    let pd = padded_rows(table_data::<StopTime>(file), h.len() as int);
    let m = rows_at_stop(h, pd, id);
    &&& v.len() == m.len()
    &&& forall|i: int| 0 <= i < v.len() ==> StopTime::row_matches(h, m[i], #[trigger] v[i])
    &&& forall|i: int| 0 <= i < v.len() ==> (#[trigger] v[i]).stop_id.deep_view() == Some(id)
}

/// All stop-time rows that reference the given stop; rows without a stop
/// reference are not at any stop. The table is read with short-row repair.
pub fn get_stop_times(file: &GtfsFile, stop_id: &String) -> (r: Result<Vec<StopTime>, GtfsError>)
    ensures
        r is Ok <==> table_decodes_lenient::<StopTime>(*file),
        r matches Ok(v) ==> visits_result_ok(*file, stop_id@, v@),
        r matches Err(e) ==> (e == GtfsError::MissingFile <==> file.text_of(StopTime::spec_file())
            is None),
        r matches Err(e) ==> e == GtfsError::MissingFile || e == GtfsError::Decode,
{
    let sts = match StopTime::from_gtfs_file(file) {
        Ok(v) => v,
        Err(e) => {
            return Err(e);
        },
    };
    let ghost h = table_header::<StopTime>(*file);
    let ghost pd = padded_rows(table_data::<StopTime>(*file), h.len() as int);
    proof {
        lemma_table_lenient_matches_data::<StopTime>(*file, sts@);
        lemma_padded_rows_len(table_data::<StopTime>(*file), h.len() as int);
        assert(pd.take(0) =~= Seq::<Seq<Seq<char>>>::empty());
    }
    let mut out: Vec<StopTime> = Vec::new();
    let mut i: usize = 0;
    while i < sts.len()
        invariant
            i <= sts@.len(),
            h == table_header::<StopTime>(*file),
            pd == padded_rows(table_data::<StopTime>(*file), h.len() as int),
            sts@.len() == pd.len(),
            forall|j: int|
                0 <= j < sts@.len() ==> StopTime::row_matches(h, pd[j], #[trigger] sts@[j]),
            out@.len() == rows_at_stop(h, pd.take(i as int), stop_id@).len(),
            forall|j: int|
                0 <= j < out@.len() ==> StopTime::row_matches(
                    h,
                    rows_at_stop(h, pd.take(i as int), stop_id@)[j],
                    #[trigger] out@[j],
                ),
            forall|j: int|
                0 <= j < out@.len() ==> (#[trigger] out@[j]).stop_id.deep_view() == Some(stop_id@),
        decreases sts@.len() - i,
    {
        proof {
            assert(pd.take(i + 1).drop_last() =~= pd.take(i as int));
            assert(pd.take(i + 1).last() == pd[i as int]);
            assert(StopTime::row_matches(h, pd[i as int], sts@[i as int]));
        }
        let ghost prev = rows_at_stop(h, pd.take(i as int), stop_id@);
        let keep = match &sts[i].stop_id {
            Some(sid) => str_eq_value(sid.as_str(), stop_id.as_str()),
            None => false,
        };
        if keep {
            out.push(sts[i].duplicate());
            proof {
                assert(rows_at_stop(h, pd.take(i + 1), stop_id@) == prev.push(pd[i as int]));
            }
        } else {
            proof {
                assert(rows_at_stop(h, pd.take(i + 1), stop_id@) == prev);
            }
        }
        i = i + 1;
    }
    proof {
        assert(pd.take(pd.len() as int) =~= pd);
    }
    Ok(out)
}

// ---------------------------------------------------------------------------
// Trips of the visits, de-duplicated by identifier in first-occurrence
// order; an unresolvable trip reference is fatal.
// ---------------------------------------------------------------------------

/// The distinct trip identifiers of the visits, each at its first
/// occurrence; visits without a trip reference contribute nothing.
pub open spec fn first_trip_ids(sts: Seq<StopTime>) -> Seq<Seq<char>>
    decreases sts.len(),
{
    if sts.len() == 0 {
        Seq::<Seq<char>>::empty()
    } else {
        let rest = first_trip_ids(sts.drop_last());
        match sts.last().trip_id.deep_view() {
            Some(t) => if rest.contains(t) {
                rest
            } else {
                rest.push(t)
            },
            None => rest,
        }
    }
}

/// Some data row of the trip table declares the given identifier.
pub open spec fn trip_table_has_id(h: Seq<Seq<char>>, d: Seq<Seq<Seq<char>>>, id: Seq<char>) -> bool {
    exists|i: int| 0 <= i < d.len() && cell(h, #[trigger] d[i], "trip_id"@) == Some(id)
}

/// Every visit names a trip that the trip table declares.
pub open spec fn trip_refs_ok(file: GtfsFile, sts: Seq<StopTime>) -> bool {
    forall|k: int|
        0 <= k < sts.len() ==> ((#[trigger] sts[k]).trip_id.deep_view() matches Some(t)
            && trip_table_has_id(
            table_header::<Trip>(file),
            table_data::<Trip>(file),
            t,
        ))
}

/// What `get_matching_trips` returns on success: one trip per distinct
/// referenced identifier, in first-occurrence order, each the record of
/// the identifier's last table row.
pub open spec fn matching_trips_ok(file: GtfsFile, sts: Seq<StopTime>, v: Seq<Trip>) -> bool {
    let h = table_header::<Trip>(file);
    let d = table_data::<Trip>(file);
    let ids = first_trip_ids(sts);
    &&& v.len() == ids.len()
    &&& forall|i: int| 0 <= i < v.len() ==> (#[trigger] v[i]).trip_id@ == ids[i]
    &&& forall|i: int|
        0 <= i < v.len() ==> ({
            let j = last_row_with(h, d, "trip_id"@, (#[trigger] v[i]).trip_id@);
            &&& 0 <= j < d.len()
            &&& Trip::row_matches(h, d[j], v[i])
        })
}

fn trips_contain_id(out: &Vec<Trip>, t: &str) -> (r: bool)
    ensures
        r == (exists|i: int| 0 <= i < out@.len() && (#[trigger] out@[i]).trip_id@ == t@),
{
    let mut i: usize = 0;
    while i < out.len()
        invariant
            i <= out@.len(),
            forall|j: int| 0 <= j < i ==> (#[trigger] out@[j]).trip_id@ != t@,
        decreases out@.len() - i,
    {
        if str_eq_value(out[i].trip_id.as_str(), t) {
            return true;
        }
        i = i + 1;
    }
    false
}

/// The trips the visits reference, de-duplicated by trip identifier in
/// first-occurrence order. A visit without a trip reference, or whose
/// reference the trip table does not declare, is a fatal referential
/// error, not silently dropped.
pub fn get_matching_trips(file: &GtfsFile, stop_times: &Vec<StopTime>) -> (r: Result<
    Vec<Trip>,
    GtfsError,
>)
    ensures
        r is Ok <==> (table_decodes::<Trip>(*file) && trip_refs_ok(*file, stop_times@)),
        r matches Ok(v) ==> matching_trips_ok(*file, stop_times@, v@),
        r matches Err(e) ==> (e == GtfsError::MissingFile <==> file.text_of(Trip::spec_file())
            is None),
        r matches Err(e) ==> (e == GtfsError::Referential <==> (table_decodes::<Trip>(*file)
            && !trip_refs_ok(*file, stop_times@))),
        r matches Err(e) ==> e == GtfsError::MissingFile || e == GtfsError::Decode
            || e == GtfsError::Referential,
{
    let trips = match file.read_vec::<Trip>() {
        Ok(v) => v,
        Err(e) => {
            return Err(e);
        },
    };
    let ghost h = table_header::<Trip>(*file);
    let ghost d = table_data::<Trip>(*file);
    proof {
        lemma_table_matches_data::<Trip>(*file, trips@);
        assert(forall|i: int|
            0 <= i < trips@.len() ==> cell(h, #[trigger] d[i], "trip_id"@) == Some(
                trip_key()(trips@[i]),
            ));
    }
    let mut tmap: IdMap<Trip> = IdMap::new();
    let mut i: usize = 0;
    proof {
        assert(trips@.take(0) =~= Seq::<Trip>::empty());
    }
    while i < trips.len()
        invariant
            i <= trips@.len(),
            tmap.wf(),
            tmap.map_view() == id_map_of(trips@.take(i as int), trip_key()),
        decreases trips@.len() - i,
    {
        proof {
            assert(trips@.take(i + 1).drop_last() =~= trips@.take(i as int));
            assert(trips@.take(i + 1).last() == trips@[i as int]);
        }
        let k = trips[i].trip_id.clone();
        let v = trips[i].duplicate();
        tmap.insert(k, v);
        i = i + 1;
    }
    proof {
        assert(trips@.take(trips@.len() as int) =~= trips@);
    }
    let ghost sts = stop_times@;
    proof {
        assert(sts.take(0) =~= Seq::<StopTime>::empty());
    }
    let mut out: Vec<Trip> = Vec::new();
    let mut k: usize = 0;
    while k < stop_times.len()
        invariant
            k <= sts.len(),
            sts == stop_times@,
            h == table_header::<Trip>(*file),
            d == table_data::<Trip>(*file),
            table_decodes::<Trip>(*file),
            trips@.len() == d.len(),
            forall|i2: int|
                0 <= i2 < trips@.len() ==> Trip::row_matches(h, d[i2], #[trigger] trips@[i2]),
            forall|i2: int|
                0 <= i2 < trips@.len() ==> cell(h, #[trigger] d[i2], "trip_id"@) == Some(
                    trip_key()(trips@[i2]),
                ),
            tmap.wf(),
            tmap.map_view() == id_map_of(trips@, trip_key()),
            forall|j: int|
                0 <= j < k ==> ((#[trigger] sts[j]).trip_id.deep_view() matches Some(t)
                    && trip_table_has_id(h, d, t)),
            out@.len() == first_trip_ids(sts.take(k as int)).len(),
            forall|i2: int|
                0 <= i2 < out@.len() ==> (#[trigger] out@[i2]).trip_id@ == first_trip_ids(
                    sts.take(k as int),
                )[i2],
            forall|i2: int|
                0 <= i2 < out@.len() ==> tmap.map_view().contains_key(
                    (#[trigger] out@[i2]).trip_id@,
                ) && out@[i2] == tmap.map_view()[out@[i2].trip_id@],
        decreases sts.len() - k,
    {
        proof {
            assert(sts.take(k + 1).drop_last() =~= sts.take(k as int));
            assert(sts.take(k + 1).last() == sts[k as int]);
        }
        let ghost prev = first_trip_ids(sts.take(k as int));
        let tid = match &stop_times[k].trip_id {
            Some(tid) => tid,
            None => {
                return Err(GtfsError::Referential);
            },
        };
        let seen = trips_contain_id(&out, tid.as_str());
        proof {
            assert(prev.contains(tid@) <==> (exists|i2: int|
                0 <= i2 < out@.len() && (#[trigger] out@[i2]).trip_id@ == tid@)) by {
                if prev.contains(tid@) {
                    let w = choose|w: int| 0 <= w < prev.len() && prev[w] == tid@;
                    assert(out@[w].trip_id@ == tid@);
                }
                if exists|i2: int| 0 <= i2 < out@.len() && (#[trigger] out@[i2]).trip_id@ == tid@ {
                    let w = choose|w: int|
                        0 <= w < out@.len() && (#[trigger] out@[w]).trip_id@ == tid@;
                    assert(prev[w] == tid@);
                }
            }
        }
        if seen {
            proof {
                lemma_id_map_rows::<Trip>(
                    h,
                    d,
                    trips@,
                    trip_key(),
                    "trip_id"@,
                    |hh: Seq<Seq<char>>, row: Seq<Seq<char>>, t: Trip| Trip::row_matches(hh, row, t),
                    tid@,
                );
                let w = choose|w: int|
                    0 <= w < out@.len() && (#[trigger] out@[w]).trip_id@ == tid@;
                assert(tmap.map_view().contains_key(tid@));
                assert(trip_table_has_id(h, d, tid@));
                assert(first_trip_ids(sts.take(k + 1)) == prev);
            }
        } else {
            match tmap.get(tid.as_str()) {
                Some(trip) => {
                    let dup = trip.duplicate();
                    proof {
                        lemma_id_map_rows::<Trip>(
                            h,
                            d,
                            trips@,
                            trip_key(),
                            "trip_id"@,
                            |hh: Seq<Seq<char>>, row: Seq<Seq<char>>, t: Trip|
                                Trip::row_matches(hh, row, t),
                            tid@,
                        );
                        assert(dup.trip_id@ == tid@);
                        assert(trip_table_has_id(h, d, tid@));
                        assert(first_trip_ids(sts.take(k + 1)) == prev.push(tid@));
                    }
                    out.push(dup);
                },
                None => {
                    proof {
                        lemma_id_map_rows::<Trip>(
                            h,
                            d,
                            trips@,
                            trip_key(),
                            "trip_id"@,
                            |hh: Seq<Seq<char>>, row: Seq<Seq<char>>, t: Trip|
                                Trip::row_matches(hh, row, t),
                            tid@,
                        );
                        assert(!trip_table_has_id(h, d, tid@));
                        assert(sts[k as int].trip_id.deep_view() == Some(tid@));
                        assert(!trip_refs_ok(*file, sts));
                    }
                    return Err(GtfsError::Referential);
                },
            }
        }
        k = k + 1;
    }
    proof {
        assert(sts.take(sts.len() as int) =~= sts);
        assert forall|i2: int| 0 <= i2 < out@.len() implies ({
            let j = last_row_with(h, d, "trip_id"@, (#[trigger] out@[i2]).trip_id@);
            &&& 0 <= j < d.len()
            &&& Trip::row_matches(h, d[j], out@[i2])
        }) by {
            lemma_id_map_rows::<Trip>(
                h,
                d,
                trips@,
                trip_key(),
                "trip_id"@,
                |hh: Seq<Seq<char>>, row: Seq<Seq<char>>, t: Trip| Trip::row_matches(hh, row, t),
                out@[i2].trip_id@,
            );
        }
    }
    Ok(out)
}

// ---------------------------------------------------------------------------
// Routes of the trips, de-duplicated, ordered by identifier.
// ---------------------------------------------------------------------------

/// Some element of `s` has the given route identifier.
pub open spec fn contains_route_with(s: Seq<Route>, id: Seq<char>) -> bool {
    exists|i: int| 0 <= i < s.len() && (#[trigger] s[i]).route_id@ == id
}

/// Strictly ascending by route identifier: sorted, with no duplicates.
pub open spec fn routes_sorted(s: Seq<Route>) -> bool {
    forall|i: int, j: int|
        0 <= i < j < s.len() ==> lex_lt((#[trigger] s[i]).route_id@, (#[trigger] s[j]).route_id@)
}

/// Some trip references the given route identifier.
pub open spec fn referenced_route_id(trips: Seq<Trip>, id: Seq<char>) -> bool {
    exists|i: int| 0 <= i < trips.len() && (#[trigger] trips[i]).route_id@ == id
}

/// Some data row of the route table declares the given identifier.
pub open spec fn route_table_has_id(
    h: Seq<Seq<char>>,
    d: Seq<Seq<Seq<char>>>,
    id: Seq<char>,
) -> bool {
    exists|i: int| 0 <= i < d.len() && cell(h, #[trigger] d[i], "route_id"@) == Some(id)
}

/// What `get_matching_routes` returns on success: one route per referenced
/// identifier found in the table, the record of the identifier's last
/// table row, strictly ordered by identifier.
pub open spec fn matching_routes_ok(file: GtfsFile, trips: Seq<Trip>, v: Seq<Route>) -> bool {
    let h = table_header::<Route>(file);
    let d = table_data::<Route>(file);
    &&& routes_sorted(v)
    &&& forall|id: Seq<char>|
        #![trigger contains_route_with(v, id)]
        #![trigger referenced_route_id(trips, id)]
        contains_route_with(v, id) <==> (referenced_route_id(trips, id) && route_table_has_id(
            h,
            d,
            id,
        ))
    &&& forall|i: int|
        0 <= i < v.len() ==> ({
            let j = last_row_with(h, d, "route_id"@, (#[trigger] v[i]).route_id@);
            &&& 0 <= j < d.len()
            &&& Route::row_matches(h, d[j], v[i])
        })
}

/// Insert a route into a strictly ordered sequence; an element with the
/// same identifier is already in place and the sequence is kept.
fn insert_route_sorted(out: &mut Vec<Route>, s: Route)
    requires
        routes_sorted(old(out)@),
    ensures
        routes_sorted(final(out)@),
        forall|x: Route| final(out)@.contains(x) ==> old(out)@.contains(x) || x == s,
        forall|x: Route| old(out)@.contains(x) ==> final(out)@.contains(x),
        forall|id: Seq<char>|
            #![trigger contains_route_with(final(out)@, id)]
            contains_route_with(final(out)@, id) <==> (contains_route_with(old(out)@, id) || id
                == s.route_id@),
{
    let mut i: usize = 0;
    while i < out.len()
        invariant
            *out == *old(out),
            routes_sorted(old(out)@),
            i <= out@.len(),
            forall|j: int| 0 <= j < i ==> lex_lt((#[trigger] out@[j]).route_id@, s.route_id@),
        decreases out@.len() - i,
    {
        if str_eq_value(out[i].route_id.as_str(), s.route_id.as_str()) {
            proof {
                assert(contains_route_with(out@, s.route_id@)) by {
                    assert((out@[i as int]).route_id@ == s.route_id@);
                }
            }
            return ;
        }
        if !str_lex_lt(out[i].route_id.as_str(), s.route_id.as_str()) {
            proof {
                lemma_lex_total(out@[i as int].route_id@, s.route_id@);
                assert(lex_lt(s.route_id@, out@[i as int].route_id@));
            }
            let ghost pre = out@;
            out.insert(i, s);
            proof {
                assert(out@ =~= pre.take(i as int) + seq![s] + pre.skip(i as int));
                assert(forall|a: int| 0 <= a < i ==> out@[a] == pre[a]);
                assert(out@[i as int] == s);
                assert(forall|b: int| i < b < out@.len() ==> out@[b] == pre[b - 1]);
                assert forall|a: int, b: int| 0 <= a < b < out@.len() implies lex_lt(
                    (#[trigger] out@[a]).route_id@,
                    (#[trigger] out@[b]).route_id@,
                ) by {
                    if a == i && b > i {
                        if b - 1 > i {
                            lemma_lex_trans(
                                s.route_id@,
                                pre[i as int].route_id@,
                                pre[b - 1].route_id@,
                            );
                        }
                    }
                }
                assert forall|x: Route| out@.contains(x) implies pre.contains(x) || x == s by {
                    let w = choose|w: int| 0 <= w < out@.len() && out@[w] == x;
                    if w < i {
                        assert(pre[w] == x);
                    } else if w > i {
                        assert(pre[w - 1] == x);
                    }
                }
                assert forall|x: Route| pre.contains(x) implies out@.contains(x) by {
                    let w = choose|w: int| 0 <= w < pre.len() && pre[w] == x;
                    if w < i {
                        assert(out@[w] == x);
                    } else {
                        assert(out@[w + 1] == x);
                    }
                }
                assert forall|id: Seq<char>|
                    contains_route_with(out@, id) <==> (contains_route_with(pre, id) || id
                        == s.route_id@) by {
                    if contains_route_with(out@, id) {
                        let w = choose|w: int|
                            0 <= w < out@.len() && (#[trigger] out@[w]).route_id@ == id;
                        if w < i {
                            assert(pre[w].route_id@ == id);
                        } else if w > i {
                            assert(pre[w - 1].route_id@ == id);
                        }
                    }
                    if contains_route_with(pre, id) {
                        let w = choose|w: int|
                            0 <= w < pre.len() && (#[trigger] pre[w]).route_id@ == id;
                        if w < i {
                            assert(out@[w].route_id@ == id);
                        } else {
                            assert(out@[w + 1].route_id@ == id);
                        }
                    }
                    if id == s.route_id@ {
                        assert(out@[i as int].route_id@ == id);
                    }
                }
            }
            return ;
        }
        i = i + 1;
    }
    let ghost pre = out@;
    out.push(s);
    proof {
        assert(out@ =~= pre.push(s));
        assert forall|a: int, b: int| 0 <= a < b < out@.len() implies lex_lt(
            (#[trigger] out@[a]).route_id@,
            (#[trigger] out@[b]).route_id@,
        ) by {
            if b == out@.len() - 1 {
                assert(out@[a] == pre[a]);
            }
        }
        assert forall|id: Seq<char>|
            contains_route_with(out@, id) <==> (contains_route_with(pre, id) || id
                == s.route_id@) by {
            if contains_route_with(out@, id) {
                let w = choose|w: int| 0 <= w < out@.len() && (#[trigger] out@[w]).route_id@ == id;
                if w < pre.len() {
                    assert(pre[w].route_id@ == id);
                }
            }
            if contains_route_with(pre, id) {
                let w = choose|w: int| 0 <= w < pre.len() && (#[trigger] pre[w]).route_id@ == id;
                assert(out@[w].route_id@ == id);
            }
            if id == s.route_id@ {
                assert(out@[out@.len() - 1].route_id@ == id);
            }
        }
        assert forall|x: Route| pre.contains(x) implies out@.contains(x) by {
            let w = choose|w: int| 0 <= w < pre.len() && pre[w] == x;
            assert(out@[w] == x);
        }
        assert forall|x: Route| out@.contains(x) implies pre.contains(x) || x == s by {
            let w = choose|w: int| 0 <= w < out@.len() && out@[w] == x;
            if w < pre.len() {
                assert(pre[w] == x);
            }
        }
    }
}

/// The routes the given trips reference, resolved in the route table,
/// de-duplicated by identifier and ordered by identifier; a reference
/// absent from the table is skipped.
pub fn get_matching_routes(file: &GtfsFile, trips: &Vec<Trip>) -> (r: Result<Vec<Route>, GtfsError>)
    ensures
        r is Ok <==> table_decodes::<Route>(*file),
        r matches Ok(v) ==> matching_routes_ok(*file, trips@, v@),
        r matches Err(e) ==> (e == GtfsError::MissingFile <==> file.text_of(Route::spec_file())
            is None),
        r matches Err(e) ==> e == GtfsError::MissingFile || e == GtfsError::Decode,
{
    let routes = match file.read_vec::<Route>() {
        Ok(v) => v,
        Err(e) => {
            return Err(e);
        },
    };
    let rmap = crate::route::routes_hash(routes_duplicate(&routes));
    let ghost h = table_header::<Route>(*file);
    let ghost d = table_data::<Route>(*file);
    proof {
        lemma_table_matches_data::<Route>(*file, routes@);
        assert(forall|i: int|
            0 <= i < routes@.len() ==> cell(h, #[trigger] d[i], "route_id"@) == Some(
                route_key()(routes@[i]),
            ));
    }
    let mut out: Vec<Route> = Vec::new();
    let mut k: usize = 0;
    while k < trips.len()
        invariant
            k <= trips@.len(),
            h == table_header::<Route>(*file),
            d == table_data::<Route>(*file),
            table_decodes::<Route>(*file),
            routes@.len() == d.len(),
            forall|i: int|
                0 <= i < routes@.len() ==> Route::row_matches(h, d[i], #[trigger] routes@[i]),
            forall|i: int|
                0 <= i < routes@.len() ==> cell(h, #[trigger] d[i], "route_id"@) == Some(
                    route_key()(routes@[i]),
                ),
            rmap.wf(),
            rmap.map_view() == id_map_of(routes@, route_key()),
            routes_sorted(out@),
            forall|i: int|
                0 <= i < out@.len() ==> rmap.map_view().contains_key((#[trigger] out@[i]).route_id@)
                    && out@[i] == rmap.map_view()[out@[i].route_id@],
            forall|id: Seq<char>|
                #![trigger contains_route_with(out@, id)]
                contains_route_with(out@, id) <==> ((exists|j: int|
                    0 <= j < k && (#[trigger] trips@[j]).route_id@ == id)
                    && rmap.map_view().contains_key(id)),
        decreases trips@.len() - k,
    {
        let rid = &trips[k].route_id;
        let ghost pre = out@;
        match rmap.get(rid.as_str()) {
            Some(rt) => {
                let dup = rt.duplicate();
                proof {
                    assert(route_key()(rmap.map_view()[rid@]) == rid@) by {
                        lemma_id_map_rows::<Route>(
                            h,
                            d,
                            routes@,
                            route_key(),
                            "route_id"@,
                            |hh: Seq<Seq<char>>, row: Seq<Seq<char>>, t: Route|
                                Route::row_matches(hh, row, t),
                            rid@,
                        );
                    }
                    assert(dup.route_id@ == rid@);
                }
                insert_route_sorted(&mut out, dup);
                proof {
                    assert forall|i: int|
                        0 <= i < out@.len() implies rmap.map_view().contains_key(
                        (#[trigger] out@[i]).route_id@,
                    ) && out@[i] == rmap.map_view()[out@[i].route_id@] by {
                        assert(out@.contains(out@[i]));
                        if pre.contains(out@[i]) {
                            let w = choose|w: int| 0 <= w < pre.len() && pre[w] == out@[i];
                            assert(pre[w] == rmap.map_view()[pre[w].route_id@]);
                        }
                    }
                    assert forall|id: Seq<char>|
                        #![trigger contains_route_with(out@, id)]
                        contains_route_with(out@, id) <==> ((exists|j: int|
                            0 <= j < k + 1 && (#[trigger] trips@[j]).route_id@ == id)
                            && rmap.map_view().contains_key(id)) by {
                        if id == rid@ {
                            assert(trips@[k as int].route_id@ == id);
                        }
                        if contains_route_with(out@, id) && id != rid@ {
                            assert(contains_route_with(pre, id));
                        }
                        if (exists|j: int| 0 <= j < k + 1 && (#[trigger] trips@[j]).route_id@ == id)
                            && rmap.map_view().contains_key(id) && id != rid@ {
                            let j = choose|j: int|
                                0 <= j < k + 1 && (#[trigger] trips@[j]).route_id@ == id;
                            assert(0 <= j < k);
                            assert(contains_route_with(pre, id));
                        }
                    }
                }
            },
            None => {
                proof {
                    assert forall|id: Seq<char>|
                        #![trigger contains_route_with(out@, id)]
                        contains_route_with(out@, id) <==> ((exists|j: int|
                            0 <= j < k + 1 && (#[trigger] trips@[j]).route_id@ == id)
                            && rmap.map_view().contains_key(id)) by {
                        if (exists|j: int| 0 <= j < k + 1 && (#[trigger] trips@[j]).route_id@ == id)
                            && rmap.map_view().contains_key(id) {
                            let j = choose|j: int|
                                0 <= j < k + 1 && (#[trigger] trips@[j]).route_id@ == id;
                            if j == k {
                                assert(id == rid@);
                                assert(false);
                            }
                        }
                    }
                }
            },
        }
        k = k + 1;
    }
    proof {
        assert forall|id: Seq<char>|
            #![trigger contains_route_with(out@, id)]
            contains_route_with(out@, id) <==> (referenced_route_id(trips@, id)
                && route_table_has_id(h, d, id)) by {
            lemma_id_map_rows::<Route>(
                h,
                d,
                routes@,
                route_key(),
                "route_id"@,
                |hh: Seq<Seq<char>>, row: Seq<Seq<char>>, t: Route| Route::row_matches(hh, row, t),
                id,
            );
        }
        assert forall|i: int| 0 <= i < out@.len() implies ({
            let j = last_row_with(h, d, "route_id"@, (#[trigger] out@[i]).route_id@);
            &&& 0 <= j < d.len()
            &&& Route::row_matches(h, d[j], out@[i])
        }) by {
            lemma_id_map_rows::<Route>(
                h,
                d,
                routes@,
                route_key(),
                "route_id"@,
                |hh: Seq<Seq<char>>, row: Seq<Seq<char>>, t: Route| Route::row_matches(hh, row, t),
                out@[i].route_id@,
            );
        }
    }
    Ok(out)
}

fn routes_duplicate(routes: &Vec<Route>) -> (r: Vec<Route>)
    ensures
        r@ == routes@,
{
    let mut r: Vec<Route> = Vec::new();
    let mut i: usize = 0;
    while i < routes.len()
        invariant
            i <= routes@.len(),
            r@ == routes@.take(i as int),
        decreases routes@.len() - i,
    {
        r.push(routes[i].duplicate());
        proof {
            assert(r@ =~= routes@.take(i + 1));
        }
        i = i + 1;
    }
    proof {
        assert(routes@.take(routes@.len() as int) =~= routes@);
    }
    r
}

// ---------------------------------------------------------------------------
// The joined detail.
// ---------------------------------------------------------------------------

/// The stop table declares the identifier.
pub open spec fn stop_exists(file: GtfsFile, id: Seq<char>) -> bool {
    exists|i: int|
        0 <= i < table_data::<Stop>(file).len() && cell(
            table_header::<Stop>(file),
            #[trigger] table_data::<Stop>(file)[i],
            "stop_id"@,
        ) == Some(id)
}

/// The stop's join can be completed: every repaired stop-time row at the
/// stop names a trip that the trip table declares.
pub open spec fn stop_join_refs_ok(file: GtfsFile, id: Seq<char>) -> bool {
    let h = table_header::<StopTime>(file);
    let pd = padded_rows(table_data::<StopTime>(file), h.len() as int);
    let rows = rows_at_stop(h, pd, id);
    forall|i: int|
        0 <= i < rows.len() ==> (opt_cell(h, #[trigger] rows[i], "trip_id"@) matches Some(t)
            && trip_table_has_id(table_header::<Trip>(file), table_data::<Trip>(file), t))
}

/// What `extract_stop_info` returns when the stop exists: every joined
/// component satisfies its own result description, each built from the one
/// before it.
pub open spec fn full_stop_ok(file: GtfsFile, id: Seq<char>, fs: FullStop) -> bool {
    &&& stop_desc_ok(file, id, Some(fs.stop_description))
    &&& visits_result_ok(file, id, fs.stop_times@)
    &&& matching_trips_ok(file, fs.stop_times@, fs.associated_trips@)
    &&& matching_routes_ok(file, fs.associated_trips@, fs.associated_routes@)
}

/// The joined detail of one stop: its record, the visits at it, the trips
/// those visits belong to (an unresolvable trip reference is fatal), and
/// the routes of those trips, de-duplicated and ordered by identifier.
pub fn extract_stop_info(file: &GtfsFile, id: &String) -> (r: Result<Option<FullStop>, GtfsError>)
    ensures
        r is Ok <==> (table_decodes::<Stop>(*file) && (stop_exists(*file, id@) ==> ({
            &&& table_decodes_lenient::<StopTime>(*file)
            &&& table_decodes::<Trip>(*file)
            &&& table_decodes::<Route>(*file)
            &&& stop_join_refs_ok(*file, id@)
        }))),
        r matches Ok(o) ==> (o is Some <==> stop_exists(*file, id@)),
        r matches Ok(Some(fs)) ==> full_stop_ok(*file, id@, fs),
        r matches Err(e) ==> e == GtfsError::Referential || !(table_decodes::<Stop>(*file)
            && table_decodes_lenient::<StopTime>(*file) && table_decodes::<Trip>(*file)
            && table_decodes::<Route>(*file)),
{
    let stop = match get_stop_description(file, id) {
        Ok(Some(st)) => st,
        Ok(None) => {
            return Ok(None);
        },
        Err(e) => {
            return Err(e);
        },
    };
    let stop_times = match get_stop_times(file, id) {
        Ok(v) => v,
        Err(e) => {
            return Err(e);
        },
    };
    let ghost h = table_header::<StopTime>(*file);
    let ghost pd = padded_rows(table_data::<StopTime>(*file), h.len() as int);
    let ghost rows = rows_at_stop(h, pd, id@);
    let associated_trips = match get_matching_trips(file, &stop_times) {
        Ok(v) => v,
        Err(e) => {
            proof {
                if e == GtfsError::Referential {
                    assert(!trip_refs_ok(*file, stop_times@));
                    let k = choose|k: int|
                        0 <= k < stop_times@.len() && !((
                        #[trigger] stop_times@[k]).trip_id.deep_view() matches Some(t)
                            && trip_table_has_id(
                            table_header::<Trip>(*file),
                            table_data::<Trip>(*file),
                            t,
                        ));
                    assert(stop_times@[k].trip_id.deep_view() == opt_cell(h, rows[k], "trip_id"@));
                    assert(!stop_join_refs_ok(*file, id@));
                }
            }
            return Err(e);
        },
    };
    proof {
        assert(stop_join_refs_ok(*file, id@)) by {
            assert forall|i: int| 0 <= i < rows.len() implies (opt_cell(
                h,
                #[trigger] rows[i],
                "trip_id"@,
            ) matches Some(t) && trip_table_has_id(
                table_header::<Trip>(*file),
                table_data::<Trip>(*file),
                t,
            )) by {
                assert(stop_times@[i].trip_id.deep_view() == opt_cell(h, rows[i], "trip_id"@));
                assert(stop_times@[i].trip_id.deep_view() matches Some(t) && trip_table_has_id(
                    table_header::<Trip>(*file),
                    table_data::<Trip>(*file),
                    t,
                ));
            }
        }
    }
    let associated_routes = match get_matching_routes(file, &associated_trips) {
        Ok(v) => v,
        Err(e) => {
            return Err(e);
        },
    };
    Ok(
        Some(
            FullStop {
                stop_description: stop,
                stop_times,
                associated_trips,
                associated_routes,
            },
        ),
    )
}

} // verus!
