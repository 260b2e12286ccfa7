//! Geometry-bearing views of stops and shapes, ready for rendering by an
//! external feature serializer: a stop's point exists if and only if both
//! of its coordinate fields were present.
use vstd::prelude::*;

verus! {

use crate::codec::DecimalValue;
use crate::gtfs::LocationType;
use crate::gtfs::Stop;
use crate::gtfs::WheelchairAccessibility;
use crate::tables::Shape;
use crate::text::str_eq_value;

/// A geographic point: x is the longitude, y the latitude.
#[derive(Debug, Clone, Copy, PartialEq, Eq, Structural)]
pub struct GeoPoint {
    pub x: DecimalValue,
    pub y: DecimalValue,
}

/// A stop with its geometry made explicit, ready for feature rendering.
#[derive(Debug, Clone, PartialEq)]
pub struct StopsJson {
    pub id: String,
    pub stop_code: Option<String>,
    pub stop_name: Option<String>,
    pub tts_stop_name: Option<String>,
    pub stop_desc: Option<String>,
    pub geometry: GeoPoint,
    pub zone_id: Option<String>,
    pub stop_url: Option<String>,
    pub location_type: Option<LocationType>,
    pub parent_station: Option<String>,
    pub stop_timezone: Option<String>,
    pub wheelchair_boarding: Option<WheelchairAccessibility>,
    pub level_id: Option<String>,
    pub platform_code: Option<String>,
}

/// How a feature relates to the stop it came from: every attribute is the
/// stop's, and the geometry is the stop's (longitude, latitude) pair.
pub open spec fn stops_json_matches(s: Stop, j: StopsJson) -> bool {
    &&& j.id == s.stop_id
    &&& j.stop_code == s.stop_code
    &&& j.stop_name == s.stop_name
    &&& j.tts_stop_name == s.tts_stop_name
    &&& j.stop_desc == s.stop_desc
    &&& Some(j.geometry.x) == s.stop_lon
    &&& Some(j.geometry.y) == s.stop_lat
    &&& j.zone_id == s.zone_id
    &&& j.stop_url == s.stop_url
    &&& j.location_type == s.location_type
    &&& j.parent_station == s.parent_station
    &&& j.stop_timezone == s.stop_timezone
    &&& j.wheelchair_boarding == s.wheelchair_boarding
    &&& j.level_id == s.level_id
    &&& j.platform_code == s.platform_code
}

impl StopsJson {
    /// A stop's feature: present if and only if both coordinate fields
    /// are present; its geometry is then exactly the (longitude,
    /// latitude) pair as decoded.
    pub fn from_stop(stop: Stop) -> (r: Option<StopsJson>)
        ensures
            r is Some <==> (stop.stop_lon is Some && stop.stop_lat is Some),
            r matches Some(j) ==> stops_json_matches(stop, j),
    {
        let x_coord = match stop.stop_lon {
            Some(x) => x,
            None => {
                return None;
            },
        };
        let y_coord = match stop.stop_lat {
            Some(y) => y,
            None => {
                return None;
            },
        };
        Some(
            StopsJson {
                id: stop.stop_id,
                stop_code: stop.stop_code,
                stop_name: stop.stop_name,
                tts_stop_name: stop.tts_stop_name,
                stop_desc: stop.stop_desc,
                geometry: GeoPoint { x: x_coord, y: y_coord },
                zone_id: stop.zone_id,
                stop_url: stop.stop_url,
                location_type: stop.location_type,
                parent_station: stop.parent_station,
                stop_timezone: stop.stop_timezone,
                wheelchair_boarding: stop.wheelchair_boarding,
                level_id: stop.level_id,
                platform_code: stop.platform_code,
            },
        )
    }
}

/// The stops that have geometry, in order.
pub open spec fn geo_stops(stops: Seq<Stop>) -> Seq<Stop>
    decreases stops.len(),
{
    if stops.len() == 0 {
        Seq::<Stop>::empty()
    } else {
        let rest = geo_stops(stops.drop_last());
        if stops.last().stop_lon is Some && stops.last().stop_lat is Some {
            rest.push(stops.last())
        } else {
            rest
        }
    }
}

/// The features of every stop that has geometry, in input order; stops
/// without geometry yield nothing.
pub fn stops_json_features(stops: Vec<Stop>) -> (r: Vec<StopsJson>)
    ensures
        r@.len() == geo_stops(stops@).len(),
        forall|i: int|
            0 <= i < r@.len() ==> stops_json_matches(geo_stops(stops@)[i], #[trigger] r@[i]),
{
    let n = stops.len();
    let mut r: Vec<StopsJson> = Vec::new();
    let mut i: usize = 0;
    proof {
        assert(stops@.take(0) =~= Seq::<Stop>::empty());
    }
    while i < n
        invariant
            i <= n,
            n == stops@.len(),
            r@.len() == geo_stops(stops@.take(i as int)).len(),
            forall|j: int|
                0 <= j < r@.len() ==> stops_json_matches(
                    geo_stops(stops@.take(i as int))[j],
                    #[trigger] r@[j],
                ),
        decreases n - i,
    {
        proof {
            assert(stops@.take(i + 1).drop_last() =~= stops@.take(i as int));
            assert(stops@.take(i + 1).last() == stops@[i as int]);
        }
        let ghost prev = geo_stops(stops@.take(i as int));
        match StopsJson::from_stop(stops[i].duplicate()) {
            Some(j) => {
                r.push(j);
                proof {
                    assert(geo_stops(stops@.take(i + 1)) == prev.push(stops@[i as int]));
                }
            },
            None => {
                proof {
                    assert(geo_stops(stops@.take(i + 1)) == prev);
                }
            },
        }
        i = i + 1;
    }
    proof {
        assert(stops@.take(n as int) =~= stops@);
    }
    r
}

// ---------------------------------------------------------------------------
// Shape points and lines.
// ---------------------------------------------------------------------------

/// One shape point with its geometry made explicit.
#[derive(Debug, Clone, PartialEq)]
pub struct GeoShapePoint {
    pub shape_id: String,
    pub shape_point: GeoPoint,
    pub shape_pt_sequence: u64,
    pub shape_dist_travelled: Option<DecimalValue>,
}

impl GeoShapePoint {
    /// A shape row's point: its (longitude, latitude) pair as decoded.
    pub fn from_shape(shape: Shape) -> (r: GeoShapePoint)
        ensures
            r.shape_id == shape.shape_id,
            r.shape_point == (GeoPoint { x: shape.shape_pt_lon, y: shape.shape_pt_lat }),
            r.shape_pt_sequence == shape.shape_pt_sequence,
            r.shape_dist_travelled == shape.shape_dist_travelled,
    {
        GeoShapePoint {
            shape_id: shape.shape_id,
            shape_point: GeoPoint { x: shape.shape_pt_lon, y: shape.shape_pt_lat },
            shape_pt_sequence: shape.shape_pt_sequence,
            shape_dist_travelled: shape.shape_dist_travelled,
        }
    }
}

/// One shape's points strung into a line.
#[derive(Debug, Clone, PartialEq)]
pub struct GeoShapeLine {
    pub shape_id: String,
    pub shape_line: Vec<GeoPoint>,
}

/// The distinct shape identifiers, each at its first occurrence.
pub open spec fn first_shape_ids(shapes: Seq<Shape>) -> Seq<Seq<char>>
    decreases shapes.len(),
{
    if shapes.len() == 0 {
        Seq::<Seq<char>>::empty()
    } else {
        let rest = first_shape_ids(shapes.drop_last());
        if rest.contains(shapes.last().shape_id@) {
            rest
        } else {
            rest.push(shapes.last().shape_id@)
        }
    }
}

/// The points of one shape, in input order.
pub open spec fn shape_points_of(shapes: Seq<Shape>, id: Seq<char>) -> Seq<GeoPoint>
    decreases shapes.len(),
{
    if shapes.len() == 0 {
        Seq::<GeoPoint>::empty()
    } else {
        let rest = shape_points_of(shapes.drop_last(), id);
        if shapes.last().shape_id@ == id {
            rest.push(GeoPoint { x: shapes.last().shape_pt_lon, y: shapes.last().shape_pt_lat })
        } else {
            rest
        }
    }
}

fn shape_ids_contain(ids: &Vec<String>, t: &str) -> (r: bool)
    ensures
        r == ids.deep_view().contains(t@),
{
    let mut i: usize = 0;
    while i < ids.len()
        invariant
            i <= ids@.len(),
            forall|j: int| 0 <= j < i ==> ids.deep_view()[j] != t@,
        decreases ids@.len() - i,
    {
        proof {
            assert(ids.deep_view()[i as int] == ids@[i as int]@);
        }
        if str_eq_value(ids[i].as_str(), t) {
            return true;
        }
        i = i + 1;
    }
    proof {
        if ids.deep_view().contains(t@) {
            let j = choose|j: int| 0 <= j < ids.deep_view().len() && ids.deep_view()[j] == t@;
            assert(ids.deep_view()[j] != t@);
        }
    }
    false
}

/// One line per distinct shape identifier, in first-occurrence order, each
/// stringing that shape's points in input order.
pub fn shape_lines(shapes: &Vec<Shape>) -> (r: Vec<GeoShapeLine>)
    ensures
        r@.len() == first_shape_ids(shapes@).len(),
        forall|i: int|
            0 <= i < r@.len() ==> (#[trigger] r@[i]).shape_id@ == first_shape_ids(shapes@)[i],
        forall|i: int|
            0 <= i < r@.len() ==> (#[trigger] r@[i]).shape_line@ == shape_points_of(
                shapes@,
                r@[i].shape_id@,
            ),
{
    let mut ids: Vec<String> = Vec::new();
    let mut i: usize = 0;
    proof {
        assert(shapes@.take(0) =~= Seq::<Shape>::empty());
    }
    while i < shapes.len()
        invariant
            i <= shapes@.len(),
            ids.deep_view() == first_shape_ids(shapes@.take(i as int)),
        decreases shapes@.len() - i,
    {
        proof {
            assert(shapes@.take(i + 1).drop_last() =~= shapes@.take(i as int));
            assert(shapes@.take(i + 1).last() == shapes@[i as int]);
        }
        let ghost pre = ids.deep_view();
        if !shape_ids_contain(&ids, shapes[i].shape_id.as_str()) {
            let id = shapes[i].shape_id.clone();
            ids.push(id);
            proof {
                assert(ids.deep_view() =~= pre.push(shapes@[i as int].shape_id@));
            }
        }
        i = i + 1;
    }
    proof {
        assert(shapes@.take(shapes@.len() as int) =~= shapes@);
    }
    let mut r: Vec<GeoShapeLine> = Vec::new();
    let mut k: usize = 0;
    while k < ids.len()
        invariant
            k <= ids@.len(),
            ids.deep_view() == first_shape_ids(shapes@),
            r@.len() == k,
            forall|j: int|
                0 <= j < k ==> (#[trigger] r@[j]).shape_id@ == first_shape_ids(shapes@)[j],
            forall|j: int|
                0 <= j < k ==> (#[trigger] r@[j]).shape_line@ == shape_points_of(
                    shapes@,
                    r@[j].shape_id@,
                ),
        decreases ids@.len() - k,
    {
        proof {
            assert(ids.deep_view()[k as int] == ids@[k as int]@);
        }
        let id = ids[k].clone();
        let mut line: Vec<GeoPoint> = Vec::new();
        let mut m: usize = 0;
        proof {
            assert(shapes@.take(0) =~= Seq::<Shape>::empty());
        }
        while m < shapes.len()
            invariant
                m <= shapes@.len(),
                id@ == ids.deep_view()[k as int],
                k < ids@.len(),
                ids@.len() == ids.deep_view().len(),
                line@ == shape_points_of(shapes@.take(m as int), id@),
            decreases shapes@.len() - m,
        {
            proof {
                assert(shapes@.take(m + 1).drop_last() =~= shapes@.take(m as int));
                assert(shapes@.take(m + 1).last() == shapes@[m as int]);
            }
            let ghost prev = line@;
            if str_eq_value(shapes[m].shape_id.as_str(), id.as_str()) {
                line.push(
                    GeoPoint { x: shapes[m].shape_pt_lon, y: shapes[m].shape_pt_lat },
                );
                proof {
                    assert(line@ =~= prev.push(
                        GeoPoint {
                            x: shapes@[m as int].shape_pt_lon,
                            y: shapes@[m as int].shape_pt_lat,
                        },
                    ));
                }
            }
            m = m + 1;
        }
        proof {
            assert(shapes@.take(shapes@.len() as int) =~= shapes@);
        }
        r.push(GeoShapeLine { shape_id: id, shape_line: line });
        k = k + 1;
    }
    r
}

} // verus!
