use gtfs_tool::codec::DecimalValue;
use gtfs_tool::geodata::GeoPoint;
use gtfs_tool::geodata::GeoShapeLine;
use gtfs_tool::geodata::GeoShapePoint;
use gtfs_tool::geodata::StopsJson;
use gtfs_tool::geodata::shape_lines;
use gtfs_tool::geodata::stops_json_features;
use gtfs_tool::gtfs::LocationType;
use gtfs_tool::gtfs::Stop;
use gtfs_tool::gtfs::WheelchairAccessibility;
use gtfs_tool::tables::Shape;

fn dec(negative: bool, units: u64, nanos: u32) -> DecimalValue {
    DecimalValue { negative, units, nanos }
}

fn bare_stop(id: &str) -> Stop {
    Stop {
        stop_id: String::from(id),
        stop_code: None,
        stop_name: None,
        tts_stop_name: None,
        stop_desc: None,
        stop_lat: None,
        stop_lon: None,
        zone_id: None,
        stop_url: None,
        location_type: None,
        parent_station: None,
        stop_timezone: None,
        wheelchair_boarding: None,
        level_id: None,
        platform_code: None,
    }
}

#[test]
fn test_from_stop() {
    let stop = Stop {
        stop_id: String::from("test"),
        stop_code: None,
        stop_name: Some(String::from("test")),
        tts_stop_name: None,
        stop_desc: None,
        stop_lat: Some(dec(false, 8, 0)),
        stop_lon: Some(dec(false, 48, 230000000)),
        zone_id: None,
        stop_url: None,
        location_type: Some(LocationType::Station),
        parent_station: Some(String::from("Test")),
        stop_timezone: None,
        wheelchair_boarding: Some(WheelchairAccessibility::Unknown),
        level_id: None,
        platform_code: None,
    };

    let expected_stop = StopsJson {
        id: String::from("test"),
        stop_code: None,
        stop_name: Some(String::from("test")),
        tts_stop_name: None,
        stop_desc: None,
        geometry: GeoPoint { x: dec(false, 48, 230000000), y: dec(false, 8, 0) },
        zone_id: None,
        stop_url: None,
        location_type: Some(LocationType::Station),
        parent_station: Some(String::from("Test")),
        stop_timezone: None,
        wheelchair_boarding: Some(WheelchairAccessibility::Unknown),
        level_id: None,
        platform_code: None,
    };

    let result: StopsJson = StopsJson::from_stop(stop).unwrap();
    assert_eq!(result, expected_stop)
}

#[test]
fn stop_without_either_coordinate_has_no_geometry() {
    let mut only_lat = bare_stop("a");
    only_lat.stop_lat = Some(dec(false, 1, 0));
    assert!(StopsJson::from_stop(only_lat).is_none());

    let mut only_lon = bare_stop("b");
    only_lon.stop_lon = Some(dec(false, 1, 0));
    assert!(StopsJson::from_stop(only_lon).is_none());

    assert!(StopsJson::from_stop(bare_stop("c")).is_none());
}

#[test]
fn features_keep_only_stops_with_geometry() {
    let mut with_geom = bare_stop("g");
    with_geom.stop_lat = Some(dec(false, 2, 0));
    with_geom.stop_lon = Some(dec(true, 3, 0));
    let stops = vec![bare_stop("a"), with_geom, bare_stop("b")];
    let features = stops_json_features(stops);
    assert_eq!(features.len(), 1);
    assert_eq!(features[0].id, "g");
    assert_eq!(features[0].geometry, GeoPoint { x: dec(true, 3, 0), y: dec(false, 2, 0) });
}

fn shape(id: &str, lat: DecimalValue, lon: DecimalValue, seq: u64) -> Shape {
    Shape {
        shape_id: String::from(id),
        shape_pt_lat: lat,
        shape_pt_lon: lon,
        shape_pt_sequence: seq,
        shape_dist_travelled: None,
    }
}

#[test]
fn from_shape_carries_the_point() {
    let s = shape("A_shp", dec(false, 36, 915682000), dec(true, 116, 751677000), 0);
    let p: GeoShapePoint = GeoShapePoint::from_shape(s);
    assert_eq!(p.shape_id, "A_shp");
    assert_eq!(
        p.shape_point,
        GeoPoint { x: dec(true, 116, 751677000), y: dec(false, 36, 915682000) }
    );
    assert_eq!(p.shape_pt_sequence, 0);
    assert_eq!(p.shape_dist_travelled, None);
}

#[test]
fn shape_lines_group_points_by_shape_in_first_occurrence_order() {
    let shapes = vec![
        shape("B", dec(false, 1, 0), dec(false, 2, 0), 0),
        shape("A", dec(false, 3, 0), dec(false, 4, 0), 0),
        shape("B", dec(false, 5, 0), dec(false, 6, 0), 1),
    ];
    let lines: Vec<GeoShapeLine> = shape_lines(&shapes);
    assert_eq!(lines.len(), 2);
    assert_eq!(lines[0].shape_id, "B");
    assert_eq!(
        lines[0].shape_line,
        vec![
            GeoPoint { x: dec(false, 2, 0), y: dec(false, 1, 0) },
            GeoPoint { x: dec(false, 6, 0), y: dec(false, 5, 0) },
        ]
    );
    assert_eq!(lines[1].shape_id, "A");
    assert_eq!(lines[1].shape_line, vec![GeoPoint { x: dec(false, 4, 0), y: dec(false, 3, 0) }]);
}
