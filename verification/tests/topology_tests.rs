use gtfs_tool::archive::GtfsError;
use gtfs_tool::gtfs::Route;
use gtfs_tool::gtfs::Stop;
use gtfs_tool::gtfs::StopTime;
use gtfs_tool::gtfs::Trip;
use gtfs_tool::route::FullRoute;
use gtfs_tool::visualize::route_topology;

fn stop(id: &str, name: Option<&str>, parent: Option<&str>) -> Stop {
    Stop {
        stop_id: String::from(id),
        stop_code: None,
        stop_name: name.map(String::from),
        tts_stop_name: None,
        stop_desc: None,
        stop_lat: None,
        stop_lon: None,
        zone_id: None,
        stop_url: None,
        location_type: None,
        parent_station: parent.map(String::from),
        stop_timezone: None,
        wheelchair_boarding: None,
        level_id: None,
        platform_code: None,
    }
}

fn trip(route_id: &str, trip_id: &str) -> Trip {
    Trip {
        route_id: String::from(route_id),
        service_id: String::from("FULLW"),
        trip_id: String::from(trip_id),
        trip_headsign: None,
        trip_short_name: None,
        direction_id: None,
        block_id: None,
        shape_id: None,
        wheelchair_accessible: None,
        bikes_allowed: None,
    }
}

fn visit(trip_id: &str, stop_id: &str, seq: u64) -> StopTime {
    StopTime {
        trip_id: Some(String::from(trip_id)),
        arrival_time: None,
        departure_time: None,
        stop_id: Some(String::from(stop_id)),
        stop_sequence: Some(seq),
        stop_headsign: None,
        pickup_type: None,
        drop_off_type: None,
        continuous_pickup: None,
        contiuous_drop_off: None,
        shape_dist_travelled: None,
        timepoint: None,
    }
}

fn route_record(id: &str) -> Route {
    Route {
        route_id: String::from(id),
        agency_id: None,
        route_short_name: None,
        route_long_name: None,
        route_desc: None,
        route_type: None,
        route_url: None,
        route_color: None,
        route_text_color: None,
        route_sort_order: None,
        continuous_pickup: None,
        continuous_drop_off: None,
        network_id: None,
    }
}

#[test]
fn two_stop_line_yields_one_edge_weighted_by_trips() {
    let stops = vec![stop("A", Some("Stop A"), None), stop("B", Some("Stop B"), None)];
    let fr = FullRoute {
        route_description: route_record("R"),
        trips: vec![trip("R", "t1"), trip("R", "t2"), trip("R", "t3")],
        associated_stop_times: vec![
            visit("t1", "A", 1),
            visit("t1", "B", 2),
            visit("t2", "A", 1),
            visit("t2", "B", 2),
            visit("t3", "A", 1),
            visit("t3", "B", 2),
        ],
        associated_stops: stops.clone(),
    };
    let g = route_topology(&fr, &stops).unwrap();
    assert_eq!(g.edges.len(), 1);
    assert_eq!(g.edges[0].from_id, "A");
    assert_eq!(g.edges[0].to_id, "B");
    assert_eq!(g.edges[0].weight, 3);
    assert_eq!(g.edges[0].from_label, "Stop A");
    assert_eq!(g.edges[0].to_label, "Stop B");
}

#[test]
fn out_and_back_trip_yields_two_directed_edges() {
    let stops = vec![stop("A", None, None), stop("B", None, None)];
    let fr = FullRoute {
        route_description: route_record("R"),
        trips: vec![trip("R", "t1")],
        associated_stop_times: vec![
            visit("t1", "A", 1),
            visit("t1", "B", 2),
            visit("t1", "A", 3),
        ],
        associated_stops: stops.clone(),
    };
    let g = route_topology(&fr, &stops).unwrap();
    assert_eq!(g.edges.len(), 2);
    assert_eq!(g.edges[0].from_id, "A");
    assert_eq!(g.edges[0].to_id, "B");
    assert_eq!(g.edges[0].weight, 1);
    assert_eq!(g.edges[1].from_id, "B");
    assert_eq!(g.edges[1].to_id, "A");
    assert_eq!(g.edges[1].weight, 1);
    // Without a name record, the label falls back to the raw identifier.
    assert_eq!(g.edges[0].from_label, "A");
}

#[test]
fn platform_stops_collapse_onto_their_parent_station() {
    // Two platforms of the same station, reached from X on different
    // trips: both movements join X to the station node, never to a
    // platform-level identifier.
    let joined = vec![
        stop("X", Some("Cross"), None),
        stop("PLAT1", Some("Platform one"), Some("STA")),
        stop("PLAT2", Some("Platform two"), Some("STA")),
    ];
    let all = vec![
        stop("X", Some("Cross"), None),
        stop("PLAT1", Some("Platform one"), Some("STA")),
        stop("PLAT2", Some("Platform two"), Some("STA")),
        stop("STA", Some("Central Station"), None),
    ];
    let fr = FullRoute {
        route_description: route_record("R"),
        trips: vec![trip("R", "t1"), trip("R", "t2")],
        associated_stop_times: vec![
            visit("t1", "X", 1),
            visit("t1", "PLAT1", 2),
            visit("t2", "X", 1),
            visit("t2", "PLAT2", 2),
        ],
        associated_stops: joined,
    };
    let g = route_topology(&fr, &all).unwrap();
    assert_eq!(g.edges.len(), 1);
    assert_eq!(g.edges[0].from_id, "X");
    assert_eq!(g.edges[0].to_id, "STA");
    assert_eq!(g.edges[0].weight, 2);
    assert_eq!(g.edges[0].to_label, "Central Station");
}

#[test]
fn visits_are_ordered_by_sequence_number_not_input_order() {
    let stops = vec![stop("A", None, None), stop("B", None, None)];
    let fr = FullRoute {
        route_description: route_record("R"),
        trips: vec![trip("R", "t1")],
        associated_stop_times: vec![visit("t1", "B", 2), visit("t1", "A", 1)],
        associated_stops: stops.clone(),
    };
    let g = route_topology(&fr, &stops).unwrap();
    assert_eq!(g.edges.len(), 1);
    assert_eq!(g.edges[0].from_id, "A");
    assert_eq!(g.edges[0].to_id, "B");
}

#[test]
fn sparse_one_based_sequences_are_accepted() {
    let stops = vec![stop("A", None, None), stop("B", None, None), stop("C", None, None)];
    let fr = FullRoute {
        route_description: route_record("R"),
        trips: vec![trip("R", "t1")],
        associated_stop_times: vec![
            visit("t1", "A", 10),
            visit("t1", "B", 20),
            visit("t1", "C", 35),
        ],
        associated_stops: stops.clone(),
    };
    let g = route_topology(&fr, &stops).unwrap();
    assert_eq!(g.edges.len(), 2);
    assert_eq!(g.edges[0].from_id, "A");
    assert_eq!(g.edges[0].to_id, "B");
    assert_eq!(g.edges[1].from_id, "B");
    assert_eq!(g.edges[1].to_id, "C");
}

#[test]
fn unresolvable_stop_reference_is_a_referential_error() {
    let stops = vec![stop("A", None, None)];
    let fr = FullRoute {
        route_description: route_record("R"),
        trips: vec![trip("R", "t1")],
        associated_stop_times: vec![visit("t1", "A", 1), visit("t1", "GHOST", 2)],
        associated_stops: stops.clone(),
    };
    assert_eq!(route_topology(&fr, &stops), Err(GtfsError::Referential));
}

#[test]
fn missing_sequence_number_is_a_referential_error() {
    let stops = vec![stop("A", None, None)];
    let mut bad = visit("t1", "A", 1);
    bad.stop_sequence = None;
    let fr = FullRoute {
        route_description: route_record("R"),
        trips: vec![trip("R", "t1")],
        associated_stop_times: vec![bad],
        associated_stops: stops.clone(),
    };
    assert_eq!(route_topology(&fr, &stops), Err(GtfsError::Referential));
}
