use gtfs_tool::archive::ArchiveMember;
use gtfs_tool::archive::GtfsError;
use gtfs_tool::archive::GtfsFile;
use gtfs_tool::route::extract_route_info;
use gtfs_tool::route::get_route_description;
use gtfs_tool::route::get_trips;
use gtfs_tool::route::routes_hash;
use gtfs_tool::stop::extract_stop_info;
use gtfs_tool::stop::get_matching_routes;
use gtfs_tool::stop::get_matching_trips;

fn member(name: &str, text: &str) -> ArchiveMember {
    ArchiveMember { name: String::from(name), text: String::from(text) }
}

fn joined_feed() -> GtfsFile {
    GtfsFile::new(vec![
        member(
            "agency.txt",
            "agency_name,agency_url,agency_timezone\nDemo Transit Authority,http://google.com,America/Los_Angeles\n",
        ),
        member(
            "stops.txt",
            "stop_id,stop_name\nSTAGECOACH,Stagecoach Hotel\nBEATTY_AIRPORT,Nye County Airport\nFUR_CREEK_RES,Furnace Creek Resort\n",
        ),
        member(
            "routes.txt",
            "route_id,route_short_name,route_type\nAB,10,3\nCD,20,3\n",
        ),
        member(
            "trips.txt",
            "route_id,service_id,trip_id\nAB,FULLW,T1\nAB,FULLW,T2\nCD,FULLW,T3\n",
        ),
        member(
            "stop_times.txt",
            "trip_id,arrival_time,departure_time,stop_id,stop_sequence\nT1,6:00:00,6:00:00,STAGECOACH,1\nT1,6:20:00,6:20:00,BEATTY_AIRPORT,2\nT2,7:00:00,7:00:00,STAGECOACH,1\nT3,8:00:00,8:00:00,FUR_CREEK_RES,1\n",
        ),
        member(
            "calendar.txt",
            "service_id,monday,tuesday,wednesday,thursday,friday,saturday,sunday,start_date,end_date\nFULLW,1,1,1,1,1,1,1,20070101,20101231\n",
        ),
        member("calendar_dates.txt", "service_id,date,exception_type\nFULLW,20070604,2\n"),
    ])
    .unwrap()
}

#[test]
fn route_detail_joins_exactly_the_route() {
    let file = joined_feed();
    let detail = extract_route_info(&file, &String::from("AB")).unwrap().unwrap();

    assert_eq!(detail.route_description.route_id, "AB");
    assert_eq!(
        detail.route_description.route_short_name,
        Some(String::from("10"))
    );

    // Trips: exactly those whose route reference equals AB, in table order.
    let trip_ids: Vec<&str> = detail.trips.iter().map(|t| t.trip_id.as_str()).collect();
    assert_eq!(trip_ids, vec!["T1", "T2"]);

    // Stop times: exactly those of the matched trips, in table order.
    let st_trips: Vec<&str> = detail
        .associated_stop_times
        .iter()
        .map(|st| st.trip_id.as_deref().unwrap())
        .collect();
    assert_eq!(st_trips, vec!["T1", "T1", "T2"]);

    // Stops: exactly the referenced ones, de-duplicated, ordered by id.
    let stop_ids: Vec<&str> = detail.associated_stops.iter().map(|s| s.stop_id.as_str()).collect();
    assert_eq!(stop_ids, vec!["BEATTY_AIRPORT", "STAGECOACH"]);
}

#[test]
fn route_detail_unknown_identifier_is_none() {
    let file = joined_feed();
    assert!(extract_route_info(&file, &String::from("ZZ")).unwrap().is_none());
}

#[test]
fn get_trips_matches_exactly_no_partial_match() {
    let file = joined_feed();
    let trips = get_trips(&file, "A").unwrap();
    assert_eq!(trips.len(), 0);
    let trips = get_trips(&file, "AB").unwrap();
    assert_eq!(trips.len(), 2);
}

#[test]
fn route_description_last_row_wins() {
    let file = GtfsFile::new(vec![
        member(
            "agency.txt",
            "agency_name,agency_url,agency_timezone\nA,u,z\n",
        ),
        member("stops.txt", "stop_id\nX\n"),
        member(
            "routes.txt",
            "route_id,route_short_name\nAB,first\nAB,second\n",
        ),
        member("trips.txt", "route_id,service_id,trip_id\nAB,FULLW,T1\n"),
        member("stop_times.txt", "trip_id,stop_id,stop_sequence\nT1,X,1\n"),
        member(
            "calendar.txt",
            "service_id,monday,tuesday,wednesday,thursday,friday,saturday,sunday,start_date,end_date\nFULLW,1,1,1,1,1,1,1,20070101,20101231\n",
        ),
        member("calendar_dates.txt", "service_id,date,exception_type\nFULLW,20070604,2\n"),
    ])
    .unwrap();
    let rt = get_route_description(&file, &String::from("AB")).unwrap().unwrap();
    assert_eq!(rt.route_short_name, Some(String::from("second")));
}

#[test]
fn routes_hash_lookup_is_last_write_wins() {
    let file = joined_feed();
    let routes = file.read_vec::<gtfs_tool::gtfs::Route>().unwrap();
    let map = routes_hash(routes);
    assert!(map.get("AB").is_some());
    assert!(map.get("CD").is_some());
    assert!(map.get("ZZ").is_none());
    assert_eq!(map.get("CD").unwrap().route_short_name, Some(String::from("20")));
}

#[test]
fn stop_detail_joins_exactly_the_stop() {
    let file = joined_feed();
    let detail = extract_stop_info(&file, &String::from("STAGECOACH")).unwrap().unwrap();

    assert_eq!(detail.stop_description.stop_id, "STAGECOACH");
    assert_eq!(detail.stop_times.len(), 2);

    // Trips de-duplicated by identifier, first occurrence first.
    let trip_ids: Vec<&str> = detail.associated_trips.iter().map(|t| t.trip_id.as_str()).collect();
    assert_eq!(trip_ids, vec!["T1", "T2"]);

    // Routes of those trips, de-duplicated, ordered by identifier.
    let route_ids: Vec<&str> =
        detail.associated_routes.iter().map(|r| r.route_id.as_str()).collect();
    assert_eq!(route_ids, vec!["AB"]);
}

#[test]
fn stop_detail_unknown_identifier_is_none() {
    let file = joined_feed();
    assert!(extract_stop_info(&file, &String::from("NOWHERE")).unwrap().is_none());
}

#[test]
fn unresolvable_trip_reference_is_a_referential_error() {
    let file = joined_feed();
    // The visits at STAGECOACH name trips T1 and T2; hand the resolver a
    // table that no longer declares T2.
    let sts = gtfs_tool::stop::get_stop_times(&file, &String::from("STAGECOACH")).unwrap();
    let broken = GtfsFile::new(vec![
        member("agency.txt", "agency_name,agency_url,agency_timezone\nA,u,z\n"),
        member("stops.txt", "stop_id\nX\n"),
        member("routes.txt", "route_id\nAB\n"),
        member("trips.txt", "route_id,service_id,trip_id\nAB,FULLW,T1\n"),
        member("stop_times.txt", "trip_id,stop_id,stop_sequence\nT1,X,1\n"),
        member(
            "calendar.txt",
            "service_id,monday,tuesday,wednesday,thursday,friday,saturday,sunday,start_date,end_date\nFULLW,1,1,1,1,1,1,1,20070101,20101231\n",
        ),
        member("calendar_dates.txt", "service_id,date,exception_type\nFULLW,20070604,2\n"),
    ])
    .unwrap();
    assert_eq!(get_matching_trips(&broken, &sts), Err(GtfsError::Referential));
}

#[test]
fn routes_absent_from_table_are_skipped_in_stop_detail() {
    let file = joined_feed();
    let trips = file.read_vec::<gtfs_tool::gtfs::Trip>().unwrap();
    // All three trips reference AB or CD; both exist, sorted output.
    let routes = get_matching_routes(&file, &trips).unwrap();
    let ids: Vec<&str> = routes.iter().map(|r| r.route_id.as_str()).collect();
    assert_eq!(ids, vec!["AB", "CD"]);
}
