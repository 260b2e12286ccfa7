use gtfs_tool::archive::ArchiveMember;
use gtfs_tool::archive::GtfsFile;
use gtfs_tool::archive::load_gtfs_file;

fn member(name: &str, text: &str) -> ArchiveMember {
    ArchiveMember { name: String::from(name), text: String::from(text) }
}

fn sample_feed() -> Vec<ArchiveMember> {
    vec![
        member(
            "agency.txt",
            "agency_name,agency_url,agency_timezone\nDemo Transit Authority,http://google.com,America/Los_Angeles\n",
        ),
        member(
            "calendar.txt",
            "service_id,monday,tuesday,wednesday,thursday,friday,saturday,sunday,start_date,end_date\nFULLW,1,1,1,1,1,1,1,20070101,20101231\n",
        ),
        member(
            "calendar_dates.txt",
            "service_id,date,exception_type\nFULLW,20070604,2\n",
        ),
        member(
            "fare_attributes.txt",
            "fare_id,price,currency_type,payment_method,transfers\np,1.25,USD,0,0\n",
        ),
        member("fare_rules.txt", "fare_id,route_id\np,AB\n"),
        member(
            "frequencies.txt",
            "trip_id,start_time,end_time,headway_secs\nSTBA,6:00:00,22:00:00,1800\n",
        ),
        member(
            "routes.txt",
            "route_id,agency_id,route_short_name,route_long_name,route_type\nAB,DTA,10,Airport - Bullfrog,3\n",
        ),
        member(
            "shapes.txt",
            "shape_id,shape_pt_lat,shape_pt_lon,shape_pt_sequence\nA_shp,36.915682,-116.751677,0\n",
        ),
        member(
            "stop_times.txt",
            "trip_id,arrival_time,departure_time,stop_id,stop_sequence,stop_headsign,pickup_type,drop_off_type,shape_dist_traveled\nSTBA,6:00:00,6:00:00,STAGECOACH,1,,,,\nAAMV4,16:00:00,16:00:00,BEATTY_AIRPORT,2\n",
        ),
        member(
            "stops.txt",
            "stop_id,stop_name,stop_desc,stop_lat,stop_lon,zone_id,stop_url\nFUR_CREEK_RES,Furnace Creek Resort (Demo),,36.425288,-117.133162,,\nBEATTY_AIRPORT,Nye County Airport (Demo),,36.868446,-116.784582,,\nSTAGECOACH,Stagecoach Hotel & Casino (Demo),,36.915682,-116.751677,,\n",
        ),
        member(
            "trips.txt",
            "route_id,service_id,trip_id\nAB,FULLW,STBA\nAB,FULLW,AAMV4\n",
        ),
    ]
}

#[test]
fn test_new_gtfsfile_loading() {
    let expected_data: Vec<&str> = vec![
        "agency.txt",
        "calendar.txt",
        "calendar_dates.txt",
        "fare_attributes.txt",
        "fare_rules.txt",
        "frequencies.txt",
        "routes.txt",
        "shapes.txt",
        "stop_times.txt",
        "stops.txt",
        "trips.txt",
    ];
    let mut expected: Vec<String> = Vec::new();
    for file_name in expected_data {
        expected.push(String::from(file_name))
    }

    let result: Vec<String> = GtfsFile::new(sample_feed()).unwrap().list_files();

    assert_eq!(expected, result);
}

#[test]
fn gtfs_test_new_gtfsfile_loading() {
    let data: Vec<&str> = vec![
        "agency.txt",
        "calendar.txt",
        "calendar_dates.txt",
        "fare_attributes.txt",
        "fare_rules.txt",
        "frequencies.txt",
        "routes.txt",
        "shapes.txt",
        "stop_times.txt",
        "stops.txt",
        "trips.txt",
    ];
    let mut expected: Vec<String> = Vec::new();
    for file in data {
        expected.push(String::from(file))
    }

    let result: Vec<String> = GtfsFile::new(sample_feed()).unwrap().list_files();

    assert_eq!(expected, result);
}

fn broken_feed() -> Vec<ArchiveMember> {
    // The stop-time table is missing altogether: the archive is invalid.
    let mut members = sample_feed();
    members.retain(|m| m.name != "stop_times.txt");
    members
}

#[test]
fn test_new_broken_gtfs() {
    let _gtfs_file = match GtfsFile::new(broken_feed()) {
        Ok(_) => panic!("This gtfs file should have been rejected as invalid"),
        Err(error) => {
            println!("correctly rejected invalid gtfs file, with error {}", error.message())
        },
    };
}

#[test]
fn gtfs_test_new_broken_gtfs() {
    let _gtfs_file = match GtfsFile::new(broken_feed()) {
        Ok(_) => panic!("This gtfs file should have been rejected as invalid"),
        Err(error) => {
            println!("correctly rejected invalid gtfs file, with error {}", error.message())
        },
    };
}

#[test]
fn open_rejects_each_missing_required_member() {
    let required = vec![
        "agency.txt",
        "stops.txt",
        "routes.txt",
        "trips.txt",
        "stop_times.txt",
        "calendar.txt",
        "calendar_dates.txt",
    ];
    for name in required {
        let mut members = sample_feed();
        members.retain(|m| m.name != name);
        assert!(GtfsFile::new(members).is_err(), "should reject archive without {}", name);
    }
}

#[test]
fn open_then_list_members_preserves_order_and_is_nonempty() {
    let feed = sample_feed();
    let names: Vec<String> = feed.iter().map(|m| m.name.clone()).collect();
    let file = GtfsFile::new(feed).unwrap();
    let listed = file.list_files();
    assert!(!listed.is_empty());
    assert_eq!(names, listed);
}

#[test]
fn load_gtfs_file_keeps_members() {
    let file = load_gtfs_file(sample_feed());
    assert_eq!(file.list_files().len(), 11);
    let text = file.extract_by_name("fare_rules.txt");
    assert_eq!(text, "fare_id,route_id\np,AB\n");
}

#[test]
fn spec_error_message_text() {
    let e = gtfs_tool::archive::GtfsSpecError;
    assert_eq!(e.message(), "The files provided do not match GTFS specifications");
}
