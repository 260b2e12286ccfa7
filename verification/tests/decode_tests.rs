use gtfs_tool::archive::ArchiveMember;
use gtfs_tool::archive::GtfsError;
use gtfs_tool::archive::GtfsFile;
use gtfs_tool::codec::DecimalValue;
use gtfs_tool::codec::Time;
use gtfs_tool::fields::CodeEnum;
use gtfs_tool::gtfs::Agency;
use gtfs_tool::gtfs::Calendar;
use gtfs_tool::gtfs::CalendarDate;
use gtfs_tool::gtfs::CalendarException;
use gtfs_tool::gtfs::HVTRouteType;
use gtfs_tool::gtfs::LocationType;
use gtfs_tool::gtfs::Route;
use gtfs_tool::gtfs::RouteType;
use gtfs_tool::gtfs::StandardRouteType;
use gtfs_tool::gtfs::Stop;
use gtfs_tool::gtfs::StopTime;
use gtfs_tool::gtfs::csv_add_commas;
use gtfs_tool::tables::FareAttributes;
use gtfs_tool::tables::FareRule;
use gtfs_tool::tables::PaymentMethod;

fn member(name: &str, text: &str) -> ArchiveMember {
    ArchiveMember { name: String::from(name), text: String::from(text) }
}

fn feed_with(extra: Vec<ArchiveMember>) -> GtfsFile {
    let mut members = vec![
        member(
            "agency.txt",
            "agency_name,agency_url,agency_timezone\nDemo Transit Authority,http://google.com,America/Los_Angeles\n",
        ),
        member(
            "stops.txt",
            "stop_id,stop_name,stop_desc,stop_lat,stop_lon,zone_id,stop_url\nFUR_CREEK_RES,Furnace Creek Resort (Demo),,36.425288,-117.133162,,\n",
        ),
        member(
            "routes.txt",
            "route_id,agency_id,route_short_name,route_long_name,route_type\nAB,DTA,10,Airport - Bullfrog,3\n",
        ),
        member("trips.txt", "route_id,service_id,trip_id\nAB,FULLW,STBA\n"),
        member(
            "stop_times.txt",
            "trip_id,arrival_time,departure_time,stop_id,stop_sequence,stop_headsign,pickup_type,drop_off_type,shape_dist_traveled\nSTBA,6:00:00,6:00:00,STAGECOACH,1,,,,\nAAMV4,16:00:00,16:00:00,BEATTY_AIRPORT,2\n",
        ),
        member(
            "calendar.txt",
            "service_id,monday,tuesday,wednesday,thursday,friday,saturday,sunday,start_date,end_date\nFULLW,1,1,1,1,1,1,1,20070101,20101231\n",
        ),
        member(
            "calendar_dates.txt",
            "service_id,date,exception_type\nFULLW,20070604,2\n",
        ),
    ];
    for m in extra {
        members.retain(|old| old.name != m.name);
        members.push(m);
    }
    GtfsFile::new(members).unwrap()
}

#[test]
fn test_different_parsings() {
    let gtfs_file = feed_with(vec![]);
    let stops: Vec<Stop> = Stop::from_gtfs_file(&gtfs_file).unwrap();

    let result_stops = &stops[0];

    let expected_stops = &Stop {
        stop_id: String::from("FUR_CREEK_RES"),
        stop_code: None,
        stop_name: Some(String::from("Furnace Creek Resort (Demo)")),
        tts_stop_name: None,
        stop_desc: None,
        stop_lat: Some(DecimalValue { negative: false, units: 36, nanos: 425288000 }),
        stop_lon: Some(DecimalValue { negative: true, units: 117, nanos: 133162000 }),
        zone_id: None,
        stop_url: None,
        location_type: None,
        parent_station: None,
        stop_timezone: None,
        wheelchair_boarding: None,
        level_id: None,
        platform_code: None,
    };

    assert_eq!(result_stops, expected_stops);

    let stop_times = StopTime::from_gtfs_file(&gtfs_file).unwrap();
    let result_stop_time = &stop_times[stop_times.len() - 1];

    let expected_stop_time = &StopTime {
        trip_id: Some(String::from("AAMV4")),
        arrival_time: Some(Time { h: 16, m: 0, s: 0 }),
        departure_time: Some(Time { h: 16, m: 0, s: 0 }),
        stop_id: Some(String::from("BEATTY_AIRPORT")),
        stop_sequence: Some(2),
        stop_headsign: None,
        pickup_type: None,
        drop_off_type: None,
        continuous_pickup: None,
        contiuous_drop_off: None,
        shape_dist_travelled: None,
        timepoint: None,
    };

    assert_eq!(result_stop_time, expected_stop_time);
}

#[test]
fn agency_decodes_with_optional_columns_absent() {
    let file = feed_with(vec![]);
    let agencies = Agency::from_gtfs_file(&file).unwrap();
    assert_eq!(agencies.len(), 1);
    assert_eq!(agencies[0].agency_id, None);
    assert_eq!(agencies[0].agency_name, "Demo Transit Authority");
    assert_eq!(agencies[0].agency_url, "http://google.com");
    assert_eq!(agencies[0].agency_timezone, "America/Los_Angeles");
}

#[test]
fn agency_missing_required_column_is_fatal() {
    let file = feed_with(vec![member(
        "agency.txt",
        "agency_name,agency_url\nDemo Transit Authority,http://google.com\n",
    )]);
    assert_eq!(Agency::from_gtfs_file(&file), Err(GtfsError::Decode));
}

#[test]
fn route_decodes_standard_and_extended_types() {
    let file = feed_with(vec![member(
        "routes.txt",
        "route_id,route_type\nAB,3\nHV,1300\n",
    )]);
    let routes = Route::from_gtfs_file(&file).unwrap();
    assert_eq!(routes.len(), 2);
    assert!(matches!(routes[0].route_type, Some(RouteType::Standard(StandardRouteType::Bus))));
    assert!(matches!(routes[1].route_type, Some(RouteType::HVT(HVTRouteType::AerialLift))));
}

#[test]
fn unrecognized_enum_code_is_fatal_not_coerced() {
    // 8 is neither a standard vehicle-type code nor an extended one.
    let file = feed_with(vec![member("routes.txt", "route_id,route_type\nAB,8\n")]);
    assert_eq!(Route::from_gtfs_file(&file), Err(GtfsError::Decode));
}

#[test]
fn calendar_decodes_weekday_bits_and_dates() {
    let file = feed_with(vec![]);
    let cal = Calendar::from_gtfs_file(&file).unwrap();
    assert_eq!(cal.len(), 1);
    assert_eq!(cal[0].service_id, "FULLW");
    assert!(cal[0].monday && cal[0].sunday);
    assert_eq!(cal[0].start_date.year, 2007);
    assert_eq!(cal[0].end_date.day, 31);

    let dates = CalendarDate::from_gtfs_file(&file).unwrap();
    assert_eq!(dates.len(), 1);
    assert!(matches!(dates[0].exception_type, CalendarException::Removed));
}

#[test]
fn absent_optional_table_reports_missing_file() {
    let file = feed_with(vec![]);
    let r = file.read_vec::<FareAttributes>();
    assert_eq!(r, Err(GtfsError::MissingFile));
}

#[test]
fn fare_attributes_keep_the_meaningless_zero_payment_code() {
    let file = feed_with(vec![member(
        "fare_attributes.txt",
        "fare_id,price,currency_type,payment_method,transfers\np,1.25,USD,0,\n",
    )]);
    let fares = file.read_vec::<FareAttributes>().unwrap();
    assert_eq!(fares.len(), 1);
    assert!(matches!(fares[0].payment_method, PaymentMethod::MeaninglessZero));
    assert_eq!(fares[0].price, DecimalValue { negative: false, units: 1, nanos: 250000000 });
    // An absent transfer count means unlimited transfers, not none.
    assert_eq!(fares[0].transfers, None);
}

#[test]
fn fare_rules_decode() {
    let file = feed_with(vec![member("fare_rules.txt", "fare_id,route_id\np,AB\n")]);
    let rules = file.read_vec::<FareRule>().unwrap();
    assert_eq!(rules.len(), 1);
    assert_eq!(rules[0].fare_id, "p");
    assert_eq!(rules[0].route_id, Some(String::from("AB")));
    assert_eq!(rules[0].contains_id, None);
}

#[test]
fn short_stop_time_rows_are_repaired() {
    // One row is exactly one field short of the header: the repair path
    // pads it, and the decode yields one record per data row.
    let file = feed_with(vec![member(
        "stop_times.txt",
        "trip_id,arrival_time,departure_time,stop_id,stop_sequence\nSTBA,6:00:00,6:00:00,STAGECOACH,1\nAAMV4,16:00:00,16:00:00,BEATTY_AIRPORT\n",
    )]);
    let sts = StopTime::from_gtfs_file(&file).unwrap();
    assert_eq!(sts.len(), 2);
    assert_eq!(sts[1].trip_id, Some(String::from("AAMV4")));
    assert_eq!(sts[1].stop_id, Some(String::from("BEATTY_AIRPORT")));
    assert_eq!(sts[1].stop_sequence, None);
}

#[test]
fn overlong_stop_time_row_is_fatal() {
    // A row longer than the header is a structurally different
    // malformation: no repair, the whole read fails.
    let file = feed_with(vec![member(
        "stop_times.txt",
        "trip_id,arrival_time,departure_time,stop_id,stop_sequence\nSTBA,6:00:00,6:00:00,STAGECOACH,1,extra\n",
    )]);
    assert_eq!(StopTime::from_gtfs_file(&file), Err(GtfsError::Decode));
}

#[test]
fn short_row_with_bad_field_is_still_fatal() {
    let file = feed_with(vec![member(
        "stop_times.txt",
        "trip_id,arrival_time,departure_time,stop_id,stop_sequence\nSTBA,notatime,6:00:00,STAGECOACH\n",
    )]);
    assert_eq!(StopTime::from_gtfs_file(&file), Err(GtfsError::Decode));
}

#[test]
fn strict_decode_rejects_short_rows_outside_stop_times() {
    let file = feed_with(vec![member(
        "trips.txt",
        "route_id,service_id,trip_id\nAB,FULLW\n",
    )]);
    assert_eq!(gtfs_tool::gtfs::Trip::from_gtfs_file(&file), Err(GtfsError::Decode));
}

#[test]
fn location_type_codes_are_a_closed_set() {
    assert!(matches!(LocationType::from_code(0), Some(LocationType::Stop)));
    assert!(matches!(LocationType::from_code(4), Some(LocationType::BoardingArea)));
    assert!(LocationType::from_code(5).is_none());
}

#[test]
fn csv_add_commas_pads_short_lines() {
    let padded = csv_add_commas(String::from("a,b\nc\n"), 2);
    assert_eq!(padded, "a,b\nc,");
    let unchanged = csv_add_commas(String::from("a,b\nc,d"), 2);
    assert_eq!(unchanged, "a,b\nc,d");
    let wider = csv_add_commas(String::from("x\ny\n"), 3);
    assert_eq!(wider, "x,,\ny,,");
}

#[test]
fn empty_member_decodes_to_no_records() {
    let file = feed_with(vec![member("fare_rules.txt", "")]);
    let rules = file.read_vec::<FareRule>().unwrap();
    assert_eq!(rules.len(), 0);
}
