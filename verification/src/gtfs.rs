//! The record model of the core tables: bounded enumerations decoded from
//! integer codes, and the agency, stop, route, trip, stop-time and calendar
//! records with their row decoders.
use vstd::prelude::*;

verus! {

use vstd::string::StringExecFns;
use crate::archive::GtfsError;
use crate::archive::GtfsFile;
use crate::fields::CodeEnum;
use crate::fields::cell;
use crate::fields::opt_cell;
use crate::fields::opt_decimal_ok;
use crate::fields::opt_decimal_val;
use crate::fields::opt_enum_ok;
use crate::fields::opt_enum_val;
use crate::fields::opt_time_ok;
use crate::fields::opt_time_val;
use crate::fields::opt_u64_ok;
use crate::fields::opt_u64_val;
use crate::fields::req_bool_ok;
use crate::fields::req_bool_val;
use crate::fields::req_date_ok;
use crate::fields::req_date_val;
use crate::fields::req_enum_ok;
use crate::fields::req_enum_val;
use crate::fields::opt_decimal_field;
use crate::fields::opt_enum_field;
use crate::fields::opt_string;
use crate::fields::opt_time_field;
use crate::fields::opt_u64_field;
use crate::fields::req_bool_field;
use crate::fields::req_date_field;
use crate::fields::req_enum_field;
use crate::fields::req_string;
use crate::codec::DecimalValue;
use crate::codec::GtfsDate;
use crate::codec::Time;
use crate::table::GtfsObject;
use crate::table::table_decodes;
use crate::table::table_decodes_lenient;
use crate::table::table_lenient_matches;
use crate::table::table_matches;
use crate::text::spec_lines;
use crate::text::spec_rows;

// ---------------------------------------------------------------------------
// Bounded enumerations.
// ---------------------------------------------------------------------------

#[derive(Debug, Clone, Copy, PartialEq, Eq, Structural)]
pub enum LocationType {
    Stop,
    Station,
    EntranceExit,
    GenericNode,
    BoardingArea,
}

impl CodeEnum for LocationType {
    open spec fn of_code(code: nat) -> Option<LocationType> {
        if code == 0 {
            Some(LocationType::Stop)
        } else if code == 1 {
            Some(LocationType::Station)
        } else if code == 2 {
            Some(LocationType::EntranceExit)
        } else if code == 3 {
            Some(LocationType::GenericNode)
        } else if code == 4 {
            Some(LocationType::BoardingArea)
        } else {
            None
        }
    }

    fn from_code(code: u64) -> (r: Option<LocationType>) {
        match code {
            0 => Some(LocationType::Stop),
            1 => Some(LocationType::Station),
            2 => Some(LocationType::EntranceExit),
            3 => Some(LocationType::GenericNode),
            4 => Some(LocationType::BoardingArea),
            _ => None,
        }
    }
}

/// Wheelchair accessibility as carried by the feed; the meaning of each
/// code leans on other fields of the record, so treat it as indicative.
#[derive(Debug, Clone, Copy, PartialEq, Eq, Structural)]
pub enum WheelchairAccessibility {
    Unknown,
    Yes,
    No,
}

impl CodeEnum for WheelchairAccessibility {
    open spec fn of_code(code: nat) -> Option<WheelchairAccessibility> {
        if code == 0 {
            Some(WheelchairAccessibility::Unknown)
        } else if code == 1 {
            Some(WheelchairAccessibility::Yes)
        } else if code == 2 {
            Some(WheelchairAccessibility::No)
        } else {
            None
        }
    }

    fn from_code(code: u64) -> (r: Option<WheelchairAccessibility>) {
        match code {
            0 => Some(WheelchairAccessibility::Unknown),
            1 => Some(WheelchairAccessibility::Yes),
            2 => Some(WheelchairAccessibility::No),
            _ => None,
        }
    }
}

#[derive(Debug, Clone, Copy, PartialEq, Eq, Structural)]
pub enum StandardRouteType {
    Tram,
    Metro,
    Rail,
    Bus,
    Ferry,
    CableTram,
    AerialLift,
    Funicular,
    TrolleyBus,
    Monorail,
}

impl CodeEnum for StandardRouteType {
    open spec fn of_code(code: nat) -> Option<StandardRouteType> {
        if code == 0 {
            Some(StandardRouteType::Tram)
        } else if code == 1 {
            Some(StandardRouteType::Metro)
        } else if code == 2 {
            Some(StandardRouteType::Rail)
        } else if code == 3 {
            Some(StandardRouteType::Bus)
        } else if code == 4 {
            Some(StandardRouteType::Ferry)
        } else if code == 5 {
            Some(StandardRouteType::CableTram)
        } else if code == 6 {
            Some(StandardRouteType::AerialLift)
        } else if code == 7 {
            Some(StandardRouteType::Funicular)
        } else if code == 11 {
            Some(StandardRouteType::TrolleyBus)
        } else if code == 12 {
            Some(StandardRouteType::Monorail)
        } else {
            None
        }
    }

    fn from_code(code: u64) -> (r: Option<StandardRouteType>) {
        match code {
            0 => Some(StandardRouteType::Tram),
            1 => Some(StandardRouteType::Metro),
            2 => Some(StandardRouteType::Rail),
            3 => Some(StandardRouteType::Bus),
            4 => Some(StandardRouteType::Ferry),
            5 => Some(StandardRouteType::CableTram),
            6 => Some(StandardRouteType::AerialLift),
            7 => Some(StandardRouteType::Funicular),
            11 => Some(StandardRouteType::TrolleyBus),
            12 => Some(StandardRouteType::Monorail),
            _ => None,
        }
    }
}

/// The extended hierarchical vehicle-type codes, three and four digits.
#[derive(Debug, Clone, Copy, PartialEq, Eq, Structural)]
pub enum HVTRouteType {
    Rail,
    HighSpeedRail,
    LongDistanceRail,
    InterRegionalRail,
    SleeperRail,
    RegionalRail,
    TouristRail,
    RailShuttle,
    SuburbanRail,
    Coach,
    IntrenationalCoach,
    NationalCoach,
    RegionalCoach,
    UrbanRail0,
    Metro,
    UndergroundRail,
    UrbanRail1,
    MonoRail,
    Bus,
    RegionalBus,
    ExpressBus,
    LocalBus,
    DemandResponseBus,
    TrolleyBus,
    Tram,
    WaterTransport,
    Ferry,
    AerialLift,
    Telecabin,
    Funicular,
    CommunalTaxi,
    Miscellaneous,
    HorseDrawnCarriage,
}

impl CodeEnum for HVTRouteType {
    open spec fn of_code(code: nat) -> Option<HVTRouteType> {
        if code == 100 {
            Some(HVTRouteType::Rail)
        } else if code == 101 {
            Some(HVTRouteType::HighSpeedRail)
        } else if code == 102 {
            Some(HVTRouteType::LongDistanceRail)
        } else if code == 103 {
            Some(HVTRouteType::InterRegionalRail)
        } else if code == 105 {
            Some(HVTRouteType::SleeperRail)
        } else if code == 106 {
            Some(HVTRouteType::RegionalRail)
        } else if code == 107 {
            Some(HVTRouteType::TouristRail)
        } else if code == 108 {
            Some(HVTRouteType::RailShuttle)
        } else if code == 109 {
            Some(HVTRouteType::SuburbanRail)
        } else if code == 200 {
            Some(HVTRouteType::Coach)
        } else if code == 201 {
            Some(HVTRouteType::IntrenationalCoach)
        } else if code == 202 {
            Some(HVTRouteType::NationalCoach)
        } else if code == 204 {
            Some(HVTRouteType::RegionalCoach)
        } else if code == 400 {
            Some(HVTRouteType::UrbanRail0)
        } else if code == 401 {
            Some(HVTRouteType::Metro)
        } else if code == 402 {
            Some(HVTRouteType::UndergroundRail)
        } else if code == 403 {
            Some(HVTRouteType::UrbanRail1)
        } else if code == 405 {
            Some(HVTRouteType::MonoRail)
        } else if code == 700 {
            Some(HVTRouteType::Bus)
        } else if code == 701 {
            Some(HVTRouteType::RegionalBus)
        } else if code == 702 {
            Some(HVTRouteType::ExpressBus)
        } else if code == 704 {
            Some(HVTRouteType::LocalBus)
        } else if code == 715 {
            Some(HVTRouteType::DemandResponseBus)
        } else if code == 800 {
            Some(HVTRouteType::TrolleyBus)
        } else if code == 900 {
            Some(HVTRouteType::Tram)
        } else if code == 1000 {
            Some(HVTRouteType::WaterTransport)
        } else if code == 1200 {
            Some(HVTRouteType::Ferry)
        } else if code == 1300 {
            Some(HVTRouteType::AerialLift)
        } else if code == 1301 {
            Some(HVTRouteType::Telecabin)
        } else if code == 1400 {
            Some(HVTRouteType::Funicular)
        } else if code == 1501 {
            Some(HVTRouteType::CommunalTaxi)
        } else if code == 1700 {
            Some(HVTRouteType::Miscellaneous)
        } else if code == 1702 {
            Some(HVTRouteType::HorseDrawnCarriage)
        } else {
            None
        }
    }

    fn from_code(code: u64) -> (r: Option<HVTRouteType>) {
        match code {
            100 => Some(HVTRouteType::Rail),
            101 => Some(HVTRouteType::HighSpeedRail),
            102 => Some(HVTRouteType::LongDistanceRail),
            103 => Some(HVTRouteType::InterRegionalRail),
            105 => Some(HVTRouteType::SleeperRail),
            106 => Some(HVTRouteType::RegionalRail),
            107 => Some(HVTRouteType::TouristRail),
            108 => Some(HVTRouteType::RailShuttle),
            109 => Some(HVTRouteType::SuburbanRail),
            200 => Some(HVTRouteType::Coach),
            201 => Some(HVTRouteType::IntrenationalCoach),
            202 => Some(HVTRouteType::NationalCoach),
            204 => Some(HVTRouteType::RegionalCoach),
            400 => Some(HVTRouteType::UrbanRail0),
            401 => Some(HVTRouteType::Metro),
            402 => Some(HVTRouteType::UndergroundRail),
            403 => Some(HVTRouteType::UrbanRail1),
            405 => Some(HVTRouteType::MonoRail),
            700 => Some(HVTRouteType::Bus),
            701 => Some(HVTRouteType::RegionalBus),
            702 => Some(HVTRouteType::ExpressBus),
            704 => Some(HVTRouteType::LocalBus),
            715 => Some(HVTRouteType::DemandResponseBus),
            800 => Some(HVTRouteType::TrolleyBus),
            900 => Some(HVTRouteType::Tram),
            1000 => Some(HVTRouteType::WaterTransport),
            1200 => Some(HVTRouteType::Ferry),
            1300 => Some(HVTRouteType::AerialLift),
            1301 => Some(HVTRouteType::Telecabin),
            1400 => Some(HVTRouteType::Funicular),
            1501 => Some(HVTRouteType::CommunalTaxi),
            1700 => Some(HVTRouteType::Miscellaneous),
            1702 => Some(HVTRouteType::HorseDrawnCarriage),
            _ => None,
        }
    }
}

/// A route's vehicle type: a small standard code, or, disjointly, an
/// extended hierarchical code; the numeric range selects the tier.
#[derive(Debug, Clone, Copy, PartialEq, Eq, Structural)]
pub enum RouteType {
    Standard(StandardRouteType),
    HVT(HVTRouteType),
}

impl CodeEnum for RouteType {
    open spec fn of_code(code: nat) -> Option<RouteType> {
        match StandardRouteType::of_code(code) {
            Some(s) => Some(RouteType::Standard(s)),
            None => match HVTRouteType::of_code(code) {
                Some(h) => Some(RouteType::HVT(h)),
                None => None,
            },
        }
    }

    fn from_code(code: u64) -> (r: Option<RouteType>) {
        match StandardRouteType::from_code(code) {
            Some(s) => Some(RouteType::Standard(s)),
            None => match HVTRouteType::from_code(code) {
                Some(h) => Some(RouteType::HVT(h)),
                None => None,
            },
        }
    }
}

#[derive(Debug, Clone, Copy, PartialEq, Eq, Structural)]
pub enum PickupType {
    RegularSchedule,
    NoPickup,
    PhoneAgency,
    CoordinateWithDriver,
}

impl CodeEnum for PickupType {
    open spec fn of_code(code: nat) -> Option<PickupType> {
        if code == 0 {
            Some(PickupType::RegularSchedule)
        } else if code == 1 {
            Some(PickupType::NoPickup)
        } else if code == 2 {
            Some(PickupType::PhoneAgency)
        } else if code == 3 {
            Some(PickupType::CoordinateWithDriver)
        } else {
            None
        }
    }

    fn from_code(code: u64) -> (r: Option<PickupType>) {
        match code {
            0 => Some(PickupType::RegularSchedule),
            1 => Some(PickupType::NoPickup),
            2 => Some(PickupType::PhoneAgency),
            3 => Some(PickupType::CoordinateWithDriver),
            _ => None,
        }
    }
}

#[derive(Debug, Clone, Copy, PartialEq, Eq, Structural)]
pub enum Direction {
    Outbound,
    Inbound,
}

impl CodeEnum for Direction {
    open spec fn of_code(code: nat) -> Option<Direction> {
        if code == 0 {
            Some(Direction::Outbound)
        } else if code == 1 {
            Some(Direction::Inbound)
        } else {
            None
        }
    }

    fn from_code(code: u64) -> (r: Option<Direction>) {
        match code {
            0 => Some(Direction::Outbound),
            1 => Some(Direction::Inbound),
            _ => None,
        }
    }
}

#[derive(Debug, Clone, Copy, PartialEq, Eq, Structural)]
pub enum BikesAllowed {
    Unknown,
    Yes,
    No,
}

impl CodeEnum for BikesAllowed {
    open spec fn of_code(code: nat) -> Option<BikesAllowed> {
        if code == 0 {
            Some(BikesAllowed::Unknown)
        } else if code == 1 {
            Some(BikesAllowed::Yes)
        } else if code == 2 {
            Some(BikesAllowed::No)
        } else {
            None
        }
    }

    fn from_code(code: u64) -> (r: Option<BikesAllowed>) {
        match code {
            0 => Some(BikesAllowed::Unknown),
            1 => Some(BikesAllowed::Yes),
            2 => Some(BikesAllowed::No),
            _ => None,
        }
    }
}

#[derive(Debug, Clone, Copy, PartialEq, Eq, Structural)]
pub enum TimepointType {
    Approximate,
    Exact,
}

impl CodeEnum for TimepointType {
    open spec fn of_code(code: nat) -> Option<TimepointType> {
        if code == 0 {
            Some(TimepointType::Approximate)
        } else if code == 1 {
            Some(TimepointType::Exact)
        } else {
            None
        }
    }

    fn from_code(code: u64) -> (r: Option<TimepointType>) {
        match code {
            0 => Some(TimepointType::Approximate),
            1 => Some(TimepointType::Exact),
            _ => None,
        }
    }
}

#[derive(Debug, Clone, Copy, PartialEq, Eq, Structural)]
pub enum CalendarException {
    Added,
    Removed,
}

impl CodeEnum for CalendarException {
    open spec fn of_code(code: nat) -> Option<CalendarException> {
        if code == 1 {
            Some(CalendarException::Added)
        } else if code == 2 {
            Some(CalendarException::Removed)
        } else {
            None
        }
    }

    fn from_code(code: u64) -> (r: Option<CalendarException>) {
        match code {
            1 => Some(CalendarException::Added),
            2 => Some(CalendarException::Removed),
            _ => None,
        }
    }
}

// ---------------------------------------------------------------------------
// Agency.
// ---------------------------------------------------------------------------

#[derive(Debug, Clone, PartialEq)]
pub struct Agency {
    pub agency_id: Option<String>,
    pub agency_name: String,
    pub agency_url: String,
    pub agency_timezone: String,
    pub agency_lang: Option<String>,
    pub agency_phone: Option<String>,
    pub agency_fare_url: Option<String>,
    pub agency_email: Option<String>,
}

impl GtfsObject for Agency {
    open spec fn spec_file() -> Seq<char> {
        "agency.txt"@
    }

    open spec fn spec_required() -> bool {
        true
    }

    open spec fn row_ok(h: Seq<Seq<char>>, row: Seq<Seq<char>>) -> bool {
        &&& cell(h, row, "agency_name"@) is Some
        &&& cell(h, row, "agency_url"@) is Some
        &&& cell(h, row, "agency_timezone"@) is Some
    }

    open spec fn row_matches(h: Seq<Seq<char>>, row: Seq<Seq<char>>, v: Agency) -> bool {
        &&& v.agency_id.deep_view() == opt_cell(h, row, "agency_id"@)
        &&& Some(v.agency_name@) == cell(h, row, "agency_name"@)
        &&& Some(v.agency_url@) == cell(h, row, "agency_url"@)
        &&& Some(v.agency_timezone@) == cell(h, row, "agency_timezone"@)
        &&& v.agency_lang.deep_view() == opt_cell(h, row, "agency_lang"@)
        &&& v.agency_phone.deep_view() == opt_cell(h, row, "agency_phone"@)
        &&& v.agency_fare_url.deep_view() == opt_cell(h, row, "agency_fare_url"@)
        &&& v.agency_email.deep_view() == opt_cell(h, row, "agency_email"@)
    }

    fn file_name() -> (s: String) {
        String::from_str("agency.txt")
    }

    fn from_row(header: &Vec<String>, row: &Vec<String>) -> (res: Result<Agency, GtfsError>) {
        let agency_id = opt_string(header, row, "agency_id");
        let agency_name = match req_string(header, row, "agency_name") {
            Ok(v) => v,
            Err(e) => {
                return Err(e);
            },
        };
        let agency_url = match req_string(header, row, "agency_url") {
            Ok(v) => v,
            Err(e) => {
                return Err(e);
            },
        };
        let agency_timezone = match req_string(header, row, "agency_timezone") {
            Ok(v) => v,
            Err(e) => {
                return Err(e);
            },
        };
        let agency_lang = opt_string(header, row, "agency_lang");
        let agency_phone = opt_string(header, row, "agency_phone");
        let agency_fare_url = opt_string(header, row, "agency_fare_url");
        let agency_email = opt_string(header, row, "agency_email");
        Ok(
            Agency {
                agency_id,
                agency_name,
                agency_url,
                agency_timezone,
                agency_lang,
                agency_phone,
                agency_fare_url,
                agency_email,
            },
        )
    }
}

impl Agency {
    /// Decode the whole agency table from the archive session.
    pub fn from_gtfs_file(file: &GtfsFile) -> (r: Result<Vec<Agency>, GtfsError>)
        ensures
            r is Ok <==> table_decodes::<Agency>(*file),
            r matches Ok(v) ==> table_matches::<Agency>(
                spec_rows(file.text_of(Agency::spec_file())->0),
                v.view(),
            ),
            r matches Err(e) ==> (e == GtfsError::MissingFile <==> file.text_of(Agency::spec_file())
                is None),
            r matches Err(e) ==> e == GtfsError::MissingFile || e == GtfsError::Decode,
    {
        file.read_vec::<Agency>()
    }
}

// ---------------------------------------------------------------------------
// Stop.
// ---------------------------------------------------------------------------

/// A stop or station. Its geographic point is defined if and only if both
/// coordinate fields are present.
#[derive(Debug, Clone, PartialEq)]
pub struct Stop {
    pub stop_id: String,
    pub stop_code: Option<String>,
    pub stop_name: Option<String>,
    pub tts_stop_name: Option<String>,
    pub stop_desc: Option<String>,
    pub stop_lat: Option<DecimalValue>,
    pub stop_lon: Option<DecimalValue>,
    pub zone_id: Option<String>,
    pub stop_url: Option<String>,
    pub location_type: Option<LocationType>,
    pub parent_station: Option<String>,
    pub stop_timezone: Option<String>,
    pub wheelchair_boarding: Option<WheelchairAccessibility>,
    pub level_id: Option<String>,
    pub platform_code: Option<String>,
}

impl GtfsObject for Stop {
    open spec fn spec_file() -> Seq<char> {
        "stops.txt"@
    }

    open spec fn spec_required() -> bool {
        true
    }

    open spec fn row_ok(h: Seq<Seq<char>>, row: Seq<Seq<char>>) -> bool {
        &&& cell(h, row, "stop_id"@) is Some
        &&& opt_decimal_ok(h, row, "stop_lat"@)
        &&& opt_decimal_ok(h, row, "stop_lon"@)
        &&& opt_enum_ok::<LocationType>(h, row, "location_type"@)
        &&& opt_enum_ok::<WheelchairAccessibility>(h, row, "wheelchair_boarding"@)
    }

    open spec fn row_matches(h: Seq<Seq<char>>, row: Seq<Seq<char>>, v: Stop) -> bool {
        &&& Some(v.stop_id@) == cell(h, row, "stop_id"@)
        &&& v.stop_code.deep_view() == opt_cell(h, row, "stop_code"@)
        &&& v.stop_name.deep_view() == opt_cell(h, row, "stop_name"@)
        &&& v.tts_stop_name.deep_view() == opt_cell(h, row, "tts_stop_name"@)
        &&& v.stop_desc.deep_view() == opt_cell(h, row, "stop_desc"@)
        &&& v.stop_lat == opt_decimal_val(h, row, "stop_lat"@)
        &&& v.stop_lon == opt_decimal_val(h, row, "stop_lon"@)
        &&& v.zone_id.deep_view() == opt_cell(h, row, "zone_id"@)
        &&& v.stop_url.deep_view() == opt_cell(h, row, "stop_url"@)
        &&& v.location_type == opt_enum_val::<LocationType>(h, row, "location_type"@)
        &&& v.parent_station.deep_view() == opt_cell(h, row, "parent_station"@)
        &&& v.stop_timezone.deep_view() == opt_cell(h, row, "stop_timezone"@)
        &&& v.wheelchair_boarding == opt_enum_val::<WheelchairAccessibility>(
            h,
            row,
            "wheelchair_boarding"@,
        )
        &&& v.level_id.deep_view() == opt_cell(h, row, "level_id"@)
        &&& v.platform_code.deep_view() == opt_cell(h, row, "platform_code"@)
    }

    fn file_name() -> (s: String) {
        String::from_str("stops.txt")
    }

    fn from_row(header: &Vec<String>, row: &Vec<String>) -> (res: Result<Stop, GtfsError>) {
        let stop_id = match req_string(header, row, "stop_id") {
            Ok(v) => v,
            Err(e) => {
                return Err(e);
            },
        };
        let stop_code = opt_string(header, row, "stop_code");
        let stop_name = opt_string(header, row, "stop_name");
        let tts_stop_name = opt_string(header, row, "tts_stop_name");
        let stop_desc = opt_string(header, row, "stop_desc");
        let stop_lat = match opt_decimal_field(header, row, "stop_lat") {
            Ok(v) => v,
            Err(e) => {
                return Err(e);
            },
        };
        let stop_lon = match opt_decimal_field(header, row, "stop_lon") {
            Ok(v) => v,
            Err(e) => {
                return Err(e);
            },
        };
        let zone_id = opt_string(header, row, "zone_id");
        let stop_url = opt_string(header, row, "stop_url");
        let location_type = match opt_enum_field::<LocationType>(header, row, "location_type") {
            Ok(v) => v,
            Err(e) => {
                return Err(e);
            },
        };
        let parent_station = opt_string(header, row, "parent_station");
        let stop_timezone = opt_string(header, row, "stop_timezone");
        let wheelchair_boarding = match opt_enum_field::<WheelchairAccessibility>(
            header,
            row,
            "wheelchair_boarding",
        ) {
            Ok(v) => v,
            Err(e) => {
                return Err(e);
            },
        };
        let level_id = opt_string(header, row, "level_id");
        let platform_code = opt_string(header, row, "platform_code");
        Ok(
            Stop {
                stop_id,
                stop_code,
                stop_name,
                tts_stop_name,
                stop_desc,
                stop_lat,
                stop_lon,
                zone_id,
                stop_url,
                location_type,
                parent_station,
                stop_timezone,
                wheelchair_boarding,
                level_id,
                platform_code,
            },
        )
    }
}

impl Stop {
    /// Decode the whole stop table from the archive session.
    pub fn from_gtfs_file(file: &GtfsFile) -> (r: Result<Vec<Stop>, GtfsError>)
        ensures
            r is Ok <==> table_decodes::<Stop>(*file),
            r matches Ok(v) ==> table_matches::<Stop>(
                spec_rows(file.text_of(Stop::spec_file())->0),
                v.view(),
            ),
            r matches Err(e) ==> (e == GtfsError::MissingFile <==> file.text_of(Stop::spec_file())
                is None),
            r matches Err(e) ==> e == GtfsError::MissingFile || e == GtfsError::Decode,
    {
        file.read_vec::<Stop>()
    }
}

// ---------------------------------------------------------------------------
// Route.
// ---------------------------------------------------------------------------

#[derive(Debug, Clone, PartialEq)]
pub struct Route {
    pub route_id: String,
    pub agency_id: Option<String>,
    pub route_short_name: Option<String>,
    pub route_long_name: Option<String>,
    pub route_desc: Option<String>,
    pub route_type: Option<RouteType>,
    pub route_url: Option<String>,
    pub route_color: Option<String>,
    pub route_text_color: Option<String>,
    pub route_sort_order: Option<u64>,
    pub continuous_pickup: Option<PickupType>,
    pub continuous_drop_off: Option<PickupType>,
    pub network_id: Option<String>,
}

impl GtfsObject for Route {
    open spec fn spec_file() -> Seq<char> {
        "routes.txt"@
    }

    open spec fn spec_required() -> bool {
        true
    }

    open spec fn row_ok(h: Seq<Seq<char>>, row: Seq<Seq<char>>) -> bool {
        &&& cell(h, row, "route_id"@) is Some
        &&& opt_enum_ok::<RouteType>(h, row, "route_type"@)
        &&& opt_u64_ok(h, row, "route_sort_order"@)
        &&& opt_enum_ok::<PickupType>(h, row, "continuous_pickup"@)
        &&& opt_enum_ok::<PickupType>(h, row, "continuous_drop_off"@)
    }

    open spec fn row_matches(h: Seq<Seq<char>>, row: Seq<Seq<char>>, v: Route) -> bool {
        &&& Some(v.route_id@) == cell(h, row, "route_id"@)
        &&& v.agency_id.deep_view() == opt_cell(h, row, "agency_id"@)
        &&& v.route_short_name.deep_view() == opt_cell(h, row, "route_short_name"@)
        &&& v.route_long_name.deep_view() == opt_cell(h, row, "route_long_name"@)
        &&& v.route_desc.deep_view() == opt_cell(h, row, "route_desc"@)
        &&& v.route_type == opt_enum_val::<RouteType>(h, row, "route_type"@)
        &&& v.route_url.deep_view() == opt_cell(h, row, "route_url"@)
        &&& v.route_color.deep_view() == opt_cell(h, row, "route_color"@)
        &&& v.route_text_color.deep_view() == opt_cell(h, row, "route_text_color"@)
        &&& v.route_sort_order == opt_u64_val(h, row, "route_sort_order"@)
        &&& v.continuous_pickup == opt_enum_val::<PickupType>(h, row, "continuous_pickup"@)
        &&& v.continuous_drop_off == opt_enum_val::<PickupType>(h, row, "continuous_drop_off"@)
        &&& v.network_id.deep_view() == opt_cell(h, row, "network_id"@)
    }

    fn file_name() -> (s: String) {
        String::from_str("routes.txt")
    }

    fn from_row(header: &Vec<String>, row: &Vec<String>) -> (res: Result<Route, GtfsError>) {
        let route_id = match req_string(header, row, "route_id") {
            Ok(v) => v,
            Err(e) => {
                return Err(e);
            },
        };
        let agency_id = opt_string(header, row, "agency_id");
        let route_short_name = opt_string(header, row, "route_short_name");
        let route_long_name = opt_string(header, row, "route_long_name");
        let route_desc = opt_string(header, row, "route_desc");
        let route_type = match opt_enum_field::<RouteType>(header, row, "route_type") {
            Ok(v) => v,
            Err(e) => {
                return Err(e);
            },
        };
        let route_url = opt_string(header, row, "route_url");
        let route_color = opt_string(header, row, "route_color");
        let route_text_color = opt_string(header, row, "route_text_color");
        let route_sort_order = match opt_u64_field(header, row, "route_sort_order") {
            Ok(v) => v,
            Err(e) => {
                return Err(e);
            },
        };
        let continuous_pickup = match opt_enum_field::<PickupType>(header, row, "continuous_pickup")
        {
            Ok(v) => v,
            Err(e) => {
                return Err(e);
            },
        };
        let continuous_drop_off = match opt_enum_field::<PickupType>(
            header,
            row,
            "continuous_drop_off",
        ) {
            Ok(v) => v,
            Err(e) => {
                return Err(e);
            },
        };
        let network_id = opt_string(header, row, "network_id");
        Ok(
            Route {
                route_id,
                agency_id,
                route_short_name,
                route_long_name,
                route_desc,
                route_type,
                route_url,
                route_color,
                route_text_color,
                route_sort_order,
                continuous_pickup,
                continuous_drop_off,
                network_id,
            },
        )
    }
}

impl Route {
    /// Decode the whole route table from the archive session.
    pub fn from_gtfs_file(file: &GtfsFile) -> (r: Result<Vec<Route>, GtfsError>)
        ensures
            r is Ok <==> table_decodes::<Route>(*file),
            r matches Ok(v) ==> table_matches::<Route>(
                spec_rows(file.text_of(Route::spec_file())->0),
                v.view(),
            ),
            r matches Err(e) ==> (e == GtfsError::MissingFile <==> file.text_of(Route::spec_file())
                is None),
            r matches Err(e) ==> e == GtfsError::MissingFile || e == GtfsError::Decode,
    {
        file.read_vec::<Route>()
    }
}

// ---------------------------------------------------------------------------
// Trip.
// ---------------------------------------------------------------------------

#[derive(Debug, Clone, PartialEq)]
pub struct Trip {
    pub route_id: String,
    pub service_id: String,
    pub trip_id: String,
    pub trip_headsign: Option<String>,
    pub trip_short_name: Option<String>,
    pub direction_id: Option<Direction>,
    pub block_id: Option<String>,
    pub shape_id: Option<String>,
    pub wheelchair_accessible: Option<WheelchairAccessibility>,
    pub bikes_allowed: Option<BikesAllowed>,
}

impl GtfsObject for Trip {
    open spec fn spec_file() -> Seq<char> {
        "trips.txt"@
    }

    open spec fn spec_required() -> bool {
        true
    }

    open spec fn row_ok(h: Seq<Seq<char>>, row: Seq<Seq<char>>) -> bool {
        &&& cell(h, row, "route_id"@) is Some
        &&& cell(h, row, "service_id"@) is Some
        &&& cell(h, row, "trip_id"@) is Some
        &&& opt_enum_ok::<Direction>(h, row, "direction_id"@)
        &&& opt_enum_ok::<WheelchairAccessibility>(h, row, "wheelchair_accessible"@)
        &&& opt_enum_ok::<BikesAllowed>(h, row, "bikes_allowed"@)
    }

    open spec fn row_matches(h: Seq<Seq<char>>, row: Seq<Seq<char>>, v: Trip) -> bool {
        &&& Some(v.route_id@) == cell(h, row, "route_id"@)
        &&& Some(v.service_id@) == cell(h, row, "service_id"@)
        &&& Some(v.trip_id@) == cell(h, row, "trip_id"@)
        &&& v.trip_headsign.deep_view() == opt_cell(h, row, "trip_headsign"@)
        &&& v.trip_short_name.deep_view() == opt_cell(h, row, "trip_short_name"@)
        &&& v.direction_id == opt_enum_val::<Direction>(h, row, "direction_id"@)
        &&& v.block_id.deep_view() == opt_cell(h, row, "block_id"@)
        &&& v.shape_id.deep_view() == opt_cell(h, row, "shape_id"@)
        &&& v.wheelchair_accessible == opt_enum_val::<WheelchairAccessibility>(
            h,
            row,
            "wheelchair_accessible"@,
        )
        &&& v.bikes_allowed == opt_enum_val::<BikesAllowed>(h, row, "bikes_allowed"@)
    }

    fn file_name() -> (s: String) {
        String::from_str("trips.txt")
    }

    fn from_row(header: &Vec<String>, row: &Vec<String>) -> (res: Result<Trip, GtfsError>) {
        let route_id = match req_string(header, row, "route_id") {
            Ok(v) => v,
            Err(e) => {
                return Err(e);
            },
        };
        let service_id = match req_string(header, row, "service_id") {
            Ok(v) => v,
            Err(e) => {
                return Err(e);
            },
        };
        let trip_id = match req_string(header, row, "trip_id") {
            Ok(v) => v,
            Err(e) => {
                return Err(e);
            },
        };
        let trip_headsign = opt_string(header, row, "trip_headsign");
        let trip_short_name = opt_string(header, row, "trip_short_name");
        let direction_id = match opt_enum_field::<Direction>(header, row, "direction_id") {
            Ok(v) => v,
            Err(e) => {
                return Err(e);
            },
        };
        let block_id = opt_string(header, row, "block_id");
        let shape_id = opt_string(header, row, "shape_id");
        let wheelchair_accessible = match opt_enum_field::<WheelchairAccessibility>(
            header,
            row,
            "wheelchair_accessible",
        ) {
            Ok(v) => v,
            Err(e) => {
                return Err(e);
            },
        };
        let bikes_allowed = match opt_enum_field::<BikesAllowed>(header, row, "bikes_allowed") {
            Ok(v) => v,
            Err(e) => {
                return Err(e);
            },
        };
        Ok(
            Trip {
                route_id,
                service_id,
                trip_id,
                trip_headsign,
                trip_short_name,
                direction_id,
                block_id,
                shape_id,
                wheelchair_accessible,
                bikes_allowed,
            },
        )
    }
}

impl Trip {
    /// Decode the whole trip table from the archive session.
    pub fn from_gtfs_file(file: &GtfsFile) -> (r: Result<Vec<Trip>, GtfsError>)
        ensures
            r is Ok <==> table_decodes::<Trip>(*file),
            r matches Ok(v) ==> table_matches::<Trip>(
                spec_rows(file.text_of(Trip::spec_file())->0),
                v.view(),
            ),
            r matches Err(e) ==> (e == GtfsError::MissingFile <==> file.text_of(Trip::spec_file())
                is None),
            r matches Err(e) ==> e == GtfsError::MissingFile || e == GtfsError::Decode,
    {
        file.read_vec::<Trip>()
    }
}

// ---------------------------------------------------------------------------
// StopTime.
// ---------------------------------------------------------------------------

/// One timed visit of a trip at a stop, logically keyed by the trip
/// reference and the sequence number.
#[derive(Debug, Clone, PartialEq)]
pub struct StopTime {
    pub trip_id: Option<String>,
    pub arrival_time: Option<Time>,
    pub departure_time: Option<Time>,
    pub stop_id: Option<String>,
    pub stop_sequence: Option<u64>,
    pub stop_headsign: Option<String>,
    pub pickup_type: Option<PickupType>,
    pub drop_off_type: Option<PickupType>,
    pub continuous_pickup: Option<PickupType>,
    pub contiuous_drop_off: Option<PickupType>,
    pub shape_dist_travelled: Option<DecimalValue>,
    pub timepoint: Option<TimepointType>,
}

impl GtfsObject for StopTime {
    open spec fn spec_file() -> Seq<char> {
        "stop_times.txt"@
    }

    open spec fn spec_required() -> bool {
        true
    }

    open spec fn row_ok(h: Seq<Seq<char>>, row: Seq<Seq<char>>) -> bool {
        &&& opt_time_ok(h, row, "arrival_time"@)
        &&& opt_time_ok(h, row, "departure_time"@)
        &&& opt_u64_ok(h, row, "stop_sequence"@)
        &&& opt_enum_ok::<PickupType>(h, row, "pickup_type"@)
        &&& opt_enum_ok::<PickupType>(h, row, "drop_off_type"@)
        &&& opt_enum_ok::<PickupType>(h, row, "continuous_pickup"@)
        &&& opt_enum_ok::<PickupType>(h, row, "contiuous_drop_off"@)
        &&& opt_decimal_ok(h, row, "shape_dist_travelled"@)
        &&& opt_enum_ok::<TimepointType>(h, row, "timepoint"@)
    }

    open spec fn row_matches(h: Seq<Seq<char>>, row: Seq<Seq<char>>, v: StopTime) -> bool {
        &&& v.trip_id.deep_view() == opt_cell(h, row, "trip_id"@)
        &&& v.arrival_time == opt_time_val(h, row, "arrival_time"@)
        &&& v.departure_time == opt_time_val(h, row, "departure_time"@)
        &&& v.stop_id.deep_view() == opt_cell(h, row, "stop_id"@)
        &&& v.stop_sequence == opt_u64_val(h, row, "stop_sequence"@)
        &&& v.stop_headsign.deep_view() == opt_cell(h, row, "stop_headsign"@)
        &&& v.pickup_type == opt_enum_val::<PickupType>(h, row, "pickup_type"@)
        &&& v.drop_off_type == opt_enum_val::<PickupType>(h, row, "drop_off_type"@)
        &&& v.continuous_pickup == opt_enum_val::<PickupType>(h, row, "continuous_pickup"@)
        &&& v.contiuous_drop_off == opt_enum_val::<PickupType>(h, row, "contiuous_drop_off"@)
        &&& v.shape_dist_travelled == opt_decimal_val(h, row, "shape_dist_travelled"@)
        &&& v.timepoint == opt_enum_val::<TimepointType>(h, row, "timepoint"@)
    }

    fn file_name() -> (s: String) {
        String::from_str("stop_times.txt")
    }

    fn from_row(header: &Vec<String>, row: &Vec<String>) -> (res: Result<StopTime, GtfsError>) {
        let trip_id = opt_string(header, row, "trip_id");
        let arrival_time = match opt_time_field(header, row, "arrival_time") {
            Ok(v) => v,
            Err(e) => {
                return Err(e);
            },
        };
        let departure_time = match opt_time_field(header, row, "departure_time") {
            Ok(v) => v,
            Err(e) => {
                return Err(e);
            },
        };
        let stop_id = opt_string(header, row, "stop_id");
        let stop_sequence = match opt_u64_field(header, row, "stop_sequence") {
            Ok(v) => v,
            Err(e) => {
                return Err(e);
            },
        };
        let stop_headsign = opt_string(header, row, "stop_headsign");
        let pickup_type = match opt_enum_field::<PickupType>(header, row, "pickup_type") {
            Ok(v) => v,
            Err(e) => {
                return Err(e);
            },
        };
        let drop_off_type = match opt_enum_field::<PickupType>(header, row, "drop_off_type") {
            Ok(v) => v,
            Err(e) => {
                return Err(e);
            },
        };
        let continuous_pickup = match opt_enum_field::<PickupType>(header, row, "continuous_pickup")
        {
            Ok(v) => v,
            Err(e) => {
                return Err(e);
            },
        };
        let contiuous_drop_off = match opt_enum_field::<PickupType>(
            header,
            row,
            "contiuous_drop_off",
        ) {
            Ok(v) => v,
            Err(e) => {
                return Err(e);
            },
        };
        let shape_dist_travelled = match opt_decimal_field(header, row, "shape_dist_travelled") {
            Ok(v) => v,
            Err(e) => {
                return Err(e);
            },
        };
        let timepoint = match opt_enum_field::<TimepointType>(header, row, "timepoint") {
            Ok(v) => v,
            Err(e) => {
                return Err(e);
            },
        };
        Ok(
            StopTime {
                trip_id,
                arrival_time,
                departure_time,
                stop_id,
                stop_sequence,
                stop_headsign,
                pickup_type,
                drop_off_type,
                continuous_pickup,
                contiuous_drop_off,
                shape_dist_travelled,
                timepoint,
            },
        )
    }
}

impl StopTime {
    /// Decode the whole stop-time table. This table is known, in at least
    /// one real feed, to carry rows short of the header's field count; such
    /// rows are repaired by appending empty trailing fields. Any other
    /// malformation fails the read.
    pub fn from_gtfs_file(file: &GtfsFile) -> (r: Result<Vec<StopTime>, GtfsError>)
        ensures
            r is Ok <==> table_decodes_lenient::<StopTime>(*file),
            r matches Ok(v) ==> table_lenient_matches::<StopTime>(
                spec_rows(file.text_of(StopTime::spec_file())->0),
                v.view(),
            ),
            r matches Err(e) ==> (e == GtfsError::MissingFile <==> file.text_of(
                StopTime::spec_file(),
            ) is None),
            r matches Err(e) ==> e == GtfsError::MissingFile || e == GtfsError::Decode,
    {
        file.read_vec_repaired::<StopTime>()
    }
}

// ---------------------------------------------------------------------------
// Calendar and calendar exceptions.
// ---------------------------------------------------------------------------

#[derive(Debug, Clone, PartialEq)]
pub struct Calendar {
    pub service_id: String,
    pub monday: bool,
    pub tuesday: bool,
    pub wednesday: bool,
    pub thursday: bool,
    pub friday: bool,
    pub saturday: bool,
    pub sunday: bool,
    pub start_date: GtfsDate,
    pub end_date: GtfsDate,
}

impl GtfsObject for Calendar {
    open spec fn spec_file() -> Seq<char> {
        "calendar.txt"@
    }

    open spec fn spec_required() -> bool {
        false
    }

    open spec fn row_ok(h: Seq<Seq<char>>, row: Seq<Seq<char>>) -> bool {
        &&& cell(h, row, "service_id"@) is Some
        &&& req_bool_ok(h, row, "monday"@)
        &&& req_bool_ok(h, row, "tuesday"@)
        &&& req_bool_ok(h, row, "wednesday"@)
        &&& req_bool_ok(h, row, "thursday"@)
        &&& req_bool_ok(h, row, "friday"@)
        &&& req_bool_ok(h, row, "saturday"@)
        &&& req_bool_ok(h, row, "sunday"@)
        &&& req_date_ok(h, row, "start_date"@)
        &&& req_date_ok(h, row, "end_date"@)
    }

    open spec fn row_matches(h: Seq<Seq<char>>, row: Seq<Seq<char>>, v: Calendar) -> bool {
        &&& Some(v.service_id@) == cell(h, row, "service_id"@)
        &&& v.monday == req_bool_val(h, row, "monday"@)
        &&& v.tuesday == req_bool_val(h, row, "tuesday"@)
        &&& v.wednesday == req_bool_val(h, row, "wednesday"@)
        &&& v.thursday == req_bool_val(h, row, "thursday"@)
        &&& v.friday == req_bool_val(h, row, "friday"@)
        &&& v.saturday == req_bool_val(h, row, "saturday"@)
        &&& v.sunday == req_bool_val(h, row, "sunday"@)
        &&& v.start_date == req_date_val(h, row, "start_date"@)
        &&& v.end_date == req_date_val(h, row, "end_date"@)
    }

    fn file_name() -> (s: String) {
        String::from_str("calendar.txt")
    }

    fn from_row(header: &Vec<String>, row: &Vec<String>) -> (res: Result<Calendar, GtfsError>) {
        let service_id = match req_string(header, row, "service_id") {
            Ok(v) => v,
            Err(e) => {
                return Err(e);
            },
        };
        let monday = match req_bool_field(header, row, "monday") {
            Ok(v) => v,
            Err(e) => {
                return Err(e);
            },
        };
        let tuesday = match req_bool_field(header, row, "tuesday") {
            Ok(v) => v,
            Err(e) => {
                return Err(e);
            },
        };
        let wednesday = match req_bool_field(header, row, "wednesday") {
            Ok(v) => v,
            Err(e) => {
                return Err(e);
            },
        };
        let thursday = match req_bool_field(header, row, "thursday") {
            Ok(v) => v,
            Err(e) => {
                return Err(e);
            },
        };
        let friday = match req_bool_field(header, row, "friday") {
            Ok(v) => v,
            Err(e) => {
                return Err(e);
            },
        };
        let saturday = match req_bool_field(header, row, "saturday") {
            Ok(v) => v,
            Err(e) => {
                return Err(e);
            },
        };
        let sunday = match req_bool_field(header, row, "sunday") {
            Ok(v) => v,
            Err(e) => {
                return Err(e);
            },
        };
        let start_date = match req_date_field(header, row, "start_date") {
            Ok(v) => v,
            Err(e) => {
                return Err(e);
            },
        };
        let end_date = match req_date_field(header, row, "end_date") {
            Ok(v) => v,
            Err(e) => {
                return Err(e);
            },
        };
        Ok(
            Calendar {
                service_id,
                monday,
                tuesday,
                wednesday,
                thursday,
                friday,
                saturday,
                sunday,
                start_date,
                end_date,
            },
        )
    }
}

impl Calendar {
    /// Decode the whole weekday-calendar table from the archive session.
    pub fn from_gtfs_file(file: &GtfsFile) -> (r: Result<Vec<Calendar>, GtfsError>)
        ensures
            r is Ok <==> table_decodes::<Calendar>(*file),
            r matches Ok(v) ==> table_matches::<Calendar>(
                spec_rows(file.text_of(Calendar::spec_file())->0),
                v.view(),
            ),
            r matches Err(e) ==> (e == GtfsError::MissingFile <==> file.text_of(
                Calendar::spec_file(),
            ) is None),
            r matches Err(e) ==> e == GtfsError::MissingFile || e == GtfsError::Decode,
    {
        file.read_vec::<Calendar>()
    }
}

#[derive(Debug, Clone, PartialEq)]
pub struct CalendarDate {
    pub service_id: String,
    pub date: GtfsDate,
    pub exception_type: CalendarException,
}

impl GtfsObject for CalendarDate {
    open spec fn spec_file() -> Seq<char> {
        "calendar_dates.txt"@
    }

    open spec fn spec_required() -> bool {
        false
    }

    open spec fn row_ok(h: Seq<Seq<char>>, row: Seq<Seq<char>>) -> bool {
        &&& cell(h, row, "service_id"@) is Some
        &&& req_date_ok(h, row, "date"@)
        &&& req_enum_ok::<CalendarException>(h, row, "exception_type"@)
    }

    open spec fn row_matches(h: Seq<Seq<char>>, row: Seq<Seq<char>>, v: CalendarDate) -> bool {
        &&& Some(v.service_id@) == cell(h, row, "service_id"@)
        &&& v.date == req_date_val(h, row, "date"@)
        &&& Some(v.exception_type) == req_enum_val::<CalendarException>(h, row, "exception_type"@)
    }

    fn file_name() -> (s: String) {
        String::from_str("calendar_dates.txt")
    }

    fn from_row(header: &Vec<String>, row: &Vec<String>) -> (res: Result<CalendarDate, GtfsError>) {
        let service_id = match req_string(header, row, "service_id") {
            Ok(v) => v,
            Err(e) => {
                return Err(e);
            },
        };
        let date = match req_date_field(header, row, "date") {
            Ok(v) => v,
            Err(e) => {
                return Err(e);
            },
        };
        let exception_type = match req_enum_field::<CalendarException>(
            header,
            row,
            "exception_type",
        ) {
            Ok(v) => v,
            Err(e) => {
                return Err(e);
            },
        };
        Ok(CalendarDate { service_id, date, exception_type })
    }
}

impl CalendarDate {
    /// Decode the whole calendar-exception table from the archive session.
    pub fn from_gtfs_file(file: &GtfsFile) -> (r: Result<Vec<CalendarDate>, GtfsError>)
        ensures
            r is Ok <==> table_decodes::<CalendarDate>(*file),
            r matches Ok(v) ==> table_matches::<CalendarDate>(
                spec_rows(file.text_of(CalendarDate::spec_file())->0),
                v.view(),
            ),
            r matches Err(e) ==> (e == GtfsError::MissingFile <==> file.text_of(
                CalendarDate::spec_file(),
            ) is None),
            r matches Err(e) ==> e == GtfsError::MissingFile || e == GtfsError::Decode,
    {
        file.read_vec::<CalendarDate>()
    }
}

// ---------------------------------------------------------------------------
// Text-level short-row repair.
// ---------------------------------------------------------------------------

/// A line brought up to the expected field count by appending commas; a
/// line already at or above that count is left unchanged.
pub open spec fn spec_pad_line(l: Seq<char>, expected: int) -> Seq<char> {
    let cnt = crate::text::split_on(l, ',').len();
    if cnt < expected {
        l + Seq::new((expected - cnt) as nat, |i: int| ',')
    } else {
        l
    }
}

pub open spec fn spec_pad_lines(ls: Seq<Seq<char>>, expected: int) -> Seq<Seq<char>>
    decreases ls.len(),
{
    if ls.len() == 0 {
        Seq::<Seq<char>>::empty()
    } else {
        spec_pad_lines(ls.drop_last(), expected).push(spec_pad_line(ls.last(), expected))
    }
}

pub open spec fn spec_join_lines(ls: Seq<Seq<char>>) -> Seq<char>
    decreases ls.len(),
{
    if ls.len() == 0 {
        Seq::<char>::empty()
    } else if ls.len() == 1 {
        ls[0]
    } else {
        spec_join_lines(ls.drop_last()) + seq!['\n'] + ls.last()
    }
}

/// Rewrite delimited text so that every line short of the expected field
/// count is padded with trailing commas; lines are rejoined with newlines.
pub fn csv_add_commas(csv_string: String, expected_len: u64) -> (r: String)
    ensures
        r@ == spec_join_lines(spec_pad_lines(spec_lines(csv_string@), expected_len as int)),
{
    let lines = crate::text::text_lines(csv_string.as_str());
    let ghost ls = lines.deep_view();
    let mut out = String::new();
    let mut i: usize = 0;
    proof {
        assert(ls.take(0) =~= Seq::<Seq<char>>::empty());
        reveal_strlit(",");
        reveal_strlit("\n");
    }
    while i < lines.len()
        invariant
            i <= lines.len(),
            ls == lines.deep_view(),
            ls.len() == lines@.len(),
            ","@ =~= seq![','],
            "\n"@ =~= seq!['\n'],
            out@ == spec_join_lines(spec_pad_lines(ls.take(i as int), expected_len as int)),
        decreases lines@.len() - i,
    {
        proof {
            assert(ls[i as int] == lines@[i as int]@);
        }
        let line = &lines[i];
        let parts = crate::text::split_str(line.as_str(), ',');
        let cnt: usize = parts.len();
        proof {
            assert(parts.deep_view().len() == crate::text::split_on(ls[i as int], ',').len());
        }
        let mut nl = line.clone();
        if (cnt as u64) < expected_len {
            let missing: u64 = expected_len - (cnt as u64);
            let mut k: u64 = 0;
            while k < missing
                invariant
                    k <= missing,
                    ","@ =~= seq![','],
                    nl@ =~= lines@[i as int]@ + Seq::new(k as nat, |j: int| ','),
                decreases missing - k,
            {
                nl.append(",");
                proof {
                    assert(nl@ =~= lines@[i as int]@ + Seq::new((k + 1) as nat, |j: int| ','));
                }
                k = k + 1;
            }
            proof {
                assert(nl@ =~= spec_pad_line(ls[i as int], expected_len as int));
            }
        } else {
            proof {
                assert(nl@ =~= spec_pad_line(ls[i as int], expected_len as int));
            }
        }
        let ghost pre = out@;
        if i > 0 {
            out.append("\n");
        }
        out.append(nl.as_str());
        proof {
            let padded = spec_pad_lines(ls.take(i + 1), expected_len as int);
            assert(ls.take(i + 1).drop_last() =~= ls.take(i as int));
            assert(padded == spec_pad_lines(ls.take(i as int), expected_len as int).push(
                spec_pad_line(ls[i as int], expected_len as int),
            ));
            if i == 0 {
                assert(spec_pad_lines(ls.take(0), expected_len as int) =~= Seq::<Seq<char>>::empty());
                assert(pre =~= Seq::<char>::empty());
                assert(out@ =~= spec_join_lines(padded));
            } else {
                assert(padded.drop_last() == spec_pad_lines(ls.take(i as int), expected_len as int));
                assert(padded.len() >= 2);
                assert(out@ =~= spec_join_lines(padded));
            }
        }
        i = i + 1;
    }
    proof {
        assert(ls.take(ls.len() as int) =~= ls);
    }
    out
}

// ---------------------------------------------------------------------------
// Record keys and owned copies.
// ---------------------------------------------------------------------------

/// The identifier a route record is keyed by.
pub open spec fn route_key() -> spec_fn(Route) -> Seq<char> {
    |t: Route| t.route_id@
}

/// The identifier a trip record is keyed by.
pub open spec fn trip_key() -> spec_fn(Trip) -> Seq<char> {
    |t: Trip| t.trip_id@
}

/// The identifier a stop record is keyed by.
pub open spec fn stop_key() -> spec_fn(Stop) -> Seq<char> {
    |s: Stop| s.stop_id@
}

fn copy_opt_string(o: &Option<String>) -> (r: Option<String>)
    ensures
        r == *o,
{
    match o {
        Some(s) => Some(s.clone()),
        None => None,
    }
}

impl Stop {
    /// An owned copy, equal to this record.
    pub fn duplicate(&self) -> (r: Stop)
        ensures
            r == *self,
    {
        Stop {
            stop_id: self.stop_id.clone(),
            stop_code: copy_opt_string(&self.stop_code),
            stop_name: copy_opt_string(&self.stop_name),
            tts_stop_name: copy_opt_string(&self.tts_stop_name),
            stop_desc: copy_opt_string(&self.stop_desc),
            stop_lat: self.stop_lat,
            stop_lon: self.stop_lon,
            zone_id: copy_opt_string(&self.zone_id),
            stop_url: copy_opt_string(&self.stop_url),
            location_type: self.location_type,
            parent_station: copy_opt_string(&self.parent_station),
            stop_timezone: copy_opt_string(&self.stop_timezone),
            wheelchair_boarding: self.wheelchair_boarding,
            level_id: copy_opt_string(&self.level_id),
            platform_code: copy_opt_string(&self.platform_code),
        }
    }
}

impl Route {
    /// An owned copy, equal to this record.
    pub fn duplicate(&self) -> (r: Route)
        ensures
            r == *self,
    {
        Route {
            route_id: self.route_id.clone(),
            agency_id: copy_opt_string(&self.agency_id),
            route_short_name: copy_opt_string(&self.route_short_name),
            route_long_name: copy_opt_string(&self.route_long_name),
            route_desc: copy_opt_string(&self.route_desc),
            route_type: self.route_type,
            route_url: copy_opt_string(&self.route_url),
            route_color: copy_opt_string(&self.route_color),
            route_text_color: copy_opt_string(&self.route_text_color),
            route_sort_order: self.route_sort_order,
            continuous_pickup: self.continuous_pickup,
            continuous_drop_off: self.continuous_drop_off,
            network_id: copy_opt_string(&self.network_id),
        }
    }
}

impl Trip {
    /// An owned copy, equal to this record.
    pub fn duplicate(&self) -> (r: Trip)
        ensures
            r == *self,
    {
        Trip {
            route_id: self.route_id.clone(),
            service_id: self.service_id.clone(),
            trip_id: self.trip_id.clone(),
            trip_headsign: copy_opt_string(&self.trip_headsign),
            trip_short_name: copy_opt_string(&self.trip_short_name),
            direction_id: self.direction_id,
            block_id: copy_opt_string(&self.block_id),
            shape_id: copy_opt_string(&self.shape_id),
            wheelchair_accessible: self.wheelchair_accessible,
            bikes_allowed: self.bikes_allowed,
        }
    }
}

impl StopTime {
    /// An owned copy, equal to this record.
    pub fn duplicate(&self) -> (r: StopTime)
        ensures
            r == *self,
    {
        StopTime {
            trip_id: copy_opt_string(&self.trip_id),
            arrival_time: self.arrival_time,
            departure_time: self.departure_time,
            stop_id: copy_opt_string(&self.stop_id),
            stop_sequence: self.stop_sequence,
            stop_headsign: copy_opt_string(&self.stop_headsign),
            pickup_type: self.pickup_type,
            drop_off_type: self.drop_off_type,
            continuous_pickup: self.continuous_pickup,
            contiuous_drop_off: self.contiuous_drop_off,
            shape_dist_travelled: self.shape_dist_travelled,
            timepoint: self.timepoint,
        }
    }
}

// ---------------------------------------------------------------------------
// What the repair policy guarantees.
// ---------------------------------------------------------------------------

/// A stop-time table whose data rows are at most as wide as its header,
/// each decoding once padded to the header's width, is read successfully
/// by the repairing decoder — and it yields exactly one record per data
/// row.
pub proof fn lemma_short_rows_repaired(file: GtfsFile, v: Seq<StopTime>)
    requires
        file.text_of(StopTime::spec_file()) is Some,
        ({
            let rows = spec_rows(file.text_of(StopTime::spec_file())->0);
            forall|i: int|
                1 <= i < rows.len() ==> (#[trigger] rows[i]).len() <= rows[0].len()
                    && StopTime::row_ok(
                    rows[0],
                    crate::table::pad_row(rows[i], rows[0].len() as int),
                )
        }),
    ensures
        crate::table::table_decodes_lenient::<StopTime>(file),
        crate::table::table_lenient_matches::<StopTime>(
            spec_rows(file.text_of(StopTime::spec_file())->0),
            v,
        ) ==> v.len() == (if spec_rows(file.text_of(StopTime::spec_file())->0).len() == 0 {
            0int
        } else {
            spec_rows(file.text_of(StopTime::spec_file())->0).len() - 1
        }),
{
}

/// A data row wider than the header is a structurally different
/// malformation: even the repairing decoder fails the whole read.
pub proof fn lemma_long_row_fatal(file: GtfsFile, i: int)
    requires
        file.text_of(StopTime::spec_file()) is Some,
        ({
            let rows = spec_rows(file.text_of(StopTime::spec_file())->0);
            1 <= i < rows.len() && rows[i].len() > rows[0].len()
        }),
    ensures
        !crate::table::table_decodes_lenient::<StopTime>(file),
        !crate::table::table_decodes::<StopTime>(file),
{
    let rows = spec_rows(file.text_of(StopTime::spec_file())->0);
    assert(!((#[trigger] rows[i]).len() <= rows[0].len()));
    assert(rows[i].len() != rows[0].len());
}

} // verus!
