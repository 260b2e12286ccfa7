//! The record model of the optional tables: fares, areas, networks,
//! shapes, frequencies, transfers, pathways, levels, location groups,
//! booking rules, translations, feed metadata and attributions. Each
//! follows the same pattern: a fixed schema, a canonical member name, and
//! a row decoder; none is required for the archive to be valid.
use vstd::prelude::*;

verus! {

use vstd::string::StringExecFns;
use crate::archive::GtfsError;
use crate::codec::DecimalValue;
use crate::codec::GtfsDate;
use crate::codec::Time;
use crate::fields::CodeEnum;
use crate::fields::cell;
use crate::fields::opt_bool_field;
use crate::fields::opt_bool_ok;
use crate::fields::opt_bool_val;
use crate::fields::opt_cell;
use crate::fields::opt_date_field;
use crate::fields::opt_date_ok;
use crate::fields::opt_date_val;
use crate::fields::opt_decimal_field;
use crate::fields::opt_decimal_ok;
use crate::fields::opt_decimal_val;
use crate::fields::opt_enum_field;
use crate::fields::opt_enum_ok;
use crate::fields::opt_enum_val;
use crate::fields::opt_i64_field;
use crate::fields::opt_i64_ok;
use crate::fields::opt_i64_val;
use crate::fields::opt_string;
use crate::fields::opt_time_field;
use crate::fields::opt_time_ok;
use crate::fields::opt_time_val;
use crate::fields::opt_u64_field;
use crate::fields::opt_u64_ok;
use crate::fields::opt_u64_val;
use crate::fields::req_bool_field;
use crate::fields::req_bool_ok;
use crate::fields::req_bool_val;
use crate::fields::req_decimal_field;
use crate::fields::req_decimal_ok;
use crate::fields::req_decimal_val;
use crate::fields::req_enum_field;
use crate::fields::req_enum_ok;
use crate::fields::req_enum_val;
use crate::fields::req_string;
use crate::fields::req_time_field;
use crate::fields::req_time_ok;
use crate::fields::req_time_val;
use crate::fields::req_u64_field;
use crate::fields::req_u64_ok;
use crate::fields::req_u64_val;
use crate::table::GtfsObject;

/// When a fare is paid. Real feeds emit a zero code the format gives no
/// meaning; it is modeled as an explicit variant and preserved faithfully.
#[derive(Debug, Clone, Copy, PartialEq, Eq, Structural)]
pub enum PaymentMethod {
    MeaninglessZero,
    OnBoard,
    BeforeBoarding,
}

impl CodeEnum for PaymentMethod {
    open spec fn of_code(code: nat) -> Option<PaymentMethod> {
        if code == 0 {
            Some(PaymentMethod::MeaninglessZero)
        } else if code == 1 {
            Some(PaymentMethod::OnBoard)
        } else if code == 2 {
            Some(PaymentMethod::BeforeBoarding)
        } else {
            None
        }
    }

    fn from_code(code: u64) -> (r: Option<PaymentMethod>) {
        match code {
            0 => Some(PaymentMethod::MeaninglessZero),
            1 => Some(PaymentMethod::OnBoard),
            2 => Some(PaymentMethod::BeforeBoarding),
            _ => None,
        }
    }
}

/// How many transfers a fare permits. A fare row with no value here
/// means unlimited transfers, not none.
#[derive(Debug, Clone, Copy, PartialEq, Eq, Structural)]
pub enum TransferCount {
    NoTransfers,
    One,
    Two,
}

impl CodeEnum for TransferCount {
    open spec fn of_code(code: nat) -> Option<TransferCount> {
        if code == 0 {
            Some(TransferCount::NoTransfers)
        } else if code == 1 {
            Some(TransferCount::One)
        } else if code == 2 {
            Some(TransferCount::Two)
        } else {
            None
        }
    }

    fn from_code(code: u64) -> (r: Option<TransferCount>) {
        match code {
            0 => Some(TransferCount::NoTransfers),
            1 => Some(TransferCount::One),
            2 => Some(TransferCount::Two),
            _ => None,
        }
    }
}

#[derive(Debug, Clone, Copy, PartialEq, Eq, Structural)]
pub enum FareMediaType {
    NoMedium,
    Paper,
    Card,
    Cemv,
    App,
}

impl CodeEnum for FareMediaType {
    open spec fn of_code(code: nat) -> Option<FareMediaType> {
        if code == 0 {
            Some(FareMediaType::NoMedium)
        } else if code == 1 {
            Some(FareMediaType::Paper)
        } else if code == 2 {
            Some(FareMediaType::Card)
        } else if code == 3 {
            Some(FareMediaType::Cemv)
        } else if code == 4 {
            Some(FareMediaType::App)
        } else {
            None
        }
    }

    fn from_code(code: u64) -> (r: Option<FareMediaType>) {
        match code {
            0 => Some(FareMediaType::NoMedium),
            1 => Some(FareMediaType::Paper),
            2 => Some(FareMediaType::Card),
            3 => Some(FareMediaType::Cemv),
            4 => Some(FareMediaType::App),
            _ => None,
        }
    }
}

#[derive(Debug, Clone, Copy, PartialEq, Eq, Structural)]
pub enum DurationLimitType {
    DepartureAndArrival,
    DepartureAndDeparture,
    ArrivalAndDeparture,
    ArrivalAndArrival,
}

impl CodeEnum for DurationLimitType {
    open spec fn of_code(code: nat) -> Option<DurationLimitType> {
        if code == 0 {
            Some(DurationLimitType::DepartureAndArrival)
        } else if code == 1 {
            Some(DurationLimitType::DepartureAndDeparture)
        } else if code == 2 {
            Some(DurationLimitType::ArrivalAndDeparture)
        } else if code == 3 {
            Some(DurationLimitType::ArrivalAndArrival)
        } else {
            None
        }
    }

    fn from_code(code: u64) -> (r: Option<DurationLimitType>) {
        match code {
            0 => Some(DurationLimitType::DepartureAndArrival),
            1 => Some(DurationLimitType::DepartureAndDeparture),
            2 => Some(DurationLimitType::ArrivalAndDeparture),
            3 => Some(DurationLimitType::ArrivalAndArrival),
            _ => None,
        }
    }
}

#[derive(Debug, Clone, Copy, PartialEq, Eq, Structural)]
pub enum FareTransferType {
    AAB,
    AABB,
    AB,
}

impl CodeEnum for FareTransferType {
    open spec fn of_code(code: nat) -> Option<FareTransferType> {
        if code == 0 {
            Some(FareTransferType::AAB)
        } else if code == 1 {
            Some(FareTransferType::AABB)
        } else if code == 2 {
            Some(FareTransferType::AB)
        } else {
            None
        }
    }

    fn from_code(code: u64) -> (r: Option<FareTransferType>) {
        match code {
            0 => Some(FareTransferType::AAB),
            1 => Some(FareTransferType::AABB),
            2 => Some(FareTransferType::AB),
            _ => None,
        }
    }
}

#[derive(Debug, Clone, Copy, PartialEq, Eq, Structural)]
pub enum TransferType {
    Recommended,
    Timed,
    MinTime,
    NotPossible,
    InSeat,
    Reboard,
}

impl CodeEnum for TransferType {
    open spec fn of_code(code: nat) -> Option<TransferType> {
        if code == 0 {
            Some(TransferType::Recommended)
        } else if code == 1 {
            Some(TransferType::Timed)
        } else if code == 2 {
            Some(TransferType::MinTime)
        } else if code == 3 {
            Some(TransferType::NotPossible)
        } else if code == 4 {
            Some(TransferType::InSeat)
        } else if code == 5 {
            Some(TransferType::Reboard)
        } else {
            None
        }
    }

    fn from_code(code: u64) -> (r: Option<TransferType>) {
        match code {
            0 => Some(TransferType::Recommended),
            1 => Some(TransferType::Timed),
            2 => Some(TransferType::MinTime),
            3 => Some(TransferType::NotPossible),
            4 => Some(TransferType::InSeat),
            5 => Some(TransferType::Reboard),
            _ => None,
        }
    }
}

#[derive(Debug, Clone, Copy, PartialEq, Eq, Structural)]
pub enum PathwayMode {
    Walkway,
    Stairs,
    MovingSidewalk,
    Escalator,
    Elevator,
    FareGate,
    ExitGate,
}

impl CodeEnum for PathwayMode {
    open spec fn of_code(code: nat) -> Option<PathwayMode> {
        if code == 1 {
            Some(PathwayMode::Walkway)
        } else if code == 2 {
            Some(PathwayMode::Stairs)
        } else if code == 3 {
            Some(PathwayMode::MovingSidewalk)
        } else if code == 4 {
            Some(PathwayMode::Escalator)
        } else if code == 5 {
            Some(PathwayMode::Elevator)
        } else if code == 6 {
            Some(PathwayMode::FareGate)
        } else if code == 7 {
            Some(PathwayMode::ExitGate)
        } else {
            None
        }
    }

    fn from_code(code: u64) -> (r: Option<PathwayMode>) {
        match code {
            1 => Some(PathwayMode::Walkway),
            2 => Some(PathwayMode::Stairs),
            3 => Some(PathwayMode::MovingSidewalk),
            4 => Some(PathwayMode::Escalator),
            5 => Some(PathwayMode::Elevator),
            6 => Some(PathwayMode::FareGate),
            7 => Some(PathwayMode::ExitGate),
            _ => None,
        }
    }
}

#[derive(Debug, Clone, Copy, PartialEq, Eq, Structural)]
pub enum BookingType {
    RealTime,
    SameDay,
    PriorDay,
}

impl CodeEnum for BookingType {
    open spec fn of_code(code: nat) -> Option<BookingType> {
        if code == 0 {
            Some(BookingType::RealTime)
        } else if code == 1 {
            Some(BookingType::SameDay)
        } else if code == 2 {
            Some(BookingType::PriorDay)
        } else {
            None
        }
    }

    fn from_code(code: u64) -> (r: Option<BookingType>) {
        match code {
            0 => Some(BookingType::RealTime),
            1 => Some(BookingType::SameDay),
            2 => Some(BookingType::PriorDay),
            _ => None,
        }
    }
}

#[derive(Debug, Clone, PartialEq)]
pub struct FareAttributes {
    pub fare_id: String,
    pub price: DecimalValue,
    pub currency_type: String,
    pub payment_method: PaymentMethod,
    pub transfers: Option<TransferCount>,
    pub agency_id: Option<String>,
    pub transfer_duration: Option<u64>,
}

impl GtfsObject for FareAttributes {
    open spec fn spec_file() -> Seq<char> {
        "fare_attributes.txt"@
    }

    open spec fn spec_required() -> bool {
        false
    }

    open spec fn row_ok(h: Seq<Seq<char>>, row: Seq<Seq<char>>) -> bool {
        &&& cell(h, row, "fare_id"@) is Some
        &&& req_decimal_ok(h, row, "price"@)
        &&& cell(h, row, "currency_type"@) is Some
        &&& req_enum_ok::<PaymentMethod>(h, row, "payment_method"@)
        &&& opt_enum_ok::<TransferCount>(h, row, "transfers"@)
        &&& opt_u64_ok(h, row, "transfer_duration"@)
    }

    open spec fn row_matches(h: Seq<Seq<char>>, row: Seq<Seq<char>>, v: FareAttributes) -> bool {
        &&& Some(v.fare_id@) == cell(h, row, "fare_id"@)
        &&& v.price == req_decimal_val(h, row, "price"@)
        &&& Some(v.currency_type@) == cell(h, row, "currency_type"@)
        &&& Some(v.payment_method) == req_enum_val::<PaymentMethod>(h, row, "payment_method"@)
        &&& v.transfers == opt_enum_val::<TransferCount>(h, row, "transfers"@)
        &&& v.agency_id.deep_view() == opt_cell(h, row, "agency_id"@)
        &&& v.transfer_duration == opt_u64_val(h, row, "transfer_duration"@)
    }

    fn file_name() -> (s: String) {
        String::from_str("fare_attributes.txt")
    }

    fn from_row(header: &Vec<String>, row: &Vec<String>) -> (res: Result<FareAttributes, GtfsError>) {
        let fare_id = match req_string(header, row, "fare_id") {
            Ok(v) => v,
            Err(e) => {
                return Err(e);
            },
        };
        let price = match req_decimal_field(header, row, "price") {
            Ok(v) => v,
            Err(e) => {
                return Err(e);
            },
        };
        let currency_type = match req_string(header, row, "currency_type") {
            Ok(v) => v,
            Err(e) => {
                return Err(e);
            },
        };
        let payment_method = match req_enum_field::<PaymentMethod>(header, row, "payment_method") {
            Ok(v) => v,
            Err(e) => {
                return Err(e);
            },
        };
        let transfers = match opt_enum_field::<TransferCount>(header, row, "transfers") {
            Ok(v) => v,
            Err(e) => {
                return Err(e);
            },
        };
        let agency_id = opt_string(header, row, "agency_id");
        let transfer_duration = match opt_u64_field(header, row, "transfer_duration") {
            Ok(v) => v,
            Err(e) => {
                return Err(e);
            },
        };
        Ok(
            FareAttributes {
                fare_id,
                price,
                currency_type,
                payment_method,
                transfers,
                agency_id,
                transfer_duration,
            },
        )
    }
}

#[derive(Debug, Clone, PartialEq)]
pub struct FareRule {
    pub fare_id: String,
    pub route_id: Option<String>,
    pub origin_id: Option<String>,
    pub destination_id: Option<String>,
    pub contains_id: Option<String>,
}

impl GtfsObject for FareRule {
    open spec fn spec_file() -> Seq<char> {
        "fare_rules.txt"@
    }

    open spec fn spec_required() -> bool {
        false
    }

    open spec fn row_ok(h: Seq<Seq<char>>, row: Seq<Seq<char>>) -> bool {
        cell(h, row, "fare_id"@) is Some
    }

    open spec fn row_matches(h: Seq<Seq<char>>, row: Seq<Seq<char>>, v: FareRule) -> bool {
        &&& Some(v.fare_id@) == cell(h, row, "fare_id"@)
        &&& v.route_id.deep_view() == opt_cell(h, row, "route_id"@)
        &&& v.origin_id.deep_view() == opt_cell(h, row, "origin_id"@)
        &&& v.destination_id.deep_view() == opt_cell(h, row, "destination_id"@)
        &&& v.contains_id.deep_view() == opt_cell(h, row, "contains_id"@)
    }

    fn file_name() -> (s: String) {
        String::from_str("fare_rules.txt")
    }

    fn from_row(header: &Vec<String>, row: &Vec<String>) -> (res: Result<FareRule, GtfsError>) {
        let fare_id = match req_string(header, row, "fare_id") {
            Ok(v) => v,
            Err(e) => {
                return Err(e);
            },
        };
        let route_id = opt_string(header, row, "route_id");
        let origin_id = opt_string(header, row, "origin_id");
        let destination_id = opt_string(header, row, "destination_id");
        let contains_id = opt_string(header, row, "contains_id");
        Ok(
            FareRule {
                fare_id,
                route_id,
                origin_id,
                destination_id,
                contains_id,
            },
        )
    }
}

#[derive(Debug, Clone, PartialEq)]
pub struct Timeframe {
    pub timeframe_group_id: String,
    pub start_time: Option<Time>,
    pub end_time: Option<Time>,
    pub service_id: String,
}

impl GtfsObject for Timeframe {
    open spec fn spec_file() -> Seq<char> {
        "timeframes.txt"@
    }

    open spec fn spec_required() -> bool {
        false
    }

    open spec fn row_ok(h: Seq<Seq<char>>, row: Seq<Seq<char>>) -> bool {
        &&& cell(h, row, "timeframe_group_id"@) is Some
        &&& opt_time_ok(h, row, "start_time"@)
        &&& opt_time_ok(h, row, "end_time"@)
        &&& cell(h, row, "service_id"@) is Some
    }

    open spec fn row_matches(h: Seq<Seq<char>>, row: Seq<Seq<char>>, v: Timeframe) -> bool {
        &&& Some(v.timeframe_group_id@) == cell(h, row, "timeframe_group_id"@)
        &&& v.start_time == opt_time_val(h, row, "start_time"@)
        &&& v.end_time == opt_time_val(h, row, "end_time"@)
        &&& Some(v.service_id@) == cell(h, row, "service_id"@)
    }

    fn file_name() -> (s: String) {
        String::from_str("timeframes.txt")
    }

    fn from_row(header: &Vec<String>, row: &Vec<String>) -> (res: Result<Timeframe, GtfsError>) {
        let timeframe_group_id = match req_string(header, row, "timeframe_group_id") {
            Ok(v) => v,
            Err(e) => {
                return Err(e);
            },
        };
        let start_time = match opt_time_field(header, row, "start_time") {
            Ok(v) => v,
            Err(e) => {
                return Err(e);
            },
        };
        let end_time = match opt_time_field(header, row, "end_time") {
            Ok(v) => v,
            Err(e) => {
                return Err(e);
            },
        };
        let service_id = match req_string(header, row, "service_id") {
            Ok(v) => v,
            Err(e) => {
                return Err(e);
            },
        };
        Ok(
            Timeframe {
                timeframe_group_id,
                start_time,
                end_time,
                service_id,
            },
        )
    }
}

#[derive(Debug, Clone, PartialEq)]
pub struct FareMedium {
    pub fare_media_id: String,
    pub fare_media_name: Option<String>,
    pub fare_media_type: FareMediaType,
}

impl GtfsObject for FareMedium {
    open spec fn spec_file() -> Seq<char> {
        "fare-media.txt"@
    }

    open spec fn spec_required() -> bool {
        false
    }

    open spec fn row_ok(h: Seq<Seq<char>>, row: Seq<Seq<char>>) -> bool {
        &&& cell(h, row, "fare_media_id"@) is Some
        &&& req_enum_ok::<FareMediaType>(h, row, "fare_media_type"@)
    }

    open spec fn row_matches(h: Seq<Seq<char>>, row: Seq<Seq<char>>, v: FareMedium) -> bool {
        &&& Some(v.fare_media_id@) == cell(h, row, "fare_media_id"@)
        &&& v.fare_media_name.deep_view() == opt_cell(h, row, "fare_media_name"@)
        &&& Some(v.fare_media_type) == req_enum_val::<FareMediaType>(h, row, "fare_media_type"@)
    }

    fn file_name() -> (s: String) {
        String::from_str("fare-media.txt")
    }

    fn from_row(header: &Vec<String>, row: &Vec<String>) -> (res: Result<FareMedium, GtfsError>) {
        let fare_media_id = match req_string(header, row, "fare_media_id") {
            Ok(v) => v,
            Err(e) => {
                return Err(e);
            },
        };
        let fare_media_name = opt_string(header, row, "fare_media_name");
        let fare_media_type = match req_enum_field::<FareMediaType>(header, row, "fare_media_type") {
            Ok(v) => v,
            Err(e) => {
                return Err(e);
            },
        };
        Ok(
            FareMedium {
                fare_media_id,
                fare_media_name,
                fare_media_type,
            },
        )
    }
}

#[derive(Debug, Clone, PartialEq)]
pub struct FareProduct {
    pub fare_product_id: String,
    pub fare_product_name: Option<String>,
    pub fare_media_id: Option<String>,
    pub amount: DecimalValue,
    pub currency: String,
}

impl GtfsObject for FareProduct {
    open spec fn spec_file() -> Seq<char> {
        "fare_products.txt"@
    }

    open spec fn spec_required() -> bool {
        false
    }

    open spec fn row_ok(h: Seq<Seq<char>>, row: Seq<Seq<char>>) -> bool {
        &&& cell(h, row, "fare_product_id"@) is Some
        &&& req_decimal_ok(h, row, "amount"@)
        &&& cell(h, row, "currency"@) is Some
    }

    open spec fn row_matches(h: Seq<Seq<char>>, row: Seq<Seq<char>>, v: FareProduct) -> bool {
        &&& Some(v.fare_product_id@) == cell(h, row, "fare_product_id"@)
        &&& v.fare_product_name.deep_view() == opt_cell(h, row, "fare_product_name"@)
        &&& v.fare_media_id.deep_view() == opt_cell(h, row, "fare_media_id"@)
        &&& v.amount == req_decimal_val(h, row, "amount"@)
        &&& Some(v.currency@) == cell(h, row, "currency"@)
    }

    fn file_name() -> (s: String) {
        String::from_str("fare_products.txt")
    }

    fn from_row(header: &Vec<String>, row: &Vec<String>) -> (res: Result<FareProduct, GtfsError>) {
        let fare_product_id = match req_string(header, row, "fare_product_id") {
            Ok(v) => v,
            Err(e) => {
                return Err(e);
            },
        };
        let fare_product_name = opt_string(header, row, "fare_product_name");
        let fare_media_id = opt_string(header, row, "fare_media_id");
        let amount = match req_decimal_field(header, row, "amount") {
            Ok(v) => v,
            Err(e) => {
                return Err(e);
            },
        };
        let currency = match req_string(header, row, "currency") {
            Ok(v) => v,
            Err(e) => {
                return Err(e);
            },
        };
        Ok(
            FareProduct {
                fare_product_id,
                fare_product_name,
                fare_media_id,
                amount,
                currency,
            },
        )
    }
}

#[derive(Debug, Clone, PartialEq)]
pub struct FareLegRule {
    pub leg_group_id: Option<String>,
    pub network_id: Option<String>,
    pub from_area_id: Option<String>,
    pub to_area_id: Option<String>,
    pub from_timeframe_group_id: Option<String>,
    pub to_timeframe_group_id: Option<String>,
    pub fare_product_id: String,
    pub rule_priority: Option<u64>,
}

impl GtfsObject for FareLegRule {
    open spec fn spec_file() -> Seq<char> {
        "fare_leg_rules.txt"@
    }

    open spec fn spec_required() -> bool {
        false
    }

    open spec fn row_ok(h: Seq<Seq<char>>, row: Seq<Seq<char>>) -> bool {
        &&& cell(h, row, "fare_product_id"@) is Some
        &&& opt_u64_ok(h, row, "rule_priority"@)
    }

    open spec fn row_matches(h: Seq<Seq<char>>, row: Seq<Seq<char>>, v: FareLegRule) -> bool {
        &&& v.leg_group_id.deep_view() == opt_cell(h, row, "leg_group_id"@)
        &&& v.network_id.deep_view() == opt_cell(h, row, "network_id"@)
        &&& v.from_area_id.deep_view() == opt_cell(h, row, "from_area_id"@)
        &&& v.to_area_id.deep_view() == opt_cell(h, row, "to_area_id"@)
        &&& v.from_timeframe_group_id.deep_view() == opt_cell(h, row, "from_timeframe_group_id"@)
        &&& v.to_timeframe_group_id.deep_view() == opt_cell(h, row, "to_timeframe_group_id"@)
        &&& Some(v.fare_product_id@) == cell(h, row, "fare_product_id"@)
        &&& v.rule_priority == opt_u64_val(h, row, "rule_priority"@)
    }

    fn file_name() -> (s: String) {
        String::from_str("fare_leg_rules.txt")
    }

    fn from_row(header: &Vec<String>, row: &Vec<String>) -> (res: Result<FareLegRule, GtfsError>) {
        let leg_group_id = opt_string(header, row, "leg_group_id");
        let network_id = opt_string(header, row, "network_id");
        let from_area_id = opt_string(header, row, "from_area_id");
        let to_area_id = opt_string(header, row, "to_area_id");
        let from_timeframe_group_id = opt_string(header, row, "from_timeframe_group_id");
        let to_timeframe_group_id = opt_string(header, row, "to_timeframe_group_id");
        let fare_product_id = match req_string(header, row, "fare_product_id") {
            Ok(v) => v,
            Err(e) => {
                return Err(e);
            },
        };
        let rule_priority = match opt_u64_field(header, row, "rule_priority") {
            Ok(v) => v,
            Err(e) => {
                return Err(e);
            },
        };
        Ok(
            FareLegRule {
                leg_group_id,
                network_id,
                from_area_id,
                to_area_id,
                from_timeframe_group_id,
                to_timeframe_group_id,
                fare_product_id,
                rule_priority,
            },
        )
    }
}

#[derive(Debug, Clone, PartialEq)]
pub struct FareTransferRule {
    pub from_leg_group_id: Option<String>,
    pub to_leg_group_id: Option<String>,
    pub transfer_count: Option<i64>,
    pub duration_limit: Option<u64>,
    pub duration_limit_type: Option<DurationLimitType>,
    pub fare_transfer_type: FareTransferType,
    pub fare_product_id: Option<String>,
}

impl GtfsObject for FareTransferRule {
    open spec fn spec_file() -> Seq<char> {
        "fare_transfer_rules.txt"@
    }

    open spec fn spec_required() -> bool {
        false
    }

    open spec fn row_ok(h: Seq<Seq<char>>, row: Seq<Seq<char>>) -> bool {
        &&& opt_i64_ok(h, row, "transfer_count"@)
        &&& opt_u64_ok(h, row, "duration_limit"@)
        &&& opt_enum_ok::<DurationLimitType>(h, row, "duration_limit_type"@)
        &&& req_enum_ok::<FareTransferType>(h, row, "fare_transfer_type"@)
    }

    open spec fn row_matches(h: Seq<Seq<char>>, row: Seq<Seq<char>>, v: FareTransferRule) -> bool {
        &&& v.from_leg_group_id.deep_view() == opt_cell(h, row, "from_leg_group_id"@)
        &&& v.to_leg_group_id.deep_view() == opt_cell(h, row, "to_leg_group_id"@)
        &&& v.transfer_count == opt_i64_val(h, row, "transfer_count"@)
        &&& v.duration_limit == opt_u64_val(h, row, "duration_limit"@)
        &&& v.duration_limit_type == opt_enum_val::<DurationLimitType>(h, row, "duration_limit_type"@)
        &&& Some(v.fare_transfer_type) == req_enum_val::<FareTransferType>(h, row, "fare_transfer_type"@)
        &&& v.fare_product_id.deep_view() == opt_cell(h, row, "fare_product_id"@)
    }

    fn file_name() -> (s: String) {
        String::from_str("fare_transfer_rules.txt")
    }

    fn from_row(header: &Vec<String>, row: &Vec<String>) -> (res: Result<FareTransferRule, GtfsError>) {
        let from_leg_group_id = opt_string(header, row, "from_leg_group_id");
        let to_leg_group_id = opt_string(header, row, "to_leg_group_id");
        let transfer_count = match opt_i64_field(header, row, "transfer_count") {
            Ok(v) => v,
            Err(e) => {
                return Err(e);
            },
        };
        let duration_limit = match opt_u64_field(header, row, "duration_limit") {
            Ok(v) => v,
            Err(e) => {
                return Err(e);
            },
        };
        let duration_limit_type = match opt_enum_field::<DurationLimitType>(header, row, "duration_limit_type") {
            Ok(v) => v,
            Err(e) => {
                return Err(e);
            },
        };
        let fare_transfer_type = match req_enum_field::<FareTransferType>(header, row, "fare_transfer_type") {
            Ok(v) => v,
            Err(e) => {
                return Err(e);
            },
        };
        let fare_product_id = opt_string(header, row, "fare_product_id");
        Ok(
            FareTransferRule {
                from_leg_group_id,
                to_leg_group_id,
                transfer_count,
                duration_limit,
                duration_limit_type,
                fare_transfer_type,
                fare_product_id,
            },
        )
    }
}

#[derive(Debug, Clone, PartialEq)]
pub struct Area {
    pub area_id: String,
    pub area_name: Option<String>,
}

impl GtfsObject for Area {
    open spec fn spec_file() -> Seq<char> {
        "areas.txt"@
    }

    open spec fn spec_required() -> bool {
        false
    }

    open spec fn row_ok(h: Seq<Seq<char>>, row: Seq<Seq<char>>) -> bool {
        cell(h, row, "area_id"@) is Some
    }

    open spec fn row_matches(h: Seq<Seq<char>>, row: Seq<Seq<char>>, v: Area) -> bool {
        &&& Some(v.area_id@) == cell(h, row, "area_id"@)
        &&& v.area_name.deep_view() == opt_cell(h, row, "area_name"@)
    }

    fn file_name() -> (s: String) {
        String::from_str("areas.txt")
    }

    fn from_row(header: &Vec<String>, row: &Vec<String>) -> (res: Result<Area, GtfsError>) {
        let area_id = match req_string(header, row, "area_id") {
            Ok(v) => v,
            Err(e) => {
                return Err(e);
            },
        };
        let area_name = opt_string(header, row, "area_name");
        Ok(
            Area {
                area_id,
                area_name,
            },
        )
    }
}

#[derive(Debug, Clone, PartialEq)]
pub struct StopArea {
    pub area_id: String,
    pub stop_id: String,
}

impl GtfsObject for StopArea {
    open spec fn spec_file() -> Seq<char> {
        "stop_areas.txt"@
    }

    open spec fn spec_required() -> bool {
        false
    }

    open spec fn row_ok(h: Seq<Seq<char>>, row: Seq<Seq<char>>) -> bool {
        &&& cell(h, row, "area_id"@) is Some
        &&& cell(h, row, "stop_id"@) is Some
    }

    open spec fn row_matches(h: Seq<Seq<char>>, row: Seq<Seq<char>>, v: StopArea) -> bool {
        &&& Some(v.area_id@) == cell(h, row, "area_id"@)
        &&& Some(v.stop_id@) == cell(h, row, "stop_id"@)
    }

    fn file_name() -> (s: String) {
        String::from_str("stop_areas.txt")
    }

    fn from_row(header: &Vec<String>, row: &Vec<String>) -> (res: Result<StopArea, GtfsError>) {
        let area_id = match req_string(header, row, "area_id") {
            Ok(v) => v,
            Err(e) => {
                return Err(e);
            },
        };
        let stop_id = match req_string(header, row, "stop_id") {
            Ok(v) => v,
            Err(e) => {
                return Err(e);
            },
        };
        Ok(
            StopArea {
                area_id,
                stop_id,
            },
        )
    }
}

#[derive(Debug, Clone, PartialEq)]
pub struct Network {
    pub network_id: String,
    pub network_name: Option<String>,
}

impl GtfsObject for Network {
    open spec fn spec_file() -> Seq<char> {
        "networks.txt"@
    }

    open spec fn spec_required() -> bool {
        false
    }

    open spec fn row_ok(h: Seq<Seq<char>>, row: Seq<Seq<char>>) -> bool {
        cell(h, row, "network_id"@) is Some
    }

    open spec fn row_matches(h: Seq<Seq<char>>, row: Seq<Seq<char>>, v: Network) -> bool {
        &&& Some(v.network_id@) == cell(h, row, "network_id"@)
        &&& v.network_name.deep_view() == opt_cell(h, row, "network_name"@)
    }

    fn file_name() -> (s: String) {
        String::from_str("networks.txt")
    }

    fn from_row(header: &Vec<String>, row: &Vec<String>) -> (res: Result<Network, GtfsError>) {
        let network_id = match req_string(header, row, "network_id") {
            Ok(v) => v,
            Err(e) => {
                return Err(e);
            },
        };
        let network_name = opt_string(header, row, "network_name");
        Ok(
            Network {
                network_id,
                network_name,
            },
        )
    }
}

#[derive(Debug, Clone, PartialEq)]
pub struct RouteNetwork {
    pub network_id: String,
    pub route_id: String,
}

impl GtfsObject for RouteNetwork {
    open spec fn spec_file() -> Seq<char> {
        "route_networks.txt"@
    }

    open spec fn spec_required() -> bool {
        false
    }

    open spec fn row_ok(h: Seq<Seq<char>>, row: Seq<Seq<char>>) -> bool {
        &&& cell(h, row, "network_id"@) is Some
        &&& cell(h, row, "route_id"@) is Some
    }

    open spec fn row_matches(h: Seq<Seq<char>>, row: Seq<Seq<char>>, v: RouteNetwork) -> bool {
        &&& Some(v.network_id@) == cell(h, row, "network_id"@)
        &&& Some(v.route_id@) == cell(h, row, "route_id"@)
    }

    fn file_name() -> (s: String) {
        String::from_str("route_networks.txt")
    }

    fn from_row(header: &Vec<String>, row: &Vec<String>) -> (res: Result<RouteNetwork, GtfsError>) {
        let network_id = match req_string(header, row, "network_id") {
            Ok(v) => v,
            Err(e) => {
                return Err(e);
            },
        };
        let route_id = match req_string(header, row, "route_id") {
            Ok(v) => v,
            Err(e) => {
                return Err(e);
            },
        };
        Ok(
            RouteNetwork {
                network_id,
                route_id,
            },
        )
    }
}

#[derive(Debug, Clone, PartialEq)]
pub struct Shape {
    pub shape_id: String,
    pub shape_pt_lat: DecimalValue,
    pub shape_pt_lon: DecimalValue,
    pub shape_pt_sequence: u64,
    pub shape_dist_travelled: Option<DecimalValue>,
}

impl GtfsObject for Shape {
    open spec fn spec_file() -> Seq<char> {
        "shapes.txt"@
    }

    open spec fn spec_required() -> bool {
        false
    }

    open spec fn row_ok(h: Seq<Seq<char>>, row: Seq<Seq<char>>) -> bool {
        &&& cell(h, row, "shape_id"@) is Some
        &&& req_decimal_ok(h, row, "shape_pt_lat"@)
        &&& req_decimal_ok(h, row, "shape_pt_lon"@)
        &&& req_u64_ok(h, row, "shape_pt_sequence"@)
        &&& opt_decimal_ok(h, row, "shape_dist_travelled"@)
    }

    open spec fn row_matches(h: Seq<Seq<char>>, row: Seq<Seq<char>>, v: Shape) -> bool {
        &&& Some(v.shape_id@) == cell(h, row, "shape_id"@)
        &&& v.shape_pt_lat == req_decimal_val(h, row, "shape_pt_lat"@)
        &&& v.shape_pt_lon == req_decimal_val(h, row, "shape_pt_lon"@)
        &&& v.shape_pt_sequence == req_u64_val(h, row, "shape_pt_sequence"@)
        &&& v.shape_dist_travelled == opt_decimal_val(h, row, "shape_dist_travelled"@)
    }

    fn file_name() -> (s: String) {
        String::from_str("shapes.txt")
    }

    fn from_row(header: &Vec<String>, row: &Vec<String>) -> (res: Result<Shape, GtfsError>) {
        let shape_id = match req_string(header, row, "shape_id") {
            Ok(v) => v,
            Err(e) => {
                return Err(e);
            },
        };
        let shape_pt_lat = match req_decimal_field(header, row, "shape_pt_lat") {
            Ok(v) => v,
            Err(e) => {
                return Err(e);
            },
        };
        let shape_pt_lon = match req_decimal_field(header, row, "shape_pt_lon") {
            Ok(v) => v,
            Err(e) => {
                return Err(e);
            },
        };
        let shape_pt_sequence = match req_u64_field(header, row, "shape_pt_sequence") {
            Ok(v) => v,
            Err(e) => {
                return Err(e);
            },
        };
        let shape_dist_travelled = match opt_decimal_field(header, row, "shape_dist_travelled") {
            Ok(v) => v,
            Err(e) => {
                return Err(e);
            },
        };
        Ok(
            Shape {
                shape_id,
                shape_pt_lat,
                shape_pt_lon,
                shape_pt_sequence,
                shape_dist_travelled,
            },
        )
    }
}

#[derive(Debug, Clone, PartialEq)]
pub struct Frequency {
    pub trip_id: String,
    pub start_time: Time,
    pub end_time: Time,
    pub headway_secs: u64,
    pub exact_times: Option<bool>,
}

impl GtfsObject for Frequency {
    open spec fn spec_file() -> Seq<char> {
        "frequencies.txt"@
    }

    open spec fn spec_required() -> bool {
        false
    }

    open spec fn row_ok(h: Seq<Seq<char>>, row: Seq<Seq<char>>) -> bool {
        &&& cell(h, row, "trip_id"@) is Some
        &&& req_time_ok(h, row, "start_time"@)
        &&& req_time_ok(h, row, "end_time"@)
        &&& req_u64_ok(h, row, "headway_secs"@)
        &&& opt_bool_ok(h, row, "exact_times"@)
    }

    open spec fn row_matches(h: Seq<Seq<char>>, row: Seq<Seq<char>>, v: Frequency) -> bool {
        &&& Some(v.trip_id@) == cell(h, row, "trip_id"@)
        &&& v.start_time == req_time_val(h, row, "start_time"@)
        &&& v.end_time == req_time_val(h, row, "end_time"@)
        &&& v.headway_secs == req_u64_val(h, row, "headway_secs"@)
        &&& v.exact_times == opt_bool_val(h, row, "exact_times"@)
    }

    fn file_name() -> (s: String) {
        String::from_str("frequencies.txt")
    }

    fn from_row(header: &Vec<String>, row: &Vec<String>) -> (res: Result<Frequency, GtfsError>) {
        let trip_id = match req_string(header, row, "trip_id") {
            Ok(v) => v,
            Err(e) => {
                return Err(e);
            },
        };
        let start_time = match req_time_field(header, row, "start_time") {
            Ok(v) => v,
            Err(e) => {
                return Err(e);
            },
        };
        let end_time = match req_time_field(header, row, "end_time") {
            Ok(v) => v,
            Err(e) => {
                return Err(e);
            },
        };
        let headway_secs = match req_u64_field(header, row, "headway_secs") {
            Ok(v) => v,
            Err(e) => {
                return Err(e);
            },
        };
        let exact_times = match opt_bool_field(header, row, "exact_times") {
            Ok(v) => v,
            Err(e) => {
                return Err(e);
            },
        };
        Ok(
            Frequency {
                trip_id,
                start_time,
                end_time,
                headway_secs,
                exact_times,
            },
        )
    }
}

#[derive(Debug, Clone, PartialEq)]
pub struct Transfer {
    pub from_stop_id: Option<String>,
    pub to_stop_id: Option<String>,
    pub from_route_id: Option<String>,
    pub to_route_id: Option<String>,
    pub from_trip_id: Option<String>,
    pub to_trip_id: Option<String>,
    pub transfer_type: TransferType,
    pub min_transfer_time: Option<u64>,
}

impl GtfsObject for Transfer {
    open spec fn spec_file() -> Seq<char> {
        "transfers.txt"@
    }

    open spec fn spec_required() -> bool {
        false
    }

    open spec fn row_ok(h: Seq<Seq<char>>, row: Seq<Seq<char>>) -> bool {
        &&& req_enum_ok::<TransferType>(h, row, "transfer_type"@)
        &&& opt_u64_ok(h, row, "min_transfer_time"@)
    }

    open spec fn row_matches(h: Seq<Seq<char>>, row: Seq<Seq<char>>, v: Transfer) -> bool {
        &&& v.from_stop_id.deep_view() == opt_cell(h, row, "from_stop_id"@)
        &&& v.to_stop_id.deep_view() == opt_cell(h, row, "to_stop_id"@)
        &&& v.from_route_id.deep_view() == opt_cell(h, row, "from_route_id"@)
        &&& v.to_route_id.deep_view() == opt_cell(h, row, "to_route_id"@)
        &&& v.from_trip_id.deep_view() == opt_cell(h, row, "from_trip_id"@)
        &&& v.to_trip_id.deep_view() == opt_cell(h, row, "to_trip_id"@)
        &&& Some(v.transfer_type) == req_enum_val::<TransferType>(h, row, "transfer_type"@)
        &&& v.min_transfer_time == opt_u64_val(h, row, "min_transfer_time"@)
    }

    fn file_name() -> (s: String) {
        String::from_str("transfers.txt")
    }

    fn from_row(header: &Vec<String>, row: &Vec<String>) -> (res: Result<Transfer, GtfsError>) {
        let from_stop_id = opt_string(header, row, "from_stop_id");
        let to_stop_id = opt_string(header, row, "to_stop_id");
        let from_route_id = opt_string(header, row, "from_route_id");
        let to_route_id = opt_string(header, row, "to_route_id");
        let from_trip_id = opt_string(header, row, "from_trip_id");
        let to_trip_id = opt_string(header, row, "to_trip_id");
        let transfer_type = match req_enum_field::<TransferType>(header, row, "transfer_type") {
            Ok(v) => v,
            Err(e) => {
                return Err(e);
            },
        };
        let min_transfer_time = match opt_u64_field(header, row, "min_transfer_time") {
            Ok(v) => v,
            Err(e) => {
                return Err(e);
            },
        };
        Ok(
            Transfer {
                from_stop_id,
                to_stop_id,
                from_route_id,
                to_route_id,
                from_trip_id,
                to_trip_id,
                transfer_type,
                min_transfer_time,
            },
        )
    }
}

#[derive(Debug, Clone, PartialEq)]
pub struct Pathway {
    pub pathway_id: String,
    pub from_stop_id: String,
    pub to_stop_id: String,
    pub pathway_mode: PathwayMode,
    pub is_bidirectional: bool,
    pub length: Option<DecimalValue>,
    pub traversal_time: Option<u64>,
    pub stair_count: Option<i64>,
    pub max_slope: Option<DecimalValue>,
    pub min_width: Option<DecimalValue>,
    pub signposted_as: Option<String>,
    pub reversed_signposted_as: Option<String>,
}

impl GtfsObject for Pathway {
    open spec fn spec_file() -> Seq<char> {
        "pathways.txt"@
    }

    open spec fn spec_required() -> bool {
        false
    }

    open spec fn row_ok(h: Seq<Seq<char>>, row: Seq<Seq<char>>) -> bool {
        &&& cell(h, row, "pathway_id"@) is Some
        &&& cell(h, row, "from_stop_id"@) is Some
        &&& cell(h, row, "to_stop_id"@) is Some
        &&& req_enum_ok::<PathwayMode>(h, row, "pathway_mode"@)
        &&& req_bool_ok(h, row, "is_bidirectional"@)
        &&& opt_decimal_ok(h, row, "length"@)
        &&& opt_u64_ok(h, row, "traversal_time"@)
        &&& opt_i64_ok(h, row, "stair_count"@)
        &&& opt_decimal_ok(h, row, "max_slope"@)
        &&& opt_decimal_ok(h, row, "min_width"@)
    }

    open spec fn row_matches(h: Seq<Seq<char>>, row: Seq<Seq<char>>, v: Pathway) -> bool {
        &&& Some(v.pathway_id@) == cell(h, row, "pathway_id"@)
        &&& Some(v.from_stop_id@) == cell(h, row, "from_stop_id"@)
        &&& Some(v.to_stop_id@) == cell(h, row, "to_stop_id"@)
        &&& Some(v.pathway_mode) == req_enum_val::<PathwayMode>(h, row, "pathway_mode"@)
        &&& v.is_bidirectional == req_bool_val(h, row, "is_bidirectional"@)
        &&& v.length == opt_decimal_val(h, row, "length"@)
        &&& v.traversal_time == opt_u64_val(h, row, "traversal_time"@)
        &&& v.stair_count == opt_i64_val(h, row, "stair_count"@)
        &&& v.max_slope == opt_decimal_val(h, row, "max_slope"@)
        &&& v.min_width == opt_decimal_val(h, row, "min_width"@)
        &&& v.signposted_as.deep_view() == opt_cell(h, row, "signposted_as"@)
        &&& v.reversed_signposted_as.deep_view() == opt_cell(h, row, "reversed_signposted_as"@)
    }

    fn file_name() -> (s: String) {
        String::from_str("pathways.txt")
    }

    fn from_row(header: &Vec<String>, row: &Vec<String>) -> (res: Result<Pathway, GtfsError>) {
        let pathway_id = match req_string(header, row, "pathway_id") {
            Ok(v) => v,
            Err(e) => {
                return Err(e);
            },
        };
        let from_stop_id = match req_string(header, row, "from_stop_id") {
            Ok(v) => v,
            Err(e) => {
                return Err(e);
            },
        };
        let to_stop_id = match req_string(header, row, "to_stop_id") {
            Ok(v) => v,
            Err(e) => {
                return Err(e);
            },
        };
        let pathway_mode = match req_enum_field::<PathwayMode>(header, row, "pathway_mode") {
            Ok(v) => v,
            Err(e) => {
                return Err(e);
            },
        };
        let is_bidirectional = match req_bool_field(header, row, "is_bidirectional") {
            Ok(v) => v,
            Err(e) => {
                return Err(e);
            },
        };
        let length = match opt_decimal_field(header, row, "length") {
            Ok(v) => v,
            Err(e) => {
                return Err(e);
            },
        };
        let traversal_time = match opt_u64_field(header, row, "traversal_time") {
            Ok(v) => v,
            Err(e) => {
                return Err(e);
            },
        };
        let stair_count = match opt_i64_field(header, row, "stair_count") {
            Ok(v) => v,
            Err(e) => {
                return Err(e);
            },
        };
        let max_slope = match opt_decimal_field(header, row, "max_slope") {
            Ok(v) => v,
            Err(e) => {
                return Err(e);
            },
        };
        let min_width = match opt_decimal_field(header, row, "min_width") {
            Ok(v) => v,
            Err(e) => {
                return Err(e);
            },
        };
        let signposted_as = opt_string(header, row, "signposted_as");
        let reversed_signposted_as = opt_string(header, row, "reversed_signposted_as");
        Ok(
            Pathway {
                pathway_id,
                from_stop_id,
                to_stop_id,
                pathway_mode,
                is_bidirectional,
                length,
                traversal_time,
                stair_count,
                max_slope,
                min_width,
                signposted_as,
                reversed_signposted_as,
            },
        )
    }
}

#[derive(Debug, Clone, PartialEq)]
pub struct Level {
    pub level_id: String,
    pub level_index: DecimalValue,
    pub level_name: Option<String>,
}

impl GtfsObject for Level {
    open spec fn spec_file() -> Seq<char> {
        "levels.txt"@
    }

    open spec fn spec_required() -> bool {
        false
    }

    open spec fn row_ok(h: Seq<Seq<char>>, row: Seq<Seq<char>>) -> bool {
        &&& cell(h, row, "level_id"@) is Some
        &&& req_decimal_ok(h, row, "level_index"@)
    }

    open spec fn row_matches(h: Seq<Seq<char>>, row: Seq<Seq<char>>, v: Level) -> bool {
        &&& Some(v.level_id@) == cell(h, row, "level_id"@)
        &&& v.level_index == req_decimal_val(h, row, "level_index"@)
        &&& v.level_name.deep_view() == opt_cell(h, row, "level_name"@)
    }

    fn file_name() -> (s: String) {
        String::from_str("levels.txt")
    }

    fn from_row(header: &Vec<String>, row: &Vec<String>) -> (res: Result<Level, GtfsError>) {
        let level_id = match req_string(header, row, "level_id") {
            Ok(v) => v,
            Err(e) => {
                return Err(e);
            },
        };
        let level_index = match req_decimal_field(header, row, "level_index") {
            Ok(v) => v,
            Err(e) => {
                return Err(e);
            },
        };
        let level_name = opt_string(header, row, "level_name");
        Ok(
            Level {
                level_id,
                level_index,
                level_name,
            },
        )
    }
}

#[derive(Debug, Clone, PartialEq)]
pub struct LocationGroup {
    pub location_group_id: String,
    pub location_group_name: Option<String>,
}

impl GtfsObject for LocationGroup {
    open spec fn spec_file() -> Seq<char> {
        "location_group.txt"@
    }

    open spec fn spec_required() -> bool {
        false
    }

    open spec fn row_ok(h: Seq<Seq<char>>, row: Seq<Seq<char>>) -> bool {
        cell(h, row, "location_group_id"@) is Some
    }

    open spec fn row_matches(h: Seq<Seq<char>>, row: Seq<Seq<char>>, v: LocationGroup) -> bool {
        &&& Some(v.location_group_id@) == cell(h, row, "location_group_id"@)
        &&& v.location_group_name.deep_view() == opt_cell(h, row, "location_group_name"@)
    }

    fn file_name() -> (s: String) {
        String::from_str("location_group.txt")
    }

    fn from_row(header: &Vec<String>, row: &Vec<String>) -> (res: Result<LocationGroup, GtfsError>) {
        let location_group_id = match req_string(header, row, "location_group_id") {
            Ok(v) => v,
            Err(e) => {
                return Err(e);
            },
        };
        let location_group_name = opt_string(header, row, "location_group_name");
        Ok(
            LocationGroup {
                location_group_id,
                location_group_name,
            },
        )
    }
}

#[derive(Debug, Clone, PartialEq)]
pub struct LocationGroupStop {
    pub location_group_id: String,
    pub stop_id: String,
}

impl GtfsObject for LocationGroupStop {
    open spec fn spec_file() -> Seq<char> {
        "location_group_stops.txt"@
    }

    open spec fn spec_required() -> bool {
        false
    }

    open spec fn row_ok(h: Seq<Seq<char>>, row: Seq<Seq<char>>) -> bool {
        &&& cell(h, row, "location_group_id"@) is Some
        &&& cell(h, row, "stop_id"@) is Some
    }

    open spec fn row_matches(h: Seq<Seq<char>>, row: Seq<Seq<char>>, v: LocationGroupStop) -> bool {
        &&& Some(v.location_group_id@) == cell(h, row, "location_group_id"@)
        &&& Some(v.stop_id@) == cell(h, row, "stop_id"@)
    }

    fn file_name() -> (s: String) {
        String::from_str("location_group_stops.txt")
    }

    fn from_row(header: &Vec<String>, row: &Vec<String>) -> (res: Result<LocationGroupStop, GtfsError>) {
        let location_group_id = match req_string(header, row, "location_group_id") {
            Ok(v) => v,
            Err(e) => {
                return Err(e);
            },
        };
        let stop_id = match req_string(header, row, "stop_id") {
            Ok(v) => v,
            Err(e) => {
                return Err(e);
            },
        };
        Ok(
            LocationGroupStop {
                location_group_id,
                stop_id,
            },
        )
    }
}

#[derive(Debug, Clone, PartialEq)]
pub struct BookingRule {
    pub booking_rule_id: String,
    pub booking_type: BookingType,
    pub prior_notice_duration_min: Option<i64>,
    pub prior_notice_duration_max: Option<i64>,
    pub prior_notice_last_day: Option<i64>,
    pub prior_notice_last_time: Option<Time>,
    pub prior_notice_start_day: Option<i64>,
    pub prior_notice_start_time: Option<Time>,
    pub prior_notice_service_id: Option<String>,
    pub message: Option<String>,
    pub pickup_message: Option<String>,
    pub drop_off_message: Option<String>,
    pub phone_number: Option<String>,
    pub info_url: Option<String>,
    pub booking_url: Option<String>,
}

impl GtfsObject for BookingRule {
    open spec fn spec_file() -> Seq<char> {
        "booking_rules.txt"@
    }

    open spec fn spec_required() -> bool {
        false
    }

    open spec fn row_ok(h: Seq<Seq<char>>, row: Seq<Seq<char>>) -> bool {
        &&& cell(h, row, "booking_rule_id"@) is Some
        &&& req_enum_ok::<BookingType>(h, row, "booking_type"@)
        &&& opt_i64_ok(h, row, "prior_notice_duration_min"@)
        &&& opt_i64_ok(h, row, "prior_notice_duration_max"@)
        &&& opt_i64_ok(h, row, "prior_notice_last_day"@)
        &&& opt_time_ok(h, row, "prior_notice_last_time"@)
        &&& opt_i64_ok(h, row, "prior_notice_start_day"@)
        &&& opt_time_ok(h, row, "prior_notice_start_time"@)
    }

    open spec fn row_matches(h: Seq<Seq<char>>, row: Seq<Seq<char>>, v: BookingRule) -> bool {
        &&& Some(v.booking_rule_id@) == cell(h, row, "booking_rule_id"@)
        &&& Some(v.booking_type) == req_enum_val::<BookingType>(h, row, "booking_type"@)
        &&& v.prior_notice_duration_min == opt_i64_val(h, row, "prior_notice_duration_min"@)
        &&& v.prior_notice_duration_max == opt_i64_val(h, row, "prior_notice_duration_max"@)
        &&& v.prior_notice_last_day == opt_i64_val(h, row, "prior_notice_last_day"@)
        &&& v.prior_notice_last_time == opt_time_val(h, row, "prior_notice_last_time"@)
        &&& v.prior_notice_start_day == opt_i64_val(h, row, "prior_notice_start_day"@)
        &&& v.prior_notice_start_time == opt_time_val(h, row, "prior_notice_start_time"@)
        &&& v.prior_notice_service_id.deep_view() == opt_cell(h, row, "prior_notice_service_id"@)
        &&& v.message.deep_view() == opt_cell(h, row, "message"@)
        &&& v.pickup_message.deep_view() == opt_cell(h, row, "pickup_message"@)
        &&& v.drop_off_message.deep_view() == opt_cell(h, row, "drop_off_message"@)
        &&& v.phone_number.deep_view() == opt_cell(h, row, "phone_number"@)
        &&& v.info_url.deep_view() == opt_cell(h, row, "info_url"@)
        &&& v.booking_url.deep_view() == opt_cell(h, row, "booking_url"@)
    }

    fn file_name() -> (s: String) {
        String::from_str("booking_rules.txt")
    }

    fn from_row(header: &Vec<String>, row: &Vec<String>) -> (res: Result<BookingRule, GtfsError>) {
        let booking_rule_id = match req_string(header, row, "booking_rule_id") {
            Ok(v) => v,
            Err(e) => {
                return Err(e);
            },
        };
        let booking_type = match req_enum_field::<BookingType>(header, row, "booking_type") {
            Ok(v) => v,
            Err(e) => {
                return Err(e);
            },
        };
        let prior_notice_duration_min = match opt_i64_field(header, row, "prior_notice_duration_min") {
            Ok(v) => v,
            Err(e) => {
                return Err(e);
            },
        };
        let prior_notice_duration_max = match opt_i64_field(header, row, "prior_notice_duration_max") {
            Ok(v) => v,
            Err(e) => {
                return Err(e);
            },
        };
        let prior_notice_last_day = match opt_i64_field(header, row, "prior_notice_last_day") {
            Ok(v) => v,
            Err(e) => {
                return Err(e);
            },
        };
        let prior_notice_last_time = match opt_time_field(header, row, "prior_notice_last_time") {
            Ok(v) => v,
            Err(e) => {
                return Err(e);
            },
        };
        let prior_notice_start_day = match opt_i64_field(header, row, "prior_notice_start_day") {
            Ok(v) => v,
            Err(e) => {
                return Err(e);
            },
        };
        let prior_notice_start_time = match opt_time_field(header, row, "prior_notice_start_time") {
            Ok(v) => v,
            Err(e) => {
                return Err(e);
            },
        };
        let prior_notice_service_id = opt_string(header, row, "prior_notice_service_id");
        let message = opt_string(header, row, "message");
        let pickup_message = opt_string(header, row, "pickup_message");
        let drop_off_message = opt_string(header, row, "drop_off_message");
        let phone_number = opt_string(header, row, "phone_number");
        let info_url = opt_string(header, row, "info_url");
        let booking_url = opt_string(header, row, "booking_url");
        Ok(
            BookingRule {
                booking_rule_id,
                booking_type,
                prior_notice_duration_min,
                prior_notice_duration_max,
                prior_notice_last_day,
                prior_notice_last_time,
                prior_notice_start_day,
                prior_notice_start_time,
                prior_notice_service_id,
                message,
                pickup_message,
                drop_off_message,
                phone_number,
                info_url,
                booking_url,
            },
        )
    }
}

#[derive(Debug, Clone, PartialEq)]
pub struct Translation {
    pub table_name: String,
    pub field_name: String,
    pub language: String,
    pub translation: String,
    pub record_id: Option<String>,
    pub record_sub_id: Option<String>,
    pub field_value: Option<String>,
}

impl GtfsObject for Translation {
    open spec fn spec_file() -> Seq<char> {
        "Translations.txt"@
    }

    open spec fn spec_required() -> bool {
        false
    }

    open spec fn row_ok(h: Seq<Seq<char>>, row: Seq<Seq<char>>) -> bool {
        &&& cell(h, row, "table_name"@) is Some
        &&& cell(h, row, "field_name"@) is Some
        &&& cell(h, row, "language"@) is Some
        &&& cell(h, row, "translation"@) is Some
    }

    open spec fn row_matches(h: Seq<Seq<char>>, row: Seq<Seq<char>>, v: Translation) -> bool {
        &&& Some(v.table_name@) == cell(h, row, "table_name"@)
        &&& Some(v.field_name@) == cell(h, row, "field_name"@)
        &&& Some(v.language@) == cell(h, row, "language"@)
        &&& Some(v.translation@) == cell(h, row, "translation"@)
        &&& v.record_id.deep_view() == opt_cell(h, row, "record_id"@)
        &&& v.record_sub_id.deep_view() == opt_cell(h, row, "record_sub_id"@)
        &&& v.field_value.deep_view() == opt_cell(h, row, "field_value"@)
    }

    fn file_name() -> (s: String) {
        String::from_str("Translations.txt")
    }

    fn from_row(header: &Vec<String>, row: &Vec<String>) -> (res: Result<Translation, GtfsError>) {
        let table_name = match req_string(header, row, "table_name") {
            Ok(v) => v,
            Err(e) => {
                return Err(e);
            },
        };
        let field_name = match req_string(header, row, "field_name") {
            Ok(v) => v,
            Err(e) => {
                return Err(e);
            },
        };
        let language = match req_string(header, row, "language") {
            Ok(v) => v,
            Err(e) => {
                return Err(e);
            },
        };
        let translation = match req_string(header, row, "translation") {
            Ok(v) => v,
            Err(e) => {
                return Err(e);
            },
        };
        let record_id = opt_string(header, row, "record_id");
        let record_sub_id = opt_string(header, row, "record_sub_id");
        let field_value = opt_string(header, row, "field_value");
        Ok(
            Translation {
                table_name,
                field_name,
                language,
                translation,
                record_id,
                record_sub_id,
                field_value,
            },
        )
    }
}

#[derive(Debug, Clone, PartialEq)]
pub struct FeedInfo {
    pub feed_publisher_name: String,
    pub feed_publisher_url: String,
    pub feed_lang: String,
    pub default_lang: Option<String>,
    pub feed_start_date: Option<GtfsDate>,
    pub feed_end_date: Option<GtfsDate>,
    pub feed_version: Option<String>,
    pub feed_contact_email: Option<String>,
    pub feed_contact_url: Option<String>,
}

impl GtfsObject for FeedInfo {
    open spec fn spec_file() -> Seq<char> {
        "feed_info.txt"@
    }

    open spec fn spec_required() -> bool {
        false
    }

    open spec fn row_ok(h: Seq<Seq<char>>, row: Seq<Seq<char>>) -> bool {
        &&& cell(h, row, "feed_publisher_name"@) is Some
        &&& cell(h, row, "feed_publisher_url"@) is Some
        &&& cell(h, row, "feed_lang"@) is Some
        &&& opt_date_ok(h, row, "feed_start_date"@)
        &&& opt_date_ok(h, row, "feed_end_date"@)
    }

    open spec fn row_matches(h: Seq<Seq<char>>, row: Seq<Seq<char>>, v: FeedInfo) -> bool {
        &&& Some(v.feed_publisher_name@) == cell(h, row, "feed_publisher_name"@)
        &&& Some(v.feed_publisher_url@) == cell(h, row, "feed_publisher_url"@)
        &&& Some(v.feed_lang@) == cell(h, row, "feed_lang"@)
        &&& v.default_lang.deep_view() == opt_cell(h, row, "default_lang"@)
        &&& v.feed_start_date == opt_date_val(h, row, "feed_start_date"@)
        &&& v.feed_end_date == opt_date_val(h, row, "feed_end_date"@)
        &&& v.feed_version.deep_view() == opt_cell(h, row, "feed_version"@)
        &&& v.feed_contact_email.deep_view() == opt_cell(h, row, "feed_contact_email"@)
        &&& v.feed_contact_url.deep_view() == opt_cell(h, row, "feed_contact_url"@)
    }

    fn file_name() -> (s: String) {
        String::from_str("feed_info.txt")
    }

    fn from_row(header: &Vec<String>, row: &Vec<String>) -> (res: Result<FeedInfo, GtfsError>) {
        let feed_publisher_name = match req_string(header, row, "feed_publisher_name") {
            Ok(v) => v,
            Err(e) => {
                return Err(e);
            },
        };
        let feed_publisher_url = match req_string(header, row, "feed_publisher_url") {
            Ok(v) => v,
            Err(e) => {
                return Err(e);
            },
        };
        let feed_lang = match req_string(header, row, "feed_lang") {
            Ok(v) => v,
            Err(e) => {
                return Err(e);
            },
        };
        let default_lang = opt_string(header, row, "default_lang");
        let feed_start_date = match opt_date_field(header, row, "feed_start_date") {
            Ok(v) => v,
            Err(e) => {
                return Err(e);
            },
        };
        let feed_end_date = match opt_date_field(header, row, "feed_end_date") {
            Ok(v) => v,
            Err(e) => {
                return Err(e);
            },
        };
        let feed_version = opt_string(header, row, "feed_version");
        let feed_contact_email = opt_string(header, row, "feed_contact_email");
        let feed_contact_url = opt_string(header, row, "feed_contact_url");
        Ok(
            FeedInfo {
                feed_publisher_name,
                feed_publisher_url,
                feed_lang,
                default_lang,
                feed_start_date,
                feed_end_date,
                feed_version,
                feed_contact_email,
                feed_contact_url,
            },
        )
    }
}

#[derive(Debug, Clone, PartialEq)]
pub struct Attributions {
    pub attribution_id: Option<String>,
    pub agency_id: Option<String>,
    pub route_id: Option<String>,
    pub trip_id: Option<String>,
    pub organization_name: String,
    pub is_producer: Option<bool>,
    pub is_operator: Option<bool>,
    pub is_authority: Option<bool>,
    pub attribution_url: Option<String>,
    pub attribution_email: Option<String>,
    pub attribution_phone: Option<String>,
}

impl GtfsObject for Attributions {
    open spec fn spec_file() -> Seq<char> {
        "attributions.txt"@
    }

    open spec fn spec_required() -> bool {
        false
    }

    open spec fn row_ok(h: Seq<Seq<char>>, row: Seq<Seq<char>>) -> bool {
        &&& cell(h, row, "organization_name"@) is Some
        &&& opt_bool_ok(h, row, "is_producer"@)
        &&& opt_bool_ok(h, row, "is_operator"@)
        &&& opt_bool_ok(h, row, "is_authority"@)
    }

    open spec fn row_matches(h: Seq<Seq<char>>, row: Seq<Seq<char>>, v: Attributions) -> bool {
        &&& v.attribution_id.deep_view() == opt_cell(h, row, "attribution_id"@)
        &&& v.agency_id.deep_view() == opt_cell(h, row, "agency_id"@)
        &&& v.route_id.deep_view() == opt_cell(h, row, "route_id"@)
        &&& v.trip_id.deep_view() == opt_cell(h, row, "trip_id"@)
        &&& Some(v.organization_name@) == cell(h, row, "organization_name"@)
        &&& v.is_producer == opt_bool_val(h, row, "is_producer"@)
        &&& v.is_operator == opt_bool_val(h, row, "is_operator"@)
        &&& v.is_authority == opt_bool_val(h, row, "is_authority"@)
        &&& v.attribution_url.deep_view() == opt_cell(h, row, "attribution_url"@)
        &&& v.attribution_email.deep_view() == opt_cell(h, row, "attribution_email"@)
        &&& v.attribution_phone.deep_view() == opt_cell(h, row, "attribution_phone"@)
    }

    fn file_name() -> (s: String) {
        String::from_str("attributions.txt")
    }

    fn from_row(header: &Vec<String>, row: &Vec<String>) -> (res: Result<Attributions, GtfsError>) {
        let attribution_id = opt_string(header, row, "attribution_id");
        let agency_id = opt_string(header, row, "agency_id");
        let route_id = opt_string(header, row, "route_id");
        let trip_id = opt_string(header, row, "trip_id");
        let organization_name = match req_string(header, row, "organization_name") {
            Ok(v) => v,
            Err(e) => {
                return Err(e);
            },
        };
        let is_producer = match opt_bool_field(header, row, "is_producer") {
            Ok(v) => v,
            Err(e) => {
                return Err(e);
            },
        };
        let is_operator = match opt_bool_field(header, row, "is_operator") {
            Ok(v) => v,
            Err(e) => {
                return Err(e);
            },
        };
        let is_authority = match opt_bool_field(header, row, "is_authority") {
            Ok(v) => v,
            Err(e) => {
                return Err(e);
            },
        };
        let attribution_url = opt_string(header, row, "attribution_url");
        let attribution_email = opt_string(header, row, "attribution_email");
        let attribution_phone = opt_string(header, row, "attribution_phone");
        Ok(
            Attributions {
                attribution_id,
                agency_id,
                route_id,
                trip_id,
                organization_name,
                is_producer,
                is_operator,
                is_authority,
                attribution_url,
                attribution_email,
                attribution_phone,
            },
        )
    }
}

} // verus!
