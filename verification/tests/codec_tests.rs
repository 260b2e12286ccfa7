use gtfs_tool::codec::DecimalValue;
use gtfs_tool::codec::GtfsDate;
use gtfs_tool::codec::Time;
use gtfs_tool::codec::parse_bool01;
use gtfs_tool::codec::parse_decimal;
use gtfs_tool::codec::parse_i64;
use gtfs_tool::codec::parse_u64;

#[test]
fn u64_text_accepts_digits_and_plus() {
    assert_eq!(parse_u64("123"), Some(123));
    assert_eq!(parse_u64("+7"), Some(7));
    assert_eq!(parse_u64("0"), Some(0));
    assert_eq!(parse_u64("18446744073709551615"), Some(u64::MAX));
}

#[test]
fn u64_text_rejects_bad_text() {
    assert_eq!(parse_u64(""), None);
    assert_eq!(parse_u64("+"), None);
    assert_eq!(parse_u64("12a"), None);
    assert_eq!(parse_u64("-1"), None);
    assert_eq!(parse_u64("18446744073709551616"), None);
    assert_eq!(parse_u64("99999999999999999999999"), None);
}

#[test]
fn i64_text_handles_signs() {
    assert_eq!(parse_i64("-5"), Some(-5));
    assert_eq!(parse_i64("5"), Some(5));
    assert_eq!(parse_i64("+5"), Some(5));
    assert_eq!(parse_i64("-9223372036854775808"), Some(i64::MIN));
    assert_eq!(parse_i64("9223372036854775807"), Some(i64::MAX));
    assert_eq!(parse_i64("9223372036854775808"), None);
    assert_eq!(parse_i64("-9223372036854775809"), None);
    assert_eq!(parse_i64("-"), None);
}

#[test]
fn clock_time_parses_three_parts() {
    assert_eq!(Time::from_text("1:02:03"), Some(Time { h: 1, m: 2, s: 3 }));
    assert_eq!(Time::from_text("16:00:00"), Some(Time { h: 16, m: 0, s: 0 }));
    // Hours past midnight keep counting upward; this is not a modulo-24 time.
    assert_eq!(Time::from_text("25:30:00"), Some(Time { h: 25, m: 30, s: 0 }));
    // Minutes and seconds are not range checked at this layer.
    assert_eq!(Time::from_text("1:99:99"), Some(Time { h: 1, m: 99, s: 99 }));
}

#[test]
fn clock_time_rejects_malformed_text() {
    assert_eq!(Time::from_text("12:34"), None);
    assert_eq!(Time::from_text("1:2:3:4"), None);
    assert_eq!(Time::from_text("aa:bb:cc"), None);
    assert_eq!(Time::from_text(""), None);
    assert_eq!(Time::from_text("::"), None);
}

#[test]
fn calendar_date_parses_eight_digits() {
    assert_eq!(
        GtfsDate::from_text("20070101"),
        Some(GtfsDate { year: 2007, month: 1, day: 1 })
    );
    assert_eq!(
        GtfsDate::from_text("20101231"),
        Some(GtfsDate { year: 2010, month: 12, day: 31 })
    );
    // A leap day exists only in a leap year.
    assert_eq!(
        GtfsDate::from_text("20240229"),
        Some(GtfsDate { year: 2024, month: 2, day: 29 })
    );
    assert_eq!(GtfsDate::from_text("20230229"), None);
}

#[test]
fn calendar_date_rejects_malformed_text() {
    assert_eq!(GtfsDate::from_text("2007011"), None);
    assert_eq!(GtfsDate::from_text("200701011"), None);
    assert_eq!(GtfsDate::from_text("20070x01"), None);
    assert_eq!(GtfsDate::from_text("20071301"), None);
    assert_eq!(GtfsDate::from_text("20070132"), None);
    assert_eq!(GtfsDate::from_text("20070400"), None);
    assert_eq!(GtfsDate::from_text(""), None);
}

#[test]
fn decimal_parses_plain_and_signed() {
    assert_eq!(
        parse_decimal("36.425288"),
        Some(DecimalValue { negative: false, units: 36, nanos: 425288000 })
    );
    assert_eq!(
        parse_decimal("-117.133162"),
        Some(DecimalValue { negative: true, units: 117, nanos: 133162000 })
    );
    assert_eq!(parse_decimal("5"), Some(DecimalValue { negative: false, units: 5, nanos: 0 }));
    assert_eq!(parse_decimal("5."), Some(DecimalValue { negative: false, units: 5, nanos: 0 }));
    assert_eq!(
        parse_decimal(".5"),
        Some(DecimalValue { negative: false, units: 0, nanos: 500000000 })
    );
    assert_eq!(
        parse_decimal("+1.25"),
        Some(DecimalValue { negative: false, units: 1, nanos: 250000000 })
    );
}

#[test]
fn decimal_rejects_bad_text() {
    assert_eq!(parse_decimal(""), None);
    assert_eq!(parse_decimal("."), None);
    assert_eq!(parse_decimal("-"), None);
    assert_eq!(parse_decimal("1e3"), None);
    assert_eq!(parse_decimal("1.2.3"), None);
    assert_eq!(parse_decimal("12a"), None);
}

#[test]
fn bool01_is_strict() {
    assert_eq!(parse_bool01("0"), Some(false));
    assert_eq!(parse_bool01("1"), Some(true));
    assert_eq!(parse_bool01("00"), Some(false));
    assert_eq!(parse_bool01("2"), None);
    assert_eq!(parse_bool01(""), None);
    assert_eq!(parse_bool01("yes"), None);
}
