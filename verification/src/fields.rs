//! Field access within a decoded row: columns are located by header name;
//! each column decodes independently through one of the scalar codecs.
use vstd::prelude::*;

verus! {

use crate::archive::GtfsError;
use crate::codec::DecimalValue;
use crate::codec::GtfsDate;
use crate::codec::Time;
use crate::codec::bool_of_text;
use crate::codec::bool_text_ok;
use crate::codec::date_of_text;
use crate::codec::date_text_ok;
use crate::codec::decimal_of_text;
use crate::codec::decimal_text_ok;
use crate::codec::i64_text_ok;
use crate::codec::i64_text_val;
use crate::codec::parse_bool01;
use crate::codec::parse_decimal;
use crate::codec::parse_i64;
use crate::codec::parse_u64;
use crate::codec::time_of_text;
use crate::codec::time_text_ok;
use crate::codec::u64_text_ok;
use crate::codec::u64_text_val;
use crate::text::str_eq_value;

// ---------------------------------------------------------------------------
// Locating a column.
// ---------------------------------------------------------------------------

/// The position of the first header column with the given name.
pub open spec fn col_of(h: Seq<Seq<char>>, name: Seq<char>) -> Option<int>
    decreases h.len(),
{
    if h.len() == 0 {
        None
    } else if h[0] == name {
        Some(0)
    } else {
        match col_of(h.drop_first(), name) {
            None => None,
            Some(i) => Some(i + 1),
        }
    }
}

/// The raw text of the named column in a row: present only if the header
/// holds the column and the row is long enough to reach it.
pub open spec fn cell(h: Seq<Seq<char>>, row: Seq<Seq<char>>, name: Seq<char>) -> Option<Seq<char>> {
    match col_of(h, name) {
        None => None,
        Some(i) => if i < row.len() {
            Some(row[i])
        } else {
            None
        },
    }
}

/// The text of an optional field: absent or empty text yields no value.
pub open spec fn opt_cell(h: Seq<Seq<char>>, row: Seq<Seq<char>>, name: Seq<char>) -> Option<
    Seq<char>,
> {
    match cell(h, row, name) {
        None => None,
        Some(t) => if t.len() > 0 {
            Some(t)
        } else {
            None
        },
    }
}

/// Locate the first header column with the given name.
pub fn find_col(header: &Vec<String>, name: &str) -> (r: Option<usize>)
    ensures
        r is Some <==> col_of(header.deep_view(), name@) is Some,
        r matches Some(i) ==> col_of(header.deep_view(), name@) == Some(i as int) && i
            < header.len(),
{
    let ghost h = header.deep_view();
    let mut i: usize = 0;
    proof {
        assert(h.skip(0) =~= h);
    }
    while i < header.len()
        invariant
            i <= header.len(),
            h == header.deep_view(),
            h.len() == header.len(),
            col_of(h, name@) == (match col_of(h.skip(i as int), name@) {
                None => None::<int>,
                Some(k) => Some(k + i),
            }),
        decreases header.len() - i,
    {
        proof {
            assert(h.skip(i as int)[0] == h[i as int]);
            assert(h.skip(i as int).drop_first() =~= h.skip(i + 1));
            assert(h[i as int] == header@[i as int]@);
        }
        if str_eq_value(header[i].as_str(), name) {
            return Some(i);
        }
        i = i + 1;
    }
    proof {
        assert(h.skip(i as int) =~= Seq::<Seq<char>>::empty());
    }
    None
}

/// The raw text of the named column in a row, as `cell` describes.
pub fn raw_cell<'a>(header: &Vec<String>, row: &'a Vec<String>, name: &str) -> (r: Option<
    &'a String,
>)
    ensures
        r is Some <==> cell(header.deep_view(), row.deep_view(), name@) is Some,
        r matches Some(t) ==> Some(t@) == cell(header.deep_view(), row.deep_view(), name@),
{
    match find_col(header, name) {
        None => None,
        Some(i) => {
            if i < row.len() {
                proof {
                    assert(row.deep_view()[i as int] == row@[i as int]@);
                }
                Some(&row[i])
            } else {
                None
            }
        },
    }
}

/// The text of an optional field, as `opt_cell` describes.
pub fn opt_field_text<'a>(header: &Vec<String>, row: &'a Vec<String>, name: &str) -> (r: Option<
    &'a String,
>)
    ensures
        r is Some <==> opt_cell(header.deep_view(), row.deep_view(), name@) is Some,
        r matches Some(t) ==> Some(t@) == opt_cell(header.deep_view(), row.deep_view(), name@),
{
    match raw_cell(header, row, name) {
        None => None,
        Some(t) => {
            if t.as_str().is_empty() {
                None
            } else {
                Some(t)
            }
        },
    }
}

// ---------------------------------------------------------------------------
// Typed field decoding. For each scalar kind there is a well-formedness
// spec (when decoding the field succeeds), a value spec, and an executable
// decoder proved against both.
// ---------------------------------------------------------------------------

/// Decode an optional text field.
pub fn opt_string(header: &Vec<String>, row: &Vec<String>, name: &str) -> (r: Option<String>)
    ensures
        r.deep_view() == opt_cell(header.deep_view(), row.deep_view(), name@),
{
    match opt_field_text(header, row, name) {
        None => None,
        Some(t) => Some(t.clone()),
    }
}

/// Decode a required text field: an absent column is a decode error; the
/// present text is taken as is, empty or not.
pub fn req_string(header: &Vec<String>, row: &Vec<String>, name: &str) -> (r: Result<
    String,
    GtfsError,
>)
    ensures
        r is Ok <==> cell(header.deep_view(), row.deep_view(), name@) is Some,
        r matches Ok(s) ==> Some(s@) == cell(header.deep_view(), row.deep_view(), name@),
        r matches Err(e) ==> e == GtfsError::Decode,
{
    match raw_cell(header, row, name) {
        None => Err(GtfsError::Decode),
        Some(t) => Ok(t.clone()),
    }
}

pub open spec fn opt_u64_ok(h: Seq<Seq<char>>, row: Seq<Seq<char>>, name: Seq<char>) -> bool {
    match opt_cell(h, row, name) {
        None => true,
        Some(t) => u64_text_ok(t),
    }
}

pub open spec fn opt_u64_val(h: Seq<Seq<char>>, row: Seq<Seq<char>>, name: Seq<char>) -> Option<
    u64,
> {
    match opt_cell(h, row, name) {
        None => None,
        Some(t) => Some(u64_text_val(t) as u64),
    }
}

/// Decode an optional unsigned integer field.
pub fn opt_u64_field(header: &Vec<String>, row: &Vec<String>, name: &str) -> (r: Result<
    Option<u64>,
    GtfsError,
>)
    ensures
        r is Ok <==> opt_u64_ok(header.deep_view(), row.deep_view(), name@),
        r matches Ok(v) ==> v == opt_u64_val(header.deep_view(), row.deep_view(), name@),
        r matches Err(e) ==> e == GtfsError::Decode,
{
    match opt_field_text(header, row, name) {
        None => Ok(None),
        Some(t) => match parse_u64(t.as_str()) {
            None => Err(GtfsError::Decode),
            Some(v) => Ok(Some(v)),
        },
    }
}

pub open spec fn req_u64_ok(h: Seq<Seq<char>>, row: Seq<Seq<char>>, name: Seq<char>) -> bool {
    match cell(h, row, name) {
        None => false,
        Some(t) => u64_text_ok(t),
    }
}

pub open spec fn req_u64_val(h: Seq<Seq<char>>, row: Seq<Seq<char>>, name: Seq<char>) -> u64 {
    u64_text_val(cell(h, row, name)->0) as u64
}

/// Decode a required unsigned integer field.
pub fn req_u64_field(header: &Vec<String>, row: &Vec<String>, name: &str) -> (r: Result<
    u64,
    GtfsError,
>)
    ensures
        r is Ok <==> req_u64_ok(header.deep_view(), row.deep_view(), name@),
        r matches Ok(v) ==> v == req_u64_val(header.deep_view(), row.deep_view(), name@),
        r matches Err(e) ==> e == GtfsError::Decode,
{
    match raw_cell(header, row, name) {
        None => Err(GtfsError::Decode),
        Some(t) => match parse_u64(t.as_str()) {
            None => Err(GtfsError::Decode),
            Some(v) => Ok(v),
        },
    }
}

pub open spec fn opt_i64_ok(h: Seq<Seq<char>>, row: Seq<Seq<char>>, name: Seq<char>) -> bool {
    match opt_cell(h, row, name) {
        None => true,
        Some(t) => i64_text_ok(t),
    }
}

pub open spec fn opt_i64_val(h: Seq<Seq<char>>, row: Seq<Seq<char>>, name: Seq<char>) -> Option<
    i64,
> {
    match opt_cell(h, row, name) {
        None => None,
        Some(t) => Some(i64_text_val(t) as i64),
    }
}

/// Decode an optional signed integer field.
pub fn opt_i64_field(header: &Vec<String>, row: &Vec<String>, name: &str) -> (r: Result<
    Option<i64>,
    GtfsError,
>)
    ensures
        r is Ok <==> opt_i64_ok(header.deep_view(), row.deep_view(), name@),
        r matches Ok(v) ==> v == opt_i64_val(header.deep_view(), row.deep_view(), name@),
        r matches Err(e) ==> e == GtfsError::Decode,
{
    match opt_field_text(header, row, name) {
        None => Ok(None),
        Some(t) => match parse_i64(t.as_str()) {
            None => Err(GtfsError::Decode),
            Some(v) => Ok(Some(v)),
        },
    }
}

pub open spec fn opt_time_ok(h: Seq<Seq<char>>, row: Seq<Seq<char>>, name: Seq<char>) -> bool {
    match opt_cell(h, row, name) {
        None => true,
        Some(t) => time_text_ok(t),
    }
}

pub open spec fn opt_time_val(h: Seq<Seq<char>>, row: Seq<Seq<char>>, name: Seq<char>) -> Option<
    Time,
> {
    match opt_cell(h, row, name) {
        None => None,
        Some(t) => Some(time_of_text(t)),
    }
}

/// Decode an optional clock-time field.
pub fn opt_time_field(header: &Vec<String>, row: &Vec<String>, name: &str) -> (r: Result<
    Option<Time>,
    GtfsError,
>)
    ensures
        r is Ok <==> opt_time_ok(header.deep_view(), row.deep_view(), name@),
        r matches Ok(v) ==> v == opt_time_val(header.deep_view(), row.deep_view(), name@),
        r matches Err(e) ==> e == GtfsError::Decode,
{
    match opt_field_text(header, row, name) {
        None => Ok(None),
        Some(t) => match Time::from_text(t.as_str()) {
            None => Err(GtfsError::Decode),
            Some(v) => Ok(Some(v)),
        },
    }
}

pub open spec fn req_time_ok(h: Seq<Seq<char>>, row: Seq<Seq<char>>, name: Seq<char>) -> bool {
    match cell(h, row, name) {
        None => false,
        Some(t) => time_text_ok(t),
    }
}

pub open spec fn req_time_val(h: Seq<Seq<char>>, row: Seq<Seq<char>>, name: Seq<char>) -> Time {
    time_of_text(cell(h, row, name)->0)
}

/// Decode a required clock-time field.
pub fn req_time_field(header: &Vec<String>, row: &Vec<String>, name: &str) -> (r: Result<
    Time,
    GtfsError,
>)
    ensures
        r is Ok <==> req_time_ok(header.deep_view(), row.deep_view(), name@),
        r matches Ok(v) ==> v == req_time_val(header.deep_view(), row.deep_view(), name@),
        r matches Err(e) ==> e == GtfsError::Decode,
{
    match raw_cell(header, row, name) {
        None => Err(GtfsError::Decode),
        Some(t) => match Time::from_text(t.as_str()) {
            None => Err(GtfsError::Decode),
            Some(v) => Ok(v),
        },
    }
}

pub open spec fn opt_date_ok(h: Seq<Seq<char>>, row: Seq<Seq<char>>, name: Seq<char>) -> bool {
    match opt_cell(h, row, name) {
        None => true,
        Some(t) => date_text_ok(t),
    }
}

pub open spec fn opt_date_val(h: Seq<Seq<char>>, row: Seq<Seq<char>>, name: Seq<char>) -> Option<
    GtfsDate,
> {
    match opt_cell(h, row, name) {
        None => None,
        Some(t) => Some(date_of_text(t)),
    }
}

/// Decode an optional calendar-date field.
pub fn opt_date_field(header: &Vec<String>, row: &Vec<String>, name: &str) -> (r: Result<
    Option<GtfsDate>,
    GtfsError,
>)
    ensures
        r is Ok <==> opt_date_ok(header.deep_view(), row.deep_view(), name@),
        r matches Ok(v) ==> v == opt_date_val(header.deep_view(), row.deep_view(), name@),
        r matches Err(e) ==> e == GtfsError::Decode,
{
    match opt_field_text(header, row, name) {
        None => Ok(None),
        Some(t) => match GtfsDate::from_text(t.as_str()) {
            None => Err(GtfsError::Decode),
            Some(v) => Ok(Some(v)),
        },
    }
}

pub open spec fn req_date_ok(h: Seq<Seq<char>>, row: Seq<Seq<char>>, name: Seq<char>) -> bool {
    match cell(h, row, name) {
        None => false,
        Some(t) => date_text_ok(t),
    }
}

pub open spec fn req_date_val(h: Seq<Seq<char>>, row: Seq<Seq<char>>, name: Seq<char>) -> GtfsDate {
    date_of_text(cell(h, row, name)->0)
}

/// Decode a required calendar-date field.
pub fn req_date_field(header: &Vec<String>, row: &Vec<String>, name: &str) -> (r: Result<
    GtfsDate,
    GtfsError,
>)
    ensures
        r is Ok <==> req_date_ok(header.deep_view(), row.deep_view(), name@),
        r matches Ok(v) ==> v == req_date_val(header.deep_view(), row.deep_view(), name@),
        r matches Err(e) ==> e == GtfsError::Decode,
{
    match raw_cell(header, row, name) {
        None => Err(GtfsError::Decode),
        Some(t) => match GtfsDate::from_text(t.as_str()) {
            None => Err(GtfsError::Decode),
            Some(v) => Ok(v),
        },
    }
}

pub open spec fn opt_decimal_ok(h: Seq<Seq<char>>, row: Seq<Seq<char>>, name: Seq<char>) -> bool {
    match opt_cell(h, row, name) {
        None => true,
        Some(t) => decimal_text_ok(t),
    }
}

pub open spec fn opt_decimal_val(h: Seq<Seq<char>>, row: Seq<Seq<char>>, name: Seq<char>) -> Option<
    DecimalValue,
> {
    match opt_cell(h, row, name) {
        None => None,
        Some(t) => Some(decimal_of_text(t)),
    }
}

/// Decode an optional decimal field.
pub fn opt_decimal_field(header: &Vec<String>, row: &Vec<String>, name: &str) -> (r: Result<
    Option<DecimalValue>,
    GtfsError,
>)
    ensures
        r is Ok <==> opt_decimal_ok(header.deep_view(), row.deep_view(), name@),
        r matches Ok(v) ==> v == opt_decimal_val(header.deep_view(), row.deep_view(), name@),
        r matches Err(e) ==> e == GtfsError::Decode,
{
    match opt_field_text(header, row, name) {
        None => Ok(None),
        Some(t) => match parse_decimal(t.as_str()) {
            None => Err(GtfsError::Decode),
            Some(v) => Ok(Some(v)),
        },
    }
}

pub open spec fn req_decimal_ok(h: Seq<Seq<char>>, row: Seq<Seq<char>>, name: Seq<char>) -> bool {
    match cell(h, row, name) {
        None => false,
        Some(t) => decimal_text_ok(t),
    }
}

pub open spec fn req_decimal_val(h: Seq<Seq<char>>, row: Seq<Seq<char>>, name: Seq<char>) -> DecimalValue {
    decimal_of_text(cell(h, row, name)->0)
}

/// Decode a required decimal field.
pub fn req_decimal_field(header: &Vec<String>, row: &Vec<String>, name: &str) -> (r: Result<
    DecimalValue,
    GtfsError,
>)
    ensures
        r is Ok <==> req_decimal_ok(header.deep_view(), row.deep_view(), name@),
        r matches Ok(v) ==> v == req_decimal_val(header.deep_view(), row.deep_view(), name@),
        r matches Err(e) ==> e == GtfsError::Decode,
{
    match raw_cell(header, row, name) {
        None => Err(GtfsError::Decode),
        Some(t) => match parse_decimal(t.as_str()) {
            None => Err(GtfsError::Decode),
            Some(v) => Ok(v),
        },
    }
}

pub open spec fn opt_bool_ok(h: Seq<Seq<char>>, row: Seq<Seq<char>>, name: Seq<char>) -> bool {
    match opt_cell(h, row, name) {
        None => true,
        Some(t) => bool_text_ok(t),
    }
}

pub open spec fn opt_bool_val(h: Seq<Seq<char>>, row: Seq<Seq<char>>, name: Seq<char>) -> Option<
    bool,
> {
    match opt_cell(h, row, name) {
        None => None,
        Some(t) => Some(bool_of_text(t)),
    }
}

/// Decode an optional integer-coded boolean field.
pub fn opt_bool_field(header: &Vec<String>, row: &Vec<String>, name: &str) -> (r: Result<
    Option<bool>,
    GtfsError,
>)
    ensures
        r is Ok <==> opt_bool_ok(header.deep_view(), row.deep_view(), name@),
        r matches Ok(v) ==> v == opt_bool_val(header.deep_view(), row.deep_view(), name@),
        r matches Err(e) ==> e == GtfsError::Decode,
{
    match opt_field_text(header, row, name) {
        None => Ok(None),
        Some(t) => match parse_bool01(t.as_str()) {
            None => Err(GtfsError::Decode),
            Some(v) => Ok(Some(v)),
        },
    }
}

pub open spec fn req_bool_ok(h: Seq<Seq<char>>, row: Seq<Seq<char>>, name: Seq<char>) -> bool {
    match cell(h, row, name) {
        None => false,
        Some(t) => bool_text_ok(t),
    }
}

pub open spec fn req_bool_val(h: Seq<Seq<char>>, row: Seq<Seq<char>>, name: Seq<char>) -> bool {
    bool_of_text(cell(h, row, name)->0)
}

/// Decode a required integer-coded boolean field.
pub fn req_bool_field(header: &Vec<String>, row: &Vec<String>, name: &str) -> (r: Result<
    bool,
    GtfsError,
>)
    ensures
        r is Ok <==> req_bool_ok(header.deep_view(), row.deep_view(), name@),
        r matches Ok(v) ==> v == req_bool_val(header.deep_view(), row.deep_view(), name@),
        r matches Err(e) ==> e == GtfsError::Decode,
{
    match raw_cell(header, row, name) {
        None => Err(GtfsError::Decode),
        Some(t) => match parse_bool01(t.as_str()) {
            None => Err(GtfsError::Decode),
            Some(v) => Ok(v),
        },
    }
}

// ---------------------------------------------------------------------------
// Bounded enumerations, decoded from small integer codes.
// ---------------------------------------------------------------------------

/// An enumeration decoded from a closed set of integer codes; unrecognized
/// codes are a decode error, never silently coerced.
pub trait CodeEnum: Sized {
    /// The variant a code denotes, if any.
    spec fn of_code(code: nat) -> Option<Self>;

    /// Decode a code into a variant, exactly as `of_code` describes.
    fn from_code(code: u64) -> (r: Option<Self>)
        ensures
            r == Self::of_code(code as nat),
    ;
}

pub open spec fn opt_enum_ok<T: CodeEnum>(
    h: Seq<Seq<char>>,
    row: Seq<Seq<char>>,
    name: Seq<char>,
) -> bool {
    match opt_cell(h, row, name) {
        None => true,
        Some(t) => u64_text_ok(t) && T::of_code(u64_text_val(t)) is Some,
    }
}

pub open spec fn opt_enum_val<T: CodeEnum>(
    h: Seq<Seq<char>>,
    row: Seq<Seq<char>>,
    name: Seq<char>,
) -> Option<T> {
    match opt_cell(h, row, name) {
        None => None,
        Some(t) => T::of_code(u64_text_val(t)),
    }
}

/// Decode an optional enumerated field.
pub fn opt_enum_field<T: CodeEnum>(header: &Vec<String>, row: &Vec<String>, name: &str) -> (r:
    Result<Option<T>, GtfsError>)
    ensures
        r is Ok <==> opt_enum_ok::<T>(header.deep_view(), row.deep_view(), name@),
        r matches Ok(v) ==> v == opt_enum_val::<T>(header.deep_view(), row.deep_view(), name@),
        r matches Err(e) ==> e == GtfsError::Decode,
{
    match opt_field_text(header, row, name) {
        None => Ok(None),
        Some(t) => match parse_u64(t.as_str()) {
            None => Err(GtfsError::Decode),
            Some(c) => match T::from_code(c) {
                None => Err(GtfsError::Decode),
                Some(v) => Ok(Some(v)),
            },
        },
    }
}

pub open spec fn req_enum_ok<T: CodeEnum>(
    h: Seq<Seq<char>>,
    row: Seq<Seq<char>>,
    name: Seq<char>,
) -> bool {
    match cell(h, row, name) {
        None => false,
        Some(t) => u64_text_ok(t) && T::of_code(u64_text_val(t)) is Some,
    }
}

pub open spec fn req_enum_val<T: CodeEnum>(
    h: Seq<Seq<char>>,
    row: Seq<Seq<char>>,
    name: Seq<char>,
) -> Option<T> {
    T::of_code(u64_text_val(cell(h, row, name)->0))
}

/// Decode a required enumerated field.
pub fn req_enum_field<T: CodeEnum>(header: &Vec<String>, row: &Vec<String>, name: &str) -> (r:
    Result<T, GtfsError>)
    ensures
        r is Ok <==> req_enum_ok::<T>(header.deep_view(), row.deep_view(), name@),
        r matches Ok(v) ==> Some(v) == req_enum_val::<T>(
            header.deep_view(),
            row.deep_view(),
            name@,
        ),
        r matches Err(e) ==> e == GtfsError::Decode,
{
    match raw_cell(header, row, name) {
        None => Err(GtfsError::Decode),
        Some(t) => match parse_u64(t.as_str()) {
            None => Err(GtfsError::Decode),
            Some(c) => match T::from_code(c) {
                None => Err(GtfsError::Decode),
                Some(v) => Ok(v),
            },
        },
    }
}

} // verus!
