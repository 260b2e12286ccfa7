//! Scalar codecs for table cells: unsigned and signed integers, the clock
//! time value `H:MM:SS` (hours unbounded, minutes and seconds not range
//! checked), the calendar date `YYYYMMDD`, decimal numbers, and 0/1 booleans.
use vstd::prelude::*;

verus! {

use vstd::string::StrSliceExecFns;
use crate::text::split_on;
use crate::text::split_str;

// ---------------------------------------------------------------------------
// Digits.
// ---------------------------------------------------------------------------

pub open spec fn is_digit_char(c: char) -> bool {
    48 <= (c as u32) && (c as u32) <= 57
}

pub open spec fn digit_of(c: char) -> nat
    recommends
        is_digit_char(c),
{
    ((c as u32) - 48) as nat
}

pub open spec fn all_digits(s: Seq<char>) -> bool {
    forall|i: int| 0 <= i < s.len() ==> is_digit_char(s[i])
}

/// The numeric value of a digit string, most significant digit first.
pub open spec fn digits_val(s: Seq<char>) -> nat
    decreases s.len(),
{
    if s.len() == 0 {
        0
    } else {
        digits_val(s.drop_last()) * 10 + digit_of(s.last())
    }
}

pub proof fn lemma_digits_val_prefix(s: Seq<char>, j: int)
    requires
        0 <= j <= s.len(),
    ensures
        digits_val(s.take(j)) <= digits_val(s),
    decreases s.len() - j,
{
    if j == s.len() {
        assert(s.take(j) =~= s);
    } else {
        assert(s.take(j + 1).drop_last() =~= s.take(j));
        assert(digits_val(s.take(j + 1)) == digits_val(s.take(j)) * 10 + digit_of(s[j]));
        assert(digits_val(s.take(j)) * 10 >= digits_val(s.take(j))) by (nonlinear_arith);
        lemma_digits_val_prefix(s, j + 1);
    }
}

pub open spec fn pow10(n: nat) -> nat
    decreases n,
{
    if n == 0 {
        1
    } else {
        10 * pow10((n - 1) as nat)
    }
}

pub proof fn lemma_digits_val_bound(s: Seq<char>)
    requires
        all_digits(s),
    ensures
        digits_val(s) < pow10(s.len()),
    decreases s.len(),
{
    if s.len() > 0 {
        assert(all_digits(s.drop_last())) by {
            assert(forall|i: int| 0 <= i < s.len() - 1 ==> s.drop_last()[i] == s[i]);
        }
        lemma_digits_val_bound(s.drop_last());
        assert(digit_of(s.last()) <= 9);
        assert(digits_val(s.drop_last()) * 10 + 9 < pow10((s.len() - 1) as nat) * 10) by (nonlinear_arith)
            requires
                digits_val(s.drop_last()) < pow10((s.len() - 1) as nat),
        ;
    }
}

// ---------------------------------------------------------------------------
// Unsigned integers.
// ---------------------------------------------------------------------------

/// The digit body of unsigned integer text: one leading '+' is accepted.
pub open spec fn unsigned_body(s: Seq<char>) -> Seq<char> {
    if s.len() > 0 && s[0] == '+' {
        s.drop_first()
    } else {
        s
    }
}

pub open spec fn u64_text_ok(s: Seq<char>) -> bool {
    let d = unsigned_body(s);
    d.len() > 0 && all_digits(d) && digits_val(d) <= u64::MAX
}

pub open spec fn u64_text_val(s: Seq<char>) -> nat {
    digits_val(unsigned_body(s))
}

/// Parse the digits of `s` from position `start` to its end as a `u64`.
fn parse_u64_digits(s: &str, start: usize) -> (r: Option<u64>)
    requires
        start <= s@.len(),
    ensures
        ({
            let d = s@.skip(start as int);
            &&& (r is Some <==> d.len() > 0 && all_digits(d) && digits_val(d) <= u64::MAX)
            &&& (r matches Some(v) ==> v as nat == digits_val(d))
        }),
{
    let ghost d = s@.skip(start as int);
    let n = s.unicode_len();
    if start >= n {
        return None;
    }
    let mut acc: u64 = 0;
    let mut i: usize = start;
    proof {
        assert(s@.subrange(start as int, start as int) =~= Seq::<char>::empty());
    }
    while i < n
        invariant
            start <= i <= n,
            n == s@.len(),
            d == s@.skip(start as int),
            all_digits(s@.subrange(start as int, i as int)),
            acc as nat == digits_val(s@.subrange(start as int, i as int)),
        decreases n - i,
    {
        let c = s.get_char(i);
        let cu: u32 = c as u32;
        if cu < 48 || cu > 57 {
            proof {
                assert(d[i - start] == s@[i as int]);
                assert(!all_digits(d));
            }
            return None;
        }
        let dig: u64 = (cu - 48) as u64;
        proof {
            assert(s@.subrange(start as int, i + 1).drop_last() =~= s@.subrange(
                start as int,
                i as int,
            ));
            assert(s@.subrange(start as int, i + 1).last() == s@[i as int]);
        }
        let step = match acc.checked_mul(10) {
            Some(m) => m.checked_add(dig),
            None => None,
        };
        match step {
            Some(v) => {
                acc = v;
                proof {
                    assert(acc as nat == digits_val(s@.subrange(start as int, i + 1)));
                }
            },
            None => {
                proof {
                    assert(digits_val(s@.subrange(start as int, i + 1)) > u64::MAX);
                    assert(d.take(i + 1 - start) =~= s@.subrange(start as int, i + 1));
                    lemma_digits_val_prefix(d, i + 1 - start);
                    assert(digits_val(d) > u64::MAX);
                }
                return None;
            },
        }
        i = i + 1;
    }
    proof {
        assert(s@.subrange(start as int, n as int) =~= d);
    }
    Some(acc)
}

/// Parse unsigned integer text: optional leading '+', then decimal digits.
pub fn parse_u64(s: &str) -> (r: Option<u64>)
    ensures
        r is Some <==> u64_text_ok(s@),
        r matches Some(v) ==> v as nat == u64_text_val(s@),
{
    let n = s.unicode_len();
    if n > 0 && s.get_char(0) == '+' {
        proof {
            assert(s@.skip(1) =~= s@.drop_first());
        }
        parse_u64_digits(s, 1)
    } else {
        proof {
            assert(s@.skip(0) =~= s@);
        }
        parse_u64_digits(s, 0)
    }
}

// ---------------------------------------------------------------------------
// Signed integers.
// ---------------------------------------------------------------------------

pub open spec fn i64_text_ok(s: Seq<char>) -> bool {
    if s.len() > 0 && s[0] == '-' {
        let d = s.drop_first();
        d.len() > 0 && all_digits(d) && digits_val(d) <= 0x8000000000000000
    } else {
        let d = unsigned_body(s);
        d.len() > 0 && all_digits(d) && digits_val(d) <= i64::MAX
    }
}

pub open spec fn i64_text_val(s: Seq<char>) -> int {
    if s.len() > 0 && s[0] == '-' {
        -(digits_val(s.drop_first()) as int)
    } else {
        digits_val(unsigned_body(s)) as int
    }
}

/// Parse signed integer text: optional leading '-' or '+', then digits.
pub fn parse_i64(s: &str) -> (r: Option<i64>)
    ensures
        r is Some <==> i64_text_ok(s@),
        r matches Some(v) ==> v as int == i64_text_val(s@),
{
    let n = s.unicode_len();
    if n > 0 && s.get_char(0) == '-' {
        proof {
            assert(s@.skip(1) =~= s@.drop_first());
        }
        match parse_u64_digits(s, 1) {
            Some(mag) => {
                if mag <= 0x7fffffffffffffff {
                    Some(0i64 - (mag as i64))
                } else if mag == 0x8000000000000000 {
                    Some(i64::MIN)
                } else {
                    None
                }
            },
            None => None,
        }
    } else if n > 0 && s.get_char(0) == '+' {
        proof {
            assert(s@.skip(1) =~= s@.drop_first());
        }
        match parse_u64_digits(s, 1) {
            Some(mag) => {
                if mag <= 0x7fffffffffffffff {
                    Some(mag as i64)
                } else {
                    None
                }
            },
            None => None,
        }
    } else {
        proof {
            assert(s@.skip(0) =~= s@);
        }
        match parse_u64_digits(s, 0) {
            Some(mag) => {
                if mag <= 0x7fffffffffffffff {
                    Some(mag as i64)
                } else {
                    None
                }
            },
            None => None,
        }
    }
}

// ---------------------------------------------------------------------------
// Clock time.
// ---------------------------------------------------------------------------

/// A clock time of a service day. The hour may exceed 23: times past
/// midnight of the service day keep counting upward. Minutes and seconds
/// are carried as decoded, without range validation.
#[derive(Debug, Clone, Copy, PartialEq, Eq, Structural)]
pub struct Time {
    pub h: u64,
    pub m: u64,
    pub s: u64,
}

pub open spec fn time_text_ok(t: Seq<char>) -> bool {
    let parts = split_on(t, ':');
    &&& parts.len() == 3
    &&& u64_text_ok(parts[0])
    &&& u64_text_ok(parts[1])
    &&& u64_text_ok(parts[2])
}

pub open spec fn time_of_text(t: Seq<char>) -> Time {
    let parts = split_on(t, ':');
    Time {
        h: u64_text_val(parts[0]) as u64,
        m: u64_text_val(parts[1]) as u64,
        s: u64_text_val(parts[2]) as u64,
    }
}

impl Time {
    /// Decode `H:MM:SS` text: exactly three ':'-separated integer parts.
    pub fn from_text(t: &str) -> (r: Option<Time>)
        ensures
            r is Some <==> time_text_ok(t@),
            r matches Some(v) ==> v == time_of_text(t@),
    {
        let parts = split_str(t, ':');
        if parts.len() != 3 {
            return None;
        }
        proof {
            assert(parts.deep_view()[0] == parts@[0]@);
            assert(parts.deep_view()[1] == parts@[1]@);
            assert(parts.deep_view()[2] == parts@[2]@);
        }
        let h = match parse_u64(parts[0].as_str()) {
            Some(v) => v,
            None => {
                return None;
            },
        };
        let m = match parse_u64(parts[1].as_str()) {
            Some(v) => v,
            None => {
                return None;
            },
        };
        let s = match parse_u64(parts[2].as_str()) {
            Some(v) => v,
            None => {
                return None;
            },
        };
        Some(Time { h, m, s })
    }
}

// ---------------------------------------------------------------------------
// Calendar dates.
// ---------------------------------------------------------------------------

/// A calendar date, held as plain year, month and day numbers; valid dates
/// satisfy the proleptic-Gregorian day-in-month rule checked at decode time.
#[derive(Debug, Clone, Copy, PartialEq, Eq, Structural)]
pub struct GtfsDate {
    pub year: u64,
    pub month: u64,
    pub day: u64,
}

pub open spec fn is_leap_year(y: nat) -> bool {
    y % 4 == 0 && (y % 100 != 0 || y % 400 == 0)
}

pub open spec fn days_in_month(y: nat, m: nat) -> nat {
    if m == 2 {
        if is_leap_year(y) {
            29
        } else {
            28
        }
    } else if m == 4 || m == 6 || m == 9 || m == 11 {
        30
    } else {
        31
    }
}

pub open spec fn date_text_ok(s: Seq<char>) -> bool {
    &&& s.len() == 8
    &&& all_digits(s)
    &&& ({
        let y = digits_val(s.subrange(0, 4));
        let m = digits_val(s.subrange(4, 6));
        let d = digits_val(s.subrange(6, 8));
        &&& 1 <= m <= 12
        &&& 1 <= d <= days_in_month(y, m)
    })
}

pub open spec fn date_of_text(s: Seq<char>) -> GtfsDate {
    GtfsDate {
        year: digits_val(s.subrange(0, 4)) as u64,
        month: digits_val(s.subrange(4, 6)) as u64,
        day: digits_val(s.subrange(6, 8)) as u64,
    }
}

proof fn lemma_pow10_small()
    ensures
        pow10(2) == 100,
        pow10(4) == 10000,
{
    reveal_with_fuel(pow10, 5);
}

fn leap_year(y: u64) -> (r: bool)
    ensures
        r == is_leap_year(y as nat),
{
    y % 4 == 0 && (y % 100 != 0 || y % 400 == 0)
}

fn month_days(y: u64, m: u64) -> (r: u64)
    ensures
        r as nat == days_in_month(y as nat, m as nat),
{
    if m == 2 {
        if leap_year(y) {
            29
        } else {
            28
        }
    } else if m == 4 || m == 6 || m == 9 || m == 11 {
        30
    } else {
        31
    }
}

impl GtfsDate {
    /// Decode fixed 8-digit `YYYYMMDD` text into a valid calendar date.
    pub fn from_text(s: &str) -> (r: Option<GtfsDate>)
        ensures
            r is Some <==> date_text_ok(s@),
            r matches Some(v) ==> v == date_of_text(s@),
    {
        let n = s.unicode_len();
        if n != 8 {
            return None;
        }
        let ys = s.substring_char(0, 4);
        let ms = s.substring_char(4, 6);
        let ds = s.substring_char(6, 8);
        proof {
            assert(ys@.skip(0) =~= s@.subrange(0, 4));
            assert(ms@.skip(0) =~= s@.subrange(4, 6));
            assert(ds@.skip(0) =~= s@.subrange(6, 8));
        }
        let y = match parse_u64_digits(ys, 0) {
            Some(v) => v,
            None => {
                proof {
                    if all_digits(s@) {
                        assert(forall|i: int| 0 <= i < 4 ==> s@.subrange(0, 4)[i] == s@[i]);
                        lemma_digits_val_bound(s@.subrange(0, 4));
                        lemma_pow10_small();
                    }
                }
                return None;
            },
        };
        let m = match parse_u64_digits(ms, 0) {
            Some(v) => v,
            None => {
                proof {
                    if all_digits(s@) {
                        assert(forall|i: int| 0 <= i < 2 ==> s@.subrange(4, 6)[i] == s@[i + 4]);
                        lemma_digits_val_bound(s@.subrange(4, 6));
                        lemma_pow10_small();
                    }
                }
                return None;
            },
        };
        let d = match parse_u64_digits(ds, 0) {
            Some(v) => v,
            None => {
                proof {
                    if all_digits(s@) {
                        assert(forall|i: int| 0 <= i < 2 ==> s@.subrange(6, 8)[i] == s@[i + 6]);
                        lemma_digits_val_bound(s@.subrange(6, 8));
                        lemma_pow10_small();
                    }
                }
                return None;
            },
        };
        if m < 1 || m > 12 {
            return None;
        }
        if d < 1 || d > month_days(y, m) {
            return None;
        }
        proof {
            assert forall|i: int| 0 <= i < 8 implies is_digit_char(s@[i]) by {
                if i < 4 {
                    assert(s@.subrange(0, 4)[i] == s@[i]);
                } else if i < 6 {
                    assert(s@.subrange(4, 6)[i - 4] == s@[i]);
                } else {
                    assert(s@.subrange(6, 8)[i - 6] == s@[i]);
                }
            }
        }
        Some(GtfsDate { year: y, month: m, day: d })
    }
}

// ---------------------------------------------------------------------------
// Decimal numbers.
// ---------------------------------------------------------------------------

/// A decimal number carried as plain values: a sign, whole units, and
/// billionths. Fractional digits beyond the ninth are ignored at decode
/// time; this is the precision the model carries.
#[derive(Debug, Clone, Copy, PartialEq, Eq, Structural)]
pub struct DecimalValue {
    pub negative: bool,
    pub units: u64,
    pub nanos: u32,
}

/// The text after one leading '-' or '+', if present.
pub open spec fn signed_body(s: Seq<char>) -> Seq<char> {
    if s.len() > 0 && (s[0] == '-' || s[0] == '+') {
        s.drop_first()
    } else {
        s
    }
}

pub open spec fn decimal_text_ok(s: Seq<char>) -> bool {
    let b = signed_body(s);
    let parts = split_on(b, '.');
    &&& (parts.len() == 1 || parts.len() == 2)
    &&& all_digits(parts[0])
    &&& (parts.len() == 2 ==> all_digits(parts[1]))
    &&& parts[0].len() + (if parts.len() == 2 {
        parts[1].len()
    } else {
        0
    }) > 0
    &&& digits_val(parts[0]) <= u64::MAX
}

/// Billionths encoded by a fractional digit string; digits beyond the ninth
/// are ignored.
pub open spec fn nanos_of_frac(f: Seq<char>) -> nat {
    let t = if f.len() >= 9 {
        f.take(9)
    } else {
        f
    };
    digits_val(t) * pow10((9 - t.len()) as nat)
}

pub open spec fn decimal_of_text(s: Seq<char>) -> DecimalValue {
    let b = signed_body(s);
    let parts = split_on(b, '.');
    let frac = if parts.len() == 2 {
        parts[1]
    } else {
        Seq::<char>::empty()
    };
    DecimalValue {
        negative: s.len() > 0 && s[0] == '-',
        units: digits_val(parts[0]) as u64,
        nanos: nanos_of_frac(frac) as u32,
    }
}

fn pow10_u64(k: usize) -> (r: u64)
    requires
        k <= 9,
    ensures
        r as nat == pow10(k as nat),
{
    proof {
        reveal_with_fuel(pow10, 10);
    }
    if k == 0 {
        1
    } else if k == 1 {
        10
    } else if k == 2 {
        100
    } else if k == 3 {
        1000
    } else if k == 4 {
        10000
    } else if k == 5 {
        100000
    } else if k == 6 {
        1000000
    } else if k == 7 {
        10000000
    } else if k == 8 {
        100000000
    } else {
        1000000000
    }
}

/// Decode the billionths of a fractional digit string; `None` when some
/// character is not a digit.
fn parse_frac_nanos(f: &str) -> (r: Option<u32>)
    ensures
        r is Some <==> all_digits(f@),
        r matches Some(v) ==> v as nat == nanos_of_frac(f@),
{
    let n = f.unicode_len();
    let mut acc: u64 = 0;
    let mut i: usize = 0;
    let ghost t = if f@.len() >= 9 {
        f@.take(9)
    } else {
        f@
    };
    proof {
        assert(f@.take(0) =~= Seq::<char>::empty());
    }
    while i < n
        invariant
            i <= n,
            n == f@.len(),
            t == (if f@.len() >= 9 {
                f@.take(9)
            } else {
                f@
            }),
            forall|j: int| 0 <= j < i ==> is_digit_char(f@[j]),
            acc as nat == digits_val(f@.take(if i < 9 {
                i as int
            } else {
                9
            })),
            acc < 1000000000,
        decreases n - i,
    {
        let c = f.get_char(i);
        let cu: u32 = c as u32;
        if cu < 48 || cu > 57 {
            return None;
        }
        if i < 9 {
            let dig: u64 = (cu - 48) as u64;
            proof {
                assert(f@.take(i + 1).drop_last() =~= f@.take(i as int));
                assert(f@.take(i + 1).last() == f@[i as int]);
                assert(all_digits(f@.take(i as int)));
                lemma_digits_val_bound(f@.take(i as int));
                assert(pow10(i as nat) <= pow10(9)) by {
                    lemma_pow10_le(i as nat, 9);
                }
                assert(acc * 10 + dig < 10000000000) by (nonlinear_arith)
                    requires
                        acc < 1000000000,
                        dig <= 9,
                ;
            }
            acc = acc * 10 + dig;
            proof {
                assert(all_digits(f@.take(i + 1)));
                lemma_digits_val_bound(f@.take(i + 1));
                assert(pow10((i + 1) as nat) <= pow10(9)) by {
                    lemma_pow10_le((i + 1) as nat, 9);
                }
                lemma_pow10_nine();
            }
        }
        i = i + 1;
    }
    proof {
        if n < 9 {
            assert(f@.take(n as int) =~= f@);
        }
        assert(all_digits(t));
        lemma_digits_val_bound(t);
    }
    let shift: usize = if n >= 9 {
        0
    } else {
        9 - n
    };
    let scale = pow10_u64(shift);
    proof {
        assert(pow10(t.len()) * pow10((9 - t.len()) as nat) == 1000000000) by {
            lemma_pow10_add(t.len(), (9 - t.len()) as nat);
            lemma_pow10_nine();
        }
        assert(acc * scale < 1000000000) by (nonlinear_arith)
            requires
                acc as nat == digits_val(t),
                digits_val(t) < pow10(t.len()),
                scale as nat == pow10((9 - t.len()) as nat),
                t.len() <= 9,
                pow10(t.len()) * pow10((9 - t.len()) as nat) == 1000000000,
        ;
    }
    Some((acc * scale) as u32)
}

proof fn lemma_pow10_nine()
    ensures
        pow10(9) == 1000000000,
{
    reveal_with_fuel(pow10, 10);
}

proof fn lemma_pow10_le(a: nat, b: nat)
    requires
        a <= b,
    ensures
        pow10(a) <= pow10(b),
    decreases b,
{
    if a < b {
        lemma_pow10_le(a, (b - 1) as nat);
        assert(pow10(b) == 10 * pow10((b - 1) as nat));
    }
}

proof fn lemma_pow10_add(a: nat, b: nat)
    ensures
        pow10(a) * pow10(b) == pow10(a + b),
    decreases a,
{
    if a == 0 {
        assert(pow10(0) == 1);
        assert(1 * pow10(b) == pow10(b)) by (nonlinear_arith);
    } else {
        lemma_pow10_add((a - 1) as nat, b);
        assert(pow10(a) * pow10(b) == 10 * (pow10((a - 1) as nat) * pow10(b))) by (nonlinear_arith)
            requires
                pow10(a) == 10 * pow10((a - 1) as nat),
        ;
    }
}

/// Decode decimal text: an optional sign, digits, and an optional '.' with
/// fractional digits; at least one digit in all.
pub fn parse_decimal(s: &str) -> (r: Option<DecimalValue>)
    ensures
        r is Some <==> decimal_text_ok(s@),
        r matches Some(v) ==> v == decimal_of_text(s@),
{
    let n = s.unicode_len();
    let neg = n > 0 && s.get_char(0) == '-';
    let signed = n > 0 && (s.get_char(0) == '-' || s.get_char(0) == '+');
    let body: &str = if signed {
        s.substring_char(1, n)
    } else {
        s
    };
    proof {
        if signed {
            assert(s@.subrange(1, n as int) =~= s@.drop_first());
        }
        assert(body@ == signed_body(s@));
    }
    let parts = split_str(body, '.');
    proof {
        crate::text::lemma_split_on_len(body@, '.');
        assert(parts.deep_view()[0] == parts@[0]@);
        if parts.deep_view().len() == 2 {
            assert(parts.deep_view()[1] == parts@[1]@);
        }
    }
    if parts.len() > 2 {
        return None;
    }
    let int_str = &parts[0];
    let int_len = int_str.as_str().unicode_len();
    let units: u64 = if int_len == 0 {
        0u64
    } else {
        proof {
            assert(int_str@.skip(0) =~= int_str@);
        }
        match parse_u64_digits(int_str.as_str(), 0) {
            Some(v) => v,
            None => {
                return None;
            },
        }
    };
    let mut nanos: u32 = 0;
    let mut frac_len: usize = 0;
    if parts.len() == 2 {
        let frac_str = &parts[1];
        frac_len = frac_str.as_str().unicode_len();
        nanos = match parse_frac_nanos(frac_str.as_str()) {
            Some(v) => v,
            None => {
                return None;
            },
        };
    }
    if int_len == 0 && frac_len == 0 {
        return None;
    }
    proof {
        let b = signed_body(s@);
        let sparts = split_on(b, '.');
        if sparts.len() == 1 {
            assert(nanos_of_frac(Seq::<char>::empty()) == 0) by {
                assert(digits_val(Seq::<char>::empty()) == 0);
                assert(0 * pow10(9) == 0) by (nonlinear_arith);
            }
        }
        if int_len == 0 {
            assert(digits_val(Seq::<char>::empty()) == 0);
        }
    }
    Some(DecimalValue { negative: neg, units, nanos })
}

// ---------------------------------------------------------------------------
// 0/1 booleans.
// ---------------------------------------------------------------------------

pub open spec fn bool_text_ok(s: Seq<char>) -> bool {
    u64_text_ok(s) && u64_text_val(s) <= 1
}

pub open spec fn bool_of_text(s: Seq<char>) -> bool {
    u64_text_val(s) == 1
}

/// Decode an integer-coded boolean: 0 is false, 1 is true, all else fails.
pub fn parse_bool01(s: &str) -> (r: Option<bool>)
    ensures
        r is Some <==> bool_text_ok(s@),
        r matches Some(v) ==> v == bool_of_text(s@),
{
    match parse_u64(s) {
        Some(0) => Some(false),
        Some(1) => Some(true),
        _ => None,
    }
}

} // verus!
