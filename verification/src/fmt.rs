//! Formatting of durations and parsing of "YYYY-MM" months; the civil
//! calendar month of a day count.

use vstd::prelude::*;
use crate::text::{decimal, decimal_chars, decimal_padded, decimal_padded_chars, chars_of, sub_chars, string_of, append_chars};

verus! {

/// A duration in seconds as shown to the user: "1h 2m" from an hour on,
/// "3m 45s" from a minute on, "12s" below.
pub open spec fn duration_spec(secs: nat) -> Seq<char> {
    let h = secs / 3600;
    let m = (secs % 3600) / 60;
    let s = secs % 60;
    if h > 0 {
        decimal(h) + "h "@ + decimal(m) + "m"@
    } else if m > 0 {
        decimal(m) + "m "@ + decimal(s) + "s"@
    } else {
        decimal(s) + "s"@
    }
}

/// Formats seconds as "1h 2m", "3m 45s" or "12s".
pub fn duration(secs: u64) -> (r: String)
    ensures
        r@ == duration_spec(secs as nat),
{
    let h = secs / 3600;
    let m = (secs % 3600) / 60;
    let s = secs % 60;
    let mut r = String::new();
    if h > 0 {
        append_chars(&mut r, &decimal_chars(h));
        r.append("h ");
        append_chars(&mut r, &decimal_chars(m));
        r.append("m");
    } else if m > 0 {
        append_chars(&mut r, &decimal_chars(m));
        r.append("m ");
        append_chars(&mut r, &decimal_chars(s));
        r.append("s");
    } else {
        append_chars(&mut r, &decimal_chars(s));
        r.append("s");
    }
    assert(r@ =~= duration_spec(secs as nat));
    r
}

/// An on-time field as shown: "off" when zero, else the duration.
pub open spec fn on_time_spec(secs: nat) -> Seq<char> {
    if secs == 0 { "off"@ } else { duration_spec(secs) }
}

/// Formats an on-time field: "off" when zero, a duration otherwise.
pub fn on_time(secs: u64) -> (r: String)
    ensures
        r@ == on_time_spec(secs as nat),
{
    if secs == 0 {
        String::from_str("off")
    } else {
        duration(secs)
    }
}

/// Why parsing an unsigned decimal integer failed (std's `IntErrorKind`).
#[derive(Debug, Clone, Copy, PartialEq, Eq, Structural)]
pub enum IntErrorKind {
    Empty,
    InvalidDigit,
    PosOverflow,
}

/// std's message for an integer parse failure.
pub open spec fn int_error_message(k: IntErrorKind) -> Seq<char> {
    match k {
        IntErrorKind::Empty => "cannot parse integer from empty string"@,
        IntErrorKind::InvalidDigit => "invalid digit found in string"@,
        IntErrorKind::PosOverflow => "number too large to fit in target type"@,
    }
}

/// The value of the digit character `c`, if it is an ASCII digit.
pub open spec fn digit_value(c: char) -> Option<nat> {
    if '0' <= c && c <= '9' { Some(((c as u32) - 48) as nat) } else { None }
}

/// Reads the digits `d` on top of the value `acc`, left to right, as std
/// does: the first non-digit is an invalid digit, the first value above
/// `max` an overflow.
pub open spec fn parse_digits(d: Seq<char>, acc: nat, max: nat) -> Result<nat, IntErrorKind>
    decreases d.len(),
{
    if d.len() == 0 {
        Ok(acc)
    } else {
        match digit_value(d[0]) {
            None => Err(IntErrorKind::InvalidDigit),
            Some(v) => if acc * 10 + v > max {
                Err(IntErrorKind::PosOverflow)
            } else {
                parse_digits(d.drop_first(), acc * 10 + v, max)
            },
        }
    }
}

/// std's parse of an unsigned integer no greater than `max`: an optional
/// '+' and at least one decimal digit.
pub open spec fn parse_uint(s: Seq<char>, max: nat) -> Result<nat, IntErrorKind> {
    if s.len() == 0 {
        Err(IntErrorKind::Empty)
    } else {
        let d = if s[0] == '+' { s.drop_first() } else { s };
        if d.len() == 0 {
            Err(IntErrorKind::InvalidDigit)
        } else {
            parse_digits(d, 0, max)
        }
    }
}

/// Parses an unsigned decimal integer no greater than `max`.
pub fn parse_uint_exec(s: &[char], max: u64) -> (r: Result<u64, IntErrorKind>)
    ensures
        r matches Ok(v) ==> v <= max,
        match (r, parse_uint(s@, max as nat)) {
            (Ok(v), Ok(w)) => v == w,
            (Err(a), Err(b)) => a == b,
            _ => false,
        },
{
    if s.len() == 0 {
        return Err(IntErrorKind::Empty);
    }
    let start: usize = if s[0] == '+' { 1 } else { 0 };
    if start == s.len() {
        return Err(IntErrorKind::InvalidDigit);
    }
    let ghost d = if s@[0] == '+' { s@.drop_first() } else { s@ };
    assert(d =~= s@.subrange(start as int, s@.len() as int));
    let mut acc: u64 = 0;
    let mut i: usize = start;
    while i < s.len()
        invariant
            start <= i <= s@.len(),
            acc <= max,
            parse_uint(s@, max as nat) == parse_digits(s@.subrange(i as int, s@.len() as int), acc as nat, max as nat),
        decreases s@.len() - i,
    {
        let ghost rest = s@.subrange(i as int, s@.len() as int);
        assert(rest[0] == s@[i as int]);
        assert(rest.drop_first() =~= s@.subrange(i + 1, s@.len() as int));
        let c = s[i];
        if !('0' <= c && c <= '9') {
            return Err(IntErrorKind::InvalidDigit);
        }
        let v: u64 = (c as u32 - 48) as u64;
        if v > max {
            return Err(IntErrorKind::PosOverflow);
        }
        if acc > (max - v) / 10 {
            assert(acc * 10 + v > max) by (nonlinear_arith)
                requires acc > (max - v) / 10, v <= 9, v <= max;
            return Err(IntErrorKind::PosOverflow);
        }
        assert(acc * 10 + v <= max) by (nonlinear_arith)
            requires acc <= (max - v) / 10, v <= max;
        acc = acc * 10 + v;
        i = i + 1;
    }
    assert(s@.subrange(s@.len() as int, s@.len() as int) =~= Seq::<char>::empty());
    Ok(acc)
}

/// Number of '-' characters in `s`.
pub open spec fn dash_count(s: Seq<char>) -> nat
    decreases s.len(),
{
    if s.len() == 0 {
        0
    } else {
        (if s.last() == '-' { 1nat } else { 0nat }) + dash_count(s.drop_last())
    }
}

/// Index of the first '-' in `s` (its length when there is none).
pub open spec fn first_dash(s: Seq<char>) -> int
    decreases s.len(),
{
    if s.len() == 0 {
        0
    } else if s[0] == '-' {
        0
    } else {
        1 + first_dash(s.drop_first())
    }
}

/// Why a "YYYY-MM" month was refused.
#[derive(Debug, Clone, Copy, PartialEq, Eq, Structural)]
pub enum MonthError {
    /// Not exactly two parts separated by '-'.
    Format,
    /// The year is not an integer in 0..=65535.
    Year(IntErrorKind),
    /// The month is not an integer in 0..=255.
    Month(IntErrorKind),
    /// The month is outside 1..=12.
    OutOfRange(u8),
}

/// The message of a month error, as shown to the user.
pub open spec fn month_error_message(e: MonthError) -> Seq<char> {
    match e {
        MonthError::Format => "Month must be in YYYY-MM format"@,
        MonthError::Year(k) => int_error_message(k),
        MonthError::Month(k) => int_error_message(k),
        MonthError::OutOfRange(m) => "Month must be 01\u{2013}12, got "@ + decimal_padded(m as nat, 2),
    }
}

impl MonthError {
    /// The error message shown to the user.
    pub fn message(&self) -> (m: String)
        ensures
            m@ == month_error_message(*self),
    {
        match self {
            MonthError::Format => String::from_str("Month must be in YYYY-MM format"),
            MonthError::Year(k) => int_error_text(*k),
            MonthError::Month(k) => int_error_text(*k),
            MonthError::OutOfRange(m) => {
                let mut s = String::from_str("Month must be 01\u{2013}12, got ");
                append_chars(&mut s, &decimal_padded_chars(*m as u64, 2));
                s
            },
        }
    }
}

/// std's message for an integer parse failure.
pub fn int_error_text(k: IntErrorKind) -> (m: String)
    ensures
        m@ == int_error_message(k),
{
    match k {
        IntErrorKind::Empty => String::from_str("cannot parse integer from empty string"),
        IntErrorKind::InvalidDigit => String::from_str("invalid digit found in string"),
        IntErrorKind::PosOverflow => String::from_str("number too large to fit in target type"),
    }
}

/// The outcome of parsing "YYYY-MM": exactly one '-', a year that fits in
/// 16 bits, a month that fits in 8 bits and lies in 1..=12.
pub open spec fn parse_year_month_spec(s: Seq<char>) -> Result<(nat, nat), MonthError> {
    if dash_count(s) != 1 {
        Err(MonthError::Format)
    } else {
        let p = first_dash(s);
        match parse_uint(s.subrange(0, p), 65535) {
            Err(k) => Err(MonthError::Year(k)),
            Ok(y) => match parse_uint(s.subrange(p + 1, s.len() as int), 255) {
                Err(k) => Err(MonthError::Month(k)),
                Ok(m) => if 1 <= m && m <= 12 {
                    Ok((y, m))
                } else {
                    Err(MonthError::OutOfRange(m as u8))
                },
            },
        }
    }
}

proof fn lemma_first_dash_bound(s: Seq<char>)
    ensures
        0 <= first_dash(s) <= s.len(),
        first_dash(s) < s.len() ==> s[first_dash(s)] == '-',
        forall|i: int| 0 <= i < first_dash(s) ==> s[i] != '-',
    decreases s.len(),
{
    if s.len() > 0 && s[0] != '-' {
        lemma_first_dash_bound(s.drop_first());
        assert forall|i: int| 0 <= i < first_dash(s) implies s[i] != '-' by {
            if i > 0 {
                assert(s[i] == s.drop_first()[i - 1]);
            }
        }
    }
}

/// Parses "YYYY-MM", checking that the month is 1..=12.
pub fn parse_year_month(s: &str) -> (r: Result<(u16, u8), MonthError>)
    ensures
        match (r, parse_year_month_spec(s@)) {
            (Ok((y, m)), Ok((ys, ms))) => y == ys && m == ms,
            (Err(a), Err(b)) => a == b,
            _ => false,
        },
{
    let cs = chars_of(s);
    let mut count: usize = 0;
    let mut first: usize = cs.len();
    let mut i: usize = 0;
    while i < cs.len()
        invariant
            cs@ == s@,
            i <= cs@.len(),
            count == dash_count(cs@.take(i as int)),
            count <= i,
            first == cs@.len() ==> forall|j: int| 0 <= j < i ==> cs@[j] != '-',
            first < cs@.len() ==> first < i && cs@[first as int] == '-' && forall|j: int| 0 <= j < first ==> cs@[j] != '-',
            first <= cs@.len(),
        decreases cs@.len() - i,
    {
        assert(cs@.take(i + 1).drop_last() =~= cs@.take(i as int));
        if cs[i] == '-' {
            if first == cs.len() {
                first = i;
            }
            count = count + 1;
        }
        i = i + 1;
    }
    assert(cs@.take(cs@.len() as int) =~= cs@);
    if count != 1 {
        return Err(MonthError::Format);
    }
    proof {
        lemma_first_dash_bound(cs@);
        if first == cs@.len() {
            assert(dash_count(cs@) == 0) by {
                lemma_no_dash(cs@);
            }
        }
        assert(first_dash(cs@) == first as int);
    }
    let ys = sub_chars(&cs, 0, first);
    let ms = sub_chars(&cs, first + 1, cs.len());
    let y = match parse_uint_exec(&ys, 65535) {
        Ok(v) => v,
        Err(k) => return Err(MonthError::Year(k)),
    };
    let m = match parse_uint_exec(&ms, 255) {
        Ok(v) => v,
        Err(k) => return Err(MonthError::Month(k)),
    };
    if 1 <= m && m <= 12 {
        Ok((y as u16, m as u8))
    } else {
        Err(MonthError::OutOfRange(m as u8))
    }
}

proof fn lemma_no_dash(s: Seq<char>)
    requires
        forall|j: int| 0 <= j < s.len() ==> s[j] != '-',
    ensures
        dash_count(s) == 0,
    decreases s.len(),
{
    if s.len() > 0 {
        lemma_no_dash(s.drop_last());
    }
}

/// Year and month (1..=12) of the civil (proleptic Gregorian) calendar
/// date that lies `days` days after 1970-01-01, by Howard Hinnant's
/// days-to-civil algorithm: eras of 400 years (146097 days) counted from
/// 0000-03-01, years that begin in March.
pub open spec fn civil_year_month(days: int) -> (int, int) {
    let z = days + 719468;
    let era = z / 146097;
    let doe = z - era * 146097;
    let yoe = (doe - doe / 1460 + doe / 36524 - doe / 146096) / 365;
    let y = yoe + era * 400;
    let doy = doe - (365 * yoe + yoe / 4 - yoe / 100);
    let mp = (5 * doy + 2) / 153;
    let m = if mp < 10 { mp + 3 } else { mp - 9 };
    (if m <= 2 { y + 1 } else { y }, m)
}

proof fn lemma_civil_month_range(days: int)
    ensures
        1 <= civil_year_month(days).1 <= 12,
{
    let z = days + 719468;
    let era = z / 146097;
    let doe = z - era * 146097;
    assert(0 <= doe < 146097) by (nonlinear_arith)
        requires era == z / 146097, doe == z - era * 146097;
    let yoe = (doe - doe / 1460 + doe / 36524 - doe / 146096) / 365;
    assert(0 <= yoe <= 399) by (nonlinear_arith)
        requires 0 <= doe < 146097, yoe == (doe - doe / 1460 + doe / 36524 - doe / 146096) / 365;
    let doy = doe - (365 * yoe + yoe / 4 - yoe / 100);
    assert(0 <= doy <= 365) by (nonlinear_arith)
        requires 0 <= doe < 146097, 0 <= yoe <= 399,
            yoe == (doe - doe / 1460 + doe / 36524 - doe / 146096) / 365,
            doy == doe - (365 * yoe + yoe / 4 - yoe / 100);
    let mp = (5 * doy + 2) / 153;
    assert(0 <= mp <= 11);
}

// ── The Gregorian calendar ───────────────────────────────────────────────────

/// Whether `y` is a leap year of the Gregorian calendar.
pub open spec fn is_leap_year(y: int) -> bool {
    y % 4 == 0 && (y % 100 != 0 || y % 400 == 0)
}

/// The number of days of year `y`.
pub open spec fn year_length(y: int) -> int {
    if is_leap_year(y) { 366 } else { 365 }
}

/// The number of days of month `m` (1 = January) of year `y`.
pub open spec fn month_length(y: int, m: int) -> int {
    if m == 2 {
        if is_leap_year(y) { 29 } else { 28 }
    } else if m == 4 || m == 6 || m == 9 || m == 11 {
        30
    } else {
        31
    }
}

/// The days of year `y` before the first of month `m`.
pub open spec fn days_before_month(y: int, m: int) -> int
    decreases m,
{
    if m <= 1 { 0 } else { days_before_month(y, m - 1) + month_length(y, m - 1) }
}

/// The days from 1970-01-01 to the first of January of year `y` (negative
/// before 1970).
pub open spec fn days_before_year(y: int) -> int
    decreases (if y >= 1970 { y - 1970 } else { 1970 - y }),
{
    if y == 1970 {
        0
    } else if y > 1970 {
        days_before_year(y - 1) + year_length(y - 1)
    } else {
        days_before_year(y + 1) - year_length(y)
    }
}

/// The days from 1970-01-01 to the first of month `m` of year `y`.
pub open spec fn first_of_month(y: int, m: int) -> int {
    days_before_year(y) + days_before_month(y, m)
}

/// Leap years among 1..=x (counted negatively below 1).
spec fn leap_count(x: int) -> int {
    x / 4 - x / 100 + x / 400
}

/// Days from the first of March to the first of month `m`.
spec fn march_offset(m: int) -> int {
    (153 * (if m > 2 { m - 3 } else { m + 9 }) + 2) / 5
}

proof fn lemma_leap_count_step(x: int)
    ensures
        leap_count(x) - leap_count(x - 1) == (if is_leap_year(x) { 1int } else { 0int }),
{
    assert(x / 4 - (x - 1) / 4 == (if x % 4 == 0 { 1int } else { 0int })) by (nonlinear_arith);
    assert(x / 100 - (x - 1) / 100 == (if x % 100 == 0 { 1int } else { 0int })) by (nonlinear_arith);
    assert(x / 400 - (x - 1) / 400 == (if x % 400 == 0 { 1int } else { 0int })) by (nonlinear_arith);
    assert(x % 400 == 0 ==> x % 100 == 0 && x % 4 == 0) by (nonlinear_arith);
    assert(x % 100 == 0 ==> x % 4 == 0) by (nonlinear_arith);
}

proof fn lemma_days_before_year(y: int)
    ensures
        days_before_year(y) == 365 * (y - 1970) + leap_count(y - 1) - 477,
    decreases (if y >= 1970 { y - 1970 } else { 1970 - y }),
{
    if y > 1970 {
        lemma_days_before_year(y - 1);
        lemma_leap_count_step(y - 1);
    } else if y < 1970 {
        lemma_days_before_year(y + 1);
        lemma_leap_count_step(y);
    } else {
        assert(leap_count(1969) == 477);
    }
}

proof fn lemma_days_before_month(y: int, m: int)
    requires
        1 <= m <= 12,
    ensures
        days_before_month(y, m) == (if m > 2 {
            march_offset(m) + 59 + (if is_leap_year(y) { 1int } else { 0int })
        } else {
            march_offset(m) - 306
        }),
{
    reveal_with_fuel(days_before_month, 13);
}

/// The first of a month, counted the way `civil_year_month` counts: in
/// 400-year eras starting on the first of March.
proof fn lemma_first_of_month(y: int, m: int)
    requires
        1 <= m <= 12,
    ensures
        ({
            let yp = if m <= 2 { y - 1 } else { y };
            let e = yp / 400;
            let k = yp - e * 400;
            first_of_month(y, m) == 146097 * e + 365 * k + k / 4 - k / 100 + march_offset(m) - 719468
        }),
{
    let yp = if m <= 2 { y - 1 } else { y };
    let e = yp / 400;
    let k = yp - e * 400;
    lemma_days_before_year(y);
    lemma_days_before_month(y, m);
    lemma_leap_count_step(y);
    assert(0 <= k < 400 && yp == 400 * e + k) by (nonlinear_arith)
        requires e == yp / 400, k == yp - e * 400;
    assert(leap_count(yp) == 97 * e + k / 4 - k / 100) by (nonlinear_arith)
        requires yp == 400 * e + k, 0 <= k < 400;
}

proof fn lemma_leap_in_era(e: int, j: int)
    ensures
        is_leap_year(400 * e + j) == is_leap_year(j),
{
    assert((400 * e + j) % 4 == j % 4) by (nonlinear_arith);
    assert((400 * e + j) % 100 == j % 100) by (nonlinear_arith);
    assert((400 * e + j) % 400 == j % 400) by (nonlinear_arith);
}

/// The year and month that `civil_year_month` gives for the day `days`
/// days after 1970-01-01 are those of the Gregorian calendar: the day lies
/// in that month, between its first day and the first day of the next.
pub proof fn law_civil_month_holds_day(days: int)
    ensures
        ({
            let (y, m) = civil_year_month(days);
            &&& 1 <= m <= 12
            &&& first_of_month(y, m) <= days < first_of_month(y, m) + month_length(y, m)
        }),
{
    let z = days + 719468;
    let era = z / 146097;
    let doe = z - era * 146097;
    assert(0 <= doe < 146097) by (nonlinear_arith)
        requires era == z / 146097, doe == z - era * 146097;
    let k = (doe - doe / 1460 + doe / 36524 - doe / 146096) / 365;
    let doy = doe - (365 * k + k / 4 - k / 100);
    assert(0 <= k <= 399 && 0 <= doy
        && doy < 365 + (if (k + 1) % 4 == 0 && ((k + 1) % 100 != 0 || k == 399) { 1int } else { 0int })) by (nonlinear_arith)
        requires 0 <= doe < 146097, k == (doe - doe / 1460 + doe / 36524 - doe / 146096) / 365,
            doy == doe - (365 * k + k / 4 - k / 100);
    let y0 = k + era * 400;
    let mp = (5 * doy + 2) / 153;
    let m = if mp < 10 { mp + 3 } else { mp - 9 };
    let y = if m <= 2 { y0 + 1 } else { y0 };
    assert(civil_year_month(days) == (y, m));
    assert(0 <= mp <= 11);
    let yp = if m <= 2 { y - 1 } else { y };
    assert(yp == y0);
    assert(yp / 400 == era && yp - (yp / 400) * 400 == k) by (nonlinear_arith)
        requires yp == k + era * 400, 0 <= k <= 399;
    lemma_first_of_month(y, m);
    assert(march_offset(m) == (153 * mp + 2) / 5);
    assert(first_of_month(y, m) == days - doy + (153 * mp + 2) / 5);
    lemma_leap_in_era(era, k + 1);
    assert(is_leap_year(k + 1) == ((k + 1) % 4 == 0 && ((k + 1) % 100 != 0 || k == 399)));
    if mp == 11 {
        assert(y == era * 400 + k + 1);
        assert(400 * era + (k + 1) == y);
    }
}

/// A clock reading from 2024-01-01 00:00 UTC on (`secs` seconds after the
/// Unix epoch) falls in a year no earlier than 2024.
pub proof fn law_year_from_2024(secs: int)
    requires
        secs >= 1704067200,
    ensures
        civil_year_month(secs / 86400).0 >= 2024,
{
    let days = secs / 86400;
    assert(days >= 19723);
    let z = days + 719468;
    let era = z / 146097;
    let doe = z - era * 146097;
    assert(0 <= doe < 146097) by (nonlinear_arith)
        requires era == z / 146097, doe == z - era * 146097;
    assert(era >= 5) by (nonlinear_arith)
        requires era == z / 146097, z >= 739191;
    let yoe = (doe - doe / 1460 + doe / 36524 - doe / 146096) / 365;
    assert(0 <= yoe <= 399) by (nonlinear_arith)
        requires 0 <= doe < 146097, yoe == (doe - doe / 1460 + doe / 36524 - doe / 146096) / 365;
    let y = yoe + era * 400;
    let doy = doe - (365 * yoe + yoe / 4 - yoe / 100);
    assert(0 <= doy <= 365) by (nonlinear_arith)
        requires 0 <= doe < 146097, 0 <= yoe <= 399,
            yoe == (doe - doe / 1460 + doe / 36524 - doe / 146096) / 365,
            doy == doe - (365 * yoe + yoe / 4 - yoe / 100);
    if era == 5 {
        assert(doe >= 8706);
        assert(yoe >= 23) by (nonlinear_arith)
            requires 8706 <= doe < 146097, yoe == (doe - doe / 1460 + doe / 36524 - doe / 146096) / 365;
        if yoe == 23 {
            assert(doy >= 306);
            let mp = (5 * doy + 2) / 153;
            assert(10 <= mp <= 11);
        }
    }
}

/// Year and month of the day `days` days after 1970-01-01.
pub fn year_month_from_days(days: i64) -> (r: (u16, u8))
    requires
        days <= i64::MAX - 719468,
    ensures
        r.0 == civil_year_month(days as int).0 as u16,
        r.1 == civil_year_month(days as int).1,
        1 <= r.1 <= 12,
{
    proof {
        lemma_civil_month_range(days as int);
    }
    let z: i64 = days + 719_468;
    let w: i64 = if z >= 0 { z } else { z - 146_096 };
    let era: i64 = w / 146_097;
    assert(era == (z as int) / 146097) by (nonlinear_arith)
        requires
            w == (if z >= 0 { z as int } else { z - 146096 }),
            z >= 0 ==> era * 146097 <= w < era * 146097 + 146097,
            z < 0 ==> era * 146097 >= w && era * 146097 < w + 146097,
    {
    }
    let doe: i64 = z - era * 146_097;
    assert(0 <= doe < 146097) by (nonlinear_arith)
        requires era == (z as int) / 146097, doe == z - era * 146097;
    let yoe: i64 = (doe - doe / 1460 + doe / 36_524 - doe / 146_096) / 365;
    let y: i64 = yoe + era * 400;
    let doy: i64 = doe - (365 * yoe + yoe / 4 - yoe / 100);
    let mp: i64 = (5 * doy + 2) / 153;
    let m: i64 = if mp < 10 { mp + 3 } else { mp - 9 };
    let year: i64 = if m <= 2 { y + 1 } else { y };
    (year as u16, m as u8)
}

/// Seconds since the Unix epoch by the system clock (std's `SystemTime`);
/// zero when the clock is set before the epoch.
#[verifier::external_body]
fn unix_seconds_now() -> u64 {
    std::time::SystemTime::now().duration_since(std::time::UNIX_EPOCH).map_or(0, |d| d.as_secs())
}

/// Year and month of today's date by the system clock: the civil year and
/// month of some instant, whole days after the epoch, that the clock gave.
pub fn current_year_month() -> (r: (u16, u8))
    ensures
        exists|secs: u64| #![trigger civil_year_month((secs / 86400) as int)]
            r.0 == civil_year_month((secs / 86400) as int).0 as u16
                && r.1 == civil_year_month((secs / 86400) as int).1,
        1 <= r.1 <= 12,
{
    let secs = unix_seconds_now();
    let days: u64 = secs / 86400;
    let r = year_month_from_days(days as i64);
    assert(r.1 == civil_year_month((secs / 86400) as int).1);
    r
}

} // verus!
