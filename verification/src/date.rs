use vstd::prelude::*;

verus! {

/// A calendar date, held as plain year, month and day numbers.
#[derive(Debug, Clone, Copy, PartialEq, Eq, Structural)]
pub struct DateYmd {
    pub year: u32,
    pub month: u32,
    pub day: u32,
}

/// Leap years of the Gregorian calendar.
pub open spec fn spec_is_leap_year(y: int) -> bool {
    y % 4 == 0 && (y % 100 != 0 || y % 400 == 0)
}

/// Number of days of month `m` in year `y`.
pub open spec fn spec_days_in_month(y: int, m: int) -> int {
    if m == 2 {
        if spec_is_leap_year(y) {
            29
        } else {
            28
        }
    } else if m == 4 || m == 6 || m == 9 || m == 11 {
        30
    } else {
        31
    }
}

/// A real calendar date with a four-digit year.
pub open spec fn spec_valid_date(y: int, m: int, d: int) -> bool {
    &&& 0 <= y <= 9999
    &&& 1 <= m <= 12
    &&& 1 <= d <= spec_days_in_month(y, m)
}

pub open spec fn spec_is_digit(c: char) -> bool {
    '0' <= c && c <= '9'
}

pub open spec fn spec_digit_val(c: char) -> int {
    c as int - '0' as int
}

/// The shape of an ISO date string: `YYYY-MM-DD`, digits and dashes only.
pub open spec fn spec_date_format_ok(s: Seq<char>) -> bool {
    &&& s.len() == 10
    &&& spec_is_digit(s[0])
    &&& spec_is_digit(s[1])
    &&& spec_is_digit(s[2])
    &&& spec_is_digit(s[3])
    &&& s[4] == '-'
    &&& spec_is_digit(s[5])
    &&& spec_is_digit(s[6])
    &&& s[7] == '-'
    &&& spec_is_digit(s[8])
    &&& spec_is_digit(s[9])
}

pub open spec fn spec_year_of(s: Seq<char>) -> int {
    spec_digit_val(s[0]) * 1000 + spec_digit_val(s[1]) * 100 + spec_digit_val(s[2]) * 10
        + spec_digit_val(s[3])
}

pub open spec fn spec_month_of(s: Seq<char>) -> int {
    spec_digit_val(s[5]) * 10 + spec_digit_val(s[6])
}

pub open spec fn spec_day_of(s: Seq<char>) -> int {
    spec_digit_val(s[8]) * 10 + spec_digit_val(s[9])
}

/// What parsing a date string yields: the date, when the string is an ISO
/// `YYYY-MM-DD` naming a real calendar date; nothing otherwise.
pub open spec fn spec_parse_date(s: Seq<char>) -> Option<DateYmd> {
    if spec_date_format_ok(s) && spec_valid_date(spec_year_of(s), spec_month_of(s), spec_day_of(s)) {
        Some(
            DateYmd {
                year: spec_year_of(s) as u32,
                month: spec_month_of(s) as u32,
                day: spec_day_of(s) as u32,
            },
        )
    } else {
        None
    }
}

fn days_in_month(y: u32, m: u32) -> (r: u32)
    requires
        1 <= m <= 12,
    ensures
        r == spec_days_in_month(y as int, m as int),
{
    if m == 2 {
        if y % 4 == 0 && (y % 100 != 0 || y % 400 == 0) {
            29
        } else {
            28
        }
    } else if m == 4 || m == 6 || m == 9 || m == 11 {
        30
    } else {
        31
    }
}

fn digit_of(c: char) -> (r: Option<u32>)
    ensures
        spec_is_digit(c) <==> r is Some,
        r matches Some(v) ==> v == spec_digit_val(c) && v <= 9,
{
    if c >= '0' && c <= '9' {
        Some(c as u32 - 48)
    } else {
        None
    }
}

/// Parse and validate an ISO `YYYY-MM-DD` date. Returns the date exactly when
/// the string has that shape and names a real calendar date.
pub fn parse_date(s: &str) -> (r: Option<DateYmd>)
    ensures
        r == spec_parse_date(s@),
{
    if s.unicode_len() != 10 {
        return None;
    }
    if s.get_char(4) != '-' || s.get_char(7) != '-' {
        return None;
    }
    let d0 = digit_of(s.get_char(0));
    let d1 = digit_of(s.get_char(1));
    let d2 = digit_of(s.get_char(2));
    let d3 = digit_of(s.get_char(3));
    let m0 = digit_of(s.get_char(5));
    let m1 = digit_of(s.get_char(6));
    let a0 = digit_of(s.get_char(8));
    let a1 = digit_of(s.get_char(9));
    match (d0, d1, d2, d3, m0, m1, a0, a1) {
        (
            Some(d0),
            Some(d1),
            Some(d2),
            Some(d3),
            Some(m0),
            Some(m1),
            Some(a0),
            Some(a1),
        ) => {
            let year: u32 = d0 * 1000 + d1 * 100 + d2 * 10 + d3;
            let month: u32 = m0 * 10 + m1;
            let day: u32 = a0 * 10 + a1;
            if 1 <= month && month <= 12 && 1 <= day && day <= days_in_month(year, month) {
                Some(DateYmd { year, month, day })
            } else {
                None
            }
        },
        _ => None,
    }
}

/// Whether date `a` is on or before date `b`.
pub open spec fn spec_date_le(a: DateYmd, b: DateYmd) -> bool {
    if a.year != b.year {
        a.year < b.year
    } else if a.month != b.month {
        a.month < b.month
    } else {
        a.day <= b.day
    }
}

/// Compare two dates chronologically.
pub fn date_le(a: &DateYmd, b: &DateYmd) -> (r: bool)
    ensures
        r == spec_date_le(*a, *b),
{
    if a.year != b.year {
        a.year < b.year
    } else if a.month != b.month {
        a.month < b.month
    } else {
        a.day <= b.day
    }
}

/// `spec_date_le` is a total order on dates.
pub proof fn lemma_date_le_total(a: DateYmd, b: DateYmd, c: DateYmd)
    ensures
        spec_date_le(a, a),
        spec_date_le(a, b) || spec_date_le(b, a),
        spec_date_le(a, b) && spec_date_le(b, c) ==> spec_date_le(a, c),
        spec_date_le(a, b) && spec_date_le(b, a) ==> a == b,
{
}

} // verus!
