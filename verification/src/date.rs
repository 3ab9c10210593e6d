//! Calendar dates in `YYYY-MM-DD` form, as plain year, month and day
//! numbers with the Gregorian validity rules.
use vstd::prelude::*;

verus! {

use vstd::string::StrSliceExecFns;
use crate::id::is_digit;
use crate::id::digit_val;
use crate::id::char_digit;

/// A calendar date. A value is meaningful only when `valid_date` holds
/// of it: the constructors below return no other.
#[derive(Clone, Copy, Debug, PartialEq, Eq, Structural)]
pub struct DateYmd {
    pub year: u32,
    pub month: u8,
    pub day: u8,
}

pub open spec fn is_leap_year(y: nat) -> bool {
    y % 4 == 0 && (y % 100 != 0 || y % 400 == 0)
}

pub open spec fn days_in_month(y: nat, m: nat) -> nat {
    if m == 1 || m == 3 || m == 5 || m == 7 || m == 8 || m == 10 || m == 12 {
        31
    } else if m == 4 || m == 6 || m == 9 || m == 11 {
        30
    } else if is_leap_year(y) {
        29
    } else {
        28
    }
}

pub open spec fn valid_date(d: DateYmd) -> bool {
    &&& d.year <= 9999
    &&& 1 <= d.month <= 12
    &&& 1 <= d.day <= days_in_month(d.year as nat, d.month as nat)
}

/// What parsing a date text yields: exactly ten characters shaped
/// `YYYY-MM-DD`, naming a valid calendar date.
pub open spec fn spec_parse_date(s: Seq<char>) -> Option<DateYmd> {
    if s.len() == 10 && is_digit(s[0]) && is_digit(s[1]) && is_digit(s[2]) && is_digit(s[3]) && s[4]
        == '-' && is_digit(s[5]) && is_digit(s[6]) && s[7] == '-' && is_digit(s[8]) && is_digit(
        s[9],
    ) {
        let y = digit_val(s[0]) * 1000 + digit_val(s[1]) * 100 + digit_val(s[2]) * 10 + digit_val(
            s[3],
        );
        let m = digit_val(s[5]) * 10 + digit_val(s[6]);
        let d = digit_val(s[8]) * 10 + digit_val(s[9]);
        let date = DateYmd { year: y as u32, month: m as u8, day: d as u8 };
        if valid_date(date) {
            Some(date)
        } else {
            None
        }
    } else {
        None
    }
}

fn leap_year(y: u32) -> (r: bool)
    ensures
        r == is_leap_year(y as nat),
{
    y % 4 == 0 && (y % 100 != 0 || y % 400 == 0)
}

/// Parses a `YYYY-MM-DD` date text, rejecting any other shape and any
/// day outside the month's length.
pub fn parse_date(s: &str) -> (r: Option<DateYmd>)
    ensures
        r == spec_parse_date(s@),
{
    if s.unicode_len() != 10 {
        return None;
    }
    let y0 = match char_digit(s.get_char(0)) {
        Some(d) => d,
        None => {
            return None;
        },
    };
    let y1 = match char_digit(s.get_char(1)) {
        Some(d) => d,
        None => {
            return None;
        },
    };
    let y2 = match char_digit(s.get_char(2)) {
        Some(d) => d,
        None => {
            return None;
        },
    };
    let y3 = match char_digit(s.get_char(3)) {
        Some(d) => d,
        None => {
            return None;
        },
    };
    if s.get_char(4) != '-' {
        return None;
    }
    let m0 = match char_digit(s.get_char(5)) {
        Some(d) => d,
        None => {
            return None;
        },
    };
    let m1 = match char_digit(s.get_char(6)) {
        Some(d) => d,
        None => {
            return None;
        },
    };
    if s.get_char(7) != '-' {
        return None;
    }
    let d0 = match char_digit(s.get_char(8)) {
        Some(d) => d,
        None => {
            return None;
        },
    };
    let d1 = match char_digit(s.get_char(9)) {
        Some(d) => d,
        None => {
            return None;
        },
    };
    let y: u32 = (y0 * 1000 + y1 * 100 + y2 * 10 + y3) as u32;
    let m: u8 = (m0 * 10 + m1) as u8;
    let d: u8 = (d0 * 10 + d1) as u8;
    let date = DateYmd { year: y, month: m, day: d };
    let dim: u8 = if m == 1 || m == 3 || m == 5 || m == 7 || m == 8 || m == 10 || m == 12 {
        31
    } else if m == 4 || m == 6 || m == 9 || m == 11 {
        30
    } else if leap_year(y) {
        29
    } else {
        28
    };
    if 1 <= m && m <= 12 && 1 <= d && d <= dim {
        Some(date)
    } else {
        None
    }
}

} // verus!
