//! Calendar dates for payment effective dates.
//!
//! Providers ship dates in two wire shapes: ISO-8601 datetimes
//! (`2024-03-01T12:34:56Z`) on the donation API, and a 12-hour export format
//! (`2024-03-01 1:05 PM`) in the CSV download. Only the calendar date is
//! retained: a payment's `effective_on` is the date as written by the
//! provider, with no time-zone conversion.

use vstd::prelude::*;

use crate::amount::{all_digits, digits_val};

verus! {

/// A calendar date in the proleptic Gregorian calendar, years 0 through 9999.
#[derive(Clone, Copy, PartialEq, Eq, Structural, Debug)]
pub struct Date {
    pub year: i32,
    pub month: u8,
    pub day: u8,
}

pub open spec fn is_leap_year(y: int) -> bool {
    y % 4 == 0 && (y % 100 != 0 || y % 400 == 0)
}

pub open spec fn days_in_month(y: int, m: int) -> int {
    if m == 2 {
        if is_leap_year(y) {
            29
        } else {
            28
        }
    } else if m == 4 || m == 6 || m == 9 || m == 11 {
        30
    } else {
        31
    }
}

pub open spec fn date_fields_valid(y: int, m: int, d: int) -> bool {
    0 <= y <= 9999 && 1 <= m <= 12 && 1 <= d <= days_in_month(y, m)
}

impl Date {
    pub open spec fn valid(self) -> bool {
        date_fields_valid(self.year as int, self.month as int, self.day as int)
    }

    /// Builds a date after checking calendar validity.
    pub fn new(year: i32, month: u8, day: u8) -> (r: Option<Date>)
        ensures
            match r {
                Some(d) => d.valid() && d.year == year && d.month == month && d.day == day,
                None => !date_fields_valid(year as int, month as int, day as int),
            },
    {
        if 0 <= year && year <= 9999 && 1 <= month && month <= 12 && 1 <= day && day as u64
            <= days_in_month_exec(year, month) {
            Some(Date { year, month, day })
        } else {
            None
        }
    }
}

pub fn is_leap_year_exec(y: i32) -> (r: bool)
    requires
        y >= 0,
    ensures
        r == is_leap_year(y as int),
{
    y % 4 == 0 && (y % 100 != 0 || y % 400 == 0)
}

pub fn days_in_month_exec(y: i32, m: u8) -> (r: u64)
    requires
        y >= 0,
    ensures
        r as int == days_in_month(y as int, m as int),
{
    if m == 2 {
        if is_leap_year_exec(y) {
            29
        } else {
            28
        }
    } else if m == 4 || m == 6 || m == 9 || m == 11 {
        30
    } else {
        31
    }
}

/// True when `s` starts with `YYYY-MM-DD` whose fields form a valid date.
pub open spec fn ymd_prefix_ok(s: Seq<u8>) -> bool {
    &&& s.len() >= 10
    &&& all_digits(s.subrange(0, 4))
    &&& s[4] == 45
    &&& all_digits(s.subrange(5, 7))
    &&& s[7] == 45
    &&& all_digits(s.subrange(8, 10))
    &&& date_fields_valid(ymd_year(s), ymd_month(s), ymd_day(s))
}

pub open spec fn ymd_year(s: Seq<u8>) -> int {
    digits_val(s.subrange(0, 4))
}

pub open spec fn ymd_month(s: Seq<u8>) -> int {
    digits_val(s.subrange(5, 7))
}

pub open spec fn ymd_day(s: Seq<u8>) -> int {
    digits_val(s.subrange(8, 10))
}

pub open spec fn spec_date_of(s: Seq<u8>) -> Date {
    Date { year: ymd_year(s) as i32, month: ymd_month(s) as u8, day: ymd_day(s) as u8 }
}

/// Reads a leading `YYYY-MM-DD`, checking calendar validity.
fn parse_ymd_prefix(s: &[u8]) -> (r: Option<Date>)
    ensures
        match r {
            Some(d) => ymd_prefix_ok(s@) && d == spec_date_of(s@) && d.valid(),
            None => !ymd_prefix_ok(s@),
        },
{
    if s.len() < 10 {
        return None;
    }
    if !(crate::amount::check_digits(s, 0, 4) && s[4] == 45 && crate::amount::check_digits(s, 5, 7)
        && s[7] == 45 && crate::amount::check_digits(s, 8, 10)) {
        return None;
    }
    let y = crate::amount::digits_value(s, 0, 4);
    let m = crate::amount::digits_value(s, 5, 7);
    let d = crate::amount::digits_value(s, 8, 10);
    proof {
        crate::amount::lemma_digits_val_bound(s@.subrange(0, 4));
        crate::amount::lemma_digits_val_bound(s@.subrange(5, 7));
        crate::amount::lemma_digits_val_bound(s@.subrange(8, 10));
        assert(crate::amount::pow10(4) == 10000) by {
            reveal_with_fuel(crate::amount::pow10, 5);
        }
        assert(crate::amount::pow10(2) == 100) by {
            reveal_with_fuel(crate::amount::pow10, 5);
        }
    }
    Date::new(y as i32, m as u8, d as u8)
}

/// Parses exactly `YYYY-MM-DD`.
pub fn parse_ymd(s: &[u8]) -> (r: Option<Date>)
    ensures
        match r {
            Some(d) => s@.len() == 10 && ymd_prefix_ok(s@) && d == spec_date_of(s@) && d.valid(),
            None => !(s@.len() == 10 && ymd_prefix_ok(s@)),
        },
{
    if s.len() != 10 {
        return None;
    }
    parse_ymd_prefix(s)
}

/// True when `s` is `YYYY-MM-DDTHH:MM:SS` followed by anything (fraction,
/// `Z`, or a numeric offset), with in-range time-of-day fields.
pub open spec fn iso_datetime_ok(s: Seq<u8>) -> bool {
    &&& ymd_prefix_ok(s)
    &&& s.len() >= 19
    &&& s[10] == 84
    &&& all_digits(s.subrange(11, 13))
    &&& s[13] == 58
    &&& all_digits(s.subrange(14, 16))
    &&& s[16] == 58
    &&& all_digits(s.subrange(17, 19))
    &&& digits_val(s.subrange(11, 13)) <= 23
    &&& digits_val(s.subrange(14, 16)) <= 59
    &&& digits_val(s.subrange(17, 19)) <= 59
}

/// Extracts the calendar date from an ISO-8601 datetime, as written.
pub fn parse_iso_datetime_date(s: &[u8]) -> (r: Option<Date>)
    ensures
        match r {
            Some(d) => iso_datetime_ok(s@) && d == spec_date_of(s@) && d.valid(),
            None => !iso_datetime_ok(s@),
        },
{
    let date = match parse_ymd_prefix(s) {
        Some(d) => d,
        None => {
            return None;
        },
    };
    if s.len() < 19 {
        return None;
    }
    if !(s[10] == 84 && crate::amount::check_digits(s, 11, 13) && s[13] == 58
        && crate::amount::check_digits(s, 14, 16) && s[16] == 58 && crate::amount::check_digits(
        s,
        17,
        19,
    )) {
        return None;
    }
    let hh = crate::amount::digits_value(s, 11, 13);
    let mm = crate::amount::digits_value(s, 14, 16);
    let ss = crate::amount::digits_value(s, 17, 19);
    if hh > 23 || mm > 59 || ss > 59 {
        return None;
    }
    Some(date)
}

/// True when `s` is the donation-export datetime `YYYY-MM-DD H:MM AM|PM`:
/// an unpadded 12-hour clock hour (1 through 12), a two-digit minute, and an
/// upper- or lower-case period marker.
/// Clock part of the export format with an `hlen`-digit hour (1 or 2).
pub open spec fn export_clock_ok(s: Seq<u8>, hlen: int) -> bool {
    &&& s.len() == 17 + hlen
    &&& all_digits(s.subrange(11, 11 + hlen))
    &&& 1 <= digits_val(s.subrange(11, 11 + hlen)) <= 12
    &&& s[11 + hlen] == 58
    &&& all_digits(s.subrange(12 + hlen, 14 + hlen))
    &&& digits_val(s.subrange(12 + hlen, 14 + hlen)) <= 59
    &&& s[14 + hlen] == 32
    &&& (s[15 + hlen] == 65 || s[15 + hlen] == 80 || s[15 + hlen] == 97 || s[15 + hlen] == 112)
    &&& (s[16 + hlen] == 77 || s[16 + hlen] == 109)
}

pub open spec fn export_datetime_ok(s: Seq<u8>) -> bool {
    &&& ymd_prefix_ok(s)
    &&& s.len() >= 11
    &&& s[10] == 32
    &&& (export_clock_ok(s, 1) || export_clock_ok(s, 2))
}

/// Extracts the calendar date from the donation-export datetime format.
pub fn parse_export_datetime_date(s: &[u8]) -> (r: Option<Date>)
    ensures
        match r {
            Some(d) => export_datetime_ok(s@) && d == spec_date_of(s@) && d.valid(),
            None => !export_datetime_ok(s@),
        },
{
    let date = match parse_ymd_prefix(s) {
        Some(d) => d,
        None => {
            return None;
        },
    };
    if s.len() < 18 || s[10] != 32 {
        return None;
    }
    let hlen: usize = if s.len() == 18 {
        1
    } else if s.len() == 19 {
        2
    } else {
        return None;
    };
    let ok = crate::amount::check_digits(s, 11, 11 + hlen) && s[11 + hlen] == 58
        && crate::amount::check_digits(s, 12 + hlen, 14 + hlen) && s[14 + hlen] == 32 && (s[15
        + hlen] == 65 || s[15 + hlen] == 80 || s[15 + hlen] == 97 || s[15 + hlen] == 112) && (s[16
        + hlen] == 77 || s[16 + hlen] == 109);
    if !ok {
        return None;
    }
    let hour = crate::amount::digits_value(s, 11, 11 + hlen);
    let minute = crate::amount::digits_value(s, 12 + hlen, 14 + hlen);
    proof {
        crate::amount::lemma_digits_val_bound(s@.subrange(11, 11 + hlen as int));
        crate::amount::lemma_digits_val_bound(s@.subrange(12 + hlen as int, 14 + hlen as int));
        assert(crate::amount::pow10(2) == 100) by {
            reveal_with_fuel(crate::amount::pow10, 3);
        }
    }
    if hour < 1 || hour > 12 || minute > 59 {
        return None;
    }
    assert(export_clock_ok(s@, hlen as int));
    Some(date)
}

} // verus!
