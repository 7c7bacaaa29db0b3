//! Calendar dates for the import loader.
//!
//! Legacy records carry their start date as a string in one fixed format,
//! four-digit year, two-digit month, two-digit day, separated by hyphens.
//! A parsed [`Date`] is converted to the canonical timestamp stored on a
//! run: seconds since the Unix epoch at midnight of that day.

use vstd::prelude::*;
use crate::text::{is_digit, digit_val, dec_val};

verus! {

/// A calendar date, valid when `wf()` holds.
#[derive(Clone, Copy, PartialEq, Eq, Structural, Debug)]
pub struct Date {
    pub year: u32,
    pub month: u32,
    pub day: u32,
}

/// Gregorian leap-year rule.
pub open spec fn is_leap_year(y: int) -> bool {
    (y % 4 == 0 && y % 100 != 0) || y % 400 == 0
}

/// Number of days in a month.
pub open spec fn days_in_month(y: int, m: int) -> int {
    if m == 1 { 31 }
    else if m == 2 { if is_leap_year(y) { 29 } else { 28 } }
    else if m == 3 { 31 }
    else if m == 4 { 30 }
    else if m == 5 { 31 }
    else if m == 6 { 30 }
    else if m == 7 { 31 }
    else if m == 8 { 31 }
    else if m == 9 { 30 }
    else if m == 10 { 31 }
    else if m == 11 { 30 }
    else { 31 }
}

/// A valid calendar date within the range the fixed four-digit format can
/// express.
pub open spec fn valid_date(y: int, m: int, d: int) -> bool {
    1 <= y <= 9999 && 1 <= m <= 12 && 1 <= d <= days_in_month(y, m)
}

impl Date {
    /// The date is a valid calendar date.
    pub open spec fn wf(&self) -> bool {
        valid_date(self.year as int, self.month as int, self.day as int)
    }
}

/// The date a string in the fixed format denotes, if it is well formed and
/// names a valid calendar date.
pub open spec fn spec_parse_date(s: Seq<char>) -> Option<Date> {
    if s.len() == 10 && s[4] == '-' && s[7] == '-'
        && is_digit(s[0]) && is_digit(s[1]) && is_digit(s[2]) && is_digit(s[3])
        && is_digit(s[5]) && is_digit(s[6]) && is_digit(s[8]) && is_digit(s[9]) {
        let y = dec_val(s.subrange(0, 4));
        let m = dec_val(s.subrange(5, 7));
        let d = dec_val(s.subrange(8, 10));
        if valid_date(y, m, d) {
            Some(Date { year: y as u32, month: m as u32, day: d as u32 })
        } else {
            None
        }
    } else {
        None
    }
}

/// Unfolds `dec_val` over a sequence of up to four explicit digits.
proof fn lemma_dec_val_digits(s: Seq<char>)
    requires
        1 <= s.len() <= 4,
    ensures
        s.len() == 1 ==> dec_val(s) == digit_val(s[0]),
        s.len() == 2 ==> dec_val(s) == digit_val(s[0]) * 10 + digit_val(s[1]),
        s.len() == 3 ==> dec_val(s) == (digit_val(s[0]) * 10 + digit_val(s[1])) * 10 + digit_val(
            s[2],
        ),
        s.len() == 4 ==> dec_val(s) == ((digit_val(s[0]) * 10 + digit_val(s[1])) * 10 + digit_val(
            s[2],
        )) * 10 + digit_val(s[3]),
    decreases s.len(),
{
    if s.len() == 1 {
        assert(s.drop_last().len() == 0);
        assert(dec_val(s.drop_last()) == 0);
        assert(s.last() == s[0]);
        assert(dec_val(s) == dec_val(s.drop_last()) * 10 + digit_val(s.last()));
    } else {
        lemma_dec_val_digits(s.drop_last());
        assert(forall|i: int| 0 <= i < s.len() - 1 ==> s.drop_last()[i] == s[i]);
        assert(s.last() == s[s.len() - 1]);
    }
}

fn exec_digit_val(c: char) -> (d: u32)
    requires
        is_digit(c),
    ensures
        d == digit_val(c),
        d <= 9,
{
    (c as u32) - 48
}

fn exec_is_digit(c: char) -> (r: bool)
    ensures
        r == is_digit(c),
{
    let u = c as u32;
    48 <= u && u <= 57
}

/// Parses a date string in the fixed format; `None` when the string is not
/// ten characters of the shape digits-hyphen-digits-hyphen-digits, or does
/// not name a valid calendar date.
pub fn parse_run_date(s: &str) -> (r: Option<Date>)
    ensures
        r == spec_parse_date(s@),
        r matches Some(d) ==> d.wf(),
{
    let n = s.unicode_len();
    if n != 10 {
        return None;
    }
    let c0 = s.get_char(0);
    let c1 = s.get_char(1);
    let c2 = s.get_char(2);
    let c3 = s.get_char(3);
    let h0 = s.get_char(4);
    let c5 = s.get_char(5);
    let c6 = s.get_char(6);
    let h1 = s.get_char(7);
    let c8 = s.get_char(8);
    let c9 = s.get_char(9);
    if h0 != '-' || h1 != '-' {
        return None;
    }
    if !(exec_is_digit(c0) && exec_is_digit(c1) && exec_is_digit(c2) && exec_is_digit(c3)
        && exec_is_digit(c5) && exec_is_digit(c6) && exec_is_digit(c8) && exec_is_digit(c9)) {
        return None;
    }
    let y: u32 = ((exec_digit_val(c0) * 10 + exec_digit_val(c1)) * 10 + exec_digit_val(c2)) * 10
        + exec_digit_val(c3);
    let m: u32 = exec_digit_val(c5) * 10 + exec_digit_val(c6);
    let d: u32 = exec_digit_val(c8) * 10 + exec_digit_val(c9);
    proof {
        lemma_dec_val_digits(s@.subrange(0, 4));
        lemma_dec_val_digits(s@.subrange(5, 7));
        lemma_dec_val_digits(s@.subrange(8, 10));
        assert(s@.subrange(0, 4)[0] == s@[0]);
        assert(y == dec_val(s@.subrange(0, 4)));
        assert(m == dec_val(s@.subrange(5, 7)));
        assert(d == dec_val(s@.subrange(8, 10)));
    }
    let valid = if !(1 <= y && y <= 9999 && 1 <= m && m <= 12 && 1 <= d) {
        false
    } else {
        d <= days_in_month_exec(y, m)
    };
    if valid {
        Some(Date { year: y, month: m, day: d })
    } else {
        None
    }
}

fn days_in_month_exec(y: u32, m: u32) -> (r: u32)
    ensures
        r == days_in_month(y as int, m as int),
{
    if m == 1 { 31 }
    else if m == 2 {
        if (y % 4 == 0 && y % 100 != 0) || y % 400 == 0 { 29 } else { 28 }
    }
    else if m == 3 { 31 }
    else if m == 4 { 30 }
    else if m == 5 { 31 }
    else if m == 6 { 30 }
    else if m == 7 { 31 }
    else if m == 8 { 31 }
    else if m == 9 { 30 }
    else if m == 10 { 31 }
    else if m == 11 { 30 }
    else { 31 }
}

/// Days between 1970-01-01 and the given date, by the standard civil
/// calendar formula over eras of 400 years (146097 days each).
pub open spec fn spec_days_from_civil(y: int, m: int, d: int) -> int {
    let yy = if m <= 2 { y - 1 } else { y };
    let era = yy / 400;
    let yoe = yy % 400;
    let mp = if m > 2 { m - 3 } else { m + 9 };
    let doy = (153 * mp + 2) / 5 + d - 1;
    let doe = yoe * 365 + yoe / 4 - yoe / 100 + doy;
    era * 146097 + doe - 719468
}

/// The timestamp a run imported for this date is stored with: seconds since
/// the Unix epoch at midnight.
pub open spec fn spec_date_timestamp(date: Date) -> int {
    spec_days_from_civil(date.year as int, date.month as int, date.day as int) * 86400
}

/// Converts a date to its canonical run timestamp.
pub fn date_timestamp(date: &Date) -> (t: i64)
    requires
        date.wf(),
    ensures
        t == spec_date_timestamp(*date),
{
    let y: u64 = date.year as u64;
    let m: u64 = date.month as u64;
    let d: u64 = date.day as u64;
    let yy: u64 = if m <= 2 { y - 1 } else { y };
    let era: u64 = yy / 400;
    let yoe: u64 = yy % 400;
    let mp: u64 = if m > 2 { m - 3 } else { m + 9 };
    let doy: u64 = (153 * mp + 2) / 5 + d - 1;
    let doe: u64 = yoe * 365 + yoe / 4 - yoe / 100 + doy;
    let days: i64 = (era * 146097 + doe) as i64 - 719468;
    days * 86400
}

} // verus!
