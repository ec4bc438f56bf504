//! Calendar dates as plain values, their `YYYY-MM-DD` text form, and day counts.

use chrono::Datelike;
use vstd::prelude::*;
use vstd::string::*;

verus! {

/// A date of the proleptic Gregorian calendar, with a year of at most four digits.
#[derive(Clone, Copy, Debug, PartialEq, Eq, Structural)]
pub struct CalendarDate {
    pub year: i32,
    pub month: u32,
    pub day: u32,
}

pub open spec fn is_leap_year(y: int) -> bool {
    (y % 4 == 0 && y % 100 != 0) || y % 400 == 0
}

pub open spec fn days_in_month(y: int, m: int) -> int {
    if m == 2 {
        if is_leap_year(y) {
            29
        } else {
            28
        }
    } else if m == 4 || m == 6 || m == 9 || m == 11 {
        30
    } else {
        31
    }
}

/// A real calendar day whose year is written with four digits.
pub open spec fn valid_date(y: int, m: int, d: int) -> bool {
    &&& 0 <= y <= 9999
    &&& 1 <= m <= 12
    &&& 1 <= d <= days_in_month(y, m)
}

pub open spec fn is_digit(c: char) -> bool {
    '0' <= c && c <= '9'
}

pub open spec fn digit_value(c: char) -> int {
    c as int - '0' as int
}

pub open spec fn digit_char(n: int) -> char {
    (n + '0' as int) as char
}

/// The number written by the two digits at `i` and `i + 1`.
pub open spec fn two_digits(s: Seq<char>, i: int) -> int {
    10 * digit_value(s[i]) + digit_value(s[i + 1])
}

/// `s` is laid out as `YYYY-MM-DD`, each `Y`, `M` and `D` a decimal digit.
pub open spec fn has_date_shape(s: Seq<char>) -> bool {
    &&& s.len() == 10
    &&& s[4] == '-'
    &&& s[7] == '-'
    &&& forall|i: int| 0 <= i < 10 && i != 4 && i != 7 ==> is_digit(#[trigger] s[i])
}

pub open spec fn text_year(s: Seq<char>) -> int {
    100 * two_digits(s, 0) + two_digits(s, 2)
}

pub open spec fn text_month(s: Seq<char>) -> int {
    two_digits(s, 5)
}

pub open spec fn text_day(s: Seq<char>) -> int {
    two_digits(s, 8)
}

/// The date that `s` writes, if `s` is a `YYYY-MM-DD` text of a real day.
pub open spec fn date_of_text(s: Seq<char>) -> Option<CalendarDate> {
    if has_date_shape(s) && valid_date(text_year(s), text_month(s), text_day(s)) {
        Some(
            CalendarDate {
                year: text_year(s) as i32,
                month: text_month(s) as u32,
                day: text_day(s) as u32,
            },
        )
    } else {
        None
    }
}

/// The `YYYY-MM-DD` text of a date, with leading zeros.
pub open spec fn text_of_date(d: CalendarDate) -> Seq<char> {
    let y = d.year as int;
    let m = d.month as int;
    let day = d.day as int;
    seq![
        digit_char(y / 1000),
        digit_char(y / 100 % 10),
        digit_char(y / 10 % 10),
        digit_char(y % 10),
        '-',
        digit_char(m / 10),
        digit_char(m % 10),
        '-',
        digit_char(day / 10),
        digit_char(day % 10),
    ]
}

/// The days of year `y` before the first of month `m`.
pub open spec fn days_before_month(y: int, m: int) -> int
    decreases m,
{
    if m <= 1 {
        0
    } else {
        days_before_month(y, m - 1) + days_in_month(y, m - 1)
    }
}

/// The number of days from the start of the common era to a date, counting
/// 0001-01-01 as day 1 (so 0000-12-31 is day 0): the days of the years before
/// `year`, with a leap day in each leap year, then those of the months before
/// `month`, then `day`.
pub open spec fn days_from_ce(year: int, month: int, day: int) -> int {
    let p = year - 1;
    365 * p + p / 4 - p / 100 + p / 400 + days_before_month(year, month) + day
}

proof fn lemma_digit_round_trip(n: int)
    requires
        0 <= n < 10,
    ensures
        is_digit(digit_char(n)),
        digit_value(digit_char(n)) == n,
{
}

/// Reading back the text of a date gives that date.
pub proof fn lemma_date_text_round_trip(d: CalendarDate)
    requires
        d.wf(),
    ensures
        date_of_text(text_of_date(d)) == Some(d),
{
    let s = text_of_date(d);
    let y = d.year as int;
    let m = d.month as int;
    let day = d.day as int;
    lemma_digit_round_trip(y / 1000);
    lemma_digit_round_trip(y / 100 % 10);
    lemma_digit_round_trip(y / 10 % 10);
    lemma_digit_round_trip(y % 10);
    lemma_digit_round_trip(m / 10);
    lemma_digit_round_trip(m % 10);
    lemma_digit_round_trip(day / 10);
    lemma_digit_round_trip(day % 10);
    assert forall|i: int| 0 <= i < 10 && i != 4 && i != 7 implies is_digit(#[trigger] s[i]) by {
        if i == 0 {} else if i == 1 {} else if i == 2 {} else if i == 3 {}
        else if i == 5 {} else if i == 6 {} else if i == 8 {} else {}
    }
    assert(text_year(s) == y) by {
        assert(y == 1000 * (y / 1000) + 100 * (y / 100 % 10) + 10 * (y / 10 % 10) + y % 10);
    }
    assert(text_month(s) == m);
    assert(text_day(s) == day);
}

impl CalendarDate {
    pub open spec fn wf(&self) -> bool {
        valid_date(self.year as int, self.month as int, self.day as int)
    }

    pub open spec fn day_count(&self) -> int {
        days_from_ce(self.year as int, self.month as int, self.day as int)
    }

    /// The date with these parts, if they name a real day of a four-digit year.
    pub fn new(year: i32, month: u32, day: u32) -> (r: Option<CalendarDate>)
        ensures
            r == (if valid_date(year as int, month as int, day as int) {
                Some(CalendarDate { year, month, day })
            } else {
                None
            }),
    {
        if year < 0 || year > 9999 || month < 1 || month > 12 || day < 1 {
            return None;
        }
        let y = year as u32;
        let leap = (y % 4 == 0 && y % 100 != 0) || y % 400 == 0;
        let last: u32 = if month == 2 {
            if leap {
                29
            } else {
                28
            }
        } else if month == 4 || month == 6 || month == 9 || month == 11 {
            30
        } else {
            31
        };
        if day > last {
            None
        } else {
            Some(CalendarDate { year, month, day })
        }
    }

    /// Reads a `YYYY-MM-DD` text; `None` where the text has another shape or
    /// names no real day (such as the `0000-00-00` of a task without deadline).
    pub fn parse(text: &str) -> (r: Option<CalendarDate>)
        ensures
            r == date_of_text(text@),
    {
        if text.unicode_len() != 10 {
            return None;
        }
        if text.get_char(4) != '-' || text.get_char(7) != '-' {
            return None;
        }
        let d0 = match digit_at(text, 0) { Some(v) => v, None => return None };
        let d1 = match digit_at(text, 1) { Some(v) => v, None => return None };
        let d2 = match digit_at(text, 2) { Some(v) => v, None => return None };
        let d3 = match digit_at(text, 3) { Some(v) => v, None => return None };
        let d5 = match digit_at(text, 5) { Some(v) => v, None => return None };
        let d6 = match digit_at(text, 6) { Some(v) => v, None => return None };
        let d8 = match digit_at(text, 8) { Some(v) => v, None => return None };
        let d9 = match digit_at(text, 9) { Some(v) => v, None => return None };
        let ghost s = text@;
        assert forall|i: int| 0 <= i < 10 && i != 4 && i != 7 implies is_digit(#[trigger] s[i]) by {
            if i == 0 {} else if i == 1 {} else if i == 2 {} else if i == 3 {}
            else if i == 5 {} else if i == 6 {} else if i == 8 {} else {}
        }
        let year = d0 * 1000 + d1 * 100 + d2 * 10 + d3;
        CalendarDate::new(year as i32, d5 * 10 + d6, d8 * 10 + d9)
    }
}

/// The value of the digit at `i`, if the character there is a decimal digit.
fn digit_at(text: &str, i: usize) -> (r: Option<u32>)
    requires
        i < text@.len(),
    ensures
        r == (if is_digit(text@[i as int]) {
            Some(digit_value(text@[i as int]) as u32)
        } else {
            None
        }),
        r matches Some(v) ==> v < 10,
{
    let c = text.get_char(i);
    if '0' <= c && c <= '9' {
        Some((c as u32) - ('0' as u32))
    } else {
        None
    }
}

/// Relies on chrono's `NaiveDate::from_ymd_opt`, which accepts every real day of a
/// year from 0 to 9999, and on the `Display` of `NaiveDate`, which writes such a
/// date as `YYYY-MM-DD` with the year in four digits.
#[verifier::external_body]
pub(crate) fn date_text(d: &CalendarDate) -> (r: String)
    requires
        d.wf(),
    ensures
        r@ == text_of_date(*d),
{
    chrono::NaiveDate::from_ymd_opt(d.year, d.month, d.day).unwrap().to_string()
}

/// Relies on chrono's `NaiveDate::from_ymd_opt`, which accepts every real day of a
/// year from 0 to 9999, and on `Datelike::num_days_from_ce`, which counts days
/// with 0001-01-01 as day 1.
#[verifier::external_body]
pub(crate) fn day_number(d: &CalendarDate) -> (r: i32)
    requires
        d.wf(),
    ensures
        r as int == days_from_ce(d.year as int, d.month as int, d.day as int),
{
    chrono::NaiveDate::from_ymd_opt(d.year, d.month, d.day).unwrap().num_days_from_ce()
}

} // verus!
