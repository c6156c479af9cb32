//! Calendar dates at day granularity.

use vstd::prelude::*;
use chrono::Datelike;

verus! {

/// Whether `year` is a leap year of the proleptic Gregorian calendar.
pub open spec fn is_leap_year(year: int) -> bool {
    year % 4 == 0 && (year % 100 != 0 || year % 400 == 0)
}

/// Number of days of `month` in `year`; 0 for a month outside 1..=12.
pub open spec fn days_in_month(year: int, month: int) -> int {
    if month == 2 {
        if is_leap_year(year) {
            29
        } else {
            28
        }
    } else if month == 4 || month == 6 || month == 9 || month == 11 {
        30
    } else if 1 <= month <= 12 {
        31
    } else {
        0
    }
}

/// Whether the triple names a day of the proleptic Gregorian calendar.
pub open spec fn is_calendar_date(year: int, month: int, day: int) -> bool {
    1 <= month <= 12 && 1 <= day <= days_in_month(year, month)
}

/// Chronological order on (year, month, day) triples.
pub open spec fn ymd_precedes(a: (int, int, int), b: (int, int, int)) -> bool {
    a.0 < b.0 || (a.0 == b.0 && (a.1 < b.1 || (a.1 == b.1 && a.2 < b.2)))
}

/// The year, month and day of the date that `chrono` reads from `text` in
/// the given `format`, or `None` where it reads none.
pub uninterp spec fn naive_date_parsed(text: Seq<char>, format: Seq<char>) -> Option<
    (int, int, int),
>;

/// The date that `text` holds in the given `format`: what `chrono` reads
/// from it, where that is a day of the calendar.
pub open spec fn date_of_text(text: Seq<char>, format: Seq<char>) -> Option<(int, int, int)> {
    match naive_date_parsed(text, format) {
        Some(ymd) => if is_calendar_date(ymd.0, ymd.1, ymd.2) {
            Some(ymd)
        } else {
            None
        },
        None => None,
    }
}

/// A triple of machine integers as a triple of integers.
pub open spec fn ymd_of(parts: Option<(i32, u32, u32)>) -> Option<(int, int, int)> {
    match parts {
        Some((year, month, day)) => Some((year as int, month as int, day as int)),
        None => None,
    }
}

/// `chrono::NaiveDate::parse_from_str`, and of the date it returns the
/// `year`, `month` and `day` of `chrono::Datelike`.
///
/// Trusted: the result is the one named [`naive_date_parsed`].
#[verifier::external_body]
fn parse_naive_date(text: &str, format: &str) -> (r: Option<(i32, u32, u32)>)
    ensures
        ymd_of(r) == naive_date_parsed(text@, format@),
{
    match chrono::NaiveDate::parse_from_str(text, format) {
        Ok(date) => Some((date.year(), date.month(), date.day())),
        Err(_) => None,
    }
}

/// A day of the proleptic Gregorian calendar.
///
/// Every value is a real calendar day: the only way to make one is
/// [`Date::from_ymd_opt`], which refuses anything else.
#[derive(Clone, Copy, Debug, PartialEq, Eq, Structural)]
pub struct Date {
    year: i32,
    month: u32,
    day: u32,
}

impl View for Date {
    type V = (int, int, int);

    /// The date as (year, month, day).
    closed spec fn view(&self) -> (int, int, int) {
        (self.year as int, self.month as int, self.day as int)
    }
}

/// Whether `year` is a leap year.
fn leap_year(year: i32) -> (r: bool)
    ensures
        r == is_leap_year(year as int),
{
    // A multiple of 400 that lifts every year above zero, where the remainder
    // of the machine is the remainder of the calendar rule.
    let lifted: i64 = year as i64 + 2_147_484_000;
    lifted % 4 == 0 && (lifted % 100 != 0 || lifted % 400 == 0)
}

/// The year, month and day of an optional date.
pub open spec fn date_view(date: Option<Date>) -> Option<(int, int, int)> {
    match date {
        Some(d) => Some(d@),
        None => None,
    }
}

impl Date {
    #[verifier::type_invariant]
    spec fn is_valid(self) -> bool {
        is_calendar_date(self.year as int, self.month as int, self.day as int)
    }

    /// Whether `self` lies strictly before `other`.
    pub open spec fn precedes(self, other: Date) -> bool {
        ymd_precedes(self@, other@)
    }

    /// The date of the given year, month and day, or `None` where the calendar
    /// has no such day.
    pub fn from_ymd_opt(year: i32, month: u32, day: u32) -> (r: Option<Date>)
        ensures
            r is Some <==> is_calendar_date(year as int, month as int, day as int),
            r matches Some(d) ==> d@ == (year as int, month as int, day as int),
    {
        if month < 1 || month > 12 || day < 1 {
            return None;
        }
        let leap = leap_year(year);
        let last: u32 = if month == 2 {
            if leap {
                29
            } else {
                28
            }
        } else if month == 4 || month == 6 || month == 9 || month == 11 {
            30
        } else {
            31
        };
        if day > last {
            None
        } else {
            Some(Date { year, month, day })
        }
    }

    /// The date that `parts` names, if it names a day of the calendar; `parts`
    /// is what reading a text gave.
    pub fn from_parts(parts: Option<(i32, u32, u32)>) -> (r: Option<Date>)
        ensures
            r is Some <==> (parts matches Some(p) && is_calendar_date(
                p.0 as int,
                p.1 as int,
                p.2 as int,
            )),
            r matches Some(d) ==> Some(d@) == ymd_of(parts),
    {
        match parts {
            Some((year, month, day)) => Date::from_ymd_opt(year, month, day),
            None => None,
        }
    }

    /// Reads a date from `text` in the given `format`, which is written in
    /// the `strftime` notation of `chrono`.
    pub fn parse_from_str(text: &str, format: &str) -> (r: Option<Date>)
        ensures
            date_view(r) == date_of_text(text@, format@),
    {
        Date::from_parts(parse_naive_date(text, format))
    }

    /// The year; 0 is the year before year 1.
    pub fn year(&self) -> (r: i32)
        ensures
            r == self@.0,
    {
        self.year
    }

    /// The month, from 1 for January.
    pub fn month(&self) -> (r: u32)
        ensures
            r == self@.1,
            1 <= r <= 12,
    {
        proof {
            use_type_invariant(self);
        }
        self.month
    }

    /// The day of the month, from 1.
    pub fn day(&self) -> (r: u32)
        ensures
            r == self@.2,
            1 <= r <= days_in_month(self@.0, self@.1),
    {
        proof {
            use_type_invariant(self);
        }
        self.day
    }

    /// Whether `self` lies strictly before `other`.
    pub fn is_before(&self, other: &Date) -> (r: bool)
        ensures
            r == self.precedes(*other),
    {
        self.year < other.year || (self.year == other.year && (self.month < other.month || (
        self.month == other.month && self.day < other.day)))
    }
}

} // verus!
