//! Calendar dates without a time of day.

use chrono::Datelike;
use vstd::prelude::*;

verus! {

/// The earliest year a date can have.
pub const MIN_YEAR: i32 = -262143;

/// The latest year a date can have.
pub const MAX_YEAR: i32 = 262142;

/// A year, a month and a day as mathematical integers: what a `Date` stands
/// for.
pub struct Ymd {
    pub year: int,
    pub month: int,
    pub day: int,
}

/// Whether `year` has a 29th of February in the proleptic Gregorian calendar.
pub open spec fn is_leap_year(year: int) -> bool {
    year % 4 == 0 && (year % 100 != 0 || year % 400 == 0)
}

/// The number of days of `month` in `year`.
pub open spec fn days_in_month(year: int, month: int) -> int {
    if month == 2 {
        if is_leap_year(year) {
            29
        } else {
            28
        }
    } else if month == 4 || month == 6 || month == 9 || month == 11 {
        30
    } else {
        31
    }
}

/// Whether `ymd` is a day of the calendar, in a year that a `Date` can hold.
pub open spec fn is_calendar_date(ymd: Ymd) -> bool {
    &&& MIN_YEAR <= ymd.year <= MAX_YEAR
    &&& 1 <= ymd.month <= 12
    &&& 1 <= ymd.day <= days_in_month(ymd.year, ymd.month)
}

/// Whether `a` is a later day than `b`.
pub open spec fn later(a: Ymd, b: Ymd) -> bool {
    a.year > b.year || (a.year == b.year && (a.month > b.month || (a.month == b.month && a.day
        > b.day)))
}

/// The pattern of the dates in front matter: year, month and day, joined by
/// hyphens.
pub open spec fn iso_pattern() -> Seq<char> {
    "%Y-%m-%d"@
}

/// The pattern of the dates shown in post listings: the day of the month
/// without padding, the full English month name, the year.
pub open spec fn long_pattern() -> Seq<char> {
    "%-d %B %Y"@
}

/// The pattern of the dates of feed items: abbreviated weekday, two-digit
/// day, abbreviated month, year, then midnight at offset zero.
pub open spec fn rfc822_pattern() -> Seq<char> {
    "%a, %d %b %Y 00:00:00 +0000"@
}

/// The date that chrono's `NaiveDate::parse_from_str` reads from `text` under
/// the strftime pattern `pattern`, or `None` where it reports an error.
pub uninterp spec fn parsed_date(text: Seq<char>, pattern: Seq<char>) -> Option<Ymd>;

/// The text that chrono's `NaiveDate::format` writes for the calendar date
/// `date` under the strftime pattern `pattern`.
pub uninterp spec fn formatted_date(date: Ymd, pattern: Seq<char>) -> Seq<char>;

/// A day of the proleptic Gregorian calendar. Every value is a real calendar
/// day with a year from `MIN_YEAR` to `MAX_YEAR`.
#[derive(Clone, Copy, Debug, PartialEq, Eq)]
pub struct Date {
    year: i32,
    month: u32,
    day: u32,
}

impl View for Date {
    type V = Ymd;

    closed spec fn view(&self) -> Ymd {
        Ymd { year: self.year as int, month: self.month as int, day: self.day as int }
    }
}

/// Calls chrono's `NaiveDate::parse_from_str` and takes year, month and day
/// out of the date it returns. The contract claims that the outcome depends
/// on the two texts alone, and that a date which chrono returns is a calendar
/// day within chrono's range of years.
#[verifier::external_body]
fn parse_with_pattern(text: &str, pattern: &str) -> (date: Option<Date>)
    requires
        pattern@ == iso_pattern(),
    ensures
        match date {
            Some(d) => parsed_date(text@, pattern@) == Some(d@) && is_calendar_date(d@),
            None => parsed_date(text@, pattern@) is None,
        },
{
    match chrono::NaiveDate::parse_from_str(text, pattern) {
        Ok(d) => Some(Date { year: d.year(), month: d.month(), day: d.day() }),
        Err(_) => None,
    }
}

/// Calls chrono's `NaiveDate::format` on the date made by
/// `NaiveDate::from_ymd_opt`, and collects what it writes. The contract
/// claims that the text depends on the date and the pattern alone. The two
/// patterns let in hold only specifiers that chrono accepts for a date.
#[verifier::external_body]
fn format_with_pattern(date: &Date, pattern: &str) -> (text: String)
    requires
        is_calendar_date(date@),
        pattern@ == long_pattern() || pattern@ == rfc822_pattern(),
    ensures
        text@ == formatted_date(date@, pattern@),
{
    chrono::NaiveDate::from_ymd_opt(date.year, date.month, date.day).unwrap().format(
        pattern,
    ).to_string()
}

impl Date {
    #[verifier::type_invariant]
    spec fn is_real(self) -> bool {
        is_calendar_date(self@)
    }

    /// The date of the given year, month and day, if there is such a day.
    pub fn from_ymd(year: i32, month: u32, day: u32) -> (date: Option<Date>)
        ensures
            match date {
                Some(d) => d@ == (Ymd { year: year as int, month: month as int, day: day as int }),
                None => !is_calendar_date(
                    Ymd { year: year as int, month: month as int, day: day as int },
                ),
            },
            date is Some ==> is_calendar_date(
                Ymd { year: year as int, month: month as int, day: day as int },
            ),
    {
        if year < MIN_YEAR || year > MAX_YEAR || month < 1 || month > 12 || day < 1 {
            return None;
        }
        let leap = year % 4 == 0 && (year % 100 != 0 || year % 400 == 0);
        let last: u32 = if month == 2 {
            if leap {
                29
            } else {
                28
            }
        } else if month == 4 || month == 6 || month == 9 || month == 11 {
            30
        } else {
            31
        };
        if day > last {
            return None;
        }
        Some(Date { year, month, day })
    }

    /// The first of January 1970, the date of a post that names none.
    pub fn epoch() -> (date: Date)
        ensures
            date@ == (Ymd { year: 1970, month: 1, day: 1 }),
    {
        Date { year: 1970, month: 1, day: 1 }
    }

    /// The year.
    pub fn year(&self) -> (year: i32)
        ensures
            year == self@.year,
    {
        self.year
    }

    /// The month, from 1 to 12.
    pub fn month(&self) -> (month: u32)
        ensures
            month == self@.month,
    {
        self.month
    }

    /// The day of the month, from 1.
    pub fn day(&self) -> (day: u32)
        ensures
            day == self@.day,
    {
        self.day
    }

    /// Whether this date is a later day than `other`.
    pub fn is_after(&self, other: &Date) -> (after: bool)
        ensures
            after == later(self@, other@),
    {
        self.year > other.year || (self.year == other.year && (self.month > other.month || (
        self.month == other.month && self.day > other.day)))
    }

    /// Reads a date written as year, month and day joined by hyphens, as
    /// chrono reads it; `None` where chrono rejects the text.
    pub fn parse(text: &str) -> (date: Option<Date>)
        ensures
            match date {
                Some(d) => parsed_date(text@, iso_pattern()) == Some(d@),
                None => parsed_date(text@, iso_pattern()) is None,
            },
    {
        parse_with_pattern(text, "%Y-%m-%d")
    }

    /// The date as shown in listings, such as `1 May 2023`.
    pub fn long_text(&self) -> (text: String)
        ensures
            text@ == formatted_date(self@, long_pattern()),
    {
        proof {
            use_type_invariant(self);
        }
        format_with_pattern(self, "%-d %B %Y")
    }

    /// The date as a feed item carries it, such as
    /// `Mon, 01 May 2023 00:00:00 +0000`.
    pub fn rfc822_text(&self) -> (text: String)
        ensures
            text@ == formatted_date(self@, rfc822_pattern()),
    {
        proof {
            use_type_invariant(self);
        }
        format_with_pattern(self, "%a, %d %b %Y 00:00:00 +0000")
    }
}

} // verus!
