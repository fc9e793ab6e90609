use chrono::{Datelike, NaiveDate};
use sitegen::date::{Date, MAX_YEAR, MIN_YEAR};

#[test]
fn from_ymd_agrees_with_chrono() {
    let years = [MIN_YEAR - 1, MIN_YEAR, -401, -400, -100, -4, -1, 0, 1, 4, 100, 400, 1900, 1970, 2000, 2023, 2024, 2100, MAX_YEAR, MAX_YEAR + 1];
    for year in years {
        for month in 0..14u32 {
            for day in [0u32, 1, 27, 28, 29, 30, 31, 32] {
                let ours = Date::from_ymd(year, month, day);
                let theirs = NaiveDate::from_ymd_opt(year, month, day);
                assert_eq!(ours.is_some(), theirs.is_some(), "{} {} {}", year, month, day);
                if let Some(date) = ours {
                    assert_eq!((date.year(), date.month(), date.day()), (year, month, day));
                }
            }
        }
    }
}

#[test]
fn year_bounds_are_those_of_chrono() {
    assert_eq!(MIN_YEAR, NaiveDate::MIN.year());
    assert_eq!(MAX_YEAR, NaiveDate::MAX.year());
}

#[test]
fn epoch_is_first_of_january_1970() {
    let epoch = Date::epoch();
    assert_eq!((epoch.year(), epoch.month(), epoch.day()), (1970, 1, 1));
    assert_eq!(Some(epoch), Date::from_ymd(1970, 1, 1));
}

#[test]
fn parse_reads_year_month_day() {
    assert_eq!(Date::parse("2023-05-01"), Date::from_ymd(2023, 5, 1));
    assert_eq!(Date::parse("1999-12-31"), Date::from_ymd(1999, 12, 31));
    assert_eq!(Date::parse("2024-02-29"), Date::from_ymd(2024, 2, 29));
}

#[test]
fn parse_rejects_what_is_no_date() {
    assert_eq!(Date::parse(""), None);
    assert_eq!(Date::parse("yesterday"), None);
    assert_eq!(Date::parse("2023-02-29"), None);
    assert_eq!(Date::parse("2023-13-01"), None);
    assert_eq!(Date::parse("2023-05"), None);
    assert_eq!(Date::parse("2023/05/01"), None);
    assert_eq!(Date::parse("2023-05-01 trailing"), None);
}

#[test]
fn long_text_is_day_month_name_year() {
    assert_eq!(Date::from_ymd(2023, 5, 1).unwrap().long_text(), "1 May 2023");
    assert_eq!(Date::from_ymd(1999, 12, 31).unwrap().long_text(), "31 December 1999");
    assert_eq!(Date::epoch().long_text(), "1 January 1970");
}

#[test]
fn rfc822_text_has_weekday_and_midnight() {
    assert_eq!(Date::from_ymd(2023, 5, 1).unwrap().rfc822_text(), "Mon, 01 May 2023 00:00:00 +0000");
    assert_eq!(Date::epoch().rfc822_text(), "Thu, 01 Jan 1970 00:00:00 +0000");
}

#[test]
fn texts_of_extreme_dates_are_written() {
    let first = Date::from_ymd(MIN_YEAR, 1, 1).unwrap();
    let last = Date::from_ymd(MAX_YEAR, 12, 31).unwrap();
    assert_eq!(first.long_text(), "1 January -262143");
    assert_eq!(last.long_text(), "31 December +262142");
    assert!(first.rfc822_text().ends_with(" 00:00:00 +0000"));
    assert!(last.rfc822_text().ends_with(" 00:00:00 +0000"));
}

#[test]
fn is_after_orders_by_year_then_month_then_day() {
    let d = |y, m, d| Date::from_ymd(y, m, d).unwrap();
    assert!(d(2024, 1, 1).is_after(&d(2023, 12, 31)));
    assert!(d(2023, 6, 1).is_after(&d(2023, 5, 31)));
    assert!(d(2023, 5, 2).is_after(&d(2023, 5, 1)));
    assert!(!d(2023, 5, 1).is_after(&d(2023, 5, 1)));
    assert!(!d(2023, 5, 1).is_after(&d(2023, 5, 2)));
    assert!(!d(2022, 12, 31).is_after(&d(2023, 1, 1)));
    assert!(d(-1, 1, 1).is_after(&d(-2, 12, 31)));
}
