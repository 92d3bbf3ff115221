use datemath::calculated_date::{parse, parse_date, CalculatedDate};
use datemath::Date;

fn date(year: i32, month: u32, day: u32) -> Date {
    Date::from_ymd(year, month, day).unwrap()
}

fn parse_and_calculate(value: &str, today: Date) -> Date {
    parse(value, &today).unwrap().0.calculate(today)
}

#[test]
fn test_date_relative() {
    let today = date(2022, 1, 31);

    assert_eq!(parse_and_calculate("today", today), today);
    assert_eq!(parse_and_calculate("now", today), today);
    assert_eq!(parse_and_calculate("yesterday", today), date(2022, 1, 30));
    assert_eq!(parse_and_calculate("tomorrow", today), date(2022, 2, 1));
}

#[test]
fn test_date_parse_exact() {
    let today = date(2022, 1, 31);

    assert_eq!(
        parse("2021-01-31", &today).unwrap().0,
        CalculatedDate::Raw(date(2021, 1, 31))
    );

    assert_eq!(
        parse("2021-1-31", &today).unwrap().0,
        CalculatedDate::Raw(date(2021, 1, 31))
    );
}

#[test]
fn test_date_parse_handles_invalid_dates() {
    let today = date(2022, 1, 31);

    assert!(parse("2021-20-31", &today).is_none());
    assert!(parse("2021-01-32", &today).is_none());
}

#[test]
fn test_date_parse() {
    let ref_year = 2022;

    assert_eq!(parse_date("Jan 31, 2021", ref_year), Date::from_ymd(2021, 1, 31));

    assert_eq!(parse_date("Jan 1, 2021", ref_year), Date::from_ymd(2021, 1, 1));

    assert_eq!(parse_date("jan 1, 2021", ref_year), Date::from_ymd(2021, 1, 1));

    assert_eq!(parse_date("january 1, 2021", ref_year), Date::from_ymd(2021, 1, 1));

    assert_eq!(parse_date("january 1", ref_year), Date::from_ymd(ref_year, 1, 1));

    assert_eq!(parse_date("apr 30", ref_year), Date::from_ymd(ref_year, 4, 30));

    assert_eq!(parse_date("Jan 01, 2021", ref_year), Date::from_ymd(2021, 1, 1));

    assert_eq!(parse_date("1/31/2021", ref_year), Date::from_ymd(2021, 1, 31));
}

#[test]
fn test_date_parse_accepts_dash_dates() {
    let ref_year = 2022;

    assert_eq!(parse_date("2022-01-20", ref_year), Date::from_ymd(2022, 1, 20));
    assert_eq!(parse_date("2021-1-31", ref_year), Date::from_ymd(2021, 1, 31));
    assert_eq!(parse_date(" 2022-01-20 ", ref_year), Date::from_ymd(2022, 1, 20));
    assert_eq!(parse_date("2021-20-31", ref_year), None);
    assert_eq!(parse_date("2022-01-20 x", ref_year), None);
}

#[test]
fn test_date_parse_ignores_case() {
    let ref_year = 2022;

    assert_eq!(parse_date("JANUARY 1, 2021", ref_year), Date::from_ymd(2021, 1, 1));
    assert_eq!(parse_date("jAn 1, 2021", ref_year), Date::from_ymd(2021, 1, 1));
    assert_eq!(parse_date("SEP 2, 2021", ref_year), Date::from_ymd(2021, 9, 2));
}

#[test]
fn test_date_parse_rejects_leftovers() {
    let ref_year = 2022;

    assert_eq!(parse_date("Jan 31, 2021 x", ref_year), None);
    assert_eq!(parse_date("feb 30, 2021", ref_year), None);
    assert_eq!(parse_date("", ref_year), None);
}

#[test]
fn test_ymd_round_trip() {
    let samples = vec![
        (2021, 3, 31),
        (2020, 2, 29),
        (1970, 1, 1),
        (1, 1, 1),
        (-1, 12, 31),
        (-262144, 1, 1),
        (262143, 12, 31),
    ];
    for (y, m, d) in samples {
        assert_eq!(date(y, m, d).to_ymd(), (y, m, d));
    }
}

#[test]
fn test_day_arithmetic() {
    assert_eq!(date(2021, 12, 31).add_days(1), date(2022, 1, 1));
    assert_eq!(date(2020, 3, 1).sub_days(1), date(2020, 2, 29));
    assert_eq!(date(2021, 3, 31).days_between(date(2021, 3, 24)), 7);
    assert_eq!(date(2021, 3, 24).days_between(date(2021, 3, 31)), 7);
}

#[test]
fn test_leap_years() {
    let today = date(2022, 1, 31);

    assert!(parse("2020-02-29", &today).is_some());
    assert!(parse("2021-02-29", &today).is_none());
    assert!(parse("2000-02-29", &today).is_some());
    assert!(parse("1900-02-29", &today).is_none());
}
