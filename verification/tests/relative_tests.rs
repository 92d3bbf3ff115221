use datemath::relative_period::{parse, parse_sentence};
use datemath::{CalculatedDate, Date, Period, PeriodOp};

fn date(year: i32, month: u32, day: u32) -> Date {
    Date::from_ymd(year, month, day).unwrap()
}

#[test]
fn test_human_subtract() {
    let today = date(2022, 1, 31);

    assert_eq!(
        parse("3 days ago", &today).unwrap().0,
        (
            CalculatedDate::Today,
            PeriodOp::Subtract(Period::Day(3)),
            Vec::new()
        )
    );

    assert_eq!(
        parse("12 years ago", &today).unwrap().0,
        (
            CalculatedDate::Today,
            PeriodOp::Subtract(Period::Year(12)),
            Vec::new()
        )
    );
}

#[test]
fn test_human_pair() {
    let today = date(2022, 1, 31);

    assert_eq!(
        parse("3 days and 1 week ago", &today).unwrap().0,
        (
            CalculatedDate::Today,
            PeriodOp::Subtract(Period::Day(3)),
            vec![PeriodOp::Subtract(Period::Week(1))]
        )
    );
}

#[test]
fn test_human_sentence() {
    assert_eq!(
        parse_sentence("1 year, 2 months, and 3 days").unwrap().0,
        (Period::Year(1), vec![Period::Month(2), Period::Day(3)])
    );
}

#[test]
fn test_human_multiple() {
    let today = date(2022, 1, 31);

    assert_eq!(
        parse("1 year, 2 months, and 3 days from now", &today).unwrap().0,
        (
            CalculatedDate::Today,
            PeriodOp::Add(Period::Year(1)),
            vec![
                PeriodOp::Add(Period::Month(2)),
                PeriodOp::Add(Period::Day(3))
            ]
        )
    );
}

#[test]
fn test_human_add() {
    let today = date(2022, 1, 31);

    assert_eq!(
        parse("3 days from now", &today).unwrap().0,
        (
            CalculatedDate::Today,
            PeriodOp::Add(Period::Day(3)),
            Vec::new()
        )
    );

    assert_eq!(
        parse("12 weeks from now", &today).unwrap().0,
        (
            CalculatedDate::Today,
            PeriodOp::Add(Period::Week(12)),
            Vec::new()
        )
    );
}

#[test]
fn test_relative_from_different_base() {
    let today = date(2022, 7, 11);

    assert_eq!(
        parse("2 weeks and 3 days from tomorrow", &today).unwrap().0,
        (
            CalculatedDate::Tomorrow,
            PeriodOp::Add(Period::Week(2)),
            vec![PeriodOp::Add(Period::Day(3))]
        )
    );

    assert_eq!(
        parse("2 weeks and 3 days after tomorrow", &today).unwrap().0,
        (
            CalculatedDate::Tomorrow,
            PeriodOp::Add(Period::Week(2)),
            vec![PeriodOp::Add(Period::Day(3))]
        )
    );

    assert_eq!(
        parse("2 weeks and 3 days from today", &today).unwrap().0,
        (
            CalculatedDate::Today,
            PeriodOp::Add(Period::Week(2)),
            vec![PeriodOp::Add(Period::Day(3))]
        )
    );

    assert_eq!(
        parse("2 weeks and 3 days before yesterday", &today).unwrap().0,
        (
            CalculatedDate::Yesterday,
            PeriodOp::Subtract(Period::Week(2)),
            vec![PeriodOp::Subtract(Period::Day(3))]
        )
    );

    assert_eq!(
        parse("2 weeks and 3 days before July 11, 2022", &today).unwrap().0,
        (
            CalculatedDate::Raw(date(2022, 7, 11)),
            PeriodOp::Subtract(Period::Week(2)),
            vec![PeriodOp::Subtract(Period::Day(3))]
        )
    );
}
