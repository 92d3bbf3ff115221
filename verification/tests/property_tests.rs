use datemath::{
    parse, CalculatedDate, ComputeOutcome, Date, DateMath, ParseResult, Period, PeriodOp,
};

fn date(year: i32, month: u32, day: u32) -> Date {
    Date::from_ymd(year, month, day).unwrap()
}

fn parsed(input: &str, today: Date) -> DateMath {
    match parse(input, &today) {
        ParseResult::Success(m) => m,
        other => panic!("no full parse of {:?}: {:?}", input, other),
    }
}

#[test]
fn test_period_space_is_required() {
    let today = date(2022, 1, 31);

    assert!(datemath::period::parse("1day").is_none());
    assert_eq!(datemath::period::parse("1 day").unwrap().0, Period::Day(1));
    assert!(matches!(parse("1day", &today), ParseResult::Error(_)));
}

#[test]
fn test_iso_dates_validate_and_accept_short_months() {
    let today = date(2022, 1, 31);

    assert!(matches!(parse("2021-20-31", &today), ParseResult::Error(_)));
    assert!(matches!(parse("2021-01-32", &today), ParseResult::Error(_)));
    assert_eq!(parsed("2021-1-31", today), parsed("2021-01-31", today));
}

#[test]
fn test_end_to_end_today() {
    let today = date(2022, 1, 31);

    let m = parsed("today", today);
    assert_eq!(m, DateMath::Start(CalculatedDate::Today));
    assert_eq!(m.compute(today), ComputeOutcome::Date(date(2022, 1, 31)));
}

#[test]
fn test_end_to_end_anchor_chain() {
    let today = date(2022, 1, 31);

    let m = parsed("Mar 31, 2021 + 15 weeks + 2 days", today);
    assert_eq!(
        m,
        DateMath::StartWithPeriods(
            CalculatedDate::Raw(date(2021, 3, 31)),
            PeriodOp::Add(Period::Week(15)),
            vec![PeriodOp::Add(Period::Day(2))]
        )
    );
    // 15 weeks and 2 days are 107 days, landing on 2021-07-16
    assert_eq!(m.compute(today), ComputeOutcome::Date(date(2021, 7, 16)));
}

#[test]
fn test_end_to_end_diff_renders() {
    let today = date(2022, 1, 31);

    let m = parsed("Mar 31, 2021 - Mar 24, 2021", today);
    assert_eq!(
        m,
        DateMath::DateDiff(
            CalculatedDate::Raw(date(2021, 3, 31)),
            CalculatedDate::Raw(date(2021, 3, 24)),
        )
    );
    let outcome = m.compute(today);
    assert_eq!(outcome, ComputeOutcome::DifferenceInDays(7));
    assert_eq!("7 days", outcome.to_string());
}

#[test]
fn test_end_to_end_before() {
    let today = date(2022, 1, 31);

    let m = parsed("2 weeks and 3 days before July 11, 2022", today);
    assert_eq!(
        m,
        DateMath::StartWithPeriods(
            CalculatedDate::Raw(date(2022, 7, 11)),
            PeriodOp::Subtract(Period::Week(2)),
            vec![PeriodOp::Subtract(Period::Day(3))]
        )
    );
    assert_eq!(m.compute(today), ComputeOutcome::Date(date(2022, 6, 24)));
}

#[test]
fn test_end_to_end_ago() {
    let today = date(2022, 1, 31);

    let m = parsed("2 weeks and 1 day ago", today);
    assert_eq!(
        m,
        DateMath::StartWithPeriods(
            CalculatedDate::Today,
            PeriodOp::Subtract(Period::Week(2)),
            vec![PeriodOp::Subtract(Period::Day(1))]
        )
    );
    assert_eq!(m.compute(today), ComputeOutcome::Date(date(2022, 1, 16)));
}

#[test]
fn test_diff_of_anchor_with_itself_is_zero() {
    let today = date(2022, 1, 31);
    let anchors = vec![
        CalculatedDate::Today,
        CalculatedDate::Yesterday,
        CalculatedDate::Tomorrow,
        CalculatedDate::Raw(date(1999, 12, 31)),
    ];

    for a in anchors {
        let outcome = DateMath::DateDiff(a, a).compute(today);
        assert_eq!(outcome, ComputeOutcome::DifferenceInDays(0));
    }
}

#[test]
fn test_diff_is_symmetric() {
    let today = date(2022, 1, 31);
    let a = CalculatedDate::Raw(date(2021, 3, 24));
    let b = CalculatedDate::Tomorrow;

    assert_eq!(
        DateMath::DateDiff(a, b).compute(today),
        DateMath::DateDiff(b, a).compute(today)
    );
}

#[test]
fn test_add_then_subtract_returns_original() {
    let today = date(2022, 1, 31);
    let units = vec![
        Period::Day(1),
        Period::Week(1),
        Period::Month(1),
        Period::Year(1),
    ];

    for p in units {
        let m = DateMath::StartWithPeriods(
            CalculatedDate::Raw(date(2021, 6, 15)),
            PeriodOp::Add(p),
            vec![PeriodOp::Subtract(p)],
        );
        assert_eq!(m.compute(today), ComputeOutcome::Date(date(2021, 6, 15)));
    }
}

#[test]
fn test_month_and_year_use_fixed_lengths() {
    let today = date(2022, 1, 31);

    // a month always counts 30 days, a year 365, never calendar-aware
    let one_month = parsed("2021-01-31 + 1 month", today);
    assert_eq!(one_month.compute(today), ComputeOutcome::Date(date(2021, 3, 2)));

    let one_year = parsed("2020-01-01 + 1 year", today);
    assert_eq!(one_year.compute(today), ComputeOutcome::Date(date(2020, 12, 31)));
}

#[test]
fn test_compute_checked_guards_the_calendar() {
    let today = date(2022, 1, 31);

    let far = parsed("today + 99999999 years", today);
    assert_eq!(far.compute_checked(today), None);

    let near = parsed("today + 1 day", today);
    assert_eq!(
        near.compute_checked(today),
        Some(ComputeOutcome::Date(date(2022, 2, 1)))
    );
}

#[test]
fn test_partial_date_uses_reference_year() {
    let m = parsed("january 1", date(2024, 6, 1));
    assert_eq!(m, DateMath::Start(CalculatedDate::Raw(date(2024, 1, 1))));

    let m2 = parsed("february 29", date(2024, 6, 1));
    assert_eq!(m2, DateMath::Start(CalculatedDate::Raw(date(2024, 2, 29))));

    assert!(matches!(
        parse("february 29", &date(2023, 6, 1)),
        ParseResult::Error(_)
    ));
}
