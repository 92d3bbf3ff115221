use datemath::{
    parse, CalculatedDate, ComputeOutcome, Date, DateMath, ParseResult, Period, PeriodOp,
};

fn date(year: i32, month: u32, day: u32) -> Date {
    Date::from_ymd(year, month, day).unwrap()
}

fn is_parse_success(result: &ParseResult) -> bool {
    match result {
        ParseResult::Success(_) => true,
        _ => false,
    }
}

fn parsed(input: &str, today: Date) -> DateMath {
    match parse(input, &today) {
        ParseResult::Success(m) => m,
        other => panic!("no full parse of {:?}: {:?}", input, other),
    }
}

#[test]
fn test_smoke() {
    let today = date(2022, 1, 31);
    let examples = vec![
        "today",
        "yesterday",
        "tomorrow",
        "2 weeks ago",
        "2022-01-20",
        "2 weeks from now",
        "two weeks from tomorrow",
        "1 week and 2 days ago",
        "1 year, 2 weeks, and 3 days ago",
        "January 15, 2021 + 2 weeks + 1 day",
        "2 weeks and 1 day before January 15",
        "2 weeks and 1 day from January 15",
        "2 weeks and 1 day after January 15",
    ];

    assert!(examples
        .iter()
        .map(|v| parse(v, &today))
        .all(|v| is_parse_success(&v)));
}

#[test]
fn test_parse() {
    let today = date(2022, 1, 31);

    assert_eq!(
        parsed("1 day + 2 months", today),
        DateMath::Periods(Period::Day(1), vec![PeriodOp::Add(Period::Month(2))])
    );

    assert_eq!(
        parsed("Jan 2, 2021 + 15 weeks", today),
        DateMath::StartWithPeriods(
            CalculatedDate::Raw(date(2021, 1, 2)),
            PeriodOp::Add(Period::Week(15)),
            vec![]
        )
    );

    assert_eq!(
        parsed("2 weeks and 1 day ago", today),
        DateMath::StartWithPeriods(
            CalculatedDate::Today,
            PeriodOp::Subtract(Period::Week(2)),
            vec![PeriodOp::Subtract(Period::Day(1))]
        )
    );

    assert_eq!(
        parsed("Mar 31, 2021 + 15 weeks + 2 days", today),
        DateMath::StartWithPeriods(
            CalculatedDate::Raw(date(2021, 3, 31)),
            PeriodOp::Add(Period::Week(15)),
            vec![PeriodOp::Add(Period::Day(2))]
        )
    );

    assert_eq!(
        parsed("Mar 31, 2021 - 15 weeks + 2 days", today),
        DateMath::StartWithPeriods(
            CalculatedDate::Raw(date(2021, 3, 31)),
            PeriodOp::Subtract(Period::Week(15)),
            vec![PeriodOp::Add(Period::Day(2))]
        )
    );

    assert_eq!(
        parsed("Mar 31, 2021", today),
        DateMath::Start(CalculatedDate::Raw(date(2021, 3, 31)))
    );

    assert_eq!(parsed("today", today), DateMath::Start(CalculatedDate::Today));

    assert_eq!(
        parsed("Mar 31, 2021 - Mar 24, 2021", today),
        DateMath::DateDiff(
            CalculatedDate::Raw(date(2021, 3, 31)),
            CalculatedDate::Raw(date(2021, 3, 24)),
        )
    );
}

#[test]
fn test_date_math_start_with_periods() {
    let result = DateMath::StartWithPeriods(
        CalculatedDate::Raw(date(2021, 3, 31)),
        PeriodOp::Add(Period::Week(15)),
        vec![
            PeriodOp::Add(Period::Day(2)),
            PeriodOp::Subtract(Period::Day(1)),
        ],
    )
    .compute(date(2022, 1, 31));

    assert_eq!(result, ComputeOutcome::Date(date(2021, 7, 15)));
}

#[test]
fn test_date_math_date_diff() {
    let result = DateMath::DateDiff(
        CalculatedDate::Raw(date(2021, 3, 31)),
        CalculatedDate::Raw(date(2021, 3, 24)),
    )
    .compute(date(2022, 1, 31));

    assert_eq!("7 days", result.to_string());
}

#[test]
fn test_date_math_date_diff_no_difference() {
    let result = DateMath::DateDiff(
        CalculatedDate::Raw(date(2021, 3, 31)),
        CalculatedDate::Raw(date(2021, 3, 31)),
    )
    .compute(date(2022, 1, 31));

    assert_eq!("0 days", result.to_string());
}

#[test]
fn test_date_math_date_diff_single_day_difference() {
    let result = DateMath::DateDiff(
        CalculatedDate::Raw(date(2021, 3, 31)),
        CalculatedDate::Raw(date(2021, 3, 30)),
    )
    .compute(date(2022, 1, 31));

    assert_eq!("1 day", result.to_string());
}

#[test]
fn test_date_math_date_diff_negative_difference() {
    let result = DateMath::DateDiff(
        CalculatedDate::Raw(date(2021, 3, 24)),
        CalculatedDate::Raw(date(2021, 3, 31)),
    )
    .compute(date(2022, 1, 31));

    assert_eq!("7 days", result.to_string());
}

#[test]
fn test_parse_partial_success() {
    let today = date(2022, 1, 31);

    match parse("today such a day", &today) {
        ParseResult::PartialSuccess(m, rest) => {
            assert_eq!(m, DateMath::Start(CalculatedDate::Today));
            assert_eq!(rest, " such a day");
        },
        other => panic!("expected a partial parse: {:?}", other),
    }
}

#[test]
fn test_parse_error_hands_input_back() {
    let today = date(2022, 1, 31);

    match parse("utter gibberish", &today) {
        ParseResult::Error(text) => assert_eq!(text, "utter gibberish"),
        other => panic!("expected a failed parse: {:?}", other),
    }

    match parse("", &today) {
        ParseResult::Error(text) => assert_eq!(text, ""),
        other => panic!("expected a failed parse: {:?}", other),
    }
}

#[test]
fn test_parse_huge_quantity_fails() {
    let today = date(2022, 1, 31);

    match parse("99999999999999999999999999 days", &today) {
        ParseResult::Error(_) => {},
        other => panic!("expected a failed parse: {:?}", other),
    }
}

#[test]
fn test_iso_diff_splits_after_full_date() {
    let today = date(2022, 1, 31);

    // the dash date is consumed greedily before the grammar may split
    // on the standalone `-`
    assert_eq!(
        parsed("2021-01-31 - 2021-01-24", today),
        DateMath::DateDiff(
            CalculatedDate::Raw(date(2021, 1, 31)),
            CalculatedDate::Raw(date(2021, 1, 24)),
        )
    );
    assert_eq!(
        "7 days",
        parsed("2021-01-31 - 2021-01-24", today).compute(today).to_string()
    );
}

#[test]
fn test_keyword_matches_as_prefix() {
    let today = date(2022, 1, 31);

    match parse("nowhere", &today) {
        ParseResult::PartialSuccess(m, rest) => {
            assert_eq!(m, DateMath::Start(CalculatedDate::Today));
            assert_eq!(rest, "here");
        },
        other => panic!("expected a partial parse: {:?}", other),
    }
}

#[test]
fn test_outcome_renders_date_iso() {
    let result = DateMath::Start(CalculatedDate::Raw(date(2021, 7, 5))).compute(date(2022, 1, 31));

    assert_eq!("2021-07-05", result.to_string());
}
