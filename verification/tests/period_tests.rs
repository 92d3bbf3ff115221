use datemath::period::parse;
use datemath::period_operation;
use datemath::{Period, PeriodOp};

#[test]
fn test_duration() {
    assert_eq!(parse("1 day").unwrap().0, Period::Day(1));
    assert_eq!(parse("2 days").unwrap().0, Period::Day(2));
    assert_eq!(parse("300 days").unwrap().0, Period::Day(300));

    assert_eq!(parse("1 week").unwrap().0, Period::Week(1));
    assert_eq!(parse("2 weeks").unwrap().0, Period::Week(2));
    assert_eq!(parse("300 weeks").unwrap().0, Period::Week(300));

    assert_eq!(parse("1 month").unwrap().0, Period::Month(1));
    assert_eq!(parse("2 months").unwrap().0, Period::Month(2));
    assert_eq!(parse("300 months").unwrap().0, Period::Month(300));

    assert_eq!(parse("1 year").unwrap().0, Period::Year(1));
    assert_eq!(parse("2 years").unwrap().0, Period::Year(2));
    assert_eq!(parse("300 years").unwrap().0, Period::Year(300));
}

#[test]
fn test_nonsense() {
    assert!(parse("1day").is_none());
}

#[test]
fn test_spelled_numbers() {
    assert_eq!(parse("two days").unwrap().0, Period::Day(2));
}

#[test]
fn test_spelled_numbers_all() {
    assert_eq!(parse("one year").unwrap().0, Period::Year(1));
    assert_eq!(parse("seven weeks").unwrap().0, Period::Week(7));
    assert_eq!(parse("twelve months").unwrap().0, Period::Month(12));
    assert!(parse("thirteen days").is_none());
}

#[test]
fn test_to_duration() {
    assert_eq!(Period::Day(2).to_duration(), 2);
    assert_eq!(Period::Week(3).to_duration(), 21);
    assert_eq!(Period::Month(2).to_duration(), 60);
    assert_eq!(Period::Year(1).to_duration(), 365);
}

#[test]
fn test_render() {
    assert_eq!(Period::Day(1).render(), "1 day");
    assert_eq!(Period::Day(2).render(), "2 days");
    assert_eq!(Period::Week(300).render(), "300 weeks");
    assert_eq!(Period::Year(1).render(), "1 year");
}

#[test]
fn test_render_round_trip() {
    let samples = vec![
        Period::Day(1),
        Period::Day(2),
        Period::Week(300),
        Period::Month(12),
        Period::Year(7),
        Period::Year(1),
    ];
    for p in samples {
        let text = p.render();
        let (q, rest) = parse(&text).unwrap();
        assert_eq!(q, p);
        assert_eq!(rest, "");
    }
}

#[test]
fn test_add() {
    assert_eq!(
        period_operation::parse("+ 2 weeks").unwrap().0,
        PeriodOp::Add(Period::Week(2))
    );

    assert_eq!(
        period_operation::parse("   +    2 weeks").unwrap().0,
        PeriodOp::Add(Period::Week(2))
    );
}

#[test]
fn test_subtract() {
    assert_eq!(
        period_operation::parse("- 3 days").unwrap().0,
        PeriodOp::Subtract(Period::Day(3))
    );

    assert_eq!(
        period_operation::parse("   -    3 days").unwrap().0,
        PeriodOp::Subtract(Period::Day(3))
    );
}
