use datemath::time::{parse, AmPm, ClockTime, TimeValue};

fn hms(hour: u32, minute: u32, second: u32) -> ClockTime {
    ClockTime { hour, minute, second }
}

#[test]
fn test_time_smoke() {
    let examples = vec![
        "3pm",
        "9am",
        "09am",
        "12:15pm",
        "15:30",
        "1530",
        "0930",
        "930a",
        "0030",
        "3 pm",
        "9 am",
        "09 am",
        "12:15 pm",
        "930 a",
        "12:00:30pm",
        "2359",
    ];

    assert!(examples.iter().map(|v| parse(v)).all(|v| v.is_some()));

    let failures = vec!["13pm", "13:20pm", "19:20am", "17", "369"];

    assert!(failures.iter().map(|v| parse(v)).all(|v| v.is_none()));
}

#[test]
fn test_time_military() {
    assert_eq!(parse("1330").unwrap().0, hms(13, 30, 0));
}

#[test]
fn test_time_values() {
    assert_eq!(parse("3pm").unwrap().0, hms(15, 0, 0));
    assert_eq!(parse("12:15pm").unwrap().0, hms(12, 15, 0));
    assert_eq!(parse("12:15am").unwrap().0, hms(12, 15, 0));
    assert_eq!(parse("0030").unwrap().0, hms(0, 30, 0));
    assert_eq!(parse("15:30").unwrap().0, hms(15, 30, 0));
    assert_eq!(parse("12:00:30pm").unwrap().0, hms(12, 0, 30));
    assert_eq!(parse("930a").unwrap().0, hms(9, 30, 0));
}

#[test]
fn test_twelve_hour_forms_reject_hour_zero() {
    // the twelve-hour clock starts at 1; a zero hour is a mismatch
    assert!(parse("0am").is_none());
    assert!(parse("0:30am").is_none());
    assert!(parse("00:30pm").is_none());

    assert_eq!(parse("1am").unwrap().0, hms(1, 0, 0));
    assert_eq!(parse("12am").unwrap().0, hms(12, 0, 0));
    // a zero hour stays readable on the 24-hour and military forms
    assert_eq!(parse("0:30").unwrap().0, hms(0, 30, 0));
    assert_eq!(parse("0030").unwrap().0, hms(0, 30, 0));
}

#[test]
fn test_to_clock_time() {
    assert_eq!(TimeValue::Hour(3, AmPm::Pm).to_clock_time(), Some(hms(15, 0, 0)));
    assert_eq!(TimeValue::Hour(12, AmPm::Pm).to_clock_time(), Some(hms(12, 0, 0)));
    assert_eq!(
        TimeValue::HourMinute(12, 15, AmPm::Am).to_clock_time(),
        Some(hms(12, 15, 0))
    );
    assert_eq!(TimeValue::HourMinuteSecond(24, 0, 0, AmPm::Am).to_clock_time(), None);
    assert_eq!(TimeValue::HourMinute(10, 60, AmPm::Am).to_clock_time(), None);
}
