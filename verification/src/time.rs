//! The clock-time grammar, a subsystem of its own: military four-digit
//! times, bare hours with an am/pm suffix, `H:MM` and `H:MM:SS` forms.
//! Hours of twelve-hour forms lie in 1..=12, military hours in 0..=23,
//! minutes and seconds in 0..=59; anything out of range is a grammar
//! mismatch, never clamped.

use crate::parser_utils::{digit_val, digits_value, is_digit, spec_parse_digits, str_to_chars, tag_match};
use vstd::prelude::*;
use vstd::string::StrSliceExecFns;

verus! {

/// Morning or afternoon.
#[derive(Clone, Copy, Debug, PartialEq, Eq, Structural)]
pub enum AmPm {
    Am,
    Pm,
}

/// A parsed time before it is fixed on the 24-hour clock.
#[derive(Clone, Copy, Debug, PartialEq, Eq, Structural)]
pub enum TimeValue {
    Hour(u32, AmPm),
    HourMinute(u32, u32, AmPm),
    HourMinuteSecond(u32, u32, u32, AmPm),
}

/// A time of day on the 24-hour clock.
#[derive(Clone, Copy, Debug, PartialEq, Eq, Structural)]
pub struct ClockTime {
    pub hour: u32,
    pub minute: u32,
    pub second: u32,
}

/// The time `h`:`m`:`s`, if the three numbers lie on the clock.
pub open spec fn spec_hms(h: int, m: int, s: int) -> Option<ClockTime> {
    if 0 <= h < 24 && 0 <= m < 60 && 0 <= s < 60 {
        Some(ClockTime { hour: h as u32, minute: m as u32, second: s as u32 })
    } else {
        None
    }
}

impl TimeValue {
    /// This value fixed on the 24-hour clock: a `Pm` hour below 12 is
    /// moved forward by 12 hours.
    pub open spec fn spec_to_clock(self) -> Option<ClockTime> {
        match self {
            TimeValue::Hour(h, AmPm::Am) => spec_hms(h as int, 0, 0),
            TimeValue::Hour(h, AmPm::Pm) => if h < 12 {
                spec_hms(h as int + 12, 0, 0)
            } else {
                spec_hms(h as int, 0, 0)
            },
            TimeValue::HourMinute(h, m, AmPm::Am) => spec_hms(h as int, m as int, 0),
            TimeValue::HourMinute(h, m, AmPm::Pm) => if h < 12 {
                spec_hms(h as int + 12, m as int, 0)
            } else {
                spec_hms(h as int, m as int, 0)
            },
            TimeValue::HourMinuteSecond(h, m, s, AmPm::Am) => spec_hms(h as int, m as int, s as int),
            TimeValue::HourMinuteSecond(h, m, s, AmPm::Pm) => if h < 12 {
                spec_hms(h as int + 12, m as int, s as int)
            } else {
                spec_hms(h as int, m as int, s as int)
            },
        }
    }

    /// Fixes this value on the 24-hour clock.
    pub fn to_clock_time(&self) -> (r: Option<ClockTime>)
        ensures
            r == self.spec_to_clock(),
    {
        match self {
            TimeValue::Hour(h, ap) => {
                let hh = if matches!(ap, AmPm::Pm) && *h < 12 {
                    *h + 12
                } else {
                    *h
                };
                hms_opt(hh, 0, 0)
            },
            TimeValue::HourMinute(h, m, ap) => {
                let hh = if matches!(ap, AmPm::Pm) && *h < 12 {
                    *h + 12
                } else {
                    *h
                };
                hms_opt(hh, *m, 0)
            },
            TimeValue::HourMinuteSecond(h, m, s, ap) => {
                let hh = if matches!(ap, AmPm::Pm) && *h < 12 {
                    *h + 12
                } else {
                    *h
                };
                hms_opt(hh, *m, *s)
            },
        }
    }
}

fn hms_opt(h: u32, m: u32, s: u32) -> (r: Option<ClockTime>)
    ensures
        r == spec_hms(h as int, m as int, s as int),
{
    if h < 24 && m < 60 && s < 60 {
        Some(ClockTime { hour: h, minute: m, second: s })
    } else {
        None
    }
}

/// A military hour lies below 24.
pub fn is_within_24_hours(v: u32) -> (b: bool)
    ensures
        b == (v < 24),
{
    v < 24
}

/// A twelve-hour-clock reading lies between 1 and 12.
pub fn is_within_12_hours(v: u32) -> (b: bool)
    ensures
        b == (1 <= v <= 12),
{
    1 <= v && v <= 12
}

/// A minute or second lies below 60.
pub fn is_within_0_60(v: u32) -> (b: bool)
    ensures
        b == (v < 60),
{
    v < 60
}

/// Exactly two digits, read as a number.
pub open spec fn spec_two_digits(s: Seq<char>, i: int) -> Option<(int, int)> {
    if 0 <= i && i + 2 <= s.len() && is_digit(s[i]) && is_digit(s[i + 1]) {
        Some((digits_value(s, i, i + 2), i + 2))
    } else {
        None
    }
}

/// Exactly one digit, read as a number.
pub open spec fn spec_one_digit(s: Seq<char>, i: int) -> Option<(int, int)> {
    if 0 <= i && i + 1 <= s.len() && is_digit(s[i]) {
        Some((digits_value(s, i, i + 1), i + 1))
    } else {
        None
    }
}

/// A twelve-hour-clock hour: two digits, else one, each between 1 and
/// 12.
pub open spec fn spec_12_hour(s: Seq<char>, i: int) -> Option<(int, int)> {
    match spec_two_digits(s, i) {
        Some((v, j)) if 1 <= v <= 12 => Some((v, j)),
        _ => match spec_one_digit(s, i) {
            Some((v, j)) if 1 <= v <= 12 => Some((v, j)),
            _ => None,
        },
    }
}

/// A two-digit military hour, below 24.
pub open spec fn spec_24_hour_two_digit(s: Seq<char>, i: int) -> Option<(int, int)> {
    match spec_two_digits(s, i) {
        Some((v, j)) if v < 24 => Some((v, j)),
        _ => None,
    }
}

/// A digit run below 24.
pub open spec fn spec_24_hour(s: Seq<char>, i: int) -> Option<(int, int)> {
    match spec_parse_digits(s, i) {
        Some((v, j)) if v < 24 => Some((v, j)),
        _ => None,
    }
}

/// Two digits below 60.
pub open spec fn spec_0_60(s: Seq<char>, i: int) -> Option<(int, int)> {
    match spec_two_digits(s, i) {
        Some((v, j)) if v < 60 => Some((v, j)),
        _ => None,
    }
}

/// The am/pm suffix, in any of its accepted spellings.
pub open spec fn spec_am_pm(s: Seq<char>, i: int) -> Option<(AmPm, int)> {
    if tag_match(s, i, "am"@) || tag_match(s, i, "AM"@) || tag_match(s, i, "Am"@) || tag_match(
        s,
        i,
        "aM"@,
    ) {
        Some((AmPm::Am, i + 2))
    } else if tag_match(s, i, "a"@) || tag_match(s, i, "A"@) {
        Some((AmPm::Am, i + 1))
    } else if tag_match(s, i, "pm"@) || tag_match(s, i, "PM"@) || tag_match(s, i, "Pm"@)
        || tag_match(s, i, "pM"@) {
        Some((AmPm::Pm, i + 2))
    } else if tag_match(s, i, "p"@) || tag_match(s, i, "P"@) {
        Some((AmPm::Pm, i + 1))
    } else {
        None
    }
}

/// An hour and minutes, the hour on the twelve-hour clock, a colon
/// allowed between them.
pub open spec fn spec_hours_minutes(s: Seq<char>, i: int) -> Option<((int, int), int)> {
    match spec_12_hour(s, i) {
        None => None,
        Some((h, j)) => {
            let j1 = if tag_match(s, j, ":"@) {
                j + 1
            } else {
                j
            };
            match spec_0_60(s, j1) {
                None => None,
                Some((m, k)) => Some(((h, m), k)),
            }
        },
    }
}

/// An hour and minutes, the hour on the 24-hour clock.
pub open spec fn spec_24_hours_minutes(s: Seq<char>, i: int) -> Option<((int, int), int)> {
    match spec_24_hour(s, i) {
        None => None,
        Some((h, j)) => {
            let j1 = if tag_match(s, j, ":"@) {
                j + 1
            } else {
                j
            };
            match spec_0_60(s, j1) {
                None => None,
                Some((m, k)) => Some(((h, m), k)),
            }
        },
    }
}

/// Hour, minutes and seconds, separated by colons.
pub open spec fn spec_hours_minutes_seconds(s: Seq<char>, i: int) -> Option<
    ((int, int, int), int),
> {
    match spec_12_hour(s, i) {
        None => None,
        Some((h, j)) => {
            if tag_match(s, j, ":"@) {
                match spec_0_60(s, j + 1) {
                    None => None,
                    Some((m, k)) => {
                        if tag_match(s, k, ":"@) {
                            match spec_0_60(s, k + 1) {
                                None => None,
                                Some((sec, e)) => Some(((h, m, sec), e)),
                            }
                        } else {
                            None
                        }
                    },
                }
            } else {
                None
            }
        },
    }
}

/// Military time: a two-digit hour below 24 and two-digit minutes; an
/// hour past 12 stands for the afternoon.
pub open spec fn spec_military(s: Seq<char>, i: int) -> Option<(ClockTime, int)> {
    match spec_24_hour_two_digit(s, i) {
        None => None,
        Some((h, j)) => match spec_0_60(s, j) {
            None => None,
            Some((m, k)) => {
                let tv = if h > 12 {
                    TimeValue::HourMinute((h - 12) as u32, m as u32, AmPm::Pm)
                } else {
                    TimeValue::HourMinute(h as u32, m as u32, AmPm::Am)
                };
                match tv.spec_to_clock() {
                    None => None,
                    Some(ct) => Some((ct, k)),
                }
            },
        },
    }
}

/// A bare twelve-hour-clock hour with an am/pm suffix.
pub open spec fn spec_alt_hour(s: Seq<char>, i: int) -> Option<(ClockTime, int)> {
    match spec_12_hour(s, i) {
        None => None,
        Some((h, j)) => {
            let j1 = crate::parser_utils::space_run_end(s, j);
            match spec_am_pm(s, j1) {
                None => None,
                Some((ap, k)) => match TimeValue::Hour(h as u32, ap).spec_to_clock() {
                    None => None,
                    Some(ct) => Some((ct, k)),
                },
            }
        },
    }
}

/// Hour and minutes with an am/pm suffix.
pub open spec fn spec_alt_hm(s: Seq<char>, i: int) -> Option<(ClockTime, int)> {
    match spec_hours_minutes(s, i) {
        None => None,
        Some(((h, m), j)) => {
            let j1 = crate::parser_utils::space_run_end(s, j);
            match spec_am_pm(s, j1) {
                None => None,
                Some((ap, k)) => match TimeValue::HourMinute(h as u32, m as u32, ap).spec_to_clock() {
                    None => None,
                    Some(ct) => Some((ct, k)),
                },
            }
        },
    }
}

/// A 24-hour-clock hour and minutes that stand alone to the end of the
/// text; an hour past 12 stands for the afternoon.
pub open spec fn spec_alt_24hm(s: Seq<char>, i: int) -> Option<(ClockTime, int)> {
    match spec_24_hours_minutes(s, i) {
        None => None,
        Some(((h, m), j)) => {
            if j == s.len() {
                let tv = if h > 12 {
                    TimeValue::HourMinute((h - 12) as u32, m as u32, AmPm::Pm)
                } else {
                    TimeValue::HourMinute(h as u32, m as u32, AmPm::Am)
                };
                match tv.spec_to_clock() {
                    None => None,
                    Some(ct) => Some((ct, j)),
                }
            } else {
                None
            }
        },
    }
}

/// Hour, minutes and seconds with an am/pm suffix.
pub open spec fn spec_alt_hms(s: Seq<char>, i: int) -> Option<(ClockTime, int)> {
    match spec_hours_minutes_seconds(s, i) {
        None => None,
        Some(((h, m, sec), j)) => {
            let j1 = crate::parser_utils::space_run_end(s, j);
            match spec_am_pm(s, j1) {
                None => None,
                Some((ap, k)) => match TimeValue::HourMinuteSecond(
                    h as u32,
                    m as u32,
                    sec as u32,
                    ap,
                ).spec_to_clock() {
                    None => None,
                    Some(ct) => Some((ct, k)),
                },
            }
        },
    }
}

/// Where the clock-time grammar accepts: the five forms in their fixed
/// order of priority.
pub open spec fn spec_parse_time(s: Seq<char>, i: int) -> Option<(ClockTime, int)> {
    if spec_military(s, i) is Some {
        spec_military(s, i)
    } else if spec_alt_hour(s, i) is Some {
        spec_alt_hour(s, i)
    } else if spec_alt_hm(s, i) is Some {
        spec_alt_hm(s, i)
    } else if spec_alt_24hm(s, i) is Some {
        spec_alt_24hm(s, i)
    } else {
        spec_alt_hms(s, i)
    }
}

fn two_digits_at(s: &Vec<char>, i: usize) -> (r: Option<(u32, usize)>)
    requires
        i <= s@.len(),
    ensures
        match r {
            Some((v, j)) => spec_two_digits(s@, i as int) == Some((v as int, j as int)) && v < 100
                && i < j <= s@.len(),
            None => spec_two_digits(s@, i as int) is None,
        },
{
    let sl = s.len();
    if i >= sl || sl - i < 2 {
        return None;
    }
    let c0 = s[i];
    let c1 = s[i + 1];
    if 48 <= c0 as u32 && c0 as u32 <= 57 && 48 <= c1 as u32 && c1 as u32 <= 57 {
        proof {
            assert(digits_value(s@, i as int, i as int) == 0);
            assert(digits_value(s@, i as int, i as int + 1) == digit_val(s@[i as int]));
            assert(digits_value(s@, i as int, i as int + 2) == digits_value(
                s@,
                i as int,
                i as int + 1,
            ) * 10 + digit_val(s@[i as int + 1]));
        }
        Some(((c0 as u32 - 48) * 10 + (c1 as u32 - 48), i + 2))
    } else {
        None
    }
}

fn one_digit_at(s: &Vec<char>, i: usize) -> (r: Option<(u32, usize)>)
    requires
        i <= s@.len(),
    ensures
        match r {
            Some((v, j)) => spec_one_digit(s@, i as int) == Some((v as int, j as int)) && v < 10
                && i < j <= s@.len(),
            None => spec_one_digit(s@, i as int) is None,
        },
{
    let sl = s.len();
    if i >= sl {
        return None;
    }
    let c0 = s[i];
    if 48 <= c0 as u32 && c0 as u32 <= 57 {
        proof {
            assert(digits_value(s@, i as int, i as int) == 0);
            assert(digits_value(s@, i as int, i as int + 1) == digit_val(s@[i as int]));
        }
        Some((c0 as u32 - 48, i + 1))
    } else {
        None
    }
}

fn hour12_at(s: &Vec<char>, i: usize) -> (r: Option<(u32, usize)>)
    requires
        i <= s@.len(),
    ensures
        match r {
            Some((v, j)) => spec_12_hour(s@, i as int) == Some((v as int, j as int)) && 1 <= v
                <= 12 && i < j <= s@.len(),
            None => spec_12_hour(s@, i as int) is None,
        },
{
    match two_digits_at(s, i) {
        Some((v, j)) if 1 <= v && v <= 12 => Some((v, j)),
        _ => match one_digit_at(s, i) {
            Some((v, j)) if 1 <= v && v <= 12 => Some((v, j)),
            _ => None,
        },
    }
}

fn minute_at(s: &Vec<char>, i: usize) -> (r: Option<(u32, usize)>)
    requires
        i <= s@.len(),
    ensures
        match r {
            Some((v, j)) => spec_0_60(s@, i as int) == Some((v as int, j as int)) && v < 60 && i
                < j <= s@.len(),
            None => spec_0_60(s@, i as int) is None,
        },
{
    match two_digits_at(s, i) {
        Some((v, j)) if v < 60 => Some((v, j)),
        _ => None,
    }
}

fn am_pm_at(s: &Vec<char>, i: usize) -> (r: Option<(AmPm, usize)>)
    requires
        i <= s@.len(),
    ensures
        match r {
            Some((ap, j)) => spec_am_pm(s@, i as int) == Some((ap, j as int)) && i < j <= s@.len(),
            None => spec_am_pm(s@, i as int) is None,
        },
{
    let sl = s.len();
    if crate::parser_utils::match_lit(s, i, "am") || crate::parser_utils::match_lit(s, i, "AM")
        || crate::parser_utils::match_lit(s, i, "Am") || crate::parser_utils::match_lit(
        s,
        i,
        "aM",
    ) {
        proof {
            reveal_strlit("am");
            reveal_strlit("AM");
            reveal_strlit("Am");
            reveal_strlit("aM");
        }
        Some((AmPm::Am, i + 2))
    } else if crate::parser_utils::match_lit(s, i, "a") || crate::parser_utils::match_lit(
        s,
        i,
        "A",
    ) {
        proof {
            reveal_strlit("a");
            reveal_strlit("A");
        }
        Some((AmPm::Am, i + 1))
    } else if crate::parser_utils::match_lit(s, i, "pm") || crate::parser_utils::match_lit(
        s,
        i,
        "PM",
    ) || crate::parser_utils::match_lit(s, i, "Pm") || crate::parser_utils::match_lit(
        s,
        i,
        "pM",
    ) {
        proof {
            reveal_strlit("pm");
            reveal_strlit("PM");
            reveal_strlit("Pm");
            reveal_strlit("pM");
        }
        Some((AmPm::Pm, i + 2))
    } else if crate::parser_utils::match_lit(s, i, "p") || crate::parser_utils::match_lit(
        s,
        i,
        "P",
    ) {
        proof {
            reveal_strlit("p");
            reveal_strlit("P");
        }
        Some((AmPm::Pm, i + 1))
    } else {
        None
    }
}

fn military_at(s: &Vec<char>, i: usize) -> (r: Option<(ClockTime, usize)>)
    requires
        i <= s@.len(),
    ensures
        match r {
            Some((ct, j)) => spec_military(s@, i as int) == Some((ct, j as int)) && i < j
                <= s@.len(),
            None => spec_military(s@, i as int) is None,
        },
{
    match two_digits_at(s, i) {
        Some((h, j)) if h < 24 => match minute_at(s, j) {
            Some((m, k)) => {
                let tv = if h > 12 {
                    TimeValue::HourMinute(h - 12, m, AmPm::Pm)
                } else {
                    TimeValue::HourMinute(h, m, AmPm::Am)
                };
                match tv.to_clock_time() {
                    Some(ct) => Some((ct, k)),
                    None => None,
                }
            },
            None => None,
        },
        _ => None,
    }
}

fn alt_hour_at(s: &Vec<char>, i: usize) -> (r: Option<(ClockTime, usize)>)
    requires
        i <= s@.len(),
    ensures
        match r {
            Some((ct, j)) => spec_alt_hour(s@, i as int) == Some((ct, j as int)) && i < j
                <= s@.len(),
            None => spec_alt_hour(s@, i as int) is None,
        },
{
    match hour12_at(s, i) {
        None => None,
        Some((h, j)) => {
            let j1 = crate::parser_utils::skip_spaces(s, j);
            match am_pm_at(s, j1) {
                None => None,
                Some((ap, k)) => match TimeValue::Hour(h, ap).to_clock_time() {
                    Some(ct) => Some((ct, k)),
                    None => None,
                },
            }
        },
    }
}

fn hours_minutes_at(s: &Vec<char>, i: usize) -> (r: Option<(u32, u32, usize)>)
    requires
        i <= s@.len(),
    ensures
        match r {
            Some((h, m, j)) => spec_hours_minutes(s@, i as int) == Some(
                ((h as int, m as int), j as int),
            ) && i < j <= s@.len() && 1 <= h <= 12 && m < 60,
            None => spec_hours_minutes(s@, i as int) is None,
        },
{
    let sl = s.len();
    match hour12_at(s, i) {
        None => None,
        Some((h, j)) => {
            let j1 = if crate::parser_utils::match_lit(s, j, ":") {
                proof {
                    reveal_strlit(":");
                }
                j + 1
            } else {
                j
            };
            match minute_at(s, j1) {
                None => None,
                Some((m, k)) => Some((h, m, k)),
            }
        },
    }
}

fn alt_hm_at(s: &Vec<char>, i: usize) -> (r: Option<(ClockTime, usize)>)
    requires
        i <= s@.len(),
    ensures
        match r {
            Some((ct, j)) => spec_alt_hm(s@, i as int) == Some((ct, j as int)) && i < j
                <= s@.len(),
            None => spec_alt_hm(s@, i as int) is None,
        },
{
    match hours_minutes_at(s, i) {
        None => None,
        Some((h, m, j)) => {
            let j1 = crate::parser_utils::skip_spaces(s, j);
            match am_pm_at(s, j1) {
                None => None,
                Some((ap, k)) => match TimeValue::HourMinute(h, m, ap).to_clock_time() {
                    Some(ct) => Some((ct, k)),
                    None => None,
                },
            }
        },
    }
}

fn alt_24hm_at(s: &Vec<char>, i: usize) -> (r: Option<(ClockTime, usize)>)
    requires
        i <= s@.len(),
    ensures
        match r {
            Some((ct, j)) => spec_alt_24hm(s@, i as int) == Some((ct, j as int)) && i < j
                <= s@.len(),
            None => spec_alt_24hm(s@, i as int) is None,
        },
{
    let sl = s.len();
    let h24 = match crate::parser_utils::parse_digits(s, i) {
        Some((v, j)) if v < 24 => Some((v as u32, j)),
        _ => None,
    };
    match h24 {
        None => None,
        Some((h, j)) => {
            let j1 = if crate::parser_utils::match_lit(s, j, ":") {
                proof {
                    reveal_strlit(":");
                }
                j + 1
            } else {
                j
            };
            match minute_at(s, j1) {
                None => None,
                Some((m, k)) => {
                    if k == sl {
                        let tv = if h > 12 {
                            TimeValue::HourMinute(h - 12, m, AmPm::Pm)
                        } else {
                            TimeValue::HourMinute(h, m, AmPm::Am)
                        };
                        match tv.to_clock_time() {
                            Some(ct) => Some((ct, k)),
                            None => None,
                        }
                    } else {
                        None
                    }
                },
            }
        },
    }
}

fn alt_hms_at(s: &Vec<char>, i: usize) -> (r: Option<(ClockTime, usize)>)
    requires
        i <= s@.len(),
    ensures
        match r {
            Some((ct, j)) => spec_alt_hms(s@, i as int) == Some((ct, j as int)) && i < j
                <= s@.len(),
            None => spec_alt_hms(s@, i as int) is None,
        },
{
    let sl = s.len();
    match hour12_at(s, i) {
        None => None,
        Some((h, j)) => {
            if crate::parser_utils::match_lit(s, j, ":") {
                proof {
                    reveal_strlit(":");
                }
                match minute_at(s, j + 1) {
                    None => None,
                    Some((m, k)) => {
                        if crate::parser_utils::match_lit(s, k, ":") {
                            match minute_at(s, k + 1) {
                                None => None,
                                Some((sec, e)) => {
                                    let j1 = crate::parser_utils::skip_spaces(s, e);
                                    match am_pm_at(s, j1) {
                                        None => None,
                                        Some((ap, f)) => match TimeValue::HourMinuteSecond(
                                            h,
                                            m,
                                            sec,
                                            ap,
                                        ).to_clock_time() {
                                            Some(ct) => Some((ct, f)),
                                            None => None,
                                        },
                                    }
                                },
                            }
                        } else {
                            None
                        }
                    },
                }
            } else {
                None
            }
        },
    }
}

/// Reads a clock time at position `i`, trying the five forms in order.
pub fn parse_at(s: &Vec<char>, i: usize) -> (r: Option<(ClockTime, usize)>)
    requires
        i <= s@.len(),
    ensures
        match r {
            Some((ct, j)) => spec_parse_time(s@, i as int) == Some((ct, j as int)) && i < j
                <= s@.len(),
            None => spec_parse_time(s@, i as int) is None,
        },
{
    if let Some(r) = military_at(s, i) {
        return Some(r);
    }
    if let Some(r) = alt_hour_at(s, i) {
        return Some(r);
    }
    if let Some(r) = alt_hm_at(s, i) {
        return Some(r);
    }
    if let Some(r) = alt_24hm_at(s, i) {
        return Some(r);
    }
    alt_hms_at(s, i)
}

/// Reads a clock time from the front of `input`; yields the time and
/// the unread rest of the text.
pub fn parse(input: &str) -> (r: Option<(ClockTime, String)>)
    ensures
        match r {
            Some((ct, rest)) => {
                &&& spec_parse_time(input@, 0) matches Some((q, j)) && q == ct && rest@
                    == input@.subrange(j, input@.len() as int)
            },
            None => spec_parse_time(input@, 0) is None,
        },
{
    let chars = str_to_chars(input);
    match parse_at(&chars, 0) {
        None => None,
        Some((ct, j)) => {
            let n = input.unicode_len();
            let rest = input.substring_char(j, n).to_owned();
            Some((ct, rest))
        },
    }
}

} // verus!
