//! The anchor-date grammar. An anchor is one of the keywords `today`,
//! `now`, `yesterday`, `tomorrow`, or a literal date in one of the
//! accepted formats, tried in this order:
//!
//! * `YYYY-M-D` (month and day of one or two digits, checked as a real
//!   calendar day),
//! * `Mon D, YYYY` (three-letter month name),
//! * `Month D` (month name, year taken from the reference date),
//! * `Month D, YYYY` (full or three-letter month name),
//! * `M/D/YYYY`.
//!
//! Month names match without regard to ASCII case. For the formats
//! after the first, the grammar takes the whole stretch of text up to
//! the next `+` or `-` (so that a full literal date is consumed before
//! any higher rule may split on a sign), strips blanks at both ends,
//! and requires one format to cover the stretch exactly.

use crate::date::{days_from_ymd, valid_ymd, year_of_day_number, Date, MAX_DAY_COUNT};
use crate::parser_utils::{
    bounded_digits, space_run_end, spec_parse_digits, str_to_chars, tag_match, tag_match_ci,
    trim_from, trim_to,
};
use vstd::prelude::*;
use vstd::string::StrSliceExecFns;

verus! {

/// An anchor: a keyword resolved against the reference date only at
/// evaluation time, or a literal date that is already concrete.
#[derive(Clone, Copy, Debug, PartialEq, Eq, Structural)]
pub enum CalculatedDate {
    Today,
    Yesterday,
    Tomorrow,
    Raw(Date),
}

/// Specification shape of an anchor: a literal date appears as its day
/// number.
pub ghost enum AnchorView {
    Today,
    Yesterday,
    Tomorrow,
    Literal(int),
}

impl View for CalculatedDate {
    type V = AnchorView;

    open spec fn view(&self) -> AnchorView {
        match *self {
            CalculatedDate::Today => AnchorView::Today,
            CalculatedDate::Yesterday => AnchorView::Yesterday,
            CalculatedDate::Tomorrow => AnchorView::Tomorrow,
            CalculatedDate::Raw(d) => AnchorView::Literal(d@),
        }
    }
}

/// Day number of an anchor, given the reference date's day number.
pub open spec fn resolve_anchor(a: AnchorView, today: int) -> int {
    match a {
        AnchorView::Today => today,
        AnchorView::Yesterday => today - 1,
        AnchorView::Tomorrow => today + 1,
        AnchorView::Literal(n) => n,
    }
}

impl CalculatedDate {
    /// The concrete date this anchor names, relative to `today`.
    pub fn calculate(&self, today: Date) -> (r: Date)
        requires
            0 <= resolve_anchor(self@, today@) <= MAX_DAY_COUNT,
        ensures
            r@ == resolve_anchor(self@, today@),
    {
        match self {
            CalculatedDate::Raw(v) => *v,
            CalculatedDate::Today => today,
            CalculatedDate::Yesterday => today.sub_days(1),
            CalculatedDate::Tomorrow => today.add_days(1),
        }
    }
}

/// The characters on which the top-level grammar may split.
pub open spec fn is_sign(c: char) -> bool {
    c == '+' || c == '-'
}

/// First position at or after `i` that holds a `+` or `-`, or the end.
pub open spec fn sign_end(s: Seq<char>, i: int) -> int
    decreases s.len() - i,
{
    if 0 <= i < s.len() && !is_sign(s[i]) {
        sign_end(s, i + 1)
    } else {
        i
    }
}

/// Three-letter month names, tried in calendar order.
pub open spec fn spec_month_abbr(s: Seq<char>, i: int) -> Option<(int, int)> {
    if tag_match_ci(s, i, "jan"@) {
        Some((1, i + "jan"@.len()))
    } else if tag_match_ci(s, i, "feb"@) {
        Some((2, i + "feb"@.len()))
    } else if tag_match_ci(s, i, "mar"@) {
        Some((3, i + "mar"@.len()))
    } else if tag_match_ci(s, i, "apr"@) {
        Some((4, i + "apr"@.len()))
    } else if tag_match_ci(s, i, "may"@) {
        Some((5, i + "may"@.len()))
    } else if tag_match_ci(s, i, "jun"@) {
        Some((6, i + "jun"@.len()))
    } else if tag_match_ci(s, i, "jul"@) {
        Some((7, i + "jul"@.len()))
    } else if tag_match_ci(s, i, "aug"@) {
        Some((8, i + "aug"@.len()))
    } else if tag_match_ci(s, i, "sep"@) {
        Some((9, i + "sep"@.len()))
    } else if tag_match_ci(s, i, "oct"@) {
        Some((10, i + "oct"@.len()))
    } else if tag_match_ci(s, i, "nov"@) {
        Some((11, i + "nov"@.len()))
    } else if tag_match_ci(s, i, "dec"@) {
        Some((12, i + "dec"@.len()))
    } else {
        None
    }
}

/// Full month names, tried in calendar order.
pub open spec fn spec_month_full(s: Seq<char>, i: int) -> Option<(int, int)> {
    if tag_match_ci(s, i, "january"@) {
        Some((1, i + "january"@.len()))
    } else if tag_match_ci(s, i, "february"@) {
        Some((2, i + "february"@.len()))
    } else if tag_match_ci(s, i, "march"@) {
        Some((3, i + "march"@.len()))
    } else if tag_match_ci(s, i, "april"@) {
        Some((4, i + "april"@.len()))
    } else if tag_match_ci(s, i, "may"@) {
        Some((5, i + "may"@.len()))
    } else if tag_match_ci(s, i, "june"@) {
        Some((6, i + "june"@.len()))
    } else if tag_match_ci(s, i, "july"@) {
        Some((7, i + "july"@.len()))
    } else if tag_match_ci(s, i, "august"@) {
        Some((8, i + "august"@.len()))
    } else if tag_match_ci(s, i, "september"@) {
        Some((9, i + "september"@.len()))
    } else if tag_match_ci(s, i, "october"@) {
        Some((10, i + "october"@.len()))
    } else if tag_match_ci(s, i, "november"@) {
        Some((11, i + "november"@.len()))
    } else if tag_match_ci(s, i, "december"@) {
        Some((12, i + "december"@.len()))
    } else {
        None
    }
}

/// A month name: the full names first, then the three-letter ones.
pub open spec fn spec_month_name(s: Seq<char>, i: int) -> Option<(int, int)> {
    if spec_month_full(s, i) is Some {
        spec_month_full(s, i)
    } else {
        spec_month_abbr(s, i)
    }
}

/// `Mon D, YYYY`: three-letter month name, blanks, day, comma, blanks
/// allowed, year; the fields must cover `[lo, hi)` exactly.
pub open spec fn spec_fmt_abbr_dy(s: Seq<char>, lo: int, hi: int) -> Option<int> {
    match spec_month_abbr(s, lo) {
        None => None,
        Some((m, p1)) => {
            let p2 = space_run_end(s, p1);
            if p2 == p1 {
                None
            } else {
                match bounded_digits(s, p2, 2) {
                    None => None,
                    Some((d, p3)) => {
                        if tag_match(s, p3, ","@) {
                            let p4 = space_run_end(s, p3 + 1);
                            match bounded_digits(s, p4, 4) {
                                None => None,
                                Some((y, p5)) => {
                                    if p5 == hi && valid_ymd(y, m, d) {
                                        Some(days_from_ymd(y, m, d))
                                    } else {
                                        None
                                    }
                                },
                            }
                        } else {
                            None
                        }
                    },
                }
            }
        },
    }
}

/// `Month D`: month name, blanks, day; the year is the reference year.
pub open spec fn spec_fmt_month_d(s: Seq<char>, lo: int, hi: int, ref_year: int) -> Option<int> {
    match spec_month_name(s, lo) {
        None => None,
        Some((m, p1)) => {
            let p2 = space_run_end(s, p1);
            if p2 == p1 {
                None
            } else {
                match bounded_digits(s, p2, 2) {
                    None => None,
                    Some((d, p3)) => {
                        if p3 == hi && valid_ymd(ref_year, m, d) {
                            Some(days_from_ymd(ref_year, m, d))
                        } else {
                            None
                        }
                    },
                }
            }
        },
    }
}

/// `Month D, YYYY`: like `Mon D, YYYY` but with any month name.
pub open spec fn spec_fmt_month_dy(s: Seq<char>, lo: int, hi: int) -> Option<int> {
    match spec_month_name(s, lo) {
        None => None,
        Some((m, p1)) => {
            let p2 = space_run_end(s, p1);
            if p2 == p1 {
                None
            } else {
                match bounded_digits(s, p2, 2) {
                    None => None,
                    Some((d, p3)) => {
                        if tag_match(s, p3, ","@) {
                            let p4 = space_run_end(s, p3 + 1);
                            match bounded_digits(s, p4, 4) {
                                None => None,
                                Some((y, p5)) => {
                                    if p5 == hi && valid_ymd(y, m, d) {
                                        Some(days_from_ymd(y, m, d))
                                    } else {
                                        None
                                    }
                                },
                            }
                        } else {
                            None
                        }
                    },
                }
            }
        },
    }
}

/// `M/D/YYYY`.
pub open spec fn spec_fmt_slash(s: Seq<char>, lo: int, hi: int) -> Option<int> {
    match bounded_digits(s, lo, 2) {
        None => None,
        Some((m, p1)) => {
            if tag_match(s, p1, "/"@) {
                match bounded_digits(s, p1 + 1, 2) {
                    None => None,
                    Some((d, p2)) => {
                        if tag_match(s, p2, "/"@) {
                            match bounded_digits(s, p2 + 1, 4) {
                                None => None,
                                Some((y, p3)) => {
                                    if p3 == hi && valid_ymd(y, m, d) {
                                        Some(days_from_ymd(y, m, d))
                                    } else {
                                        None
                                    }
                                },
                            }
                        } else {
                            None
                        }
                    },
                }
            } else {
                None
            }
        },
    }
}

/// The literal-date formats over the stretch `[lo, hi)`, in their fixed
/// order of priority.
pub open spec fn spec_parse_date_in(s: Seq<char>, lo: int, hi: int, ref_year: int) -> Option<int> {
    if spec_fmt_abbr_dy(s, lo, hi) is Some {
        spec_fmt_abbr_dy(s, lo, hi)
    } else if spec_fmt_month_d(s, lo, hi, ref_year) is Some {
        spec_fmt_month_d(s, lo, hi, ref_year)
    } else if spec_fmt_month_dy(s, lo, hi) is Some {
        spec_fmt_month_dy(s, lo, hi)
    } else {
        spec_fmt_slash(s, lo, hi)
    }
}

/// `YYYY-M-D`: digits, `-`, one or two digits, `-`, one or two digits,
/// consumed greedily and checked as a real calendar day.
pub open spec fn spec_parse_dash_date(s: Seq<char>, i: int) -> Option<(int, int)> {
    match spec_parse_digits(s, i) {
        None => None,
        Some((y, j)) => {
            if tag_match(s, j, "-"@) {
                match bounded_digits(s, j + 1, 2) {
                    None => None,
                    Some((m, k)) => {
                        if tag_match(s, k, "-"@) {
                            match bounded_digits(s, k + 1, 2) {
                                None => None,
                                Some((d, e)) => {
                                    if valid_ymd(y, m, d) {
                                        Some((days_from_ymd(y, m, d), e))
                                    } else {
                                        None
                                    }
                                },
                            }
                        } else {
                            None
                        }
                    },
                }
            } else {
                None
            }
        },
    }
}

/// Where the anchor grammar accepts and what it yields. The keywords
/// come first, then the dash date, then the other literal formats over
/// the stretch up to the next sign.
pub open spec fn spec_parse_anchor(s: Seq<char>, i: int, ref_year: int) -> Option<
    (AnchorView, int),
> {
    if tag_match(s, i, "today"@) {
        Some((AnchorView::Today, i + "today"@.len()))
    } else if tag_match(s, i, "now"@) {
        Some((AnchorView::Today, i + "now"@.len()))
    } else if tag_match(s, i, "yesterday"@) {
        Some((AnchorView::Yesterday, i + "yesterday"@.len()))
    } else if tag_match(s, i, "tomorrow"@) {
        Some((AnchorView::Tomorrow, i + "tomorrow"@.len()))
    } else {
        match spec_parse_dash_date(s, i) {
            Some((n, e)) => Some((AnchorView::Literal(n), e)),
            None => {
                let e = sign_end(s, i);
                let lo = trim_from(s, i, e);
                let hi = trim_to(s, lo, e);
                match spec_parse_date_in(s, lo, hi, ref_year) {
                    Some(n) => Some((AnchorView::Literal(n), e)),
                    None => None,
                }
            },
        }
    }
}

/// First `+` or `-` at or after `i`, or the end of the text.
fn sign_end_at(s: &Vec<char>, i: usize) -> (j: usize)
    requires
        i <= s@.len(),
    ensures
        j as int == sign_end(s@, i as int),
        i <= j <= s@.len(),
{
    let len = s.len();
    let mut j = i;
    let mut done = false;
    while j < len && !done
        invariant
            i <= j <= len,
            len == s@.len(),
            !done ==> sign_end(s@, i as int) == sign_end(s@, j as int),
            done ==> sign_end(s@, i as int) == j as int,
        decreases len - j + if done {
            0int
        } else {
            1int
        },
    {
        let c = s[j];
        if c == '+' || c == '-' {
            done = true;
        } else {
            j += 1;
        }
    }
    j
}

fn month_abbr_at(s: &Vec<char>, i: usize) -> (r: Option<(u32, usize)>)
    requires
        i <= s@.len(),
    ensures
        match r {
            Some((m, j)) => spec_month_abbr(s@, i as int) == Some((m as int, j as int)) && 1 <= m
                <= 12 && i < j <= s@.len(),
            None => spec_month_abbr(s@, i as int) is None,
        },
{
    let sl = s.len();
    if crate::parser_utils::match_lit_ci(s, i, "jan") {
        proof {
            reveal_strlit("jan");
        }
        Some((1, i + 3))
    } else if crate::parser_utils::match_lit_ci(s, i, "feb") {
        proof {
            reveal_strlit("feb");
        }
        Some((2, i + 3))
    } else if crate::parser_utils::match_lit_ci(s, i, "mar") {
        proof {
            reveal_strlit("mar");
        }
        Some((3, i + 3))
    } else if crate::parser_utils::match_lit_ci(s, i, "apr") {
        proof {
            reveal_strlit("apr");
        }
        Some((4, i + 3))
    } else if crate::parser_utils::match_lit_ci(s, i, "may") {
        proof {
            reveal_strlit("may");
        }
        Some((5, i + 3))
    } else if crate::parser_utils::match_lit_ci(s, i, "jun") {
        proof {
            reveal_strlit("jun");
        }
        Some((6, i + 3))
    } else if crate::parser_utils::match_lit_ci(s, i, "jul") {
        proof {
            reveal_strlit("jul");
        }
        Some((7, i + 3))
    } else if crate::parser_utils::match_lit_ci(s, i, "aug") {
        proof {
            reveal_strlit("aug");
        }
        Some((8, i + 3))
    } else if crate::parser_utils::match_lit_ci(s, i, "sep") {
        proof {
            reveal_strlit("sep");
        }
        Some((9, i + 3))
    } else if crate::parser_utils::match_lit_ci(s, i, "oct") {
        proof {
            reveal_strlit("oct");
        }
        Some((10, i + 3))
    } else if crate::parser_utils::match_lit_ci(s, i, "nov") {
        proof {
            reveal_strlit("nov");
        }
        Some((11, i + 3))
    } else if crate::parser_utils::match_lit_ci(s, i, "dec") {
        proof {
            reveal_strlit("dec");
        }
        Some((12, i + 3))
    } else {
        None
    }
}

fn month_full_at(s: &Vec<char>, i: usize) -> (r: Option<(u32, usize)>)
    requires
        i <= s@.len(),
    ensures
        match r {
            Some((m, j)) => spec_month_full(s@, i as int) == Some((m as int, j as int)) && 1 <= m
                <= 12 && i < j <= s@.len(),
            None => spec_month_full(s@, i as int) is None,
        },
{
    let sl = s.len();
    if crate::parser_utils::match_lit_ci(s, i, "january") {
        proof {
            reveal_strlit("january");
        }
        Some((1, i + 7))
    } else if crate::parser_utils::match_lit_ci(s, i, "february") {
        proof {
            reveal_strlit("february");
        }
        Some((2, i + 8))
    } else if crate::parser_utils::match_lit_ci(s, i, "march") {
        proof {
            reveal_strlit("march");
        }
        Some((3, i + 5))
    } else if crate::parser_utils::match_lit_ci(s, i, "april") {
        proof {
            reveal_strlit("april");
        }
        Some((4, i + 5))
    } else if crate::parser_utils::match_lit_ci(s, i, "may") {
        proof {
            reveal_strlit("may");
        }
        Some((5, i + 3))
    } else if crate::parser_utils::match_lit_ci(s, i, "june") {
        proof {
            reveal_strlit("june");
        }
        Some((6, i + 4))
    } else if crate::parser_utils::match_lit_ci(s, i, "july") {
        proof {
            reveal_strlit("july");
        }
        Some((7, i + 4))
    } else if crate::parser_utils::match_lit_ci(s, i, "august") {
        proof {
            reveal_strlit("august");
        }
        Some((8, i + 6))
    } else if crate::parser_utils::match_lit_ci(s, i, "september") {
        proof {
            reveal_strlit("september");
        }
        Some((9, i + 9))
    } else if crate::parser_utils::match_lit_ci(s, i, "october") {
        proof {
            reveal_strlit("october");
        }
        Some((10, i + 7))
    } else if crate::parser_utils::match_lit_ci(s, i, "november") {
        proof {
            reveal_strlit("november");
        }
        Some((11, i + 8))
    } else if crate::parser_utils::match_lit_ci(s, i, "december") {
        proof {
            reveal_strlit("december");
        }
        Some((12, i + 8))
    } else {
        None
    }
}

fn month_name_at(s: &Vec<char>, i: usize) -> (r: Option<(u32, usize)>)
    requires
        i <= s@.len(),
    ensures
        match r {
            Some((m, j)) => spec_month_name(s@, i as int) == Some((m as int, j as int)) && 1 <= m
                <= 12 && i < j <= s@.len(),
            None => spec_month_name(s@, i as int) is None,
        },
{
    match month_full_at(s, i) {
        Some(r) => Some(r),
        None => month_abbr_at(s, i),
    }
}

fn fmt_abbr_dy_at(s: &Vec<char>, lo: usize, hi: usize) -> (r: Option<Date>)
    requires
        lo <= s@.len(),
    ensures
        match r {
            Some(dt) => spec_fmt_abbr_dy(s@, lo as int, hi as int) == Some(dt@),
            None => spec_fmt_abbr_dy(s@, lo as int, hi as int) is None,
        },
{
    let sl = s.len();
    match month_abbr_at(s, lo) {
        None => None,
        Some((m, p1)) => {
            let p2 = crate::parser_utils::skip_spaces(s, p1);
            if p2 == p1 {
                return None;
            }
            match crate::parser_utils::bounded_digits_at(s, p2, 2) {
                None => None,
                Some((d, p3)) => {
                    if crate::parser_utils::match_lit(s, p3, ",") {
                        proof {
                            reveal_strlit(",");
                        }
                        let p4 = crate::parser_utils::skip_spaces(s, p3 + 1);
                        match crate::parser_utils::bounded_digits_at(s, p4, 4) {
                            None => None,
                            Some((y, p5)) => {
                                if p5 == hi {
                                    Date::from_ymd(y as i32, m, d)
                                } else {
                                    None
                                }
                            },
                        }
                    } else {
                        None
                    }
                },
            }
        },
    }
}

fn fmt_month_d_at(s: &Vec<char>, lo: usize, hi: usize, ref_year: i32) -> (r: Option<Date>)
    requires
        lo <= s@.len(),
    ensures
        match r {
            Some(dt) => spec_fmt_month_d(s@, lo as int, hi as int, ref_year as int) == Some(dt@),
            None => spec_fmt_month_d(s@, lo as int, hi as int, ref_year as int) is None,
        },
{
    match month_name_at(s, lo) {
        None => None,
        Some((m, p1)) => {
            let p2 = crate::parser_utils::skip_spaces(s, p1);
            if p2 == p1 {
                return None;
            }
            match crate::parser_utils::bounded_digits_at(s, p2, 2) {
                None => None,
                Some((d, p3)) => {
                    if p3 == hi {
                        Date::from_ymd(ref_year, m, d)
                    } else {
                        None
                    }
                },
            }
        },
    }
}

fn fmt_month_dy_at(s: &Vec<char>, lo: usize, hi: usize) -> (r: Option<Date>)
    requires
        lo <= s@.len(),
    ensures
        match r {
            Some(dt) => spec_fmt_month_dy(s@, lo as int, hi as int) == Some(dt@),
            None => spec_fmt_month_dy(s@, lo as int, hi as int) is None,
        },
{
    let sl = s.len();
    match month_name_at(s, lo) {
        None => None,
        Some((m, p1)) => {
            let p2 = crate::parser_utils::skip_spaces(s, p1);
            if p2 == p1 {
                return None;
            }
            match crate::parser_utils::bounded_digits_at(s, p2, 2) {
                None => None,
                Some((d, p3)) => {
                    if crate::parser_utils::match_lit(s, p3, ",") {
                        proof {
                            reveal_strlit(",");
                        }
                        let p4 = crate::parser_utils::skip_spaces(s, p3 + 1);
                        match crate::parser_utils::bounded_digits_at(s, p4, 4) {
                            None => None,
                            Some((y, p5)) => {
                                if p5 == hi {
                                    Date::from_ymd(y as i32, m, d)
                                } else {
                                    None
                                }
                            },
                        }
                    } else {
                        None
                    }
                },
            }
        },
    }
}

fn fmt_slash_at(s: &Vec<char>, lo: usize, hi: usize) -> (r: Option<Date>)
    requires
        lo <= s@.len(),
    ensures
        match r {
            Some(dt) => spec_fmt_slash(s@, lo as int, hi as int) == Some(dt@),
            None => spec_fmt_slash(s@, lo as int, hi as int) is None,
        },
{
    let sl = s.len();
    match crate::parser_utils::bounded_digits_at(s, lo, 2) {
        None => None,
        Some((m, p1)) => {
            if crate::parser_utils::match_lit(s, p1, "/") {
                proof {
                    reveal_strlit("/");
                }
                match crate::parser_utils::bounded_digits_at(s, p1 + 1, 2) {
                    None => None,
                    Some((d, p2)) => {
                        if crate::parser_utils::match_lit(s, p2, "/") {
                            match crate::parser_utils::bounded_digits_at(s, p2 + 1, 4) {
                                None => None,
                                Some((y, p3)) => {
                                    if p3 == hi {
                                        Date::from_ymd(y as i32, m, d)
                                    } else {
                                        None
                                    }
                                },
                            }
                        } else {
                            None
                        }
                    },
                }
            } else {
                None
            }
        },
    }
}

fn parse_date_in_at(s: &Vec<char>, lo: usize, hi: usize, ref_year: i32) -> (r: Option<Date>)
    requires
        lo <= s@.len(),
    ensures
        match r {
            Some(dt) => spec_parse_date_in(s@, lo as int, hi as int, ref_year as int) == Some(dt@),
            None => spec_parse_date_in(s@, lo as int, hi as int, ref_year as int) is None,
        },
{
    match fmt_abbr_dy_at(s, lo, hi) {
        Some(dt) => Some(dt),
        None => match fmt_month_d_at(s, lo, hi, ref_year) {
            Some(dt) => Some(dt),
            None => match fmt_month_dy_at(s, lo, hi) {
                Some(dt) => Some(dt),
                None => fmt_slash_at(s, lo, hi),
            },
        },
    }
}

fn dash_date_at(s: &Vec<char>, i: usize) -> (r: Option<(Date, usize)>)
    requires
        i <= s@.len(),
    ensures
        match r {
            Some((dt, j)) => spec_parse_dash_date(s@, i as int) == Some((dt@, j as int)) && i < j
                <= s@.len(),
            None => spec_parse_dash_date(s@, i as int) is None,
        },
{
    let sl = s.len();
    match crate::parser_utils::parse_digits(s, i) {
        None => None,
        Some((y, j)) => {
            if crate::parser_utils::match_lit(s, j, "-") {
                proof {
                    reveal_strlit("-");
                }
                match crate::parser_utils::bounded_digits_at(s, j + 1, 2) {
                    None => None,
                    Some((m, k)) => {
                        if crate::parser_utils::match_lit(s, k, "-") {
                            match crate::parser_utils::bounded_digits_at(s, k + 1, 2) {
                                None => None,
                                Some((d, e)) => {
                                    if y <= 262143 {
                                        match Date::from_ymd(y as i32, m, d) {
                                            Some(dt) => Some((dt, e)),
                                            None => None,
                                        }
                                    } else {
                                        None
                                    }
                                },
                            }
                        } else {
                            None
                        }
                    },
                }
            } else {
                None
            }
        },
    }
}

/// Reads an anchor at position `i`. `ref_year` is the year literal
/// dates without a year default to.
pub fn parse_at(s: &Vec<char>, i: usize, ref_year: i32) -> (r: Option<(CalculatedDate, usize)>)
    requires
        i <= s@.len(),
    ensures
        match r {
            Some((cd, j)) => spec_parse_anchor(s@, i as int, ref_year as int) == Some(
                (cd@, j as int),
            ) && i <= j <= s@.len(),
            None => spec_parse_anchor(s@, i as int, ref_year as int) is None,
        },
{
    let sl = s.len();
    if crate::parser_utils::match_lit(s, i, "today") {
        proof {
            reveal_strlit("today");
        }
        return Some((CalculatedDate::Today, i + 5));
    }
    if crate::parser_utils::match_lit(s, i, "now") {
        proof {
            reveal_strlit("now");
        }
        return Some((CalculatedDate::Today, i + 3));
    }
    if crate::parser_utils::match_lit(s, i, "yesterday") {
        proof {
            reveal_strlit("yesterday");
        }
        return Some((CalculatedDate::Yesterday, i + 9));
    }
    if crate::parser_utils::match_lit(s, i, "tomorrow") {
        proof {
            reveal_strlit("tomorrow");
        }
        return Some((CalculatedDate::Tomorrow, i + 8));
    }
    match dash_date_at(s, i) {
        Some((dt, e)) => Some((CalculatedDate::Raw(dt), e)),
        None => {
            let e = sign_end_at(s, i);
            let lo = crate::parser_utils::trim_from_at(s, i, e);
            let hi = crate::parser_utils::trim_to_at(s, lo, e);
            match parse_date_in_at(s, lo, hi, ref_year) {
                Some(dt) => Some((CalculatedDate::Raw(dt), e)),
                None => None,
            }
        },
    }
}

/// A literal date covering the whole of a text, blanks at either end
/// allowed: the dash format first, then the other formats, as for an
/// anchor.
pub open spec fn spec_parse_date_text(s: Seq<char>, ref_year: int) -> Option<int> {
    let lo = trim_from(s, 0, s.len() as int);
    let hi = trim_to(s, lo, s.len() as int);
    match spec_parse_dash_date(s, lo) {
        Some((n, e)) => {
            if e == hi {
                Some(n)
            } else {
                spec_parse_date_in(s, lo, hi, ref_year)
            }
        },
        None => spec_parse_date_in(s, lo, hi, ref_year),
    }
}

/// Reads a literal date covering the whole of `input` (blanks at either
/// end allowed), in the same formats the anchor grammar accepts;
/// `ref_year` fills in a missing year. This is also the format of a
/// reference-date override supplied from outside.
pub fn parse_date(input: &str, ref_year: i32) -> (r: Option<Date>)
    ensures
        match r {
            Some(dt) => spec_parse_date_text(input@, ref_year as int) == Some(dt@),
            None => spec_parse_date_text(input@, ref_year as int) is None,
        },
{
    let chars = str_to_chars(input);
    let n = chars.len();
    let lo = crate::parser_utils::trim_from_at(&chars, 0, n);
    let hi = crate::parser_utils::trim_to_at(&chars, lo, n);
    match dash_date_at(&chars, lo) {
        Some((dt, e)) => {
            if e == hi {
                Some(dt)
            } else {
                parse_date_in_at(&chars, lo, hi, ref_year)
            }
        },
        None => parse_date_in_at(&chars, lo, hi, ref_year),
    }
}

/// Reads an anchor from the front of `input`; yields the anchor and the
/// unread rest of the text. `today` supplies the default year for
/// literal dates without one.
pub fn parse(input: &str, today: &Date) -> (r: Option<(CalculatedDate, String)>)
    ensures
        ({
            let sp = spec_parse_anchor(input@, 0, year_of_day_number(today@));
            match r {
                Some((cd, rest)) => sp matches Some((av, j)) && cd@ == av && rest@
                    == input@.subrange(j, input@.len() as int),
                None => sp is None,
            }
        }),
{
    let ref_year = today.year();
    let chars = str_to_chars(input);
    match parse_at(&chars, 0, ref_year) {
        None => None,
        Some((cd, j)) => {
            let n = input.unicode_len();
            let rest = input.substring_char(j, n).to_owned();
            Some((cd, rest))
        },
    }
}

} // verus!
