//! The period grammar: a quantity (digits, or one of the spelled words
//! "one" through "twelve"), at least one blank, and a unit keyword
//! (`day`, `week`, `month` or `year`) with an optional plural `s`.

use crate::parser_utils::{
    parses_to, space_run_end, spec_parse_digits, str_to_chars, tag_match,
};
use crate::render::dec_chars;
use vstd::prelude::*;
use vstd::string::{StrSliceExecFns, StringExecFns};

verus! {

/// A typed count of days, weeks, months or years. Weeks, months and
/// years convert to days by the fixed factors 7, 30 and 365.
#[derive(Clone, Copy, Debug, PartialEq, Eq, Structural)]
pub enum Period {
    Day(usize),
    Week(usize),
    Month(usize),
    Year(usize),
}

impl Period {
    /// The count in front of the unit.
    pub open spec fn count(self) -> int {
        match self {
            Period::Day(n) => n as int,
            Period::Week(n) => n as int,
            Period::Month(n) => n as int,
            Period::Year(n) => n as int,
        }
    }

    /// The period's length in days: one per day, 7 per week, 30 per
    /// month, 365 per year.
    pub open spec fn delta_days(self) -> int {
        match self {
            Period::Day(n) => n as int,
            Period::Week(n) => 7 * n as int,
            Period::Month(n) => 30 * n as int,
            Period::Year(n) => 365 * n as int,
        }
    }

    /// The period's length as a number of days.
    pub fn to_duration(&self) -> (d: u64)
        requires
            self.delta_days() <= u64::MAX,
        ensures
            d as int == self.delta_days(),
    {
        match self {
            Period::Day(n) => *n as u64,
            Period::Week(n) => 7 * (*n as u64),
            Period::Month(n) => 30 * (*n as u64),
            Period::Year(n) => 365 * (*n as u64),
        }
    }

    /// Canonical text of the period: the count in decimal, one space,
    /// the unit, and `s` unless the count is exactly one.
    pub open spec fn spec_render(self) -> Seq<char> {
        dec_chars(self.count()) + seq![' '] + self.unit_chars() + if self.count() == 1 {
            Seq::<char>::empty()
        } else {
            seq!['s']
        }
    }

    /// The unit keyword of the period.
    pub open spec fn unit_chars(self) -> Seq<char> {
        match self {
            Period::Day(_) => "day"@,
            Period::Week(_) => "week"@,
            Period::Month(_) => "month"@,
            Period::Year(_) => "year"@,
        }
    }

    /// Writes the canonical text of the period.
    pub fn render(&self) -> (out: String)
        ensures
            out@ == self.spec_render(),
    {
        let mut out = String::new();
        let n: usize = match self {
            Period::Day(n) => *n,
            Period::Week(n) => *n,
            Period::Month(n) => *n,
            Period::Year(n) => *n,
        };
        crate::render::push_u64_dec(&mut out, n as u64);
        crate::render::push_char(&mut out, ' ');
        match self {
            Period::Day(_) => out.append("day"),
            Period::Week(_) => out.append("week"),
            Period::Month(_) => out.append("month"),
            Period::Year(_) => out.append("year"),
        }
        if n != 1 {
            crate::render::push_char(&mut out, 's');
        }
        proof {
            assert(out@ =~= self.spec_render());
        }
        out
    }
}

/// Where the quantity grammar accepts: a digit run first, else one of
/// the twelve spelled numbers.
pub open spec fn spec_parse_quantity(s: Seq<char>, i: int) -> Option<(int, int)> {
    if spec_parse_digits(s, i) is Some {
        spec_parse_digits(s, i)
    } else {
        spec_parse_written_number(s, i)
    }
}

/// The spelled numbers "one" through "twelve", tried in that order.
pub open spec fn spec_parse_written_number(s: Seq<char>, i: int) -> Option<(int, int)> {
    if tag_match(s, i, "one"@) {
        Some((1, i + "one"@.len()))
    } else if tag_match(s, i, "two"@) {
        Some((2, i + "two"@.len()))
    } else if tag_match(s, i, "three"@) {
        Some((3, i + "three"@.len()))
    } else if tag_match(s, i, "four"@) {
        Some((4, i + "four"@.len()))
    } else if tag_match(s, i, "five"@) {
        Some((5, i + "five"@.len()))
    } else if tag_match(s, i, "six"@) {
        Some((6, i + "six"@.len()))
    } else if tag_match(s, i, "seven"@) {
        Some((7, i + "seven"@.len()))
    } else if tag_match(s, i, "eight"@) {
        Some((8, i + "eight"@.len()))
    } else if tag_match(s, i, "nine"@) {
        Some((9, i + "nine"@.len()))
    } else if tag_match(s, i, "ten"@) {
        Some((10, i + "ten"@.len()))
    } else if tag_match(s, i, "eleven"@) {
        Some((11, i + "eleven"@.len()))
    } else if tag_match(s, i, "twelve"@) {
        Some((12, i + "twelve"@.len()))
    } else {
        None
    }
}

/// After the unit keyword an optional plural `s` is consumed.
pub open spec fn opt_plural(s: Seq<char>, i: int) -> int {
    if tag_match(s, i, "s"@) {
        i + 1
    } else {
        i
    }
}

/// Where the period grammar accepts and what it yields: a quantity,
/// one or more blanks, a unit keyword, an optional plural `s`.
pub open spec fn spec_parse_period(s: Seq<char>, i: int) -> Option<(Period, int)> {
    match spec_parse_quantity(s, i) {
        None => None,
        Some((n, j)) => {
            let k = space_run_end(s, j);
            if k == j {
                None
            } else if tag_match(s, k, "day"@) {
                Some((Period::Day(n as usize), opt_plural(s, k + "day"@.len())))
            } else if tag_match(s, k, "week"@) {
                Some((Period::Week(n as usize), opt_plural(s, k + "week"@.len())))
            } else if tag_match(s, k, "month"@) {
                Some((Period::Month(n as usize), opt_plural(s, k + "month"@.len())))
            } else if tag_match(s, k, "year"@) {
                Some((Period::Year(n as usize), opt_plural(s, k + "year"@.len())))
            } else {
                None
            }
        },
    }
}

/// Rendering a period and reading the text back yields the same
/// period, with nothing left over.
pub proof fn lemma_period_round_trip(p: Period)
    ensures
        spec_parse_period(p.spec_render(), 0) == Some((p, p.spec_render().len() as int)),
{
    let s = p.spec_render();
    let n = p.count();
    let dec = dec_chars(n);
    let dl = dec.len() as int;
    let unit = p.unit_chars();
    let ul = unit.len() as int;
    let plural: Seq<char> = if n == 1 {
        Seq::<char>::empty()
    } else {
        seq!['s']
    };
    assert(s == dec + seq![' '] + unit + plural);
    crate::render::lemma_dec_chars_digits(n);
    crate::render::lemma_dec_chars_value(n);
    reveal_strlit("day");
    reveal_strlit("week");
    reveal_strlit("month");
    reveal_strlit("year");
    reveal_strlit("s");
    assert(s.len() == dl + 1 + ul + plural.len());
    assert(forall|k: int| 0 <= k < dl ==> s[k] == #[trigger] dec[k]);
    assert(s[dl] == ' ');
    assert(forall|k: int| 0 <= k < ul ==> s[dl + 1 + k] == #[trigger] unit[k]);
    // the count reads back as a digit run of the same value
    assert(!crate::parser_utils::is_digit(' '));
    crate::parser_utils::lemma_digit_run_exact(s, 0, dl);
    crate::parser_utils::lemma_digits_value_congruent(s, 0, dec, 0, dl);
    assert(spec_parse_digits(s, 0) == Some((n, dl)));
    assert(spec_parse_quantity(s, 0) == Some((n, dl)));
    // exactly one blank separates count and unit
    assert(!crate::parser_utils::is_space(s[dl + 1]));
    crate::parser_utils::lemma_space_run_exact(s, dl, dl + 1);
    assert(space_run_end(s, dl) == dl + 1);
    let k = dl + 1;
    let e0 = k + ul;
    // the unit keyword matches, and no earlier keyword does
    assert(s.subrange(k, k + ul) =~= unit);
    match p {
        Period::Day(c) => {
            assert(tag_match(s, k, "day"@));
        },
        Period::Week(c) => {
            assert(s[k] == 'w');
            assert(!tag_match(s, k, "day"@));
            assert(tag_match(s, k, "week"@));
        },
        Period::Month(c) => {
            assert(s[k] == 'm');
            assert(!tag_match(s, k, "day"@));
            assert(!tag_match(s, k, "week"@));
            assert(tag_match(s, k, "month"@));
        },
        Period::Year(c) => {
            assert(s[k] == 'y');
            assert(!tag_match(s, k, "day"@));
            assert(!tag_match(s, k, "week"@));
            assert(!tag_match(s, k, "month"@));
            assert(tag_match(s, k, "year"@));
        },
    }
    // the plural `s` is consumed exactly when it was written
    if n == 1 {
        assert(e0 == s.len());
        assert(!tag_match(s, e0, "s"@));
        assert(opt_plural(s, e0) == e0);
    } else {
        assert(s[e0] == 's');
        assert(s.subrange(e0, e0 + 1) =~= "s"@);
        assert(tag_match(s, e0, "s"@));
        assert(opt_plural(s, e0) == e0 + 1);
    }
}

fn parse_written_number(s: &Vec<char>, i: usize) -> (r: Option<(usize, usize)>)
    requires
        i <= s@.len(),
    ensures
        match r {
            Some((v, j)) => spec_parse_written_number(s@, i as int) == Some((v as int, j as int))
                && i < j <= s@.len(),
            None => spec_parse_written_number(s@, i as int) is None,
        },
{
    let sl = s.len();
    if crate::parser_utils::match_lit(s, i, "one") {
        proof {
            reveal_strlit("one");
        }
        Some((1, i + 3))
    } else if crate::parser_utils::match_lit(s, i, "two") {
        proof {
            reveal_strlit("two");
        }
        Some((2, i + 3))
    } else if crate::parser_utils::match_lit(s, i, "three") {
        proof {
            reveal_strlit("three");
        }
        Some((3, i + 5))
    } else if crate::parser_utils::match_lit(s, i, "four") {
        proof {
            reveal_strlit("four");
        }
        Some((4, i + 4))
    } else if crate::parser_utils::match_lit(s, i, "five") {
        proof {
            reveal_strlit("five");
        }
        Some((5, i + 4))
    } else if crate::parser_utils::match_lit(s, i, "six") {
        proof {
            reveal_strlit("six");
        }
        Some((6, i + 3))
    } else if crate::parser_utils::match_lit(s, i, "seven") {
        proof {
            reveal_strlit("seven");
        }
        Some((7, i + 5))
    } else if crate::parser_utils::match_lit(s, i, "eight") {
        proof {
            reveal_strlit("eight");
        }
        Some((8, i + 5))
    } else if crate::parser_utils::match_lit(s, i, "nine") {
        proof {
            reveal_strlit("nine");
        }
        Some((9, i + 4))
    } else if crate::parser_utils::match_lit(s, i, "ten") {
        proof {
            reveal_strlit("ten");
        }
        Some((10, i + 3))
    } else if crate::parser_utils::match_lit(s, i, "eleven") {
        proof {
            reveal_strlit("eleven");
        }
        Some((11, i + 6))
    } else if crate::parser_utils::match_lit(s, i, "twelve") {
        proof {
            reveal_strlit("twelve");
        }
        Some((12, i + 6))
    } else {
        None
    }
}

fn parse_quantity(s: &Vec<char>, i: usize) -> (r: Option<(usize, usize)>)
    requires
        i <= s@.len(),
    ensures
        match r {
            Some((v, j)) => spec_parse_quantity(s@, i as int) == Some((v as int, j as int)) && i
                < j <= s@.len(),
            None => spec_parse_quantity(s@, i as int) is None,
        },
{
    match crate::parser_utils::parse_digits(s, i) {
        Some(r) => Some(r),
        None => parse_written_number(s, i),
    }
}

/// Reads a period at position `i`.
pub fn parse_at(s: &Vec<char>, i: usize) -> (r: Option<(Period, usize)>)
    requires
        i <= s@.len(),
    ensures
        parses_to(r, spec_parse_period(s@, i as int)),
        r matches Some((p, j)) ==> i < j <= s@.len(),
{
    let sl = s.len();
    match parse_quantity(s, i) {
        None => None,
        Some((n, j)) => {
            let k = crate::parser_utils::skip_spaces(s, j);
            if k == j {
                None
            } else if crate::parser_utils::match_lit(s, k, "day") {
                proof {
                    reveal_strlit("day");
                }
                Some((Period::Day(n), opt_plural_at(s, k + 3)))
            } else if crate::parser_utils::match_lit(s, k, "week") {
                proof {
                    reveal_strlit("week");
                }
                Some((Period::Week(n), opt_plural_at(s, k + 4)))
            } else if crate::parser_utils::match_lit(s, k, "month") {
                proof {
                    reveal_strlit("month");
                }
                Some((Period::Month(n), opt_plural_at(s, k + 5)))
            } else if crate::parser_utils::match_lit(s, k, "year") {
                proof {
                    reveal_strlit("year");
                }
                Some((Period::Year(n), opt_plural_at(s, k + 4)))
            } else {
                None
            }
        },
    }
}

fn opt_plural_at(s: &Vec<char>, i: usize) -> (j: usize)
    requires
        i <= s@.len(),
    ensures
        j as int == opt_plural(s@, i as int),
        i <= j <= s@.len(),
{
    let sl = s.len();
    if crate::parser_utils::match_lit(s, i, "s") {
        proof {
            reveal_strlit("s");
        }
        i + 1
    } else {
        i
    }
}

/// Reads a period from the front of `input`; yields the period and the
/// unread rest of the text.
pub fn parse(input: &str) -> (r: Option<(Period, String)>)
    ensures
        match r {
            Some((p, rest)) => {
                &&& spec_parse_period(input@, 0) matches Some((q, j)) && q == p && rest@
                    == input@.subrange(j, input@.len() as int)
            },
            None => spec_parse_period(input@, 0) is None,
        },
{
    let chars = str_to_chars(input);
    match parse_at(&chars, 0) {
        None => None,
        Some((p, j)) => {
            let n = input.unicode_len();
            let rest = input.substring_char(j, n).to_owned();
            Some((p, rest))
        },
    }
}

} // verus!
