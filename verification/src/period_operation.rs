//! Signed operations: a `+` or `-` sign with blanks allowed around it,
//! followed by a period. Applying one moves a date by the period's
//! length in days.

use crate::date::{Date, MAX_DAY_COUNT};
use crate::parser_utils::{parses_to, space_run_end, str_to_chars, tag_match};
use crate::period::{spec_parse_period, Period};
use vstd::prelude::*;
use vstd::string::StrSliceExecFns;

verus! {

/// A period tagged with the direction it moves a date.
#[derive(Clone, Copy, Debug, PartialEq, Eq, Structural)]
pub enum PeriodOp {
    Add(Period),
    Subtract(Period),
}

impl PeriodOp {
    /// The signed day delta this operation applies.
    pub open spec fn delta(self) -> int {
        match self {
            PeriodOp::Add(p) => p.delta_days(),
            PeriodOp::Subtract(p) => -p.delta_days(),
        }
    }

    /// Moves `value` by this operation's delta.
    pub fn apply(&self, value: Date) -> (r: Date)
        requires
            0 <= value@ + self.delta() <= MAX_DAY_COUNT,
        ensures
            r@ == value@ + self.delta(),
    {
        proof {
            use_type_invariant(&value);
            crate::date::lemma_date_in_range(value);
        }
        match self {
            PeriodOp::Add(p) => value.add_days(p.to_duration()),
            PeriodOp::Subtract(p) => value.sub_days(p.to_duration()),
        }
    }
}

/// Where the signed-operation grammar accepts: blanks, a sign, blanks,
/// a period.
pub open spec fn spec_parse_period_op(s: Seq<char>, i: int) -> Option<(PeriodOp, int)> {
    let j = space_run_end(s, i);
    if tag_match(s, j, "+"@) {
        let k = space_run_end(s, j + 1);
        match spec_parse_period(s, k) {
            Some((p, e)) => Some((PeriodOp::Add(p), e)),
            None => None,
        }
    } else if tag_match(s, j, "-"@) {
        let k = space_run_end(s, j + 1);
        match spec_parse_period(s, k) {
            Some((p, e)) => Some((PeriodOp::Subtract(p), e)),
            None => None,
        }
    } else {
        None
    }
}

/// Reads a signed operation at position `i`.
pub fn parse_at(s: &Vec<char>, i: usize) -> (r: Option<(PeriodOp, usize)>)
    requires
        i <= s@.len(),
    ensures
        parses_to(r, spec_parse_period_op(s@, i as int)),
        r matches Some((op, j)) ==> i < j <= s@.len(),
{
    let sl = s.len();
    let j = crate::parser_utils::skip_spaces(s, i);
    if crate::parser_utils::match_lit(s, j, "+") {
        proof {
            reveal_strlit("+");
        }
        let k = crate::parser_utils::skip_spaces(s, j + 1);
        match crate::period::parse_at(s, k) {
            Some((p, e)) => Some((PeriodOp::Add(p), e)),
            None => None,
        }
    } else if crate::parser_utils::match_lit(s, j, "-") {
        proof {
            reveal_strlit("-");
        }
        let k = crate::parser_utils::skip_spaces(s, j + 1);
        match crate::period::parse_at(s, k) {
            Some((p, e)) => Some((PeriodOp::Subtract(p), e)),
            None => None,
        }
    } else {
        None
    }
}

/// Reads a signed operation from the front of `input`; yields the
/// operation and the unread rest of the text.
pub fn parse(input: &str) -> (r: Option<(PeriodOp, String)>)
    ensures
        match r {
            Some((op, rest)) => {
                &&& spec_parse_period_op(input@, 0) matches Some((q, j)) && q == op && rest@
                    == input@.subrange(j, input@.len() as int)
            },
            None => spec_parse_period_op(input@, 0) is None,
        },
{
    let chars = str_to_chars(input);
    match parse_at(&chars, 0) {
        None => None,
        Some((op, j)) => {
            let n = input.unicode_len();
            let rest = input.substring_char(j, n).to_owned();
            Some((op, rest))
        },
    }
}

} // verus!
