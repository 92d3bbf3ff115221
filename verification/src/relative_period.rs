//! The sentence and relative-expression grammar. A sentence is a list
//! of periods: two or more comma-terminated periods closed by
//! `and <period>`, or exactly two periods joined by `and`, or a single
//! period. A relative expression is a sentence followed by ` ago`,
//! ` from now`, ` from <anchor>`, ` after <anchor>` or ` before <anchor>`,
//! which fixes the anchor and the direction of every period.

use crate::calculated_date::{spec_parse_anchor, AnchorView, CalculatedDate};
use crate::date::{year_of_day_number, Date};
use crate::parser_utils::{space_run_end, str_to_chars, tag_match};
use crate::period::{spec_parse_period, Period};
use crate::period_operation::PeriodOp;
use vstd::prelude::*;
use vstd::string::StrSliceExecFns;

verus! {

/// A period terminated by a comma.
pub open spec fn spec_period_comma(s: Seq<char>, i: int) -> Option<(Period, int)> {
    match spec_parse_period(s, i) {
        None => None,
        Some((p, j)) => {
            if tag_match(s, j, ","@) {
                Some((p, j + 1))
            } else {
                None
            }
        },
    }
}

/// As many further `<blanks> <period>,` items as stand at `i`.
pub open spec fn spec_comma_items(s: Seq<char>, i: int) -> (Seq<Period>, int)
    decreases s.len() - i,
{
    let j = space_run_end(s, i);
    if j == i {
        (Seq::<Period>::empty(), i)
    } else {
        match spec_period_comma(s, j) {
            None => (Seq::<Period>::empty(), i),
            Some((p, k)) => {
                if i < k <= s.len() {
                    let (rest, e) = spec_comma_items(s, k);
                    (seq![p] + rest, e)
                } else {
                    // a period always consumes text and stays inside it;
                    // never reached
                    (Seq::<Period>::empty(), i)
                }
            },
        }
    }
}

/// Sentence form one: two or more comma-terminated periods, then
/// `and <period>`.
pub open spec fn spec_sentence_commas(s: Seq<char>, i: int) -> Option<((Period, Seq<Period>), int)> {
    match spec_period_comma(s, i) {
        None => None,
        Some((p1, j1)) => {
            let (items, j2) = spec_comma_items(s, j1);
            if items.len() == 0 {
                None
            } else {
                let a1 = space_run_end(s, j2);
                if a1 == j2 {
                    None
                } else if tag_match(s, a1, "and"@) {
                    let a2 = space_run_end(s, a1 + "and"@.len());
                    if a2 == a1 + "and"@.len() {
                        None
                    } else {
                        match spec_parse_period(s, a2) {
                            None => None,
                            Some((pl, e)) => Some(((p1, items.push(pl)), e)),
                        }
                    }
                } else {
                    None
                }
            }
        },
    }
}

/// Sentence form two: exactly two periods joined by `and`.
pub open spec fn spec_sentence_pair(s: Seq<char>, i: int) -> Option<((Period, Seq<Period>), int)> {
    match spec_parse_period(s, i) {
        None => None,
        Some((p1, j)) => {
            let a1 = space_run_end(s, j);
            if a1 == j {
                None
            } else if tag_match(s, a1, "and"@) {
                let a2 = space_run_end(s, a1 + "and"@.len());
                if a2 == a1 + "and"@.len() {
                    None
                } else {
                    match spec_parse_period(s, a2) {
                        None => None,
                        Some((p2, e)) => Some(((p1, seq![p2]), e)),
                    }
                }
            } else {
                None
            }
        },
    }
}

/// Sentence form three: a single period.
pub open spec fn spec_sentence_single(s: Seq<char>, i: int) -> Option<((Period, Seq<Period>), int)> {
    match spec_parse_period(s, i) {
        None => None,
        Some((p, j)) => Some(((p, Seq::<Period>::empty()), j)),
    }
}

/// Where the sentence grammar accepts, trying the three forms in order.
pub open spec fn spec_parse_sentence(s: Seq<char>, i: int) -> Option<((Period, Seq<Period>), int)> {
    if spec_sentence_commas(s, i) is Some {
        spec_sentence_commas(s, i)
    } else if spec_sentence_pair(s, i) is Some {
        spec_sentence_pair(s, i)
    } else {
        spec_sentence_single(s, i)
    }
}

/// Tags every period of a sentence with one direction.
pub open spec fn ops_of(ps: Seq<Period>, subtract: bool) -> Seq<PeriodOp> {
    ps.map_values(
        |p: Period|
            if subtract {
                PeriodOp::Subtract(p)
            } else {
                PeriodOp::Add(p)
            },
    )
}

/// Where the relative-expression grammar accepts: a sentence, then one
/// of the trailing forms, each fixing the anchor and the direction.
pub open spec fn spec_parse_relative(s: Seq<char>, i: int, ref_year: int) -> Option<
    ((AnchorView, PeriodOp, Seq<PeriodOp>), int),
> {
    match spec_parse_sentence(s, i) {
        None => None,
        Some(((p, rest), j)) => {
            if tag_match(s, j, " ago"@) {
                Some(
                    (
                        (AnchorView::Today, PeriodOp::Subtract(p), ops_of(rest, true)),
                        j + " ago"@.len(),
                    ),
                )
            } else if tag_match(s, j, " from "@) {
                match spec_parse_anchor(s, j + " from "@.len(), ref_year) {
                    None => None,
                    Some((a, e)) => Some(((a, PeriodOp::Add(p), ops_of(rest, false)), e)),
                }
            } else if tag_match(s, j, " after "@) {
                match spec_parse_anchor(s, j + " after "@.len(), ref_year) {
                    None => None,
                    Some((a, e)) => Some(((a, PeriodOp::Add(p), ops_of(rest, false)), e)),
                }
            } else if tag_match(s, j, " before "@) {
                match spec_parse_anchor(s, j + " before "@.len(), ref_year) {
                    None => None,
                    Some((a, e)) => Some(((a, PeriodOp::Subtract(p), ops_of(rest, true)), e)),
                }
            } else {
                None
            }
        },
    }
}

fn period_comma_at(s: &Vec<char>, i: usize) -> (r: Option<(Period, usize)>)
    requires
        i <= s@.len(),
    ensures
        match r {
            Some((p, j)) => spec_period_comma(s@, i as int) == Some((p, j as int)) && i < j
                <= s@.len(),
            None => spec_period_comma(s@, i as int) is None,
        },
{
    let sl = s.len();
    match crate::period::parse_at(s, i) {
        None => None,
        Some((p, j)) => {
            if crate::parser_utils::match_lit(s, j, ",") {
                proof {
                    reveal_strlit(",");
                }
                Some((p, j + 1))
            } else {
                None
            }
        },
    }
}

fn comma_items_at(s: &Vec<char>, i: usize) -> (r: (Vec<Period>, usize))
    requires
        i <= s@.len(),
    ensures
        spec_comma_items(s@, i as int) == (r.0@, r.1 as int),
        i <= r.1 <= s@.len(),
    decreases s@.len() - i,
{
    let j = crate::parser_utils::skip_spaces(s, i);
    if j == i {
        (Vec::new(), i)
    } else {
        match period_comma_at(s, j) {
            None => (Vec::new(), i),
            Some((p, k)) => {
                let (rest, e) = comma_items_at(s, k);
                let mut items = rest;
                items.insert(0, p);
                proof {
                    assert(items@ =~= seq![p] + spec_comma_items(s@, k as int).0);
                }
                (items, e)
            },
        }
    }
}

/// Reads a sentence at position `i`.
fn sentence_at(s: &Vec<char>, i: usize) -> (r: Option<(Period, Vec<Period>, usize)>)
    requires
        i <= s@.len(),
    ensures
        match r {
            Some((p, rest, j)) => spec_parse_sentence(s@, i as int) == Some(
                ((p, rest@), j as int),
            ) && i < j <= s@.len(),
            None => spec_parse_sentence(s@, i as int) is None,
        },
{
    match sentence_commas_at(s, i) {
        Some(r) => Some(r),
        None => match sentence_pair_at(s, i) {
            Some(r) => Some(r),
            None => match crate::period::parse_at(s, i) {
                Some((p, j)) => Some((p, Vec::new(), j)),
                None => None,
            },
        },
    }
}

fn sentence_commas_at(s: &Vec<char>, i: usize) -> (r: Option<(Period, Vec<Period>, usize)>)
    requires
        i <= s@.len(),
    ensures
        match r {
            Some((p, rest, j)) => spec_sentence_commas(s@, i as int) == Some(
                ((p, rest@), j as int),
            ) && i < j <= s@.len(),
            None => spec_sentence_commas(s@, i as int) is None,
        },
{
    let sl = s.len();
    match period_comma_at(s, i) {
        None => None,
        Some((p1, j1)) => {
            let (items, j2) = comma_items_at(s, j1);
            if items.len() == 0 {
                return None;
            }
            let a1 = crate::parser_utils::skip_spaces(s, j2);
            if a1 == j2 {
                return None;
            }
            if crate::parser_utils::match_lit(s, a1, "and") {
                proof {
                    reveal_strlit("and");
                }
                let a2 = crate::parser_utils::skip_spaces(s, a1 + 3);
                if a2 == a1 + 3 {
                    return None;
                }
                match crate::period::parse_at(s, a2) {
                    None => None,
                    Some((pl, e)) => {
                        let mut all = items;
                        all.push(pl);
                        Some((p1, all, e))
                    },
                }
            } else {
                None
            }
        },
    }
}

fn sentence_pair_at(s: &Vec<char>, i: usize) -> (r: Option<(Period, Vec<Period>, usize)>)
    requires
        i <= s@.len(),
    ensures
        match r {
            Some((p, rest, j)) => spec_sentence_pair(s@, i as int) == Some(((p, rest@), j as int))
                && i < j <= s@.len(),
            None => spec_sentence_pair(s@, i as int) is None,
        },
{
    let sl = s.len();
    match crate::period::parse_at(s, i) {
        None => None,
        Some((p1, j)) => {
            let a1 = crate::parser_utils::skip_spaces(s, j);
            if a1 == j {
                return None;
            }
            if crate::parser_utils::match_lit(s, a1, "and") {
                proof {
                    reveal_strlit("and");
                }
                let a2 = crate::parser_utils::skip_spaces(s, a1 + 3);
                if a2 == a1 + 3 {
                    return None;
                }
                match crate::period::parse_at(s, a2) {
                    None => None,
                    Some((p2, e)) => {
                        let mut rest = Vec::new();
                        rest.push(p2);
                        proof {
                            assert(rest@ =~= seq![p2]);
                        }
                        Some((p1, rest, e))
                    },
                }
            } else {
                None
            }
        },
    }
}

/// Tags every period with one direction, as run-time code.
fn map_ops(ps: Vec<Period>, subtract: bool) -> (r: Vec<PeriodOp>)
    ensures
        r@ == ops_of(ps@, subtract),
{
    let mut out: Vec<PeriodOp> = Vec::new();
    let mut k: usize = 0;
    while k < ps.len()
        invariant
            k <= ps@.len(),
            out@ == ops_of(ps@.take(k as int), subtract),
        decreases ps@.len() - k,
    {
        let op = if subtract {
            PeriodOp::Subtract(ps[k])
        } else {
            PeriodOp::Add(ps[k])
        };
        out.push(op);
        proof {
            assert(ps@.take(k as int).push(ps@[k as int]) =~= ps@.take(k as int + 1));
            assert(out@ =~= ops_of(ps@.take(k as int + 1), subtract));
        }
        k += 1;
    }
    proof {
        assert(ps@.take(ps@.len() as int) =~= ps@);
    }
    out
}

/// Reads a relative expression at position `i`.
pub fn parse_at(s: &Vec<char>, i: usize, ref_year: i32) -> (r: Option<
    (CalculatedDate, PeriodOp, Vec<PeriodOp>, usize),
>)
    requires
        i <= s@.len(),
    ensures
        match r {
            Some((cd, op, rest, j)) => spec_parse_relative(s@, i as int, ref_year as int) == Some(
                ((cd@, op, rest@), j as int),
            ) && i <= j <= s@.len(),
            None => spec_parse_relative(s@, i as int, ref_year as int) is None,
        },
{
    let sl = s.len();
    match sentence_at(s, i) {
        None => None,
        Some((p, rest, j)) => {
            if crate::parser_utils::match_lit(s, j, " ago") {
                proof {
                    reveal_strlit(" ago");
                }
                Some((CalculatedDate::Today, PeriodOp::Subtract(p), map_ops(rest, true), j + 4))
            } else if crate::parser_utils::match_lit(s, j, " from ") {
                proof {
                    reveal_strlit(" from ");
                }
                match crate::calculated_date::parse_at(s, j + 6, ref_year) {
                    None => None,
                    Some((a, e)) => Some((a, PeriodOp::Add(p), map_ops(rest, false), e)),
                }
            } else if crate::parser_utils::match_lit(s, j, " after ") {
                proof {
                    reveal_strlit(" after ");
                }
                match crate::calculated_date::parse_at(s, j + 7, ref_year) {
                    None => None,
                    Some((a, e)) => Some((a, PeriodOp::Add(p), map_ops(rest, false), e)),
                }
            } else if crate::parser_utils::match_lit(s, j, " before ") {
                proof {
                    reveal_strlit(" before ");
                }
                match crate::calculated_date::parse_at(s, j + 8, ref_year) {
                    None => None,
                    Some((a, e)) => Some((a, PeriodOp::Subtract(p), map_ops(rest, true), e)),
                }
            } else {
                None
            }
        },
    }
}

/// Reads a sentence from the front of `input`; yields the leading
/// period, the remaining periods, and the unread rest of the text.
pub fn parse_sentence(input: &str) -> (r: Option<((Period, Vec<Period>), String)>)
    ensures
        match r {
            Some(((p, rest), tail)) => {
                &&& spec_parse_sentence(input@, 0) matches Some(((q, qs), j)) && q == p && qs
                    == rest@ && tail@ == input@.subrange(j, input@.len() as int)
            },
            None => spec_parse_sentence(input@, 0) is None,
        },
{
    let chars = str_to_chars(input);
    match sentence_at(&chars, 0) {
        None => None,
        Some((p, rest, j)) => {
            let n = input.unicode_len();
            let tail = input.substring_char(j, n).to_owned();
            Some(((p, rest), tail))
        },
    }
}

/// Reads a relative expression from the front of `input`; yields the
/// anchor, the first operation, the remaining operations, and the
/// unread rest of the text.
pub fn parse(input: &str, today: &Date) -> (r: Option<
    ((CalculatedDate, PeriodOp, Vec<PeriodOp>), String),
>)
    ensures
        ({
            let sp = spec_parse_relative(input@, 0, year_of_day_number(today@));
            match r {
                Some(((cd, op, rest), tail)) => sp matches Some(((av, q, qs), j)) && cd@ == av && q
                    == op && qs == rest@ && tail@ == input@.subrange(j, input@.len() as int),
                None => sp is None,
            }
        }),
{
    let ref_year = today.year();
    let chars = str_to_chars(input);
    match parse_at(&chars, 0, ref_year) {
        None => None,
        Some((cd, op, rest, j)) => {
            let n = input.unicode_len();
            let tail = input.substring_char(j, n).to_owned();
            Some(((cd, op, rest), tail))
        },
    }
}

} // verus!
