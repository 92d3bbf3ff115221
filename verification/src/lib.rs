//! Interprets short written date expressions ("2 weeks ago",
//! "Mar 31, 2021 + 15 weeks", "Mar 31, 2021 - Mar 24, 2021") and reduces
//! them to a calendar date or to a day-count difference, relative to a
//! supplied reference date.
//!
//! The top-level grammar tries five rules in a fixed order, first match
//! wins: an anchor followed by signed operations; two anchors joined by
//! `-` (a day difference); a relative expression (`... ago`,
//! `... from <anchor>`, `... before <anchor>`); a bare anchor; a bare
//! period chain applied to the reference date.

use vstd::prelude::*;

pub mod calculated_date;
pub mod date;
pub mod parser_utils;
pub mod period;
pub mod period_operation;
pub mod relative_period;
pub mod render;
pub mod time;

pub use calculated_date::CalculatedDate;
pub use date::Date;
pub use period::Period;
pub use period_operation::PeriodOp;

use calculated_date::{resolve_anchor, spec_parse_anchor, AnchorView};
use date::{abs_day_diff, iso_chars, year_of_day_number, MAX_DAY_COUNT};
use parser_utils::{space_run_end, str_to_chars, tag_match};
use period::spec_parse_period;
use period_operation::spec_parse_period_op;
use relative_period::spec_parse_relative;
use render::dec_chars;
use vstd::string::{StrSliceExecFns, StringExecFns};

verus! {

/// A parsed date expression.
#[derive(Debug, PartialEq, Eq)]
pub enum DateMath {
    /// A period chain applied to the reference date.
    Periods(Period, Vec<PeriodOp>),
    /// A bare anchor.
    Start(CalculatedDate),
    /// An anchor moved by one or more signed operations, in order.
    StartWithPeriods(CalculatedDate, PeriodOp, Vec<PeriodOp>),
    /// The day count between two anchors.
    DateDiff(CalculatedDate, CalculatedDate),
}

/// Specification shape of a date expression.
pub ghost enum ExprView {
    Periods(Period, Seq<PeriodOp>),
    Start(AnchorView),
    StartWithPeriods(AnchorView, PeriodOp, Seq<PeriodOp>),
    DateDiff(AnchorView, AnchorView),
}

impl View for DateMath {
    type V = ExprView;

    open spec fn view(&self) -> ExprView {
        match self {
            DateMath::Periods(p, rest) => ExprView::Periods(*p, rest@),
            DateMath::Start(a) => ExprView::Start(a@),
            DateMath::StartWithPeriods(a, op, rest) => ExprView::StartWithPeriods(a@, *op, rest@),
            DateMath::DateDiff(a, b) => ExprView::DateDiff(a@, b@),
        }
    }
}

/// What evaluating an expression yields: a date, or a day count.
#[derive(Clone, Copy, Debug, PartialEq, Eq, Structural)]
pub enum ComputeOutcome {
    Date(Date),
    DifferenceInDays(usize),
}

/// Specification shape of an outcome: the date appears as its day
/// number.
pub ghost enum OutcomeView {
    Date(int),
    DifferenceInDays(int),
}

impl View for ComputeOutcome {
    type V = OutcomeView;

    open spec fn view(&self) -> OutcomeView {
        match self {
            ComputeOutcome::Date(d) => OutcomeView::Date(d@),
            ComputeOutcome::DifferenceInDays(n) => OutcomeView::DifferenceInDays(*n as int),
        }
    }
}

/// Day number reached from `start` after applying every operation in
/// order.
pub open spec fn fold_ops(start: int, ops: Seq<PeriodOp>) -> int
    decreases ops.len(),
{
    if ops.len() == 0 {
        start
    } else {
        fold_ops(start + ops[0].delta(), ops.drop_first())
    }
}

/// `start` and every day number reached along the chain stays on the
/// calendar.
pub open spec fn chain_in_range(start: int, ops: Seq<PeriodOp>) -> bool
    decreases ops.len(),
{
    &&& 0 <= start <= MAX_DAY_COUNT
    &&& (ops.len() > 0 ==> chain_in_range(start + ops[0].delta(), ops.drop_first()))
}

/// The value of an expression against the reference day number `today`:
/// anchors resolve against `today`, operations fold left to right, a
/// difference is the magnitude of the day distance.
pub open spec fn spec_compute(e: ExprView, today: int) -> OutcomeView {
    match e {
        ExprView::Start(a) => OutcomeView::Date(resolve_anchor(a, today)),
        ExprView::StartWithPeriods(a, op, rest) => OutcomeView::Date(
            fold_ops(resolve_anchor(a, today) + op.delta(), rest),
        ),
        ExprView::Periods(base, rest) => OutcomeView::Date(
            fold_ops(today + base.delta_days(), rest),
        ),
        ExprView::DateDiff(a, b) => OutcomeView::DifferenceInDays(
            abs_day_diff(resolve_anchor(a, today), resolve_anchor(b, today)),
        ),
    }
}

/// Every date the evaluation of `e` touches stays on the calendar.
pub open spec fn compute_in_range(e: ExprView, today: int) -> bool {
    match e {
        ExprView::Start(a) => 0 <= resolve_anchor(a, today) <= MAX_DAY_COUNT,
        ExprView::StartWithPeriods(a, op, rest) => {
            &&& 0 <= resolve_anchor(a, today) <= MAX_DAY_COUNT
            &&& chain_in_range(resolve_anchor(a, today) + op.delta(), rest)
        },
        ExprView::Periods(base, rest) => chain_in_range(today + base.delta_days(), rest),
        ExprView::DateDiff(a, b) => {
            &&& 0 <= resolve_anchor(a, today) <= MAX_DAY_COUNT
            &&& 0 <= resolve_anchor(b, today) <= MAX_DAY_COUNT
        },
    }
}

/// Applies every operation in order.
fn apply_ops(start: Date, ops: &Vec<PeriodOp>) -> (r: Date)
    requires
        chain_in_range(start@, ops@),
    ensures
        r@ == fold_ops(start@, ops@),
{
    let mut acc = start;
    let mut k: usize = 0;
    proof {
        assert(ops@.skip(0) =~= ops@);
    }
    while k < ops.len()
        invariant
            k <= ops@.len(),
            chain_in_range(acc@, ops@.skip(k as int)),
            fold_ops(acc@, ops@.skip(k as int)) == fold_ops(start@, ops@),
        decreases ops@.len() - k,
    {
        proof {
            assert(ops@.skip(k as int).drop_first() =~= ops@.skip(k as int + 1));
            assert(ops@.skip(k as int)[0] == ops@[k as int]);
            assert(chain_in_range(acc@ + ops@[k as int].delta(), ops@.skip(k as int + 1)));
        }
        acc = ops[k].apply(acc);
        k += 1;
    }
    proof {
        assert(ops@.skip(ops@.len() as int) =~= Seq::<PeriodOp>::empty());
    }
    acc
}

impl DateMath {
    /// Evaluates the expression against the reference date `today`.
    pub fn compute(&self, today: Date) -> (r: ComputeOutcome)
        requires
            compute_in_range(self@, today@),
        ensures
            r@ == spec_compute(self@, today@),
    {
        proof {
            use_type_invariant(&today);
            date::lemma_date_in_range(today);
        }
        match self {
            DateMath::DateDiff(from, to) => {
                let a = from.calculate(today);
                let b = to.calculate(today);
                proof {
                    use_type_invariant(&a);
                    use_type_invariant(&b);
                    date::lemma_date_in_range(a);
                    date::lemma_date_in_range(b);
                }
                ComputeOutcome::DifferenceInDays(a.days_between(b) as usize)
            },
            DateMath::Start(v) => ComputeOutcome::Date(v.calculate(today)),
            DateMath::StartWithPeriods(v, base, rest) => {
                let first = base.apply(v.calculate(today));
                ComputeOutcome::Date(apply_ops(first, rest))
            },
            DateMath::Periods(base, rest) => {
                let first = today.add_days(base.to_duration());
                ComputeOutcome::Date(apply_ops(first, rest))
            },
        }
    }
}

/// The period's length in days, when it fits a `u64`.
fn delta_checked(p: Period) -> (r: Option<u64>)
    ensures
        match r {
            Some(d) => d as int == p.delta_days(),
            None => p.delta_days() > u64::MAX,
        },
{
    match p {
        Period::Day(n) => Some(n as u64),
        Period::Week(n) => (n as u64).checked_mul(7),
        Period::Month(n) => (n as u64).checked_mul(30),
        Period::Year(n) => (n as u64).checked_mul(365),
    }
}

/// One operation applied to a day number, when the result stays on the
/// calendar.
fn apply_step(acc: u64, op: PeriodOp) -> (r: Option<u64>)
    requires
        acc <= MAX_DAY_COUNT,
    ensures
        match r {
            Some(n) => 0 <= acc + op.delta() <= MAX_DAY_COUNT && n as int == acc + op.delta(),
            None => !(0 <= acc + op.delta() <= MAX_DAY_COUNT),
        },
{
    match op {
        PeriodOp::Add(p) => match delta_checked(p) {
            None => None,
            Some(d) => {
                if d <= MAX_DAY_COUNT - acc {
                    Some(acc + d)
                } else {
                    None
                }
            },
        },
        PeriodOp::Subtract(p) => match delta_checked(p) {
            None => None,
            Some(d) => {
                if d <= acc {
                    Some(acc - d)
                } else {
                    None
                }
            },
        },
    }
}

/// A whole chain of operations applied to a day number stays on the
/// calendar, decided at run time.
fn chain_fits(start: u64, ops: &Vec<PeriodOp>) -> (b: bool)
    requires
        start <= MAX_DAY_COUNT,
    ensures
        b == chain_in_range(start as int, ops@),
{
    let mut acc = start;
    let mut k: usize = 0;
    proof {
        assert(ops@.skip(0) =~= ops@);
    }
    while k < ops.len()
        invariant
            k <= ops@.len(),
            acc <= MAX_DAY_COUNT,
            chain_in_range(acc as int, ops@.skip(k as int)) == chain_in_range(
                start as int,
                ops@,
            ),
        decreases ops@.len() - k,
    {
        proof {
            assert(ops@.skip(k as int).drop_first() =~= ops@.skip(k as int + 1));
            assert(ops@.skip(k as int)[0] == ops@[k as int]);
        }
        match apply_step(acc, ops[k]) {
            None => {
                proof {
                    assert(!chain_in_range(
                        acc as int + ops@[k as int].delta(),
                        ops@.skip(k as int + 1),
                    ));
                }
                return false;
            },
            Some(n) => {
                acc = n;
            },
        }
        k += 1;
    }
    proof {
        assert(ops@.skip(ops@.len() as int) =~= Seq::<PeriodOp>::empty());
    }
    true
}

/// The day number of an anchor, when it lies on the calendar.
fn anchor_in_range(a: &CalculatedDate, today: Date) -> (r: Option<u64>)
    ensures
        match r {
            Some(n) => 0 <= resolve_anchor(a@, today@) <= MAX_DAY_COUNT && n as int
                == resolve_anchor(a@, today@),
            None => !(0 <= resolve_anchor(a@, today@) <= MAX_DAY_COUNT),
        },
{
    proof {
        use_type_invariant(&today);
        date::lemma_date_in_range(today);
    }
    match a {
        CalculatedDate::Today => Some(today.day_number()),
        CalculatedDate::Yesterday => {
            let n = today.day_number();
            if n >= 1 {
                Some(n - 1)
            } else {
                None
            }
        },
        CalculatedDate::Tomorrow => {
            let n = today.day_number();
            if n <= MAX_DAY_COUNT - 1 {
                Some(n + 1)
            } else {
                None
            }
        },
        CalculatedDate::Raw(d) => {
            proof {
                use_type_invariant(d);
                date::lemma_date_in_range(*d);
            }
            Some(d.day_number())
        },
    }
}

impl DateMath {
    /// Decides, before any evaluation, whether every date the
    /// evaluation of this expression touches stays on the calendar:
    /// exactly the condition `compute` asks of its caller.
    pub fn fits(&self, today: Date) -> (b: bool)
        ensures
            b == compute_in_range(self@, today@),
    {
        match self {
            DateMath::Start(a) => anchor_in_range(a, today).is_some(),
            DateMath::DateDiff(a, b) => anchor_in_range(a, today).is_some() && anchor_in_range(
                b,
                today,
            ).is_some(),
            DateMath::StartWithPeriods(a, op, rest) => match anchor_in_range(a, today) {
                None => false,
                Some(n) => match apply_step(n, *op) {
                    None => false,
                    Some(first) => chain_fits(first, rest),
                },
            },
            DateMath::Periods(base, rest) => {
                proof {
                    use_type_invariant(&today);
                    date::lemma_date_in_range(today);
                }
                let n = today.day_number();
                match delta_checked(*base) {
                    None => false,
                    Some(d) => {
                        if d <= MAX_DAY_COUNT - n {
                            chain_fits(n + d, rest)
                        } else {
                            false
                        }
                    },
                }
            },
        }
    }

    /// Evaluates the expression when every date the evaluation touches
    /// stays on the calendar, and yields nothing otherwise.
    pub fn compute_checked(&self, today: Date) -> (r: Option<ComputeOutcome>)
        ensures
            match r {
                Some(o) => compute_in_range(self@, today@) && o@ == spec_compute(self@, today@),
                None => !compute_in_range(self@, today@),
            },
    {
        if self.fits(today) {
            Some(self.compute(today))
        } else {
            None
        }
    }
}

impl ComputeOutcome {
    /// Text form of an outcome: a date as `YYYY-MM-DD`, a day count as
    /// `N days` (`1 day` for exactly one).
    pub open spec fn spec_text(self) -> Seq<char> {
        match self@ {
            OutcomeView::Date(n) => iso_chars(n),
            OutcomeView::DifferenceInDays(d) => dec_chars(d) + " day"@ + if d == 1 {
                Seq::<char>::empty()
            } else {
                "s"@
            },
        }
    }

    /// Writes the outcome as text.
    pub fn to_string(&self) -> (out: String)
        ensures
            out@ == self.spec_text(),
    {
        let mut out = String::new();
        match self {
            ComputeOutcome::Date(d) => {
                d.push_iso(&mut out);
                proof {
                    assert(out@ =~= self.spec_text());
                }
            },
            ComputeOutcome::DifferenceInDays(n) => {
                render::push_u64_dec(&mut out, *n as u64);
                out.append(" day");
                if *n != 1 {
                    render::push_char(&mut out, 's');
                }
                proof {
                    reveal_strlit("s");
                    assert("s"@ =~= seq!['s']);
                    assert(out@ =~= self.spec_text());
                }
            },
        }
        out
    }
}

/// A day difference of an anchor with itself is zero days, whatever
/// the anchor and whatever the reference date.
pub proof fn lemma_diff_of_same_anchor(a: AnchorView, today: int)
    ensures
        spec_compute(ExprView::DateDiff(a, a), today) == OutcomeView::DifferenceInDays(0),
{
}

/// A day difference does not depend on the order of its two anchors.
pub proof fn lemma_diff_symmetry(a: AnchorView, b: AnchorView, today: int)
    ensures
        spec_compute(ExprView::DateDiff(a, b), today) == spec_compute(
            ExprView::DateDiff(b, a),
            today,
        ),
{
}

/// Adding a period and then subtracting the same period leaves any
/// anchor's date unchanged, for every unit and count.
pub proof fn lemma_add_then_subtract(a: AnchorView, p: Period, today: int)
    ensures
        spec_compute(
            ExprView::StartWithPeriods(a, PeriodOp::Add(p), seq![PeriodOp::Subtract(p)]),
            today,
        ) == OutcomeView::Date(resolve_anchor(a, today)),
{
    let start = resolve_anchor(a, today) + p.delta_days();
    let ops = seq![PeriodOp::Subtract(p)];
    assert(ops.drop_first() =~= Seq::<PeriodOp>::empty());
    assert(fold_ops(start, ops) == fold_ops(start - p.delta_days(), Seq::<PeriodOp>::empty()));
}

/// What reading one expression from an input yields: the whole input
/// understood; an expression with trailing text left over; or no rule
/// matched, with the input handed back.
#[derive(Debug, PartialEq, Eq)]
pub enum ParseResult {
    Success(DateMath),
    PartialSuccess(DateMath, String),
    Error(String),
}

/// Zero or more signed operations, as many as stand at `i`.
pub open spec fn spec_ops_list(s: Seq<char>, i: int) -> (Seq<PeriodOp>, int)
    decreases s.len() - i,
{
    match spec_parse_period_op(s, i) {
        None => (Seq::<PeriodOp>::empty(), i),
        Some((op, j)) => {
            if i < j <= s.len() {
                let (rest, e) = spec_ops_list(s, j);
                (seq![op] + rest, e)
            } else {
                // an operation always consumes text and stays inside it;
                // never reached
                (Seq::<PeriodOp>::empty(), i)
            }
        },
    }
}

/// Rule one: an anchor followed by one or more signed operations.
pub open spec fn spec_rule_anchor_ops(s: Seq<char>, i: int, ref_year: int) -> Option<
    (ExprView, int),
> {
    match spec_parse_anchor(s, i, ref_year) {
        None => None,
        Some((a, j)) => match spec_parse_period_op(s, j) {
            None => None,
            Some((op, k)) => {
                let (rest, e) = spec_ops_list(s, k);
                Some((ExprView::StartWithPeriods(a, op, rest), e))
            },
        },
    }
}

/// Rule two: two anchors joined by `-`.
pub open spec fn spec_rule_diff(s: Seq<char>, i: int, ref_year: int) -> Option<(ExprView, int)> {
    match spec_parse_anchor(s, i, ref_year) {
        None => None,
        Some((a, j)) => {
            let j1 = space_run_end(s, j);
            if tag_match(s, j1, "-"@) {
                let j2 = space_run_end(s, j1 + 1);
                match spec_parse_anchor(s, j2, ref_year) {
                    None => None,
                    Some((b, e)) => Some((ExprView::DateDiff(a, b), e)),
                }
            } else {
                None
            }
        },
    }
}

/// Rule three: a relative expression.
pub open spec fn spec_rule_relative(s: Seq<char>, i: int, ref_year: int) -> Option<
    (ExprView, int),
> {
    match spec_parse_relative(s, i, ref_year) {
        None => None,
        Some(((a, op, rest), e)) => Some((ExprView::StartWithPeriods(a, op, rest), e)),
    }
}

/// Rule four: a bare anchor.
pub open spec fn spec_rule_start(s: Seq<char>, i: int, ref_year: int) -> Option<(ExprView, int)> {
    match spec_parse_anchor(s, i, ref_year) {
        None => None,
        Some((a, j)) => Some((ExprView::Start(a), j)),
    }
}

/// Rule five: a bare period with zero or more signed operations.
pub open spec fn spec_rule_periods(s: Seq<char>, i: int) -> Option<(ExprView, int)> {
    match spec_parse_period(s, i) {
        None => None,
        Some((p, j)) => {
            let (rest, e) = spec_ops_list(s, j);
            Some((ExprView::Periods(p, rest), e))
        },
    }
}

/// Where the top-level grammar accepts and what it yields: the five
/// rules in their fixed order of priority, first match wins.
pub open spec fn spec_parse_date_math(s: Seq<char>, i: int, ref_year: int) -> Option<
    (ExprView, int),
> {
    if spec_rule_anchor_ops(s, i, ref_year) is Some {
        spec_rule_anchor_ops(s, i, ref_year)
    } else if spec_rule_diff(s, i, ref_year) is Some {
        spec_rule_diff(s, i, ref_year)
    } else if spec_rule_relative(s, i, ref_year) is Some {
        spec_rule_relative(s, i, ref_year)
    } else if spec_rule_start(s, i, ref_year) is Some {
        spec_rule_start(s, i, ref_year)
    } else {
        spec_rule_periods(s, i)
    }
}

fn ops_list_at(s: &Vec<char>, i: usize) -> (r: (Vec<PeriodOp>, usize))
    requires
        i <= s@.len(),
    ensures
        spec_ops_list(s@, i as int) == (r.0@, r.1 as int),
        i <= r.1 <= s@.len(),
    decreases s@.len() - i,
{
    match period_operation::parse_at(s, i) {
        None => (Vec::new(), i),
        Some((op, j)) => {
            let (rest, e) = ops_list_at(s, j);
            let mut ops = rest;
            ops.insert(0, op);
            proof {
                assert(ops@ =~= seq![op] + spec_ops_list(s@, j as int).0);
            }
            (ops, e)
        },
    }
}

fn parse_math_at(s: &Vec<char>, i: usize, ref_year: i32) -> (r: Option<(DateMath, usize)>)
    requires
        i <= s@.len(),
    ensures
        match r {
            Some((m, j)) => spec_parse_date_math(s@, i as int, ref_year as int) == Some(
                (m@, j as int),
            ) && i <= j <= s@.len(),
            None => spec_parse_date_math(s@, i as int, ref_year as int) is None,
        },
{
    let sl = s.len();
    if let Some((a, j)) = calculated_date::parse_at(s, i, ref_year) {
        if let Some((op, k)) = period_operation::parse_at(s, j) {
            let (rest, e) = ops_list_at(s, k);
            return Some((DateMath::StartWithPeriods(a, op, rest), e));
        }
    }
    if let Some((a, j)) = calculated_date::parse_at(s, i, ref_year) {
        let j1 = parser_utils::skip_spaces(s, j);
        if parser_utils::match_lit(s, j1, "-") {
            proof {
                reveal_strlit("-");
            }
            let j2 = parser_utils::skip_spaces(s, j1 + 1);
            if let Some((b, e)) = calculated_date::parse_at(s, j2, ref_year) {
                return Some((DateMath::DateDiff(a, b), e));
            }
        }
    }
    if let Some((a, op, rest, e)) = relative_period::parse_at(s, i, ref_year) {
        return Some((DateMath::StartWithPeriods(a, op, rest), e));
    }
    if let Some((a, j)) = calculated_date::parse_at(s, i, ref_year) {
        return Some((DateMath::Start(a), j));
    }
    if let Some((p, j)) = period::parse_at(s, i) {
        let (rest, e) = ops_list_at(s, j);
        return Some((DateMath::Periods(p, rest), e));
    }
    None
}

/// Reads one expression from `input`. `today` supplies the year of
/// literal dates written without one. The whole input understood gives
/// `Success`; a valid expression with text left over gives
/// `PartialSuccess` with the unread tail; otherwise `Error` hands the
/// input back.
pub fn parse(input: &str, today: &Date) -> (r: ParseResult)
    ensures
        ({
            let sp = spec_parse_date_math(input@, 0, year_of_day_number(today@));
            match r {
                ParseResult::Success(m) => sp matches Some((e, j)) && m@ == e && j
                    == input@.len(),
                ParseResult::PartialSuccess(m, rest) => sp matches Some((e, j)) && m@ == e && j
                    < input@.len() && rest@ == input@.subrange(j, input@.len() as int),
                ParseResult::Error(text) => sp is None && text@ == input@,
            }
        }),
{
    let ref_year = today.year();
    let chars = str_to_chars(input);
    match parse_math_at(&chars, 0, ref_year) {
        None => ParseResult::Error(input.to_owned()),
        Some((m, j)) => {
            let n = input.unicode_len();
            if j == n {
                ParseResult::Success(m)
            } else {
                ParseResult::PartialSuccess(m, input.substring_char(j, n).to_owned())
            }
        },
    }
}

} // verus!
