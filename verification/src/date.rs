//! Calendar dates on the proleptic Gregorian calendar.
//!
//! A `Date` stores a single day number: the count of days since
//! 1 January of year -262400. Years -262144 through 262143 are accepted
//! when a date is built from a year, month and day, so every such date
//! has a day number comfortably below `MAX_DAY_COUNT`. Day arithmetic
//! (adding days, day differences) is plain arithmetic on day numbers;
//! the year/month/day form is recovered exactly when needed.

use vstd::arithmetic::div_mod::{
    lemma_div_is_ordered, lemma_div_nonincreasing, lemma_div_pos_is_pos,
    lemma_fundamental_div_mod, lemma_fundamental_div_mod_converse, lemma_mod_pos_bound,
};
use vstd::prelude::*;

verus! {

/// Upper bound on every day number held by a `Date`.
pub const MAX_DAY_COUNT: u64 = 200_000_000;

/// Smallest year accepted by `Date::from_ymd`.
pub const MIN_YEAR: i32 = -262144;

/// Largest year accepted by `Date::from_ymd`.
pub const MAX_YEAR: i32 = 262143;

/// Leap rule over shifted years (a shifted year is the real year plus
/// 262400, so it is never negative for supported dates).
pub open spec fn leap_shifted(yy: int) -> bool {
    yy % 4 == 0 && (yy % 100 != 0 || yy % 400 == 0)
}

/// The Gregorian leap-year rule. The shift by 262400 (a multiple of 400)
/// does not change the rule and keeps the arithmetic non-negative.
pub open spec fn is_leap_year(y: int) -> bool {
    leap_shifted(y + 262400)
}

/// Number of days in the given month of the given year.
pub open spec fn days_in_month(y: int, m: int) -> int {
    if m == 2 {
        if is_leap_year(y) {
            29
        } else {
            28
        }
    } else if m == 4 || m == 6 || m == 9 || m == 11 {
        30
    } else {
        31
    }
}

/// Number of days of year `y` that precede month `m`.
pub open spec fn days_before_month(y: int, m: int) -> int
    decreases m,
{
    if m <= 1 {
        0
    } else {
        days_before_month(y, m - 1) + days_in_month(y, m - 1)
    }
}

/// Day number of 1 January of shifted year `yy`: 365 days per earlier
/// year plus one leap day for every earlier shifted year divisible by 4,
/// but not by 100 unless also by 400.
pub open spec fn year_start(yy: int) -> int {
    365 * yy + (yy + 3) / 4 - (yy + 99) / 100 + (yy + 399) / 400
}

/// Day number of the calendar day `y`-`m`-`d`.
pub open spec fn days_from_ymd(y: int, m: int, d: int) -> int {
    year_start(y + 262400) + days_before_month(y, m) + (d - 1)
}

/// `y`-`m`-`d` is a real calendar day within the supported year range.
pub open spec fn valid_ymd(y: int, m: int, d: int) -> bool {
    &&& MIN_YEAR <= y <= MAX_YEAR
    &&& 1 <= m <= 12
    &&& 1 <= d <= days_in_month(y, m)
}

/// Day number `n` falls inside year `y`.
pub open spec fn year_day_rel(n: int, y: int) -> bool {
    &&& -262400 <= y
    &&& year_start(y + 262400) <= n < year_start(y + 262401)
}

/// The year that day number `n` falls in.
pub open spec fn year_of_day_number(n: int) -> int {
    choose|y: int| year_day_rel(n, y)
}

/// A calendar date, held as its day number.
#[derive(Clone, Copy, Debug, PartialEq, Eq, Structural)]
pub struct Date {
    days: u64,
}

impl View for Date {
    type V = int;

    closed spec fn view(&self) -> int {
        self.days as int
    }
}

/// Every `Date` value carries a day number between 0 and `MAX_DAY_COUNT`;
/// `use_type_invariant` supplies the hypothesis for any live `Date`.
pub proof fn lemma_date_in_range(d: Date)
    requires
        d.day_count_bounded(),
    ensures
        0 <= d@ <= MAX_DAY_COUNT,
{
}

/// Quotients grow by one exactly at multiples of the divisor.
proof fn lemma_div_step(x: int, d: int)
    requires
        x >= 0,
        d >= 1,
    ensures
        (x + d) / d == (x + d - 1) / d + if x % d == 0 {
            1int
        } else {
            0int
        },
{
    let q = x / d;
    let r = x % d;
    lemma_fundamental_div_mod(x, d);
    lemma_mod_pos_bound(x, d);
    assert(x + d == (q + 1) * d + r) by (nonlinear_arith)
        requires
            x == d * q + r,
    ;
    lemma_fundamental_div_mod_converse(x + d, d, q + 1, r);
    if r == 0 {
        assert(x + d - 1 == q * d + (d - 1)) by (nonlinear_arith)
            requires
                x == d * q + r,
                r == 0,
        ;
        lemma_fundamental_div_mod_converse(x + d - 1, d, q, d - 1);
    } else {
        assert(x + d - 1 == (q + 1) * d + (r - 1)) by (nonlinear_arith)
            requires
                x == d * q + r,
        ;
        lemma_fundamental_div_mod_converse(x + d - 1, d, q + 1, r - 1);
    }
}

/// A multiple of 400 is a multiple of 100, and a multiple of 100 a
/// multiple of 4.
proof fn lemma_divisor_chain(yy: int)
    requires
        yy >= 0,
    ensures
        yy % 400 == 0 ==> yy % 100 == 0,
        yy % 100 == 0 ==> yy % 4 == 0,
{
    if yy % 400 == 0 {
        lemma_fundamental_div_mod(yy, 400);
        assert(yy == (4 * (yy / 400)) * 100 + 0) by (nonlinear_arith)
            requires
                yy == 400 * (yy / 400) + 0,
        ;
        lemma_fundamental_div_mod_converse(yy, 100, 4 * (yy / 400), 0);
    }
    if yy % 100 == 0 {
        lemma_fundamental_div_mod(yy, 100);
        assert(yy == (25 * (yy / 100)) * 4 + 0) by (nonlinear_arith)
            requires
                yy == 100 * (yy / 100) + 0,
        ;
        lemma_fundamental_div_mod_converse(yy, 4, 25 * (yy / 100), 0);
    }
}

/// From one 1 January to the next lie 365 days, or 366 before a leap year.
proof fn lemma_year_start_step(yy: int)
    requires
        yy >= 0,
    ensures
        year_start(yy + 1) == year_start(yy) + if leap_shifted(yy) {
            366int
        } else {
            365int
        },
{
    lemma_div_step(yy, 4);
    lemma_div_step(yy, 100);
    lemma_div_step(yy, 400);
    lemma_divisor_chain(yy);
}

/// `year_start` grows by at least 365 per year.
proof fn lemma_year_start_mono(a: int, b: int)
    requires
        0 <= a <= b,
    ensures
        year_start(a) <= year_start(b),
        a < b ==> year_start(a) + 365 <= year_start(b),
    decreases b - a,
{
    if a < b {
        lemma_year_start_step(b - 1);
        lemma_year_start_mono(a, b - 1);
    }
}

/// At most one year contains a given day number.
proof fn lemma_year_rel_unique(n: int, y: int)
    requires
        year_day_rel(n, y),
    ensures
        year_of_day_number(n) == y,
{
    assert(exists|yr: int| year_day_rel(n, yr)) by {
        assert(year_day_rel(n, y));
    }
    let y2 = year_of_day_number(n);
    assert(year_day_rel(n, y2));
    if y2 < y {
        lemma_year_start_mono(y2 + 262401, y + 262400);
    } else if y2 > y {
        lemma_year_start_mono(y + 262401, y2 + 262400);
    }
}

/// Coarse bounds on `year_start`, enough to keep day numbers in range.
proof fn lemma_year_start_bounds(yy: int)
    requires
        yy >= 0,
    ensures
        365 * yy <= year_start(yy),
        year_start(yy) <= 367 * yy + 402,
        (yy + 99) / 100 <= (yy + 3) / 4,
{
    lemma_div_nonincreasing(yy + 3, 4);
    lemma_div_nonincreasing(yy + 399, 400);
    lemma_div_pos_is_pos(yy + 99, 100);
    lemma_div_pos_is_pos(yy + 399, 400);
    // (yy + 99) / 100 <= (yy + 3) / 4, so the subtracted term never
    // outweighs the quarter-years term.
    let q = (yy + 99) / 100;
    lemma_fundamental_div_mod(yy + 99, 100);
    lemma_mod_pos_bound(yy + 99, 100);
    if q >= 1 {
        assert(yy + 3 >= 4 * (25 * q - 24)) by (nonlinear_arith)
            requires
                yy + 99 == 100 * q + (yy + 99) % 100,
                (yy + 99) % 100 < 100,
        ;
        assert((4 * (25 * q - 24)) / 4 == 25 * q - 24) by {
            lemma_fundamental_div_mod_converse(4 * (25 * q - 24), 4, 25 * q - 24, 0);
        }
        lemma_div_is_ordered(4 * (25 * q - 24), yy + 3, 4);
        assert((yy + 3) / 4 >= q);
    } else {
        lemma_div_pos_is_pos(yy + 3, 4);
    }
}

impl Date {
    /// Every `Date` holds a day number within range.
    #[verifier::type_invariant]
    pub closed spec fn day_count_bounded(self) -> bool {
        self.days <= MAX_DAY_COUNT
    }

    /// Builds the date `year`-`month`-`day`, or `None` when the three
    /// numbers do not name a real calendar day in the supported range.
    pub fn from_ymd(year: i32, month: u32, day: u32) -> (r: Option<Date>)
        ensures
            r is Some <==> valid_ymd(year as int, month as int, day as int),
            r matches Some(d) ==> d@ == days_from_ymd(year as int, month as int, day as int),
    {
        if year < MIN_YEAR || year > MAX_YEAR || month < 1 || month > 12 {
            return None;
        }
        let dim = days_in_month_exec(year, month);
        if day < 1 || day > dim {
            return None;
        }
        let yy = (year as i64 + 262400) as u64;
        let ys = year_start_exec(yy);
        let dbm = days_before_month_exec(year, month);
        proof {
            lemma_year_start_bounds(yy as int);
            lemma_dbm_bounds(year as int, month as int);
        }
        let days = ys + dbm as u64 + (day as u64 - 1);
        Some(Date { days })
    }

    /// The year, month and day of this date: the unique calendar day
    /// whose day number this date holds.
    pub fn to_ymd(&self) -> (r: (i32, u32, u32))
        ensures
            1 <= r.1 <= 12,
            1 <= r.2 <= days_in_month(r.0 as int, r.1 as int),
            days_from_ymd(r.0 as int, r.1 as int, r.2 as int) == self@,
            r.0 as int == year_of_day_number(self@),
            (r.0 as int, r.1 as int, r.2 as int) == ymd_of_day_number(self@),
            -262400 <= r.0 as int,
    {
        proof {
            use_type_invariant(self);
        }
        let n = self.days;
        let mut yy: u64 = n / 365 + 1;
        proof {
            lemma_year_start_bounds(yy as int + 1);
            lemma_fundamental_div_mod(n as int, 365);
            lemma_mod_pos_bound(n as int, 365);
        }
        while year_start_exec(yy) > n
            invariant
                yy <= n / 365 + 1,
                n < MAX_DAY_COUNT + 365,
                (n as int) < year_start(yy as int + 1),
            decreases yy,
        {
            proof {
                lemma_year_start_bounds(yy as int);
                if yy == 0 {
                    assert(year_start(0) == 0);
                }
            }
            yy = yy - 1;
        }
        proof {
            lemma_div_is_ordered(n as int, MAX_DAY_COUNT as int, 365);
            assert(MAX_DAY_COUNT as int / 365 == 547945);
        }
        let ys = year_start_exec(yy);
        let rem = n - ys;
        proof {
            lemma_year_start_step(yy as int);
        }
        let year32 = (yy as i64 - 262400) as i32;
        proof {
            lemma_year_rel_unique(n as int, year32 as int);
            lemma_month_table(year32 as int);
        }
        let leap = is_leap_exec(year32);
        let l: u64 = if leap {
            1
        } else {
            0
        };
        let (month, dbm): (u32, u64) = if rem < 31 {
            (1, 0)
        } else if rem < 59 + l {
            (2, 31)
        } else if rem < 90 + l {
            (3, 59 + l)
        } else if rem < 120 + l {
            (4, 90 + l)
        } else if rem < 151 + l {
            (5, 120 + l)
        } else if rem < 181 + l {
            (6, 151 + l)
        } else if rem < 212 + l {
            (7, 181 + l)
        } else if rem < 243 + l {
            (8, 212 + l)
        } else if rem < 273 + l {
            (9, 243 + l)
        } else if rem < 304 + l {
            (10, 273 + l)
        } else if rem < 334 + l {
            (11, 304 + l)
        } else {
            (12, 334 + l)
        };
        let day = (rem - dbm + 1) as u32;
        proof {
            lemma_ymd_rel_unique(n as int, year32 as int, month as int, day as int);
        }
        (year32, month, day)
    }

    /// Appends this date in `YYYY-MM-DD` form.
    pub fn push_iso(&self, out: &mut String)
        ensures
            final(out)@ == old(out)@ + iso_chars(self@),
    {
        let (y, m, d) = self.to_ymd();
        if 0 <= y && y <= 9999 {
            crate::render::push_u64_pad(out, y as u64, 4);
        } else if y > 9999 {
            crate::render::push_char(out, '+');
            crate::render::push_u64_dec(out, y as u64);
        } else {
            crate::render::push_char(out, '-');
            crate::render::push_u64_pad(out, (-(y as i64)) as u64, 4);
        }
        crate::render::push_char(out, '-');
        crate::render::push_u64_pad(out, m as u64, 2);
        crate::render::push_char(out, '-');
        crate::render::push_u64_pad(out, d as u64, 2);
        proof {
            assert(out@ =~= old(out)@ + iso_chars(self@));
        }
    }

    /// The year this date falls in.
    pub fn year(&self) -> (y: i32)
        ensures
            y as int == year_of_day_number(self@),
    {
        let (y, _, _) = self.to_ymd();
        y
    }

    /// The day number this date holds.
    pub fn day_number(&self) -> (n: u64)
        ensures
            n as int == self@,
    {
        self.days
    }

    /// The date `n` days later.
    pub fn add_days(self, n: u64) -> (r: Date)
        requires
            self@ + n <= MAX_DAY_COUNT,
        ensures
            r@ == self@ + n,
    {
        Date { days: self.days + n }
    }

    /// The date `n` days earlier.
    pub fn sub_days(self, n: u64) -> (r: Date)
        requires
            n <= self@,
        ensures
            r@ == self@ - n,
    {
        proof {
            use_type_invariant(&self);
        }
        Date { days: self.days - n }
    }

    /// The number of days between two dates, as a magnitude.
    pub fn days_between(self, other: Date) -> (r: u64)
        ensures
            r == abs_day_diff(self@, other@),
    {
        if self.days >= other.days {
            self.days - other.days
        } else {
            other.days - self.days
        }
    }
}

/// `y`-`m`-`d` is the calendar form of day number `n`.
pub open spec fn month_day_rel(n: int, y: int, m: int, d: int) -> bool {
    &&& -262400 <= y
    &&& 1 <= m <= 12
    &&& 1 <= d <= days_in_month(y, m)
    &&& days_from_ymd(y, m, d) == n
}

/// The calendar form of day number `n`.
pub open spec fn ymd_of_day_number(n: int) -> (int, int, int) {
    choose|t: (int, int, int)| month_day_rel(n, t.0, t.1, t.2)
}

/// At most one calendar day has a given day number.
pub proof fn lemma_ymd_rel_unique(n: int, y: int, m: int, d: int)
    requires
        month_day_rel(n, y, m, d),
    ensures
        ymd_of_day_number(n) == (y, m, d),
{
    assert(exists|t: (int, int, int)| month_day_rel(n, t.0, t.1, t.2)) by {
        let w = (y, m, d);
        assert(month_day_rel(n, w.0, w.1, w.2));
    }
    let t2 = ymd_of_day_number(n);
    assert(month_day_rel(n, t2.0, t2.1, t2.2));
    lemma_month_table(y);
    lemma_year_start_step(y + 262400);
    assert(year_day_rel(n, y));
    lemma_month_table(t2.0);
    lemma_year_start_step(t2.0 + 262400);
    assert(year_day_rel(n, t2.0));
    lemma_year_rel_unique(n, y);
    lemma_year_rel_unique(n, t2.0);
    assert(t2.0 == y);
}

/// Character form of a year: four zero-padded digits for common years,
/// a sign in front otherwise.
pub open spec fn year_chars(y: int) -> Seq<char> {
    if 0 <= y <= 9999 {
        crate::render::dec_chars_pad(y, 4)
    } else if y > 9999 {
        seq!['+'] + crate::render::dec_chars(y)
    } else {
        seq!['-'] + crate::render::dec_chars_pad(-y, 4)
    }
}

/// The date with day number `n`, written `YYYY-MM-DD`.
pub open spec fn iso_chars(n: int) -> Seq<char> {
    let t = ymd_of_day_number(n);
    year_chars(t.0) + seq!['-'] + crate::render::dec_chars_pad(t.1, 2) + seq!['-']
        + crate::render::dec_chars_pad(t.2, 2)
}

/// The magnitude of the difference of two day numbers.
pub open spec fn abs_day_diff(a: int, b: int) -> int {
    if a >= b {
        a - b
    } else {
        b - a
    }
}

/// `days_before_month` summed over a whole year gives the year's length.
proof fn lemma_month_table(y: int)
    ensures
        days_before_month(y, 1) == 0,
        days_before_month(y, 2) == 31,
        days_before_month(y, 3) == 59 + if is_leap_year(y) {
            1int
        } else {
            0int
        },
        days_before_month(y, 4) == 90 + if is_leap_year(y) {
            1int
        } else {
            0int
        },
        days_before_month(y, 5) == 120 + if is_leap_year(y) {
            1int
        } else {
            0int
        },
        days_before_month(y, 6) == 151 + if is_leap_year(y) {
            1int
        } else {
            0int
        },
        days_before_month(y, 7) == 181 + if is_leap_year(y) {
            1int
        } else {
            0int
        },
        days_before_month(y, 8) == 212 + if is_leap_year(y) {
            1int
        } else {
            0int
        },
        days_before_month(y, 9) == 243 + if is_leap_year(y) {
            1int
        } else {
            0int
        },
        days_before_month(y, 10) == 273 + if is_leap_year(y) {
            1int
        } else {
            0int
        },
        days_before_month(y, 11) == 304 + if is_leap_year(y) {
            1int
        } else {
            0int
        },
        days_before_month(y, 12) == 334 + if is_leap_year(y) {
            1int
        } else {
            0int
        },
        days_before_month(y, 13) == 365 + if is_leap_year(y) {
            1int
        } else {
            0int
        },
{
    assert(days_before_month(y, 1) == 0);
    assert(days_before_month(y, 2) == 31);
    assert(days_before_month(y, 3) == days_before_month(y, 2) + days_in_month(y, 2));
    assert(days_before_month(y, 4) == days_before_month(y, 3) + days_in_month(y, 3));
    assert(days_before_month(y, 5) == days_before_month(y, 4) + days_in_month(y, 4));
    assert(days_before_month(y, 6) == days_before_month(y, 5) + days_in_month(y, 5));
    assert(days_before_month(y, 7) == days_before_month(y, 6) + days_in_month(y, 6));
    assert(days_before_month(y, 8) == days_before_month(y, 7) + days_in_month(y, 7));
    assert(days_before_month(y, 9) == days_before_month(y, 8) + days_in_month(y, 8));
    assert(days_before_month(y, 10) == days_before_month(y, 9) + days_in_month(y, 9));
    assert(days_before_month(y, 11) == days_before_month(y, 10) + days_in_month(y, 10));
    assert(days_before_month(y, 12) == days_before_month(y, 11) + days_in_month(y, 11));
    assert(days_before_month(y, 13) == days_before_month(y, 12) + days_in_month(y, 12));
}

/// `days_before_month` stays below a year's length.
proof fn lemma_dbm_bounds(y: int, m: int)
    requires
        1 <= m <= 12,
    ensures
        0 <= days_before_month(y, m) <= 334 + 1,
{
    lemma_month_table(y);
}

/// Whether `year` is a leap year.
fn is_leap_exec(year: i32) -> (b: bool)
    requires
        -262400 <= year as int,
        year as int <= 400_000,
    ensures
        b == is_leap_year(year as int),
{
    let yy = (year as i64 + 262400) as u64;
    yy % 4 == 0 && (yy % 100 != 0 || yy % 400 == 0)
}

/// Days in the given month, as run-time code.
fn days_in_month_exec(year: i32, month: u32) -> (d: u32)
    requires
        -262400 <= year as int <= 400_000,
        1 <= month <= 12,
    ensures
        d as int == days_in_month(year as int, month as int),
{
    if month == 2 {
        if is_leap_exec(year) {
            29
        } else {
            28
        }
    } else if month == 4 || month == 6 || month == 9 || month == 11 {
        30
    } else {
        31
    }
}

/// Days of the year before the given month, as run-time code.
fn days_before_month_exec(year: i32, month: u32) -> (d: u32)
    requires
        -262400 <= year as int <= 400_000,
        1 <= month <= 12,
    ensures
        d as int == days_before_month(year as int, month as int),
{
    proof {
        lemma_month_table(year as int);
    }
    let l: u32 = if is_leap_exec(year) {
        1
    } else {
        0
    };
    match month {
        1 => 0,
        2 => 31,
        3 => 59 + l,
        4 => 90 + l,
        5 => 120 + l,
        6 => 151 + l,
        7 => 181 + l,
        8 => 212 + l,
        9 => 243 + l,
        10 => 273 + l,
        11 => 304 + l,
        _ => 334 + l,
    }
}

/// `year_start`, as run-time code.
fn year_start_exec(yy: u64) -> (r: u64)
    requires
        yy <= 1_000_000,
    ensures
        r as int == year_start(yy as int),
{
    proof {
        lemma_year_start_bounds(yy as int);
        lemma_div_nonincreasing(yy as int + 99, 100);
        lemma_div_pos_is_pos(yy as int + 99, 100);
        lemma_div_pos_is_pos(yy as int + 3, 4);
        lemma_div_pos_is_pos(yy as int + 399, 400);
    }
    365 * yy + (yy + 3) / 4 - (yy + 99) / 100 + (yy + 399) / 400
}

} // verus!
