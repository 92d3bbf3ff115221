//! Low-level pieces shared by every part of the grammar: blanks, digit
//! runs, decimal values and literal matching, all over sequences of
//! characters with an explicit cursor position.

use vstd::prelude::*;
use vstd::string::StrSliceExecFns;

verus! {

/// Blank characters of the grammar: space and tab.
pub open spec fn is_space(c: char) -> bool {
    c == ' ' || c == '\t'
}

/// ASCII decimal digits.
pub open spec fn is_digit(c: char) -> bool {
    48 <= c as u32 <= 57
}

/// Numeric value of a digit character.
pub open spec fn digit_val(c: char) -> int {
    c as u32 - 48
}

/// Index just past the run of digits that starts at `i`.
pub open spec fn digit_run_end(s: Seq<char>, i: int) -> int
    decreases s.len() - i,
{
    if 0 <= i < s.len() && is_digit(s[i]) {
        digit_run_end(s, i + 1)
    } else {
        i
    }
}

/// Index just past the run of blanks that starts at `i`.
pub open spec fn space_run_end(s: Seq<char>, i: int) -> int
    decreases s.len() - i,
{
    if 0 <= i < s.len() && is_space(s[i]) {
        space_run_end(s, i + 1)
    } else {
        i
    }
}

/// Value of the digit string `s[i..j)` read as a decimal number.
pub open spec fn digits_value(s: Seq<char>, i: int, j: int) -> int
    decreases j - i,
{
    if j <= i {
        0
    } else {
        digits_value(s, i, j - 1) * 10 + digit_val(s[j - 1])
    }
}

/// The literal `t` occurs in `s` at position `i`.
pub open spec fn tag_match(s: Seq<char>, i: int, t: Seq<char>) -> bool {
    &&& 0 <= i
    &&& i + t.len() <= s.len()
    &&& s.subrange(i, i + t.len()) == t
}

/// A digit run read as a number: nothing when no digit stands at `i`,
/// or when the value does not fit a `usize`.
pub open spec fn spec_parse_digits(s: Seq<char>, i: int) -> Option<(int, int)> {
    let j = digit_run_end(s, i);
    if j == i {
        None
    } else if digits_value(s, i, j) > usize::MAX as int {
        None
    } else {
        Some((digits_value(s, i, j), j))
    }
}

/// Case-blind equality on ASCII letters: `a` from the input matches a
/// lower-case reference character `b`.
pub open spec fn eq_ci(a: char, b: char) -> bool {
    a as u32 == b as u32 || (65 <= a as u32 <= 90 && a as u32 + 32 == b as u32)
}

/// The literal `t` (given lower-case) occurs at position `i` of `s`,
/// matching ASCII letters without regard to case.
pub open spec fn tag_match_ci(s: Seq<char>, i: int, t: Seq<char>) -> bool {
    &&& 0 <= i
    &&& i + t.len() <= s.len()
    &&& forall|k: int| 0 <= k < t.len() ==> eq_ci(s[i + k], t[k])
}

/// First position of `[lo, hi)` that holds no blank.
pub open spec fn trim_from(s: Seq<char>, lo: int, hi: int) -> int
    decreases hi - lo,
{
    if lo < hi && is_space(s[lo]) {
        trim_from(s, lo + 1, hi)
    } else {
        lo
    }
}

/// Position just past the last non-blank of `[lo, hi)`.
pub open spec fn trim_to(s: Seq<char>, lo: int, hi: int) -> int
    decreases hi - lo,
{
    if lo < hi && is_space(s[hi - 1]) {
        trim_to(s, lo, hi - 1)
    } else {
        hi
    }
}

/// A digit run of at most `maxlen` digits, read as a number.
pub open spec fn bounded_digits(s: Seq<char>, i: int, maxlen: int) -> Option<(int, int)> {
    let j = digit_run_end(s, i);
    if i < j <= i + maxlen {
        Some((digits_value(s, i, j), j))
    } else {
        None
    }
}

/// The run-time outcome `r` agrees with the specified outcome `sp`.
pub open spec fn parses_to<T>(r: Option<(T, usize)>, sp: Option<(T, int)>) -> bool {
    match (r, sp) {
        (Some((v, j)), Some((w, k))) => v == w && j as int == k,
        (None, None) => true,
        _ => false,
    }
}

pub proof fn lemma_digit_run_end_bounds(s: Seq<char>, i: int)
    requires
        0 <= i <= s.len(),
    ensures
        i <= digit_run_end(s, i) <= s.len(),
    decreases s.len() - i,
{
    if i < s.len() && is_digit(s[i]) {
        lemma_digit_run_end_bounds(s, i + 1);
    }
}

/// Every character of a digit run is a digit.
pub proof fn lemma_digit_run_digits(s: Seq<char>, i: int)
    requires
        0 <= i <= s.len(),
    ensures
        forall|k: int| i <= k < digit_run_end(s, i) ==> is_digit(s[k]),
    decreases s.len() - i,
{
    if i < s.len() && is_digit(s[i]) {
        lemma_digit_run_digits(s, i + 1);
    }
}

/// Small digit runs have small values.
pub proof fn lemma_digits_value_small(s: Seq<char>, i: int, j: int)
    requires
        i <= j,
        forall|k: int| i <= k < j ==> is_digit(s[k]),
    ensures
        0 <= digits_value(s, i, j),
        j - i <= 1 ==> digits_value(s, i, j) < 10,
        j - i <= 2 ==> digits_value(s, i, j) < 100,
        j - i <= 3 ==> digits_value(s, i, j) < 1000,
        j - i <= 4 ==> digits_value(s, i, j) < 10000,
    decreases j - i,
{
    if j > i {
        lemma_digits_value_small(s, i, j - 1);
    }
}

/// A stretch of digits with no digit after it is exactly a digit run.
pub proof fn lemma_digit_run_exact(s: Seq<char>, i: int, j: int)
    requires
        0 <= i <= j <= s.len(),
        forall|k: int| i <= k < j ==> is_digit(s[k]),
        j == s.len() || !is_digit(s[j]),
    ensures
        digit_run_end(s, i) == j,
    decreases j - i,
{
    if i < j {
        lemma_digit_run_exact(s, i + 1, j);
    }
}

/// A stretch of blanks with no blank after it is exactly a blank run.
pub proof fn lemma_space_run_exact(s: Seq<char>, i: int, j: int)
    requires
        0 <= i <= j <= s.len(),
        forall|k: int| i <= k < j ==> is_space(s[k]),
        j == s.len() || !is_space(s[j]),
    ensures
        space_run_end(s, i) == j,
    decreases j - i,
{
    if i < j {
        lemma_space_run_exact(s, i + 1, j);
    }
}

/// The value of a digit stretch depends only on its characters.
pub proof fn lemma_digits_value_congruent(s1: Seq<char>, i1: int, s2: Seq<char>, i2: int, len: int)
    requires
        forall|k: int| 0 <= k < len ==> s1[i1 + k] == #[trigger] s2[i2 + k],
    ensures
        digits_value(s1, i1, i1 + len) == digits_value(s2, i2, i2 + len),
    decreases len,
{
    if len > 0 {
        lemma_digits_value_congruent(s1, i1, s2, i2, len - 1);
        assert(s1[i1 + (len - 1)] == s2[i2 + (len - 1)]);
    }
}

/// The value of a digit run is never negative.
pub proof fn lemma_digits_value_nonneg(s: Seq<char>, i: int, j: int)
    requires
        forall|k: int| i <= k < j ==> is_digit(s[k]),
    ensures
        digits_value(s, i, j) >= 0,
    decreases j - i,
{
    if j > i {
        lemma_digits_value_nonneg(s, i, j - 1);
    }
}

/// Builds the character sequence of `s`.
pub fn str_to_chars(s: &str) -> (v: Vec<char>)
    ensures
        v@ == s@,
{
    let n = s.unicode_len();
    let mut v: Vec<char> = Vec::new();
    let mut k: usize = 0;
    while k < n
        invariant
            n == s@.len(),
            k <= n,
            v@ == s@.subrange(0, k as int),
        decreases n - k,
    {
        let c = s.get_char(k);
        v.push(c);
        proof {
            assert(v@ =~= s@.subrange(0, k as int + 1));
        }
        k += 1;
    }
    proof {
        assert(v@ =~= s@);
    }
    v
}

/// Does the literal `t` occur at position `i` of `s`?
pub fn match_lit(s: &Vec<char>, i: usize, t: &str) -> (b: bool)
    ensures
        b == tag_match(s@, i as int, t@),
{
    let tl = t.unicode_len();
    let sl = s.len();
    if i > sl || tl > sl - i {
        return false;
    }
    let mut k: usize = 0;
    while k < tl
        invariant
            tl == t@.len(),
            sl == s@.len(),
            i + tl <= sl,
            k <= tl,
            forall|x: int| 0 <= x < k ==> s@[i + x] == t@[x],
        decreases tl - k,
    {
        if s[i + k] != t.get_char(k) {
            proof {
                assert(s@.subrange(i as int, i + t@.len())[k as int] != t@[k as int]);
            }
            return false;
        }
        k += 1;
    }
    proof {
        assert(s@.subrange(i as int, i + t@.len()) =~= t@);
    }
    true
}

/// First position at or after `i` that holds no blank.
pub fn skip_spaces(s: &Vec<char>, i: usize) -> (j: usize)
    requires
        i <= s@.len(),
    ensures
        j as int == space_run_end(s@, i as int),
        i <= j <= s@.len(),
{
    let len = s.len();
    let mut j = i;
    let mut done = false;
    while j < len && !done
        invariant
            i <= j <= len,
            len == s@.len(),
            !done ==> space_run_end(s@, i as int) == space_run_end(s@, j as int),
            done ==> space_run_end(s@, i as int) == j as int,
        decreases len - j + if done {
            0int
        } else {
            1int
        },
    {
        let c = s[j];
        if c == ' ' || c == '\t' {
            j += 1;
        } else {
            done = true;
        }
    }
    j
}

/// Does the lower-case literal `t` occur at position `i` of `s`, with
/// ASCII letters matched without regard to case?
pub fn match_lit_ci(s: &Vec<char>, i: usize, t: &str) -> (b: bool)
    ensures
        b == tag_match_ci(s@, i as int, t@),
{
    let tl = t.unicode_len();
    let sl = s.len();
    if i > sl || tl > sl - i {
        return false;
    }
    let mut k: usize = 0;
    while k < tl
        invariant
            tl == t@.len(),
            sl == s@.len(),
            i + tl <= sl,
            k <= tl,
            forall|x: int| 0 <= x < k ==> eq_ci(s@[i + x], t@[x]),
        decreases tl - k,
    {
        let a = s[i + k] as u32;
        let b = t.get_char(k) as u32;
        if !(a == b || (65 <= a && a <= 90 && a + 32 == b)) {
            return false;
        }
        k += 1;
    }
    true
}

/// First position of `[lo, hi)` that holds no blank.
pub fn trim_from_at(s: &Vec<char>, lo: usize, hi: usize) -> (r: usize)
    requires
        lo <= hi <= s@.len(),
    ensures
        r as int == trim_from(s@, lo as int, hi as int),
        lo <= r <= hi,
{
    let mut j = lo;
    let mut done = false;
    while j < hi && !done
        invariant
            lo <= j <= hi <= s@.len(),
            !done ==> trim_from(s@, lo as int, hi as int) == trim_from(s@, j as int, hi as int),
            done ==> trim_from(s@, lo as int, hi as int) == j as int,
        decreases hi - j + if done {
            0int
        } else {
            1int
        },
    {
        let c = s[j];
        if c == ' ' || c == '\t' {
            j += 1;
        } else {
            done = true;
        }
    }
    j
}

/// Position just past the last non-blank of `[lo, hi)`.
pub fn trim_to_at(s: &Vec<char>, lo: usize, hi: usize) -> (r: usize)
    requires
        lo <= hi <= s@.len(),
    ensures
        r as int == trim_to(s@, lo as int, hi as int),
        lo <= r <= hi,
{
    let mut j = hi;
    let mut done = false;
    while j > lo && !done
        invariant
            lo <= j <= hi <= s@.len(),
            !done ==> trim_to(s@, lo as int, hi as int) == trim_to(s@, lo as int, j as int),
            done ==> trim_to(s@, lo as int, hi as int) == j as int,
        decreases j + if done {
            0int
        } else {
            1int
        },
    {
        let c = s[j - 1];
        if c == ' ' || c == '\t' {
            j -= 1;
        } else {
            done = true;
        }
    }
    j
}

/// Reads a digit run of at most `maxlen` digits at `i`.
pub fn bounded_digits_at(s: &Vec<char>, i: usize, maxlen: usize) -> (r: Option<(u32, usize)>)
    requires
        i <= s@.len(),
        maxlen <= 4,
    ensures
        match r {
            Some((v, j)) => bounded_digits(s@, i as int, maxlen as int) == Some(
                (v as int, j as int),
            ) && i < j <= s@.len() && v < 10000,
            None => bounded_digits(s@, i as int, maxlen as int) is None,
        },
{
    proof {
        lemma_digit_run_end_bounds(s@, i as int);
        lemma_digit_run_digits(s@, i as int);
        lemma_digits_value_small(s@, i as int, digit_run_end(s@, i as int));
    }
    match parse_digits(s, i) {
        Some((v, j)) => {
            if j - i <= maxlen {
                Some((v as u32, j))
            } else {
                None
            }
        },
        None => None,
    }
}

/// Reads a decimal number at `i`: one or more digits whose value fits a
/// `usize`, exactly the quantity lexer of the grammar.
pub fn parse_digits(s: &Vec<char>, i: usize) -> (r: Option<(usize, usize)>)
    requires
        i <= s@.len(),
    ensures
        match r {
            Some((v, j)) => spec_parse_digits(s@, i as int) == Some((v as int, j as int)) && i < j
                <= s@.len(),
            None => spec_parse_digits(s@, i as int) is None,
        },
{
    let len = s.len();
    let mut j = i;
    let mut acc: usize = 0;
    let mut ok = true;
    let mut done = false;
    while j < len && !done
        invariant
            i <= j <= len,
            len == s@.len(),
            forall|k: int| i <= k < j ==> is_digit(s@[k]),
            !done ==> digit_run_end(s@, i as int) == digit_run_end(s@, j as int),
            done ==> digit_run_end(s@, i as int) == j as int,
            if digits_value(s@, i as int, j as int) <= usize::MAX as int {
                ok && acc as int == digits_value(s@, i as int, j as int)
            } else {
                !ok
            },
        decreases len - j + if done {
            0int
        } else {
            1int
        },
    {
        let c = s[j];
        if 48 <= c as u32 && c as u32 <= 57 {
            let d = (c as u32 - 48) as usize;
            proof {
                lemma_digits_value_nonneg(s@, i as int, j as int);
                assert(digits_value(s@, i as int, j as int + 1) == digits_value(
                    s@,
                    i as int,
                    j as int,
                ) * 10 + digit_val(s@[j as int]));
            }
            if ok {
                acc = match acc.checked_mul(10) {
                    Some(m) => match m.checked_add(d) {
                        Some(x) => x,
                        None => {
                            ok = false;
                            0
                        },
                    },
                    None => {
                        ok = false;
                        0
                    },
                };
            }
            j += 1;
        } else {
            done = true;
        }
    }
    if j == i {
        None
    } else if !ok {
        None
    } else {
        Some((acc, j))
    }
}

} // verus!
