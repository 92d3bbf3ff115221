//! Turning numbers back into text: plain decimal digits, and decimal
//! digits padded with zeros to a fixed width.

use vstd::prelude::*;
use vstd::string::StringExecFns;

verus! {

/// The character for one decimal digit.
pub open spec fn digit_char(d: int) -> char {
    if d == 0 {
        '0'
    } else if d == 1 {
        '1'
    } else if d == 2 {
        '2'
    } else if d == 3 {
        '3'
    } else if d == 4 {
        '4'
    } else if d == 5 {
        '5'
    } else if d == 6 {
        '6'
    } else if d == 7 {
        '7'
    } else if d == 8 {
        '8'
    } else {
        '9'
    }
}

/// Decimal digits of `n`, most significant first.
pub open spec fn dec_chars(n: int) -> Seq<char>
    decreases n,
{
    if n <= 9 {
        seq![digit_char(n)]
    } else {
        dec_chars(n / 10).push(digit_char(n % 10))
    }
}

/// `k` zero characters.
pub open spec fn zeros(k: int) -> Seq<char>
    decreases k,
{
    if k <= 0 {
        Seq::empty()
    } else {
        zeros(k - 1).push('0')
    }
}

/// Decimal digits of `n`, left-padded with zeros to width `w`.
pub open spec fn dec_chars_pad(n: int, w: int) -> Seq<char> {
    zeros(w - dec_chars(n).len()) + dec_chars(n)
}

/// Every character written for a number is a digit.
pub proof fn lemma_dec_chars_digits(n: int)
    requires
        0 <= n,
    ensures
        dec_chars(n).len() >= 1,
        forall|k: int|
            0 <= k < dec_chars(n).len() ==> crate::parser_utils::is_digit(#[trigger] dec_chars(n)[k]),
    decreases n,
{
    if n <= 9 {
        assert(crate::parser_utils::is_digit(digit_char(n)));
    } else {
        lemma_dec_chars_digits(n / 10);
        assert(crate::parser_utils::is_digit(digit_char(n % 10)));
    }
}

/// Reading the written digits of `n` back as a number gives `n`.
pub proof fn lemma_dec_chars_value(n: int)
    requires
        0 <= n,
    ensures
        crate::parser_utils::digits_value(dec_chars(n), 0, dec_chars(n).len() as int) == n,
    decreases n,
{
    if n <= 9 {
        assert(crate::parser_utils::digits_value(dec_chars(n), 0, 0) == 0);
        assert(crate::parser_utils::digit_val(digit_char(n)) == n);
    } else {
        lemma_dec_chars_value(n / 10);
        let prev = dec_chars(n / 10);
        let whole = dec_chars(n);
        let pl = prev.len() as int;
        assert(forall|k: int| 0 <= k < pl ==> whole[0 + k] == #[trigger] prev[0 + k]);
        crate::parser_utils::lemma_digits_value_congruent(whole, 0, prev, 0, pl);
        assert(crate::parser_utils::digits_value(whole, 0, pl + 1)
            == crate::parser_utils::digits_value(whole, 0, pl) * 10
            + crate::parser_utils::digit_val(whole[pl]));
        assert(crate::parser_utils::digit_val(digit_char(n % 10)) == n % 10);
        vstd::arithmetic::div_mod::lemma_fundamental_div_mod(n, 10);
    }
}

/// Relies on `String::push`: appends exactly the given character.
#[verifier::external_body]
pub(crate) fn push_char(s: &mut String, c: char)
    ensures
        final(s)@ == old(s)@.push(c),
{
    s.push(c);
}

fn digit_char_exec(d: u64) -> (c: char)
    requires
        d <= 9,
    ensures
        c == digit_char(d as int),
{
    match d {
        0 => '0',
        1 => '1',
        2 => '2',
        3 => '3',
        4 => '4',
        5 => '5',
        6 => '6',
        7 => '7',
        8 => '8',
        _ => '9',
    }
}

/// Appends the decimal digits of `n`.
pub fn push_u64_dec(out: &mut String, n: u64)
    ensures
        final(out)@ == old(out)@ + dec_chars(n as int),
    decreases n,
{
    if n <= 9 {
        let c = digit_char_exec(n);
        push_char(out, c);
        proof {
            assert(out@ =~= old(out)@ + dec_chars(n as int));
        }
    } else {
        push_u64_dec(out, n / 10);
        let c = digit_char_exec(n % 10);
        push_char(out, c);
        proof {
            assert(out@ =~= old(out)@ + dec_chars(n as int));
        }
    }
}

/// Number of decimal digits of `n`, for small `n`.
fn dec_len_small(n: u64) -> (l: usize)
    requires
        n <= 999_999,
    ensures
        l == dec_chars(n as int).len(),
        1 <= l <= 6,
{
    proof {
        let m = n as int;
        assert(m > 9 ==> dec_chars(m).len() == dec_chars(m / 10).len() + 1);
        assert(m > 99 ==> dec_chars(m / 10).len() == dec_chars(m / 10 / 10).len() + 1);
        assert(m > 999 ==> dec_chars(m / 10 / 10).len() == dec_chars(m / 10 / 10 / 10).len() + 1);
        assert(m > 9999 ==> dec_chars(m / 10 / 10 / 10).len() == dec_chars(
            m / 10 / 10 / 10 / 10,
        ).len() + 1);
        assert(m > 99999 ==> dec_chars(m / 10 / 10 / 10 / 10).len() == dec_chars(
            m / 10 / 10 / 10 / 10 / 10,
        ).len() + 1);
    }
    if n <= 9 {
        1
    } else if n <= 99 {
        2
    } else if n <= 999 {
        3
    } else if n <= 9999 {
        4
    } else if n <= 99999 {
        5
    } else {
        6
    }
}

/// Appends the decimal digits of `n`, left-padded with zeros to width `w`.
pub fn push_u64_pad(out: &mut String, n: u64, w: usize)
    requires
        w <= 20,
        n <= 999_999,
    ensures
        final(out)@ == old(out)@ + dec_chars_pad(n as int, w as int),
{
    let l = dec_len_small(n);
    let mut k: usize = l;
    while k < w
        invariant
            w <= 20,
            l == dec_chars(n as int).len(),
            l <= k,
            k <= w || k == l,
            out@ == old(out)@ + zeros(k - l),
        decreases w - k,
    {
        push_char(out, '0');
        proof {
            assert(out@ =~= old(out)@ + zeros(k + 1 - l));
        }
        k += 1;
    }
    push_u64_dec(out, n);
    proof {
        if w as int - l >= 0 {
            assert(out@ =~= old(out)@ + dec_chars_pad(n as int, w as int));
        } else {
            assert(zeros(w - l) =~= Seq::<char>::empty());
            assert(out@ =~= old(out)@ + dec_chars_pad(n as int, w as int));
        }
    }
}

} // verus!
