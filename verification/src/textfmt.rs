//! Decimal rendering of integers, used for the resolution string of a frame
//! and for the timestamp part of a derived output name.

use vstd::prelude::*;

verus! {

/// The decimal digit character for `d`.
pub open spec fn spec_digit_char(d: int) -> char
    recommends
        0 <= d < 10,
{
    if d == 0 {
        '0'
    } else if d == 1 {
        '1'
    } else if d == 2 {
        '2'
    } else if d == 3 {
        '3'
    } else if d == 4 {
        '4'
    } else if d == 5 {
        '5'
    } else if d == 6 {
        '6'
    } else if d == 7 {
        '7'
    } else if d == 8 {
        '8'
    } else {
        '9'
    }
}

/// The decimal digits of `n`, most significant first; empty for `n <= 0`.
pub open spec fn spec_nat_digits(n: int) -> Seq<char>
    decreases n,
{
    if n <= 0 {
        Seq::<char>::empty()
    } else {
        spec_nat_digits(n / 10).push(spec_digit_char(n % 10))
    }
}

/// The decimal rendering of a non-negative `n` (so `0` renders as "0").
pub open spec fn spec_udec(n: int) -> Seq<char> {
    if n == 0 {
        seq!['0']
    } else {
        spec_nat_digits(n)
    }
}

/// The decimal rendering of `n`, with a leading '-' when negative.
pub open spec fn spec_idec(n: int) -> Seq<char> {
    if n < 0 {
        seq!['-'] + spec_udec(-n)
    } else {
        spec_udec(n)
    }
}

/// `k` zero characters.
pub open spec fn spec_zeros(k: int) -> Seq<char>
    decreases k,
{
    if k <= 0 {
        Seq::<char>::empty()
    } else {
        spec_zeros(k - 1).push('0')
    }
}

/// The decimal rendering of `n` left-padded with zeros to at least `width`
/// characters.
pub open spec fn spec_padded(n: int, width: int) -> Seq<char> {
    let d = spec_udec(n);
    if d.len() >= width {
        d
    } else {
        spec_zeros(width - d.len()) + d
    }
}

/// Relies on String::push: appends the given character to the end of the
/// string.
#[verifier::external_body]
pub fn string_push(s: &mut String, c: char)
    ensures
        final(s)@ == old(s)@.push(c),
{
    s.push(c)
}

fn push_digit(s: &mut String, d: u64)
    requires
        d < 10,
    ensures
        final(s)@ == old(s)@.push(spec_digit_char(d as int)),
{
    let c: char = if d == 0 {
        '0'
    } else if d == 1 {
        '1'
    } else if d == 2 {
        '2'
    } else if d == 3 {
        '3'
    } else if d == 4 {
        '4'
    } else if d == 5 {
        '5'
    } else if d == 6 {
        '6'
    } else if d == 7 {
        '7'
    } else if d == 8 {
        '8'
    } else {
        '9'
    };
    string_push(s, c);
}

fn push_nat_digits(s: &mut String, n: u64)
    ensures
        final(s)@ == old(s)@ + spec_nat_digits(n as int),
    decreases n,
{
    if n > 0 {
        push_nat_digits(s, n / 10);
        push_digit(s, n % 10);
        assert(s@ =~= old(s)@ + spec_nat_digits(n as int));
    } else {
        assert(s@ =~= old(s)@ + spec_nat_digits(0));
    }
}

/// Appends the decimal rendering of `n` to `s`.
pub fn push_udec(s: &mut String, n: u64)
    ensures
        final(s)@ == old(s)@ + spec_udec(n as int),
{
    if n == 0 {
        string_push(s, '0');
        assert(s@ =~= old(s)@ + spec_udec(0));
    } else {
        push_nat_digits(s, n);
    }
}

/// Appends the decimal rendering of a signed `n` to `s`.
pub fn push_idec64(s: &mut String, n: i64)
    ensures
        final(s)@ == old(s)@ + spec_idec(n as int),
{
    if n < 0 {
        string_push(s, '-');
        let m1: i64 = -(n + 1);
        let mag: u64 = (m1 as u64) + 1;
        assert(mag == -(n as int));
        push_udec(s, mag);
        assert(s@ =~= old(s)@ + spec_idec(n as int));
    } else {
        push_udec(s, n as u64);
    }
}

/// Appends the decimal rendering of a signed 32-bit `n` to `s`.
pub fn push_idec32(s: &mut String, n: i32)
    ensures
        final(s)@ == old(s)@ + spec_idec(n as int),
{
    push_idec64(s, n as i64);
}

/// The number of characters in the decimal rendering of `n`.
fn udec_len(n: u64) -> (r: usize)
    ensures
        r == spec_udec(n as int).len(),
        r >= 1,
{
    let mut c: usize = 1;
    let mut m: u64 = n / 10;
    proof {
        lemma_nat_digits_len_bound(n as int);
        if n == 0 {
            assert(spec_nat_digits(0).len() == 0);
        } else {
            assert(spec_udec(n as int).len() == spec_nat_digits(n as int / 10).len() + 1);
        }
    }
    while m > 0
        invariant
            c >= 1,
            c + spec_nat_digits(m as int).len() == spec_udec(n as int).len(),
            spec_udec(n as int).len() <= 20,
        decreases m,
    {
        assert(spec_nat_digits(m as int).len() == spec_nat_digits(m as int / 10).len() + 1);
        c = c + 1;
        m = m / 10;
    }
    assert(spec_nat_digits(0).len() == 0);
    c
}

/// The decimal rendering of a 64-bit value has at most 20 digits.
proof fn lemma_nat_digits_len_bound(n: int)
    requires
        n <= u64::MAX,
    ensures
        spec_nat_digits(n).len() <= 20,
        spec_udec(n).len() <= 20,
    decreases n,
{
    if n <= 0 {
        assert(spec_udec(0).len() == 1);
    } else {
        assert(n < pow10(20)) by {
            reveal_with_fuel(pow10, 21);
        }
        lemma_nat_digits_len_bound_rec(n, 20);
    }
}

proof fn lemma_nat_digits_len_bound_rec(n: int, k: int)
    requires
        0 <= k,
        n < pow10(k),
    ensures
        spec_nat_digits(n).len() <= k,
    decreases k,
{
    if n <= 0 {
    } else {
        assert(k > 0) by {
            assert(pow10(0) == 1);
        }
        assert(n / 10 < pow10(k - 1)) by {
            assert(pow10(k) == pow10(k - 1) * 10);
            assert(n < pow10(k - 1) * 10);
            assert(n / 10 < pow10(k - 1)) by (nonlinear_arith)
                requires
                    n < pow10(k - 1) * 10,
                    n > 0,
                    pow10(k - 1) > 0,
            ;
        }
        lemma_nat_digits_len_bound_rec(n / 10, k - 1);
    }
}

/// Ten to the power `k`.
pub open spec fn pow10(k: int) -> int
    decreases k,
{
    if k <= 0 {
        1
    } else {
        pow10(k - 1) * 10
    }
}

/// Appends the decimal rendering of `n`, zero-padded on the left to at least
/// `width` characters.
pub fn push_padded(s: &mut String, n: u64, width: usize)
    ensures
        final(s)@ == old(s)@ + spec_padded(n as int, width as int),
{
    let d = udec_len(n);
    if d < width {
        let mut k: usize = width - d;
        while k > 0
            invariant
                k <= width - d,
                s@ == old(s)@ + spec_zeros(width - d - k),
            decreases k,
        {
            string_push(s, '0');
            k = k - 1;
            assert(s@ =~= old(s)@ + spec_zeros(width - d - k));
        }
        push_udec(s, n);
        assert(s@ =~= old(s)@ + spec_padded(n as int, width as int));
    } else {
        push_udec(s, n);
    }
}

} // verus!
