//! Decimal digit counting and decimal text rendering.

use vstd::prelude::*;

verus! {

/// Number of digits in the decimal representation of `n`; zero has one digit.
pub open spec fn digit_count(n: nat) -> nat
    decreases n,
{
    if n < 10 {
        1
    } else {
        1 + digit_count(n / 10)
    }
}

/// Ten to the `k`.
pub open spec fn pow10(k: nat) -> nat
    decreases k,
{
    if k == 0 {
        1
    } else {
        10 * pow10((k - 1) as nat)
    }
}

/// Anything below `pow10(k)` has at most `k` digits.
proof fn lemma_digit_count_below_pow10(n: nat, k: nat)
    requires
        1 <= k,
        n < pow10(k),
    ensures
        digit_count(n) <= k,
    decreases k,
{
    if n >= 10 {
        assert(pow10(k) == 10 * pow10((k - 1) as nat));
        assert(n / 10 < pow10((k - 1) as nat)) by (nonlinear_arith)
            requires
                n < 10 * pow10((k - 1) as nat),
        ;
        lemma_digit_count_below_pow10(n / 10, (k - 1) as nat);
    }
}

/// A 64-bit value never has more than twenty decimal digits.
pub proof fn lemma_digit_count_u64(n: nat)
    requires
        n <= u64::MAX,
    ensures
        digit_count(n) <= 20,
{
    assert(pow10(20) > u64::MAX) by {
        reveal_with_fuel(pow10, 21);
    }
    lemma_digit_count_below_pow10(n, 20);
}

/// Counts the decimal digits of `n`; a zero counts as one digit.
pub fn num_digits(n: u64) -> (r: usize)
    ensures
        r == digit_count(n as nat),
{
    if n == 0 {
        return 1;
    }
    let mut m = n;
    let mut count: usize = 0;
    proof {
        lemma_digit_count_u64(n as nat);
    }
    while m > 0
        invariant
            count + (if m > 0 {
                digit_count(m as nat)
            } else {
                0
            }) == digit_count(n as nat),
            digit_count(n as nat) <= 20,
        decreases m,
    {
        m = m / 10;
        count = count + 1;
    }
    count
}

/// Appends one character to a string.
///
/// Relies on std's `String::push`, which vstd does not specify: it appends
/// the given `char` to the end of the `String`.
#[verifier::external_body]
pub fn push_char(s: &mut String, c: char)
    ensures
        final(s)@ == old(s)@.push(c),
{
    s.push(c)
}

/// The character for a single decimal digit.
pub open spec fn digit_char(d: nat) -> char {
    ((48 + d) as u8) as char
}

/// The decimal representation of `n`, most significant digit first.
pub open spec fn dec_rep(n: nat) -> Seq<char>
    decreases n,
{
    if n < 10 {
        seq![digit_char(n)]
    } else {
        dec_rep(n / 10).push(digit_char(n % 10))
    }
}

fn exec_digit_char(d: u64) -> (c: char)
    requires
        d < 10,
    ensures
        c == digit_char(d as nat),
{
    (48 + d as u8) as char
}

/// Writes `n` in decimal onto the end of `s`.
pub fn push_u64_decimal(s: &mut String, n: u64)
    ensures
        final(s)@ == old(s)@ + dec_rep(n as nat),
    decreases n,
{
    if n < 10 {
        push_char(s, exec_digit_char(n));
        assert(s@ =~= old(s)@ + dec_rep(n as nat));
    } else {
        push_u64_decimal(s, n / 10);
        push_char(s, exec_digit_char(n % 10));
        assert(s@ =~= old(s)@ + dec_rep(n as nat));
    }
}

/// Writes `n` onto the end of `s` as exactly two decimal digits, a leading
/// zero included.
pub fn push_two_digits(s: &mut String, n: u64)
    requires
        n < 100,
    ensures
        final(s)@ == old(s)@ + seq![digit_char((n / 10) as nat), digit_char((n % 10) as nat)],
{
    push_char(s, exec_digit_char(n / 10));
    push_char(s, exec_digit_char(n % 10));
    assert(s@ =~= old(s)@ + seq![digit_char((n / 10) as nat), digit_char((n % 10) as nat)]);
}

/// A run of `n` spaces.
pub open spec fn spaces(n: nat) -> Seq<char> {
    Seq::new(n, |i: int| ' ')
}

/// Appends `n` spaces to `s`.
pub fn push_spaces(s: &mut String, n: usize)
    ensures
        final(s)@ == old(s)@ + spaces(n as nat),
{
    let mut i: usize = 0;
    while i < n
        invariant
            i <= n,
            s@ == old(s)@ + spaces(i as nat),
        decreases n - i,
    {
        push_char(s, ' ');
        i = i + 1;
        assert(s@ =~= old(s)@ + spaces(i as nat));
    }
    assert(s@ =~= old(s)@ + spaces(n as nat));
}

} // verus!
