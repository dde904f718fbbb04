//! How many strings the stress bank has, which frequency each is tuned to, and
//! how long a delay line a frequency asks for.

use vstd::prelude::*;

verus! {

/// The number of strings in the stress bank.
pub const STRING_COUNT: usize = 2000;

/// The strings come in sets of this many.
pub const STRINGS_IN_EACH_SET: usize = 25;

/// The frequency of string `i`, in Hz: the strings of set `s` are the first 25
/// multiples of `30 + 10 * s`.
pub open spec fn string_frequency(i: nat) -> nat {
    let base = 30 + 10 * (i / 25);
    base + base * (i % 25)
}

/// The quotient `numerator / denominator` rounded to the nearest integer, a
/// half rounding up.
pub open spec fn rounded_ratio(numerator: nat, denominator: nat) -> nat {
    (2 * numerator + denominator) / (2 * denominator)
}

/// The frequency of string `i` of the table, in Hz. It is a whole number for
/// every index.
pub fn frequency_for_string_index(i: usize) -> (f0: u128)
    ensures
        f0 == string_frequency(i as nat),
{
    let string_set: u128 = (i / STRINGS_IN_EACH_SET) as u128;
    let m: u128 = (i % STRINGS_IN_EACH_SET) as u128;
    let set_f0: u128 = 30 + string_set * 10;
    assert(set_f0 * m <= set_f0 * 24) by (nonlinear_arith)
        requires
            m <= 24,
    ;
    set_f0 + set_f0 * m
}

/// The length of the delay line for a string of frequency `f0` at
/// `sample_rate`, both in Hz: the number of samples in one period, rounded to
/// the nearest. It is 0 exactly when the period is shorter than half a sample,
/// and no string can be made for such a frequency.
pub fn delay_line_length(sample_rate: usize, f0: u128) -> (length: usize)
    requires
        f0 > 0,
    ensures
        length == rounded_ratio(sample_rate as nat, f0 as nat),
        2 * f0 * length <= 2 * sample_rate + f0 < 2 * f0 * (length + 1),
        length >= 1 <==> f0 <= 2 * sample_rate,
{
    let twice_rate: u128 = 2 * (sample_rate as u128);
    proof {
        lemma_rounded_ratio_is_nearest(sample_rate as nat, f0 as nat);
    }
    if f0 > twice_rate {
        0
    } else {
        let length: u128 = (twice_rate + f0) / (2 * f0);
        length as usize
    }
}

/// `rounded_ratio(n, d)` is the one integer within half of `n / d`, the upper
/// one of two: `r - 1/2 <= n / d < r + 1/2`, written without fractions. It is
/// never more than `n`.
pub proof fn lemma_rounded_ratio_is_nearest(n: nat, d: nat)
    requires
        d > 0,
    ensures
        2 * d * rounded_ratio(n, d) <= 2 * n + d < 2 * d * (rounded_ratio(n, d) + 1),
        rounded_ratio(n, d) <= n,
        rounded_ratio(n, d) >= 1 <==> d <= 2 * n,
{
    let r = rounded_ratio(n, d);
    let a = (2 * n + d) as int;
    let b = (2 * d) as int;
    assert(a == b * (a / b) + a % b && 0 <= a % b < b) by (nonlinear_arith)
        requires
            b > 0,
            a >= 0,
    ;
    assert(2 * d * r == b * (a / b)) by (nonlinear_arith)
        requires
            r == a / b,
            b == 2 * d,
    ;
    assert(2 * d * (r + 1) == b * (a / b) + b) by (nonlinear_arith)
        requires
            r == a / b,
            b == 2 * d,
    ;
    if r > n {
        assert(2 * d * r >= 2 * d * (n + 1)) by (nonlinear_arith)
            requires
                r >= n + 1,
                d > 0,
        ;
        assert(2 * d * (n + 1) >= 2 * (n + 1)) by (nonlinear_arith)
            requires
                d >= 1,
        ;
        assert(2 * d * (n + 1) == 2 * d * n + 2 * d) by (nonlinear_arith);
        assert(2 * d * n >= 2 * n) by (nonlinear_arith)
            requires
                d >= 1,
        ;
    }
    if r >= 1 {
        assert(2 * d * r >= 2 * d) by (nonlinear_arith)
            requires
                r >= 1,
                d > 0,
        ;
    } else {
        assert(2 * d * (r + 1) == 2 * d) by (nonlinear_arith)
            requires
                r == 0,
        ;
    }
}

/// Every string of the stress bank has a frequency between 30 Hz and 20500
/// Hz, so at any sample rate from 10250 Hz up each of them gets a delay line.
pub proof fn lemma_stress_bank_fits(i: nat, sample_rate: nat)
    requires
        i < STRING_COUNT,
        sample_rate >= 10250,
    ensures
        30 <= string_frequency(i) <= 20500,
        string_frequency(i) <= 2 * sample_rate,
        rounded_ratio(sample_rate, string_frequency(i)) >= 1,
{
    let base = 30 + 10 * (i / 25);
    let m = i % 25;
    assert(base <= 820 && m <= 24);
    assert(base * m <= 820 * 24) by (nonlinear_arith)
        requires
            0 <= base <= 820,
            0 <= m <= 24,
    ;
    assert(base * m >= 0) by (nonlinear_arith)
        requires
            0 <= base,
            0 <= m,
    ;
    lemma_rounded_ratio_is_nearest(sample_rate, string_frequency(i));
}

} // verus!
