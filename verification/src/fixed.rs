//! Q15.16 fixed-point values and rounding division.

use vstd::prelude::*;

verus! {

/// The raw value of 1.0.
pub const ONE: i32 = 65536;

/// The magnitude of `v`.
pub open spec fn magnitude(v: int) -> int {
    if v < 0 {
        -v
    } else {
        v
    }
}

/// `v` held inside `lo ..= hi`.
pub open spec fn clamped(v: int, lo: int, hi: int) -> int {
    if v < lo {
        lo
    } else if v > hi {
        hi
    } else {
        v
    }
}

/// `num / den` rounded to the nearest integer, a tie going away from zero.
/// Meant for `den > 0`.
pub open spec fn round_div(num: int, den: int) -> int {
    if num >= 0 {
        (2 * num + den) / (2 * den)
    } else {
        -((2 * (-num) + den) / (2 * den))
    }
}

/// The rounded quotient lies within half a divisor of the exact one, and an
/// exact half is rounded up in magnitude.
pub proof fn lemma_round_div_nearest(num: int, den: int)
    requires
        den > 0,
    ensures
        magnitude(round_div(num, den)) == round_div(magnitude(num), den),
        num >= 0 ==> round_div(num, den) >= 0,
        num <= 0 ==> round_div(num, den) <= 0,
        2 * magnitude(num) - den < 2 * den * magnitude(round_div(num, den)) <= 2 * magnitude(num)
            + den,
{
    let n = magnitude(num);
    let q = (2 * n + den) / (2 * den);
    assert(0 <= q && (n == 0 ==> q == 0) && 2 * n + den - 2 * den < q * (2 * den) <= 2 * n + den)
        by (nonlinear_arith)
        requires
            n >= 0,
            den > 0,
            q == (2 * n + den) / (2 * den),
    ;
    assert(q * (2 * den) == 2 * den * q) by (nonlinear_arith);
}

/// Rounding division of magnitudes.
pub(crate) fn round_div_u128(num: u128, den: u128) -> (q: u128)
    requires
        den > 0,
        num + den <= u128::MAX,
    ensures
        q == round_div(num as int, den as int),
        q <= num,
{
    let q = (num + den / 2) / den;
    proof {
        let n = num as int;
        let d = den as int;
        assert((n + d / 2) / d == (2 * n + d) / (2 * d) && (n + d / 2) / d <= n)
            by (nonlinear_arith)
            requires
                n >= 0,
                d > 0,
        ;
    }
    q
}

} // verus!
