//! Fixed-point arithmetic.
//!
//! The quantities of this crate are integer counts of millionths: lengths
//! in millionths of a world unit, angles in microradians, time in
//! microseconds, and plain factors in millionths of one whole. Trauma alone
//! is counted finer, as `shake` explains. Products are taken exactly and
//! every quotient is rounded toward zero.
use vstd::math::{max, min};
use vstd::prelude::*;

verus! {

/// One whole, counted in millionths.
pub const ONE: u32 = 1_000_000;

/// The quotient of `a` by a positive `b`, rounded toward zero.
pub open spec fn trunc_div(a: int, b: int) -> int
    recommends
        b > 0,
{
    if a >= 0 {
        a / b
    } else {
        -((-a) / b)
    }
}

/// `v` held within `[lo, hi]`. Where the bounds cross, `hi` wins.
pub open spec fn clamped(v: int, lo: int, hi: int) -> int {
    min(max(v, lo), hi)
}

/// `v` held within the range of `i64`.
pub open spec fn saturated(v: int) -> i64 {
    if v < i64::MIN {
        i64::MIN
    } else if v > i64::MAX {
        i64::MAX
    } else {
        v as i64
    }
}

/// Rounding toward zero keeps the sign and never grows the magnitude:
/// the quotient times the divisor lies between zero and the dividend.
pub proof fn lemma_trunc_div_between(a: int, b: int)
    requires
        b > 0,
    ensures
        a >= 0 ==> 0 <= trunc_div(a, b) * b <= a,
        a <= 0 ==> a <= trunc_div(a, b) * b <= 0,
        a >= 0 ==> 0 <= trunc_div(a, b) <= a,
        a <= 0 ==> a <= trunc_div(a, b) <= 0,
        -b < a - trunc_div(a, b) * b < b,
{
    if a >= 0 {
        assert(0 <= (a / b) * b <= a && a - (a / b) * b < b && 0 <= a / b <= a) by (nonlinear_arith)
            requires
                a >= 0,
                b > 0,
        ;
    } else {
        let n = -a;
        assert(0 <= (n / b) * b <= n && n - (n / b) * b < b && 0 <= n / b <= n) by (nonlinear_arith)
            requires
                n >= 0,
                b > 0,
        ;
        assert((-(n / b)) * b == -((n / b) * b)) by (nonlinear_arith);
    }
}

/// Division toward zero keeps order.
pub proof fn lemma_trunc_div_monotone(a: int, c: int, b: int)
    requires
        b > 0,
        a <= c,
    ensures
        trunc_div(a, b) <= trunc_div(c, b),
{
    lemma_trunc_div_between(a, b);
    lemma_trunc_div_between(c, b);
    if a >= 0 {
        assert(a / b <= c / b) by (nonlinear_arith)
            requires
                0 <= a <= c,
                b > 0,
        ;
    } else if c <= 0 {
        let m = -c;
        let n = -a;
        assert(m / b <= n / b) by (nonlinear_arith)
            requires
                0 <= m <= n,
                b > 0,
        ;
    }
}

/// An exact multiple divides without remainder.
pub proof fn lemma_trunc_div_multiple(q: int, b: int)
    requires
        b > 0,
    ensures
        trunc_div(q * b, b) == q,
{
    if q >= 0 {
        assert(q * b >= 0 && (q * b) / b == q) by (nonlinear_arith)
            requires
                q >= 0,
                b > 0,
        ;
    } else {
        let n = -q;
        assert(q * b < 0 && -(q * b) == n * b && (n * b) / b == n) by (nonlinear_arith)
            requires
                q < 0,
                n == -q,
                b > 0,
        ;
    }
}

/// Division toward zero is odd: negating the dividend negates the quotient.
pub proof fn lemma_trunc_div_odd(a: int, b: int)
    requires
        b > 0,
    ensures
        trunc_div(-a, b) == -trunc_div(a, b),
{
    if a == 0 {
        assert(0int / b == 0) by (nonlinear_arith)
            requires
                b > 0,
        ;
    }
}

/// Taking the share `num / den` of `a`, with `0 <= num <= den`, gives a
/// value between zero and `a` whose magnitude is at most that share.
pub proof fn lemma_share_within(a: int, num: int, den: int)
    requires
        0 <= num <= den,
        den > 0,
    ensures
        a >= 0 ==> 0 <= trunc_div(a * num, den) <= a,
        a <= 0 ==> a <= trunc_div(a * num, den) <= 0,
        a >= 0 ==> trunc_div(a * num, den) * den <= a * num,
        a <= 0 ==> trunc_div(a * num, den) * den >= a * num,
{
    lemma_trunc_div_between(a * num, den);
    lemma_trunc_div_multiple(a, den);
    if a >= 0 {
        assert(0 <= a * num <= a * den) by (nonlinear_arith)
            requires
                a >= 0,
                0 <= num <= den,
        ;
        lemma_trunc_div_monotone(a * num, a * den, den);
    } else {
        assert(a * den <= a * num <= 0) by (nonlinear_arith)
            requires
                a <= 0,
                0 <= num <= den,
        ;
        lemma_trunc_div_monotone(a * den, a * num, den);
    }
}

} // verus!
