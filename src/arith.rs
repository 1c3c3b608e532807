//! Integer helpers shared by the chart geometry.
use vstd::prelude::*;

verus! {

/// Division rounding towards negative infinity.
pub fn floor_div(n: i128, d: i128) -> (r: i128)
    requires
        d > 0,
        n > i128::MIN,
    ensures
        r == n / d,
        n >= 0 ==> 0 <= r <= n,
        n < 0 ==> n <= r < 0,
{
    if n >= 0 {
        proof {
            assert(0 <= (n as int) / (d as int) <= n as int) by (nonlinear_arith)
                requires n >= 0, d > 0;
        }
        n / d
    } else {
        let m = -(n + 1);
        let q = m / d;
        proof {
            let (mi, di, qi, ni) = (m as int, d as int, q as int, n as int);
            assert(qi * di <= mi < qi * di + di) by (nonlinear_arith)
                requires qi == mi / di, di > 0, mi >= 0;
            assert(ni / di == -qi - 1) by (nonlinear_arith)
                requires qi * di <= mi, mi < qi * di + di, ni == -mi - 1, di > 0;
            assert(0 <= qi <= mi) by (nonlinear_arith)
                requires qi == mi / di, di > 0, mi >= 0;
        }
        -q - 1
    }
}

/// Division rounding towards positive infinity, for a non-negative numerator.
pub fn ceil_div(n: i128, d: i128) -> (r: i128)
    requires
        d > 0,
        0 <= n < i128::MAX - d,
    ensures
        r == (n + d - 1) as int / d as int,
        r * d >= n,
        (r - 1) * d < n,
        r >= 0,
{
    let r = (n + d - 1) / d;
    proof {
        let (ri, ni, di) = (r as int, n as int, d as int);
        assert(ri * di <= ni + di - 1 < ri * di + di) by (nonlinear_arith)
            requires ri == (ni + di - 1) / di, di > 0, ni + di - 1 >= 0;
        assert(ri >= 0) by (nonlinear_arith)
            requires ri == (ni + di - 1) / di, di > 0, ni + di - 1 >= 0;
        assert((ri - 1) * di < ni) by (nonlinear_arith)
            requires ri * di < ni + di;
    }
    r
}

/// `v` clamped into `[lo, hi]`.
pub open spec fn clamp(v: int, lo: int, hi: int) -> int {
    if v < lo {
        lo
    } else if v > hi {
        hi
    } else {
        v
    }
}

} // verus!
