//! Scalar helpers: truncating division and integer square root.

use vstd::prelude::*;
use vstd::arithmetic::div_mod::{lemma_fundamental_div_mod, lemma_div_is_ordered};
use vstd::arithmetic::mul::lemma_mul_inequality;

verus! {

/// Division rounding toward zero, the rounding that `/` performs on
/// machine integers; `a / d` alone would round toward negative infinity.
pub open spec fn div_trunc(a: int, d: int) -> int
    recommends
        d > 0,
{
    if a >= 0 {
        a / d
    } else {
        -((-a) / d)
    }
}

/// How far `d * div_trunc(a, d)` can sit from `a`: strictly less than `d`,
/// never past `a` on the far side of zero.
pub proof fn lemma_div_trunc_props(a: int, d: int)
    requires
        d > 0,
    ensures
        a >= 0 ==> 0 <= a - d * div_trunc(a, d) < d,
        a < 0 ==> 0 <= d * div_trunc(a, d) - a < d,
        a >= 0 ==> div_trunc(a, d) >= 0,
        a < 0 ==> div_trunc(a, d) <= 0,
{
    if a >= 0 {
        lemma_fundamental_div_mod(a, d);
        assert(a - d * (a / d) == a % d);
        if a / d < 0 {
            assert(d * (a / d) <= -d) by (nonlinear_arith)
                requires
                    d > 0,
                    a / d <= -1,
            ;
        }
    } else {
        let n = -a;
        lemma_fundamental_div_mod(n, d);
        assert(n - d * (n / d) == n % d);
        assert(d * -(n / d) == -(d * (n / d))) by (nonlinear_arith);
        if n / d < 0 {
            assert(d * (n / d) <= -d) by (nonlinear_arith)
                requires
                    d > 0,
                    n / d <= -1,
            ;
        }
    }
}

/// Magnitudes divide monotonically: a larger magnitude cannot yield a
/// smaller truncated quotient.
pub proof fn lemma_div_trunc_mag(a: int, d: int, m: int)
    requires
        d > 0,
        m >= 0,
        -m <= a <= m,
    ensures
        -(m / d) <= div_trunc(a, d) <= m / d,
{
    if a >= 0 {
        lemma_div_is_ordered(a, m, d);
        lemma_div_is_ordered(0, a, d);
    } else {
        lemma_div_is_ordered(-a, m, d);
        lemma_div_is_ordered(0, -a, d);
    }
}

/// Truncating division on `i64`, computed through unsigned division.
pub fn div_trunc_i64(a: i64, d: i64) -> (q: i64)
    requires
        d > 0,
        a > i64::MIN,
    ensures
        q == div_trunc(a as int, d as int),
{
    if a >= 0 {
        let qa: u64 = (a as u64) / (d as u64);
        proof {
            lemma_div_is_ordered(qa as int, a as int, 1);
            lemma_div_is_ordered(a as int, a as int, d as int);
        }
        qa as i64
    } else {
        let n: i64 = -a;
        let qn: u64 = (n as u64) / (d as u64);
        proof {
            lemma_div_is_ordered(qn as int, n as int, 1);
            lemma_div_is_ordered(n as int, n as int, d as int);
        }
        -(qn as i64)
    }
}

/// Floor of the square root, defined by counting up.
pub open spec fn isqrt_spec(n: int) -> int
    decreases n,
{
    if n <= 0 {
        0
    } else {
        let r = isqrt_spec(n - 1);
        if (r + 1) * (r + 1) <= n {
            r + 1
        } else {
            r
        }
    }
}

/// `isqrt_spec(n)` is the unique integer whose square brackets `n`.
pub proof fn lemma_isqrt_bounds(n: int)
    requires
        n >= 0,
    ensures
        isqrt_spec(n) >= 0,
        isqrt_spec(n) * isqrt_spec(n) <= n,
        n < (isqrt_spec(n) + 1) * (isqrt_spec(n) + 1),
    decreases n,
{
    if n > 0 {
        lemma_isqrt_bounds(n - 1);
        let r = isqrt_spec(n - 1);
        if (r + 1) * (r + 1) <= n {
            assert(n <= (r + 1) * (r + 1));
            assert((r + 2) * (r + 2) > (r + 1) * (r + 1)) by (nonlinear_arith)
                requires
                    r >= 0,
            ;
        }
    }
}

/// Any integer whose square brackets `n` is its floor square root.
pub proof fn lemma_isqrt_unique(n: int, r: int)
    requires
        n >= 0,
        r >= 0,
        r * r <= n,
        n < (r + 1) * (r + 1),
    ensures
        r == isqrt_spec(n),
{
    lemma_isqrt_bounds(n);
    let s = isqrt_spec(n);
    if r < s {
        lemma_mul_inequality(r + 1, s, r + 1);
        lemma_mul_inequality(r + 1, s, s);
        assert((r + 1) * (r + 1) <= s * s) by (nonlinear_arith)
            requires
                0 <= r + 1 <= s,
        ;
    }
    if s < r {
        assert((s + 1) * (s + 1) <= r * r) by (nonlinear_arith)
            requires
                0 <= s + 1 <= r,
        ;
    }
}

/// Floor square root of a `u64`, by binary search.
pub fn isqrt_u64(n: u64) -> (r: u64)
    ensures
        r == isqrt_spec(n as int),
        r * r <= n,
        n < (r + 1) * (r + 1),
{
    let mut lo: u64 = 0;
    let mut hi: u64 = 4_294_967_296;
    proof {
        assert((4_294_967_296int) * 4_294_967_296 > u64::MAX as int);
    }
    while lo + 1 < hi
        invariant
            lo < hi <= 4_294_967_296,
            (lo as int) * (lo as int) <= n as int,
            (hi as int) * (hi as int) > n as int,
        decreases hi - lo,
    {
        let mid: u64 = lo + (hi - lo) / 2;
        proof {
            assert(lo < mid < hi);
        }
        if mid <= 4_294_967_295 {
            proof {
                assert((mid as int) * (mid as int) <= u64::MAX as int) by (nonlinear_arith)
                    requires
                        0 <= mid as int <= 4_294_967_295,
                        u64::MAX as int == 0xffff_ffff_ffff_ffff,
                ;
            }
            if mid * mid <= n {
                lo = mid;
            } else {
                hi = mid;
            }
        } else {
            proof {
                assert((mid as int) * (mid as int) > n as int) by (nonlinear_arith)
                    requires
                        mid as int > 4_294_967_295,
                        n as int <= u64::MAX as int,
                        u64::MAX as int == 0xffff_ffff_ffff_ffff,
                ;
            }
            hi = mid;
        }
    }
    proof {
        lemma_isqrt_unique(n as int, lo as int);
    }
    lo
}

} // verus!
