//! Fixed-point arithmetic helpers: truncating division as the hardware
//! does it, clamping, and an exact integer square root.

use vstd::prelude::*;

verus! {

/// Division truncating toward zero, the semantics of `/` on signed
/// machine integers.
pub open spec fn div_tz(a: int, b: int) -> int
    recommends
        b > 0,
{
    if a >= 0 {
        a / b
    } else {
        -((-a) / b)
    }
}

/// Truncating division stays within a symmetric bound scaled by the divisor:
/// if `|a| <= c * b` then `|div_tz(a, b)| <= c`.
pub proof fn lemma_div_tz_bound(a: int, b: int, c: int)
    requires
        b > 0,
        c >= 0,
        -(c * b) <= a <= c * b,
    ensures
        -c <= div_tz(a, b) <= c,
{
    if a >= 0 {
        assert(0 <= a / b <= c) by (nonlinear_arith)
            requires b > 0, c >= 0, a <= c * b, a >= 0;
    } else {
        assert(0 <= (-a) / b <= c) by (nonlinear_arith)
            requires b > 0, c >= 0, -(c * b) <= a, a < 0;
    }
}

/// Truncating division never increases magnitude for divisors of at least one.
pub proof fn lemma_div_tz_magnitude(a: int, b: int)
    requires
        b >= 1,
    ensures
        a >= 0 ==> 0 <= div_tz(a, b) <= a,
        a < 0 ==> a <= div_tz(a, b) <= 0,
{
    if a >= 0 {
        assert(0 <= a / b <= a) by (nonlinear_arith)
            requires b >= 1, a >= 0;
    } else {
        assert(0 <= (-a) / b <= -a) by (nonlinear_arith)
            requires b >= 1, -a > 0;
    }
}

/// Executable truncating division, tied to `div_tz`.
pub fn div_fx(a: i64, b: i64) -> (r: i64)
    requires
        b > 0,
        a > i64::MIN,
    ensures
        r == div_tz(a as int, b as int),
{
    proof {
        lemma_div_tz_magnitude(a as int, b as int);
    }
    a / b
}

/// The lesser of two machine integers.
pub fn min_i64(a: i64, b: i64) -> (r: i64)
    ensures
        r == if a <= b { a as int } else { b as int },
{
    if a <= b {
        a
    } else {
        b
    }
}

/// The greater of two machine integers.
pub fn max_i64(a: i64, b: i64) -> (r: i64)
    ensures
        r == if a >= b { a as int } else { b as int },
{
    if a >= b {
        a
    } else {
        b
    }
}

/// The integer square root: the greatest `r` with `r * r <= n`, defined by
/// counting up so that every value has one.
pub open spec fn sqrt_floor(n: nat) -> nat
    decreases n,
{
    if n == 0 {
        0
    } else {
        let r = sqrt_floor((n - 1) as nat);
        if (r + 1) * (r + 1) <= n {
            r + 1
        } else {
            r
        }
    }
}

/// `sqrt_floor` satisfies the square-root bracketing on every input.
pub proof fn lemma_sqrt_floor_bracket(n: nat)
    ensures
        sqrt_floor(n) * sqrt_floor(n) <= n,
        n < (sqrt_floor(n) + 1) * (sqrt_floor(n) + 1),
    decreases n,
{
    if n == 0 {
        assert(sqrt_floor(0) == 0);
        assert(sqrt_floor(n) * sqrt_floor(n) <= n);
        assert((sqrt_floor(n) + 1) * (sqrt_floor(n) + 1) == 1) by (nonlinear_arith)
            requires sqrt_floor(n) == 0;
        assert(n < (sqrt_floor(n) + 1) * (sqrt_floor(n) + 1));
    } else {
        lemma_sqrt_floor_bracket((n - 1) as nat);
        let r = sqrt_floor((n - 1) as nat);
        assert(r * r <= n - 1);
        assert(((n - 1) as nat) < (r + 1) * (r + 1));
        if (r + 1) * (r + 1) <= n {
            assert(sqrt_floor(n) == r + 1);
            assert(n < (r + 2) * (r + 2)) by (nonlinear_arith)
                requires n <= (r + 1) * (r + 1);
            assert(sqrt_floor(n) * sqrt_floor(n) <= n);
            assert(n < (sqrt_floor(n) + 1) * (sqrt_floor(n) + 1));
        } else {
            assert(sqrt_floor(n) == r);
            assert(sqrt_floor(n) * sqrt_floor(n) <= n);
            assert(n < (sqrt_floor(n) + 1) * (sqrt_floor(n) + 1));
        }
    }
}

/// Squaring is monotonic on the naturals.
pub proof fn lemma_square_monotonic(a: nat, b: nat)
    requires
        a <= b,
    ensures
        a * a <= b * b,
{
    assert(a * a <= b * b) by (nonlinear_arith)
        requires 0 <= a <= b;
}

/// Only one value satisfies the square-root bracketing, so any `r` with
/// `r * r <= n < (r + 1) * (r + 1)` is `sqrt_floor(n)`.
pub proof fn lemma_sqrt_floor_unique(n: nat, r: nat)
    requires
        r * r <= n,
        n < (r + 1) * (r + 1),
    ensures
        r == sqrt_floor(n),
{
    lemma_sqrt_floor_bracket(n);
    let s = sqrt_floor(n);
    if r < s {
        lemma_square_monotonic(r + 1, s);
        assert(false);
    }
    if s < r {
        lemma_square_monotonic(s + 1, r);
        assert(false);
    }
}

/// The square root is monotonic.
pub proof fn lemma_sqrt_floor_monotonic(a: nat, b: nat)
    requires
        a <= b,
    ensures
        sqrt_floor(a) <= sqrt_floor(b),
{
    lemma_sqrt_floor_bracket(a);
    lemma_sqrt_floor_bracket(b);
    if sqrt_floor(b) < sqrt_floor(a) {
        lemma_square_monotonic(sqrt_floor(b) + 1, sqrt_floor(a));
        assert(false);
    }
}

/// Comparing a square root against a bound is the same as comparing the
/// radicand against the bound's square.
pub proof fn lemma_sqrt_floor_below(n: nat, k: nat)
    ensures
        sqrt_floor(n) < k <==> n < k * k,
{
    lemma_sqrt_floor_bracket(n);
    if sqrt_floor(n) < k {
        lemma_square_monotonic(sqrt_floor(n) + 1, k);
    }
    if n < k * k && sqrt_floor(n) >= k {
        lemma_square_monotonic(k, sqrt_floor(n));
        assert(false);
    }
}

/// Executable integer square root by bisection.
pub fn isqrt(n: u64) -> (r: u64)
    ensures
        r == sqrt_floor(n as nat),
        r * r <= n,
{
    let mut lo: u64 = 0;
    let mut hi: u64 = 0x1_0000_0000;
    proof {
        assert(n < 0x1_0000_0000 * 0x1_0000_0000) by (nonlinear_arith)
            requires n <= 0xffff_ffff_ffff_ffffu64;
    }
    if n < hi {
        hi = n + 1;
        proof {
            assert((n as int) < (n + 1) * (n + 1)) by (nonlinear_arith);
        }
    }
    while hi - lo > 1
        invariant
            lo < hi <= 0x1_0000_0000,
            lo * lo <= n,
            n < (hi as int) * (hi as int),
        decreases hi - lo,
    {
        let mid: u64 = lo + (hi - lo) / 2;
        proof {
            lemma_square_monotonic(mid as nat, 0xffff_ffffnat);
        }
        if mid * mid <= n {
            lo = mid;
        } else {
            hi = mid;
        }
    }
    proof {
        lemma_sqrt_floor_unique(n as nat, lo as nat);
    }
    lo
}

} // verus!
