//! Integer helpers shared by the fixed-point layer: division that rounds toward
//! zero and integer square roots, each with its mathematical meaning.
use vstd::prelude::*;

verus! {

/// Absolute value of a mathematical integer.
pub open spec fn abs(a: int) -> int {
    if a < 0 {
        -a
    } else {
        a
    }
}

/// The quotient of `a` by `b` rounded toward zero; `0` when `b` is zero.
pub open spec fn div_tz(a: int, b: int) -> int {
    if b == 0 {
        0
    } else if (a >= 0) == (b > 0) {
        abs(a) / abs(b)
    } else {
        -(abs(a) / abs(b))
    }
}

/// `r` is the integer square root of `n`: the largest `r >= 0` with `r * r <= n`.
pub open spec fn is_isqrt(n: int, r: int) -> bool {
    &&& 0 <= r
    &&& r * r <= n
    &&& n < (r + 1) * (r + 1)
}

/// The integer square root of `n`, and `0` for a negative `n`.
pub open spec fn isqrt(n: int) -> int {
    if n < 0 {
        0
    } else {
        choose|r: int| is_isqrt(n, r)
    }
}

/// Squaring is strictly monotone on the non-negative integers.
pub proof fn lemma_square_monotone(a: int, b: int)
    requires
        0 <= a < b,
    ensures
        a * a < b * b,
        (a + 1) * (a + 1) <= b * b,
{
    assert(a * a < b * b) by (nonlinear_arith)
        requires
            0 <= a < b,
    ;
    assert((a + 1) * (a + 1) <= b * b) by (nonlinear_arith)
        requires
            0 <= a < b,
    ;
}

/// An integer has at most one integer square root.
pub proof fn lemma_isqrt_unique(n: int, r1: int, r2: int)
    requires
        is_isqrt(n, r1),
        is_isqrt(n, r2),
    ensures
        r1 == r2,
{
    if r1 < r2 {
        lemma_square_monotone(r1, r2);
    } else if r2 < r1 {
        lemma_square_monotone(r2, r1);
    }
}

/// Every non-negative integer has an integer square root.
pub proof fn lemma_isqrt_exists(n: int)
    requires
        0 <= n,
    ensures
        is_isqrt(n, isqrt(n)),
    decreases n,
{
    if n == 0 {
        assert(is_isqrt(0, 0));
    } else {
        lemma_isqrt_exists(n - 1);
        let r = isqrt(n - 1);
        if (r + 1) * (r + 1) <= n {
            assert((r + 2) * (r + 2) > n) by (nonlinear_arith)
                requires
                    0 <= r,
                    n - 1 < (r + 1) * (r + 1),
            ;
            assert(is_isqrt(n, r + 1));
        } else {
            assert(is_isqrt(n, r));
        }
    }
}

/// Whatever satisfies the defining inequalities is the integer square root.
pub proof fn lemma_isqrt_is(n: int, r: int)
    requires
        is_isqrt(n, r),
    ensures
        isqrt(n) == r,
{
    lemma_isqrt_unique(n, r, isqrt(n));
}

/// The integer square root of a positive integer is positive.
pub proof fn lemma_isqrt_positive(n: int)
    requires
        1 <= n,
    ensures
        1 <= isqrt(n),
{
    lemma_isqrt_exists(n);
}

/// The product of two bounded integers is bounded by the product of the bounds.
pub proof fn lemma_mul_bound(a: int, b: int, ka: int, kb: int)
    requires
        abs(a) <= ka,
        abs(b) <= kb,
    ensures
        abs(a * b) <= ka * kb,
        -(ka * kb) <= a * b <= ka * kb,
{
    assert(abs(a * b) <= ka * kb) by (nonlinear_arith)
        requires
            abs(a) <= ka,
            abs(b) <= kb,
    ;
}

/// Rounding toward zero never increases the magnitude and keeps the sign.
pub proof fn lemma_div_tz_bound(a: int, b: int)
    ensures
        abs(div_tz(a, b)) <= abs(a),
        a >= 0 && b > 0 ==> div_tz(a, b) >= 0,
{
    if b != 0 {
        let aa = abs(a);
        let bb = abs(b);
        assert(0 <= aa / bb <= aa) by (nonlinear_arith)
            requires
                0 <= aa,
                1 <= bb,
        ;
    }
}

/// Divides `a` by `b`, rounding toward zero.
pub fn div_toward_zero(a: i128, b: i128) -> (q: i128)
    requires
        b != 0,
        i128::MIN < a,
        i128::MIN < b,
    ensures
        q == div_tz(a as int, b as int),
        abs(q as int) <= abs(a as int),
{
    proof {
        lemma_div_tz_bound(a as int, b as int);
    }
    if b < 0 {
        (-a) / (-b)
    } else {
        a / b
    }
}

/// Computes the integer square root of `n` by bisection.
pub fn isqrt_u128(n: u128) -> (r: u64)
    ensures
        r == isqrt(n as int),
        is_isqrt(n as int, r as int),
{
    let mut lo: u128 = 0;
    let mut hi: u128 = 0x1_0000_0000_0000_0000;
    proof {
        assert(0x1_0000_0000_0000_0000int * 0x1_0000_0000_0000_0000int
            == 0x1_0000_0000_0000_0000_0000_0000_0000_0000int) by (nonlinear_arith);
    }
    while hi - lo > 1
        invariant
            0 <= lo < hi <= 0x1_0000_0000_0000_0000,
            lo * lo <= n,
            n < hi * hi,
        decreases hi - lo,
    {
        let mid: u128 = lo + (hi - lo) / 2;
        proof {
            assert(mid * mid < 0x1_0000_0000_0000_0000_0000_0000_0000_0000int) by (nonlinear_arith)
                requires
                    0 <= mid < 0x1_0000_0000_0000_0000,
            ;
        }
        if mid * mid <= n {
            lo = mid;
        } else {
            hi = mid;
        }
    }
    proof {
        lemma_isqrt_is(n as int, lo as int);
    }
    lo as u64
}

} // verus!
