//! Integer helpers shared by the analytics modules.

use vstd::prelude::*;

verus! {

/// Absolute deviation of `a` from `b`, in basis points of `b` (0 when `b` is 0).
pub open spec fn deviation_bps_spec(a: int, b: int) -> int {
    if b == 0 {
        0
    } else if a >= b {
        (a - b) * 10_000 / b
    } else {
        (b - a) * 10_000 / b
    }
}

/// Absolute deviation of `a` from `b` in basis points of `b`, truncated to `u32`.
pub fn abs_deviation_bps(a: u64, b: u64) -> (r: u32)
    ensures
        r == (deviation_bps_spec(a as int, b as int) as u32),
{
    if b == 0 {
        return 0;
    }
    let diff: u64 = if a >= b { a - b } else { b - a };
    assert((diff as u128) * 10_000 <= u128::MAX) by (nonlinear_arith)
        requires diff <= u64::MAX;
    let x: u128 = (diff as u128) * 10_000 / (b as u128);
    #[verifier::truncate]
    let r: u32 = x as u32;
    r
}

/// `r` is the integer square root of `n`.
pub open spec fn is_isqrt(n: int, r: int) -> bool {
    0 <= r && r * r <= n < (r + 1) * (r + 1)
}

/// The integer square root of a non-negative `n`.
pub open spec fn sqrt_floor(n: int) -> int {
    choose|r: int| is_isqrt(n, r)
}

pub proof fn lemma_isqrt_unique(n: int, r1: int, r2: int)
    requires
        is_isqrt(n, r1),
        is_isqrt(n, r2),
    ensures
        r1 == r2,
{
    if r1 < r2 {
        assert((r1 + 1) * (r1 + 1) <= r2 * r2) by (nonlinear_arith)
            requires 0 <= r1 < r2;
    } else if r2 < r1 {
        assert((r2 + 1) * (r2 + 1) <= r1 * r1) by (nonlinear_arith)
            requires 0 <= r2 < r1;
    }
}

proof fn lemma_newton_step(n: int, x: int, y: int)
    requires
        n >= 1,
        x >= 1,
        (x + 1) * (x + 1) > n,
        y == (x + n / x) / 2,
    ensures
        (y + 1) * (y + 1) > n,
        y >= 1,
{
    let q = n / x;
    assert(n < (q + 1) * x) by (nonlinear_arith)
        requires x >= 1, q == n / x, n >= 0;
    assert(2 * (y + 1) >= x + q + 1) by (nonlinear_arith)
        requires y == (x + q) / 2, x + q >= 0;
    assert((x + q + 1) * (x + q + 1) >= 4 * x * (q + 1)) by (nonlinear_arith);
    assert(4 * (y + 1) * (y + 1) >= (x + q + 1) * (x + q + 1)) by (nonlinear_arith)
        requires 2 * (y + 1) >= x + q + 1, x + q + 1 >= 0;
    assert(4 * (y + 1) * (y + 1) > 4 * n) by (nonlinear_arith)
        requires
            4 * (y + 1) * (y + 1) >= (x + q + 1) * (x + q + 1),
            (x + q + 1) * (x + q + 1) >= 4 * x * (q + 1),
            n < (q + 1) * x;
    assert((y + 1) * (y + 1) > n) by (nonlinear_arith)
        requires 4 * (y + 1) * (y + 1) > 4 * n;
    assert((y + 1) * (y + 1) > 1) by (nonlinear_arith)
        requires (y + 1) * (y + 1) > n, n >= 1;
    assert(y >= 1) by (nonlinear_arith)
        requires (y + 1) * (y + 1) > 1, y >= 0;
}

proof fn lemma_newton_stop(n: int, x: int, y: int)
    requires
        n >= 1,
        x >= 1,
        (x + 1) * (x + 1) > n,
        y == (x + n / x) / 2,
        y >= x,
    ensures
        is_isqrt(n, x),
{
    let q = n / x;
    assert(q * x <= n) by (nonlinear_arith)
        requires x >= 1, q == n / x, n >= 0;
    assert(q >= x) by (nonlinear_arith)
        requires y == (x + q) / 2, y >= x;
    assert(x * x <= n) by (nonlinear_arith)
        requires q >= x, q * x <= n, x >= 1;
}

/// Integer square root by Newton's iteration.
pub fn isqrt_u128(n: u128) -> (r: u128)
    requires
        n <= u128::MAX - 3,
    ensures
        is_isqrt(n as int, r as int),
        r == sqrt_floor(n as int),
{
    if n == 0 {
        proof {
            assert(is_isqrt(0int, 0int));
            lemma_isqrt_unique(0int, 0int, sqrt_floor(0int));
        }
        return 0;
    }
    let mut x: u128 = n;
    proof {
        assert((x + 1) * (x + 1) > n) by (nonlinear_arith)
            requires x == n, n >= 1;
    }
    let mut y: u128 = (x + 1) / 2;
    assert(y == (x + n / x) / 2) by (nonlinear_arith)
        requires x == n, n >= 1, y == (x + 1) / 2;
    while y < x
        invariant
            n >= 1,
            n <= u128::MAX - 3,
            1 <= x <= n,
            x == n || x <= (n + 1) / 2,
            (x + 1) * (x + 1) > n,
            y == (x + n / x) / 2,
        decreases x,
    {
        proof {
            lemma_newton_step(n as int, x as int, y as int);
        }
        let old_x = x;
        x = y;
        proof {
            assert(n / x <= x + 2) by (nonlinear_arith)
                requires (x + 1) * (x + 1) > n, x >= 1, n >= 1;
            assert(x <= (n + 1) / 2) by (nonlinear_arith)
                requires x < old_x, old_x == n || old_x <= (n + 1) / 2, x == (old_x + n / old_x) / 2, old_x <= n, old_x >= 1;
        }
        y = (x + n / x) / 2;
    }
    proof {
        lemma_newton_stop(n as int, x as int, y as int);
        lemma_isqrt_unique(n as int, x as int, sqrt_floor(n as int));
    }
    x
}

/// Integer square root of a `u64`.
pub fn isqrt_u64(n: u64) -> (r: u64)
    ensures
        is_isqrt(n as int, r as int),
        r == sqrt_floor(n as int),
{
    let r = isqrt_u128(n as u128);
    assert(r <= u64::MAX) by (nonlinear_arith)
        requires is_isqrt(n as int, r as int), n <= u64::MAX;
    r as u64
}

} // verus!
