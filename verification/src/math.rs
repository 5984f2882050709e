//! Exact integer arithmetic used by the pool: widened products, floor and
//! ceiling division, and the integer square root.
use vstd::prelude::*;
use vstd::arithmetic::div_mod::{
    lemma_div_is_ordered, lemma_div_multiples_vanish_fancy, lemma_div_pos_is_pos, lemma_fundamental_div_mod,
    lemma_mod_pos_bound,
};
use vstd::arithmetic::mul::{lemma_mul_inequality, lemma_mul_is_commutative};

verus! {

/// `r` is the integer square root of `n`, rounded down.
pub open spec fn is_sqrt_floor(r: int, n: int) -> bool {
    &&& 0 <= r
    &&& r * r <= n
    &&& n < (r + 1) * (r + 1)
}

/// The integer square root of `n`, rounded down.
pub open spec fn sqrt_floor(n: nat) -> nat {
    (choose|r: nat| is_sqrt_floor(r as int, n as int))
}

/// `a / b` rounded up, for a positive divisor.
pub open spec fn ceil_div(a: int, b: int) -> int {
    (a + b - 1) / b
}

/// Squares are monotone on the naturals.
pub proof fn lemma_square_monotone(a: int, b: int)
    requires
        0 <= a <= b,
    ensures
        a * a <= b * b,
{
    assert(a * a <= b * b) by (nonlinear_arith)
        requires
            0 <= a <= b,
    ;
}

/// At most one natural number is the rounded-down square root of `n`.
pub proof fn lemma_sqrt_floor_unique(r1: int, r2: int, n: int)
    requires
        is_sqrt_floor(r1, n),
        is_sqrt_floor(r2, n),
    ensures
        r1 == r2,
{
    if r1 < r2 {
        lemma_square_monotone(r1 + 1, r2);
    } else if r2 < r1 {
        lemma_square_monotone(r2 + 1, r1);
    }
}

/// Every natural number has a rounded-down integer square root, and
/// `sqrt_floor` is it.
pub proof fn lemma_sqrt_floor_exists(n: nat)
    ensures
        is_sqrt_floor(sqrt_floor(n) as int, n as int),
    decreases n,
{
    if n == 0 {
        assert(is_sqrt_floor(0, 0));
    } else {
        lemma_sqrt_floor_exists((n - 1) as nat);
        let r = sqrt_floor((n - 1) as nat) as int;
        assert((r + 1) * (r + 1) == r * r + 2 * r + 1) by (nonlinear_arith);
        assert((r + 2) * (r + 2) == (r + 1) * (r + 1) + 2 * r + 3) by (nonlinear_arith);
        if (r + 1) * (r + 1) <= n {
            assert(is_sqrt_floor(r + 1, n as int));
            lemma_sqrt_floor_is((r + 1) as nat, n);
        } else {
            assert(is_sqrt_floor(r, n as int));
            lemma_sqrt_floor_is(r as nat, n);
        }
    }
}

/// The square root of a product of two `u64` values fits in a `u64`, and is
/// positive when both factors are.
pub proof fn lemma_sqrt_floor_of_u64_product(x: u64, y: u64)
    ensures
        sqrt_floor((x as nat) * (y as nat)) <= u64::MAX,
        x > 0 && y > 0 ==> sqrt_floor((x as nat) * (y as nat)) > 0,
{
    let n = (x as nat) * (y as nat);
    lemma_sqrt_floor_exists(n);
    let r = sqrt_floor(n) as int;
    lemma_u64_product_fits(x, y);
    if r > u64::MAX {
        lemma_square_monotone(u64::MAX as int + 1, r);
        assert((u64::MAX as int) * (u64::MAX as int) < (u64::MAX as int + 1) * (u64::MAX as int
            + 1)) by (nonlinear_arith);
    }
    if x > 0 && y > 0 {
        assert(n >= 1) by (nonlinear_arith)
            requires
                x >= 1,
                y >= 1,
                n == (x as nat) * (y as nat),
        ;
        if r == 0 {
            assert((r + 1) * (r + 1) == 1) by (nonlinear_arith)
                requires
                    r == 0,
            ;
        }
    }
}

/// Any witness of the rounded-down square root is the value of `sqrt_floor`.
pub proof fn lemma_sqrt_floor_is(r: nat, n: nat)
    requires
        is_sqrt_floor(r as int, n as int),
    ensures
        sqrt_floor(n) == r,
{
    let c = sqrt_floor(n);
    assert(is_sqrt_floor(c as int, n as int));
    lemma_sqrt_floor_unique(c as int, r as int, n as int);
}

/// Rounding down never overshoots: `(x / d) * d <= x`, and one more
/// multiple of `d` does: `x < (x / d + 1) * d`.
pub proof fn lemma_floor_div_bounds(x: int, d: int)
    requires
        x >= 0,
        d > 0,
    ensures
        (x / d) * d <= x,
        x < (x / d + 1) * d,
        (x / d + 1) * d == (x / d) * d + d,
        x / d >= 0,
{
    lemma_fundamental_div_mod(x, d);
    lemma_mod_pos_bound(x, d);
    lemma_mul_is_commutative(d, x / d);
    assert((x / d + 1) * d == (x / d) * d + d) by (nonlinear_arith);
    lemma_div_pos_is_pos(x, d);
}

/// Rounding up never undershoots, and overshoots by less than `d`:
/// `x <= ceil_div(x, d) * d < x + d`.
pub proof fn lemma_ceil_div_bounds(x: int, d: int)
    requires
        x >= 0,
        d > 0,
    ensures
        x <= ceil_div(x, d) * d,
        ceil_div(x, d) * d < x + d,
        ceil_div(x, d) >= 0,
{
    let y = x + d - 1;
    lemma_floor_div_bounds(y, d);
}

/// Paying for `lp` shares at the rounded-up fair price stays within a budget
/// `m` whenever `lp` is at most what the budget buys, rounded down.
pub proof fn lemma_ceil_share_within_budget(lp: int, r: int, s: int, m: int)
    requires
        lp >= 0,
        r > 0,
        s > 0,
        m >= 0,
        lp <= (m * s) / r,
    ensures
        ceil_div(lp * r, s) <= m,
{
    assert(m * s >= 0) by (nonlinear_arith)
        requires
            m >= 0,
            s > 0,
    ;
    lemma_floor_div_bounds(m * s, r);
    lemma_mul_inequality(lp, (m * s) / r, r);
    assert(lp * r <= m * s);
    lemma_div_is_ordered(lp * r + s - 1, s * m + (s - 1), s);
    lemma_mul_is_commutative(m, s);
    lemma_div_multiples_vanish_fancy(m, s - 1, s);
}

/// The product of two `u64` values fits in a `u128`.
pub proof fn lemma_u64_product_fits(x: u64, y: u64)
    ensures
        0 <= (x as int) * (y as int) <= (u64::MAX as int) * (u64::MAX as int),
        (u64::MAX as int) * (u64::MAX as int) + (u64::MAX as int) <= u128::MAX,
{
    assert(0 <= (x as int) * (y as int) <= (u64::MAX as int) * (u64::MAX as int)) by (nonlinear_arith)
        requires
            0 <= x <= u64::MAX,
            0 <= y <= u64::MAX,
    ;
}

/// The exact product of two `u64` values.
pub fn wide_mul(x: u64, y: u64) -> (p: u128)
    ensures
        p == (x as int) * (y as int),
{
    proof {
        lemma_u64_product_fits(x, y);
    }
    (x as u128) * (y as u128)
}

/// `x * y / d`, rounded down, computed without overflow.
pub fn mul_div_floor(x: u64, y: u64, d: u64) -> (q: u128)
    requires
        d > 0,
    ensures
        q == (x as int) * (y as int) / (d as int),
{
    let p = wide_mul(x, y);
    p / (d as u128)
}

/// `x * y / d`, rounded up, computed without overflow.
pub fn mul_div_ceil(x: u64, y: u64, d: u64) -> (q: u128)
    requires
        d > 0,
    ensures
        q == ceil_div((x as int) * (y as int), d as int),
{
    proof {
        lemma_u64_product_fits(x, y);
    }
    let p = wide_mul(x, y);
    (p + (d as u128) - 1) / (d as u128)
}

/// The integer square root of `n`, rounded down.
pub fn isqrt(n: u128) -> (r: u64)
    ensures
        is_sqrt_floor(r as int, n as int),
        r == sqrt_floor(n as nat),
{
    let mut lo: u128 = 0;
    let mut hi: u128 = 0x1_0000_0000_0000_0000;
    assert(n < hi * hi) by (nonlinear_arith)
        requires
            hi == 0x1_0000_0000_0000_0000u128,
            n <= u128::MAX,
    ;
    while hi - lo > 1
        invariant
            lo < hi <= 0x1_0000_0000_0000_0000,
            lo * lo <= n,
            n < hi * hi,
        decreases hi - lo,
    {
        let mid = lo + (hi - lo) / 2;
        assert(mid * mid <= u128::MAX) by (nonlinear_arith)
            requires
                mid < 0x1_0000_0000_0000_0000,
        ;
        if mid * mid <= n {
            lo = mid;
        } else {
            hi = mid;
        }
    }
    proof {
        lemma_sqrt_floor_is(lo as nat, n as nat);
    }
    lo as u64
}

} // verus!
