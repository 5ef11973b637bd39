//! Signed 16.16 fixed-point numbers and the exact integer arithmetic behind them.
//!
//! A fixed-point value is an `i32` that stands for the rational number
//! `raw / 65536`. Every operation of this crate evaluates its formula exactly
//! over the integers and rounds once, toward negative infinity, when it stores
//! the result on this grid; a result outside the range of `i32` is saturated.

use vstd::prelude::*;
use vstd::arithmetic::div_mod::lemma_fundamental_div_mod;
use vstd::arithmetic::div_mod::lemma_fundamental_div_mod_converse;

verus! {

/// The raw value of the number one.
pub const ONE: i32 = 65536;

/// The raw value of one half, the offset of a pixel's centre from its corner.
pub const HALF: i32 = 32768;

/// The bound within which exact intermediate values are kept: `2^120`.
pub const EXACT_LIMIT: i128 = 0x0100_0000_0000_0000_0000_0000_0000_0000;

/// The nearest value to `v` that an `i32` can hold.
pub open spec fn saturated(v: int) -> int {
    if v < i32::MIN as int {
        i32::MIN as int
    } else if v > i32::MAX as int {
        i32::MAX as int
    } else {
        v
    }
}

/// The rational `n / d` rounded toward negative infinity, for any nonzero `d`.
pub open spec fn quotient(n: int, d: int) -> int {
    if d > 0 {
        n / d
    } else {
        (-n) / (-d)
    }
}

/// The rational `n / d` rounded down and saturated: what is stored on the grid.
pub open spec fn stored(n: int, d: int) -> int {
    saturated(quotient(n, d))
}

/// `quotient` is the floor of the rational: the largest integer whose product
/// with a positive `d` does not exceed `n`.
pub proof fn lemma_quotient_is_floor(n: int, d: int)
    requires
        d > 0,
    ensures
        quotient(n, d) * d <= n < (quotient(n, d) + 1) * d,
{
    lemma_fundamental_div_mod(n, d);
    let q: int = n / d;
    assert(n == d * q + n % d);
    assert(0 <= n % d < d);
    assert(q * d == d * q) by (nonlinear_arith);
    assert((q + 1) * d == d * q + d) by (nonlinear_arith);
}

/// Any integer `q` that brackets `n` between `q * d` and `(q + 1) * d` is the quotient.
pub proof fn lemma_quotient_unique(n: int, d: int, q: int)
    requires
        d > 0,
        q * d <= n < (q + 1) * d,
    ensures
        quotient(n, d) == q,
{
    let r: int = n - q * d;
    assert((q + 1) * d == q * d + d) by (nonlinear_arith);
    assert(n == q * d + r);
    lemma_fundamental_div_mod_converse(n, d, q, r);
}

/// Clamps an exact value into the range of `i32`.
pub fn saturate(v: i128) -> (r: i32)
    ensures
        r as int == saturated(v as int),
{
    if v < -2147483648 {
        -2147483648
    } else if v > 2147483647 {
        2147483647
    } else {
        v as i32
    }
}

/// Divides rounding toward negative infinity.
pub fn div_floor(n: i128, d: i128) -> (q: i128)
    requires
        d != 0,
        -EXACT_LIMIT <= n <= EXACT_LIMIT,
        -EXACT_LIMIT <= d <= EXACT_LIMIT,
    ensures
        q as int == quotient(n as int, d as int),
{
    let num: i128 = if d > 0 { n } else { -n };
    let den: i128 = if d > 0 { d } else { -d };
    if num >= 0 {
        num / den
    } else {
        let below: i128 = (-num - 1) / den;
        let q: i128 = -below - 1;
        proof {
            let m: int = -num - 1;
            lemma_fundamental_div_mod(m, den as int);
            let k: int = m / (den as int);
            let r: int = m % (den as int);
            assert(m == den * k + r);
            assert(0 <= r < den);
            assert(q * den == -(den * k) - den) by (nonlinear_arith)
                requires
                    q == -k - 1,
            ;
            assert((q + 1) * den == -(den * k)) by (nonlinear_arith)
                requires
                    q == -k - 1,
            ;
            lemma_quotient_unique(num as int, den as int, q as int);
        }
        q
    }
}

/// Stores the exact rational `n / d` on the grid: rounded down, then saturated.
pub fn store(n: i128, d: i128) -> (r: i32)
    requires
        d != 0,
        -EXACT_LIMIT <= n <= EXACT_LIMIT,
        -EXACT_LIMIT <= d <= EXACT_LIMIT,
    ensures
        r as int == stored(n as int, d as int),
{
    saturate(div_floor(n, d))
}

/// The product of two bounded integers is bounded by the product of the bounds.
pub proof fn lemma_product_bound(a: int, b: int, m: int, n: int)
    by (nonlinear_arith)
    requires
        -m <= a <= m,
        -n <= b <= n,
    ensures
        -(m * n) <= a * b <= m * n,
{
}

/// The weighted sum `a * wa + b * wb` over the denominator `den`, stored on
/// the grid. With weights that add up to `den` this is a weighted mean.
pub open spec fn mixed(a: int, wa: int, b: int, wb: int, den: int) -> int {
    stored(a * wa + b * wb, den)
}

/// The largest magnitude of a weight or denominator handed to `mix`: `2^48`.
pub const WEIGHT_LIMIT: i128 = 0x1_0000_0000_0000;

/// Evaluates a weighted sum of two fixed-point numbers exactly and stores it.
pub fn mix(a: i32, wa: i128, b: i32, wb: i128, den: i128) -> (r: i32)
    requires
        -WEIGHT_LIMIT <= wa <= WEIGHT_LIMIT,
        -WEIGHT_LIMIT <= wb <= WEIGHT_LIMIT,
        0 < den <= WEIGHT_LIMIT,
    ensures
        r as int == mixed(a as int, wa as int, b as int, wb as int, den as int),
{
    proof {
        lemma_product_bound(a as int, wa as int, 0x8000_0000, WEIGHT_LIMIT as int);
        lemma_product_bound(b as int, wb as int, 0x8000_0000, WEIGHT_LIMIT as int);
    }
    store(a as i128 * wa + b as i128 * wb, den)
}

/// Whether `r` is the square root of `n` rounded down.
pub open spec fn is_sqrt_floor(n: int, r: int) -> bool {
    r >= 0 && r * r <= n < (r + 1) * (r + 1)
}

/// The square root of a non-negative integer, rounded down.
pub open spec fn sqrt_floor(n: int) -> int {
    choose|r: int| is_sqrt_floor(n, r)
}

/// There is only one rounded-down square root.
pub proof fn lemma_sqrt_floor_unique(n: int, a: int, b: int)
    requires
        is_sqrt_floor(n, a),
        is_sqrt_floor(n, b),
    ensures
        a == b,
{
    if a < b {
        assert((a + 1) * (a + 1) <= b * b) by (nonlinear_arith)
            requires
                0 <= a + 1 <= b,
        ;
    } else if b < a {
        assert((b + 1) * (b + 1) <= a * a) by (nonlinear_arith)
            requires
                0 <= b + 1 <= a,
        ;
    }
}

/// Computes the square root rounded down, by bisection.
pub fn isqrt(n: u64) -> (r: u64)
    ensures
        is_sqrt_floor(n as int, r as int),
        r as int == sqrt_floor(n as int),
        r < 0x1_0000_0000,
{
    let mut lo: u64 = 0;
    let mut hi: u64 = 0x1_0000_0000;
    while hi - lo > 1
        invariant
            lo < hi <= 0x1_0000_0000,
            lo * lo <= n,
            n < hi * hi,
        decreases hi - lo,
    {
        let mid: u64 = lo + (hi - lo) / 2;
        assert(mid * mid < 0x1_0000_0000_0000_0000) by (nonlinear_arith)
            requires
                0 <= mid < 0x1_0000_0000,
        ;
        if mid as u128 * mid as u128 <= n as u128 {
            lo = mid;
        } else {
            hi = mid;
        }
    }
    proof {
        assert(is_sqrt_floor(n as int, lo as int));
        lemma_sqrt_floor_unique(n as int, lo as int, sqrt_floor(n as int));
    }
    lo
}

} // verus!
