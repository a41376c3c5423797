//! Scalar fixed-point arithmetic: scaled integers, truncating division and
//! integer square root, with exact specifications.
//!
//! A real quantity `q` is represented by the integer `q * SCALE`, truncated
//! toward zero. All executable arithmetic is over `i128`/`u128`, wide enough
//! that every intermediate the renderer forms is proved free of overflow.

use vstd::prelude::*;

verus! {

/// Number of integer steps per world unit: all coordinates, distances and
/// colors are carried as multiples of `1 / SCALE`.
pub const SCALE: i128 = 65536;

/// Bound on the operands accepted by the general-purpose vector algebra;
/// chosen so that products and triple sums of admitted values fit in `i128`.
pub const VAL_MAX: i128 = 0x1000_0000_0000_0000;

/// Largest argument accepted by [`isqrt`]: `(2^63)^2`, so the binary search
/// can square its pivot without overflow.
pub const SQRT_ARG_MAX: u128 = 0x4000_0000_0000_0000_0000_0000_0000_0000;

/// Truncating (round-toward-zero) division, the rounding used throughout the
/// renderer. Defined for positive divisors; agrees with Euclidean division on
/// non-negative dividends and mirrors it on negative ones.
pub open spec fn sdiv(a: int, b: int) -> int {
    if a >= 0 {
        a / b
    } else {
        -((-a) / b)
    }
}

/// Product of two fixed-point values: `(a * b) / SCALE`, truncated toward zero.
pub open spec fn fxmul(a: int, b: int) -> int {
    sdiv(a * b, SCALE as int)
}

/// `r` is the floor of the real square root of `n`.
pub open spec fn is_sqrt(n: int, r: int) -> bool {
    0 <= r && r * r <= n && n < (r + 1) * (r + 1)
}

/// The floor of the real square root of `n` (meaningful for `n >= 0`,
/// see [`lemma_sqrt_floor`]).
pub open spec fn sqrt_floor(n: int) -> int {
    choose|r: int| #[trigger] is_sqrt(n, r)
}

/// Every non-negative integer has a floor square root.
pub proof fn lemma_sqrt_exists(n: int)
    requires
        n >= 0,
    ensures
        exists|r: int| #[trigger] is_sqrt(n, r),
    decreases n,
{
    if n == 0 {
        assert(is_sqrt(0, 0));
    } else {
        lemma_sqrt_exists(n - 1);
        let r = choose|r: int| #[trigger] is_sqrt(n - 1, r);
        if (r + 1) * (r + 1) <= n {
            assert(n == (r + 1) * (r + 1));
            assert((r + 1) * (r + 1) < (r + 2) * (r + 2)) by (nonlinear_arith)
                requires
                    r >= 0;
            assert(is_sqrt(n, r + 1));
        } else {
            assert(is_sqrt(n, r));
        }
    }
}

/// `sqrt_floor(n)` indeed bounds `n` between consecutive squares.
pub proof fn lemma_sqrt_floor(n: int)
    requires
        n >= 0,
    ensures
        is_sqrt(n, sqrt_floor(n)),
{
    lemma_sqrt_exists(n);
}

proof fn lemma_sqrt_unique_helper(n: int, r: int, s: int) by (nonlinear_arith)
    requires
        0 <= r,
        0 <= s,
        r * r <= n,
        n < (s + 1) * (s + 1),
    ensures
        r <= s,
{
}

/// The floor square root is unique: any witness equals `sqrt_floor(n)`.
pub proof fn lemma_sqrt_unique(n: int, r: int)
    requires
        is_sqrt(n, r),
    ensures
        r == sqrt_floor(n),
{
    lemma_sqrt_floor(n);
    let s = sqrt_floor(n);
    lemma_sqrt_unique_helper(n, r, s);
    lemma_sqrt_unique_helper(n, s, r);
}

/// A floor square root is monotone in its argument.
pub proof fn lemma_sqrt_le(n: int, r: int, b: int)
    requires
        is_sqrt(n, r),
        0 <= b,
        n <= b * b,
    ensures
        r <= b,
{
    assert(b * b < (b + 1) * (b + 1)) by (nonlinear_arith)
        requires
            b >= 0;
    lemma_sqrt_unique_helper(n, r, b);
}

/// Bounds the magnitude of a product from bounds on its factors.
pub proof fn lemma_mul_bound(a: int, b: int, am: int, bm: int) by (nonlinear_arith)
    requires
        -am <= a <= am,
        -bm <= b <= bm,
        0 <= am,
        0 <= bm,
    ensures
        -(am * bm) <= a * b <= am * bm,
{
}

/// Bounds the magnitude of a truncating quotient from a bound on the dividend.
pub proof fn lemma_sdiv_bound(x: int, m: int, b: int)
    requires
        b >= 1,
        0 <= m,
        -m <= x <= m,
    ensures
        -(m / b) <= sdiv(x, b) <= m / b,
{
    if x >= 0 {
        vstd::arithmetic::div_mod::lemma_div_is_ordered(x, m, b);
        vstd::arithmetic::div_mod::lemma_div_pos_is_pos(x, b);
    } else {
        vstd::arithmetic::div_mod::lemma_div_is_ordered(-x, m, b);
        vstd::arithmetic::div_mod::lemma_div_pos_is_pos(-x, b);
    }
}

/// Truncating quotients of non-negative dividends are ordered.
pub proof fn lemma_sdiv_ordered(x: int, y: int, b: int)
    requires
        b >= 1,
        0 <= x <= y,
    ensures
        0 <= sdiv(x, b) <= sdiv(y, b),
{
    vstd::arithmetic::div_mod::lemma_div_is_ordered(x, y, b);
    vstd::arithmetic::div_mod::lemma_div_pos_is_pos(x, b);
}

/// Dividing an exact multiple of `SCALE` is exact, for either sign.
pub proof fn lemma_sdiv_multiple(a: int)
    ensures
        sdiv(a * (SCALE as int), SCALE as int) == a,
{
    if a >= 0 {
        vstd::arithmetic::div_mod::lemma_div_multiples_vanish(a, SCALE as int);
    } else {
        vstd::arithmetic::div_mod::lemma_div_multiples_vanish(-a, SCALE as int);
    }
}

/// A fixed-point product with the value one is exact, and with zero is zero.
pub proof fn lemma_fxmul_one_zero(a: int)
    ensures
        fxmul(a, SCALE as int) == a,
        fxmul(a, 0) == 0,
{
    lemma_sdiv_multiple(a);
}

/// Truncating division, computed on magnitudes so that it rounds toward zero
/// for either sign of the dividend.
pub fn div_trunc(a: i128, b: i128) -> (r: i128)
    requires
        b > 0,
        a > i128::MIN,
    ensures
        r == sdiv(a as int, b as int),
{
    if a >= 0 {
        let q: u128 = (a as u128) / (b as u128);
        proof {
            vstd::arithmetic::div_mod::lemma_div_is_ordered_by_denominator(a as int, 1, b as int);
            vstd::arithmetic::div_mod::lemma_div_basics(a as int);
        }
        q as i128
    } else {
        let na: u128 = (-a) as u128;
        let q: u128 = na / (b as u128);
        proof {
            vstd::arithmetic::div_mod::lemma_div_is_ordered_by_denominator(na as int, 1, b as int);
            vstd::arithmetic::div_mod::lemma_div_basics(na as int);
        }
        -(q as i128)
    }
}

/// Fixed-point product: `(a * b) / SCALE`, truncated toward zero.
pub fn mul_fx(a: i128, b: i128) -> (r: i128)
    requires
        -VAL_MAX <= a <= VAL_MAX,
        -VAL_MAX <= b <= VAL_MAX,
    ensures
        r == fxmul(a as int, b as int),
{
    proof {
        lemma_mul_bound(a as int, b as int, VAL_MAX as int, VAL_MAX as int);
    }
    let p: i128 = a * b;
    div_trunc(p, SCALE)
}

/// Floor of the integer square root, by binary search.
pub fn isqrt(n: u128) -> (r: u128)
    requires
        n <= SQRT_ARG_MAX,
    ensures
        is_sqrt(n as int, r as int),
        r as int == sqrt_floor(n as int),
{
    let mut lo: u128 = 0;
    let mut hi: u128 = 0x8000_0000_0000_0000;
    while lo < hi
        invariant
            lo <= hi,
            hi <= 0x8000_0000_0000_0000,
            (lo as int) * (lo as int) <= n as int,
            (n as int) < ((hi as int) + 1) * ((hi as int) + 1),
        decreases hi - lo,
    {
        let mid: u128 = lo + (hi - lo + 1) / 2;
        proof {
            lemma_mul_bound(
                mid as int,
                mid as int,
                0x8000_0000_0000_0000,
                0x8000_0000_0000_0000,
            );
        }
        let sq: u128 = mid * mid;
        if sq <= n {
            lo = mid;
        } else {
            hi = mid - 1;
        }
    }
    proof {
        lemma_sqrt_unique(n as int, lo as int);
    }
    lo
}

} // verus!
