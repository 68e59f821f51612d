//! Scalar fixed-point helpers: rounded division, saturation, integer square
//! root.  Every executable function returns exactly the value of its spec
//! mirror, so higher layers can state their results as closed formulas.

use vstd::prelude::*;
use vstd::arithmetic::div_mod::lemma_div_multiples_vanish_fancy;
use vstd::arithmetic::div_mod::lemma_div_pos_is_pos;
use vstd::arithmetic::div_mod::lemma_fundamental_div_mod;
use vstd::arithmetic::div_mod::lemma_mod_division_less_than_divisor;
use vstd::arithmetic::div_mod::lemma_multiply_divide_lt;

verus! {

/// Scale factor for unit-magnitude quantities (quaternion components,
/// sines/cosines, eccentricity): a stored value `v` stands for `v / SCALE`.
pub const SCALE: i64 = 1_000_000_000;

/// Division rounded to the nearest integer, ties away from zero
/// (the rounding used everywhere in this crate).  Meaningful for `d > 0`.
pub open spec fn rdiv(n: int, d: int) -> int {
    if n >= 0 {
        (n + d / 2) / d
    } else {
        -(((-n) + d / 2) / d)
    }
}

/// Clamp an integer into the `i64` range.
pub open spec fn sat_i64(x: int) -> int {
    if x > i64::MAX {
        i64::MAX as int
    } else if x < i64::MIN {
        i64::MIN as int
    } else {
        x
    }
}

/// Clamp an integer into the range `[-m, m]`.
pub open spec fn clamp_mag(x: int, m: int) -> int {
    if x > m {
        m
    } else if x < -m {
        -m
    } else {
        x
    }
}

/// Absolute value.
pub open spec fn iabs(x: int) -> int {
    if x >= 0 {
        x
    } else {
        -x
    }
}

/// Half of a positive divisor: `0 <= d/2 < d` and `2 * (d/2)` is `d` or `d - 1`.
proof fn lemma_half(d: int)
    requires
        d > 0,
    ensures
        0 <= d / 2 < d,
        2 * (d / 2) <= d <= 2 * (d / 2) + 1,
{
    lemma_fundamental_div_mod(d, 2);
    lemma_mod_division_less_than_divisor(d, 2);
    lemma_div_pos_is_pos(d, 2);
}

/// Nonnegative rounded division `(n + d/2) / d` stays below `n + 1`.
proof fn lemma_round_quotient_small(n: int, d: int)
    requires
        n >= 0,
        d > 0,
    ensures
        0 <= (n + d / 2) / d <= n,
{
    let half = d / 2;
    lemma_half(d);
    assert(n + half < (n + 1) * d) by (nonlinear_arith)
        requires
            n >= 0,
            d > 0,
            half < d;
    lemma_multiply_divide_lt(n + half, d, n + 1);
    lemma_div_pos_is_pos(n + half, d);
}

/// Rounded division of `i128` values by a positive divisor.
pub fn rdiv_i128(n: i128, d: i128) -> (r: i128)
    requires
        d > 0,
        n > i128::MIN,
    ensures
        r == rdiv(n as int, d as int),
{
    let half: u128 = (d as u128) / 2;
    if n >= 0 {
        proof {
            lemma_round_quotient_small(n as int, d as int);
        }
        let q: u128 = ((n as u128) + half) / (d as u128);
        q as i128
    } else {
        proof {
            lemma_round_quotient_small(-n as int, d as int);
        }
        let mag: u128 = (-n) as u128;
        let q: u128 = (mag + half) / (d as u128);
        let qi: i128 = q as i128;
        -qi
    }
}

/// Saturate an `i128` into `i64`.
pub fn sat64(x: i128) -> (r: i64)
    ensures
        r == sat_i64(x as int),
{
    if x > i64::MAX as i128 {
        i64::MAX
    } else if x < i64::MIN as i128 {
        i64::MIN
    } else {
        x as i64
    }
}

/// Clamp an `i128` into `[-m, m]` for a nonnegative bound `m`.
pub fn clamp128(x: i128, m: i128) -> (r: i128)
    requires
        m >= 0,
    ensures
        r == clamp_mag(x as int, m as int),
{
    if x > m {
        m
    } else if x < -m {
        -m
    } else {
        x
    }
}

/// `r` is the integer square root of `n`: the largest integer whose square
/// does not exceed `n`.
pub open spec fn is_floor_sqrt(n: int, r: int) -> bool {
    0 <= r && r * r <= n && n < (r + 1) * (r + 1)
}

/// The integer square root of `n`, as a spec-level value.
pub open spec fn spec_sqrt(n: int) -> int {
    choose|r: int| is_floor_sqrt(n, r)
}

/// The integer square root is unique: any witness equals `spec_sqrt`.
pub proof fn lemma_sqrt_unique(n: int, r: int)
    requires
        is_floor_sqrt(n, r),
    ensures
        spec_sqrt(n) == r,
{
    assert(is_floor_sqrt(n, spec_sqrt(n)));
    let s = spec_sqrt(n);
    assert(s == r) by (nonlinear_arith)
        requires
            0 <= s,
            0 <= r,
            s * s <= n,
            n < (s + 1) * (s + 1),
            r * r <= n,
            n < (r + 1) * (r + 1);
}

/// Bound on a product from bounds on its factors.
pub proof fn lemma_mul_bound(a: int, b: int, ma: int, mb: int)
    requires
        iabs(a) <= ma,
        iabs(b) <= mb,
    ensures
        iabs(a * b) <= ma * mb,
{
    assert(-(ma * mb) <= a * b <= ma * mb) by (nonlinear_arith)
        requires
            -ma <= a <= ma,
            -mb <= b <= mb,
            0 <= ma,
            0 <= mb;
}

/// Integer square root: the largest `r` with `r * r <= x`.
pub fn isqrt(x: u128) -> (r: u128)
    ensures
        r * r <= x,
        (r + 1) * (r + 1) > x,
        r < 0x1_0000_0000_0000_0000,
        r == spec_sqrt(x as int),
{
    let mut lo: u128 = 0;
    let mut hi: u128 = 0x1_0000_0000_0000_0000;
    assert(hi * hi > x) by (nonlinear_arith)
        requires
            hi == 0x1_0000_0000_0000_0000u128,
            x <= u128::MAX,
    ;
    while hi - lo > 1
        invariant
            lo < hi <= 0x1_0000_0000_0000_0000,
            lo * lo <= x,
            hi * hi > x,
        decreases hi - lo,
    {
        let mid: u128 = lo + (hi - lo) / 2;
        assert(lo < mid < hi);
        proof {
            assert(mid * mid < 0x1_0000_0000_0000_0000 * 0x1_0000_0000_0000_0000)
                by (nonlinear_arith)
                requires
                    0 <= mid < 0x1_0000_0000_0000_0000u128;
        }
        let sq: u128 = mid * mid;
        if sq <= x {
            lo = mid;
        } else {
            hi = mid;
        }
    }
    proof {
        lemma_sqrt_unique(x as int, lo as int);
    }
    lo
}

/// Fixed-point product: multiply two scaled values and rescale by `SCALE`,
/// rounding to nearest.  When one factor is at most `SCALE` in magnitude the
/// result is no larger in magnitude than the other factor.
pub fn fxmul(a: i128, b: i128) -> (r: i128)
    requires
        iabs(a as int) <= 1_000_000_000_000_000,
        iabs(b as int) <= 1_000_000_000_000_000,
    ensures
        r == rdiv(a * b, SCALE as int),
        iabs(b as int) <= SCALE ==> iabs(r as int) <= iabs(a as int),
        iabs(a as int) <= SCALE ==> iabs(r as int) <= iabs(b as int),
{
    proof {
        let aa = iabs(a as int);
        let bb = iabs(b as int);
        assert(-aa <= a <= aa && -bb <= b <= bb);
        assert(-(aa * bb) <= a * b <= aa * bb) by (nonlinear_arith)
            requires
                -aa <= a <= aa,
                -bb <= b <= bb,
                0 <= aa,
                0 <= bb;
        assert(aa * bb <= 1_000_000_000_000_000 * 1_000_000_000_000_000)
            by (nonlinear_arith)
            requires
                0 <= aa <= 1_000_000_000_000_000,
                0 <= bb <= 1_000_000_000_000_000;
        if bb <= SCALE {
            assert(aa * bb <= aa * (SCALE as int)) by (nonlinear_arith)
                requires
                    0 <= aa,
                    0 <= bb <= SCALE;
            lemma_rdiv_bound(a * b, SCALE as int, aa);
        }
        if aa <= SCALE {
            assert(aa * bb <= bb * (SCALE as int)) by (nonlinear_arith)
                requires
                    0 <= bb,
                    0 <= aa <= SCALE;
            lemma_rdiv_bound(a * b, SCALE as int, bb);
        }
    }
    rdiv_i128(a * b, SCALE as i128)
}

/// The quotient `rdiv(n, d)` is no larger in magnitude than `k` when
/// `|n| <= k * d`.
pub proof fn lemma_rdiv_bound(n: int, d: int, k: int)
    requires
        d > 0,
        k >= 0,
        iabs(n) <= k * d,
    ensures
        iabs(rdiv(n, d)) <= k,
{
    let half = d / 2;
    lemma_half(d);
    if n >= 0 {
        assert(n + half < (k + 1) * d) by (nonlinear_arith)
            requires
                n <= k * d,
                half < d;
        lemma_multiply_divide_lt(n + half, d, k + 1);
        lemma_div_pos_is_pos(n + half, d);
    } else {
        assert((-n) + half < (k + 1) * d) by (nonlinear_arith)
            requires
                -n <= k * d,
                half < d;
        lemma_multiply_divide_lt((-n) + half, d, k + 1);
        lemma_div_pos_is_pos((-n) + half, d);
    }
}

/// Rounded division of a nonnegative value by a positive divisor is
/// nonnegative.
pub proof fn lemma_rdiv_nonneg(n: int, d: int)
    requires
        n >= 0,
        d > 0,
    ensures
        rdiv(n, d) >= 0,
{
    lemma_half(d);
    lemma_div_pos_is_pos(n + d / 2, d);
}

/// Rounded division of zero is zero.
pub proof fn lemma_rdiv_zero(d: int)
    requires
        d > 0,
    ensures
        rdiv(0, d) == 0,
{
    lemma_half(d);
    vstd::arithmetic::div_mod::lemma_basic_div(d / 2, d);
}

/// Rounded division recovers an exact quotient: `rdiv(a * d, d) == a`.
pub proof fn lemma_rdiv_exact(a: int, d: int)
    requires
        d > 0,
    ensures
        rdiv(a * d, d) == a,
{
    let half = d / 2;
    lemma_half(d);
    if a >= 0 {
        assert(a * d >= 0) by (nonlinear_arith)
            requires
                a >= 0,
                d > 0;
        assert(a * d + half == d * a + half) by (nonlinear_arith);
        lemma_div_multiples_vanish_fancy(a, half, d);
    } else {
        assert((-(a * d)) == (-a) * d) by (nonlinear_arith);
        assert(a * d < 0) by (nonlinear_arith)
            requires
                a < 0,
                d > 0;
        assert((-a) * d + half == d * (-a) + half) by (nonlinear_arith);
        lemma_div_multiples_vanish_fancy(-a, half, d);
    }
}

/// `rdiv` approximates the true quotient to within half a divisor:
/// `|rdiv(n, d) * d - n| * 2 <= d + 1`.
pub proof fn lemma_rdiv_error(n: int, d: int)
    requires
        d > 0,
    ensures
        iabs(rdiv(n, d) * d - n) * 2 <= d + 1,
{
    let half = d / 2;
    lemma_half(d);
    if n >= 0 {
        let q = (n + half) / d;
        lemma_fundamental_div_mod(n + half, d);
        lemma_mod_division_less_than_divisor(n + half, d);
        let r = (n + half) % d;
        assert(q * d - n == half - r) by (nonlinear_arith)
            requires
                n + half == d * q + r;
        assert(iabs(half - r) * 2 <= d + 1);
    } else {
        let m = -n;
        let q = (m + half) / d;
        lemma_fundamental_div_mod(m + half, d);
        lemma_mod_division_less_than_divisor(m + half, d);
        let r = (m + half) % d;
        assert((-q) * d - n == r - half) by (nonlinear_arith)
            requires
                m + half == d * q + r,
                m == -n,
        ;
        assert(iabs(r - half) * 2 <= d + 1);
    }
}

} // verus!
