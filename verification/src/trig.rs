//! Fixed-point sine and cosine on angles in nano-radians.
//!
//! The argument is reduced modulo a full turn, folded into the first eighth
//! of the circle by the usual symmetries, and evaluated there by a truncated
//! Taylor polynomial in `SCALE`-scaled fixed point.  The executable functions
//! return exactly the value of their spec mirrors, clamped to `[-SCALE,
//! SCALE]`.

use vstd::prelude::*;
use crate::num::SCALE;
use crate::num::clamp_mag;
use crate::num::iabs;
use crate::num::rdiv;
use crate::num::clamp128;
use crate::num::fxmul;
use crate::num::rdiv_i128;
use vstd::arithmetic::div_mod::lemma_mod_division_less_than_divisor;

verus! {

/// One full turn (2π) in nano-radians, rounded to the nearest integer.
pub const TAU_NANO: i64 = 6_283_185_307;

/// Half a turn (π) in nano-radians, rounded to the nearest integer.
pub const HALF_TAU_NANO: i64 = 3_141_592_654;

/// A quarter turn (π/2) in nano-radians, rounded to the nearest integer.
pub const QUARTER_TAU_NANO: i64 = 1_570_796_327;

/// An eighth of a turn (π/4) in nano-radians, rounded to the nearest integer.
pub const EIGHTH_TAU_NANO: i64 = 785_398_163;

/// Taylor polynomial for sine on `[0, π/4]`, in `SCALE`-scaled fixed point.
#[verifier::opaque]
pub open spec fn spec_sin_core(x: int) -> int {
    let s = SCALE as int;
    let x2 = rdiv(x * x, s);
    let t3 = rdiv(x * x2, s);
    let t5 = rdiv(t3 * x2, s);
    let t7 = rdiv(t5 * x2, s);
    let t9 = rdiv(t7 * x2, s);
    let t11 = rdiv(t9 * x2, s);
    x - rdiv(t3, 6) + rdiv(t5, 120) - rdiv(t7, 5040) + rdiv(t9, 362880) - rdiv(
        t11,
        39916800,
    )
}

/// Taylor polynomial for cosine on `[0, π/4]`, in `SCALE`-scaled fixed point.
#[verifier::opaque]
pub open spec fn spec_cos_core(x: int) -> int {
    let s = SCALE as int;
    let x2 = rdiv(x * x, s);
    let t4 = rdiv(x2 * x2, s);
    let t6 = rdiv(t4 * x2, s);
    let t8 = rdiv(t6 * x2, s);
    let t10 = rdiv(t8 * x2, s);
    s - rdiv(x2, 2) + rdiv(t4, 24) - rdiv(t6, 720) + rdiv(t8, 40320) - rdiv(
        t10,
        3628800,
    )
}

/// Sine on the first quarter turn, folded onto the first eighth.
#[verifier::opaque]
pub open spec fn spec_sin_quarter(r: int) -> int {
    if r > EIGHTH_TAU_NANO {
        spec_cos_core(QUARTER_TAU_NANO - r)
    } else {
        spec_sin_core(r)
    }
}

/// Sine on the first half turn, folded onto the first quarter.
#[verifier::opaque]
pub open spec fn spec_sin_half(r: int) -> int {
    if r > QUARTER_TAU_NANO {
        spec_sin_quarter(HALF_TAU_NANO - r)
    } else {
        spec_sin_quarter(r)
    }
}

/// Sine on one reduced turn `[0, TAU_NANO)`.
#[verifier::opaque]
pub open spec fn spec_sin_reduced(r: int) -> int {
    if r >= HALF_TAU_NANO {
        -spec_sin_half(r - HALF_TAU_NANO)
    } else {
        spec_sin_half(r)
    }
}

/// Sine of an arbitrary angle in nano-radians, clamped to `[-SCALE, SCALE]`.
pub open spec fn spec_sin_nano(x: int) -> int {
    clamp_mag(spec_sin_reduced(x % (TAU_NANO as int)), SCALE as int)
}

/// Cosine of an arbitrary angle in nano-radians, clamped to `[-SCALE, SCALE]`:
/// the sine a quarter turn ahead.
pub open spec fn spec_cos_nano(x: int) -> int {
    let r0 = x % (TAU_NANO as int);
    let r = if r0 + QUARTER_TAU_NANO >= TAU_NANO {
        r0 + QUARTER_TAU_NANO - TAU_NANO
    } else {
        r0 + QUARTER_TAU_NANO
    };
    clamp_mag(spec_sin_reduced(r), SCALE as int)
}

/// Evaluate the sine polynomial on `[0, π/4]`.
fn sin_core(x: i64) -> (r: i128)
    requires
        0 <= x <= EIGHTH_TAU_NANO + 1,
    ensures
        r == spec_sin_core(x as int),
        iabs(r as int) <= 5_000_000_000,
{
    proof {
        reveal(spec_sin_core);
    }
    let xw: i128 = x as i128;
    let x2: i128 = fxmul(xw, xw);
    let t3: i128 = fxmul(xw, x2);
    let t5: i128 = fxmul(t3, x2);
    let t7: i128 = fxmul(t5, x2);
    let t9: i128 = fxmul(t7, x2);
    let t11: i128 = fxmul(t9, x2);
    let r: i128 = xw - rdiv_i128(t3, 6) + rdiv_i128(t5, 120) - rdiv_i128(t7, 5040) + rdiv_i128(
        t9,
        362880,
    ) - rdiv_i128(t11, 39916800);
    proof {
        crate::num::lemma_rdiv_bound(t3 as int, 6, iabs(t3 as int));
        crate::num::lemma_rdiv_bound(t5 as int, 120, iabs(t5 as int));
        crate::num::lemma_rdiv_bound(t7 as int, 5040, iabs(t7 as int));
        crate::num::lemma_rdiv_bound(t9 as int, 362880, iabs(t9 as int));
        crate::num::lemma_rdiv_bound(t11 as int, 39916800, iabs(t11 as int));
    }
    r
}

/// Evaluate the cosine polynomial on `[0, π/4]`.
fn cos_core(x: i64) -> (r: i128)
    requires
        0 <= x <= EIGHTH_TAU_NANO + 1,
    ensures
        r == spec_cos_core(x as int),
        iabs(r as int) <= 5_000_000_000,
{
    proof {
        reveal(spec_cos_core);
    }
    let s: i128 = SCALE as i128;
    let xw: i128 = x as i128;
    let x2: i128 = fxmul(xw, xw);
    let t4: i128 = fxmul(x2, x2);
    let t6: i128 = fxmul(t4, x2);
    let t8: i128 = fxmul(t6, x2);
    let t10: i128 = fxmul(t8, x2);
    let r: i128 = s - rdiv_i128(x2, 2) + rdiv_i128(t4, 24) - rdiv_i128(t6, 720) + rdiv_i128(
        t8,
        40320,
    ) - rdiv_i128(t10, 3628800);
    proof {
        crate::num::lemma_rdiv_bound(x2 as int, 2, iabs(x2 as int));
        crate::num::lemma_rdiv_bound(t4 as int, 24, iabs(t4 as int));
        crate::num::lemma_rdiv_bound(t6 as int, 720, iabs(t6 as int));
        crate::num::lemma_rdiv_bound(t8 as int, 40320, iabs(t8 as int));
        crate::num::lemma_rdiv_bound(t10 as int, 3628800, iabs(t10 as int));
    }
    r
}

/// Sine on a reduced angle in `[0, TAU_NANO)`.
fn sin_reduced(r: i64) -> (out: i128)
    requires
        0 <= r < TAU_NANO,
    ensures
        out == spec_sin_reduced(r as int),
        iabs(out as int) <= 5_000_000_000,
{
    proof {
        reveal(spec_sin_reduced);
        reveal(spec_sin_half);
        reveal(spec_sin_quarter);
    }
    if r >= HALF_TAU_NANO {
        let h: i64 = r - HALF_TAU_NANO;
        let v: i128 = if h > QUARTER_TAU_NANO {
            let q: i64 = HALF_TAU_NANO - h;
            if q > EIGHTH_TAU_NANO {
                cos_core(QUARTER_TAU_NANO - q)
            } else {
                sin_core(q)
            }
        } else {
            if h > EIGHTH_TAU_NANO {
                cos_core(QUARTER_TAU_NANO - h)
            } else {
                sin_core(h)
            }
        };
        -v
    } else {
        if r > QUARTER_TAU_NANO {
            let q: i64 = HALF_TAU_NANO - r;
            if q > EIGHTH_TAU_NANO {
                cos_core(QUARTER_TAU_NANO - q)
            } else {
                sin_core(q)
            }
        } else {
            if r > EIGHTH_TAU_NANO {
                cos_core(QUARTER_TAU_NANO - r)
            } else {
                sin_core(r)
            }
        }
    }
}

/// Sine of an angle in nano-radians; the result is `SCALE`-scaled and lies in
/// `[-SCALE, SCALE]`.
pub fn sin_nano(x: i64) -> (r: i64)
    ensures
        r == spec_sin_nano(x as int),
        -SCALE <= r <= SCALE,
{
    let red: i64 = match x.checked_rem_euclid(TAU_NANO) {
        Some(v) => v,
        None => 0,
    };
    proof {
        lemma_mod_division_less_than_divisor(x as int, TAU_NANO as int);
    }
    let v: i128 = sin_reduced(red);
    let c: i128 = clamp128(v, SCALE as i128);
    c as i64
}

/// Cosine of an angle in nano-radians; the result is `SCALE`-scaled and lies
/// in `[-SCALE, SCALE]`.
pub fn cos_nano(x: i64) -> (r: i64)
    ensures
        r == spec_cos_nano(x as int),
        -SCALE <= r <= SCALE,
{
    let red: i64 = match x.checked_rem_euclid(TAU_NANO) {
        Some(v) => v,
        None => 0,
    };
    proof {
        lemma_mod_division_less_than_divisor(x as int, TAU_NANO as int);
    }
    let shifted: i64 = if red + QUARTER_TAU_NANO >= TAU_NANO {
        red + QUARTER_TAU_NANO - TAU_NANO
    } else {
        red + QUARTER_TAU_NANO
    };
    let v: i128 = sin_reduced(shifted);
    let c: i128 = clamp128(v, SCALE as i128);
    c as i64
}

} // verus!
