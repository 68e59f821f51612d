//! Quaternions in `SCALE`-scaled fixed point.
//!
//! A rotation is a quaternion whose components are `i64` values standing for
//! multiples of `1 / SCALE`; the identity is `(0, 0, 0, SCALE)`.  Products
//! are rescaled with round-to-nearest division, and `normalize` restores the
//! unit bound after composition.

use vstd::prelude::*;
use crate::num::SCALE;
use crate::num::iabs;
use crate::num::rdiv;
use crate::num::sat_i64;
use crate::num::spec_sqrt;
use crate::num::isqrt;
use crate::num::lemma_mul_bound;
use crate::num::lemma_rdiv_bound;
use crate::num::rdiv_i128;
use crate::num::sat64;
use crate::trig::spec_cos_nano;
use crate::trig::spec_sin_nano;
use crate::trig::cos_nano;
use crate::trig::sin_nano;
use crate::vec3::IVec3;

verus! {

/// A `SCALE`-scaled quaternion `x*i + y*j + z*k + w`.
#[derive(Clone, Copy, Debug, PartialEq, Eq, Structural)]
pub struct Quat {
    pub x: i64,
    pub y: i64,
    pub z: i64,
    pub w: i64,
}

/// All four components are bounded by `m` in magnitude.
pub open spec fn quat_bounded(q: Quat, m: int) -> bool {
    iabs(q.x as int) <= m && iabs(q.y as int) <= m && iabs(q.z as int) <= m && iabs(
        q.w as int,
    ) <= m
}

/// The `x` component of the Hamilton product, before rescaling.
pub open spec fn qmul_x(a: Quat, b: Quat) -> int {
    a.w * b.x + a.x * b.w + a.y * b.z - a.z * b.y
}

/// The `y` component of the Hamilton product, before rescaling.
pub open spec fn qmul_y(a: Quat, b: Quat) -> int {
    a.w * b.y - a.x * b.z + a.y * b.w + a.z * b.x
}

/// The `z` component of the Hamilton product, before rescaling.
pub open spec fn qmul_z(a: Quat, b: Quat) -> int {
    a.w * b.z + a.x * b.y - a.y * b.x + a.z * b.w
}

/// The `w` component of the Hamilton product, before rescaling.
pub open spec fn qmul_w(a: Quat, b: Quat) -> int {
    a.w * b.w - a.x * b.x - a.y * b.y - a.z * b.z
}

/// The squared norm of a quaternion, in units of `SCALE * SCALE`.
pub open spec fn qnorm2(q: Quat) -> int {
    q.x * q.x + q.y * q.y + q.z * q.z + q.w * q.w
}

/// Largest component magnitude accepted by `mul` and `normalize`.
pub const QMUL_MAX: i64 = 40_000_000_000_000;

/// Bound on the rescaled Hamilton product from bounds on its factors:
/// when `4 * ma * mb <= k * SCALE`, each product component is at most `k`.
pub proof fn lemma_qmul_bound(a: Quat, b: Quat, ma: int, mb: int, k: int)
    requires
        quat_bounded(a, ma),
        quat_bounded(b, mb),
        0 <= ma,
        0 <= mb,
        0 <= k,
        4 * (ma * mb) <= k * SCALE,
    ensures
        iabs(qmul_x(a, b)) <= 4 * (ma * mb),
        iabs(qmul_y(a, b)) <= 4 * (ma * mb),
        iabs(qmul_z(a, b)) <= 4 * (ma * mb),
        iabs(qmul_w(a, b)) <= 4 * (ma * mb),
        iabs(rdiv(qmul_x(a, b), SCALE as int)) <= k,
        iabs(rdiv(qmul_y(a, b), SCALE as int)) <= k,
        iabs(rdiv(qmul_z(a, b), SCALE as int)) <= k,
        iabs(rdiv(qmul_w(a, b), SCALE as int)) <= k,
{
    lemma_mul_bound(a.w as int, b.x as int, ma, mb);
    lemma_mul_bound(a.x as int, b.w as int, ma, mb);
    lemma_mul_bound(a.y as int, b.z as int, ma, mb);
    lemma_mul_bound(a.z as int, b.y as int, ma, mb);
    lemma_mul_bound(a.w as int, b.y as int, ma, mb);
    lemma_mul_bound(a.x as int, b.z as int, ma, mb);
    lemma_mul_bound(a.y as int, b.w as int, ma, mb);
    lemma_mul_bound(a.z as int, b.x as int, ma, mb);
    lemma_mul_bound(a.w as int, b.z as int, ma, mb);
    lemma_mul_bound(a.x as int, b.y as int, ma, mb);
    lemma_mul_bound(a.y as int, b.x as int, ma, mb);
    lemma_mul_bound(a.z as int, b.w as int, ma, mb);
    lemma_mul_bound(a.w as int, b.w as int, ma, mb);
    lemma_mul_bound(a.x as int, b.x as int, ma, mb);
    lemma_mul_bound(a.y as int, b.y as int, ma, mb);
    lemma_mul_bound(a.z as int, b.z as int, ma, mb);
    lemma_rdiv_bound(qmul_x(a, b), SCALE as int, k);
    lemma_rdiv_bound(qmul_y(a, b), SCALE as int, k);
    lemma_rdiv_bound(qmul_z(a, b), SCALE as int, k);
    lemma_rdiv_bound(qmul_w(a, b), SCALE as int, k);
}

/// The quaternion of a rotation about the `x` axis, as a spec value.
pub open spec fn q_from_x(angle: int) -> Quat {
    Quat {
        x: spec_sin_nano(rdiv(angle, 2)) as i64,
        y: 0,
        z: 0,
        w: spec_cos_nano(rdiv(angle, 2)) as i64,
    }
}

/// The quaternion of a rotation about the `z` axis, as a spec value.
pub open spec fn q_from_z(angle: int) -> Quat {
    Quat {
        x: 0,
        y: 0,
        z: spec_sin_nano(rdiv(angle, 2)) as i64,
        w: spec_cos_nano(rdiv(angle, 2)) as i64,
    }
}

impl Quat {
    /// The identity rotation.
    pub fn identity() -> (r: Quat)
        ensures
            r == (Quat { x: 0, y: 0, z: 0, w: SCALE }),
            quat_bounded(r, SCALE as int),
    {
        Quat { x: 0, y: 0, z: 0, w: SCALE }
    }

    /// The conjugate (inverse of a unit quaternion).
    pub fn conjugate(self) -> (r: Quat)
        requires
            quat_bounded(self, QMUL_MAX as int),
        ensures
            r == q_conj(self),
            r.x == -self.x && r.y == -self.y && r.z == -self.z && r.w == self.w,
            quat_bounded(self, SCALE as int) ==> quat_bounded(r, SCALE as int),
    {
        Quat { x: -self.x, y: -self.y, z: -self.z, w: self.w }
    }

    /// Hamilton product, rescaled by `SCALE` with rounding to nearest.
    pub fn mul(self, other: Quat) -> (r: Quat)
        requires
            quat_bounded(self, QMUL_MAX as int),
            quat_bounded(other, QMUL_MAX as int),
        ensures
            r == q_mul(self, other),
            r.x == rdiv(qmul_x(self, other), SCALE as int),
            r.y == rdiv(qmul_y(self, other), SCALE as int),
            r.z == rdiv(qmul_z(self, other), SCALE as int),
            r.w == rdiv(qmul_w(self, other), SCALE as int),
            quat_bounded(r, 6_400_000_000_000_000_000),
    {
        let s: i128 = SCALE as i128;
        let (ax, ay, az, aw): (i128, i128, i128, i128) = (
            self.x as i128,
            self.y as i128,
            self.z as i128,
            self.w as i128,
        );
        let (bx, by, bz, bw): (i128, i128, i128, i128) = (
            other.x as i128,
            other.y as i128,
            other.z as i128,
            other.w as i128,
        );
        proof {
            lemma_qmul_bound(self, other, QMUL_MAX as int, QMUL_MAX as int, 6_400_000_000_000_000_000);
            let m = QMUL_MAX as int;
            assert(m * m == 0x52b7d2dcc80cd2e40000000) by (nonlinear_arith)
                requires
                    m == 40_000_000_000_000;
            lemma_mul_bound(aw as int, bx as int, m, m);
            lemma_mul_bound(ax as int, bw as int, m, m);
            lemma_mul_bound(ay as int, bz as int, m, m);
            lemma_mul_bound(az as int, by as int, m, m);
            lemma_mul_bound(aw as int, by as int, m, m);
            lemma_mul_bound(ax as int, bz as int, m, m);
            lemma_mul_bound(ay as int, bw as int, m, m);
            lemma_mul_bound(az as int, bx as int, m, m);
            lemma_mul_bound(aw as int, bz as int, m, m);
            lemma_mul_bound(ax as int, by as int, m, m);
            lemma_mul_bound(ay as int, bx as int, m, m);
            lemma_mul_bound(az as int, bw as int, m, m);
            lemma_mul_bound(aw as int, bw as int, m, m);
            lemma_mul_bound(ax as int, bx as int, m, m);
            lemma_mul_bound(ay as int, by as int, m, m);
            lemma_mul_bound(az as int, bz as int, m, m);
        }
        let rx: i128 = rdiv_i128(aw * bx + ax * bw + ay * bz - az * by, s);
        let ry: i128 = rdiv_i128(aw * by - ax * bz + ay * bw + az * bx, s);
        let rz: i128 = rdiv_i128(aw * bz + ax * by - ay * bx + az * bw, s);
        let rw: i128 = rdiv_i128(aw * bw - ax * bx - ay * by - az * bz, s);
        Quat { x: rx as i64, y: ry as i64, z: rz as i64, w: rw as i64 }
    }

    /// Rescale to unit norm (components at most `SCALE`); a zero quaternion
    /// normalizes to the identity.
    pub fn normalize(self) -> (r: Quat)
        requires
            quat_bounded(self, QMUL_MAX as int),
        ensures
            r == Quat::spec_normalize(self),
            qnorm2(self) == 0 ==> r == (Quat { x: 0, y: 0, z: 0, w: SCALE }),
            qnorm2(self) != 0 ==> {
                let n = spec_sqrt(qnorm2(self));
                r.x == rdiv(self.x * SCALE, n) && r.y == rdiv(self.y * SCALE, n) && r.z == rdiv(
                    self.z * SCALE,
                    n,
                ) && r.w == rdiv(self.w * SCALE, n)
            },
            quat_bounded(r, SCALE as int),
    {
        let (qx, qy, qz, qw): (i128, i128, i128, i128) = (
            self.x as i128,
            self.y as i128,
            self.z as i128,
            self.w as i128,
        );
        proof {
            let m = QMUL_MAX as int;
            assert(m * m == 0x52b7d2dcc80cd2e40000000) by (nonlinear_arith)
                requires
                    m == 40_000_000_000_000;
            lemma_mul_bound(qx as int, qx as int, m, m);
            lemma_mul_bound(qy as int, qy as int, m, m);
            lemma_mul_bound(qz as int, qz as int, m, m);
            lemma_mul_bound(qw as int, qw as int, m, m);
            assert(qx * qx >= 0 && qy * qy >= 0 && qz * qz >= 0 && qw * qw >= 0)
                by (nonlinear_arith);
        }
        let n2: i128 = qx * qx + qy * qy + qz * qz + qw * qw;
        if n2 == 0 {
            Quat { x: 0, y: 0, z: 0, w: SCALE }
        } else {
            let n: u128 = isqrt(n2 as u128);
            proof {
                assert(n >= 1) by (nonlinear_arith)
                    requires
                        n2 >= 1,
                        (n as int + 1) * (n as int + 1) > n2 as int,
                        n >= 0;
                let nn = n as int;
                assert forall|c: int| c * c <= n2 as int implies iabs(c) <= nn by {
                    assert(iabs(c) <= nn) by (nonlinear_arith)
                        requires
                            c * c <= n2 as int,
                            nn * nn <= n2 as int,
                            (nn + 1) * (nn + 1) > n2 as int,
                            nn >= 0;
                }
                assert(qx * qx <= n2 as int && qy * qy <= n2 as int && qz * qz <= n2 as int && qw
                    * qw <= n2 as int) by (nonlinear_arith)
                    requires
                        qx * qx >= 0,
                        qy * qy >= 0,
                        qz * qz >= 0,
                        qw * qw >= 0,
                        n2 == qx * qx + qy * qy + qz * qz + qw * qw;
                lemma_mul_bound(qx as int, SCALE as int, iabs(qx as int), SCALE as int);
                lemma_mul_bound(qy as int, SCALE as int, iabs(qy as int), SCALE as int);
                lemma_mul_bound(qz as int, SCALE as int, iabs(qz as int), SCALE as int);
                lemma_mul_bound(qw as int, SCALE as int, iabs(qw as int), SCALE as int);
                assert(iabs(qx as int) * (SCALE as int) <= nn * (SCALE as int))
                    by (nonlinear_arith)
                    requires
                        iabs(qx as int) <= nn,
                        SCALE > 0;
                assert(iabs(qy as int) * (SCALE as int) <= nn * (SCALE as int))
                    by (nonlinear_arith)
                    requires
                        iabs(qy as int) <= nn,
                        SCALE > 0;
                assert(iabs(qz as int) * (SCALE as int) <= nn * (SCALE as int))
                    by (nonlinear_arith)
                    requires
                        iabs(qz as int) <= nn,
                        SCALE > 0;
                assert(iabs(qw as int) * (SCALE as int) <= nn * (SCALE as int))
                    by (nonlinear_arith)
                    requires
                        iabs(qw as int) <= nn,
                        SCALE > 0;
                assert((SCALE as int) * nn == nn * (SCALE as int)) by (nonlinear_arith);
                lemma_rdiv_bound(qx as int * SCALE as int, nn, SCALE as int);
                lemma_rdiv_bound(qy as int * SCALE as int, nn, SCALE as int);
                lemma_rdiv_bound(qz as int * SCALE as int, nn, SCALE as int);
                lemma_rdiv_bound(qw as int * SCALE as int, nn, SCALE as int);
            }
            let ni: i128 = n as i128;
            let s: i128 = SCALE as i128;
            Quat {
                x: rdiv_i128(qx * s, ni) as i64,
                y: rdiv_i128(qy * s, ni) as i64,
                z: rdiv_i128(qz * s, ni) as i64,
                w: rdiv_i128(qw * s, ni) as i64,
            }
        }
    }

    /// Rotation about the `x` axis by an angle in nano-radians.
    pub fn from_rotation_x(angle: i64) -> (r: Quat)
        ensures
            r == q_from_x(angle as int),
            r.x == spec_sin_nano(rdiv(angle as int, 2)),
            r.y == 0,
            r.z == 0,
            r.w == spec_cos_nano(rdiv(angle as int, 2)),
            quat_bounded(r, SCALE as int),
    {
        let half: i64 = rdiv_i128(angle as i128, 2) as i64;
        proof {
            lemma_rdiv_bound(angle as int, 2, iabs(angle as int));
        }
        Quat { x: sin_nano(half), y: 0, z: 0, w: cos_nano(half) }
    }

    /// Rotation about the `z` axis by an angle in nano-radians.
    pub fn from_rotation_z(angle: i64) -> (r: Quat)
        ensures
            r == q_from_z(angle as int),
            r.x == 0,
            r.y == 0,
            r.z == spec_sin_nano(rdiv(angle as int, 2)),
            r.w == spec_cos_nano(rdiv(angle as int, 2)),
            quat_bounded(r, SCALE as int),
    {
        let half: i64 = rdiv_i128(angle as i128, 2) as i64;
        proof {
            lemma_rdiv_bound(angle as int, 2, iabs(angle as int));
        }
        Quat { x: 0, y: 0, z: sin_nano(half), w: cos_nano(half) }
    }
}

/// Rotation of a vector by a quaternion, computed as
/// `v + w*t + q_v x t` with `t = 2 * (q_v x v)`, each cross product rescaled
/// by `SCALE`; the result saturates into `i64`.
pub open spec fn q_rotate(q: Quat, v: IVec3) -> IVec3 {
    let s = SCALE as int;
    let tx = rdiv(2 * (q.y * v.z - q.z * v.y), s);
    let ty = rdiv(2 * (q.z * v.x - q.x * v.z), s);
    let tz = rdiv(2 * (q.x * v.y - q.y * v.x), s);
    IVec3 {
        x: sat_i64(v.x + rdiv(q.w * tx + (q.y * tz - q.z * ty), s)) as i64,
        y: sat_i64(v.y + rdiv(q.w * ty + (q.z * tx - q.x * tz), s)) as i64,
        z: sat_i64(v.z + rdiv(q.w * tz + (q.x * ty - q.y * tx), s)) as i64,
    }
}

/// Rotating the zero vector gives the zero vector, for any quaternion.
pub proof fn lemma_rotate_zero(q: Quat)
    ensures
        q_rotate(q, IVec3 { x: 0, y: 0, z: 0 }) == (IVec3 { x: 0, y: 0, z: 0 }),
{
    crate::num::lemma_rdiv_zero(SCALE as int);
    let v = IVec3 { x: 0, y: 0, z: 0 };
    assert(2 * (q.y * v.z - q.z * v.y) == 0 && 2 * (q.z * v.x - q.x * v.z) == 0 && 2 * (q.x * v.y
        - q.y * v.x) == 0) by (nonlinear_arith)
        requires
            v.x == 0 && v.y == 0 && v.z == 0;
    assert(q.w * 0 == 0 && q.x * 0 == 0 && q.y * 0 == 0 && q.z * 0 == 0) by (nonlinear_arith);
}

/// The conjugate, as a spec value (meaningful for bounded components).
pub open spec fn q_conj(q: Quat) -> Quat {
    Quat { x: (-q.x) as i64, y: (-q.y) as i64, z: (-q.z) as i64, w: q.w }
}

/// The rescaled Hamilton product, as a spec value (meaningful when the
/// rescaled components fit `i64`).
pub open spec fn q_mul(a: Quat, b: Quat) -> Quat {
    Quat {
        x: rdiv(qmul_x(a, b), SCALE as int) as i64,
        y: rdiv(qmul_y(a, b), SCALE as int) as i64,
        z: rdiv(qmul_z(a, b), SCALE as int) as i64,
        w: rdiv(qmul_w(a, b), SCALE as int) as i64,
    }
}

impl Quat {
    /// The normalized quaternion, as a spec value.
    pub open spec fn spec_normalize(q: Quat) -> Quat {
        if qnorm2(q) == 0 {
            Quat { x: 0, y: 0, z: 0, w: SCALE }
        } else {
            let n = spec_sqrt(qnorm2(q));
            Quat {
                x: rdiv(q.x * SCALE, n) as i64,
                y: rdiv(q.y * SCALE, n) as i64,
                z: rdiv(q.z * SCALE, n) as i64,
                w: rdiv(q.w * SCALE, n) as i64,
            }
        }
    }

    /// The exponential-map quaternion of a scaled axis, as a spec value.
    pub open spec fn spec_from_scaled_axis(v: IVec3) -> Quat {
        if v.x == 0 && v.y == 0 && v.z == 0 {
            Quat { x: 0, y: 0, z: 0, w: SCALE }
        } else {
            let angle = spec_sqrt(v.x * v.x + v.y * v.y + v.z * v.z);
            let half_sin = spec_sin_nano(rdiv(angle, 2));
            Quat {
                x: rdiv(rdiv(v.x * SCALE, angle) * half_sin, SCALE as int) as i64,
                y: rdiv(rdiv(v.y * SCALE, angle) * half_sin, SCALE as int) as i64,
                z: rdiv(rdiv(v.z * SCALE, angle) * half_sin, SCALE as int) as i64,
                w: spec_cos_nano(rdiv(angle, 2)) as i64,
            }
        }
    }

    /// Rotate a vector by this quaternion.
    pub fn rotate(self, v: IVec3) -> (r: IVec3)
        requires
            quat_bounded(self, 65 * SCALE),
        ensures
            r == q_rotate(self, v),
    {
        let s: i128 = SCALE as i128;
        let (qx, qy, qz, qw): (i128, i128, i128, i128) = (
            self.x as i128,
            self.y as i128,
            self.z as i128,
            self.w as i128,
        );
        let (vx, vy, vz): (i128, i128, i128) = (v.x as i128, v.y as i128, v.z as i128);
        proof {
            let m = 65 * SCALE as int;
            let b = 0x8000_0000_0000_0000int;
            lemma_mul_bound(qy as int, vz as int, m, b);
            lemma_mul_bound(qz as int, vy as int, m, b);
            lemma_mul_bound(qz as int, vx as int, m, b);
            lemma_mul_bound(qx as int, vz as int, m, b);
            lemma_mul_bound(qx as int, vy as int, m, b);
            lemma_mul_bound(qy as int, vx as int, m, b);
            assert(4 * (m * b) == (260 * b) * (SCALE as int)) by (nonlinear_arith)
                requires
                    m == 65 * SCALE as int;
            lemma_rdiv_bound(2 * (qy as int * vz as int - qz as int * vy as int), SCALE as int, 260 * b);
            lemma_rdiv_bound(2 * (qz as int * vx as int - qx as int * vz as int), SCALE as int, 260 * b);
            lemma_rdiv_bound(2 * (qx as int * vy as int - qy as int * vx as int), SCALE as int, 260 * b);
        }
        let tx: i128 = rdiv_i128(2 * (qy * vz - qz * vy), s);
        let ty: i128 = rdiv_i128(2 * (qz * vx - qx * vz), s);
        let tz: i128 = rdiv_i128(2 * (qx * vy - qy * vx), s);
        proof {
            let m = 65 * SCALE as int;
            let tb = 260 * 0x8000_0000_0000_0000int;
            lemma_mul_bound(qw as int, tx as int, m, tb);
            lemma_mul_bound(qw as int, ty as int, m, tb);
            lemma_mul_bound(qw as int, tz as int, m, tb);
            lemma_mul_bound(qy as int, tz as int, m, tb);
            lemma_mul_bound(qz as int, ty as int, m, tb);
            lemma_mul_bound(qz as int, tx as int, m, tb);
            lemma_mul_bound(qx as int, tz as int, m, tb);
            lemma_mul_bound(qx as int, ty as int, m, tb);
            lemma_mul_bound(qy as int, tx as int, m, tb);
        }
        let rx: i128 = rdiv_i128(qw * tx + (qy * tz - qz * ty), s);
        let ry: i128 = rdiv_i128(qw * ty + (qz * tx - qx * tz), s);
        let rz: i128 = rdiv_i128(qw * tz + (qx * ty - qy * tx), s);
        IVec3 { x: sat64(vx + rx), y: sat64(vy + ry), z: sat64(vz + rz) }
    }

    /// Rotation whose axis is the direction of `v` and whose angle, in
    /// nano-radians, is the length of `v` (the exponential map); the zero
    /// vector maps to the identity.
    pub fn from_scaled_axis(v: IVec3) -> (r: Quat)
        requires
            iabs(v.x as int) <= 1_000_000_000_000_000_000,
            iabs(v.y as int) <= 1_000_000_000_000_000_000,
            iabs(v.z as int) <= 1_000_000_000_000_000_000,
        ensures
            r == Quat::spec_from_scaled_axis(v),
            v.x == 0 && v.y == 0 && v.z == 0 ==> r == (Quat { x: 0, y: 0, z: 0, w: SCALE }),
            !(v.x == 0 && v.y == 0 && v.z == 0) ==> {
                let angle = spec_sqrt(v.x * v.x + v.y * v.y + v.z * v.z);
                let half_sin = spec_sin_nano(rdiv(angle, 2));
                r.x == rdiv(rdiv(v.x * SCALE, angle) * half_sin, SCALE as int) && r.y == rdiv(
                    rdiv(v.y * SCALE, angle) * half_sin,
                    SCALE as int,
                ) && r.z == rdiv(rdiv(v.z * SCALE, angle) * half_sin, SCALE as int) && r.w
                    == spec_cos_nano(rdiv(angle, 2))
            },
            quat_bounded(r, SCALE as int),
    {
        let (vx, vy, vz): (i128, i128, i128) = (v.x as i128, v.y as i128, v.z as i128);
        proof {
            let b = 1_000_000_000_000_000_000;
            lemma_mul_bound(vx as int, vx as int, b, b);
            lemma_mul_bound(vy as int, vy as int, b, b);
            lemma_mul_bound(vz as int, vz as int, b, b);
            assert(vx * vx >= 0 && vy * vy >= 0 && vz * vz >= 0) by (nonlinear_arith);
        }
        let n2: i128 = vx * vx + vy * vy + vz * vz;
        if n2 == 0 {
            proof {
                assert(v.x == 0 && v.y == 0 && v.z == 0) by (nonlinear_arith)
                    requires
                        vx * vx + vy * vy + vz * vz == 0,
                        vx * vx >= 0,
                        vy * vy >= 0,
                        vz * vz >= 0,
                        vx == v.x,
                        vy == v.y,
                        vz == v.z;
            }
            Quat { x: 0, y: 0, z: 0, w: SCALE }
        } else {
            let angle: u128 = isqrt(n2 as u128);
            proof {
                if v.x == 0 && v.y == 0 && v.z == 0 {
                    assert(vx * vx == 0 && vy * vy == 0 && vz * vz == 0) by (nonlinear_arith)
                        requires
                            vx == 0,
                            vy == 0,
                            vz == 0;
                }
                assert(angle >= 1) by (nonlinear_arith)
                    requires
                        n2 >= 1,
                        (angle as int + 1) * (angle as int + 1) > n2 as int,
                        angle >= 0;
                let nn = angle as int;
                assert(vx * vx <= n2 as int && vy * vy <= n2 as int && vz * vz <= n2 as int)
                    by (nonlinear_arith)
                    requires
                        vx * vx >= 0,
                        vy * vy >= 0,
                        vz * vz >= 0,
                        n2 == vx * vx + vy * vy + vz * vz;
                assert(iabs(vx as int) <= nn && iabs(vy as int) <= nn && iabs(vz as int) <= nn)
                    by (nonlinear_arith)
                    requires
                        vx * vx <= n2 as int,
                        vy * vy <= n2 as int,
                        vz * vz <= n2 as int,
                        nn * nn <= n2 as int,
                        (nn + 1) * (nn + 1) > n2 as int,
                        nn >= 0;
                lemma_mul_bound(vx as int, SCALE as int, nn, SCALE as int);
                lemma_mul_bound(vy as int, SCALE as int, nn, SCALE as int);
                lemma_mul_bound(vz as int, SCALE as int, nn, SCALE as int);
                assert(nn * (SCALE as int) == (SCALE as int) * nn) by (nonlinear_arith);
                lemma_rdiv_bound(vx as int * SCALE as int, nn, SCALE as int);
                lemma_rdiv_bound(vy as int * SCALE as int, nn, SCALE as int);
                lemma_rdiv_bound(vz as int * SCALE as int, nn, SCALE as int);
                lemma_mul_bound(vx as int, vx as int, 1_000_000_000_000_000_000, 1_000_000_000_000_000_000);
                lemma_mul_bound(vy as int, vy as int, 1_000_000_000_000_000_000, 1_000_000_000_000_000_000);
                lemma_mul_bound(vz as int, vz as int, 1_000_000_000_000_000_000, 1_000_000_000_000_000_000);
                assert(nn <= 1_800_000_000_000_000_000) by (nonlinear_arith)
                    requires
                        nn * nn <= n2 as int,
                        n2 as int <= 3 * (1_000_000_000_000_000_000 * 1_000_000_000_000_000_000),
                        nn >= 0;
                lemma_rdiv_bound(nn, 2, nn);
            }
            let s: i128 = SCALE as i128;
            let ai: i128 = angle as i128;
            let half: i64 = rdiv_i128(ai, 2) as i64;
            let hs: i64 = sin_nano(half);
            let hc: i64 = cos_nano(half);
            let ux: i128 = rdiv_i128(vx * s, ai);
            let uy: i128 = rdiv_i128(vy * s, ai);
            let uz: i128 = rdiv_i128(vz * s, ai);
            proof {
                lemma_mul_bound(ux as int, hs as int, SCALE as int, SCALE as int);
                lemma_mul_bound(uy as int, hs as int, SCALE as int, SCALE as int);
                lemma_mul_bound(uz as int, hs as int, SCALE as int, SCALE as int);
                assert((SCALE as int) * (SCALE as int) == (SCALE as int) * (SCALE as int));
                lemma_rdiv_bound(ux as int * hs as int, SCALE as int, SCALE as int);
                lemma_rdiv_bound(uy as int * hs as int, SCALE as int, SCALE as int);
                lemma_rdiv_bound(uz as int * hs as int, SCALE as int, SCALE as int);
            }
            Quat {
                x: rdiv_i128(ux * hs as i128, s) as i64,
                y: rdiv_i128(uy * hs as i128, s) as i64,
                z: rdiv_i128(uz * hs as i128, s) as i64,
                w: hc,
            }
        }
    }
}

} // verus!

