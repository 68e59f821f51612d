//! 3x3 integer matrices, row-major.
//!
//! Two families of values share the type: rotation matrices with entries
//! scaled by `SCALE`, and inertia tensors in physical units (gram square
//! meters).  Products that involve a rotation are rescaled by `SCALE`;
//! results saturate into `i64` component-wise.

use vstd::prelude::*;
use crate::num::SCALE;
use crate::num::iabs;
use crate::num::rdiv;
use crate::num::sat_i64;
use crate::num::lemma_mul_bound;
use crate::num::rdiv_i128;
use crate::num::sat64;
use crate::quat::Quat;
use crate::quat::quat_bounded;
use crate::vec3::IVec3;

verus! {

/// Scale of inverse-inertia entries: a stored value `v` stands for
/// `v * 1e-12` per gram square meter.
pub const INV_INERTIA_SCALE: i64 = 1_000_000_000_000;

/// Largest inertia-tensor entry magnitude accepted by `inverse_inertia`.
pub const INERTIA_MAX: i64 = 2_000_000_000_000;

/// A 3x3 matrix of 64-bit integers, row-major.
#[derive(Clone, Copy, Debug, PartialEq, Eq, Structural)]
pub struct Mat3 {
    pub xx: i64,
    pub xy: i64,
    pub xz: i64,
    pub yx: i64,
    pub yy: i64,
    pub yz: i64,
    pub zx: i64,
    pub zy: i64,
    pub zz: i64,
}

/// All nine entries are bounded by `m` in magnitude.
pub open spec fn mat_bounded(a: Mat3, m: int) -> bool {
    iabs(a.xx as int) <= m && iabs(a.xy as int) <= m && iabs(a.xz as int) <= m && iabs(
        a.yx as int,
    ) <= m && iabs(a.yy as int) <= m && iabs(a.yz as int) <= m && iabs(a.zx as int) <= m && iabs(
        a.zy as int,
    ) <= m && iabs(a.zz as int) <= m
}

/// Three-term dot product, unscaled.
pub open spec fn spec_dot3(a1: int, a2: int, a3: int, b1: int, b2: int, b3: int) -> int {
    a1 * b1 + a2 * b2 + a3 * b3
}

/// Division rounded to nearest that also accepts negative divisors.
pub open spec fn rdiv_s(n: int, d: int) -> int {
    if d >= 0 {
        rdiv(n, d)
    } else {
        rdiv(-n, -d)
    }
}

/// Determinant of a 3x3 matrix.
pub open spec fn spec_det(a: Mat3) -> int {
    a.xx * (a.yy * a.zz - a.yz * a.zy) - a.xy * (a.yx * a.zz - a.yz * a.zx) + a.xz * (a.yx * a.zy
        - a.yy * a.zx)
}

/// Rounded, saturated three-term dot product divided by `d`.
fn dot3s(a1: i64, a2: i64, a3: i64, b1: i64, b2: i64, b3: i64, d: i64) -> (r: i64)
    requires
        d > 0,
        iabs(a1 as int) <= 100_000_000_000_000_000,
        iabs(a2 as int) <= 100_000_000_000_000_000,
        iabs(a3 as int) <= 100_000_000_000_000_000,
        iabs(b1 as int) <= 100_000_000_000_000_000,
        iabs(b2 as int) <= 100_000_000_000_000_000,
        iabs(b3 as int) <= 100_000_000_000_000_000,
    ensures
        r == sat_i64(
            rdiv(
                spec_dot3(a1 as int, a2 as int, a3 as int, b1 as int, b2 as int, b3 as int),
                d as int,
            ),
        ),
{
    proof {
        let m = 100_000_000_000_000_000;
        lemma_mul_bound(a1 as int, b1 as int, m, m);
        lemma_mul_bound(a2 as int, b2 as int, m, m);
        lemma_mul_bound(a3 as int, b3 as int, m, m);
        assert(m * m == 0x1ed09bead87c0378d8e6400000000) by (nonlinear_arith)
            requires
                m == 100_000_000_000_000_000;
    }
    let s: i128 = (a1 as i128) * (b1 as i128) + (a2 as i128) * (b2 as i128) + (a3 as i128) * (
    b3 as i128);
    sat64(rdiv_i128(s, d as i128))
}

impl Mat3 {
    /// The diagonal matrix with `k` on the diagonal, as a spec value.
    pub open spec fn spec_diagonal(k: int) -> Mat3 {
        Mat3 {
            xx: k as i64,
            xy: 0,
            xz: 0,
            yx: 0,
            yy: k as i64,
            yz: 0,
            zx: 0,
            zy: 0,
            zz: k as i64,
        }
    }

    /// The transpose, as a spec value.
    pub open spec fn spec_transpose(a: Mat3) -> Mat3 {
        Mat3 {
            xx: a.xx,
            xy: a.yx,
            xz: a.zx,
            yx: a.xy,
            yy: a.yy,
            yz: a.zy,
            zx: a.xz,
            zy: a.yz,
            zz: a.zz,
        }
    }

    /// The rotation matrix of a quaternion, as a spec value.
    pub open spec fn spec_from_quat(q: Quat) -> Mat3 {
        let s = SCALE as int;
        Mat3 {
            xx: sat_i64(SCALE - rdiv(2 * (q.y * q.y + q.z * q.z), s)) as i64,
            xy: sat_i64(rdiv(2 * (q.x * q.y - q.w * q.z), s)) as i64,
            xz: sat_i64(rdiv(2 * (q.x * q.z + q.w * q.y), s)) as i64,
            yx: sat_i64(rdiv(2 * (q.x * q.y + q.w * q.z), s)) as i64,
            yy: sat_i64(SCALE - rdiv(2 * (q.x * q.x + q.z * q.z), s)) as i64,
            yz: sat_i64(rdiv(2 * (q.y * q.z - q.w * q.x), s)) as i64,
            zx: sat_i64(rdiv(2 * (q.x * q.z - q.w * q.y), s)) as i64,
            zy: sat_i64(rdiv(2 * (q.y * q.z + q.w * q.x), s)) as i64,
            zz: sat_i64(SCALE - rdiv(2 * (q.x * q.x + q.y * q.y), s)) as i64,
        }
    }

    /// The rescaled matrix product, as a spec value.
    pub open spec fn spec_mul_scale(a: Mat3, b: Mat3) -> Mat3 {
        let s = SCALE as int;
        Mat3 {
            xx: sat_i64(rdiv(spec_dot3(a.xx as int, a.xy as int, a.xz as int, b.xx as int, b.yx as int, b.zx as int), s)) as i64,
            xy: sat_i64(rdiv(spec_dot3(a.xx as int, a.xy as int, a.xz as int, b.xy as int, b.yy as int, b.zy as int), s)) as i64,
            xz: sat_i64(rdiv(spec_dot3(a.xx as int, a.xy as int, a.xz as int, b.xz as int, b.yz as int, b.zz as int), s)) as i64,
            yx: sat_i64(rdiv(spec_dot3(a.yx as int, a.yy as int, a.yz as int, b.xx as int, b.yx as int, b.zx as int), s)) as i64,
            yy: sat_i64(rdiv(spec_dot3(a.yx as int, a.yy as int, a.yz as int, b.xy as int, b.yy as int, b.zy as int), s)) as i64,
            yz: sat_i64(rdiv(spec_dot3(a.yx as int, a.yy as int, a.yz as int, b.xz as int, b.yz as int, b.zz as int), s)) as i64,
            zx: sat_i64(rdiv(spec_dot3(a.zx as int, a.zy as int, a.zz as int, b.xx as int, b.yx as int, b.zx as int), s)) as i64,
            zy: sat_i64(rdiv(spec_dot3(a.zx as int, a.zy as int, a.zz as int, b.xy as int, b.yy as int, b.zy as int), s)) as i64,
            zz: sat_i64(rdiv(spec_dot3(a.zx as int, a.zy as int, a.zz as int, b.xz as int, b.yz as int, b.zz as int), s)) as i64,
        }
    }

    /// The matrix-vector product divided by `d`, as a spec value.
    pub open spec fn spec_matvec_div(m: Mat3, v: IVec3, d: int) -> IVec3 {
        IVec3 {
            x: sat_i64(rdiv(spec_dot3(m.xx as int, m.xy as int, m.xz as int, v.x as int, v.y as int, v.z as int), d)) as i64,
            y: sat_i64(rdiv(spec_dot3(m.yx as int, m.yy as int, m.yz as int, v.x as int, v.y as int, v.z as int), d)) as i64,
            z: sat_i64(rdiv(spec_dot3(m.zx as int, m.zy as int, m.zz as int, v.x as int, v.y as int, v.z as int), d)) as i64,
        }
    }

    /// The diagonal matrix with `k` on the diagonal.
    pub fn diagonal(k: i64) -> (r: Mat3)
        ensures
            r == Mat3::spec_diagonal(k as int),
            r == (Mat3 { xx: k, xy: 0, xz: 0, yx: 0, yy: k, yz: 0, zx: 0, zy: 0, zz: k }),
    {
        Mat3 { xx: k, xy: 0, xz: 0, yx: 0, yy: k, yz: 0, zx: 0, zy: 0, zz: k }
    }

    /// The transpose.
    pub fn transpose(self) -> (r: Mat3)
        ensures
            r == Mat3::spec_transpose(self),
            r == (Mat3 {
                xx: self.xx,
                xy: self.yx,
                xz: self.zx,
                yx: self.xy,
                yy: self.yy,
                yz: self.zy,
                zx: self.xz,
                zy: self.yz,
                zz: self.zz,
            }),
    {
        Mat3 {
            xx: self.xx,
            xy: self.yx,
            xz: self.zx,
            yx: self.xy,
            yy: self.yy,
            yz: self.zy,
            zx: self.xz,
            zy: self.yz,
            zz: self.zz,
        }
    }

    /// The rotation matrix of a quaternion, entries scaled by `SCALE`.
    pub fn from_quat(q: Quat) -> (r: Mat3)
        requires
            quat_bounded(q, 4 * SCALE),
        ensures
            r == Mat3::spec_from_quat(q),
            r.xx == sat_i64(SCALE - rdiv(2 * (q.y * q.y + q.z * q.z), SCALE as int)),
            r.xy == sat_i64(rdiv(2 * (q.x * q.y - q.w * q.z), SCALE as int)),
            r.xz == sat_i64(rdiv(2 * (q.x * q.z + q.w * q.y), SCALE as int)),
            r.yx == sat_i64(rdiv(2 * (q.x * q.y + q.w * q.z), SCALE as int)),
            r.yy == sat_i64(SCALE - rdiv(2 * (q.x * q.x + q.z * q.z), SCALE as int)),
            r.yz == sat_i64(rdiv(2 * (q.y * q.z - q.w * q.x), SCALE as int)),
            r.zx == sat_i64(rdiv(2 * (q.x * q.z - q.w * q.y), SCALE as int)),
            r.zy == sat_i64(rdiv(2 * (q.y * q.z + q.w * q.x), SCALE as int)),
            r.zz == sat_i64(SCALE - rdiv(2 * (q.x * q.x + q.y * q.y), SCALE as int)),
            mat_bounded(r, 65 * SCALE),
    {
        let s: i128 = SCALE as i128;
        let (qx, qy, qz, qw): (i128, i128, i128, i128) = (
            q.x as i128,
            q.y as i128,
            q.z as i128,
            q.w as i128,
        );
        proof {
            let m = 4 * SCALE as int;
            lemma_mul_bound(qx as int, qx as int, m, m);
            lemma_mul_bound(qy as int, qy as int, m, m);
            lemma_mul_bound(qz as int, qz as int, m, m);
            lemma_mul_bound(qx as int, qy as int, m, m);
            lemma_mul_bound(qx as int, qz as int, m, m);
            lemma_mul_bound(qy as int, qz as int, m, m);
            lemma_mul_bound(qw as int, qx as int, m, m);
            lemma_mul_bound(qw as int, qy as int, m, m);
            lemma_mul_bound(qw as int, qz as int, m, m);
            assert(4 * (m * m) == (64 * SCALE as int) * (SCALE as int) && m * m >= 0)
                by (nonlinear_arith)
                requires
                    m == 4 * SCALE as int;
            crate::num::lemma_rdiv_bound(2 * (qy as int * qy as int + qz as int * qz as int), SCALE as int, 64 * SCALE as int);
            crate::num::lemma_rdiv_bound(2 * (qx as int * qy as int - qw as int * qz as int), SCALE as int, 64 * SCALE as int);
            crate::num::lemma_rdiv_bound(2 * (qx as int * qz as int + qw as int * qy as int), SCALE as int, 64 * SCALE as int);
            crate::num::lemma_rdiv_bound(2 * (qx as int * qy as int + qw as int * qz as int), SCALE as int, 64 * SCALE as int);
            crate::num::lemma_rdiv_bound(2 * (qx as int * qx as int + qz as int * qz as int), SCALE as int, 64 * SCALE as int);
            crate::num::lemma_rdiv_bound(2 * (qy as int * qz as int - qw as int * qx as int), SCALE as int, 64 * SCALE as int);
            crate::num::lemma_rdiv_bound(2 * (qx as int * qz as int - qw as int * qy as int), SCALE as int, 64 * SCALE as int);
            crate::num::lemma_rdiv_bound(2 * (qy as int * qz as int + qw as int * qx as int), SCALE as int, 64 * SCALE as int);
            crate::num::lemma_rdiv_bound(2 * (qx as int * qx as int + qy as int * qy as int), SCALE as int, 64 * SCALE as int);
        }
        Mat3 {
            xx: sat64(s - rdiv_i128(2 * (qy * qy + qz * qz), s)),
            xy: sat64(rdiv_i128(2 * (qx * qy - qw * qz), s)),
            xz: sat64(rdiv_i128(2 * (qx * qz + qw * qy), s)),
            yx: sat64(rdiv_i128(2 * (qx * qy + qw * qz), s)),
            yy: sat64(s - rdiv_i128(2 * (qx * qx + qz * qz), s)),
            yz: sat64(rdiv_i128(2 * (qy * qz - qw * qx), s)),
            zx: sat64(rdiv_i128(2 * (qx * qz - qw * qy), s)),
            zy: sat64(rdiv_i128(2 * (qy * qz + qw * qx), s)),
            zz: sat64(s - rdiv_i128(2 * (qx * qx + qy * qy), s)),
        }
    }

    /// Matrix product rescaled by `SCALE` (for products where one factor is a
    /// `SCALE`-scaled rotation matrix), saturating component-wise.
    pub fn mul_scale(self, other: Mat3) -> (r: Mat3)
        requires
            mat_bounded(self, 100_000_000_000_000_000),
            mat_bounded(other, 100_000_000_000_000_000),
        ensures
            r == Mat3::spec_mul_scale(self, other),
            r.xx == sat_i64(rdiv(spec_dot3(self.xx as int, self.xy as int, self.xz as int, other.xx as int, other.yx as int, other.zx as int), SCALE as int)),
            r.xy == sat_i64(rdiv(spec_dot3(self.xx as int, self.xy as int, self.xz as int, other.xy as int, other.yy as int, other.zy as int), SCALE as int)),
            r.xz == sat_i64(rdiv(spec_dot3(self.xx as int, self.xy as int, self.xz as int, other.xz as int, other.yz as int, other.zz as int), SCALE as int)),
            r.yx == sat_i64(rdiv(spec_dot3(self.yx as int, self.yy as int, self.yz as int, other.xx as int, other.yx as int, other.zx as int), SCALE as int)),
            r.yy == sat_i64(rdiv(spec_dot3(self.yx as int, self.yy as int, self.yz as int, other.xy as int, other.yy as int, other.zy as int), SCALE as int)),
            r.yz == sat_i64(rdiv(spec_dot3(self.yx as int, self.yy as int, self.yz as int, other.xz as int, other.yz as int, other.zz as int), SCALE as int)),
            r.zx == sat_i64(rdiv(spec_dot3(self.zx as int, self.zy as int, self.zz as int, other.xx as int, other.yx as int, other.zx as int), SCALE as int)),
            r.zy == sat_i64(rdiv(spec_dot3(self.zx as int, self.zy as int, self.zz as int, other.xy as int, other.yy as int, other.zy as int), SCALE as int)),
            r.zz == sat_i64(rdiv(spec_dot3(self.zx as int, self.zy as int, self.zz as int, other.xz as int, other.yz as int, other.zz as int), SCALE as int)),
    {
        let s: i64 = SCALE;
        Mat3 {
            xx: dot3s(self.xx, self.xy, self.xz, other.xx, other.yx, other.zx, s),
            xy: dot3s(self.xx, self.xy, self.xz, other.xy, other.yy, other.zy, s),
            xz: dot3s(self.xx, self.xy, self.xz, other.xz, other.yz, other.zz, s),
            yx: dot3s(self.yx, self.yy, self.yz, other.xx, other.yx, other.zx, s),
            yy: dot3s(self.yx, self.yy, self.yz, other.xy, other.yy, other.zy, s),
            yz: dot3s(self.yx, self.yy, self.yz, other.xz, other.yz, other.zz, s),
            zx: dot3s(self.zx, self.zy, self.zz, other.xx, other.yx, other.zx, s),
            zy: dot3s(self.zx, self.zy, self.zz, other.xy, other.yy, other.zy, s),
            zz: dot3s(self.zx, self.zy, self.zz, other.xz, other.yz, other.zz, s),
        }
    }

    /// Matrix-vector product divided by `d`, saturating component-wise.
    pub fn matvec_div(self, v: IVec3, d: i64) -> (r: IVec3)
        requires
            d > 0,
            mat_bounded(self, 100_000_000_000_000_000),
        ensures
            r == Mat3::spec_matvec_div(self, v, d as int),
            r.x == sat_i64(rdiv(spec_dot3(self.xx as int, self.xy as int, self.xz as int, v.x as int, v.y as int, v.z as int), d as int)),
            r.y == sat_i64(rdiv(spec_dot3(self.yx as int, self.yy as int, self.yz as int, v.x as int, v.y as int, v.z as int), d as int)),
            r.z == sat_i64(rdiv(spec_dot3(self.zx as int, self.zy as int, self.zz as int, v.x as int, v.y as int, v.z as int), d as int)),
    {
        proof {
            let m = 100_000_000_000_000_000;
            let b = 0x8000_0000_0000_0000int;
            lemma_mul_bound(self.xx as int, v.x as int, m, b);
            lemma_mul_bound(self.xy as int, v.y as int, m, b);
            lemma_mul_bound(self.xz as int, v.z as int, m, b);
            lemma_mul_bound(self.yx as int, v.x as int, m, b);
            lemma_mul_bound(self.yy as int, v.y as int, m, b);
            lemma_mul_bound(self.yz as int, v.z as int, m, b);
            lemma_mul_bound(self.zx as int, v.x as int, m, b);
            lemma_mul_bound(self.zy as int, v.y as int, m, b);
            lemma_mul_bound(self.zz as int, v.z as int, m, b);
            assert(m * b < 0x2000_0000_0000_0000_0000_0000_0000_0000int) by (nonlinear_arith)
                requires
                    m == 100_000_000_000_000_000,
                    b == 0x8000_0000_0000_0000int;
        }
        IVec3 {
            x: sat64(
                rdiv_i128(
                    (self.xx as i128) * (v.x as i128) + (self.xy as i128) * (v.y as i128) + (
                    self.xz as i128) * (v.z as i128),
                    d as i128,
                ),
            ),
            y: sat64(
                rdiv_i128(
                    (self.yx as i128) * (v.x as i128) + (self.yy as i128) * (v.y as i128) + (
                    self.yz as i128) * (v.z as i128),
                    d as i128,
                ),
            ),
            z: sat64(
                rdiv_i128(
                    (self.zx as i128) * (v.x as i128) + (self.zy as i128) * (v.y as i128) + (
                    self.zz as i128) * (v.z as i128),
                    d as i128,
                ),
            ),
        }
    }

    /// Invert an inertia tensor by adjugate and determinant, scaling the
    /// result by `INV_INERTIA_SCALE`; a singular tensor yields `None`.
    pub fn inverse_inertia(self) -> (r: Option<Mat3>)
        requires
            mat_bounded(self, INERTIA_MAX as int),
        ensures
            r is Some <==> spec_det(self) != 0,
            r matches Some(inv) ==> {
                let det = spec_det(self);
                let sc = INV_INERTIA_SCALE as int;
                inv.xx == sat_i64(rdiv_s((self.yy * self.zz - self.yz * self.zy) * sc, det))
                    && inv.xy == sat_i64(rdiv_s((self.xz * self.zy - self.xy * self.zz) * sc, det))
                    && inv.xz == sat_i64(rdiv_s((self.xy * self.yz - self.xz * self.yy) * sc, det))
                    && inv.yx == sat_i64(rdiv_s((self.yz * self.zx - self.yx * self.zz) * sc, det))
                    && inv.yy == sat_i64(rdiv_s((self.xx * self.zz - self.xz * self.zx) * sc, det))
                    && inv.yz == sat_i64(rdiv_s((self.xz * self.yx - self.xx * self.yz) * sc, det))
                    && inv.zx == sat_i64(rdiv_s((self.yx * self.zy - self.yy * self.zx) * sc, det))
                    && inv.zy == sat_i64(rdiv_s((self.xy * self.zx - self.xx * self.zy) * sc, det))
                    && inv.zz == sat_i64(rdiv_s((self.xx * self.yy - self.xy * self.yx) * sc, det))
            },
    {
        let (axx, axy, axz): (i128, i128, i128) = (self.xx as i128, self.xy as i128, self.xz as i128);
        let (ayx, ayy, ayz): (i128, i128, i128) = (self.yx as i128, self.yy as i128, self.yz as i128);
        let (azx, azy, azz): (i128, i128, i128) = (self.zx as i128, self.zy as i128, self.zz as i128);
        proof {
            let m = INERTIA_MAX as int;
            lemma_mul_bound(ayy as int, azz as int, m, m);
            lemma_mul_bound(ayz as int, azy as int, m, m);
            lemma_mul_bound(ayx as int, azz as int, m, m);
            lemma_mul_bound(ayz as int, azx as int, m, m);
            lemma_mul_bound(ayx as int, azy as int, m, m);
            lemma_mul_bound(ayy as int, azx as int, m, m);
            lemma_mul_bound(axz as int, azy as int, m, m);
            lemma_mul_bound(axy as int, azz as int, m, m);
            lemma_mul_bound(axy as int, ayz as int, m, m);
            lemma_mul_bound(axz as int, ayy as int, m, m);
            lemma_mul_bound(axx as int, azz as int, m, m);
            lemma_mul_bound(axz as int, azx as int, m, m);
            lemma_mul_bound(axz as int, ayx as int, m, m);
            lemma_mul_bound(axx as int, ayz as int, m, m);
            lemma_mul_bound(axy as int, azx as int, m, m);
            lemma_mul_bound(axx as int, azy as int, m, m);
            lemma_mul_bound(axx as int, ayy as int, m, m);
            lemma_mul_bound(axy as int, ayx as int, m, m);
            assert(m * m == 4_000_000_000_000_000_000_000_000) by (nonlinear_arith)
                requires
                    m == 2_000_000_000_000;
            lemma_mul_bound(axx as int, (ayy * azz - ayz * azy) as int, m, 8_000_000_000_000_000_000_000_000);
            lemma_mul_bound(axy as int, (ayx * azz - ayz * azx) as int, m, 8_000_000_000_000_000_000_000_000);
            lemma_mul_bound(axz as int, (ayx * azy - ayy * azx) as int, m, 8_000_000_000_000_000_000_000_000);
            assert(m * 8_000_000_000_000_000_000_000_000 == 0xc097ce7bc90715b34b9f10000000000)
                by (nonlinear_arith)
                requires
                    m == 2_000_000_000_000;
        }
        let c_xx: i128 = ayy * azz - ayz * azy;
        let c_yx: i128 = ayx * azz - ayz * azx;
        let c_zx: i128 = ayx * azy - ayy * azx;
        let det: i128 = axx * c_xx - axy * c_yx + axz * c_zx;
        if det == 0 {
            None
        } else {
            let sc: i128 = INV_INERTIA_SCALE as i128;
            let adj_xx: i128 = (ayy * azz - ayz * azy) * sc;
            let adj_xy: i128 = (axz * azy - axy * azz) * sc;
            let adj_xz: i128 = (axy * ayz - axz * ayy) * sc;
            let adj_yx: i128 = (ayz * azx - ayx * azz) * sc;
            let adj_yy: i128 = (axx * azz - axz * azx) * sc;
            let adj_yz: i128 = (axz * ayx - axx * ayz) * sc;
            let adj_zx: i128 = (ayx * azy - ayy * azx) * sc;
            let adj_zy: i128 = (axy * azx - axx * azy) * sc;
            let adj_zz: i128 = (axx * ayy - axy * ayx) * sc;
            proof {
                assert(8_000_000_000_000_000_000_000_000 * (INV_INERTIA_SCALE as int)
                    == 0x604be73de4838ad9a5cf88000000000) by (nonlinear_arith);
            }
            Some(
                Mat3 {
                    xx: rdiv_signed(adj_xx, det),
                    xy: rdiv_signed(adj_xy, det),
                    xz: rdiv_signed(adj_xz, det),
                    yx: rdiv_signed(adj_yx, det),
                    yy: rdiv_signed(adj_yy, det),
                    yz: rdiv_signed(adj_yz, det),
                    zx: rdiv_signed(adj_zx, det),
                    zy: rdiv_signed(adj_zy, det),
                    zz: rdiv_signed(adj_zz, det),
                },
            )
        }
    }
}

/// Bound on a rescaled matrix product from bounds on its factors: when
/// `3 * ma * mb <= k * SCALE`, every entry of the product is at most `k`.
pub proof fn lemma_mul_scale_bound(a: Mat3, b: Mat3, r: Mat3, ma: int, mb: int, k: int)
    requires
        mat_bounded(a, ma),
        mat_bounded(b, mb),
        0 <= ma,
        0 <= mb,
        0 <= k,
        3 * (ma * mb) <= k * SCALE,
        r == Mat3::spec_mul_scale(a, b),
    ensures
        mat_bounded(r, k),
{
    assert forall|a1: int, a2: int, a3: int, b1: int, b2: int, b3: int|
        iabs(a1) <= ma && iabs(a2) <= ma && iabs(a3) <= ma && iabs(b1) <= mb && iabs(b2) <= mb
            && iabs(b3) <= mb implies iabs(
        sat_i64(rdiv(#[trigger] spec_dot3(a1, a2, a3, b1, b2, b3), SCALE as int)),
    ) <= k by {
        crate::num::lemma_mul_bound(a1, b1, ma, mb);
        crate::num::lemma_mul_bound(a2, b2, ma, mb);
        crate::num::lemma_mul_bound(a3, b3, ma, mb);
        crate::num::lemma_rdiv_bound(spec_dot3(a1, a2, a3, b1, b2, b3), SCALE as int, k);
    }
}

/// Rounded division by a nonzero divisor of either sign, saturated to `i64`.
fn rdiv_signed(n: i128, d: i128) -> (r: i64)
    requires
        d != 0,
        n > i128::MIN,
        d > i128::MIN,
    ensures
        r == sat_i64(rdiv_s(n as int, d as int)),
{
    if d > 0 {
        sat64(rdiv_i128(n, d))
    } else {
        sat64(rdiv_i128(-n, -d))
    }
}

} // verus!
