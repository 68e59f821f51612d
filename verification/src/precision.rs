//! High-precision transforms and the floating-origin projection protocol.
//!
//! A `PreciseTransform` keeps an exact millimeter position (64-bit integers)
//! and a fixed-point rotation.  Render-space `Transform`s are expressed in
//! meters at micrometer resolution, relative to a process-wide
//! `FloatingOrigin`; `project` and `deproject` translate between the two,
//! saturating rather than overflowing far from the origin.

use vstd::prelude::*;
use crate::num::SCALE;
use crate::num::iabs;
use crate::num::lemma_rdiv_exact;
use crate::num::lemma_rdiv_zero;
use crate::num::rdiv;
use crate::quat::Quat;
use crate::quat::q_conj;
use crate::quat::q_mul;
use crate::quat::q_rotate;
use crate::quat::qmul_w;
use crate::quat::qmul_x;
use crate::quat::qmul_y;
use crate::quat::qmul_z;
use crate::quat::quat_bounded;
use crate::vec3::IVec3;
use crate::vec3::v_sat_add;
use crate::vec3::v_sat_sub;
use crate::vec3::v_to_meters;
use crate::vec3::v_to_millimeters;

verus! {

/// Largest rotation-component magnitude a `PreciseTransform` fed to
/// `project` may carry (covers unnormalized orbit-solver compositions).
pub const PT_ROT_MAX: i64 = 4_000_000_000_000;

/// Largest rotation-component magnitude of a projected render transform.
pub const TF_ROT_MAX: i64 = 16_000_000_000_000;

/// A high-precision transform: position in exact millimeters, rotation as a
/// `SCALE`-scaled quaternion.
#[derive(Clone, Copy, Debug, PartialEq, Eq, Structural)]
pub struct PreciseTransform {
    pub translation_mm: IVec3,
    pub rotation: Quat,
}

/// A render-space transform relative to the floating origin: translation in
/// meters at micrometer resolution, rotation as a `SCALE`-scaled quaternion.
#[derive(Clone, Copy, Debug, PartialEq, Eq, Structural)]
pub struct Transform {
    pub translation: IVec3,
    pub rotation: Quat,
}

/// The floating origin for rendering the high-precision world; it must be
/// externally updated once per tick, before any projection reads it.
#[derive(Clone, Copy, Debug, PartialEq, Eq, Structural)]
pub struct FloatingOrigin(pub PreciseTransform);

impl PreciseTransform {
    /// The identity transform at the world origin.
    pub fn identity() -> (r: PreciseTransform)
        ensures
            r.translation_mm == (IVec3 { x: 0, y: 0, z: 0 }),
            r.rotation == (Quat { x: 0, y: 0, z: 0, w: SCALE }),
    {
        PreciseTransform {
            translation_mm: IVec3 { x: 0, y: 0, z: 0 },
            rotation: Quat { x: 0, y: 0, z: 0, w: SCALE },
        }
    }
}

/// The result of projecting a location: the offset from the origin,
/// converted to meters and carried into the origin's frame.
pub open spec fn spec_project_loc(origin: PreciseTransform, loc: IVec3) -> IVec3 {
    q_rotate(q_conj(origin.rotation), v_to_meters(v_sat_sub(loc, origin.translation_mm)))
}

/// The result of projecting a full transform.
pub open spec fn spec_project(origin: PreciseTransform, ptf: PreciseTransform) -> Transform {
    Transform {
        translation: spec_project_loc(origin, ptf.translation_mm),
        rotation: q_mul(q_conj(origin.rotation), ptf.rotation),
    }
}

/// The result of promoting a render transform back to full precision.
pub open spec fn spec_deproject(origin: PreciseTransform, tf: Transform) -> PreciseTransform {
    PreciseTransform {
        translation_mm: v_sat_add(
            origin.translation_mm,
            v_to_millimeters(q_rotate(origin.rotation, tf.translation)),
        ),
        rotation: q_mul(origin.rotation, tf.rotation),
    }
}

impl FloatingOrigin {
    /// Project a high-precision location (millimeters) to a render-space
    /// location (meters at micrometer resolution) relative to this origin.
    pub fn project_loc(&self, loc: IVec3) -> (r: IVec3)
        requires
            quat_bounded(self.0.rotation, SCALE as int),
        ensures
            r == spec_project_loc(self.0, loc),
    {
        let origin_rotation_inverse = self.0.rotation.conjugate();
        let rel_translation_mm = loc.saturating_sub(self.0.translation_mm);
        let rel_translation_meters = rel_translation_mm.to_meters();
        origin_rotation_inverse.rotate(rel_translation_meters)
    }

    /// Project a high-precision transform to a render-space transform
    /// relative to this origin.
    pub fn project(&self, ptf: &PreciseTransform) -> (r: Transform)
        requires
            quat_bounded(self.0.rotation, SCALE as int),
            quat_bounded(ptf.rotation, PT_ROT_MAX as int),
        ensures
            r == spec_project(self.0, *ptf),
            quat_bounded(r.rotation, TF_ROT_MAX as int),
    {
        let origin_rotation_inverse = self.0.rotation.conjugate();
        proof {
            crate::quat::lemma_qmul_bound(
                q_conj(self.0.rotation),
                ptf.rotation,
                SCALE as int,
                PT_ROT_MAX as int,
                TF_ROT_MAX as int,
            );
        }
        let rel_rotation = origin_rotation_inverse.mul(ptf.rotation);
        Transform { translation: self.project_loc(ptf.translation_mm), rotation: rel_rotation }
    }

    /// Promote a render-space transform (relative to this origin) back into
    /// a high-precision transform.
    pub fn deproject(&self, tf: &Transform) -> (r: PreciseTransform)
        requires
            quat_bounded(self.0.rotation, SCALE as int),
            quat_bounded(tf.rotation, TF_ROT_MAX as int),
        ensures
            r == spec_deproject(self.0, *tf),
    {
        let local_rot = tf.rotation;
        let rotation = self.0.rotation.mul(local_rot);
        let rel_world = self.0.rotation.rotate(tf.translation);
        let translation_mm = self.0.translation_mm.saturating_add(rel_world.to_millimeters());
        PreciseTransform { translation_mm, rotation }
    }
}

/// The per-tick re-basing sweep: project every top-level precise transform
/// into render space against the current floating origin.  All resulting
/// transforms are meaningless without the origin value that produced them
/// in that same tick.
pub fn float_origin(origin: &FloatingOrigin, precise: &Vec<PreciseTransform>) -> (r: Vec<
    Transform,
>)
    requires
        quat_bounded(origin.0.rotation, SCALE as int),
        forall|j: int|
            0 <= j < precise@.len() ==> quat_bounded(
                (#[trigger] precise@[j]).rotation,
                PT_ROT_MAX as int,
            ),
    ensures
        r@.len() == precise@.len(),
        forall|j: int|
            0 <= j < precise@.len() ==> r@[j] == spec_project(origin.0, precise@[j]),
{
    let n = precise.len();
    let mut out: Vec<Transform> = Vec::new();
    let mut i: usize = 0;
    while i < n
        invariant
            i <= n,
            n == precise@.len(),
            out@.len() == i,
            quat_bounded(origin.0.rotation, SCALE as int),
            forall|j: int|
                0 <= j < precise@.len() ==> quat_bounded(
                    (#[trigger] precise@[j]).rotation,
                    PT_ROT_MAX as int,
                ),
            forall|j: int| 0 <= j < i ==> out@[j] == spec_project(origin.0, precise@[j]),
        decreases n - i,
    {
        let tf = origin.project(&precise[i]);
        out.push(tf);
        i += 1;
    }
    out
}

/// Cross product of two `SCALE`-scaled vectors, rescaled by `SCALE`.
pub open spec fn spec_cross_scaled(a: IVec3, b: IVec3) -> IVec3 {
    let s = SCALE as int;
    IVec3 {
        x: rdiv(a.y * b.z - a.z * b.y, s) as i64,
        y: rdiv(a.z * b.x - a.x * b.z, s) as i64,
        z: rdiv(a.x * b.y - a.y * b.x, s) as i64,
    }
}

/// A vector rescaled to length `SCALE`; `None` for the zero vector.
pub open spec fn spec_normalized(v: IVec3) -> Option<IVec3> {
    let n2 = v.x * v.x + v.y * v.y + v.z * v.z;
    if n2 == 0 {
        None
    } else {
        let l = crate::num::spec_sqrt(n2);
        Some(
            IVec3 {
                x: rdiv(v.x * SCALE, l) as i64,
                y: rdiv(v.y * SCALE, l) as i64,
                z: rdiv(v.z * SCALE, l) as i64,
            },
        )
    }
}

/// Bound on the components a vector accepted by the orientation helpers may
/// have (a few unit lengths).
pub const DIR_MAX: i64 = 4_000_000_000;

/// Cross product of two bounded `SCALE`-scaled vectors.
fn cross_scaled(a: IVec3, b: IVec3) -> (r: IVec3)
    requires
        iabs(a.x as int) <= DIR_MAX && iabs(a.y as int) <= DIR_MAX && iabs(a.z as int) <= DIR_MAX,
        iabs(b.x as int) <= DIR_MAX && iabs(b.y as int) <= DIR_MAX && iabs(b.z as int) <= DIR_MAX,
    ensures
        r == spec_cross_scaled(a, b),
        iabs(r.x as int) <= 32 * SCALE && iabs(r.y as int) <= 32 * SCALE && iabs(r.z as int) <= 32
            * SCALE,
{
    proof {
        let d = DIR_MAX as int;
        crate::num::lemma_mul_bound(a.y as int, b.z as int, d, d);
        crate::num::lemma_mul_bound(a.z as int, b.y as int, d, d);
        crate::num::lemma_mul_bound(a.z as int, b.x as int, d, d);
        crate::num::lemma_mul_bound(a.x as int, b.z as int, d, d);
        crate::num::lemma_mul_bound(a.x as int, b.y as int, d, d);
        crate::num::lemma_mul_bound(a.y as int, b.x as int, d, d);
        assert(2 * (d * d) == (32 * SCALE as int) * (SCALE as int)) by (nonlinear_arith)
            requires
                d == DIR_MAX as int;
        crate::num::lemma_rdiv_bound(a.y as int * b.z as int - a.z as int * b.y as int, SCALE as int, 32 * SCALE as int);
        crate::num::lemma_rdiv_bound(a.z as int * b.x as int - a.x as int * b.z as int, SCALE as int, 32 * SCALE as int);
        crate::num::lemma_rdiv_bound(a.x as int * b.y as int - a.y as int * b.x as int, SCALE as int, 32 * SCALE as int);
    }
    let s: i128 = SCALE as i128;
    IVec3 {
        x: crate::num::rdiv_i128((a.y as i128) * (b.z as i128) - (a.z as i128) * (b.y as i128), s) as i64,
        y: crate::num::rdiv_i128((a.z as i128) * (b.x as i128) - (a.x as i128) * (b.z as i128), s) as i64,
        z: crate::num::rdiv_i128((a.x as i128) * (b.y as i128) - (a.y as i128) * (b.x as i128), s) as i64,
    }
}

/// Rescale a vector to length `SCALE`; the zero vector has no direction.
fn normalized(v: IVec3) -> (r: Option<IVec3>)
    requires
        iabs(v.x as int) <= 64 * SCALE,
        iabs(v.y as int) <= 64 * SCALE,
        iabs(v.z as int) <= 64 * SCALE,
    ensures
        r == spec_normalized(v),
        r matches Some(u) ==> iabs(u.x as int) <= SCALE && iabs(u.y as int) <= SCALE && iabs(
            u.z as int,
        ) <= SCALE,
{
    let (vx, vy, vz): (i128, i128, i128) = (v.x as i128, v.y as i128, v.z as i128);
    proof {
        let d = 64 * SCALE as int;
        crate::num::lemma_mul_bound(vx as int, vx as int, d, d);
        crate::num::lemma_mul_bound(vy as int, vy as int, d, d);
        crate::num::lemma_mul_bound(vz as int, vz as int, d, d);
        assert(vx * vx >= 0 && vy * vy >= 0 && vz * vz >= 0 && d * d
            == 4_096_000_000_000_000_000_000int) by (nonlinear_arith)
            requires
                d == 64 * SCALE as int;
    }
    let n2: i128 = vx * vx + vy * vy + vz * vz;
    if n2 == 0 {
        None
    } else {
        let l: u128 = crate::num::isqrt(n2 as u128);
        proof {
            let ll = l as int;
            assert(l >= 1) by (nonlinear_arith)
                requires
                    n2 >= 1,
                    (l as int + 1) * (l as int + 1) > n2 as int,
                    l >= 0;
            assert(vx * vx <= n2 as int && vy * vy <= n2 as int && vz * vz <= n2 as int)
                by (nonlinear_arith)
                requires
                    vx * vx >= 0,
                    vy * vy >= 0,
                    vz * vz >= 0,
                    n2 == vx * vx + vy * vy + vz * vz;
            assert(iabs(vx as int) <= ll && iabs(vy as int) <= ll && iabs(vz as int) <= ll)
                by (nonlinear_arith)
                requires
                    vx * vx <= n2 as int,
                    vy * vy <= n2 as int,
                    vz * vz <= n2 as int,
                    ll * ll <= n2 as int,
                    (ll + 1) * (ll + 1) > n2 as int,
                    ll >= 0;
            crate::num::lemma_mul_bound(vx as int, SCALE as int, ll, SCALE as int);
            crate::num::lemma_mul_bound(vy as int, SCALE as int, ll, SCALE as int);
            crate::num::lemma_mul_bound(vz as int, SCALE as int, ll, SCALE as int);
            assert(ll * (SCALE as int) == (SCALE as int) * ll) by (nonlinear_arith);
            crate::num::lemma_rdiv_bound(vx as int * SCALE as int, ll, SCALE as int);
            crate::num::lemma_rdiv_bound(vy as int * SCALE as int, ll, SCALE as int);
            crate::num::lemma_rdiv_bound(vz as int * SCALE as int, ll, SCALE as int);
        }
        let s: i128 = SCALE as i128;
        let li: i128 = l as i128;
        Some(
            IVec3 {
                x: crate::num::rdiv_i128(vx * s, li) as i64,
                y: crate::num::rdiv_i128(vy * s, li) as i64,
                z: crate::num::rdiv_i128(vz * s, li) as i64,
            },
        )
    }
}

/// An arbitrary unit vector orthogonal to `v`: the normalized cross of `v`
/// with whichever coordinate axis is less aligned with it; the `x` axis for
/// the zero vector.
pub open spec fn spec_any_orthonormal(v: IVec3) -> IVec3 {
    let candidate = if iabs(v.x as int) > iabs(v.z as int) {
        IVec3 { x: (-v.y) as i64, y: v.x, z: 0 }
    } else {
        IVec3 { x: 0, y: (-v.z) as i64, z: v.y }
    };
    match spec_normalized(candidate) {
        Some(u) => u,
        None => IVec3 { x: SCALE, y: 0, z: 0 },
    }
}

/// The quaternion of an orthonormal basis given by columns `right`, `up`,
/// `back`, by the standard trace-based extraction, clamped component-wise;
/// a degenerate branch value yields the identity.
pub open spec fn spec_quat_from_basis(r: IVec3, u: IVec3, b: IVec3) -> Quat {
    let s = SCALE as int;
    let tr = r.x + u.y + b.z;
    if tr > 0 {
        let s4 = crate::num::spec_sqrt((s + tr) * s);
        if s4 == 0 {
            Quat { x: 0, y: 0, z: 0, w: SCALE }
        } else {
            Quat {
                x: crate::num::clamp_mag(rdiv((u.z - b.y) * s, 2 * s4), 2 * SCALE) as i64,
                y: crate::num::clamp_mag(rdiv((b.x - r.z) * s, 2 * s4), 2 * SCALE) as i64,
                z: crate::num::clamp_mag(rdiv((r.y - u.x) * s, 2 * s4), 2 * SCALE) as i64,
                w: crate::num::clamp_mag(rdiv(s4, 2), 2 * SCALE) as i64,
            }
        }
    } else if r.x > u.y && r.x > b.z {
        let s4 = crate::num::spec_sqrt((s + r.x - u.y - b.z) * s);
        if s4 == 0 {
            Quat { x: 0, y: 0, z: 0, w: SCALE }
        } else {
            Quat {
                x: crate::num::clamp_mag(rdiv(s4, 2), 2 * SCALE) as i64,
                y: crate::num::clamp_mag(rdiv((r.y + u.x) * s, 2 * s4), 2 * SCALE) as i64,
                z: crate::num::clamp_mag(rdiv((b.x + r.z) * s, 2 * s4), 2 * SCALE) as i64,
                w: crate::num::clamp_mag(rdiv((u.z - b.y) * s, 2 * s4), 2 * SCALE) as i64,
            }
        }
    } else if u.y > b.z {
        let s4 = crate::num::spec_sqrt((s + u.y - r.x - b.z) * s);
        if s4 == 0 {
            Quat { x: 0, y: 0, z: 0, w: SCALE }
        } else {
            Quat {
                x: crate::num::clamp_mag(rdiv((r.y + u.x) * s, 2 * s4), 2 * SCALE) as i64,
                y: crate::num::clamp_mag(rdiv(s4, 2), 2 * SCALE) as i64,
                z: crate::num::clamp_mag(rdiv((u.z + b.y) * s, 2 * s4), 2 * SCALE) as i64,
                w: crate::num::clamp_mag(rdiv((b.x - r.z) * s, 2 * s4), 2 * SCALE) as i64,
            }
        }
    } else {
        let s4 = crate::num::spec_sqrt((s + b.z - r.x - u.y) * s);
        if s4 == 0 {
            Quat { x: 0, y: 0, z: 0, w: SCALE }
        } else {
            Quat {
                x: crate::num::clamp_mag(rdiv((b.x + r.z) * s, 2 * s4), 2 * SCALE) as i64,
                y: crate::num::clamp_mag(rdiv((u.z + b.y) * s, 2 * s4), 2 * SCALE) as i64,
                z: crate::num::clamp_mag(rdiv(s4, 2), 2 * SCALE) as i64,
                w: crate::num::clamp_mag(rdiv((r.y - u.x) * s, 2 * s4), 2 * SCALE) as i64,
            }
        }
    }
}

/// The orientation `look_to` builds: local `-z` along `direction`, with
/// `right` from `up x back` (or an arbitrary orthogonal vector when `up` is
/// parallel to `back`), normalized at the end.
pub open spec fn spec_look_to(direction: IVec3, up: IVec3) -> Quat {
    let back = crate::vec3::v_neg(direction);
    let right = match spec_normalized(spec_cross_scaled(up, back)) {
        Some(u) => u,
        None => spec_any_orthonormal(up),
    };
    let up2 = spec_cross_scaled(back, right);
    Quat::spec_normalize(spec_quat_from_basis(right, up2, back))
}

/// Extract the quaternion of an orthonormal basis, in fixed point.
fn quat_from_basis(r: IVec3, u: IVec3, b: IVec3) -> (q: Quat)
    requires
        iabs(r.x as int) <= 32 * SCALE && iabs(r.y as int) <= 32 * SCALE && iabs(r.z as int) <= 32
            * SCALE,
        iabs(u.x as int) <= 32 * SCALE && iabs(u.y as int) <= 32 * SCALE && iabs(u.z as int) <= 32
            * SCALE,
        iabs(b.x as int) <= 32 * SCALE && iabs(b.y as int) <= 32 * SCALE && iabs(b.z as int) <= 32
            * SCALE,
    ensures
        q == spec_quat_from_basis(r, u, b),
        quat_bounded(q, 2 * SCALE),
{
    let s: i128 = SCALE as i128;
    let tr: i128 = (r.x as i128) + (u.y as i128) + (b.z as i128);
    let (arg, c0, c1, c2, c3): (i128, i128, i128, i128, i128) = if tr > 0 {
        (
            s + tr,
            (u.z as i128) - (b.y as i128),
            (b.x as i128) - (r.z as i128),
            (r.y as i128) - (u.x as i128),
            0,
        )
    } else if r.x > u.y && r.x > b.z {
        (
            s + (r.x as i128) - (u.y as i128) - (b.z as i128),
            (r.y as i128) + (u.x as i128),
            (b.x as i128) + (r.z as i128),
            (u.z as i128) - (b.y as i128),
            1,
        )
    } else if u.y > b.z {
        (
            s + (u.y as i128) - (r.x as i128) - (b.z as i128),
            (r.y as i128) + (u.x as i128),
            (u.z as i128) + (b.y as i128),
            (b.x as i128) - (r.z as i128),
            2,
        )
    } else {
        (
            s + (b.z as i128) - (r.x as i128) - (u.y as i128),
            (b.x as i128) + (r.z as i128),
            (u.z as i128) + (b.y as i128),
            (r.y as i128) - (u.x as i128),
            3,
        )
    };
    proof {
        assert(arg * s <= 194_000_000_000_000_000_000int * 1_000_000_000 && arg * s >= -(
        194_000_000_000_000_000_000int * 1_000_000_000)) by (nonlinear_arith)
            requires
                iabs(arg as int) <= 194 * SCALE as int,
                s == SCALE as int;
    }
    let s4: i128 = if arg <= 0 {
        0
    } else {
        crate::num::isqrt((arg * s) as u128) as i128
    };
    if s4 == 0 {
        proof {
            if arg > 0 {
                assert((crate::num::spec_sqrt(arg as int * s as int) as i128) == 0);
            }
        }
        Quat { x: 0, y: 0, z: 0, w: SCALE }
    } else {
        proof {
            let m = 64 * SCALE as int;
            crate::num::lemma_mul_bound(c0 as int, s as int, m, SCALE as int);
            crate::num::lemma_mul_bound(c1 as int, s as int, m, SCALE as int);
            crate::num::lemma_mul_bound(c2 as int, s as int, m, SCALE as int);
        }
        let two_s4: i128 = 2 * s4;
        let e0: i64 = crate::num::clamp128(crate::num::rdiv_i128(c0 * s, two_s4), 2 * SCALE as i128) as i64;
        let e1: i64 = crate::num::clamp128(crate::num::rdiv_i128(c1 * s, two_s4), 2 * SCALE as i128) as i64;
        let e2: i64 = crate::num::clamp128(crate::num::rdiv_i128(c2 * s, two_s4), 2 * SCALE as i128) as i64;
        let ew: i64 = crate::num::clamp128(crate::num::rdiv_i128(s4, 2), 2 * SCALE as i128) as i64;
        if c3 == 0 {
            Quat { x: e0, y: e1, z: e2, w: ew }
        } else if c3 == 1 {
            Quat { x: ew, y: e0, z: e1, w: e2 }
        } else if c3 == 2 {
            Quat { x: e0, y: ew, z: e1, w: e2 }
        } else {
            Quat { x: e0, y: e1, z: ew, w: e2 }
        }
    }
}

impl PreciseTransform {
    /// Rebuild the rotation so that the local `-z` axis points along
    /// `direction` (a `SCALE`-scaled unit vector), with `right` chosen from
    /// `up`; when `up` is parallel to the view direction an arbitrary
    /// orthogonal vector takes its place, so the call never fails.
    pub fn look_to(&mut self, direction: IVec3, up: IVec3)
        requires
            iabs(direction.x as int) <= 2 * SCALE,
            iabs(direction.y as int) <= 2 * SCALE,
            iabs(direction.z as int) <= 2 * SCALE,
            iabs(up.x as int) <= 2 * SCALE,
            iabs(up.y as int) <= 2 * SCALE,
            iabs(up.z as int) <= 2 * SCALE,
        ensures
            final(self).translation_mm == old(self).translation_mm,
            final(self).rotation == spec_look_to(direction, up),
            quat_bounded(final(self).rotation, SCALE as int),
    {
        let back = direction.neg();
        let right = match normalized(cross_scaled(up, back)) {
            Some(u) => u,
            None => {
                let candidate = if {
                    let ax = if up.x >= 0 { up.x } else { -up.x };
                    let az = if up.z >= 0 { up.z } else { -up.z };
                    ax > az
                } {
                    IVec3 { x: -up.y, y: up.x, z: 0 }
                } else {
                    IVec3 { x: 0, y: -up.z, z: up.y }
                };
                match normalized(candidate) {
                    Some(u) => u,
                    None => IVec3 { x: SCALE, y: 0, z: 0 },
                }
            },
        };
        let up2 = cross_scaled(back, right);
        let q = quat_from_basis(right, up2, back);
        self.rotation = q.normalize();
    }

    /// Point the local `-z` axis at a target position, keeping `up` as the
    /// vertical reference; a target at the transform's own position leaves
    /// the rotation unchanged.
    pub fn look_at(&mut self, target: IVec3, up: IVec3)
        requires
            iabs(up.x as int) <= 2 * SCALE,
            iabs(up.y as int) <= 2 * SCALE,
            iabs(up.z as int) <= 2 * SCALE,
        ensures
            final(self).translation_mm == old(self).translation_mm,
            ({
                let rel = crate::vec3::v_sat_sub(target, old(self).translation_mm);
                match spec_normalized(rel) {
                    Some(dir) => final(self).rotation == spec_look_to(dir, up) && quat_bounded(
                        final(self).rotation,
                        SCALE as int,
                    ),
                    None => final(self).rotation == old(self).rotation,
                }
            }),
    {
        let rel = target.saturating_sub(self.translation_mm);
        proof {
            crate::num::lemma_mul_bound(rel.x as int, rel.x as int, 0x8000_0000_0000_0000int, 0x8000_0000_0000_0000int);
            crate::num::lemma_mul_bound(rel.y as int, rel.y as int, 0x8000_0000_0000_0000int, 0x8000_0000_0000_0000int);
            crate::num::lemma_mul_bound(rel.z as int, rel.z as int, 0x8000_0000_0000_0000int, 0x8000_0000_0000_0000int);
        }
        match normalized_wide(rel) {
            Some(dir) => self.look_to(dir, up),
            None => {},
        }
    }
}

/// Rescale a vector of any magnitude to length `SCALE`.
fn normalized_wide(v: IVec3) -> (r: Option<IVec3>)
    ensures
        r == spec_normalized(v),
        r matches Some(u) ==> iabs(u.x as int) <= SCALE && iabs(u.y as int) <= SCALE && iabs(
            u.z as int,
        ) <= SCALE,
{
    let (vx, vy, vz): (i128, i128, i128) = (v.x as i128, v.y as i128, v.z as i128);
    proof {
        let d = 0x8000_0000_0000_0000int;
        crate::num::lemma_mul_bound(vx as int, vx as int, d, d);
        crate::num::lemma_mul_bound(vy as int, vy as int, d, d);
        crate::num::lemma_mul_bound(vz as int, vz as int, d, d);
        assert(vx * vx >= 0 && vy * vy >= 0 && vz * vz >= 0) by (nonlinear_arith);
        assert(d * d == 0x4000_0000_0000_0000_0000_0000_0000_0000int) by (nonlinear_arith)
            requires
                d == 0x8000_0000_0000_0000int;
    }
    let x2: i128 = vx * vx;
    let y2: i128 = vy * vy;
    let z2: i128 = vz * vz;
    let n2: u128 = (x2 as u128) + (y2 as u128) + (z2 as u128);
    if n2 == 0 {
        None
    } else {
        let l: u128 = crate::num::isqrt(n2);
        proof {
            let ll = l as int;
            assert(l >= 1) by (nonlinear_arith)
                requires
                    n2 >= 1,
                    (l as int + 1) * (l as int + 1) > n2 as int,
                    l >= 0;
            assert(vx * vx <= n2 as int && vy * vy <= n2 as int && vz * vz <= n2 as int)
                by (nonlinear_arith)
                requires
                    vx * vx >= 0,
                    vy * vy >= 0,
                    vz * vz >= 0,
                    n2 == vx * vx + vy * vy + vz * vz;
            assert(iabs(vx as int) <= ll && iabs(vy as int) <= ll && iabs(vz as int) <= ll)
                by (nonlinear_arith)
                requires
                    vx * vx <= n2 as int,
                    vy * vy <= n2 as int,
                    vz * vz <= n2 as int,
                    ll * ll <= n2 as int,
                    (ll + 1) * (ll + 1) > n2 as int,
                    ll >= 0;
            crate::num::lemma_mul_bound(vx as int, SCALE as int, ll, SCALE as int);
            crate::num::lemma_mul_bound(vy as int, SCALE as int, ll, SCALE as int);
            crate::num::lemma_mul_bound(vz as int, SCALE as int, ll, SCALE as int);
            assert(ll * (SCALE as int) == (SCALE as int) * ll) by (nonlinear_arith);
            crate::num::lemma_rdiv_bound(vx as int * SCALE as int, ll, SCALE as int);
            crate::num::lemma_rdiv_bound(vy as int * SCALE as int, ll, SCALE as int);
            crate::num::lemma_rdiv_bound(vz as int * SCALE as int, ll, SCALE as int);
        }
        let s: i128 = SCALE as i128;
        let li: i128 = l as i128;
        Some(
            IVec3 {
                x: crate::num::rdiv_i128(vx * s, li) as i64,
                y: crate::num::rdiv_i128(vy * s, li) as i64,
                z: crate::num::rdiv_i128(vz * s, li) as i64,
            },
        )
    }
}

/// The identity quaternion leaves every vector unchanged under `q_rotate`.
pub proof fn lemma_rotate_identity(v: IVec3)
    ensures
        q_rotate(Quat { x: 0, y: 0, z: 0, w: SCALE }, v) == v,
{
    lemma_rdiv_zero(SCALE as int);
    let q = Quat { x: 0, y: 0, z: 0, w: SCALE };
    assert(2 * (q.y * v.z - q.z * v.y) == 0) by (nonlinear_arith)
        requires
            q.y == 0 && q.z == 0;
    assert(2 * (q.z * v.x - q.x * v.z) == 0) by (nonlinear_arith)
        requires
            q.z == 0 && q.x == 0;
    assert(2 * (q.x * v.y - q.y * v.x) == 0) by (nonlinear_arith)
        requires
            q.x == 0 && q.y == 0;
    assert(q.w * 0 == 0) by (nonlinear_arith);
}

/// Multiplying by the identity quaternion on the left is exact: the product
/// rescaling recovers the other factor unchanged.
pub proof fn lemma_qmul_identity_left(q: Quat)
    ensures
        q_mul(Quat { x: 0, y: 0, z: 0, w: SCALE }, q) == q,
{
    let e = Quat { x: 0, y: 0, z: 0, w: SCALE };
    assert(qmul_x(e, q) == q.x * SCALE) by (nonlinear_arith)
        requires
            e.x == 0 && e.y == 0 && e.z == 0 && e.w == SCALE;
    assert(qmul_y(e, q) == q.y * SCALE) by (nonlinear_arith)
        requires
            e.x == 0 && e.y == 0 && e.z == 0 && e.w == SCALE;
    assert(qmul_z(e, q) == q.z * SCALE) by (nonlinear_arith)
        requires
            e.x == 0 && e.y == 0 && e.z == 0 && e.w == SCALE;
    assert(qmul_w(e, q) == q.w * SCALE) by (nonlinear_arith)
        requires
            e.x == 0 && e.y == 0 && e.z == 0 && e.w == SCALE;
    lemma_rdiv_exact(q.x as int, SCALE as int);
    lemma_rdiv_exact(q.y as int, SCALE as int);
    lemma_rdiv_exact(q.z as int, SCALE as int);
    lemma_rdiv_exact(q.w as int, SCALE as int);
}

/// Round trip through the floating origin: for an origin whose rotation is
/// the identity, projecting a transform and deprojecting the result
/// reproduces the original transform exactly — position to the millimeter
/// and rotation bit-for-bit — whenever the offset from the origin stays
/// clear of saturation.
pub proof fn lemma_project_roundtrip(origin: PreciseTransform, ptf: PreciseTransform)
    requires
        origin.rotation == (Quat { x: 0, y: 0, z: 0, w: SCALE }),
        iabs(ptf.translation_mm.x - origin.translation_mm.x) <= i64::MAX / 1000,
        iabs(ptf.translation_mm.y - origin.translation_mm.y) <= i64::MAX / 1000,
        iabs(ptf.translation_mm.z - origin.translation_mm.z) <= i64::MAX / 1000,
    ensures
        spec_deproject(origin, spec_project(origin, ptf)) == ptf,
{
    let rel = v_sat_sub(ptf.translation_mm, origin.translation_mm);
    let e = Quat { x: 0, y: 0, z: 0, w: SCALE };
    assert(q_conj(origin.rotation) == e);
    let m = v_to_meters(rel);
    lemma_rotate_identity(m);
    crate::vec3::lemma_meters_roundtrip(rel, m, v_to_millimeters(m));
    lemma_qmul_identity_left(ptf.rotation);
    lemma_qmul_identity_left(q_mul(e, ptf.rotation));
}

} // verus!
