//! Rigid-body dynamics: per-tick gravity accumulation with
//! sphere-of-influence selection, and motion integration (velocity-Verlet
//! for translation, symplectic Euler for rotation).
//!
//! Units: forces in micronewtons, torques in micronewton meters, masses in
//! kilograms, velocities in micrometers per second, angular velocities in
//! nano-radians per second, ticks in milliseconds.

use vstd::prelude::*;
use crate::num::SCALE;
use crate::num::iabs;
use crate::num::rdiv;
use crate::num::sat_i64;
use crate::num::clamp_mag;
use crate::num::spec_sqrt;
use crate::num::isqrt;
use crate::num::clamp128;
use crate::num::lemma_mul_bound;
use crate::num::lemma_rdiv_bound;
use crate::num::rdiv_i128;
use crate::num::sat64;
use crate::mat3::Mat3;
use crate::mat3::mat_bounded;
use crate::mat3::lemma_mul_scale_bound;
use crate::precision::PreciseTransform;
use crate::quat::Quat;
use crate::quat::q_mul;
use crate::quat::quat_bounded;
use crate::vec3::IVec3;
use crate::vec3::v_sat_add;

verus! {

/// Longest supported tick, in milliseconds.
pub const DT_MAX: i64 = 60_000;

/// Largest supported angular speed, in nano-radians per second.
pub const ANG_VEL_MAX: i64 = 1_000_000_000_000_000;

/// Largest supported rigid-body mass, in kilograms.
pub const RIGID_MASS_MAX: i64 = 1_000_000_000_000;

/// Largest inverse-inertia entry accepted by the integrator.
pub const INV_INERTIA_ENTRY_MAX: i64 = 1_000_000_000_000;

/// Cap on a single gravitational acceleration, in nano-meters per squared
/// second.
pub const GRAV_ACC_MAX: i128 = 1_000_000_000_000_000_000;

/// Cap on a single gravitational force, in micronewtons.
pub const GRAV_FORCE_MAX: i128 = 100_000_000_000_000_000_000_000_000;

/// Mass and inertia of a rigid body: the inertia tensor in gram square
/// meters in body axes, and its inverse scaled by `INV_INERTIA_SCALE`.
#[derive(Clone, Copy, Debug, PartialEq, Eq, Structural)]
pub struct MassProps {
    /// Mass in kilograms.
    pub mass: i64,
    /// Inertia tensor, gram square meters, body axes.
    pub inertia: Mat3,
    /// Inverse inertia tensor, `1e-12` per gram square meter.
    pub inertia_inv: Mat3,
}

impl Default for MassProps {
    /// Unit mass with the inertia of a unit tensor (one kilogram square
    /// meter on the diagonal).
    fn default() -> (r: MassProps)
        ensures
            r.mass == 1,
            r.inertia == Mat3::spec_diagonal(1000),
            r.inertia_inv == Mat3::spec_diagonal(1_000_000_000),
    {
        MassProps {
            mass: 1,
            inertia: Mat3::diagonal(1000),
            inertia_inv: Mat3::diagonal(1_000_000_000),
        }
    }
}

/// The full per-entity kinematic state the integrator advances.
#[derive(Clone, Copy, Debug, PartialEq, Eq, Structural)]
pub struct RigidState {
    /// Pose: exact millimeter position and unit rotation.
    pub tf: PreciseTransform,
    /// Linear velocity, micrometers per second.
    pub velocity: IVec3,
    /// Angular velocity, nano-radians per second.
    pub ang_velocity: IVec3,
    /// Accumulated force for this tick, micronewtons.
    pub force: IVec3,
    /// Accumulated torque for this tick, micronewton meters.
    pub torque: IVec3,
    /// Linear acceleration of the previous tick, micrometers per squared
    /// second.
    pub acc_prev: IVec3,
    /// Mass and inertia.
    pub props: MassProps,
}

/// A celestial body as the gravity sweep sees it: its mass and position.
#[derive(Clone, Copy, Debug, PartialEq, Eq, Structural)]
pub struct Celestial {
    /// Mass in kilograms.
    pub mass: i128,
    /// Position in millimeters.
    pub translation_mm: IVec3,
}

/// The state a rigid body must keep for the integrator: a unit rotation, a
/// bounded angular velocity, a positive bounded mass, and a bounded inverse
/// inertia.
pub open spec fn rigid_wf(s: RigidState) -> bool {
    &&& quat_bounded(s.tf.rotation, SCALE as int)
    &&& iabs(s.ang_velocity.x as int) <= ANG_VEL_MAX
    &&& iabs(s.ang_velocity.y as int) <= ANG_VEL_MAX
    &&& iabs(s.ang_velocity.z as int) <= ANG_VEL_MAX
    &&& 1 <= s.props.mass <= RIGID_MASS_MAX
    &&& mat_bounded(s.props.inertia_inv, INV_INERTIA_ENTRY_MAX as int)
}

/// One velocity-Verlet / symplectic-Euler step of `spec_integrate`, linear
/// part: the new translation, velocity, and remembered acceleration.
pub open spec fn spec_integrate_linear(s: RigidState, dt: int) -> (IVec3, IVec3, IVec3) {
    let delta_mm = IVec3 {
        x: sat_i64(rdiv(s.velocity.x * dt + rdiv(s.acc_prev.x * dt * dt, 2000), 1_000_000)) as i64,
        y: sat_i64(rdiv(s.velocity.y * dt + rdiv(s.acc_prev.y * dt * dt, 2000), 1_000_000)) as i64,
        z: sat_i64(rdiv(s.velocity.z * dt + rdiv(s.acc_prev.z * dt * dt, 2000), 1_000_000)) as i64,
    };
    let acc_new = IVec3 {
        x: rdiv(s.force.x as int, s.props.mass as int) as i64,
        y: rdiv(s.force.y as int, s.props.mass as int) as i64,
        z: rdiv(s.force.z as int, s.props.mass as int) as i64,
    };
    let vel = IVec3 {
        x: sat_i64(s.velocity.x + rdiv((s.acc_prev.x + acc_new.x) * dt, 2000)) as i64,
        y: sat_i64(s.velocity.y + rdiv((s.acc_prev.y + acc_new.y) * dt, 2000)) as i64,
        z: sat_i64(s.velocity.z + rdiv((s.acc_prev.z + acc_new.z) * dt, 2000)) as i64,
    };
    (delta_mm, vel, acc_new)
}

/// The world-axes inverse inertia `R * I_inv * R^T` of a state.
pub open spec fn spec_inv_world(s: RigidState) -> Mat3 {
    let rot = Mat3::spec_from_quat(s.tf.rotation);
    Mat3::spec_mul_scale(Mat3::spec_mul_scale(rot, s.props.inertia_inv), Mat3::spec_transpose(rot))
}

/// One step of the angular part: the new angular velocity and rotation.
pub open spec fn spec_integrate_angular(s: RigidState, dt: int) -> (IVec3, Quat) {
    let inv_world = spec_inv_world(s);
    let ang_acc = Mat3::spec_matvec_div(inv_world, s.torque, 1_000_000);
    let ang_vel = IVec3 {
        x: clamp_mag(sat_i64(s.ang_velocity.x + rdiv(ang_acc.x * dt, 1000)), ANG_VEL_MAX as int) as i64,
        y: clamp_mag(sat_i64(s.ang_velocity.y + rdiv(ang_acc.y * dt, 1000)), ANG_VEL_MAX as int) as i64,
        z: clamp_mag(sat_i64(s.ang_velocity.z + rdiv(ang_acc.z * dt, 1000)), ANG_VEL_MAX as int) as i64,
    };
    let axis = IVec3 {
        x: rdiv(ang_vel.x * dt, 1000) as i64,
        y: rdiv(ang_vel.y * dt, 1000) as i64,
        z: rdiv(ang_vel.z * dt, 1000) as i64,
    };
    let delta_q = Quat::spec_from_scaled_axis(axis);
    (ang_vel, Quat::spec_normalize(q_mul(delta_q, s.tf.rotation)))
}

/// The full integration step: velocity-Verlet translation, symplectic-Euler
/// rotation, and cleared accumulators.
pub open spec fn spec_integrate(s: RigidState, dt: int) -> RigidState {
    let (delta_mm, vel, acc_new) = spec_integrate_linear(s, dt);
    let (ang_vel, rot) = spec_integrate_angular(s, dt);
    RigidState {
        tf: PreciseTransform {
            translation_mm: v_sat_add(s.tf.translation_mm, delta_mm),
            rotation: rot,
        },
        velocity: vel,
        ang_velocity: ang_vel,
        force: IVec3 { x: 0, y: 0, z: 0 },
        torque: IVec3 { x: 0, y: 0, z: 0 },
        acc_prev: acc_new,
        props: s.props,
    }
}

/// Advance a rigid body by one tick: velocity-Verlet for translation,
/// symplectic Euler for rotation, consuming and clearing the force and
/// torque accumulators.
pub fn apply_forces(s: &mut RigidState, dt: i64)
    requires
        rigid_wf(*old(s)),
        0 < dt <= DT_MAX,
    ensures
        *final(s) == spec_integrate(*old(s), dt as int),
        rigid_wf(*final(s)),
{
    let dtw: i128 = dt as i128;
    // linear part
    proof {
        let b = 0x8000_0000_0000_0000int;
        lemma_mul_bound(s.velocity.x as int, dt as int, b, DT_MAX as int);
        lemma_mul_bound(s.velocity.y as int, dt as int, b, DT_MAX as int);
        lemma_mul_bound(s.velocity.z as int, dt as int, b, DT_MAX as int);
        lemma_mul_bound(s.acc_prev.x as int, dt as int, b, DT_MAX as int);
        lemma_mul_bound(s.acc_prev.y as int, dt as int, b, DT_MAX as int);
        lemma_mul_bound(s.acc_prev.z as int, dt as int, b, DT_MAX as int);
        lemma_mul_bound(s.acc_prev.x as int * dt as int, dt as int, b * DT_MAX as int, DT_MAX as int);
        lemma_mul_bound(s.acc_prev.y as int * dt as int, dt as int, b * DT_MAX as int, DT_MAX as int);
        lemma_mul_bound(s.acc_prev.z as int * dt as int, dt as int, b * DT_MAX as int, DT_MAX as int);
        assert(((b * DT_MAX as int) * DT_MAX as int) * 2000 >= (b * DT_MAX as int) * DT_MAX as int
            && (b * DT_MAX as int) * DT_MAX as int >= 0) by (nonlinear_arith)
            requires
                b > 0,
                DT_MAX > 0;
        lemma_rdiv_bound(s.acc_prev.x as int * dt as int * dt as int, 2000, (b * DT_MAX as int) * DT_MAX as int);
        lemma_rdiv_bound(s.acc_prev.y as int * dt as int * dt as int, 2000, (b * DT_MAX as int) * DT_MAX as int);
        lemma_rdiv_bound(s.acc_prev.z as int * dt as int * dt as int, 2000, (b * DT_MAX as int) * DT_MAX as int);
    }
    let dx: i128 = (s.velocity.x as i128) * dtw + rdiv_i128(
        (s.acc_prev.x as i128) * dtw * dtw,
        2000,
    );
    let dy: i128 = (s.velocity.y as i128) * dtw + rdiv_i128(
        (s.acc_prev.y as i128) * dtw * dtw,
        2000,
    );
    let dz: i128 = (s.velocity.z as i128) * dtw + rdiv_i128(
        (s.acc_prev.z as i128) * dtw * dtw,
        2000,
    );
    let delta_mm = IVec3 {
        x: sat64(rdiv_i128(dx, 1_000_000)),
        y: sat64(rdiv_i128(dy, 1_000_000)),
        z: sat64(rdiv_i128(dz, 1_000_000)),
    };
    proof {
        assert(iabs(s.force.x as int) * (s.props.mass as int) >= iabs(s.force.x as int)
            && iabs(s.force.y as int) * (s.props.mass as int) >= iabs(s.force.y as int)
            && iabs(s.force.z as int) * (s.props.mass as int) >= iabs(s.force.z as int))
            by (nonlinear_arith)
            requires
                s.props.mass >= 1,
                iabs(s.force.x as int) >= 0,
                iabs(s.force.y as int) >= 0,
                iabs(s.force.z as int) >= 0;
        lemma_rdiv_bound(s.force.x as int, s.props.mass as int, iabs(s.force.x as int));
        lemma_rdiv_bound(s.force.y as int, s.props.mass as int, iabs(s.force.y as int));
        lemma_rdiv_bound(s.force.z as int, s.props.mass as int, iabs(s.force.z as int));
    }
    let mass: i128 = s.props.mass as i128;
    let acc_new = IVec3 {
        x: rdiv_i128(s.force.x as i128, mass) as i64,
        y: rdiv_i128(s.force.y as i128, mass) as i64,
        z: rdiv_i128(s.force.z as i128, mass) as i64,
    };
    proof {
        let b2 = 2 * 0x8000_0000_0000_0000int;
        lemma_mul_bound((s.acc_prev.x + acc_new.x) as int, dt as int, b2, DT_MAX as int);
        lemma_mul_bound((s.acc_prev.y + acc_new.y) as int, dt as int, b2, DT_MAX as int);
        lemma_mul_bound((s.acc_prev.z + acc_new.z) as int, dt as int, b2, DT_MAX as int);
    }
    let vel = IVec3 {
        x: sat64(s.velocity.x as i128 + rdiv_i128(
            ((s.acc_prev.x as i128) + (acc_new.x as i128)) * dtw,
            2000,
        )),
        y: sat64(s.velocity.y as i128 + rdiv_i128(
            ((s.acc_prev.y as i128) + (acc_new.y as i128)) * dtw,
            2000,
        )),
        z: sat64(s.velocity.z as i128 + rdiv_i128(
            ((s.acc_prev.z as i128) + (acc_new.z as i128)) * dtw,
            2000,
        )),
    };
    // angular part
    let rot = Mat3::from_quat(s.tf.rotation);
    proof {
        assert(3 * ((65 * SCALE as int) * (INV_INERTIA_ENTRY_MAX as int)) == 195_000_000_000_000
            * (SCALE as int)) by (nonlinear_arith);
        lemma_mul_scale_bound(
            rot,
            s.props.inertia_inv,
            Mat3::spec_mul_scale(rot, s.props.inertia_inv),
            65 * SCALE as int,
            INV_INERTIA_ENTRY_MAX as int,
            195_000_000_000_000,
        );
    }
    let tmp = rot.mul_scale(s.props.inertia_inv);
    proof {
        assert(mat_bounded(Mat3::spec_transpose(rot), 65 * SCALE as int));
        assert(3 * (195_000_000_000_000int * (65 * SCALE as int)) == 38_025_000_000_000_000 * (
        SCALE as int)) by (nonlinear_arith);
        lemma_mul_scale_bound(
            tmp,
            Mat3::spec_transpose(rot),
            Mat3::spec_mul_scale(tmp, Mat3::spec_transpose(rot)),
            195_000_000_000_000,
            65 * SCALE as int,
            38_025_000_000_000_000,
        );
    }
    let inv_world = tmp.mul_scale(rot.transpose());
    let ang_acc = inv_world.matvec_div(s.torque, 1_000_000);
    proof {
        lemma_mul_bound(ang_acc.x as int, dt as int, 0x8000_0000_0000_0000int, DT_MAX as int);
        lemma_mul_bound(ang_acc.y as int, dt as int, 0x8000_0000_0000_0000int, DT_MAX as int);
        lemma_mul_bound(ang_acc.z as int, dt as int, 0x8000_0000_0000_0000int, DT_MAX as int);
    }
    let ang_vel = IVec3 {
        x: clamp128(
            sat64(s.ang_velocity.x as i128 + rdiv_i128((ang_acc.x as i128) * dtw, 1000)) as i128,
            ANG_VEL_MAX as i128,
        ) as i64,
        y: clamp128(
            sat64(s.ang_velocity.y as i128 + rdiv_i128((ang_acc.y as i128) * dtw, 1000)) as i128,
            ANG_VEL_MAX as i128,
        ) as i64,
        z: clamp128(
            sat64(s.ang_velocity.z as i128 + rdiv_i128((ang_acc.z as i128) * dtw, 1000)) as i128,
            ANG_VEL_MAX as i128,
        ) as i64,
    };
    proof {
        lemma_mul_bound(ang_vel.x as int, dt as int, ANG_VEL_MAX as int, DT_MAX as int);
        lemma_mul_bound(ang_vel.y as int, dt as int, ANG_VEL_MAX as int, DT_MAX as int);
        lemma_mul_bound(ang_vel.z as int, dt as int, ANG_VEL_MAX as int, DT_MAX as int);
        assert(((ANG_VEL_MAX as int) * (DT_MAX as int)) * 1000 >= (ANG_VEL_MAX as int) * (
        DT_MAX as int) && (ANG_VEL_MAX as int) * (DT_MAX as int)
            == 60_000_000_000_000_000_000int) by (nonlinear_arith);
        lemma_rdiv_bound(ang_vel.x as int * dt as int, 1000, (ANG_VEL_MAX as int) * (DT_MAX as int));
        lemma_rdiv_bound(ang_vel.y as int * dt as int, 1000, (ANG_VEL_MAX as int) * (DT_MAX as int));
        lemma_rdiv_bound(ang_vel.z as int * dt as int, 1000, (ANG_VEL_MAX as int) * (DT_MAX as int));
    }
    let axis = IVec3 {
        x: rdiv_i128((ang_vel.x as i128) * dtw, 1000) as i64,
        y: rdiv_i128((ang_vel.y as i128) * dtw, 1000) as i64,
        z: rdiv_i128((ang_vel.z as i128) * dtw, 1000) as i64,
    };
    let delta_q = Quat::from_scaled_axis(axis);
    proof {
        crate::quat::lemma_qmul_bound(
            delta_q,
            s.tf.rotation,
            SCALE as int,
            SCALE as int,
            4 * SCALE as int,
        );
    }
    let rotation = delta_q.mul(s.tf.rotation).normalize();
    s.tf.translation_mm = s.tf.translation_mm.saturating_add(delta_mm);
    s.tf.rotation = rotation;
    s.velocity = vel;
    s.ang_velocity = ang_vel;
    s.acc_prev = acc_new;
    s.force = IVec3 { x: 0, y: 0, z: 0 };
    s.torque = IVec3 { x: 0, y: 0, z: 0 };
}

/// The gravitational pull of one celestial body on an object: the force
/// vector in micronewtons and its capped magnitude, both zero when the two
/// coincide.  Uses `G = 6.6473e-11`.
pub open spec fn spec_grav_contrib(obj_pos: IVec3, obj_mass: int, c: Celestial) -> (IVec3, int) {
    let dx = rdiv(sat_i64(c.translation_mm.x - obj_pos.x), 1000);
    let dy = rdiv(sat_i64(c.translation_mm.y - obj_pos.y), 1000);
    let dz = rdiv(sat_i64(c.translation_mm.z - obj_pos.z), 1000);
    let r2 = dx * dx + dy * dy + dz * dz;
    if r2 == 0 {
        (IVec3 { x: 0, y: 0, z: 0 }, 0)
    } else {
        let acc = clamp_mag(rdiv(rdiv(c.mass * 66473, r2), 1_000_000), GRAV_ACC_MAX as int);
        let f = clamp_mag(rdiv(acc * obj_mass, 1000), GRAV_FORCE_MAX as int);
        let rl = spec_sqrt(r2);
        let ux = rdiv(dx * SCALE, rl);
        let uy = rdiv(dy * SCALE, rl);
        let uz = rdiv(dz * SCALE, rl);
        (
            IVec3 {
                x: sat_i64(rdiv(f * ux, SCALE as int)) as i64,
                y: sat_i64(rdiv(f * uy, SCALE as int)) as i64,
                z: sat_i64(rdiv(f * uz, SCALE as int)) as i64,
            },
            f,
        )
    }
}

/// The gravity sweep over the first `n` celestial bodies: the accumulated
/// force, the largest single-body force magnitude so far, and the index of
/// the body that produced it (`None` until some body pulls with a positive
/// force).
pub open spec fn spec_gravity_n(
    obj_pos: IVec3,
    obj_mass: int,
    cels: Seq<Celestial>,
    n: nat,
) -> (IVec3, int, Option<int>)
    decreases n,
{
    if n == 0 {
        (IVec3 { x: 0, y: 0, z: 0 }, 0, None)
    } else {
        let (acc, best, soi) = spec_gravity_n(obj_pos, obj_mass, cels, (n - 1) as nat);
        let (fv, mag) = spec_grav_contrib(obj_pos, obj_mass, cels[n - 1]);
        let acc2 = v_sat_add(acc, fv);
        if mag > best {
            (acc2, mag, Some(n - 1))
        } else {
            (acc2, best, soi)
        }
    }
}

/// Compute the gravitational pull of one celestial body on an object.
fn grav_contrib(obj_pos: IVec3, obj_mass: i64, c: &Celestial) -> (r: (IVec3, i128))
    requires
        0 <= c.mass <= crate::orrery::MASS_MAX,
        1 <= obj_mass <= RIGID_MASS_MAX,
    ensures
        r.0 == spec_grav_contrib(obj_pos, obj_mass as int, *c).0,
        r.1 == spec_grav_contrib(obj_pos, obj_mass as int, *c).1,
        0 <= r.1 <= GRAV_FORCE_MAX,
{
    proof {
        lemma_rdiv_bound(
            sat_i64(c.translation_mm.x - obj_pos.x),
            1000,
            9_223_372_036_854_776,
        );
        lemma_rdiv_bound(
            sat_i64(c.translation_mm.y - obj_pos.y),
            1000,
            9_223_372_036_854_776,
        );
        lemma_rdiv_bound(
            sat_i64(c.translation_mm.z - obj_pos.z),
            1000,
            9_223_372_036_854_776,
        );
    }
    let dxv = c.translation_mm.saturating_sub(obj_pos);
    let dx: i128 = rdiv_i128(dxv.x as i128, 1000);
    let dy: i128 = rdiv_i128(dxv.y as i128, 1000);
    let dz: i128 = rdiv_i128(dxv.z as i128, 1000);
    proof {
        let b = 9_223_372_036_854_776int;
        lemma_mul_bound(dx as int, dx as int, b, b);
        lemma_mul_bound(dy as int, dy as int, b, b);
        lemma_mul_bound(dz as int, dz as int, b, b);
        assert(dx * dx >= 0 && dy * dy >= 0 && dz * dz >= 0) by (nonlinear_arith);
        assert(b * b == 85_070_591_730_234_619_407_618_514_010_176int) by (nonlinear_arith)
            requires
                b == 9_223_372_036_854_776int;
    }
    let r2: i128 = dx * dx + dy * dy + dz * dz;
    if r2 == 0 {
        (IVec3 { x: 0, y: 0, z: 0 }, 0)
    } else {
        proof {
            lemma_mul_bound(c.mass as int, 66473, crate::orrery::MASS_MAX as int, 66473);
            assert(iabs(c.mass as int * 66473) <= iabs(c.mass as int * 66473) * r2 as int
                && c.mass as int * 66473 >= 0) by (nonlinear_arith)
                requires
                    r2 >= 1,
                    c.mass >= 0,
                    iabs(c.mass as int * 66473) >= 0;
            crate::num::lemma_rdiv_nonneg(c.mass as int * 66473, r2 as int);
            lemma_rdiv_bound(c.mass as int * 66473, r2 as int, iabs(c.mass as int * 66473));
            assert(iabs(rdiv(c.mass as int * 66473, r2 as int)) * 1_000_000 >= iabs(
                rdiv(c.mass as int * 66473, r2 as int),
            )) by (nonlinear_arith)
                requires
                    iabs(rdiv(c.mass as int * 66473, r2 as int)) >= 0;
            crate::num::lemma_rdiv_nonneg(rdiv(c.mass as int * 66473, r2 as int), 1_000_000);
            lemma_rdiv_bound(
                rdiv(c.mass as int * 66473, r2 as int),
                1_000_000,
                iabs(rdiv(c.mass as int * 66473, r2 as int)),
            );
        }
        let acc: i128 = clamp128(
            rdiv_i128(rdiv_i128(c.mass * 66473, r2), 1_000_000),
            GRAV_ACC_MAX,
        );
        proof {
            lemma_mul_bound(acc as int, obj_mass as int, GRAV_ACC_MAX as int, RIGID_MASS_MAX as int);
            lemma_rdiv_bound(
                acc as int * obj_mass as int,
                1000,
                (GRAV_ACC_MAX as int) * (RIGID_MASS_MAX as int),
            );
            assert(((GRAV_ACC_MAX as int) * (RIGID_MASS_MAX as int)) * 1000 >= (GRAV_ACC_MAX as int)
                * (RIGID_MASS_MAX as int)) by (nonlinear_arith);
            assert(acc as int * obj_mass as int >= 0) by (nonlinear_arith)
                requires
                    acc >= 0,
                    obj_mass >= 1;
            crate::num::lemma_rdiv_nonneg(acc as int * obj_mass as int, 1000);
        }
        let f: i128 = clamp128(rdiv_i128(acc * (obj_mass as i128), 1000), GRAV_FORCE_MAX);
        let rl: u128 = isqrt(r2 as u128);
        proof {
            let rli = rl as int;
            assert(dx * dx <= r2 as int && dy * dy <= r2 as int && dz * dz <= r2 as int)
                by (nonlinear_arith)
                requires
                    dx * dx >= 0,
                    dy * dy >= 0,
                    dz * dz >= 0,
                    r2 == dx * dx + dy * dy + dz * dz;
            assert(iabs(dx as int) <= rli && iabs(dy as int) <= rli && iabs(dz as int) <= rli)
                by (nonlinear_arith)
                requires
                    dx * dx <= r2 as int,
                    dy * dy <= r2 as int,
                    dz * dz <= r2 as int,
                    rli * rli <= r2 as int,
                    (rli + 1) * (rli + 1) > r2 as int,
                    rli >= 0;
            lemma_mul_bound(dx as int, SCALE as int, rli, SCALE as int);
            lemma_mul_bound(dy as int, SCALE as int, rli, SCALE as int);
            lemma_mul_bound(dz as int, SCALE as int, rli, SCALE as int);
            assert(rli * (SCALE as int) == (SCALE as int) * rli) by (nonlinear_arith);
            lemma_rdiv_bound(dx as int * SCALE as int, rli, SCALE as int);
            lemma_rdiv_bound(dy as int * SCALE as int, rli, SCALE as int);
            lemma_rdiv_bound(dz as int * SCALE as int, rli, SCALE as int);
        }
        let s: i128 = SCALE as i128;
        let rli: i128 = rl as i128;
        let ux: i128 = rdiv_i128(dx * s, rli);
        let uy: i128 = rdiv_i128(dy * s, rli);
        let uz: i128 = rdiv_i128(dz * s, rli);
        proof {
            lemma_mul_bound(f as int, ux as int, GRAV_FORCE_MAX as int, SCALE as int);
            lemma_mul_bound(f as int, uy as int, GRAV_FORCE_MAX as int, SCALE as int);
            lemma_mul_bound(f as int, uz as int, GRAV_FORCE_MAX as int, SCALE as int);
        }
        let fv = IVec3 {
            x: sat64(rdiv_i128(f * ux, s)),
            y: sat64(rdiv_i128(f * uy, s)),
            z: sat64(rdiv_i128(f * uz, s)),
        };
        (fv, f)
    }
}

/// Accumulate the gravitational force of every celestial body on an object
/// and pick its sphere of influence: the body whose pull is strongest.
///
/// This is the read-only compute phase; writing the chosen relation back is
/// the caller's commit phase, so concurrent sweeps over other objects never
/// contend.
pub fn gravity(obj_pos: IVec3, obj_mass: i64, celestials: &Vec<Celestial>) -> (r: (
    IVec3,
    Option<usize>,
))
    requires
        1 <= obj_mass <= RIGID_MASS_MAX,
        forall|j: int|
            0 <= j < celestials@.len() ==> 0 <= (#[trigger] celestials@[j]).mass
                <= crate::orrery::MASS_MAX,
    ensures
        r.0 == spec_gravity_n(obj_pos, obj_mass as int, celestials@, celestials@.len()).0,
        ({
            let soi = spec_gravity_n(obj_pos, obj_mass as int, celestials@, celestials@.len()).2;
            match r.1 {
                Some(i) => soi == Some(i as int),
                None => soi is None,
            }
        }),
{
    let mut force = IVec3 { x: 0, y: 0, z: 0 };
    let mut best: i128 = 0;
    let mut soi: Option<usize> = None;
    let n = celestials.len();
    let mut i: usize = 0;
    while i < n
        invariant
            i <= n,
            n == celestials@.len(),
            1 <= obj_mass <= RIGID_MASS_MAX,
            forall|j: int|
                0 <= j < celestials@.len() ==> 0 <= (#[trigger] celestials@[j]).mass
                    <= crate::orrery::MASS_MAX,
            force == spec_gravity_n(obj_pos, obj_mass as int, celestials@, i as nat).0,
            best == spec_gravity_n(obj_pos, obj_mass as int, celestials@, i as nat).1,
            match soi {
                Some(k) => spec_gravity_n(obj_pos, obj_mass as int, celestials@, i as nat).2
                    == Some(k as int),
                None => spec_gravity_n(obj_pos, obj_mass as int, celestials@, i as nat).2 is None,
            },
        decreases n - i,
    {
        let (fv, mag) = grav_contrib(obj_pos, obj_mass, &celestials[i]);
        force = force.saturating_add(fv);
        if mag > best {
            best = mag;
            soi = Some(i);
        }
        i += 1;
    }
    (force, soi)
}

/// A state with its force accumulator replaced, as the external force
/// contributors leave it before each tick.
pub open spec fn with_force(s: RigidState, f: IVec3) -> RigidState {
    RigidState { force: f, ..s }
}

/// `n` ticks of the integrator on a body receiving the same accumulated
/// force before every tick.
pub open spec fn spec_run_const_force(s: RigidState, f: IVec3, dt: int, n: nat) -> RigidState
    decreases n,
{
    if n == 0 {
        s
    } else {
        spec_integrate(with_force(spec_run_const_force(s, f, dt, (n - 1) as nat), f), dt)
    }
}

/// Velocity-Verlet under a constant force: starting from rest, after `n`
/// ticks of length `dt` under accumulated force `f`, the velocity is the
/// half-step of the first tick plus `n - 1` full steps of `a * dt`, where
/// `a = f / mass`; hence it is within one tick's worth of acceleration,
/// plus rounding, of `f / mass * n * dt`.
#[verifier::rlimit(100)]
pub proof fn lemma_const_force_velocity(s0: RigidState, f: IVec3, dt: int, n: nat)
    requires
        rigid_wf(s0),
        s0.velocity == (IVec3 { x: 0, y: 0, z: 0 }),
        s0.acc_prev == (IVec3 { x: 0, y: 0, z: 0 }),
        0 < dt <= DT_MAX,
        1 <= n <= 100_000,
        iabs(f.x as int) <= 1_000_000_000_000,
        iabs(f.y as int) <= 1_000_000_000_000,
        iabs(f.z as int) <= 1_000_000_000_000,
    ensures
        ({
            let m = s0.props.mass as int;
            let ax = rdiv(f.x as int, m);
            let ay = rdiv(f.y as int, m);
            let az = rdiv(f.z as int, m);
            let sn = spec_run_const_force(s0, f, dt, n);
            &&& sn.velocity.x == rdiv(ax * dt, 2000) + (n - 1) * rdiv(2 * ax * dt, 2000)
            &&& sn.velocity.y == rdiv(ay * dt, 2000) + (n - 1) * rdiv(2 * ay * dt, 2000)
            &&& sn.velocity.z == rdiv(az * dt, 2000) + (n - 1) * rdiv(2 * az * dt, 2000)
            &&& sn.acc_prev == (IVec3 { x: ax as i64, y: ay as i64, z: az as i64 })
            &&& sn.props == s0.props
        }),
    decreases n,
{
    let m = s0.props.mass as int;
    let ax = rdiv(f.x as int, m);
    let ay = rdiv(f.y as int, m);
    let az = rdiv(f.z as int, m);
    assert(1_000_000_000_000 * m >= 1_000_000_000_000) by (nonlinear_arith)
        requires
            m >= 1;
    lemma_rdiv_bound(f.x as int, m, 1_000_000_000_000);
    lemma_rdiv_bound(f.y as int, m, 1_000_000_000_000);
    lemma_rdiv_bound(f.z as int, m, 1_000_000_000_000);
    lemma_mul_bound(ax, dt, 1_000_000_000_000, DT_MAX as int);
    lemma_mul_bound(ay, dt, 1_000_000_000_000, DT_MAX as int);
    lemma_mul_bound(az, dt, 1_000_000_000_000, DT_MAX as int);
    assert(2 * ax * dt == 2 * (ax * dt) && 2 * ay * dt == 2 * (ay * dt) && 2 * az * dt == 2 * (az
        * dt) && 1_000_000_000_000int * (DT_MAX as int) == 30_000_000_000_000int * 2000 && 2 * (
    30_000_000_000_000int * 2000) == 60_000_000_000_000int * 2000) by (nonlinear_arith);
    lemma_rdiv_bound(ax * dt, 2000, 30_000_000_000_000);
    lemma_rdiv_bound(ay * dt, 2000, 30_000_000_000_000);
    lemma_rdiv_bound(az * dt, 2000, 30_000_000_000_000);
    lemma_rdiv_bound(2 * ax * dt, 2000, 60_000_000_000_000);
    lemma_rdiv_bound(2 * ay * dt, 2000, 60_000_000_000_000);
    lemma_rdiv_bound(2 * az * dt, 2000, 60_000_000_000_000);
    let hx = rdiv(ax * dt, 2000);
    let fx = rdiv(2 * ax * dt, 2000);
    let hy = rdiv(ay * dt, 2000);
    let fy = rdiv(2 * ay * dt, 2000);
    let hz = rdiv(az * dt, 2000);
    let fz = rdiv(2 * az * dt, 2000);
    if n == 1 {
        assert(spec_run_const_force(s0, f, dt, 0) == s0);
        let s1 = spec_integrate(with_force(s0, f), dt);
        assert(spec_run_const_force(s0, f, dt, n) == s1);
        assert((0 + ax) * dt == ax * dt && (0 + ay) * dt == ay * dt && (0 + az) * dt == az * dt)
            by (nonlinear_arith);
        assert(s1.velocity.x == hx + 0 * fx && s1.velocity.y == hy + 0 * fy && s1.velocity.z == hz
            + 0 * fz) by (nonlinear_arith)
            requires
                s1.velocity.x == sat_i64(0 + hx),
                s1.velocity.y == sat_i64(0 + hy),
                s1.velocity.z == sat_i64(0 + hz),
                sat_i64(0 + hx) == hx,
                sat_i64(0 + hy) == hy,
                sat_i64(0 + hz) == hz;
    } else {
        lemma_const_force_velocity(s0, f, dt, (n - 1) as nat);
        let sp = spec_run_const_force(s0, f, dt, (n - 1) as nat);
        let sn = spec_integrate(with_force(sp, f), dt);
        assert(spec_run_const_force(s0, f, dt, n) == sn);
        let vb = 6_000_000_000_000_000_000int;
        assert(iabs(sp.velocity.x as int) <= vb && iabs(sp.velocity.y as int) <= vb && iabs(
            sp.velocity.z as int,
        ) <= vb) by (nonlinear_arith)
            requires
                sp.velocity.x == hx + (n - 2) * fx,
                sp.velocity.y == hy + (n - 2) * fy,
                sp.velocity.z == hz + (n - 2) * fz,
                iabs(hx) <= 30_000_000_000_000,
                iabs(fx) <= 60_000_000_000_000,
                iabs(hy) <= 30_000_000_000_000,
                iabs(fy) <= 60_000_000_000_000,
                iabs(hz) <= 30_000_000_000_000,
                iabs(fz) <= 60_000_000_000_000,
                vb == 6_000_000_000_000_000_000,
                1 <= n <= 100_000;
        assert((ax + ax) * dt == 2 * ax * dt && (ay + ay) * dt == 2 * ay * dt && (az + az) * dt
            == 2 * az * dt) by (nonlinear_arith);
        assert(sn.velocity.x == sp.velocity.x + fx);
        assert(sn.velocity.y == sp.velocity.y + fy);
        assert(sn.velocity.z == sp.velocity.z + fz);
        assert(sn.velocity.x == hx + (n - 1) * fx && sn.velocity.y == hy + (n - 1) * fy
            && sn.velocity.z == hz + (n - 1) * fz) by (nonlinear_arith)
            requires
                sn.velocity.x == sp.velocity.x + fx,
                sn.velocity.y == sp.velocity.y + fy,
                sn.velocity.z == sp.velocity.z + fz,
                sp.velocity.x == hx + (n - 2) * fx,
                sp.velocity.y == hy + (n - 2) * fy,
                sp.velocity.z == hz + (n - 2) * fz,
                1 <= n;
    }
}

} // verus!
