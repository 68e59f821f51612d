//! Tests of the dynamics integrator and the gravity sweep.

use starsim::mat3::Mat3;
use starsim::num::SCALE;
use starsim::physics::Celestial;
use starsim::physics::MassProps;
use starsim::physics::RigidState;
use starsim::physics::apply_forces;
use starsim::physics::gravity;
use starsim::precision::PreciseTransform;
use starsim::quat::Quat;
use starsim::vec3::IVec3;

const SUN_MASS: i128 = 1_988_500_000_000_000_000_000_000_000_000;
const AU_MM: i64 = 149_597_870_700_000;

fn zero_vec() -> IVec3 {
    IVec3 { x: 0, y: 0, z: 0 }
}

fn resting_state(mass: i64) -> RigidState {
    RigidState {
        tf: PreciseTransform {
            translation_mm: zero_vec(),
            rotation: Quat { x: 0, y: 0, z: 0, w: SCALE },
        },
        velocity: zero_vec(),
        ang_velocity: zero_vec(),
        force: zero_vec(),
        torque: zero_vec(),
        acc_prev: zero_vec(),
        props: MassProps {
            mass,
            inertia: Mat3::diagonal(1000),
            inertia_inv: Mat3::diagonal(1_000_000_000),
        },
    }
}

#[test]
fn constant_force_reaches_expected_velocity() {
    // A free body under a constant force, integrated for n ticks, ends
    // within one tick's worth of acceleration of F/m * n * dt.
    let mass = 2i64; // kg
    let dt = 16i64; // ms
    let n = 100i64;
    let force = IVec3 { x: 1000, y: 0, z: 0 }; // micronewtons
    let mut s = resting_state(mass);
    for _ in 0..n {
        s.force = force;
        apply_forces(&mut s, dt);
    }
    // acceleration 500 um/s^2; dv half-step 4, full step 8: 4 + 99 * 8
    assert_eq!(s.velocity.x, 796);
    let exact = (force.x / mass) * n * dt / 1000; // 800 um/s
    let tick = (force.x / mass) * dt / 1000; // 8 um/s
    assert!((s.velocity.x - exact).abs() <= tick);
    assert_eq!(s.velocity.y, 0);
    assert_eq!(s.velocity.z, 0);
    // accumulators were cleared each tick
    assert_eq!(s.force, zero_vec());
    assert_eq!(s.torque, zero_vec());
}

#[test]
fn integrator_moves_a_coasting_body() {
    let mut s = resting_state(1);
    s.velocity = IVec3 { x: 1_000_000, y: 0, z: 0 }; // 1 m/s
    for _ in 0..125 {
        apply_forces(&mut s, 8); // one second in total
    }
    // one meter of travel, to the millimeter
    assert_eq!(s.tf.translation_mm.x, 1000);
    assert_eq!(s.tf.translation_mm.y, 0);
}

#[test]
fn torque_spins_a_body_up() {
    let mut s = resting_state(1);
    s.torque = IVec3 { x: 0, y: 0, z: 1_000_000 }; // one newton meter
    apply_forces(&mut s, 1000);
    // inertia is one kilogram square meter: after one second the angular
    // velocity is one radian per second, in nano-radians per second
    let w = s.ang_velocity.z;
    assert!((w - 1_000_000_000).abs() < 2_000_000, "w = {w}");
    assert_eq!(s.ang_velocity.x, 0);
    assert_eq!(s.ang_velocity.y, 0);
}

#[test]
fn gravity_pulls_toward_the_sun() {
    let sun = Celestial {
        mass: SUN_MASS,
        translation_mm: IVec3 { x: 0, y: 0, z: 0 },
    };
    let obj_pos = IVec3 { x: AU_MM, y: 0, z: 0 };
    let (force, soi) = gravity(obj_pos, 1000, &vec![sun]);
    assert_eq!(soi, Some(0));
    // GM/r^2 at one au is about 5.9e-3 m/s^2; on 1000 kg that is about
    // 5.9 N, i.e. 5.9e6 micronewtons, pointing in -x
    assert!(force.x < -5_800_000 && force.x > -6_100_000, "fx = {}", force.x);
    assert_eq!(force.y, 0);
    assert_eq!(force.z, 0);
}

#[test]
fn sphere_of_influence_picks_the_strongest_pull() {
    let heavy = Celestial {
        mass: SUN_MASS,
        translation_mm: IVec3 { x: 2 * AU_MM, y: 0, z: 0 },
    };
    let light = Celestial {
        mass: SUN_MASS / 1000,
        translation_mm: IVec3 { x: -AU_MM, y: 0, z: 0 },
    };
    // heavy is twice as far but a thousand times more massive
    let (_, soi) = gravity(IVec3 { x: 0, y: 0, z: 0 }, 1, &vec![light, heavy]);
    assert_eq!(soi, Some(1));
}

#[test]
fn gravity_with_no_bodies_selects_nothing() {
    let (force, soi) = gravity(IVec3 { x: 1, y: 2, z: 3 }, 5, &vec![]);
    assert_eq!(force, zero_vec());
    assert_eq!(soi, None);
}

#[test]
fn coinciding_body_contributes_nothing() {
    let here = Celestial {
        mass: SUN_MASS,
        translation_mm: IVec3 { x: 7, y: 7, z: 7 },
    };
    let (force, soi) = gravity(IVec3 { x: 7, y: 7, z: 7 }, 10, &vec![here]);
    assert_eq!(force, zero_vec());
    assert_eq!(soi, None);
}
