//! Tests of the docked-assembly aggregation passes.

use starsim::docking::DockChild;
use starsim::docking::DockParent;
use starsim::docking::aggregate_dock_cog;
use starsim::docking::aggregate_dock_forces;
use starsim::docking::run_docking;
use starsim::mat3::Mat3;
use starsim::num::SCALE;
use starsim::physics::MassProps;
use starsim::precision::PreciseTransform;
use starsim::quat::Quat;
use starsim::vec3::IVec3;

fn zero_vec() -> IVec3 {
    IVec3 { x: 0, y: 0, z: 0 }
}

fn identity_tf() -> PreciseTransform {
    PreciseTransform {
        translation_mm: zero_vec(),
        rotation: Quat { x: 0, y: 0, z: 0, w: SCALE },
    }
}

fn parent_at(t: IVec3) -> DockParent {
    DockParent {
        tf: PreciseTransform {
            translation_mm: t,
            rotation: Quat { x: 0, y: 0, z: 0, w: SCALE },
        },
        props: MassProps {
            mass: 1,
            inertia: Mat3::diagonal(1000),
            inertia_inv: Mat3::diagonal(1_000_000_000),
        },
        force: zero_vec(),
        torque: zero_vec(),
    }
}

fn child_of(parent: usize, offset: IVec3, mass: i64) -> DockChild {
    DockChild {
        parent,
        rel_tf: PreciseTransform {
            translation_mm: offset,
            rotation: Quat { x: 0, y: 0, z: 0, w: SCALE },
        },
        props: MassProps {
            mass,
            inertia: Mat3::diagonal(1000),
            inertia_inv: Mat3::diagonal(1_000_000_000),
        },
        force: zero_vec(),
        torque: zero_vec(),
    }
}

#[test]
fn symmetric_pair_keeps_the_parent_centered() {
    // Two children of equal mass m at offsets +d and -d: the center of
    // gravity is the parent's existing origin (no shift) and the aggregate
    // mass is 2 m.
    let m = 500i64;
    let d = IVec3 { x: 2000, y: -3000, z: 500 };
    let neg_d = IVec3 { x: -2000, y: 3000, z: -500 };
    let home = IVec3 { x: 10_000, y: 20_000, z: 30_000 };
    let mut parents = vec![parent_at(home)];
    let mut children = vec![child_of(0, d, m), child_of(0, neg_d, m)];
    aggregate_dock_cog(&mut parents, &mut children);
    assert_eq!(parents[0].tf.translation_mm, home);
    assert_eq!(parents[0].props.mass, 2 * m);
    // the recorded offsets are unchanged by a zero re-centering
    assert_eq!(children[0].rel_tf.translation_mm, d);
    assert_eq!(children[1].rel_tf.translation_mm, neg_d);
}

#[test]
fn lopsided_pair_moves_the_parent() {
    // One child of mass 3m at +x, one of mass m at -x: the center of
    // gravity sits at (3m*d - m*d) / 4m = d/2 along x.
    let d = 1000i64;
    let mut parents = vec![parent_at(zero_vec())];
    let mut children = vec![
        child_of(0, IVec3 { x: d, y: 0, z: 0 }, 300),
        child_of(0, IVec3 { x: -d, y: 0, z: 0 }, 100),
    ];
    aggregate_dock_cog(&mut parents, &mut children);
    assert_eq!(parents[0].tf.translation_mm.x, d / 2);
    assert_eq!(parents[0].props.mass, 400);
    // children keep their world poses: offsets move by the opposite shift
    assert_eq!(children[0].rel_tf.translation_mm.x, d - d / 2);
    assert_eq!(children[1].rel_tf.translation_mm.x, -d - d / 2);
}

#[test]
fn parent_with_no_children_is_skipped() {
    let home = IVec3 { x: 5, y: 6, z: 7 };
    let mut parents = vec![parent_at(home)];
    let mut children: Vec<DockChild> = vec![];
    aggregate_dock_cog(&mut parents, &mut children);
    assert_eq!(parents[0].tf.translation_mm, home);
    assert_eq!(parents[0].props.mass, 1);
}

#[test]
fn forces_fold_into_the_parent_and_clear() {
    let mut parents = vec![parent_at(zero_vec())];
    let mut children = vec![child_of(0, IVec3 { x: 0, y: 2000, z: 0 }, 10)];
    children[0].force = IVec3 { x: 5_000_000, y: 0, z: 0 }; // 5 N along x
    children[0].torque = IVec3 { x: 0, y: 0, z: 123 };
    aggregate_dock_forces(&mut parents, &mut children);
    assert_eq!(parents[0].force, IVec3 { x: 5_000_000, y: 0, z: 0 });
    // lever arm 2 m along y crossed with 5 N along x: -10 N m about z,
    // in micronewton meters, plus the child's own torque
    assert_eq!(parents[0].torque.z, -10_000_000 + 123);
    assert_eq!(children[0].force, zero_vec());
    assert_eq!(children[0].torque, zero_vec());
}

#[test]
fn run_docking_chains_both_passes() {
    let m = 100i64;
    let d = IVec3 { x: 4000, y: 0, z: 0 };
    let neg_d = IVec3 { x: -4000, y: 0, z: 0 };
    let mut parents = vec![parent_at(zero_vec())];
    let mut children = vec![child_of(0, d, m), child_of(0, neg_d, m)];
    children[0].force = IVec3 { x: 0, y: 1_000_000, z: 0 };
    children[1].force = IVec3 { x: 0, y: -1_000_000, z: 0 };
    run_docking(&mut parents, &mut children);
    // equal and opposite forces on a symmetric pair: no net force, but a
    // couple about z of 2 * (4 m * 1 N) = 8 N m
    assert_eq!(parents[0].props.mass, 2 * m);
    assert_eq!(parents[0].force, zero_vec());
    assert_eq!(parents[0].torque.z, 8_000_000);
    assert_eq!(children[0].force, zero_vec());
    assert_eq!(children[1].force, zero_vec());
    // the aggregate inertia of two point masses of 100 kg at 4 m from the
    // axis is 2 * 100 * 16 = 3200 kg m^2 about y and z, plus the children's
    // own unit tensors
    let inertia = parents[0].props.inertia;
    assert_eq!(inertia.zz, 3_200_000 + 2000);
    assert_eq!(inertia.yy, 3_200_000 + 2000);
    assert_eq!(inertia.xx, 2000);
}
