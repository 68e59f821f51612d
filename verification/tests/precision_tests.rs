//! Tests of the high-precision spatial representation: unit conversions,
//! quaternion rotation, and the floating-origin projection round trip.

use starsim::num::SCALE;
use starsim::precision::FloatingOrigin;
use starsim::precision::PreciseTransform;
use starsim::quat::Quat;
use starsim::trig::TAU_NANO;
use starsim::vec3::IVec3;

#[test]
fn meters_roundtrip_is_exact() {
    let vals = [
        IVec3 { x: 0, y: 0, z: 0 },
        IVec3 { x: 1, y: -1, z: 123_456_789 },
        IVec3 {
            x: 149_597_870_700_000,
            y: -149_597_870_700_000,
            z: 42,
        },
    ];
    for v in vals {
        assert_eq!(v.to_meters().to_millimeters(), v);
    }
}

#[test]
fn to_meters_scales_by_a_thousand() {
    let v = IVec3 { x: 5, y: -7, z: 0 };
    let m = v.to_meters();
    assert_eq!((m.x, m.y, m.z), (5000, -7000, 0));
}

#[test]
fn to_millimeters_rounds_to_nearest() {
    let m = IVec3 { x: 1499, y: 1500, z: -1500 };
    let v = m.to_millimeters();
    assert_eq!((v.x, v.y, v.z), (1, 2, -2));
}

#[test]
fn project_deproject_roundtrip() {
    let origin = FloatingOrigin(PreciseTransform {
        translation_mm: IVec3 {
            x: 123_456_789_000,
            y: -42,
            z: 7,
        },
        rotation: Quat { x: 0, y: 0, z: 0, w: SCALE },
    });
    let tf = PreciseTransform {
        translation_mm: IVec3 {
            x: 123_456_789_999,
            y: 1_000_000,
            z: -99,
        },
        rotation: Quat { x: 0, y: 0, z: 0, w: SCALE },
    };
    let projected = origin.project(&tf);
    let back = origin.deproject(&projected);
    assert_eq!(back, tf);
}

#[test]
fn project_is_relative_to_origin() {
    let origin = FloatingOrigin(PreciseTransform {
        translation_mm: IVec3 { x: 1000, y: 2000, z: 3000 },
        rotation: Quat { x: 0, y: 0, z: 0, w: SCALE },
    });
    let loc = IVec3 { x: 1001, y: 2002, z: 3003 };
    // one, two and three millimeters from the origin, in micrometers
    let projected = origin.project_loc(loc);
    assert_eq!((projected.x, projected.y, projected.z), (1000, 2000, 3000));
}

#[test]
fn rotation_about_z_turns_x_into_y() {
    let q = Quat::from_rotation_z(TAU_NANO / 4);
    let v = IVec3 { x: 1_000_000, y: 0, z: 0 };
    let r = q.rotate(v);
    assert!(r.x.abs() < 100, "x = {}", r.x);
    assert!((r.y - 1_000_000).abs() < 100, "y = {}", r.y);
    assert_eq!(r.z, 0);
}

#[test]
fn composed_half_turns_cancel() {
    let q = Quat::from_rotation_x(TAU_NANO / 2);
    let twice = q.mul(q).normalize();
    let v = IVec3 { x: 123, y: 456, z: 789 };
    let r = twice.rotate(v);
    assert!((r.x - v.x).abs() <= 1);
    assert!((r.y - v.y).abs() <= 1);
    assert!((r.z - v.z).abs() <= 1);
}

#[test]
fn normalize_restores_unit_scale() {
    let q = Quat {
        x: 2 * SCALE,
        y: 0,
        z: 0,
        w: 2 * SCALE,
    };
    let n = q.normalize();
    let norm2 = (n.x as i128).pow(2) + (n.y as i128).pow(2) + (n.z as i128).pow(2)
        + (n.w as i128).pow(2);
    let unit = (SCALE as i128) * (SCALE as i128);
    assert!((norm2 - unit).abs() < unit / 1_000_000, "norm2 = {norm2}");
    let zero = Quat { x: 0, y: 0, z: 0, w: 0 };
    assert_eq!(zero.normalize(), Quat { x: 0, y: 0, z: 0, w: SCALE });
}

#[test]
fn saturating_vector_arithmetic_clamps() {
    let big = IVec3 {
        x: i64::MAX,
        y: i64::MIN,
        z: 0,
    };
    let one = IVec3 { x: 1, y: -1, z: 5 };
    let sum = big.saturating_add(one);
    assert_eq!((sum.x, sum.y, sum.z), (i64::MAX, i64::MIN, 5));
    let diff = one.saturating_sub(big);
    assert_eq!(diff.x, i64::MIN + 2);
    assert_eq!(diff.y, i64::MAX);
}

#[test]
fn look_to_points_the_back_axis() {
    // looking along -z with +y up is the identity orientation
    let mut tf = PreciseTransform {
        translation_mm: IVec3 { x: 0, y: 0, z: 0 },
        rotation: Quat { x: 0, y: 0, z: 0, w: 1 },
    };
    tf.look_to(
        IVec3 { x: 0, y: 0, z: -SCALE },
        IVec3 { x: 0, y: SCALE, z: 0 },
    );
    let q = tf.rotation;
    assert!((q.w - SCALE).abs() <= 2, "{q:?}");
    assert!(q.x.abs() <= 2 && q.y.abs() <= 2 && q.z.abs() <= 2, "{q:?}");
}

#[test]
fn look_at_faces_the_target() {
    let mut tf = PreciseTransform {
        translation_mm: IVec3 { x: 0, y: 0, z: 0 },
        rotation: Quat { x: 0, y: 0, z: 0, w: SCALE },
    };
    // a target along +x: the rotated -z axis must point at it
    tf.look_at(
        IVec3 { x: 5000, y: 0, z: 0 },
        IVec3 { x: 0, y: SCALE, z: 0 },
    );
    let fwd = tf.rotation.rotate(IVec3 { x: 0, y: 0, z: -SCALE });
    assert!((fwd.x - SCALE).abs() < 20_000_000, "{fwd:?}");
    assert!(fwd.y.abs() < 20_000_000 && fwd.z.abs() < 20_000_000, "{fwd:?}");
}

#[test]
fn look_to_survives_a_degenerate_up() {
    // up parallel to the view direction: an arbitrary orthogonal vector
    // must take its place, and the result stays a unit rotation
    let mut tf = PreciseTransform {
        translation_mm: IVec3 { x: 0, y: 0, z: 0 },
        rotation: Quat { x: 0, y: 0, z: 0, w: SCALE },
    };
    tf.look_to(
        IVec3 { x: 0, y: SCALE, z: 0 },
        IVec3 { x: 0, y: SCALE, z: 0 },
    );
    let q = tf.rotation;
    let norm2 = (q.x as i128).pow(2) + (q.y as i128).pow(2) + (q.z as i128).pow(2)
        + (q.w as i128).pow(2);
    let unit = (SCALE as i128) * (SCALE as i128);
    assert!((norm2 - unit).abs() < unit / 10_000, "norm2 = {norm2}");
}

#[test]
fn rebasing_projects_every_transform()
{
    let origin = FloatingOrigin(PreciseTransform {
        translation_mm: IVec3 { x: 500, y: 0, z: 0 },
        rotation: Quat { x: 0, y: 0, z: 0, w: SCALE },
    });
    let precise = vec![
        PreciseTransform {
            translation_mm: IVec3 { x: 500, y: 1, z: 2 },
            rotation: Quat { x: 0, y: 0, z: 0, w: SCALE },
        },
        PreciseTransform {
            translation_mm: IVec3 { x: 1500, y: 0, z: 0 },
            rotation: Quat { x: 0, y: 0, z: 0, w: SCALE },
        },
    ];
    let rendered = starsim::precision::float_origin(&origin, &precise);
    assert_eq!(rendered.len(), 2);
    assert_eq!(rendered[0].translation, IVec3 { x: 0, y: 1000, z: 2000 });
    assert_eq!(rendered[1].translation, IVec3 { x: 1_000_000, y: 0, z: 0 });
}
