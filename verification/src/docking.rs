//! Docked-assembly aggregation.
//!
//! A dock tree is flat data: each child stores the index of its parent and a
//! fixed offset in the parent's local frame.  Aggregation runs in two passes
//! whose order is a correctness contract: first every parent absorbs its
//! children's mass and inertia and re-centers itself on the assembly's
//! center of gravity (reading all original offsets before mutating any),
//! then the children's accumulated forces and torques fold into the parent
//! and are cleared.

use vstd::prelude::*;
use crate::num::SCALE;
use crate::num::iabs;
use crate::num::rdiv;
use crate::num::sat_i64;
use crate::num::clamp_mag;
use crate::num::lemma_mul_bound;
use crate::num::lemma_rdiv_bound;
use crate::num::rdiv_i128;
use crate::num::sat64;
use crate::num::clamp128;
use crate::mat3::Mat3;
use crate::mat3::INERTIA_MAX;
use crate::mat3::mat_bounded;
use crate::mat3::rdiv_s;
use crate::mat3::spec_det;
use crate::physics::MassProps;
use crate::physics::RIGID_MASS_MAX;
use crate::precision::PreciseTransform;
use crate::quat::quat_bounded;
use crate::quat::q_rotate;
use crate::vec3::IVec3;
use crate::vec3::v_sat_add;
use crate::vec3::v_sat_sub;

verus! {

/// Largest child offset from its dock parent, in millimeters.
pub const DOCK_OFFSET_MAX: i64 = 1_000_000_000;

/// Largest number of docked children.
pub const DOCK_CHILDREN_MAX: usize = 10_000;

/// A docked child: the index of its parent, its fixed offset in the
/// parent's local frame, and its own mass properties and accumulators.
#[derive(Clone, Copy, Debug, PartialEq, Eq, Structural)]
pub struct DockChild {
    /// Index of the parent in the parents list.
    pub parent: usize,
    /// Fixed offset from the parent's local frame.
    pub rel_tf: PreciseTransform,
    /// The child's own mass properties.
    pub props: MassProps,
    /// Accumulated force, micronewtons.
    pub force: IVec3,
    /// Accumulated torque, micronewton meters.
    pub torque: IVec3,
}

/// A dock parent: an invisible rigid body standing for the whole assembly.
#[derive(Clone, Copy, Debug, PartialEq, Eq, Structural)]
pub struct DockParent {
    /// World pose of the assembly.
    pub tf: PreciseTransform,
    /// Aggregated mass properties (rewritten each tick).
    pub props: MassProps,
    /// Accumulated force, micronewtons.
    pub force: IVec3,
    /// Accumulated torque, micronewton meters.
    pub torque: IVec3,
}

/// Every child names an existing parent and has bounded fields; parents
/// have unit rotations.
pub open spec fn dock_wf(parents: Seq<DockParent>, children: Seq<DockChild>) -> bool {
    &&& children.len() <= DOCK_CHILDREN_MAX
    &&& forall|j: int|
        0 <= j < children.len() ==> {
            let c = #[trigger] children[j];
            &&& c.parent < parents.len()
            &&& 0 <= c.props.mass <= RIGID_MASS_MAX
            &&& iabs(c.rel_tf.translation_mm.x as int) <= DOCK_OFFSET_MAX
            &&& iabs(c.rel_tf.translation_mm.y as int) <= DOCK_OFFSET_MAX
            &&& iabs(c.rel_tf.translation_mm.z as int) <= DOCK_OFFSET_MAX
            &&& quat_bounded(c.rel_tf.rotation, SCALE as int)
            &&& mat_bounded(c.props.inertia, INERTIA_MAX as int)
        }
    &&& forall|p: int|
        0 <= p < parents.len() ==> quat_bounded((#[trigger] parents[p]).tf.rotation, SCALE as int)
}

/// Mass and mass-weighted offset sums of the first `n` children of parent
/// `p`: `(mass, m*x, m*y, m*z)`.
pub open spec fn group_sums(cs: Seq<DockChild>, p: int, n: nat) -> (int, int, int, int)
    decreases n,
{
    if n == 0 {
        (0, 0, 0, 0)
    } else {
        let (m, x, y, z) = group_sums(cs, p, (n - 1) as nat);
        let c = cs[n - 1];
        if c.parent == p {
            (
                m + c.props.mass,
                x + c.props.mass * c.rel_tf.translation_mm.x,
                y + c.props.mass * c.rel_tf.translation_mm.y,
                z + c.props.mass * c.rel_tf.translation_mm.z,
            )
        } else {
            (m, x, y, z)
        }
    }
}

/// The center of gravity of parent `p`'s children in the parent's local
/// frame, in millimeters; `None` when the group has zero total mass (such a
/// parent is skipped).
pub open spec fn spec_cog(cs: Seq<DockChild>, p: int) -> Option<IVec3> {
    let (m, x, y, z) = group_sums(cs, p, cs.len());
    if m == 0 {
        None
    } else {
        Some(IVec3 { x: rdiv(x, m) as i64, y: rdiv(y, m) as i64, z: rdiv(z, m) as i64 })
    }
}

/// A child after the re-centering pass: its recorded offset moves by the
/// opposite of its group's center of gravity, so its world pose is
/// unchanged.
pub open spec fn spec_shift_child(cs_old: Seq<DockChild>, c: DockChild) -> DockChild {
    match spec_cog(cs_old, c.parent as int) {
        None => c,
        Some(g) => DockChild {
            rel_tf: PreciseTransform {
                translation_mm: v_sat_sub(c.rel_tf.translation_mm, g),
                rotation: c.rel_tf.rotation,
            },
            ..c
        },
    }
}

/// The inertia contribution of one (already re-centered) child, in gram
/// square meters: its own tensor carried into the parent's axes plus the
/// parallel-axis term `m * (|r|^2 E - r r^T)`.
pub open spec fn spec_child_inertia(c: DockChild) -> (int, int, int, int, int, int, int, int, int) {
    let r = c.rel_tf.translation_mm;
    let rot = Mat3::spec_from_quat(c.rel_tf.rotation);
    let ic = Mat3::spec_mul_scale(
        Mat3::spec_mul_scale(rot, c.props.inertia),
        Mat3::spec_transpose(rot),
    );
    let m = c.props.mass as int;
    (
        ic.xx + rdiv(m * (r.y * r.y + r.z * r.z), 1000),
        ic.xy + rdiv(-(m * (r.x * r.y)), 1000),
        ic.xz + rdiv(-(m * (r.x * r.z)), 1000),
        ic.yx + rdiv(-(m * (r.y * r.x)), 1000),
        ic.yy + rdiv(m * (r.x * r.x + r.z * r.z), 1000),
        ic.yz + rdiv(-(m * (r.y * r.z)), 1000),
        ic.zx + rdiv(-(m * (r.z * r.x)), 1000),
        ic.zy + rdiv(-(m * (r.z * r.y)), 1000),
        ic.zz + rdiv(m * (r.x * r.x + r.y * r.y), 1000),
    )
}

/// Sum of the inertia contributions of the first `n` children of parent
/// `p`, read from the re-centered children.
pub open spec fn group_inertia(cs: Seq<DockChild>, p: int, n: nat) -> (
    int,
    int,
    int,
    int,
    int,
    int,
    int,
    int,
    int,
)
    decreases n,
{
    if n == 0 {
        (0, 0, 0, 0, 0, 0, 0, 0, 0)
    } else {
        let (xx, xy, xz, yx, yy, yz, zx, zy, zz) = group_inertia(cs, p, (n - 1) as nat);
        let c = cs[n - 1];
        if c.parent == p {
            let (cxx, cxy, cxz, cyx, cyy, cyz, czx, czy, czz) = spec_child_inertia(c);
            (
                xx + cxx,
                xy + cxy,
                xz + cxz,
                yx + cyx,
                yy + cyy,
                yz + cyz,
                zx + czx,
                zy + czy,
                zz + czz,
            )
        } else {
            (xx, xy, xz, yx, yy, yz, zx, zy, zz)
        }
    }
}

/// The aggregated inertia tensor of parent `p`, each entry clamped into the
/// invertible range.
pub open spec fn spec_group_inertia_mat(cs_shifted: Seq<DockChild>, p: int) -> Mat3 {
    let (xx, xy, xz, yx, yy, yz, zx, zy, zz) = group_inertia(cs_shifted, p, cs_shifted.len());
    let b = INERTIA_MAX as int;
    Mat3 {
        xx: clamp_mag(xx, b) as i64,
        xy: clamp_mag(xy, b) as i64,
        xz: clamp_mag(xz, b) as i64,
        yx: clamp_mag(yx, b) as i64,
        yy: clamp_mag(yy, b) as i64,
        yz: clamp_mag(yz, b) as i64,
        zx: clamp_mag(zx, b) as i64,
        zy: clamp_mag(zy, b) as i64,
        zz: clamp_mag(zz, b) as i64,
    }
}

/// The inverse of an aggregated inertia tensor; the zero matrix (no
/// rotation response) when the tensor is singular.
pub open spec fn spec_inertia_inverse_or_zero(m: Mat3) -> Mat3 {
    let det = spec_det(m);
    if det == 0 {
        Mat3 { xx: 0, xy: 0, xz: 0, yx: 0, yy: 0, yz: 0, zx: 0, zy: 0, zz: 0 }
    } else {
        let sc = crate::mat3::INV_INERTIA_SCALE as int;
        Mat3 {
            xx: sat_i64(rdiv_s((m.yy * m.zz - m.yz * m.zy) * sc, det)) as i64,
            xy: sat_i64(rdiv_s((m.xz * m.zy - m.xy * m.zz) * sc, det)) as i64,
            xz: sat_i64(rdiv_s((m.xy * m.yz - m.xz * m.yy) * sc, det)) as i64,
            yx: sat_i64(rdiv_s((m.yz * m.zx - m.yx * m.zz) * sc, det)) as i64,
            yy: sat_i64(rdiv_s((m.xx * m.zz - m.xz * m.zx) * sc, det)) as i64,
            yz: sat_i64(rdiv_s((m.xz * m.yx - m.xx * m.yz) * sc, det)) as i64,
            zx: sat_i64(rdiv_s((m.yx * m.zy - m.yy * m.zx) * sc, det)) as i64,
            zy: sat_i64(rdiv_s((m.xy * m.zx - m.xx * m.zy) * sc, det)) as i64,
            zz: sat_i64(rdiv_s((m.xx * m.yy - m.xy * m.yx) * sc, det)) as i64,
        }
    }
}

/// A dock parent after the aggregate pass: skipped when its children have
/// zero total mass; otherwise its world position moves to the assembly's
/// center of mass and its mass properties become the children's aggregate.
pub open spec fn spec_update_parent(
    par: DockParent,
    cs_old: Seq<DockChild>,
    cs_shifted: Seq<DockChild>,
    p: int,
) -> DockParent {
    match spec_cog(cs_old, p) {
        None => par,
        Some(g) => {
            let (m, x, y, z) = group_sums(cs_old, p, cs_old.len());
            DockParent {
                tf: PreciseTransform {
                    translation_mm: v_sat_add(
                        par.tf.translation_mm,
                        q_rotate(par.tf.rotation, g),
                    ),
                    rotation: par.tf.rotation,
                },
                props: MassProps {
                    mass: sat_i64(m) as i64,
                    inertia: spec_group_inertia_mat(cs_shifted, p),
                    inertia_inv: spec_inertia_inverse_or_zero(
                        spec_group_inertia_mat(cs_shifted, p),
                    ),
                },
                ..par
            }
        },
    }
}

/// The full children list after re-centering every group.
pub open spec fn shifted_all(cs_old: Seq<DockChild>) -> Seq<DockChild> {
    Seq::new(cs_old.len(), |j: int| spec_shift_child(cs_old, cs_old[j]))
}

/// Group sums read only the children of their own parent.
proof fn lemma_group_sums_agree(cs1: Seq<DockChild>, cs2: Seq<DockChild>, p: int, n: nat)
    requires
        cs1.len() == cs2.len(),
        n <= cs1.len(),
        forall|j: int|
            0 <= j < cs1.len() ==> (#[trigger] cs1[j]).parent == cs2[j].parent && (cs1[j].parent
                == p ==> cs1[j] == cs2[j]),
    ensures
        group_sums(cs1, p, n) == group_sums(cs2, p, n),
    decreases n,
{
    if n > 0 {
        lemma_group_sums_agree(cs1, cs2, p, (n - 1) as nat);
    }
}

/// Group inertia reads only the children of its own parent.
proof fn lemma_group_inertia_agree(cs1: Seq<DockChild>, cs2: Seq<DockChild>, p: int, n: nat)
    requires
        cs1.len() == cs2.len(),
        n <= cs1.len(),
        forall|j: int|
            0 <= j < cs1.len() ==> (#[trigger] cs1[j]).parent == cs2[j].parent && (cs1[j].parent
                == p ==> cs1[j] == cs2[j]),
    ensures
        group_inertia(cs1, p, n) == group_inertia(cs2, p, n),
    decreases n,
{
    if n > 0 {
        lemma_group_inertia_agree(cs1, cs2, p, (n - 1) as nat);
    }
}

/// Bounds on group sums from bounds on the children: nonnegative total
/// mass, and mass-weighted sums within `mass * DOCK_OFFSET_MAX`.
proof fn lemma_group_sums_bounds(cs: Seq<DockChild>, p: int, n: nat)
    requires
        n <= cs.len(),
        forall|j: int|
            0 <= j < cs.len() ==> {
                let c = #[trigger] cs[j];
                &&& 0 <= c.props.mass <= RIGID_MASS_MAX
                &&& iabs(c.rel_tf.translation_mm.x as int) <= DOCK_OFFSET_MAX
                &&& iabs(c.rel_tf.translation_mm.y as int) <= DOCK_OFFSET_MAX
                &&& iabs(c.rel_tf.translation_mm.z as int) <= DOCK_OFFSET_MAX
            },
    ensures
        ({
            let (m, x, y, z) = group_sums(cs, p, n);
            &&& 0 <= m <= n * RIGID_MASS_MAX
            &&& iabs(x) <= m * DOCK_OFFSET_MAX
            &&& iabs(y) <= m * DOCK_OFFSET_MAX
            &&& iabs(z) <= m * DOCK_OFFSET_MAX
        }),
    decreases n,
{
    if n == 0 {
    } else {
        lemma_group_sums_bounds(cs, p, (n - 1) as nat);
        let (m, x, y, z) = group_sums(cs, p, (n - 1) as nat);
        let c = cs[n - 1];
        if c.parent == p {
            let cm = c.props.mass as int;
            lemma_mul_bound(cm, c.rel_tf.translation_mm.x as int, RIGID_MASS_MAX as int, DOCK_OFFSET_MAX as int);
            lemma_mul_bound(cm, c.rel_tf.translation_mm.y as int, RIGID_MASS_MAX as int, DOCK_OFFSET_MAX as int);
            lemma_mul_bound(cm, c.rel_tf.translation_mm.z as int, RIGID_MASS_MAX as int, DOCK_OFFSET_MAX as int);
            assert(iabs(cm * (c.rel_tf.translation_mm.x as int)) <= cm * DOCK_OFFSET_MAX && iabs(
                cm * (c.rel_tf.translation_mm.y as int),
            ) <= cm * DOCK_OFFSET_MAX && iabs(cm * (c.rel_tf.translation_mm.z as int)) <= cm
                * DOCK_OFFSET_MAX && (m + cm) * DOCK_OFFSET_MAX == m * DOCK_OFFSET_MAX + cm
                * DOCK_OFFSET_MAX && (n as int) * RIGID_MASS_MAX == (n - 1) * RIGID_MASS_MAX
                + RIGID_MASS_MAX) by (nonlinear_arith)
                requires
                    0 <= cm <= RIGID_MASS_MAX,
                    iabs(c.rel_tf.translation_mm.x as int) <= DOCK_OFFSET_MAX,
                    iabs(c.rel_tf.translation_mm.y as int) <= DOCK_OFFSET_MAX,
                    iabs(c.rel_tf.translation_mm.z as int) <= DOCK_OFFSET_MAX,
                    0 <= m,
                    n >= 1;
        } else {
            assert((n as int) * RIGID_MASS_MAX >= (n - 1) * RIGID_MASS_MAX) by (nonlinear_arith);
        }
    }
}

/// A mix of original and re-centered children keeps every bound the
/// aggregator needs, with offsets at most doubled.
proof fn lemma_mixed_children_bounded(cs0: Seq<DockChild>, cs: Seq<DockChild>)
    requires
        cs.len() == cs0.len(),
        cs0.len() <= DOCK_CHILDREN_MAX,
        forall|j: int|
            0 <= j < cs0.len() ==> {
                let c = #[trigger] cs0[j];
                &&& 0 <= c.props.mass <= RIGID_MASS_MAX
                &&& iabs(c.rel_tf.translation_mm.x as int) <= DOCK_OFFSET_MAX
                &&& iabs(c.rel_tf.translation_mm.y as int) <= DOCK_OFFSET_MAX
                &&& iabs(c.rel_tf.translation_mm.z as int) <= DOCK_OFFSET_MAX
                &&& quat_bounded(c.rel_tf.rotation, SCALE as int)
                &&& mat_bounded(c.props.inertia, INERTIA_MAX as int)
            },
        forall|j: int|
            0 <= j < cs.len() ==> (#[trigger] cs[j]) == cs0[j] || cs[j] == spec_shift_child(
                cs0,
                cs0[j],
            ),
    ensures
        forall|j: int|
            0 <= j < cs.len() ==> {
                let c = #[trigger] cs[j];
                &&& 0 <= c.props.mass <= RIGID_MASS_MAX
                &&& iabs(c.rel_tf.translation_mm.x as int) <= 2 * DOCK_OFFSET_MAX
                &&& iabs(c.rel_tf.translation_mm.y as int) <= 2 * DOCK_OFFSET_MAX
                &&& iabs(c.rel_tf.translation_mm.z as int) <= 2 * DOCK_OFFSET_MAX
                &&& quat_bounded(c.rel_tf.rotation, SCALE as int)
                &&& mat_bounded(c.props.inertia, INERTIA_MAX as int)
            },
{
    assert forall|j: int| 0 <= j < cs.len() implies {
        let c = #[trigger] cs[j];
        &&& 0 <= c.props.mass <= RIGID_MASS_MAX
        &&& iabs(c.rel_tf.translation_mm.x as int) <= 2 * DOCK_OFFSET_MAX
        &&& iabs(c.rel_tf.translation_mm.y as int) <= 2 * DOCK_OFFSET_MAX
        &&& iabs(c.rel_tf.translation_mm.z as int) <= 2 * DOCK_OFFSET_MAX
        &&& quat_bounded(c.rel_tf.rotation, SCALE as int)
        &&& mat_bounded(c.props.inertia, INERTIA_MAX as int)
    } by {
        if cs[j] != cs0[j] {
            let p = cs0[j].parent as int;
            lemma_group_sums_bounds(cs0, p, cs0.len());
            let (m, x, y, z) = group_sums(cs0, p, cs0.len());
            if m != 0 {
                assert(m * DOCK_OFFSET_MAX == DOCK_OFFSET_MAX * m) by (nonlinear_arith);
                lemma_rdiv_bound(x, m, DOCK_OFFSET_MAX as int);
                lemma_rdiv_bound(y, m, DOCK_OFFSET_MAX as int);
                lemma_rdiv_bound(z, m, DOCK_OFFSET_MAX as int);
            }
        }
    }
}

/// Read pass of the aggregator: mass and mass-weighted offset sums of the
/// children of parent `p`.
fn dock_group_sums(children: &Vec<DockChild>, p: usize) -> (r: (i128, i128, i128, i128))
    requires
        children@.len() <= DOCK_CHILDREN_MAX,
        forall|j: int|
            0 <= j < children@.len() ==> {
                let c = #[trigger] children@[j];
                &&& 0 <= c.props.mass <= RIGID_MASS_MAX
                &&& iabs(c.rel_tf.translation_mm.x as int) <= 2 * DOCK_OFFSET_MAX
                &&& iabs(c.rel_tf.translation_mm.y as int) <= 2 * DOCK_OFFSET_MAX
                &&& iabs(c.rel_tf.translation_mm.z as int) <= 2 * DOCK_OFFSET_MAX
            },
    ensures
        (r.0 as int, r.1 as int, r.2 as int, r.3 as int) == group_sums(
            children@,
            p as int,
            children@.len(),
        ),
        0 <= r.0 <= DOCK_CHILDREN_MAX * RIGID_MASS_MAX,
{
    let n = children.len();
    let mut m: i128 = 0;
    let mut x: i128 = 0;
    let mut y: i128 = 0;
    let mut z: i128 = 0;
    let mut i: usize = 0;
    while i < n
        invariant
            i <= n,
            n == children@.len(),
            n <= DOCK_CHILDREN_MAX,
            forall|j: int|
                0 <= j < children@.len() ==> {
                    let c = #[trigger] children@[j];
                    &&& 0 <= c.props.mass <= RIGID_MASS_MAX
                    &&& iabs(c.rel_tf.translation_mm.x as int) <= 2 * DOCK_OFFSET_MAX
                    &&& iabs(c.rel_tf.translation_mm.y as int) <= 2 * DOCK_OFFSET_MAX
                    &&& iabs(c.rel_tf.translation_mm.z as int) <= 2 * DOCK_OFFSET_MAX
                },
            (m as int, x as int, y as int, z as int) == group_sums(children@, p as int, i as nat),
            0 <= m <= i * RIGID_MASS_MAX,
            iabs(x as int) <= m * (2 * DOCK_OFFSET_MAX),
            iabs(y as int) <= m * (2 * DOCK_OFFSET_MAX),
            iabs(z as int) <= m * (2 * DOCK_OFFSET_MAX),
        decreases n - i,
    {
        let c = &children[i];
        if c.parent == p {
            proof {
                let cm = c.props.mass as int;
                let off2 = 2 * DOCK_OFFSET_MAX as int;
                lemma_mul_bound(cm, c.rel_tf.translation_mm.x as int, RIGID_MASS_MAX as int, off2);
                lemma_mul_bound(cm, c.rel_tf.translation_mm.y as int, RIGID_MASS_MAX as int, off2);
                lemma_mul_bound(cm, c.rel_tf.translation_mm.z as int, RIGID_MASS_MAX as int, off2);
                assert(iabs(cm * (c.rel_tf.translation_mm.x as int)) <= cm * off2
                    && iabs(cm * (c.rel_tf.translation_mm.y as int)) <= cm * off2
                    && iabs(cm * (c.rel_tf.translation_mm.z as int)) <= cm * off2
                    && (m as int + cm) * off2 == m * off2 + cm
                    * off2 && (i + 1) * RIGID_MASS_MAX == i * RIGID_MASS_MAX
                    + RIGID_MASS_MAX && m * off2 <= 20_000_000_000_000_000_000_000_000
                    && cm * off2 <= 2_000_000_000_000_000_000_000) by (nonlinear_arith)
                    requires
                        0 <= cm <= RIGID_MASS_MAX,
                        iabs(c.rel_tf.translation_mm.x as int) <= off2,
                        iabs(c.rel_tf.translation_mm.y as int) <= off2,
                        iabs(c.rel_tf.translation_mm.z as int) <= off2,
                        off2 == 2 * DOCK_OFFSET_MAX as int,
                        0 <= m,
                        m <= i * RIGID_MASS_MAX,
                        0 <= i <= 10_000;
            }
            m = m + c.props.mass as i128;
            x = x + (c.props.mass as i128) * (c.rel_tf.translation_mm.x as i128);
            y = y + (c.props.mass as i128) * (c.rel_tf.translation_mm.y as i128);
            z = z + (c.props.mass as i128) * (c.rel_tf.translation_mm.z as i128);
        }
        i += 1;
    }
    (m, x, y, z)
}

/// Re-center the children of parent `p` on their center of gravity: each
/// recorded offset moves by `-g`; their world poses are unchanged.
fn shift_group(children: &mut Vec<DockChild>, p: usize, g: IVec3)
    ensures
        final(children)@.len() == old(children)@.len(),
        forall|j: int|
            0 <= j < old(children)@.len() ==> final(children)@[j] == (if old(children)@[j].parent
                == p {
                DockChild {
                    rel_tf: PreciseTransform {
                        translation_mm: v_sat_sub(
                            old(children)@[j].rel_tf.translation_mm,
                            g,
                        ),
                        rotation: old(children)@[j].rel_tf.rotation,
                    },
                    ..old(children)@[j]
                }
            } else {
                old(children)@[j]
            }),
{
    let n = children.len();
    let mut i: usize = 0;
    while i < n
        invariant
            i <= n,
            n == children@.len(),
            children@.len() == old(children)@.len(),
            forall|j: int| i <= j < n ==> children@[j] == old(children)@[j],
            forall|j: int|
                0 <= j < i ==> children@[j] == (if old(children)@[j].parent == p {
                    DockChild {
                        rel_tf: PreciseTransform {
                            translation_mm: v_sat_sub(
                                old(children)@[j].rel_tf.translation_mm,
                                g,
                            ),
                            rotation: old(children)@[j].rel_tf.rotation,
                        },
                        ..old(children)@[j]
                    }
                } else {
                    old(children)@[j]
                }),
        decreases n - i,
    {
        if children[i].parent == p {
            let shifted = children[i].rel_tf.translation_mm.saturating_sub(g);
            children[i].rel_tf.translation_mm = shifted;
        }
        i += 1;
    }
}

/// Accumulate the inertia tensor of parent `p`'s (re-centered) children,
/// clamping each entry into the invertible range.
fn group_inertia_mat(children: &Vec<DockChild>, p: usize) -> (r: Mat3)
    requires
        children@.len() <= DOCK_CHILDREN_MAX,
        forall|j: int|
            0 <= j < children@.len() ==> {
                let c = #[trigger] children@[j];
                &&& 0 <= c.props.mass <= RIGID_MASS_MAX
                &&& iabs(c.rel_tf.translation_mm.x as int) <= 2 * DOCK_OFFSET_MAX
                &&& iabs(c.rel_tf.translation_mm.y as int) <= 2 * DOCK_OFFSET_MAX
                &&& iabs(c.rel_tf.translation_mm.z as int) <= 2 * DOCK_OFFSET_MAX
                &&& quat_bounded(c.rel_tf.rotation, SCALE as int)
                &&& mat_bounded(c.props.inertia, INERTIA_MAX as int)
            },
    ensures
        r == spec_group_inertia_mat(children@, p as int),
        mat_bounded(r, INERTIA_MAX as int),
{
    let n = children.len();
    let mut xx: i128 = 0;
    let mut xy: i128 = 0;
    let mut xz: i128 = 0;
    let mut yx: i128 = 0;
    let mut yy: i128 = 0;
    let mut yz: i128 = 0;
    let mut zx: i128 = 0;
    let mut zy: i128 = 0;
    let mut zz: i128 = 0;
    let mut i: usize = 0;
    while i < n
        invariant
            i <= n,
            n == children@.len(),
            n <= DOCK_CHILDREN_MAX,
            forall|j: int|
                0 <= j < children@.len() ==> {
                    let c = #[trigger] children@[j];
                    &&& 0 <= c.props.mass <= RIGID_MASS_MAX
                    &&& iabs(c.rel_tf.translation_mm.x as int) <= 2 * DOCK_OFFSET_MAX
                    &&& iabs(c.rel_tf.translation_mm.y as int) <= 2 * DOCK_OFFSET_MAX
                    &&& iabs(c.rel_tf.translation_mm.z as int) <= 2 * DOCK_OFFSET_MAX
                    &&& quat_bounded(c.rel_tf.rotation, SCALE as int)
                    &&& mat_bounded(c.props.inertia, INERTIA_MAX as int)
                },
            (
                xx as int,
                xy as int,
                xz as int,
                yx as int,
                yy as int,
                yz as int,
                zx as int,
                zy as int,
                zz as int,
            ) == group_inertia(children@, p as int, i as nat),
            iabs(xx as int) <= i * 10_000_000_000_000_000_000_000_000_000,
            iabs(xy as int) <= i * 10_000_000_000_000_000_000_000_000_000,
            iabs(xz as int) <= i * 10_000_000_000_000_000_000_000_000_000,
            iabs(yx as int) <= i * 10_000_000_000_000_000_000_000_000_000,
            iabs(yy as int) <= i * 10_000_000_000_000_000_000_000_000_000,
            iabs(yz as int) <= i * 10_000_000_000_000_000_000_000_000_000,
            iabs(zx as int) <= i * 10_000_000_000_000_000_000_000_000_000,
            iabs(zy as int) <= i * 10_000_000_000_000_000_000_000_000_000,
            iabs(zz as int) <= i * 10_000_000_000_000_000_000_000_000_000,
        decreases n - i,
    {
        let c = &children[i];
        if c.parent == p {
            let term = child_inertia(c);
            proof {
                assert((i + 1) * 10_000_000_000_000_000_000_000_000_000int == i
                    * 10_000_000_000_000_000_000_000_000_000 + 10_000_000_000_000_000_000_000_000_000)
                    by (nonlinear_arith);
            }
            xx = xx + term.0;
            xy = xy + term.1;
            xz = xz + term.2;
            yx = yx + term.3;
            yy = yy + term.4;
            yz = yz + term.5;
            zx = zx + term.6;
            zy = zy + term.7;
            zz = zz + term.8;
        } else {
            proof {
                assert((i + 1) * 10_000_000_000_000_000_000_000_000_000int >= i
                    * 10_000_000_000_000_000_000_000_000_000) by (nonlinear_arith);
            }
        }
        i += 1;
    }
    let b: i128 = INERTIA_MAX as i128;
    Mat3 {
        xx: clamp128(xx, b) as i64,
        xy: clamp128(xy, b) as i64,
        xz: clamp128(xz, b) as i64,
        yx: clamp128(yx, b) as i64,
        yy: clamp128(yy, b) as i64,
        yz: clamp128(yz, b) as i64,
        zx: clamp128(zx, b) as i64,
        zy: clamp128(zy, b) as i64,
        zz: clamp128(zz, b) as i64,
    }
}

/// The inertia contribution of one re-centered child, as nine accumulator
/// terms.
fn child_inertia(c: &DockChild) -> (r: (i128, i128, i128, i128, i128, i128, i128, i128, i128))
    requires
        0 <= c.props.mass <= RIGID_MASS_MAX,
        iabs(c.rel_tf.translation_mm.x as int) <= 2 * DOCK_OFFSET_MAX,
        iabs(c.rel_tf.translation_mm.y as int) <= 2 * DOCK_OFFSET_MAX,
        iabs(c.rel_tf.translation_mm.z as int) <= 2 * DOCK_OFFSET_MAX,
        quat_bounded(c.rel_tf.rotation, SCALE as int),
        mat_bounded(c.props.inertia, INERTIA_MAX as int),
    ensures
        (
            r.0 as int,
            r.1 as int,
            r.2 as int,
            r.3 as int,
            r.4 as int,
            r.5 as int,
            r.6 as int,
            r.7 as int,
            r.8 as int,
        ) == spec_child_inertia(*c),
        iabs(r.0 as int) <= 10_000_000_000_000_000_000_000_000_000,
        iabs(r.1 as int) <= 10_000_000_000_000_000_000_000_000_000,
        iabs(r.2 as int) <= 10_000_000_000_000_000_000_000_000_000,
        iabs(r.3 as int) <= 10_000_000_000_000_000_000_000_000_000,
        iabs(r.4 as int) <= 10_000_000_000_000_000_000_000_000_000,
        iabs(r.5 as int) <= 10_000_000_000_000_000_000_000_000_000,
        iabs(r.6 as int) <= 10_000_000_000_000_000_000_000_000_000,
        iabs(r.7 as int) <= 10_000_000_000_000_000_000_000_000_000,
        iabs(r.8 as int) <= 10_000_000_000_000_000_000_000_000_000,
{
    let rot = Mat3::from_quat(c.rel_tf.rotation);
    proof {
        assert(3 * ((65 * SCALE as int) * (INERTIA_MAX as int)) == 390_000_000_000_000int * (
        SCALE as int)) by (nonlinear_arith);
        crate::mat3::lemma_mul_scale_bound(
            rot,
            c.props.inertia,
            Mat3::spec_mul_scale(rot, c.props.inertia),
            65 * SCALE as int,
            INERTIA_MAX as int,
            390_000_000_000_000,
        );
    }
    let tmp = rot.mul_scale(c.props.inertia);
    proof {
        assert(3 * (390_000_000_000_000int * (65 * SCALE as int)) == 76_050_000_000_000_000int * (
        SCALE as int)) by (nonlinear_arith);
        crate::mat3::lemma_mul_scale_bound(
            tmp,
            Mat3::spec_transpose(rot),
            Mat3::spec_mul_scale(tmp, Mat3::spec_transpose(rot)),
            390_000_000_000_000,
            65 * SCALE as int,
            76_050_000_000_000_000,
        );
    }
    let ic = tmp.mul_scale(rot.transpose());
    let m: i128 = c.props.mass as i128;
    let rx: i128 = c.rel_tf.translation_mm.x as i128;
    let ry: i128 = c.rel_tf.translation_mm.y as i128;
    let rz: i128 = c.rel_tf.translation_mm.z as i128;
    proof {
        let off = 2 * DOCK_OFFSET_MAX as int;
        lemma_mul_bound(rx as int, rx as int, off, off);
        lemma_mul_bound(ry as int, ry as int, off, off);
        lemma_mul_bound(rz as int, rz as int, off, off);
        lemma_mul_bound(rx as int, ry as int, off, off);
        lemma_mul_bound(rx as int, rz as int, off, off);
        lemma_mul_bound(ry as int, rx as int, off, off);
        lemma_mul_bound(ry as int, rz as int, off, off);
        lemma_mul_bound(rz as int, rx as int, off, off);
        lemma_mul_bound(rz as int, ry as int, off, off);
        let sq = off * off;
        assert(sq == 4_000_000_000_000_000_000int) by (nonlinear_arith)
            requires
                off == 2 * DOCK_OFFSET_MAX as int,
                sq == off * off;
        lemma_mul_bound(m as int, (rx * ry) as int, RIGID_MASS_MAX as int, sq);
        lemma_mul_bound(m as int, (rx * rz) as int, RIGID_MASS_MAX as int, sq);
        lemma_mul_bound(m as int, (ry * rx) as int, RIGID_MASS_MAX as int, sq);
        lemma_mul_bound(m as int, (ry * rz) as int, RIGID_MASS_MAX as int, sq);
        lemma_mul_bound(m as int, (rz * rx) as int, RIGID_MASS_MAX as int, sq);
        lemma_mul_bound(m as int, (rz * ry) as int, RIGID_MASS_MAX as int, sq);
        lemma_mul_bound(m as int, (ry * ry + rz * rz) as int, RIGID_MASS_MAX as int, 2 * sq);
        lemma_mul_bound(m as int, (rx * rx + rz * rz) as int, RIGID_MASS_MAX as int, 2 * sq);
        lemma_mul_bound(m as int, (rx * rx + ry * ry) as int, RIGID_MASS_MAX as int, 2 * sq);
        assert((RIGID_MASS_MAX as int) * (2 * sq) == 8_000_000_000_000_000_000_000_000_000_000int
            && (RIGID_MASS_MAX as int) * sq == 4_000_000_000_000_000_000_000_000_000_000int)
            by (nonlinear_arith)
            requires
                sq == 4_000_000_000_000_000_000int;
        lemma_rdiv_bound(m as int * (ry * ry + rz * rz) as int, 1000, 8_000_000_000_000_000_000_000_000_000_000);
        lemma_rdiv_bound(m as int * (rx * rx + rz * rz) as int, 1000, 8_000_000_000_000_000_000_000_000_000_000);
        lemma_rdiv_bound(m as int * (rx * rx + ry * ry) as int, 1000, 8_000_000_000_000_000_000_000_000_000_000);
        lemma_rdiv_bound(-(m as int * (rx * ry) as int), 1000, 4_000_000_000_000_000_000_000_000_000_000);
        lemma_rdiv_bound(-(m as int * (rx * rz) as int), 1000, 4_000_000_000_000_000_000_000_000_000_000);
        lemma_rdiv_bound(-(m as int * (ry * rx) as int), 1000, 4_000_000_000_000_000_000_000_000_000_000);
        lemma_rdiv_bound(-(m as int * (ry * rz) as int), 1000, 4_000_000_000_000_000_000_000_000_000_000);
        lemma_rdiv_bound(-(m as int * (rz * rx) as int), 1000, 4_000_000_000_000_000_000_000_000_000_000);
        lemma_rdiv_bound(-(m as int * (rz * ry) as int), 1000, 4_000_000_000_000_000_000_000_000_000_000);
    }
    (
        (ic.xx as i128) + rdiv_i128(m * (ry * ry + rz * rz), 1000),
        (ic.xy as i128) + rdiv_i128(-(m * (rx * ry)), 1000),
        (ic.xz as i128) + rdiv_i128(-(m * (rx * rz)), 1000),
        (ic.yx as i128) + rdiv_i128(-(m * (ry * rx)), 1000),
        (ic.yy as i128) + rdiv_i128(m * (rx * rx + rz * rz), 1000),
        (ic.yz as i128) + rdiv_i128(-(m * (ry * rz)), 1000),
        (ic.zx as i128) + rdiv_i128(-(m * (rz * rx)), 1000),
        (ic.zy as i128) + rdiv_i128(-(m * (rz * ry)), 1000),
        (ic.zz as i128) + rdiv_i128(m * (rx * rx + ry * ry), 1000),
    )
}

/// Aggregate pass: for every parent with a positive child mass, move the
/// parent onto its children's center of gravity, re-express the children's
/// offsets relative to it, and rebuild the parent's aggregate mass and
/// inertia.  Parents with zero child mass are left untouched.
#[verifier::rlimit(100)]
pub fn aggregate_dock_cog(parents: &mut Vec<DockParent>, children: &mut Vec<DockChild>)
    requires
        dock_wf(old(parents)@, old(children)@),
    ensures
        final(parents)@.len() == old(parents)@.len(),
        final(children)@.len() == old(children)@.len(),
        forall|j: int|
            0 <= j < old(children)@.len() ==> final(children)@[j] == spec_shift_child(
                old(children)@,
                old(children)@[j],
            ),
        forall|p: int|
            0 <= p < old(parents)@.len() ==> final(parents)@[p] == spec_update_parent(
                old(parents)@[p],
                old(children)@,
                shifted_all(old(children)@),
                p,
            ),
{
    let ghost cs0 = children@;
    let ghost ps0 = parents@;
    let np = parents.len();
    let mut p: usize = 0;
    while p < np
        invariant
            p <= np,
            np == parents@.len(),
            parents@.len() == ps0.len(),
            children@.len() == cs0.len(),
            dock_wf(ps0, cs0),
            forall|j: int|
                0 <= j < cs0.len() ==> (#[trigger] children@[j]) == (if cs0[j].parent < p {
                    spec_shift_child(cs0, cs0[j])
                } else {
                    cs0[j]
                }),
            forall|q: int|
                0 <= q < p ==> (#[trigger] parents@[q]) == spec_update_parent(
                    ps0[q],
                    cs0,
                    shifted_all(cs0),
                    q,
                ),
            forall|q: int| p <= q < np ==> (#[trigger] parents@[q]) == ps0[q],
        decreases np - p,
    {
        proof {
            assert(forall|j: int|
                0 <= j < cs0.len() ==> ((#[trigger] children@[j]).parent == cs0[j].parent
                    && (cs0[j].parent >= p ==> children@[j] == cs0[j])));
            lemma_group_sums_agree(children@, cs0, p as int, cs0.len());
            lemma_mixed_children_bounded(cs0, children@);
        }
        let sums = dock_group_sums(children, p);
        if sums.0 != 0 {
            proof {
                lemma_group_sums_bounds(cs0, p as int, cs0.len());
                assert(sums.0 * (DOCK_OFFSET_MAX as int) == (DOCK_OFFSET_MAX as int) * (
                sums.0 as int)) by (nonlinear_arith);
                lemma_rdiv_bound(sums.1 as int, sums.0 as int, DOCK_OFFSET_MAX as int);
                lemma_rdiv_bound(sums.2 as int, sums.0 as int, DOCK_OFFSET_MAX as int);
                lemma_rdiv_bound(sums.3 as int, sums.0 as int, DOCK_OFFSET_MAX as int);
            }
            let g = IVec3 {
                x: rdiv_i128(sums.1, sums.0) as i64,
                y: rdiv_i128(sums.2, sums.0) as i64,
                z: rdiv_i128(sums.3, sums.0) as i64,
            };
            let ghost mid = children@;
            shift_group(children, p, g);
            proof {
                assert(forall|j: int|
                    0 <= j < cs0.len() ==> (#[trigger] children@[j]) == (if cs0[j].parent <= p {
                        spec_shift_child(cs0, cs0[j])
                    } else {
                        cs0[j]
                    }));
                assert(forall|j: int|
                    0 <= j < cs0.len() ==> ((#[trigger] children@[j]).parent == shifted_all(
                        cs0,
                    )[j].parent && (cs0[j].parent == p ==> children@[j] == shifted_all(cs0)[j])));
                lemma_group_inertia_agree(children@, shifted_all(cs0), p as int, cs0.len());
                lemma_mixed_children_bounded(cs0, children@);
            }
            let inertia = group_inertia_mat(children, p);
            let inertia_inv = match inertia.inverse_inertia() {
                Some(m) => m,
                None => Mat3 { xx: 0, xy: 0, xz: 0, yx: 0, yy: 0, yz: 0, zx: 0, zy: 0, zz: 0 },
            };
            let delta_world = parents[p].tf.rotation.rotate(g);
            let old_par = parents[p];
            parents[p] = DockParent {
                tf: PreciseTransform {
                    translation_mm: old_par.tf.translation_mm.saturating_add(delta_world),
                    rotation: old_par.tf.rotation,
                },
                props: MassProps { mass: sat64(sums.0), inertia, inertia_inv },
                force: old_par.force,
                torque: old_par.torque,
            };
        } else {
            proof {
                assert(forall|j: int|
                    0 <= j < cs0.len() ==> (cs0[j].parent == p ==> (#[trigger] cs0[j])
                        == spec_shift_child(cs0, cs0[j])));
                assert(forall|j: int|
                    0 <= j < cs0.len() ==> (#[trigger] children@[j]) == (if cs0[j].parent <= p {
                        spec_shift_child(cs0, cs0[j])
                    } else {
                        cs0[j]
                    }));
            }
        }
        p += 1;
    }
}

/// One child's force and torque folded into its parent: the force adds
/// directly; the torque adds together with the lever-arm moment of the
/// child's offset (rotated to world axes, clamped, and converted from
/// millimeters to meters).
pub open spec fn spec_parent_absorb(par: DockParent, c: DockChild) -> DockParent {
    let lev = q_rotate(par.tf.rotation, c.rel_tf.translation_mm);
    let lx = clamp_mag(lev.x as int, 1_000_000_000_000_000);
    let ly = clamp_mag(lev.y as int, 1_000_000_000_000_000);
    let lz = clamp_mag(lev.z as int, 1_000_000_000_000_000);
    DockParent {
        force: v_sat_add(par.force, c.force),
        torque: IVec3 {
            x: sat_i64(
                par.torque.x + c.torque.x + rdiv(ly * c.force.z - lz * c.force.y, 1000),
            ) as i64,
            y: sat_i64(
                par.torque.y + c.torque.y + rdiv(lz * c.force.x - lx * c.force.z, 1000),
            ) as i64,
            z: sat_i64(
                par.torque.z + c.torque.z + rdiv(lx * c.force.y - ly * c.force.x, 1000),
            ) as i64,
        },
        ..par
    }
}

/// The parents after the first `n` children have folded their accumulators
/// in, in list order.
pub open spec fn spec_force_fold(ps: Seq<DockParent>, cs: Seq<DockChild>, n: nat) -> Seq<
    DockParent,
>
    decreases n,
{
    if n == 0 {
        ps
    } else {
        let prev = spec_force_fold(ps, cs, (n - 1) as nat);
        let c = cs[n - 1];
        if c.parent < prev.len() {
            prev.update(c.parent as int, spec_parent_absorb(prev[c.parent as int], c))
        } else {
            prev
        }
    }
}

/// Force-redistribution pass: every child's accumulated force and torque
/// fold into its parent (with the lever-arm moment), then the child's own
/// accumulators are cleared — children are never integrated directly.
#[verifier::rlimit(100)]
pub fn aggregate_dock_forces(parents: &mut Vec<DockParent>, children: &mut Vec<DockChild>)
    requires
        forall|j: int|
            0 <= j < old(children)@.len() ==> (#[trigger] old(children)@[j]).parent < old(
                parents,
            )@.len(),
        forall|p: int|
            0 <= p < old(parents)@.len() ==> quat_bounded(
                (#[trigger] old(parents)@[p]).tf.rotation,
                65 * SCALE,
            ),
    ensures
        final(parents)@ == spec_force_fold(old(parents)@, old(children)@, old(children)@.len()),
        final(children)@.len() == old(children)@.len(),
        forall|j: int|
            0 <= j < old(children)@.len() ==> final(children)@[j] == (DockChild {
                force: IVec3 { x: 0, y: 0, z: 0 },
                torque: IVec3 { x: 0, y: 0, z: 0 },
                ..old(children)@[j]
            }),
{
    let ghost cs0 = children@;
    let ghost ps0 = parents@;
    let n = children.len();
    let mut i: usize = 0;
    while i < n
        invariant
            i <= n,
            n == children@.len(),
            children@.len() == cs0.len(),
            parents@.len() == ps0.len(),
            forall|j: int| 0 <= j < cs0.len() ==> (#[trigger] cs0[j]).parent < ps0.len(),
            forall|q: int|
                0 <= q < ps0.len() ==> quat_bounded(
                    (#[trigger] ps0[q]).tf.rotation,
                    65 * SCALE,
                ),
            parents@ == spec_force_fold(ps0, cs0, i as nat),
            forall|j: int| i <= j < n ==> (#[trigger] children@[j]) == cs0[j],
            forall|j: int|
                0 <= j < i ==> (#[trigger] children@[j]) == (DockChild {
                    force: IVec3 { x: 0, y: 0, z: 0 },
                    torque: IVec3 { x: 0, y: 0, z: 0 },
                    ..cs0[j]
                }),
            forall|q: int|
                0 <= q < ps0.len() ==> (#[trigger] parents@[q]).tf == ps0[q].tf,
        decreases n - i,
    {
        let c = children[i];
        let pi = c.parent;
        proof {
            assert(cs0[i as int].parent < ps0.len());
        }
        let par = parents[pi];
        let lev_raw = par.tf.rotation.rotate(c.rel_tf.translation_mm);
        let lx: i128 = clamp128(lev_raw.x as i128, 1_000_000_000_000_000);
        let ly: i128 = clamp128(lev_raw.y as i128, 1_000_000_000_000_000);
        let lz: i128 = clamp128(lev_raw.z as i128, 1_000_000_000_000_000);
        proof {
            let lb = 1_000_000_000_000_000int;
            let fb = 0x8000_0000_0000_0000int;
            lemma_mul_bound(ly as int, c.force.z as int, lb, fb);
            lemma_mul_bound(lz as int, c.force.y as int, lb, fb);
            lemma_mul_bound(lz as int, c.force.x as int, lb, fb);
            lemma_mul_bound(lx as int, c.force.z as int, lb, fb);
            lemma_mul_bound(lx as int, c.force.y as int, lb, fb);
            lemma_mul_bound(ly as int, c.force.x as int, lb, fb);
        }
        let tau_x: i128 = rdiv_i128(ly * (c.force.z as i128) - lz * (c.force.y as i128), 1000);
        let tau_y: i128 = rdiv_i128(lz * (c.force.x as i128) - lx * (c.force.z as i128), 1000);
        let tau_z: i128 = rdiv_i128(lx * (c.force.y as i128) - ly * (c.force.x as i128), 1000);
        let new_par = DockParent {
            force: par.force.saturating_add(c.force),
            torque: IVec3 {
                x: sat64((par.torque.x as i128) + (c.torque.x as i128) + tau_x),
                y: sat64((par.torque.y as i128) + (c.torque.y as i128) + tau_y),
                z: sat64((par.torque.z as i128) + (c.torque.z as i128) + tau_z),
            },
            ..par
        };
        parents[pi] = new_par;
        children[i].force = IVec3 { x: 0, y: 0, z: 0 };
        children[i].torque = IVec3 { x: 0, y: 0, z: 0 };
        proof {
            assert(parents@ == spec_force_fold(ps0, cs0, (i + 1) as nat));
        }
        i += 1;
    }
}

/// The whole docking step: aggregate mass and inertia first (reading every
/// original offset before any mutation), then redistribute forces.  The two
/// passes must not be reordered or merged.
pub fn run_docking(parents: &mut Vec<DockParent>, children: &mut Vec<DockChild>)
    requires
        dock_wf(old(parents)@, old(children)@),
        forall|j: int|
            0 <= j < old(children)@.len() ==> quat_bounded(
                (#[trigger] old(children)@[j]).rel_tf.rotation,
                SCALE as int,
            ),
    ensures
        ({
            let cs1 = shifted_all(old(children)@);
            let ps1 = Seq::new(
                old(parents)@.len(),
                |p: int| spec_update_parent(old(parents)@[p], old(children)@, cs1, p),
            );
            &&& final(parents)@ == spec_force_fold(ps1, cs1, cs1.len())
            &&& final(children)@.len() == old(children)@.len()
            &&& forall|j: int|
                0 <= j < cs1.len() ==> final(children)@[j] == (DockChild {
                    force: IVec3 { x: 0, y: 0, z: 0 },
                    torque: IVec3 { x: 0, y: 0, z: 0 },
                    ..cs1[j]
                })
        }),
{
    aggregate_dock_cog(parents, children);
    proof {
        let cs1 = shifted_all(old(children)@);
        let ps1 = Seq::new(
            old(parents)@.len(),
            |p: int| spec_update_parent(old(parents)@[p], old(children)@, cs1, p),
        );
        assert(children@ =~= cs1);
        assert(parents@ =~= ps1);
        assert forall|j: int| 0 <= j < cs1.len() implies (#[trigger] cs1[j]).parent
            < ps1.len() by {
            assert(cs1[j] == spec_shift_child(old(children)@, old(children)@[j]));
        }
        assert forall|p: int|
            0 <= p < ps1.len() implies quat_bounded(
            (#[trigger] ps1[p]).tf.rotation,
            65 * SCALE,
        ) by {
            assert(ps1[p] == spec_update_parent(old(parents)@[p], old(children)@, cs1, p));
        }
    }
    aggregate_dock_forces(parents, children);
}

/// Contributions of a two-child group: only the two named children count.
proof fn lemma_pair_sums(cs: Seq<DockChild>, p: int, i1: int, i2: int, n: nat)
    requires
        0 <= i1 < cs.len(),
        0 <= i2 < cs.len(),
        i1 != i2,
        cs[i1].parent == p,
        cs[i2].parent == p,
        forall|j: int| 0 <= j < cs.len() && j != i1 && j != i2 ==> (#[trigger] cs[j]).parent != p,
        n <= cs.len(),
    ensures
        ({
            let (m, x, y, z) = group_sums(cs, p, n);
            let m1 = cs[i1].props.mass as int;
            let m2 = cs[i2].props.mass as int;
            let d1 = cs[i1].rel_tf.translation_mm;
            let d2 = cs[i2].rel_tf.translation_mm;
            &&& m == (if i1 < n { m1 } else { 0 }) + (if i2 < n { m2 } else { 0 })
            &&& x == (if i1 < n { m1 * d1.x } else { 0 }) + (if i2 < n { m2 * d2.x } else { 0 })
            &&& y == (if i1 < n { m1 * d1.y } else { 0 }) + (if i2 < n { m2 * d2.y } else { 0 })
            &&& z == (if i1 < n { m1 * d1.z } else { 0 }) + (if i2 < n { m2 * d2.z } else { 0 })
        }),
    decreases n,
{
    if n > 0 {
        lemma_pair_sums(cs, p, i1, i2, (n - 1) as nat);
    }
}

/// Docking balance law: two children of equal mass at opposite offsets from
/// their parent have their center of gravity at the parent's existing
/// origin, so the aggregate pass moves the parent by nothing and records
/// twice the common mass as the aggregate mass.
pub proof fn lemma_symmetric_pair_balances(
    cs: Seq<DockChild>,
    p: int,
    i1: int,
    i2: int,
    par: DockParent,
    cs_shifted: Seq<DockChild>,
)
    requires
        0 <= i1 < cs.len(),
        0 <= i2 < cs.len(),
        i1 != i2,
        cs[i1].parent == p,
        cs[i2].parent == p,
        forall|j: int| 0 <= j < cs.len() && j != i1 && j != i2 ==> (#[trigger] cs[j]).parent != p,
        cs[i1].props.mass == cs[i2].props.mass,
        cs[i1].props.mass >= 1,
        cs[i2].rel_tf.translation_mm.x + cs[i1].rel_tf.translation_mm.x == 0,
        cs[i2].rel_tf.translation_mm.y + cs[i1].rel_tf.translation_mm.y == 0,
        cs[i2].rel_tf.translation_mm.z + cs[i1].rel_tf.translation_mm.z == 0,
    ensures
        group_sums(cs, p, cs.len()).0 == 2 * cs[i1].props.mass,
        spec_cog(cs, p) == Some(IVec3 { x: 0, y: 0, z: 0 }),
        spec_update_parent(par, cs, cs_shifted, p).tf.translation_mm == par.tf.translation_mm,
        spec_update_parent(par, cs, cs_shifted, p).props.mass == sat_i64(
            2 * cs[i1].props.mass,
        ),
{
    lemma_pair_sums(cs, p, i1, i2, cs.len());
    let m1 = cs[i1].props.mass as int;
    let d1 = cs[i1].rel_tf.translation_mm;
    let d2 = cs[i2].rel_tf.translation_mm;
    assert(m1 * d1.x + m1 * d2.x == 0 && m1 * d1.y + m1 * d2.y == 0 && m1 * d1.z + m1 * d2.z == 0)
        by (nonlinear_arith)
        requires
            d2.x + d1.x == 0,
            d2.y + d1.y == 0,
            d2.z + d1.z == 0;
    crate::num::lemma_rdiv_zero(2 * m1);
    crate::quat::lemma_rotate_zero(par.tf.rotation);
    assert(v_sat_add(par.tf.translation_mm, IVec3 { x: 0, y: 0, z: 0 })
        == par.tf.translation_mm);
}

} // verus!
