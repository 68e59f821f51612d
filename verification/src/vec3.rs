//! Integer 3-vectors.
//!
//! The same type carries every vector quantity of the crate; the unit is a
//! convention of the field or function using it: positions in millimeters,
//! render-space positions in micrometers ("meters at micrometer resolution"),
//! velocities in micrometers per second, forces in micronewtons, angles and
//! angular velocities in nano-radians.

use vstd::prelude::*;
use crate::num::iabs;
use crate::num::rdiv;
use crate::num::sat_i64;
use crate::num::rdiv_i128;
use crate::num::sat64;
use crate::num::lemma_rdiv_exact;

verus! {

/// A 3-vector of 64-bit integers.
#[derive(Clone, Copy, Debug, PartialEq, Eq, Structural)]
pub struct IVec3 {
    pub x: i64,
    pub y: i64,
    pub z: i64,
}

/// Saturating vector sum, as a spec value.
pub open spec fn v_sat_add(a: IVec3, b: IVec3) -> IVec3 {
    IVec3 {
        x: sat_i64(a.x + b.x) as i64,
        y: sat_i64(a.y + b.y) as i64,
        z: sat_i64(a.z + b.z) as i64,
    }
}

/// Saturating vector difference, as a spec value.
pub open spec fn v_sat_sub(a: IVec3, b: IVec3) -> IVec3 {
    IVec3 {
        x: sat_i64(a.x - b.x) as i64,
        y: sat_i64(a.y - b.y) as i64,
        z: sat_i64(a.z - b.z) as i64,
    }
}

/// Saturating vector negation, as a spec value.
pub open spec fn v_neg(a: IVec3) -> IVec3 {
    IVec3 { x: sat_i64(-a.x) as i64, y: sat_i64(-a.y) as i64, z: sat_i64(-a.z) as i64 }
}

/// Millimeters to the meters representation (micrometers), as a spec value.
pub open spec fn v_to_meters(a: IVec3) -> IVec3 {
    IVec3 {
        x: sat_i64(1000 * a.x) as i64,
        y: sat_i64(1000 * a.y) as i64,
        z: sat_i64(1000 * a.z) as i64,
    }
}

/// Meters representation (micrometers) to rounded millimeters, as a spec
/// value.
pub open spec fn v_to_millimeters(a: IVec3) -> IVec3 {
    IVec3 {
        x: rdiv(a.x as int, 1000) as i64,
        y: rdiv(a.y as int, 1000) as i64,
        z: rdiv(a.z as int, 1000) as i64,
    }
}

impl IVec3 {
    /// The zero vector.
    pub fn zero() -> (r: IVec3)
        ensures
            r.x == 0 && r.y == 0 && r.z == 0,
    {
        IVec3 { x: 0, y: 0, z: 0 }
    }

    /// Build a vector from its components.
    pub fn new(x: i64, y: i64, z: i64) -> (r: IVec3)
        ensures
            r == (IVec3 { x, y, z }),
    {
        IVec3 { x, y, z }
    }

    /// Component-wise saturating addition.
    pub fn saturating_add(self, other: IVec3) -> (r: IVec3)
        ensures
            r == v_sat_add(self, other),
            r.x == sat_i64(self.x + other.x),
            r.y == sat_i64(self.y + other.y),
            r.z == sat_i64(self.z + other.z),
    {
        IVec3 {
            x: sat64(self.x as i128 + other.x as i128),
            y: sat64(self.y as i128 + other.y as i128),
            z: sat64(self.z as i128 + other.z as i128),
        }
    }

    /// Component-wise saturating subtraction.
    pub fn saturating_sub(self, other: IVec3) -> (r: IVec3)
        ensures
            r == v_sat_sub(self, other),
            r.x == sat_i64(self.x - other.x),
            r.y == sat_i64(self.y - other.y),
            r.z == sat_i64(self.z - other.z),
    {
        IVec3 {
            x: sat64(self.x as i128 - other.x as i128),
            y: sat64(self.y as i128 - other.y as i128),
            z: sat64(self.z as i128 - other.z as i128),
        }
    }

    /// Component-wise saturating negation.
    pub fn neg(self) -> (r: IVec3)
        ensures
            r == v_neg(self),
            r.x == sat_i64(-self.x),
            r.y == sat_i64(-self.y),
            r.z == sat_i64(-self.z),
    {
        IVec3 {
            x: sat64(-(self.x as i128)),
            y: sat64(-(self.y as i128)),
            z: sat64(-(self.z as i128)),
        }
    }

    /// Convert a millimeter vector to the meters representation (micrometer
    /// resolution), saturating on the (astronomically distant) overflow.
    pub fn to_meters(self) -> (r: IVec3)
        ensures
            r == v_to_meters(self),
            r.x == sat_i64(1000 * self.x),
            r.y == sat_i64(1000 * self.y),
            r.z == sat_i64(1000 * self.z),
    {
        IVec3 {
            x: sat64(1000 * self.x as i128),
            y: sat64(1000 * self.y as i128),
            z: sat64(1000 * self.z as i128),
        }
    }

    /// Convert a meters-representation vector (micrometer resolution) to
    /// millimeters, rounding to the nearest millimeter.
    pub fn to_millimeters(self) -> (r: IVec3)
        ensures
            r == v_to_millimeters(self),
            r.x == rdiv(self.x as int, 1000),
            r.y == rdiv(self.y as int, 1000),
            r.z == rdiv(self.z as int, 1000),
            iabs(r.x as int) <= iabs(self.x as int),
            iabs(r.y as int) <= iabs(self.y as int),
            iabs(r.z as int) <= iabs(self.z as int),
    {
        proof {
            crate::num::lemma_rdiv_bound(self.x as int, 1000, iabs(self.x as int));
            crate::num::lemma_rdiv_bound(self.y as int, 1000, iabs(self.y as int));
            crate::num::lemma_rdiv_bound(self.z as int, 1000, iabs(self.z as int));
        }
        IVec3 {
            x: rdiv_i128(self.x as i128, 1000) as i64,
            y: rdiv_i128(self.y as i128, 1000) as i64,
            z: rdiv_i128(self.z as i128, 1000) as i64,
        }
    }
}

/// Converting exact millimeters to meters and back is the identity: for any
/// vector whose components stay clear of saturation, `to_millimeters` of
/// `to_meters` returns the original vector.
pub proof fn lemma_meters_roundtrip(v: IVec3, m: IVec3, back: IVec3)
    requires
        iabs(v.x as int) <= i64::MAX / 1000,
        iabs(v.y as int) <= i64::MAX / 1000,
        iabs(v.z as int) <= i64::MAX / 1000,
        m.x == sat_i64(1000 * v.x),
        m.y == sat_i64(1000 * v.y),
        m.z == sat_i64(1000 * v.z),
        back.x == rdiv(m.x as int, 1000),
        back.y == rdiv(m.y as int, 1000),
        back.z == rdiv(m.z as int, 1000),
    ensures
        back == v,
{
    lemma_rdiv_exact(v.x as int, 1000);
    lemma_rdiv_exact(v.y as int, 1000);
    lemma_rdiv_exact(v.z as int, 1000);
    assert(v.x * 1000 == 1000 * v.x) by (nonlinear_arith);
    assert(v.y * 1000 == 1000 * v.y) by (nonlinear_arith);
    assert(v.z * 1000 == 1000 * v.z) by (nonlinear_arith);
}

} // verus!
