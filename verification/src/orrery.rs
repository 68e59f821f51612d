//! The orbit solver: a named, ordered hierarchy of celestial bodies with
//! Keplerian orbital elements, solved analytically per epoch.
//!
//! Units: positions in millimeters, times and epochs in milliseconds,
//! angles in nano-radians, eccentricity `SCALE`-scaled, masses in kilograms.
//! A body's parent must be declared before the body itself, which both
//! forbids cycles and gives the recursive solvers their termination measure.

use vstd::prelude::*;
use crate::num::SCALE;
use crate::num::iabs;
use crate::num::rdiv;
use crate::num::sat_i64;
use crate::num::spec_sqrt;
use crate::num::clamp_mag;
use crate::num::isqrt;
use crate::num::clamp128;
use crate::num::lemma_mul_bound;
use crate::num::lemma_rdiv_bound;
use crate::num::rdiv_i128;
use crate::num::sat64;
use crate::trig::TAU_NANO;
use crate::trig::spec_cos_nano;
use crate::trig::spec_sin_nano;
use crate::trig::cos_nano;
use crate::trig::sin_nano;
use crate::quat::Quat;
use crate::quat::q_mul;
use crate::quat::q_from_x;
use crate::quat::q_from_z;
use crate::quat::q_rotate;
use crate::quat::quat_bounded;
use crate::quat::lemma_qmul_bound;
use crate::vec3::IVec3;
use crate::vec3::v_sat_add;

verus! {

/// Largest semi-major axis, in millimeters (about 60 astronomical units).
pub const SEMI_MAJOR_MAX: i64 = 9_000_000_000_000_000;

/// Largest orbital or rotation period and largest epoch magnitude, in
/// milliseconds (about thirty thousand years).
pub const TIME_MAX: i64 = 1_000_000_000_000_000;

/// Largest configured angle magnitude, in nano-radians.
pub const ANGLE_MAX: i64 = 1_000_000_000_000_000;

/// Largest body mass, in kilograms.
pub const MASS_MAX: i128 = 100_000_000_000_000_000_000_000_000_000_000;

/// Classification of a celestial body.
#[derive(Clone, Copy, Debug, PartialEq, Eq, Structural)]
pub enum BodyClass {
    /// A luminous body, with its luminous flux in lumens.
    Star { lumens: i64 },
    /// Everything else.
    Planet,
}

/// Keplerian orbital elements.
#[derive(Clone, Copy, Debug, PartialEq, Eq, Structural)]
pub struct Orbit {
    /// Semi-major axis in millimeters; zero means fixed at the parent.
    pub semi_major: i64,
    /// Orbital period in milliseconds; zero asks for derivation from the
    /// parent mass by Kepler's third law.
    pub period: i64,
    /// Eccentricity, `SCALE`-scaled, in `[0, SCALE)`.
    pub eccentricity: i64,
    /// Inclination in nano-radians.
    pub inclination: i64,
    /// Longitude of the ascending node in nano-radians.
    pub ascending_node: i64,
    /// Argument of pericenter in nano-radians.
    pub arg_of_pericenter: i64,
    /// Mean anomaly at the reference epoch, in nano-radians.
    pub mean_anomaly: i64,
    /// Reference epoch in milliseconds.
    pub epoch: i64,
}

/// Spin elements of a body.
#[derive(Clone, Copy, Debug, PartialEq, Eq, Structural)]
pub struct Rotation {
    /// Sidereal rotation period in milliseconds; zero means no spin.
    pub rotation_period: i64,
    /// Obliquity of the equator to the orbital plane, in nano-radians.
    pub obliquity: i64,
    /// Ascending node of the equator on the orbital plane, in nano-radians.
    pub eq_ascend_node: i64,
    /// Reference epoch of the spin phase, in milliseconds.
    pub rotation_epoch: i64,
}

/// One celestial body of a star system.
#[derive(Clone, Debug, PartialEq)]
pub struct Body {
    /// Unique name of the body.
    pub name: String,
    /// Star or planet.
    pub class_params: BodyClass,
    /// Name of the parent body, which must be declared earlier.
    pub parent: Option<String>,
    /// Orbital elements around the parent.
    pub orbit: Orbit,
    /// Spin elements.
    pub rotation: Rotation,
    /// Mass in kilograms.
    pub mass: i128,
    /// Radius in millimeters.
    pub radius: i64,
}

/// A star-system configuration, as handed to `Orrery::init`.
#[derive(Clone, Debug, PartialEq)]
pub struct OrreryCfg {
    /// Name of the system.
    pub name: String,
    /// Bodies, parents before children.
    pub bodies: Vec<Body>,
}

/// A configuration failure detected at load time.
#[derive(Clone, Debug, PartialEq)]
pub enum OrreryError {
    /// A body names a parent that was not declared before it.
    UnidentifiedParent { body: String, parent: String },
    /// Two bodies share a name.
    DuplicateName { name: String },
    /// A numeric field is out of the supported range, or a period could not
    /// be derived from the parent mass.
    InvalidBody { name: String },
}

/// A solver for a whole star system.
#[derive(Debug)]
pub struct Orrery {
    name: String,
    bodies: Vec<Body>,
}

/// The numeric fields of a body lie in the ranges the solver supports.
pub open spec fn body_ranges_ok(b: Body) -> bool {
    &&& 0 <= b.orbit.semi_major <= SEMI_MAJOR_MAX
    &&& 0 <= b.orbit.period <= TIME_MAX
    &&& 0 <= b.orbit.eccentricity < SCALE
    &&& iabs(b.orbit.inclination as int) <= ANGLE_MAX
    &&& iabs(b.orbit.ascending_node as int) <= ANGLE_MAX
    &&& iabs(b.orbit.arg_of_pericenter as int) <= ANGLE_MAX
    &&& iabs(b.orbit.mean_anomaly as int) <= ANGLE_MAX
    &&& iabs(b.orbit.epoch as int) <= TIME_MAX
    &&& 0 <= b.rotation.rotation_period <= TIME_MAX
    &&& iabs(b.rotation.obliquity as int) <= ANGLE_MAX
    &&& iabs(b.rotation.eq_ascend_node as int) <= ANGLE_MAX
    &&& iabs(b.rotation.rotation_epoch as int) <= TIME_MAX
    &&& 0 <= b.mass <= MASS_MAX
}

/// A body as stored in a constructed `Orrery`: ranges hold and an orbiting
/// body has a positive period.
pub open spec fn body_valid(b: Body) -> bool {
    &&& body_ranges_ok(b)
    &&& b.orbit.semi_major != 0 ==> b.orbit.period > 0
}

/// First index of a body with the given name, or `-1`.
pub open spec fn find_first(s: Seq<Body>, name: Seq<char>) -> int
    decreases s.len(),
{
    if s.len() == 0 {
        -1
    } else if s[0].name@ == name {
        0
    } else {
        let t = find_first(s.drop_first(), name);
        if t == -1 {
            -1
        } else {
            t + 1
        }
    }
}

/// `find_first` returns `-1` exactly when no body has the name, and
/// otherwise the first matching index.
pub proof fn lemma_find_first(s: Seq<Body>, name: Seq<char>)
    ensures
        find_first(s, name) == -1 <==> (forall|j: int|
            0 <= j < s.len() ==> s[j].name@ != name),
        find_first(s, name) != -1 ==> {
            let r = find_first(s, name);
            &&& 0 <= r < s.len()
            &&& s[r].name@ == name
            &&& forall|j: int| 0 <= j < r ==> s[j].name@ != name
        },
    decreases s.len(),
{
    if s.len() > 0 {
        let tail = s.drop_first();
        lemma_find_first(tail, name);
        let t = find_first(tail, name);
        assert(forall|j: int| 0 <= j < tail.len() ==> tail[j] == s[j + 1]);
        if s[0].name@ != name {
            if t == -1 {
                assert forall|j: int| 0 <= j < s.len() implies s[j].name@ != name by {
                    if j > 0 {
                        assert(tail[j - 1] == s[j]);
                    }
                }
            } else {
                assert(s[t + 1] == tail[t]);
                assert forall|j: int| 0 <= j < t + 1 implies s[j].name@ != name by {
                    if j > 0 {
                        assert(tail[j - 1] == s[j]);
                    }
                }
            }
        }
    }
}

/// Well-formedness of a constructed orrery: names are unique, every body is
/// valid, and every parent occurs strictly earlier in the list.
pub open spec fn orrery_wf(bodies: Seq<Body>) -> bool {
    &&& forall|i: int, j: int|
        0 <= i < j < bodies.len() ==> bodies[i].name@ != bodies[j].name@
    &&& forall|i: int| 0 <= i < bodies.len() ==> body_valid(#[trigger] bodies[i])
    &&& forall|i: int|
        0 <= i < bodies.len() ==> ((#[trigger] bodies[i].parent) matches Some(p) ==> exists|
            j: int,
        |
            0 <= j < i && bodies[j].name@ == p@)
}

/// Compare two string slices for equality of their contents.
fn str_eq(a: &str, b: &str) -> (r: bool)
    ensures
        r == (a@ == b@),
{
    let sa: String = a.to_owned();
    let sb: String = b.to_owned();
    sa == sb
}

/// `find_first` depends only on the body names: two lists with the same
/// names pointwise agree on it.
pub proof fn lemma_find_first_names(s1: Seq<Body>, s2: Seq<Body>, name: Seq<char>)
    requires
        s1.len() == s2.len(),
        forall|j: int| 0 <= j < s1.len() ==> s1[j].name@ == s2[j].name@,
    ensures
        find_first(s1, name) == find_first(s2, name),
    decreases s1.len(),
{
    if s1.len() > 0 {
        let t1 = s1.drop_first();
        let t2 = s2.drop_first();
        assert(forall|j: int| 0 <= j < t1.len() ==> t1[j] == s1[j + 1] && t2[j] == s2[j + 1]);
        lemma_find_first_names(t1, t2, name);
    }
}

/// Linear search for the first body of a given name in a list.
fn find_in(v: &Vec<Body>, name: &str) -> (r: Option<usize>)
    ensures
        match r {
            Some(i) => i < v@.len() && find_first(v@, name@) == i,
            None => find_first(v@, name@) == -1,
        },
{
    proof {
        lemma_find_first(v@, name@);
    }
    let n = v.len();
    let mut i: usize = 0;
    while i < n
        invariant
            n == v@.len(),
            i <= n,
            forall|j: int| 0 <= j < i ==> v@[j].name@ != name@,
        decreases n - i,
    {
        if str_eq(v[i].name.as_str(), name) {
            proof {
                lemma_find_first(v@, name@);
            }
            return Some(i);
        }
        i += 1;
    }
    None
}

impl Orrery {
    /// The bodies of the system, parents before children.
    pub closed spec fn bodies_view(&self) -> Seq<Body> {
        self.bodies@
    }

    /// The system is well-formed (holds of every constructed `Orrery`).
    pub open spec fn wf(&self) -> bool {
        orrery_wf(self.bodies_view())
    }

    /// The name of the system.
    pub fn name(&self) -> (r: &String)
        ensures
            r == self.spec_name(),
    {
        &self.name
    }

    /// The name of the system, as a spec value.
    pub closed spec fn spec_name(&self) -> &String {
        &self.name
    }

    /// Iterates through the bodies of the system, in declaration order.
    pub fn iter(&self) -> (r: &Vec<Body>)
        ensures
            r@ == self.bodies_view(),
    {
        &self.bodies
    }

    /// Index of the body with the given name, if any: the first (and, in a
    /// well-formed system, only) body of that name.
    fn find_body(&self, name: &str) -> (r: Option<usize>)
        ensures
            match r {
                Some(i) => i < self.bodies_view().len() && find_first(self.bodies_view(), name@) == i,
                None => find_first(self.bodies_view(), name@) == -1,
            },
    {
        find_in(&self.bodies, name)
    }

    /// Gets a body by name; `None` when no body has that name.
    pub fn get_body(&self, name: &str) -> (r: Option<&Body>)
        ensures
            match r {
                Some(b) => {
                    &&& find_first(self.bodies_view(), name@) >= 0
                    &&& b == &self.bodies_view()[find_first(self.bodies_view(), name@)]
                    &&& b.name@ == name@
                },
                None => forall|j: int|
                    0 <= j < self.bodies_view().len() ==> self.bodies_view()[j].name@ != name@,
            },
    {
        proof {
            lemma_find_first(self.bodies_view(), name@);
        }
        match self.find_body(name) {
            Some(i) => Some(&self.bodies[i]),
            None => None,
        }
    }
}

/// Number of Newton iterations of the Kepler-equation solver.  A fixed
/// budget with no convergence check: adequate for the eccentricities in
/// practice, and a tunable constant rather than a convergence contract.
pub const KEPLER_ITERS: u64 = 50;

/// Mean anomaly at `epoch`, reduced into `[0, TAU_NANO)`.
pub open spec fn spec_mean_anomaly(o: Orbit, epoch: int) -> int {
    let dt = epoch - o.epoch;
    let n_f = rdiv(TAU_NANO * 1_000_000_000, o.period as int);
    let m = o.mean_anomaly + rdiv(n_f * dt, 1_000_000_000);
    m % (TAU_NANO as int)
}

/// `k` Newton steps for Kepler's equation `E - e sin E = M`, from the
/// starting guess `E = M`, each step clamped to two turns.
pub open spec fn spec_kepler_iter(m: int, e: int, k: nat) -> int
    decreases k,
{
    if k == 0 {
        m
    } else {
        let prev = spec_kepler_iter(m, e, (k - 1) as nat);
        let f = prev - rdiv(e * spec_sin_nano(prev), SCALE as int) - m;
        let fp = SCALE - rdiv(e * spec_cos_nano(prev), SCALE as int);
        clamp_mag(prev - rdiv(f * SCALE, fp), 2 * TAU_NANO)
    }
}

/// The eccentric anomaly returned by the fixed-budget Kepler solver.
pub open spec fn spec_kepler(m: int, e: int) -> int {
    spec_kepler_iter(m, e, KEPLER_ITERS as nat)
}

/// The rotation from the orbital plane to the inertial frame: ascending
/// node, inclination, argument of pericenter.
pub open spec fn spec_orbit_rot(o: Orbit) -> Quat {
    q_mul(
        q_mul(q_from_z(o.ascending_node as int), q_from_x(o.inclination as int)),
        q_from_z(o.arg_of_pericenter as int),
    )
}

/// `SCALE * sqrt(1 - e^2)`: the semi-minor to semi-major ratio.
pub open spec fn spec_bfac(e: int) -> int {
    spec_sqrt((SCALE - e) * (SCALE + e))
}

/// The position of an orbiting body relative to its parent, in millimeters.
pub open spec fn spec_body_offset(b: Body, epoch: int) -> IVec3 {
    let e = b.orbit.eccentricity as int;
    let ea = spec_kepler(spec_mean_anomaly(b.orbit, epoch), e);
    let cos_e = spec_cos_nano(ea);
    let sin_e = spec_sin_nano(ea);
    let x = rdiv(b.orbit.semi_major * (cos_e - e), SCALE as int);
    let y = rdiv(b.orbit.semi_major * rdiv(spec_bfac(e) * sin_e, SCALE as int), SCALE as int);
    q_rotate(spec_orbit_rot(b.orbit), IVec3 { x: x as i64, y: y as i64, z: 0 })
}

/// The solved position of the parent of body `i` (zero for a root body).
pub open spec fn spec_parent_pos(bodies: Seq<Body>, i: int, epoch: int) -> IVec3
    decreases i, 0int,
{
    match bodies[i].parent {
        Some(p) => {
            let j = find_first(bodies, p@);
            if 0 <= j < i {
                spec_solve_position(bodies, j, epoch)
            } else {
                IVec3 { x: 0, y: 0, z: 0 }
            }
        },
        None => IVec3 { x: 0, y: 0, z: 0 },
    }
}

/// The solved position of body `i` at `epoch`, in millimeters: the parent's
/// position, plus the body's own orbital offset unless it is fixed to the
/// parent by a zero semi-major axis.
pub open spec fn spec_solve_position(bodies: Seq<Body>, i: int, epoch: int) -> IVec3
    decreases i, 1int,
{
    let pp = spec_parent_pos(bodies, i, epoch);
    if bodies[i].orbit.semi_major == 0 {
        pp
    } else {
        v_sat_add(pp, spec_body_offset(bodies[i], epoch))
    }
}

/// The solved orbital velocity of a body relative to its parent, in
/// micrometers per second; the zero vector for a fixed body.
pub open spec fn spec_solve_velocity(b: Body, epoch: int) -> IVec3 {
    if b.orbit.semi_major == 0 {
        IVec3 { x: 0, y: 0, z: 0 }
    } else {
        let e = b.orbit.eccentricity as int;
        let ea = spec_kepler(spec_mean_anomaly(b.orbit, epoch), e);
        let cos_e = spec_cos_nano(ea);
        let sin_e = spec_sin_nano(ea);
        let n_f = rdiv(TAU_NANO * 1_000_000_000, b.orbit.period as int);
        let v0 = rdiv(b.orbit.semi_major * n_f, 1_000_000_000_000);
        let denom = SCALE - rdiv(e * cos_e, SCALE as int);
        let vx = rdiv(-(v0 * sin_e), denom);
        let vy = rdiv(rdiv(v0 * spec_bfac(e), SCALE as int) * cos_e, denom);
        q_rotate(
            spec_orbit_rot(b.orbit),
            IVec3 { x: sat_i64(vx) as i64, y: sat_i64(vy) as i64, z: 0 },
        )
    }
}

/// The solved orientation of a body at `epoch`: identity for a body with no
/// rotation period, otherwise the orbital frame composed with the equator
/// orientation and the linearly accumulating spin phase.
pub open spec fn spec_solve_rotation(b: Body, epoch: int) -> Quat {
    if b.rotation.rotation_period == 0 {
        Quat { x: 0, y: 0, z: 0, w: SCALE }
    } else {
        let dtr = (epoch - b.rotation.rotation_epoch) % (b.rotation.rotation_period as int);
        let spin = rdiv(TAU_NANO * dtr, b.rotation.rotation_period as int);
        let eq_rot = q_mul(
            q_mul(q_from_z(b.rotation.eq_ascend_node as int), q_from_x(b.rotation.obliquity as int)),
            q_from_z(spin - b.rotation.eq_ascend_node),
        );
        q_mul(spec_orbit_rot(b.orbit), eq_rot)
    }
}

/// A body fixed to its parent contributes nothing of its own: its solved
/// position is exactly its parent's solved position and its solved orbital
/// velocity is the zero vector, at every epoch.
pub proof fn lemma_fixed_body_follows_parent(bodies: Seq<Body>, i: int, epoch: int)
    requires
        0 <= i < bodies.len(),
        bodies[i].orbit.semi_major == 0,
    ensures
        spec_solve_position(bodies, i, epoch) == spec_parent_pos(bodies, i, epoch),
        spec_solve_velocity(bodies[i], epoch) == (IVec3 { x: 0, y: 0, z: 0 }),
{
}

/// A body with no rotation period has the identity orientation, at every
/// epoch.
pub proof fn lemma_no_spin_is_identity(b: Body, epoch: int)
    requires
        b.rotation.rotation_period == 0,
    ensures
        spec_solve_rotation(b, epoch) == (Quat { x: 0, y: 0, z: 0, w: SCALE }),
{
}

/// Solve Kepler's equation for the eccentric anomaly by Newton's method
/// with a fixed iteration budget.
#[verifier::rlimit(100)]
pub fn kepler_solve(m: i64, e: i64) -> (r: i64)
    requires
        0 <= m < TAU_NANO,
        0 <= e < SCALE,
    ensures
        r == spec_kepler(m as int, e as int),
        iabs(r as int) <= 2 * TAU_NANO,
{
    let mut ecc: i128 = m as i128;
    let mut k: u64 = 0;
    while k < KEPLER_ITERS
        invariant
            0 <= m < TAU_NANO,
            0 <= e < SCALE,
            k <= KEPLER_ITERS,
            ecc == spec_kepler_iter(m as int, e as int, k as nat),
            iabs(ecc as int) <= 2 * TAU_NANO,
        decreases KEPLER_ITERS - k,
    {
        let s_val: i64 = sin_nano(ecc as i64);
        let c_val: i64 = cos_nano(ecc as i64);
        proof {
            lemma_mul_bound(e as int, s_val as int, SCALE as int, SCALE as int);
            lemma_mul_bound(e as int, c_val as int, SCALE as int, SCALE as int);
            assert((e as int) * (c_val as int) <= (e as int) * (SCALE as int)
                && (e as int) * (c_val as int) >= -((e as int) * (SCALE as int))
                && (e as int) * (s_val as int) <= (e as int) * (SCALE as int)
                && (e as int) * (s_val as int) >= -((e as int) * (SCALE as int)))
                by (nonlinear_arith)
                requires
                    0 <= e,
                    -SCALE <= c_val <= SCALE,
                    -SCALE <= s_val <= SCALE;
            lemma_rdiv_bound((e as int) * (c_val as int), SCALE as int, e as int);
            lemma_rdiv_bound((e as int) * (s_val as int), SCALE as int, e as int);
        }
        let f: i128 = ecc - rdiv_i128((e as i128) * (s_val as i128), SCALE as i128) - (m as i128);
        let fp: i128 = (SCALE as i128) - rdiv_i128((e as i128) * (c_val as i128), SCALE as i128);
        let step: i128 = rdiv_i128(f * (SCALE as i128), fp);
        ecc = clamp128(ecc - step, 2 * TAU_NANO as i128);
        k += 1;
    }
    ecc as i64
}

impl Orrery {
    /// Mean anomaly of an orbit at `epoch`, reduced into one turn.
    fn mean_anomaly(o: &Orbit, epoch: i64) -> (r: i64)
        requires
            o.period > 0,
            o.period <= TIME_MAX,
            iabs(o.mean_anomaly as int) <= ANGLE_MAX,
            iabs(o.epoch as int) <= TIME_MAX,
            iabs(epoch as int) <= TIME_MAX,
        ensures
            r == spec_mean_anomaly(*o, epoch as int),
            0 <= r < TAU_NANO,
    {
        let dt: i128 = (epoch as i128) - (o.epoch as i128);
        let n_f: i128 = rdiv_i128((TAU_NANO as i128) * 1_000_000_000, o.period as i128);
        proof {
            lemma_rdiv_bound(
                (TAU_NANO as int) * 1_000_000_000,
                o.period as int,
                (TAU_NANO as int) * 1_000_000_000,
            );
            assert((TAU_NANO as int) * 1_000_000_000 <= ((TAU_NANO as int) * 1_000_000_000) * (
            o.period as int)) by (nonlinear_arith)
                requires
                    o.period >= 1;
            lemma_mul_bound(n_f as int, dt as int, (TAU_NANO as int) * 1_000_000_000, 2
                * TIME_MAX as int);
            assert((((TAU_NANO as int) * 1_000_000_000) * (2 * TIME_MAX as int)) * 1_000_000_000
                >= ((TAU_NANO as int) * 1_000_000_000) * (2 * TIME_MAX as int))
                by (nonlinear_arith);
            lemma_rdiv_bound(
                (n_f as int) * (dt as int),
                1_000_000_000,
                ((TAU_NANO as int) * 1_000_000_000) * (2 * TIME_MAX as int),
            );
        }
        let m: i128 = (o.mean_anomaly as i128) + rdiv_i128(n_f * dt, 1_000_000_000);
        let m_red: i128 = match m.checked_rem_euclid(TAU_NANO as i128) {
            Some(v) => v,
            None => 0,
        };
        proof {
            vstd::arithmetic::div_mod::lemma_mod_division_less_than_divisor(
                m as int,
                TAU_NANO as int,
            );
        }
        m_red as i64
    }

    /// The semi-minor factor `SCALE * sqrt(1 - e^2)`.
    fn bfac(e: i64) -> (r: i64)
        requires
            0 <= e < SCALE,
        ensures
            r == spec_bfac(e as int),
            0 <= r <= SCALE,
    {
        proof {
            assert(((SCALE - e) as int) * ((SCALE + e) as int) <= (SCALE as int) * (SCALE as int)
                && ((SCALE - e) as int) * ((SCALE + e) as int) >= 0
                && (SCALE as int) * (SCALE as int) == 1_000_000_000_000_000_000int)
                by (nonlinear_arith)
                requires
                    0 <= e < SCALE;
        }
        let prod: u128 = ((SCALE - e) as u128) * ((SCALE + e) as u128);
        let r: u128 = isqrt(prod);
        proof {
            let rr = r as int;
            assert(rr <= SCALE) by (nonlinear_arith)
                requires
                    rr * rr <= (prod as int),
                    prod as int <= (SCALE as int) * (SCALE as int),
                    rr >= 0,
                    SCALE > 0;
        }
        r as i64
    }

    /// The inertial-frame rotation of an orbit.
    fn orbit_rot(o: &Orbit) -> (r: Quat)
        ensures
            r == spec_orbit_rot(*o),
            quat_bounded(r, 16 * SCALE),
    {
        let qz1 = Quat::from_rotation_z(o.ascending_node);
        let qx = Quat::from_rotation_x(o.inclination);
        proof {
            lemma_qmul_bound(qz1, qx, SCALE as int, SCALE as int, 4 * SCALE as int);
        }
        let a = qz1.mul(qx);
        let qz2 = Quat::from_rotation_z(o.arg_of_pericenter);
        proof {
            lemma_qmul_bound(a, qz2, 4 * SCALE as int, SCALE as int, 16 * SCALE as int);
        }
        a.mul(qz2)
    }

    /// The orbital-plane offset of a body, rotated into the inertial frame.
    fn body_offset(b: &Body, epoch: i64) -> (r: IVec3)
        requires
            body_valid(*b),
            b.orbit.semi_major != 0,
            iabs(epoch as int) <= TIME_MAX,
        ensures
            r == spec_body_offset(*b, epoch as int),
    {
        let e: i64 = b.orbit.eccentricity;
        let m: i64 = Self::mean_anomaly(&b.orbit, epoch);
        let ea: i64 = kepler_solve(m, e);
        let cos_e: i64 = cos_nano(ea);
        let sin_e: i64 = sin_nano(ea);
        let bf: i64 = Self::bfac(e);
        let a: i128 = b.orbit.semi_major as i128;
        proof {
            lemma_mul_bound(a as int, (cos_e - e) as int, SEMI_MAJOR_MAX as int, 2 * SCALE as int);
            assert((SEMI_MAJOR_MAX as int) * (2 * SCALE as int) == ((2 * SEMI_MAJOR_MAX as int)) * (
            SCALE as int)) by (nonlinear_arith);
            lemma_rdiv_bound(
                (a as int) * ((cos_e - e) as int),
                SCALE as int,
                2 * SEMI_MAJOR_MAX as int,
            );
            lemma_mul_bound(bf as int, sin_e as int, SCALE as int, SCALE as int);
            lemma_rdiv_bound((bf as int) * (sin_e as int), SCALE as int, SCALE as int);
        }
        let x: i128 = rdiv_i128(a * ((cos_e as i128) - (e as i128)), SCALE as i128);
        let t: i128 = rdiv_i128((bf as i128) * (sin_e as i128), SCALE as i128);
        proof {
            lemma_mul_bound(a as int, t as int, SEMI_MAJOR_MAX as int, SCALE as int);
            assert((SEMI_MAJOR_MAX as int) * (SCALE as int) == (SEMI_MAJOR_MAX as int) * (
            SCALE as int));
            lemma_rdiv_bound((a as int) * (t as int), SCALE as int, SEMI_MAJOR_MAX as int);
        }
        let y: i128 = rdiv_i128(a * t, SCALE as i128);
        let rot = Self::orbit_rot(&b.orbit);
        rot.rotate(IVec3 { x: x as i64, y: y as i64, z: 0 })
    }

    /// Solve the position of the body at index `i`, recursing to the parent.
    fn solve_position_idx(&self, i: usize, epoch: i64) -> (r: IVec3)
        requires
            self.wf(),
            i < self.bodies_view().len(),
            iabs(epoch as int) <= TIME_MAX,
        ensures
            r == spec_solve_position(self.bodies_view(), i as int, epoch as int),
        decreases i,
    {
        let parent_pos: IVec3 = match &self.bodies[i].parent {
            Some(p) => {
                proof {
                    lemma_find_first(self.bodies_view(), p@);
                    let jw = choose|j: int|
                        0 <= j < i && self.bodies_view()[j].name@ == p@;
                    let jf = find_first(self.bodies_view(), p@);
                    if jf != jw {
                        assert(self.bodies_view()[jf].name@ == self.bodies_view()[jw].name@);
                    }
                }
                let j = match self.find_body(p.as_str()) {
                    Some(j) => j,
                    None => 0,
                };
                self.solve_position_idx(j, epoch)
            },
            None => IVec3 { x: 0, y: 0, z: 0 },
        };
        let body = &self.bodies[i];
        if body.orbit.semi_major == 0 {
            parent_pos
        } else {
            let off = Self::body_offset(body, epoch);
            parent_pos.saturating_add(off)
        }
    }

    /// Solves for the position, in millimeters, of a particular body in the
    /// system, at a particular time; `None` if no such body exists.
    pub fn solve_position(&self, body: &str, epoch: i64) -> (r: Option<IVec3>)
        requires
            self.wf(),
            iabs(epoch as int) <= TIME_MAX,
        ensures
            match r {
                Some(p) => {
                    &&& find_first(self.bodies_view(), body@) >= 0
                    &&& p == spec_solve_position(
                        self.bodies_view(),
                        find_first(self.bodies_view(), body@),
                        epoch as int,
                    )
                },
                None => forall|j: int|
                    0 <= j < self.bodies_view().len() ==> self.bodies_view()[j].name@ != body@,
            },
    {
        proof {
            lemma_find_first(self.bodies_view(), body@);
        }
        match self.find_body(body) {
            Some(i) => Some(self.solve_position_idx(i, epoch)),
            None => None,
        }
    }

    /// Solves for the orbital velocity, in micrometers per second, of a body
    /// relative to its parent at a given time; the zero vector for a body
    /// fixed to its parent; `None` if no such body exists.
    pub fn solve_velocity(&self, body: &str, epoch: i64) -> (r: Option<IVec3>)
        requires
            self.wf(),
            iabs(epoch as int) <= TIME_MAX,
        ensures
            match r {
                Some(v) => {
                    &&& find_first(self.bodies_view(), body@) >= 0
                    &&& v == spec_solve_velocity(
                        self.bodies_view()[find_first(self.bodies_view(), body@)],
                        epoch as int,
                    )
                },
                None => forall|j: int|
                    0 <= j < self.bodies_view().len() ==> self.bodies_view()[j].name@ != body@,
            },
    {
        proof {
            lemma_find_first(self.bodies_view(), body@);
        }
        let i = match self.find_body(body) {
            Some(i) => i,
            None => {
                return None;
            },
        };
        let cfg = &self.bodies[i];
        if cfg.orbit.semi_major == 0 {
            return Some(IVec3 { x: 0, y: 0, z: 0 });
        }
        let e: i64 = cfg.orbit.eccentricity;
        let m: i64 = Self::mean_anomaly(&cfg.orbit, epoch);
        let ea: i64 = kepler_solve(m, e);
        let cos_e: i64 = cos_nano(ea);
        let sin_e: i64 = sin_nano(ea);
        let bf: i64 = Self::bfac(e);
        let n_f: i128 = rdiv_i128((TAU_NANO as i128) * 1_000_000_000, cfg.orbit.period as i128);
        proof {
            lemma_rdiv_bound(
                (TAU_NANO as int) * 1_000_000_000,
                cfg.orbit.period as int,
                (TAU_NANO as int) * 1_000_000_000,
            );
            assert((TAU_NANO as int) * 1_000_000_000 <= ((TAU_NANO as int) * 1_000_000_000) * (
            cfg.orbit.period as int)) by (nonlinear_arith)
                requires
                    cfg.orbit.period >= 1;
            lemma_mul_bound(
                cfg.orbit.semi_major as int,
                n_f as int,
                SEMI_MAJOR_MAX as int,
                (TAU_NANO as int) * 1_000_000_000,
            );
            assert((SEMI_MAJOR_MAX as int) * ((TAU_NANO as int) * 1_000_000_000)
                == 56_548_667_763_000_000_000_000int * 1_000_000_000_000) by (nonlinear_arith);
            lemma_rdiv_bound(
                (cfg.orbit.semi_major as int) * (n_f as int),
                1_000_000_000_000,
                56_548_667_763_000_000_000_000,
            );
        }
        let v0: i128 = rdiv_i128((cfg.orbit.semi_major as i128) * n_f, 1_000_000_000_000);
        proof {
            let vb = 56_548_667_763_000_000_000_000int;
            assert((e as int) * (cos_e as int) <= (e as int) * (SCALE as int) && (e as int) * (
            cos_e as int) >= -((e as int) * (SCALE as int))) by (nonlinear_arith)
                requires
                    0 <= e,
                    -SCALE <= cos_e <= SCALE;
            lemma_rdiv_bound((e as int) * (cos_e as int), SCALE as int, e as int);
            lemma_mul_bound(v0 as int, sin_e as int, vb, SCALE as int);
            lemma_mul_bound(v0 as int, bf as int, vb, SCALE as int);
            lemma_rdiv_bound((v0 as int) * (bf as int), SCALE as int, vb);
        }
        let denom: i128 = (SCALE as i128) - rdiv_i128((e as i128) * (cos_e as i128), SCALE as i128);
        let vx: i128 = rdiv_i128(-((v0 as i128) * (sin_e as i128)), denom);
        let t2: i128 = rdiv_i128(v0 * (bf as i128), SCALE as i128);
        proof {
            let vb = 56_548_667_763_000_000_000_000int;
            lemma_mul_bound(t2 as int, cos_e as int, vb, SCALE as int);
        }
        let vy: i128 = rdiv_i128(t2 * (cos_e as i128), denom);
        let rot = Self::orbit_rot(&cfg.orbit);
        Some(rot.rotate(IVec3 { x: sat64(vx), y: sat64(vy), z: 0 }))
    }

    /// Solves for the orientation of a body at a given epoch: identity when
    /// the body has no rotation period; `None` if no such body exists.
    pub fn solve_rotation(&self, body: &str, epoch: i64) -> (r: Option<Quat>)
        requires
            self.wf(),
            iabs(epoch as int) <= TIME_MAX,
        ensures
            match r {
                Some(q) => {
                    &&& find_first(self.bodies_view(), body@) >= 0
                    &&& q == spec_solve_rotation(
                        self.bodies_view()[find_first(self.bodies_view(), body@)],
                        epoch as int,
                    )
                    &&& quat_bounded(q, 1024 * SCALE)
                },
                None => forall|j: int|
                    0 <= j < self.bodies_view().len() ==> self.bodies_view()[j].name@ != body@,
            },
    {
        proof {
            lemma_find_first(self.bodies_view(), body@);
        }
        let i = match self.find_body(body) {
            Some(i) => i,
            None => {
                return None;
            },
        };
        let cfg = &self.bodies[i];
        if cfg.rotation.rotation_period == 0 {
            return Some(Quat { x: 0, y: 0, z: 0, w: SCALE });
        }
        let period: i128 = cfg.rotation.rotation_period as i128;
        let dt: i128 = (epoch as i128) - (cfg.rotation.rotation_epoch as i128);
        let dtr: i128 = match dt.checked_rem_euclid(period) {
            Some(v) => v,
            None => 0,
        };
        proof {
            vstd::arithmetic::div_mod::lemma_mod_division_less_than_divisor(dt as int, period as int);
            lemma_mul_bound(TAU_NANO as int, dtr as int, TAU_NANO as int, TIME_MAX as int);
            assert((TAU_NANO as int) * (dtr as int) <= (TAU_NANO as int) * (period as int)
                && (TAU_NANO as int) * (dtr as int) >= 0) by (nonlinear_arith)
                requires
                    0 <= dtr < period,
                    TAU_NANO > 0;
            lemma_rdiv_bound((TAU_NANO as int) * (dtr as int), period as int, TAU_NANO as int);
        }
        let spin: i64 = rdiv_i128((TAU_NANO as i128) * dtr, period) as i64;
        let orbit_rot = Self::orbit_rot(&cfg.orbit);
        let qz1 = Quat::from_rotation_z(cfg.rotation.eq_ascend_node);
        let qx = Quat::from_rotation_x(cfg.rotation.obliquity);
        proof {
            lemma_qmul_bound(qz1, qx, SCALE as int, SCALE as int, 4 * SCALE as int);
        }
        let a = qz1.mul(qx);
        let qz2 = Quat::from_rotation_z(spin - cfg.rotation.eq_ascend_node);
        proof {
            lemma_qmul_bound(a, qz2, 4 * SCALE as int, SCALE as int, 16 * SCALE as int);
        }
        let eq_rot = a.mul(qz2);
        proof {
            lemma_qmul_bound(
                orbit_rot,
                eq_rot,
                16 * SCALE as int,
                16 * SCALE as int,
                1024 * SCALE as int,
            );
        }
        Some(orbit_rot.mul(eq_rot))
    }
}

/// The gravitational parameter `G * msum` in cubic meters per squared
/// second, with `G = 6.674e-11`.
#[verifier::opaque]
pub open spec fn spec_mu(msum: int) -> int {
    rdiv(msum * 6674, 100_000_000_000_000)
}

/// The orbital period derived from Kepler's third law,
/// `T = 2 pi * sqrt(a^3 / mu)`, in milliseconds.
#[verifier::opaque]
pub open spec fn spec_derived_period(a_mm: int, msum: int) -> int {
    let a_m = rdiv(a_mm, 1000);
    let t1 = rdiv(a_m * a_m * 1_000_000, spec_mu(msum));
    rdiv(TAU_NANO * spec_sqrt(t1 * a_m), 1_000_000_000)
}

/// The period derivation succeeds: the gravitational parameter is positive
/// and the derived period is positive and within range.
#[verifier::opaque]
pub open spec fn derivation_ok(a_mm: int, msum: int) -> bool {
    let a_m = rdiv(a_mm, 1000);
    let t1 = rdiv(a_m * a_m * 1_000_000, spec_mu(msum));
    &&& spec_mu(msum) > 0
    &&& t1 <= 3_000_000_000_000_000
    &&& 0 < spec_derived_period(a_mm, msum) <= TIME_MAX
}

/// The mass of the parent that body `i` names, looked up among the bodies
/// declared before it; zero for a root body or an unresolved parent.
pub open spec fn parent_mass_of(s: Seq<Body>, i: int) -> int {
    match s[i].parent {
        Some(p) => {
            let j = find_first(s.take(i), p@);
            if j >= 0 {
                s[j].mass as int
            } else {
                0
            }
        },
        None => 0,
    }
}

/// What `init` stores for a configured body: the body itself, with the
/// orbital period derived from `msum` when it was left zero on an orbiting
/// body.
pub open spec fn body_after_init(b: Body, msum: int) -> Body {
    if b.orbit.period == 0 && b.orbit.semi_major != 0 {
        Body {
            orbit: Orbit { period: spec_derived_period(b.orbit.semi_major as int, msum) as i64, ..b.orbit },
            ..b
        }
    } else {
        b
    }
}

/// `init` rejects the configuration at body `i`: an undeclared parent, a
/// field out of range, a failed period derivation, or a duplicated name.
pub open spec fn init_fails_at(s: Seq<Body>, i: int) -> bool {
    ||| (s[i].parent matches Some(p) && find_first(s.take(i), p@) == -1)
    ||| !body_ranges_ok(s[i])
    ||| (s[i].orbit.period == 0 && s[i].orbit.semi_major != 0 && !derivation_ok(
        s[i].orbit.semi_major as int,
        s[i].mass + parent_mass_of(s, i),
    ))
    ||| find_first(s.take(i), s[i].name@) != -1
}

/// Derive the orbital period of a body from Kepler's third law.
fn derive_period(a_mm: i64, msum: i128) -> (r: Option<i64>)
    requires
        0 < a_mm <= SEMI_MAJOR_MAX,
        0 <= msum <= 2 * MASS_MAX,
    ensures
        r is Some <==> derivation_ok(a_mm as int, msum as int),
        r matches Some(p) ==> p == spec_derived_period(a_mm as int, msum as int) && 0 < p
            <= TIME_MAX,
{
    proof {
        reveal(spec_mu);
        reveal(spec_derived_period);
        reveal(derivation_ok);
        lemma_mul_bound(msum as int, 6674, 2 * MASS_MAX as int, 6674);
        crate::num::lemma_rdiv_nonneg(msum as int * 6674, 100_000_000_000_000);
        lemma_rdiv_bound(msum as int * 6674, 100_000_000_000_000, iabs(msum as int * 6674));
        assert(msum as int * 6674 >= 0) by (nonlinear_arith)
            requires
                msum >= 0;
    }
    let mu: i128 = rdiv_i128(msum * 6674, 100_000_000_000_000);
    if mu <= 0 {
        return None;
    }
    proof {
        lemma_rdiv_bound(a_mm as int, 1000, 9_000_000_000_000);
        crate::num::lemma_rdiv_nonneg(a_mm as int, 1000);
    }
    let a_m: i128 = rdiv_i128(a_mm as i128, 1000);
    proof {
        assert(a_m * a_m * 1_000_000 <= 81_000_000_000_000_000_000_000_000_000_000
            && a_m * a_m * 1_000_000 >= 0) by (nonlinear_arith)
            requires
                0 <= a_m <= 9_000_000_000_000;
        crate::num::lemma_rdiv_nonneg(a_m as int * a_m as int * 1_000_000, mu as int);
        assert(iabs(a_m as int * a_m as int * 1_000_000) <= iabs(
            a_m as int * a_m as int * 1_000_000,
        ) * mu as int) by (nonlinear_arith)
            requires
                mu >= 1,
                iabs(a_m as int * a_m as int * 1_000_000) >= 0;
        lemma_rdiv_bound(
            a_m as int * a_m as int * 1_000_000,
            mu as int,
            iabs(a_m as int * a_m as int * 1_000_000),
        );
    }
    let t1: i128 = rdiv_i128(a_m * a_m * 1_000_000, mu);
    if t1 > 3_000_000_000_000_000 {
        return None;
    }
    proof {
        assert(t1 * a_m <= 27_000_000_000_000_000_000_000_000_000 && t1 * a_m >= 0)
            by (nonlinear_arith)
            requires
                0 <= t1 <= 3_000_000_000_000_000,
                0 <= a_m <= 9_000_000_000_000;
    }
    let ratio: i128 = t1 * a_m;
    let sq: u128 = isqrt(ratio as u128);
    proof {
        assert(sq <= 170_000_000_000_000) by (nonlinear_arith)
            requires
                (sq as int) * (sq as int) <= ratio as int,
                ratio as int <= 27_000_000_000_000_000_000_000_000_000,
                sq >= 0;
        lemma_mul_bound(TAU_NANO as int, sq as int, TAU_NANO as int, 170_000_000_000_000);
        lemma_rdiv_bound(
            (TAU_NANO as int) * (sq as int),
            1_000_000_000,
            (TAU_NANO as int) * 170_000_000_000_000,
        );
        assert(((TAU_NANO as int) * 170_000_000_000_000) * 1_000_000_000 >= (TAU_NANO as int)
            * 170_000_000_000_000) by (nonlinear_arith);
    }
    let p: i128 = rdiv_i128((TAU_NANO as i128) * (sq as i128), 1_000_000_000);
    if p <= 0 || p > TIME_MAX as i128 {
        None
    } else {
        Some(p as i64)
    }
}

/// The loop invariant of `init`: the stored prefix corresponds to the
/// configured bodies, none of which has failed, and is well-formed.
pub open spec fn init_inv(all: Seq<Body>, outv: Seq<Body>) -> bool {
    let k = outv.len() as int;
    &&& k <= all.len()
    &&& forall|j: int|
        0 <= j < k ==> outv[j] == body_after_init(
            #[trigger] all[j],
            all[j].mass + parent_mass_of(all, j),
        )
    &&& forall|j: int| 0 <= j < k ==> !(#[trigger] init_fails_at(all, j))
    &&& orrery_wf(outv)
    &&& forall|j: int| 0 <= j < k ==> (#[trigger] outv[j].name@) == all[j].name@
    &&& forall|j: int| 0 <= j < k ==> (#[trigger] outv[j].mass) == all[j].mass
}

/// A validated, possibly period-derived body is valid as stored.
proof fn lemma_stored_valid(b: Body, msum: int)
    requires
        body_ranges_ok(b),
        b.orbit.period == 0 && b.orbit.semi_major != 0 ==> derivation_ok(
            b.orbit.semi_major as int,
            msum,
        ),
    ensures
        body_valid(body_after_init(b, msum)),
{
    reveal(derivation_ok);
}

/// Appending a valid body with a fresh name and a resolvable parent keeps a
/// body list well-formed.
proof fn lemma_wf_push(prev: Seq<Body>, stored: Body)
    requires
        orrery_wf(prev),
        body_valid(stored),
        forall|j: int| 0 <= j < prev.len() ==> prev[j].name@ != stored.name@,
        stored.parent matches Some(p) ==> exists|j: int|
            0 <= j < prev.len() && prev[j].name@ == p@,
    ensures
        orrery_wf(prev.push(stored)),
{
    let outv = prev.push(stored);
    let n = prev.len() as int;
    assert(forall|j: int| 0 <= j < n ==> (#[trigger] outv[j]) == prev[j]);
    assert(outv[n] == stored);
    assert forall|i: int, j: int| 0 <= i < j < outv.len() implies outv[i].name@
        != outv[j].name@ by {
        if j < n {
            assert(outv[i] == prev[i] && outv[j] == prev[j]);
        } else {
            assert(outv[i] == prev[i] && outv[j] == stored);
        }
    }
    assert forall|i: int| 0 <= i < outv.len() implies body_valid(#[trigger] outv[i]) by {
        if i < n {
            assert(outv[i] == prev[i]);
        }
    }
    assert forall|i: int|
        0 <= i < outv.len() implies ((#[trigger] outv[i].parent) matches Some(p) ==> exists|
        j: int,
    |
        0 <= j < i && outv[j].name@ == p@) by {
        if i < n {
            assert(outv[i] == prev[i]);
            assert(prev[i].parent matches Some(p) ==> exists|j: int|
                0 <= j < i && prev[j].name@ == p@);
            match prev[i].parent {
                Some(p) => {
                    let j = choose|j: int| 0 <= j < i && prev[j].name@ == p@;
                    assert(outv[j] == prev[j]);
                },
                None => {},
            }
        } else {
            match stored.parent {
                Some(p) => {
                    let j = choose|j: int| 0 <= j < n && prev[j].name@ == p@;
                    assert(outv[j] == prev[j]);
                },
                None => {},
            }
        }
    }
}

/// Appending the stored form of the next configured body extends the `init`
/// invariant, given that the new list is well-formed.
proof fn lemma_inv_extend(all: Seq<Body>, prev: Seq<Body>, stored: Body, k: int)
    requires
        k == prev.len(),
        0 <= k < all.len(),
        init_inv(all, prev),
        !init_fails_at(all, k),
        stored == body_after_init(all[k], all[k].mass + parent_mass_of(all, k)),
        orrery_wf(prev.push(stored)),
    ensures
        init_inv(all, prev.push(stored)),
{
    let outv = prev.push(stored);
    assert(forall|j: int| 0 <= j < k ==> (#[trigger] outv[j]) == prev[j]);
    assert(outv[k] == stored);
    assert(stored.name@ == all[k].name@);
    assert(stored.mass == all[k].mass);
}

/// Process one configured body: validate it against the bodies stored so
/// far, derive its period if asked, and append it; an error reports why the
/// body was rejected.
#[verifier::rlimit(100)]
fn init_step(out: &mut Vec<Body>, body: Body, Ghost(all): Ghost<Seq<Body>>) -> (r: Option<
    OrreryError,
>)
    requires
        old(out)@.len() < all.len(),
        body == all[old(out)@.len() as int],
        init_inv(all, old(out)@),
    ensures
        r is None ==> init_inv(all, final(out)@) && final(out)@.len() == old(out)@.len() + 1,
        r is Some ==> init_fails_at(all, old(out)@.len() as int),
{
    let ghost k: int = out@.len() as int;
    let mut body = body;
    proof {
        assert(forall|j: int| 0 <= j < k ==> (#[trigger] out@.take(k)[j]) == out@[j]);
        assert(out@.take(k) =~= out@);
        assert(forall|j: int| 0 <= j < k ==> (#[trigger] all.take(k)[j]) == all[j]);
    }
    // parent must already exist among the bodies declared before
    let parent_mass: i128 = match &body.parent {
        Some(p) => {
            proof {
                lemma_find_first_names(out@, all.take(k), p@);
            }
            match find_in(out, p.as_str()) {
                Some(j) => out[j].mass,
                None => {
                    proof {
                        assert(init_fails_at(all, k));
                    }
                    return Some(
                        OrreryError::UnidentifiedParent {
                            body: body.name.clone(),
                            parent: p.clone(),
                        },
                    );
                },
            }
        },
        None => 0,
    };
    proof {
        assert(parent_mass as int == parent_mass_of(all, k));
    }
    // numeric fields must be in the supported ranges
    if !(0 <= body.orbit.semi_major && body.orbit.semi_major <= SEMI_MAJOR_MAX && 0
        <= body.orbit.period && body.orbit.period <= TIME_MAX && 0 <= body.orbit.eccentricity
        && body.orbit.eccentricity < SCALE && -ANGLE_MAX <= body.orbit.inclination
        && body.orbit.inclination <= ANGLE_MAX && -ANGLE_MAX <= body.orbit.ascending_node
        && body.orbit.ascending_node <= ANGLE_MAX && -ANGLE_MAX <= body.orbit.arg_of_pericenter
        && body.orbit.arg_of_pericenter <= ANGLE_MAX && -ANGLE_MAX <= body.orbit.mean_anomaly
        && body.orbit.mean_anomaly <= ANGLE_MAX && -TIME_MAX <= body.orbit.epoch
        && body.orbit.epoch <= TIME_MAX && 0 <= body.rotation.rotation_period
        && body.rotation.rotation_period <= TIME_MAX && -ANGLE_MAX <= body.rotation.obliquity
        && body.rotation.obliquity <= ANGLE_MAX && -ANGLE_MAX <= body.rotation.eq_ascend_node
        && body.rotation.eq_ascend_node <= ANGLE_MAX && -TIME_MAX <= body.rotation.rotation_epoch
        && body.rotation.rotation_epoch <= TIME_MAX && 0 <= body.mass && body.mass <= MASS_MAX) {
        proof {
            assert(!body_ranges_ok(all[k]));
            assert(init_fails_at(all, k));
        }
        return Some(OrreryError::InvalidBody { name: body.name.clone() });
    }
    proof {
        assert(body_ranges_ok(all[k]));
    }
    // derive a missing orbital period by Kepler's third law
    if body.orbit.period == 0 && body.orbit.semi_major != 0 {
        match derive_period(body.orbit.semi_major, body.mass + parent_mass) {
            Some(p) => {
                body.orbit.period = p;
            },
            None => {
                proof {
                    assert(init_fails_at(all, k));
                }
                return Some(OrreryError::InvalidBody { name: body.name.clone() });
            },
        }
    }
    // the name must be new
    proof {
        lemma_find_first_names(out@, all.take(k), body.name@);
    }
    if let Some(_) = find_in(out, body.name.as_str()) {
        proof {
            assert(init_fails_at(all, k));
        }
        return Some(OrreryError::DuplicateName { name: body.name.clone() });
    }
    proof {
        assert(!init_fails_at(all, k));
        assert(body == body_after_init(all[k], all[k].mass + parent_mass_of(all, k)));
        lemma_stored_valid(all[k], all[k].mass + parent_mass_of(all, k));
        lemma_find_first(out@, body.name@);
        match &body.parent {
            Some(p) => {
                lemma_find_first(out@, p@);
            },
            None => {},
        }
        lemma_wf_push(out@, body);
        lemma_inv_extend(all, out@, body, k);
    }
    let ghost prev = out@;
    out.push(body);
    proof {
        assert(out@ =~= prev.push(body));
    }
    None
}

impl Orrery {
    /// Create a new star-system solver from a configuration.
    ///
    /// Succeeds exactly when every body passes: its parent (if any) is
    /// declared earlier, its fields are in range, its period is given or
    /// derivable from the parent mass, and its name is new.  The stored
    /// bodies equal the configured ones except for derived periods.
    pub fn init(cfg: OrreryCfg) -> (r: Result<Orrery, OrreryError>)
        ensures
            r matches Ok(o) ==> {
                &&& o.wf()
                &&& o.spec_name()@ == cfg.name@
                &&& o.bodies_view().len() == cfg.bodies@.len()
                &&& forall|i: int|
                    0 <= i < cfg.bodies@.len() ==> o.bodies_view()[i] == body_after_init(
                        #[trigger] cfg.bodies@[i],
                        cfg.bodies@[i].mass + parent_mass_of(cfg.bodies@, i),
                    )
                &&& forall|i: int|
                    0 <= i < cfg.bodies@.len() ==> !(#[trigger] init_fails_at(cfg.bodies@, i))
            },
            r is Err ==> exists|i: int|
                0 <= i < cfg.bodies@.len() && #[trigger] init_fails_at(cfg.bodies@, i),
    {
        let ghost all = cfg.bodies@;
        let mut remaining: Vec<Body> = cfg.bodies;
        let mut out: Vec<Body> = Vec::new();
        while remaining.len() > 0
            invariant
                all == cfg.bodies@,
                out@.len() + remaining@.len() == all.len(),
                remaining@ =~= all.skip(out@.len() as int),
                init_inv(all, out@),
            decreases remaining.len(),
        {
            let ghost k: int = out@.len() as int;
            let body: Body = remaining.remove(0);
            proof {
                assert(all.skip(k)[0] == all[k]);
                assert(remaining@ =~= all.skip(k).drop_first());
                assert(all.skip(k).drop_first() =~= all.skip(k + 1));
            }
            match init_step(&mut out, body, Ghost(all)) {
                Some(e) => {
                    proof {
                        assert(0 <= k < all.len() && init_fails_at(all, k));
                    }
                    return Err(e);
                },
                None => {},
            }
        }
        Ok(Orrery { name: cfg.name, bodies: out })
    }
}

} // verus!
