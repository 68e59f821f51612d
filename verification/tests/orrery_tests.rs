//! Tests of the orbit solver: construction, lookups, Kepler convergence,
//! and the Sun-Earth two-body scenario.

use starsim::num::SCALE;
use starsim::orrery::Body;
use starsim::orrery::BodyClass;
use starsim::orrery::Orbit;
use starsim::orrery::Orrery;
use starsim::orrery::OrreryCfg;
use starsim::orrery::OrreryError;
use starsim::orrery::Rotation;
use starsim::orrery::kepler_solve;
use starsim::quat::Quat;
use starsim::trig::TAU_NANO;
use starsim::trig::cos_nano;
use starsim::trig::sin_nano;

const SUN_MASS: i128 = 1_988_500_000_000_000_000_000_000_000_000; // 1 massSol in kg
const EARTH_MASS: i128 = 5_972_200_000_000_000_000_000_000; // 1 massEarth in kg
const AU_MM: i64 = 149_597_870_700_000; // 1 au in millimeters
const DAY_MS: i64 = 86_400_000;
const YEAR_MS: i64 = 31_557_600_000; // 365.25 d

fn plain_body(name: &str) -> Body {
    Body {
        name: name.to_string(),
        class_params: BodyClass::Planet,
        parent: None,
        orbit: Orbit {
            semi_major: 0,
            period: 0,
            eccentricity: 0,
            inclination: 0,
            ascending_node: 0,
            arg_of_pericenter: 0,
            mean_anomaly: 0,
            epoch: 0,
        },
        rotation: Rotation {
            rotation_period: 0,
            obliquity: 0,
            eq_ascend_node: 0,
            rotation_epoch: 0,
        },
        mass: 0,
        radius: 0,
    }
}

fn sun_earth_cfg() -> OrreryCfg {
    let mut sun = plain_body("Sun");
    sun.class_params = BodyClass::Star { lumens: 1 };
    sun.mass = SUN_MASS;
    let mut earth = plain_body("Earth");
    earth.parent = Some("Sun".to_string());
    earth.mass = EARTH_MASS;
    earth.orbit.semi_major = AU_MM;
    earth.orbit.period = YEAR_MS;
    OrreryCfg {
        name: "sun-earth".to_string(),
        bodies: vec![sun, earth],
    }
}

#[test]
fn sun_earth_system_positions() {
    let ss = Orrery::init(sun_earth_cfg()).unwrap();
    for day in 0..365 {
        let epoch = day as i64 * DAY_MS;
        let pos = ss.solve_position("Earth", epoch).unwrap();
        println!("day {day:3}: {pos:?}");
    }
}

#[test]
fn default_solve_rotation_identity() {
    let mut a = plain_body("A");
    a.mass = EARTH_MASS;
    let cfg = OrreryCfg {
        name: "test".to_string(),
        bodies: vec![a],
    };
    let ss = Orrery::init(cfg).unwrap();
    let epoch = 42 * DAY_MS;
    assert_eq!(
        ss.solve_rotation("A", epoch).unwrap(),
        Quat { x: 0, y: 0, z: 0, w: SCALE }
    );
}

#[test]
fn earth_orbit_is_a_circle() {
    // Sun at the origin, Earth on a circular one-year orbit: the distance
    // from the Sun stays at one astronomical unit over the whole period.
    let ss = Orrery::init(sun_earth_cfg()).unwrap();
    for step in 0..73 {
        let epoch = step * 5 * DAY_MS;
        let pos = ss.solve_position("Earth", epoch).unwrap();
        let r = ((pos.x as f64).powi(2) + (pos.y as f64).powi(2) + (pos.z as f64).powi(2)).sqrt();
        let rel_err = (r - AU_MM as f64).abs() / AU_MM as f64;
        assert!(rel_err < 1e-5, "day {}: radius {} mm", step * 5, r);
        assert_eq!(pos.z, 0);
    }
    // after a quarter period the position is a quarter turn along the orbit
    let quarter = ss.solve_position("Earth", YEAR_MS / 4).unwrap();
    assert!((quarter.x as f64).abs() < 1e10);
    assert!(quarter.y > AU_MM - AU_MM / 1000);
}

#[test]
fn fixed_body_tracks_parent() {
    let mut station = plain_body("Station");
    station.parent = Some("Earth".to_string());
    station.mass = 1;
    let mut cfg = sun_earth_cfg();
    cfg.bodies.push(station);
    let ss = Orrery::init(cfg).unwrap();
    for day in [0i64, 17, 100] {
        let epoch = day * DAY_MS;
        assert_eq!(
            ss.solve_position("Station", epoch).unwrap(),
            ss.solve_position("Earth", epoch).unwrap()
        );
        let v = ss.solve_velocity("Station", epoch).unwrap();
        assert_eq!((v.x, v.y, v.z), (0, 0, 0));
    }
}

#[test]
fn kepler_converges_for_moderate_eccentricity() {
    // For eccentricity up to 0.9 and arbitrary mean anomaly, the returned
    // eccentric anomaly satisfies Kepler's equation to ten nano-radians in
    // the solver's own fixed-point trigonometry.
    for e10 in 0..10 {
        let e = e10 * (SCALE / 10); // 0.0, 0.1, .. 0.9
        for k in 0..20 {
            let m = k * (TAU_NANO / 20);
            let big_e = kepler_solve(m, e);
            let sin_e = sin_nano(big_e) as i128;
            let residual = big_e as i128 - (e as i128 * sin_e) / (SCALE as i128) - m as i128;
            assert!(
                residual.abs() <= 10,
                "e={} m={} E={} residual={}",
                e,
                m,
                big_e,
                residual
            );
        }
    }
}

#[test]
fn kepler_zero_eccentricity_is_identity() {
    for k in 0..10 {
        let m = k * (TAU_NANO / 10);
        assert_eq!(kepler_solve(m, 0), m);
    }
}

#[test]
fn derived_period_matches_keplers_third_law() {
    let mut cfg = sun_earth_cfg();
    cfg.bodies[1].orbit.period = 0; // ask init to derive it
    let ss = Orrery::init(cfg).unwrap();
    let earth = ss.get_body("Earth").unwrap();
    let rel_err = (earth.orbit.period - YEAR_MS).abs() as f64 / YEAR_MS as f64;
    assert!(rel_err < 1e-3, "derived period {} ms", earth.orbit.period);
}

#[test]
fn init_rejects_duplicate_names() {
    let cfg = OrreryCfg {
        name: "dup".to_string(),
        bodies: vec![plain_body("A"), plain_body("A")],
    };
    match Orrery::init(cfg) {
        Err(OrreryError::DuplicateName { name }) => assert_eq!(name, "A"),
        other => panic!("expected a duplicate-name error, got {other:?}"),
    }
}

#[test]
fn init_rejects_unknown_parent() {
    let mut b = plain_body("B");
    b.parent = Some("Missing".to_string());
    let cfg = OrreryCfg {
        name: "orphan".to_string(),
        bodies: vec![plain_body("A"), b],
    };
    match Orrery::init(cfg) {
        Err(OrreryError::UnidentifiedParent { body, parent }) => {
            assert_eq!(body, "B");
            assert_eq!(parent, "Missing");
        }
        other => panic!("expected an unidentified-parent error, got {other:?}"),
    }
}

#[test]
fn init_rejects_out_of_range_eccentricity() {
    let mut b = plain_body("A");
    b.orbit.eccentricity = SCALE; // eccentricity 1.0 is out of [0, 1)
    let cfg = OrreryCfg {
        name: "bad".to_string(),
        bodies: vec![b],
    };
    match Orrery::init(cfg) {
        Err(OrreryError::InvalidBody { name }) => assert_eq!(name, "A"),
        other => panic!("expected an invalid-body error, got {other:?}"),
    }
}

#[test]
fn lookup_misses_return_none() {
    let ss = Orrery::init(sun_earth_cfg()).unwrap();
    assert!(ss.get_body("Pluto").is_none());
    assert!(ss.solve_position("Pluto", 0).is_none());
    assert!(ss.solve_velocity("Pluto", 0).is_none());
    assert!(ss.solve_rotation("Pluto", 0).is_none());
    assert_eq!(ss.iter().len(), 2);
    assert_eq!(ss.name(), "sun-earth");
}

#[test]
fn earth_velocity_is_orbital_speed() {
    // Mean orbital speed of a circular one-au orbit: about 29.8 km/s.
    let ss = Orrery::init(sun_earth_cfg()).unwrap();
    let v = ss.solve_velocity("Earth", 0).unwrap();
    let speed = ((v.x as f64).powi(2) + (v.y as f64).powi(2)).sqrt(); // micrometers per second
    let expected = 29_780_000_000.0f64;
    assert!((speed - expected).abs() / expected < 1e-3, "speed {speed}");
    assert_eq!(v.z, 0);
}

#[test]
fn trig_basics() {
    assert_eq!(sin_nano(0), 0);
    let quarter = TAU_NANO / 4;
    assert!((sin_nano(quarter) - SCALE).abs() <= 10);
    assert!(cos_nano(quarter).abs() <= 10);
    assert!((cos_nano(0) - SCALE).abs() <= 10);
    for k in -8i64..8 {
        let x = k * 700_000_000;
        let s = sin_nano(x) as i128;
        let c = cos_nano(x) as i128;
        let norm = s * s + c * c;
        let unit = (SCALE as i128) * (SCALE as i128);
        assert!((norm - unit).abs() < unit / 10_000_000, "x={x} norm={norm}");
    }
}
