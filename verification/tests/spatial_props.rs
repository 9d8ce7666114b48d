//! Spatial utilities: toroidal wrap, shortest-way direction and distance,
//! the senescence curve and the sunlight oscillator.

use ecosim::geom::{Vec2m, wrap_coord, wrap_position, wrapped_direction, wrapped_distance};
use ecosim::movement::{age_speed_multiplier, fresh_waypoint};
use ecosim::environment::sunlight_cycle_system;
use ecosim::config::SimulationConfig;
use ecosim::world::World;
use ecosim::rng::rand_i64_range;

const HW: i64 = 2_400_000;
const HH: i64 = 1_600_000;

#[test]
fn wrap_sends_overflow_to_opposite_edge() {
    assert_eq!(wrap_coord(2_400_001, HW), -2_400_000);
    assert_eq!(wrap_coord(-2_400_001, HW), 2_400_000);
    assert_eq!(wrap_coord(2_400_000, HW), 2_400_000);
    assert_eq!(wrap_coord(-2_400_000, HW), -2_400_000);
    assert_eq!(wrap_coord(0, HW), 0);
    assert_eq!(wrap_coord(123_456, HW), 123_456);
}

#[test]
fn wrap_is_idempotent_and_in_band() {
    let samples: Vec<i64> = vec![
        -5_000_000, -2_400_001, -2_400_000, -1, 0, 1, 999_999, 2_399_999, 2_400_000, 2_400_001,
        5_000_000,
    ];
    for &c in samples.iter() {
        let once = wrap_coord(c, HW);
        let twice = wrap_coord(once, HW);
        assert_eq!(once, twice);
        assert!(-HW <= once && once <= HW);
    }
}

#[test]
fn wrap_position_wraps_both_axes() {
    let mut p = Vec2m { x: 2_500_000, y: -1_700_000 };
    wrap_position(&mut p, HW, HH);
    assert_eq!(p.x, -2_400_000);
    assert_eq!(p.y, 1_600_000);
}

#[test]
fn wrapped_direction_takes_the_short_way_around() {
    let a = Vec2m { x: -2_399_000, y: 0 };
    let b = Vec2m { x: 2_399_000, y: 0 };
    let d = wrapped_direction(a, b, HW, HH);
    assert_eq!(d.x, -2_000);
    assert_eq!(d.y, 0);
    assert_eq!(wrapped_distance(a, b, HW, HH), 2_000);

    let c = Vec2m { x: 100_000, y: 50_000 };
    let e = Vec2m { x: 103_000, y: 54_000 };
    let d2 = wrapped_direction(c, e, HW, HH);
    assert_eq!(d2.x, 3_000);
    assert_eq!(d2.y, 4_000);
    assert_eq!(wrapped_distance(c, e, HW, HH), 5_000);
}

#[test]
fn wrapped_distance_is_symmetric() {
    let pts: Vec<Vec2m> = vec![
        Vec2m { x: 0, y: 0 },
        Vec2m { x: -2_399_000, y: 1_500_000 },
        Vec2m { x: 2_399_000, y: -1_500_000 },
        Vec2m { x: 1_000_000, y: 1_000_000 },
        Vec2m { x: -1, y: 1 },
    ];
    for &a in pts.iter() {
        for &b in pts.iter() {
            assert_eq!(
                wrapped_distance(a, b, HW, HH),
                wrapped_distance(b, a, HW, HH),
            );
        }
    }
}

#[test]
fn age_multiplier_follows_the_senescence_curve() {
    assert_eq!(age_speed_multiplier(0), 1000);
    assert_eq!(age_speed_multiplier(239_999_999), 1000);
    assert_eq!(age_speed_multiplier(255_000_000), 600);
    assert_eq!(age_speed_multiplier(269_999_999), 201);
    assert_eq!(age_speed_multiplier(285_000_000), 100);
    assert_eq!(age_speed_multiplier(300_000_000), 0);
    assert_eq!(age_speed_multiplier(400_000_000), 0);
}

#[test]
fn sunlight_stays_within_band_and_starts_near_dawn() {
    let mut w = World::new(SimulationConfig::default());
    sunlight_cycle_system(&mut w, 16_667);
    assert_eq!(w.sunlight.intensity, 702);
    for _ in 0..20_000 {
        sunlight_cycle_system(&mut w, 16_667);
        assert!(w.sunlight.intensity >= 400);
        assert!(w.sunlight.intensity <= 1000);
    }
}

#[test]
fn fresh_waypoints_hop_one_to_two_hundred_units() {
    for _ in 0..200 {
        let wp = fresh_waypoint(0, 0, HW, HH);
        assert_eq!(wp.reached_threshold, 30_000);
        // Far from the seam, so the wrap cannot shorten the hop; the
        // rational sine puts the hop within a sliver of [100, 200] units.
        let d = wrapped_distance(Vec2m { x: 0, y: 0 }, wp.target, HW, HH);
        assert!((99_000..=201_000).contains(&d), "hop of {} milli-units", d);
    }
}

#[test]
fn random_range_draws_stay_inside() {
    for _ in 0..200 {
        let d = rand_i64_range(10, 20);
        assert!((10..20).contains(&d));
        let e = rand_i64_range(-1000, 1000);
        assert!((-1000..1000).contains(&e));
    }
}
