//! Unit tests of the engine's force law and the integer helpers it is
//! built on, on concrete fixed-point values.

use gravity_sim::body::Vec2;
use gravity_sim::engine::gravity_force;
use gravity_sim::math::{isqrt64, tdiv128, tdiv64};

#[test]
fn integer_sqrt_rounds_down() {
    assert_eq!(isqrt64(0), 0);
    assert_eq!(isqrt64(1), 1);
    assert_eq!(isqrt64(8), 2);
    assert_eq!(isqrt64(9), 3);
    assert_eq!(isqrt64(10_000_000_000), 100_000);
    assert_eq!(isqrt64(u64::MAX), 4_294_967_295);
}

#[test]
fn truncating_division_rounds_toward_zero() {
    assert_eq!(tdiv64(7, 2), 3);
    assert_eq!(tdiv64(-7, 2), -3);
    assert_eq!(tdiv64(0, 5), 0);
    assert_eq!(tdiv128(-1_000_000_000_000_000_000_000, 3), -333_333_333_333_333_333_333);
}

#[test]
fn pairwise_force_matches_the_law() {
    // Masses 27.0 at distance 100.0: G * m * m / d^2 = 6.674 * 27 * 27
    // / 10_000 = 0.4865346, truncated to 0.486 in fixed point, pointing
    // from the probe toward the other body.
    let f = gravity_force(
        Vec2 { x: 0, y: 0 },
        27_000,
        Vec2 { x: 100_000, y: 0 },
        27_000,
    );
    assert_eq!(f, (486, 0));
    let back = gravity_force(
        Vec2 { x: 100_000, y: 0 },
        27_000,
        Vec2 { x: 0, y: 0 },
        27_000,
    );
    assert_eq!(back, (-486, 0));
}

#[test]
fn pairwise_force_guards_zero_distance() {
    let p = Vec2 { x: 4_000, y: -3_000 };
    let f = gravity_force(p, 50_000, p, 70_000);
    assert_eq!(f, (0, 0));
}
