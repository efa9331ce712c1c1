//! End-to-end tests of the simulation context and the engine, on concrete
//! fixed-point values (1000 counts = 1.0 unit).

use gravity_sim::body::{Color, Vec2};
use gravity_sim::sim::{AddBodyError, Command, Simulation};

fn white() -> Color {
    Color { r: 255, g: 255, b: 255 }
}

fn v(x: i64, y: i64) -> Vec2 {
    Vec2 { x, y }
}

#[test]
fn zero_vector_constructor() {
    let z = Vec2::zero();
    assert_eq!((z.x, z.y), (0, 0));
}

#[test]
fn single_body_feels_no_force() {
    // A body alone in the registry: no self-interaction, so no
    // acceleration; it drifts uniformly by its own velocity.
    let mut sim = Simulation::new();
    sim.add_body(white(), 27_000, v(0, 0), v(3_000, 0)).unwrap();
    sim.step();
    let b = sim.body_at(0);
    assert_eq!(sim.len(), 1);
    assert_eq!((b.acc.x, b.acc.y), (0, 0));
    assert_eq!((b.vel.x, b.vel.y), (3_000, 0));
    assert_eq!((b.pos.x, b.pos.y), (3_000, 0));
}

#[test]
fn zero_distance_pair_is_inert() {
    // Two bodies at the exact same position: the degenerate pair
    // contributes nothing, the step completes, and nothing moves.
    let mut sim = Simulation::new();
    sim.add_body(white(), 50_000, v(100, 200), v(0, 0)).unwrap();
    sim.add_body(white(), 60_000, v(100, 200), v(0, 0)).unwrap();
    sim.step();
    for i in 0..2 {
        let b = sim.body_at(i);
        assert_eq!((b.acc.x, b.acc.y), (0, 0));
        assert_eq!((b.vel.x, b.vel.y), (0, 0));
        assert_eq!((b.pos.x, b.pos.y), (100, 200));
    }
}

#[test]
fn zero_distance_pair_leaves_third_body_clean() {
    // A coincident pair plus a distant third body: the step completes
    // and the third body's state stays a function of the snapshot.
    let mut sim = Simulation::new();
    sim.add_body(white(), 27_000, v(0, 0), v(0, 0)).unwrap();
    sim.add_body(white(), 27_000, v(0, 0), v(0, 0)).unwrap();
    sim.add_body(white(), 27_000, v(100_000, 0), v(0, 0)).unwrap();
    let expected = sim.accel_at(2);
    sim.step();
    let b = sim.body_at(2);
    assert_eq!((b.acc.x, b.acc.y), (expected.x, expected.y));
    // The third body is pulled toward the pair, never pushed away.
    assert!(b.acc.x < 0);
    assert_eq!(b.acc.y, 0);
}

#[test]
fn non_positive_mass_is_rejected() {
    let mut sim = Simulation::new();
    assert_eq!(
        sim.add_body(white(), 0, v(0, 0), v(0, 0)),
        Err(AddBodyError::NonPositiveMass)
    );
    assert_eq!(
        sim.add_body(white(), -5_000, v(0, 0), v(0, 0)),
        Err(AddBodyError::NonPositiveMass)
    );
    // Nothing non-positive ever reaches the registry.
    assert_eq!(sim.len(), 0);
}

#[test]
fn oversized_values_are_rejected() {
    let mut sim = Simulation::new();
    assert_eq!(
        sim.add_body(white(), 100_000_001, v(0, 0), v(0, 0)),
        Err(AddBodyError::MassTooLarge)
    );
    assert_eq!(
        sim.add_body(white(), 27_000, v(1_000_000_001, 0), v(0, 0)),
        Err(AddBodyError::OutOfRange)
    );
    assert_eq!(
        sim.add_body(white(), 27_000, v(0, 0), v(0, -1_000_000_001)),
        Err(AddBodyError::OutOfRange)
    );
    assert_eq!(sim.len(), 0);
}

#[test]
fn registry_capacity_is_enforced() {
    let mut sim = Simulation::new();
    for _ in 0..1_000_000 {
        sim.add_body(white(), 27_000, v(0, 0), v(0, 0)).unwrap();
    }
    assert_eq!(
        sim.add_body(white(), 27_000, v(0, 0), v(0, 0)),
        Err(AddBodyError::RegistryFull)
    );
    assert_eq!(sim.len(), 1_000_000);
}

#[test]
fn speed_cap_clamps_excess_velocity() {
    // One body launched over the cap: after the step its velocity is
    // rescaled to magnitude 5.0 with the direction kept (8, -6 scales
    // to 4, -3).
    let mut sim = Simulation::new();
    sim.add_body(white(), 27_000, v(0, 0), v(8_000, -6_000)).unwrap();
    sim.step();
    let b = sim.body_at(0);
    assert_eq!((b.vel.x, b.vel.y), (4_000, -3_000));
    assert_eq!((b.pos.x, b.pos.y), (4_000, -3_000));
}

#[test]
fn speed_cap_holds_over_many_steps() {
    let mut sim = Simulation::new();
    sim.add_body(white(), 27_000, v(-50_000, 0), v(1_000_000, 7_000)).unwrap();
    sim.add_body(white(), 99_000_000, v(50_000, 0), v(-1_000_000, 0)).unwrap();
    for _ in 0..25 {
        sim.step();
        for i in 0..sim.len() {
            let b = sim.body_at(i);
            let sq = b.vel.x as i128 * b.vel.x as i128 + b.vel.y as i128 * b.vel.y as i128;
            assert!(sq <= 25_000_000);
        }
    }
}

#[test]
fn acceleration_depends_on_snapshot_only() {
    // Three bodies at distinct positions: what the engine assigns to
    // each body in the step is exactly the acceleration computed from
    // the pre-step snapshot, unaffected by the in-step mutation of the
    // lower-indexed bodies.
    let mut sim = Simulation::new();
    sim.add_body(white(), 40_000, v(-60_000, 10_000), v(0, 0)).unwrap();
    sim.add_body(white(), 50_000, v(0, -20_000), v(0, 0)).unwrap();
    sim.add_body(white(), 60_000, v(70_000, 30_000), v(0, 0)).unwrap();
    let before = [sim.accel_at(0), sim.accel_at(1), sim.accel_at(2)];
    sim.step();
    for i in 0..3 {
        let b = sim.body_at(i);
        assert_eq!((b.acc.x, b.acc.y), (before[i].x, before[i].y));
    }
}

#[test]
fn empty_registry_removal_is_a_noop() {
    let mut sim = Simulation::new();
    assert_eq!(sim.remove_last(), None);
    assert_eq!(sim.len(), 0);
    assert_eq!(sim.apply(Command::RemoveLast), Ok(()));
    assert_eq!(sim.len(), 0);
}

#[test]
fn two_bodies_attract_symmetrically() {
    // Equal masses at (-50.0, 0) and (50.0, 0), at rest: after one step
    // they have moved strictly toward each other by the same amount.
    let mut sim = Simulation::new();
    sim.add_body(white(), 27_000, v(-50_000, 0), v(0, 0)).unwrap();
    sim.add_body(white(), 27_000, v(50_000, 0), v(0, 0)).unwrap();
    sim.step();
    let l = sim.body_at(0);
    let r = sim.body_at(1);
    assert!(l.pos.x > -50_000);
    assert!(r.pos.x < 50_000);
    // Exact fixed-point values: acceleration 0.037 toward the partner.
    assert_eq!((l.acc.x, l.acc.y), (37, 0));
    assert_eq!((l.vel.x, l.vel.y), (37, 0));
    assert_eq!((l.pos.x, l.pos.y), (-49_963, 0));
    // Mirror symmetry, exactly.
    assert_eq!(r.pos.x, -l.pos.x);
    assert_eq!(r.vel.x, -l.vel.x);
    assert_eq!(r.acc.x, -l.acc.x);
    assert_eq!((r.pos.y, r.vel.y, r.acc.y), (0, 0, 0));
}

#[test]
fn mirrored_bodies_stay_mirrored() {
    // Equal masses launched as exact mirror images through the origin:
    // the engine's rounding is odd under reflection, so the mirror is
    // exact after every step.
    let mut sim = Simulation::new();
    sim.add_body(white(), 50_000, v(-40_000, 10_000), v(2_000, -1_000)).unwrap();
    sim.add_body(white(), 50_000, v(40_000, -10_000), v(-2_000, 1_000)).unwrap();
    for _ in 0..10 {
        sim.step();
        let a = sim.body_at(0);
        let b = sim.body_at(1);
        assert_eq!((b.pos.x, b.pos.y), (-a.pos.x, -a.pos.y));
        assert_eq!((b.vel.x, b.vel.y), (-a.vel.x, -a.vel.y));
        assert_eq!((b.acc.x, b.acc.y), (-a.acc.x, -a.acc.y));
    }
}

#[test]
fn removal_is_lifo() {
    let mut sim = Simulation::new();
    sim.add_body(white(), 1_000, v(1, 1), v(0, 0)).unwrap();
    sim.add_body(white(), 2_000, v(2, 2), v(0, 0)).unwrap();
    sim.add_body(white(), 3_000, v(3, 3), v(0, 0)).unwrap();
    let removed = sim.remove_last().unwrap();
    assert_eq!(removed.mass, 3_000);
    assert_eq!(sim.len(), 2);
    assert_eq!(sim.body_at(0).mass, 1_000);
    assert_eq!(sim.body_at(1).mass, 2_000);
}

#[test]
fn default_settings_drive_positional_adds() {
    let mut sim = Simulation::new();
    let s = sim.settings();
    assert_eq!(s.mass, 27_000);
    assert_eq!(s.color, white());
    assert_eq!((s.initial_vel.x, s.initial_vel.y), (0, 0));
    sim.add_body_at(v(5_000, 6_000)).unwrap();
    let b = sim.body_at(0);
    assert_eq!(b.mass, 27_000);
    assert_eq!(b.color, white());
    assert_eq!((b.pos.x, b.pos.y), (5_000, 6_000));
    assert_eq!((b.vel.x, b.vel.y), (0, 0));
}

#[test]
fn commands_add_with_pending_settings() {
    let mut sim = Simulation::new();
    let mut s = sim.settings();
    s.mass = 40_000;
    s.color = Color { r: 10, g: 20, b: 30 };
    s.initial_vel = v(1_000, 1_000);
    sim.set_settings(s);
    assert_eq!(sim.apply(Command::AddBody { pos: v(-7_000, 8_000) }), Ok(()));
    let b = sim.body_at(0);
    assert_eq!(b.mass, 40_000);
    assert_eq!(b.color, Color { r: 10, g: 20, b: 30 });
    assert_eq!((b.pos.x, b.pos.y), (-7_000, 8_000));
    assert_eq!((b.vel.x, b.vel.y), (1_000, 1_000));
    assert_eq!(sim.apply(Command::RemoveLast), Ok(()));
    assert_eq!(sim.len(), 0);
}

#[test]
fn positions_saturate_at_the_world_edge() {
    let mut sim = Simulation::new();
    sim.add_body(white(), 27_000, v(1_000_000_000, 0), v(8_000, 0)).unwrap();
    sim.step();
    let b = sim.body_at(0);
    // Velocity capped to 5.0; the position cannot leave the
    // representable range.
    assert_eq!(b.vel.x, 5_000);
    assert_eq!(b.pos.x, 1_000_000_000);
}
