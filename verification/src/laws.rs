//! The library's laws: properties that hold of every input, each stated
//! as a public proof function and proved once and for all.

use vstd::prelude::*;

use crate::body::{Body, Vec2, wf_bodies, wf_body};
use crate::engine::{accel_of, dist_sq, net_force, net_force_prefix, normalize_or_zero, pair_force,
    shrink, step_body, unit_toward, lemma_accel_bound, lemma_clamp_caps, lemma_step_body_wf,
    clamp_speed, FORCE_FIT, GRAVITY, V_MAX};
use crate::body::SCALE;
use crate::math::{iabs, is_sqrt, sqrt_floor, sqrt_up, tdiv, lemma_sqrt_floor_props,
    lemma_tdiv_mag};
use crate::sim::Simulation;

verus! {

/// No self-interaction: the pairwise sum behind `net_force` skips the
/// probe body's own index, so a body alone in the registry feels no force
/// at all and does not accelerate.
pub proof fn lemma_single_body_feels_no_force(bodies: Seq<Body>)
    requires
        bodies.len() == 1,
        wf_body(bodies[0]),
    ensures
        net_force(bodies, 0) == (0int, 0int),
        accel_of(bodies, 0) == (0int, 0int),
{
    assert(net_force_prefix(bodies, 0, 0) == (0int, 0int));
    let m = bodies[0].mass as int;
    assert(tdiv(0, m) == 0) by (nonlinear_arith)
        requires
            m > 0,
    ;
    assert(shrink(0, 0) == (0int, 0int));
    let s = shrink(0, 0);
    assert(s.0 * s.0 + s.1 * s.1 == 0) by (nonlinear_arith)
        requires
            s == (0int, 0int),
    ;
    assert(normalize_or_zero(0, 0) == (0int, 0int));
}

/// The zero-distance guard: two bodies at identical positions contribute
/// exactly zero force to each other — never a malformed value — whatever
/// their masses.
pub proof fn lemma_zero_distance_zero_contribution(p: Vec2, m: int, om: int)
    ensures
        pair_force(p, m, p, om) == (0int, 0int),
{
    assert(dist_sq(p, p) == 0);
}

/// Mass positivity: every body in a well-formed registry carries a
/// strictly positive mass; `add_body` rejects any other request, so no
/// live body ever violates this.
pub proof fn lemma_live_mass_positive(s: Simulation, i: int)
    requires
        s.wf(),
        0 <= i < s@.len(),
    ensures
        s@[i].mass > 0,
{
}

/// The speed cap: after a step, every body's velocity has squared
/// magnitude at most `V_MAX * V_MAX`, whatever the registry held before.
pub proof fn lemma_speed_cap_after_step(bodies: Seq<Body>, i: int)
    requires
        wf_bodies(bodies),
        0 <= i < bodies.len(),
    ensures
        step_body(bodies, i).vel.mag_sq() <= V_MAX * V_MAX,
{
    lemma_step_body_wf(bodies, i);
}

proof fn lemma_shrink_odd(fx: int, fy: int)
    ensures
        shrink(-fx, -fy).0 == -shrink(fx, fy).0,
        shrink(-fx, -fy).1 == -shrink(fx, fy).1,
    decreases iabs(fx) + iabs(fy),
{
    if -FORCE_FIT <= fx <= FORCE_FIT && -FORCE_FIT <= fy <= FORCE_FIT {
    } else {
        lemma_tdiv_mag(fx, 2);
        lemma_tdiv_mag(fy, 2);
        lemma_shrink_odd(tdiv(fx, 2), tdiv(fy, 2));
        assert(tdiv(-fx, 2) == -tdiv(fx, 2) && tdiv(-fy, 2) == -tdiv(fy, 2));
    }
}

proof fn lemma_normalize_odd(fx: int, fy: int)
    ensures
        normalize_or_zero(-fx, -fy).0 == -normalize_or_zero(fx, fy).0,
        normalize_or_zero(-fx, -fy).1 == -normalize_or_zero(fx, fy).1,
{
    lemma_shrink_odd(fx, fy);
    let s = shrink(fx, fy);
    let m2 = s.0 * s.0 + s.1 * s.1;
    assert((-s.0) * (-s.0) + (-s.1) * (-s.1) == m2 && m2 >= 0 && (-s.0) * 1000 == -(s.0 * 1000)
        && (-s.1) * 1000 == -(s.1 * 1000)) by (nonlinear_arith)
        requires
            m2 == s.0 * s.0 + s.1 * s.1,
    ;
    if m2 != 0 {
        lemma_sqrt_floor_props(m2);
        let d = sqrt_floor(m2);
        assert(d >= 1) by (nonlinear_arith)
            requires
                is_sqrt(m2, d) && m2 > 0,
        ;
        lemma_tdiv_mag(s.0 * SCALE, d);
        lemma_tdiv_mag(s.1 * SCALE, d);
    }
}

proof fn lemma_pair_force_mirror(p: Vec2, m: int, q: Vec2, om: int, np: Vec2, nq: Vec2)
    requires
        np.x == -p.x && np.y == -p.y,
        nq.x == -q.x && nq.y == -q.y,
    ensures
        pair_force(np, m, nq, om).0 == -pair_force(p, m, q, om).0,
        pair_force(np, m, nq, om).1 == -pair_force(p, m, q, om).1,
{
    let dx = q.x - p.x;
    let dy = q.y - p.y;
    assert((nq.x - np.x) * (nq.x - np.x) + (nq.y - np.y) * (nq.y - np.y) == dx * dx + dy * dy)
        by (nonlinear_arith)
        requires
            nq.x - np.x == -dx && nq.y - np.y == -dy,
    ;
    let d2 = dist_sq(p, q);
    if d2 != 0 {
        assert(d2 > 0) by (nonlinear_arith)
            requires
                d2 == dx * dx + dy * dy && d2 != 0,
        ;
        lemma_sqrt_floor_props(d2);
        let d = sqrt_floor(d2);
        assert(d >= 1) by (nonlinear_arith)
            requires
                is_sqrt(d2, d) && d2 > 0,
        ;
        assert((-dx) * 1000 == -(dx * 1000) && (-dy) * 1000 == -(dy * 1000)) by (nonlinear_arith);
        lemma_tdiv_mag(dx * SCALE, d);
        lemma_tdiv_mag(dy * SCALE, d);
        let u = unit_toward(p, q);
        assert(unit_toward(np, nq).0 == -u.0 && unit_toward(np, nq).1 == -u.1);
        assert(GRAVITY * m * om * (-u.0) == -(GRAVITY * m * om * u.0) && GRAVITY * m * om * (-u.1)
            == -(GRAVITY * m * om * u.1) && SCALE * d2 > 0) by (nonlinear_arith)
            requires
                d2 > 0 && SCALE == 1000 && GRAVITY == 6674,
        ;
        lemma_tdiv_mag(GRAVITY * m * om * u.0, SCALE * d2);
        lemma_tdiv_mag(GRAVITY * m * om * u.1, SCALE * d2);
    }
}

proof fn lemma_clamp_odd(vx: int, vy: int)
    ensures
        clamp_speed(-vx, -vy).0 == -clamp_speed(vx, vy).0,
        clamp_speed(-vx, -vy).1 == -clamp_speed(vx, vy).1,
{
    let m2 = vx * vx + vy * vy;
    assert((-vx) * (-vx) + (-vy) * (-vy) == m2 && m2 >= 0 && (-vx) * 5000 == -(vx * 5000) && (-vy)
        * 5000 == -(vy * 5000)) by (nonlinear_arith)
        requires
            m2 == vx * vx + vy * vy,
    ;
    if m2 > V_MAX * V_MAX {
        lemma_sqrt_floor_props(m2);
        let r = sqrt_floor(m2);
        let d = sqrt_up(m2);
        assert(d >= 1) by (nonlinear_arith)
            requires
                is_sqrt(m2, r) && d >= r && m2 > 25_000_000,
        ;
        lemma_tdiv_mag(vx * V_MAX, d);
        lemma_tdiv_mag(vy * V_MAX, d);
    }
}

/// Two-body symmetry: two equal-mass bodies placed and launched as exact
/// mirror images of each other through the origin are exact mirror images
/// again after a step — the force law and every fixed-point rounding in
/// the engine are odd under reflection, so neither body ever outruns the
/// other.
pub proof fn lemma_two_body_mirror_symmetry(bodies: Seq<Body>)
    requires
        bodies.len() == 2,
        wf_bodies(bodies),
        bodies[1].mass == bodies[0].mass,
        bodies[1].pos.x == -bodies[0].pos.x && bodies[1].pos.y == -bodies[0].pos.y,
        bodies[1].vel.x == -bodies[0].vel.x && bodies[1].vel.y == -bodies[0].vel.y,
    ensures
        step_body(bodies, 1).pos.x == -step_body(bodies, 0).pos.x,
        step_body(bodies, 1).pos.y == -step_body(bodies, 0).pos.y,
        step_body(bodies, 1).vel.x == -step_body(bodies, 0).vel.x,
        step_body(bodies, 1).vel.y == -step_body(bodies, 0).vel.y,
        step_body(bodies, 1).acc.x == -step_body(bodies, 0).acc.x,
        step_body(bodies, 1).acc.y == -step_body(bodies, 0).acc.y,
{
    let b0 = bodies[0];
    let b1 = bodies[1];
    let m = b0.mass as int;
    assert(net_force_prefix(bodies, 0, 0) == (0int, 0int));
    assert(net_force_prefix(bodies, 1, 0) == (0int, 0int));
    assert(net_force_prefix(bodies, 0, 1) == (0int, 0int));
    assert(net_force_prefix(bodies, 1, 1).0 == pair_force(b1.pos, m, b0.pos, m).0
        && net_force_prefix(bodies, 1, 1).1 == pair_force(b1.pos, m, b0.pos, m).1);
    assert(net_force(bodies, 0).0 == pair_force(b0.pos, m, b1.pos, m).0 && net_force(
        bodies,
        0,
    ).1 == pair_force(b0.pos, m, b1.pos, m).1);
    assert(net_force(bodies, 1).0 == pair_force(b1.pos, m, b0.pos, m).0 && net_force(
        bodies,
        1,
    ).1 == pair_force(b1.pos, m, b0.pos, m).1);
    lemma_pair_force_mirror(b0.pos, m, b1.pos, m, b1.pos, b0.pos);
    let f0 = net_force(bodies, 0);
    lemma_normalize_odd(f0.0, f0.1);
    let u0 = normalize_or_zero(f0.0, f0.1);
    assert((-u0.0) * 1000 == -(u0.0 * 1000) && (-u0.1) * 1000 == -(u0.1 * 1000))
        by (nonlinear_arith);
    lemma_tdiv_mag(u0.0 * SCALE, m);
    lemma_tdiv_mag(u0.1 * SCALE, m);
    let a0 = accel_of(bodies, 0);
    assert(accel_of(bodies, 1).0 == -a0.0 && accel_of(bodies, 1).1 == -a0.1);
    lemma_clamp_odd(b0.vel.x + a0.0, b0.vel.y + a0.1);
    lemma_step_body_wf(bodies, 0);
    lemma_step_body_wf(bodies, 1);
    lemma_accel_bound(bodies, 0);
    lemma_accel_bound(bodies, 1);
    lemma_clamp_caps(b0.vel.x + a0.0, b0.vel.y + a0.1);
    lemma_clamp_caps(b1.vel.x + accel_of(bodies, 1).0, b1.vel.y + accel_of(bodies, 1).1);
}

/// LIFO removal: appending a body and then removing the most recent one
/// restores the registry exactly, and what is removed is the body that
/// was appended.
pub proof fn lemma_lifo(pre: Seq<Body>, b: Body)
    ensures
        pre.push(b).drop_last() == pre,
        pre.push(b).last() == b,
{
    assert(pre.push(b).drop_last() =~= pre);
}

} // verus!
