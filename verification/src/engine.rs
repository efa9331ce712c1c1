//! The force and integration engine.
//!
//! The spec functions in this module define, over mathematical integers,
//! exactly what one simulated step computes for each body from the
//! pre-step snapshot of the registry: pairwise inverse-square force
//! accumulation over all ordered pairs with distinct indices,
//! normalize-or-zero of the net force, division by the body's own mass,
//! velocity integration under the speed cap, and position integration.
//! The executable functions are proved to return precisely these values.

use vstd::prelude::*;

use crate::body::{Body, Vec2, SCALE, MASS_MAX, POS_MAX, wf_body, wf_bodies};
use crate::math::{iabs, tdiv, sqrt_floor, sqrt_up, is_sqrt};
use crate::math::{isqrt64, tdiv64, tdiv128, lemma_sqrt_floor_props,
    lemma_tdiv_mag, lemma_tdiv_bound};

verus! {

/// The gravitational constant, in fixed-point counts (`6.674`).
pub const GRAVITY: i64 = 6674;

/// The speed cap, in fixed-point counts (`5.0`).
pub const V_MAX: i64 = 5000;

/// Net-force components are halved until they fit this magnitude before
/// the normalization step, so their squares fit machine words.
pub const FORCE_FIT: i64 = 2_000_000_000;

/// Bound on either component of one pairwise force contribution between
/// well-formed bodies: `GRAVITY * MASS_MAX * MASS_MAX * SCALE / SCALE`.
pub const FORCE_COMP_MAX: i128 = 66_740_000_000_000_000_000;

/// Squared Euclidean distance between two positions.
pub open spec fn dist_sq(p: Vec2, q: Vec2) -> int {
    (q.x - p.x) * (q.x - p.x) + (q.y - p.y) * (q.y - p.y)
}

/// The fixed-point unit vector pointing from `p` toward `q`
/// (zero when the positions coincide).
pub open spec fn unit_toward(p: Vec2, q: Vec2) -> (int, int) {
    if dist_sq(p, q) == 0 {
        (0int, 0int)
    } else {
        let d = sqrt_floor(dist_sq(p, q));
        (tdiv((q.x - p.x) * SCALE, d), tdiv((q.y - p.y) * SCALE, d))
    }
}

/// The pairwise force contribution on a probe body at `p` with mass `m`,
/// caused by a body at `q` with mass `om`:
/// `GRAVITY * m * om * unit_toward(p, q) / dist_sq`, in fixed point.
/// Coincident positions contribute nothing (the zero-distance guard).
pub open spec fn pair_force(p: Vec2, m: int, q: Vec2, om: int) -> (int, int) {
    if dist_sq(p, q) == 0 {
        (0int, 0int)
    } else {
        let u = unit_toward(p, q);
        let d2 = dist_sq(p, q);
        (tdiv(GRAVITY * m * om * u.0, SCALE * d2), tdiv(GRAVITY * m * om * u.1, SCALE * d2))
    }
}

/// Sum of the pairwise force contributions on body `i` from the bodies at
/// indices `0 .. k`, the index `i` itself excluded: a body exerts no force
/// on itself.
pub open spec fn net_force_prefix(bodies: Seq<Body>, i: int, k: int) -> (int, int)
    decreases k,
{
    if k <= 0 {
        (0int, 0int)
    } else {
        let rest = net_force_prefix(bodies, i, k - 1);
        if k - 1 == i {
            rest
        } else {
            let f = pair_force(
                bodies[i].pos,
                bodies[i].mass as int,
                bodies[k - 1].pos,
                bodies[k - 1].mass as int,
            );
            (rest.0 + f.0, rest.1 + f.1)
        }
    }
}

/// Net force on body `i` from every other body in the registry.
pub open spec fn net_force(bodies: Seq<Body>, i: int) -> (int, int) {
    net_force_prefix(bodies, i, bodies.len() as int)
}

/// Both components halved (rounding toward zero) until they fit
/// `FORCE_FIT`; the direction of the vector is preserved up to rounding.
pub open spec fn shrink(fx: int, fy: int) -> (int, int)
    decreases iabs(fx) + iabs(fy),
{
    if -FORCE_FIT <= fx <= FORCE_FIT && -FORCE_FIT <= fy <= FORCE_FIT {
        (fx, fy)
    } else {
        shrink(tdiv(fx, 2), tdiv(fy, 2))
    }
}

/// The fixed-point unit vector with the direction of `(fx, fy)`, or the
/// zero vector when the input is zero (never a malformed value).
pub open spec fn normalize_or_zero(fx: int, fy: int) -> (int, int) {
    let s = shrink(fx, fy);
    let m2 = s.0 * s.0 + s.1 * s.1;
    if m2 == 0 {
        (0int, 0int)
    } else {
        let d = sqrt_floor(m2);
        (tdiv(s.0 * SCALE, d), tdiv(s.1 * SCALE, d))
    }
}

/// The acceleration of body `i` for this step: the net force normalized
/// to a unit direction (or zero), then divided by the body's own mass.
pub open spec fn accel_of(bodies: Seq<Body>, i: int) -> (int, int) {
    let f = net_force(bodies, i);
    let u = normalize_or_zero(f.0, f.1);
    (tdiv(u.0 * SCALE, bodies[i].mass as int), tdiv(u.1 * SCALE, bodies[i].mass as int))
}

/// Velocity after the speed cap: unchanged when its magnitude is at most
/// `V_MAX`, otherwise rescaled to magnitude at most `V_MAX` with its
/// direction preserved.
pub open spec fn clamp_speed(vx: int, vy: int) -> (int, int) {
    if vx * vx + vy * vy <= V_MAX * V_MAX {
        (vx, vy)
    } else {
        let d = sqrt_up(vx * vx + vy * vy);
        (tdiv(vx * V_MAX, d), tdiv(vy * V_MAX, d))
    }
}

/// A coordinate clamped to the admissible range; the identity everywhere
/// the simulation can actually reach in bounded time.
pub open spec fn clamp_pos(c: int) -> int {
    if c < -POS_MAX {
        -POS_MAX as int
    } else if c > POS_MAX {
        POS_MAX as int
    } else {
        c
    }
}

/// The fixed-point unit vector toward another position has components of
/// magnitude at most `SCALE`, and the distance's square root is positive.
pub proof fn lemma_unit_bound(p: Vec2, q: Vec2)
    requires
        dist_sq(p, q) > 0,
    ensures
        iabs(unit_toward(p, q).0) <= SCALE,
        iabs(unit_toward(p, q).1) <= SCALE,
        sqrt_floor(dist_sq(p, q)) >= 1,
{
    let dx = q.x - p.x;
    let dy = q.y - p.y;
    let d2 = dist_sq(p, q);
    lemma_sqrt_floor_props(d2);
    let d = sqrt_floor(d2);
    assert(d >= 1) by (nonlinear_arith)
        requires
            is_sqrt(d2, d) && d2 > 0,
    ;
    assert(iabs(dx) <= d && iabs(dy) <= d) by (nonlinear_arith)
        requires
            d2 == dx * dx + dy * dy && is_sqrt(d2, d),
    ;
    assert(iabs(dx * 1000) <= d * 1000 && iabs(dy * 1000) <= d * 1000) by (nonlinear_arith)
        requires
            iabs(dx) <= d && iabs(dy) <= d && d >= 1,
    ;
    lemma_tdiv_bound(dx * SCALE, d, SCALE as int);
    lemma_tdiv_bound(dy * SCALE, d, SCALE as int);
}

/// One pairwise contribution between well-formed bodies fits
/// `FORCE_COMP_MAX` in either component.
pub proof fn lemma_pair_force_bound(p: Vec2, m: int, q: Vec2, om: int)
    requires
        0 < m <= MASS_MAX,
        0 < om <= MASS_MAX,
    ensures
        iabs(pair_force(p, m, q, om).0) <= FORCE_COMP_MAX,
        iabs(pair_force(p, m, q, om).1) <= FORCE_COMP_MAX,
{
    let d2 = dist_sq(p, q);
    if d2 == 0 {
    } else {
        assert(d2 > 0) by (nonlinear_arith)
            requires
                d2 == (q.x - p.x) * (q.x - p.x) + (q.y - p.y) * (q.y - p.y) && d2 != 0,
        ;
        lemma_unit_bound(p, q);
        let u = unit_toward(p, q);
        assert(iabs(GRAVITY * m * om * u.0) <= SCALE * d2 * FORCE_COMP_MAX
            && iabs(GRAVITY * m * om * u.1) <= SCALE * d2 * FORCE_COMP_MAX
            && SCALE * d2 > 0) by (nonlinear_arith)
            requires
                0 < m <= 100_000_000 && 0 < om <= 100_000_000 && iabs(u.0) <= 1000
                    && iabs(u.1) <= 1000 && d2 >= 1 && GRAVITY == 6674 && SCALE == 1000
                    && FORCE_COMP_MAX == 66_740_000_000_000_000_000,
        ;
        lemma_tdiv_bound(GRAVITY * m * om * u.0, SCALE * d2, FORCE_COMP_MAX as int);
        lemma_tdiv_bound(GRAVITY * m * om * u.1, SCALE * d2, FORCE_COMP_MAX as int);
    }
}

/// The pairwise force contribution on a probe body at `pos` with mass
/// `mass`, caused by a body at `other_pos` with mass `other_mass`:
/// exactly `pair_force`, computed in fixed point.
pub fn gravity_force(pos: Vec2, mass: i64, other_pos: Vec2, other_mass: i64) -> (f: (i128, i128))
    requires
        -POS_MAX <= pos.x <= POS_MAX,
        -POS_MAX <= pos.y <= POS_MAX,
        -POS_MAX <= other_pos.x <= POS_MAX,
        -POS_MAX <= other_pos.y <= POS_MAX,
        0 < mass <= MASS_MAX,
        0 < other_mass <= MASS_MAX,
    ensures
        f.0 == pair_force(pos, mass as int, other_pos, other_mass as int).0,
        f.1 == pair_force(pos, mass as int, other_pos, other_mass as int).1,
        iabs(f.0 as int) <= FORCE_COMP_MAX,
        iabs(f.1 as int) <= FORCE_COMP_MAX,
{
    proof {
        lemma_pair_force_bound(pos, mass as int, other_pos, other_mass as int);
    }
    let dx: i64 = other_pos.x - pos.x;
    let dy: i64 = other_pos.y - pos.y;
    assert(dx * dx + dy * dy <= 8_000_000_000_000_000_000 && dx * dx >= 0 && dy * dy >= 0)
        by (nonlinear_arith)
        requires
            -2_000_000_000 <= dx <= 2_000_000_000 && -2_000_000_000 <= dy <= 2_000_000_000,
    ;
    let d2: i64 = dx * dx + dy * dy;
    if d2 == 0 {
        return (0, 0);
    }
    let d: u64 = isqrt64(d2 as u64);
    proof {
        lemma_sqrt_floor_props(d2 as int);
        lemma_unit_bound(pos, other_pos);
        assert(d2 as int == dist_sq(pos, other_pos));
        assert(d as int == sqrt_floor(d2 as int));
        assert(d >= 1);
    }
    let ux: i64 = tdiv64(dx * SCALE, d as i64);
    let uy: i64 = tdiv64(dy * SCALE, d as i64);
    assert(0 < 6674 * (mass as int) * (other_mass as int) <= 66_740_000_000_000_000_000)
        by (nonlinear_arith)
        requires
            0 < mass <= 100_000_000 && 0 < other_mass <= 100_000_000,
    ;
    let gm: i128 = (GRAVITY as i128) * (mass as i128) * (other_mass as i128);
    assert(0 < gm <= 66_740_000_000_000_000_000
        && iabs(gm * (ux as int)) <= 66_740_000_000_000_000_000_000
        && iabs(gm * (uy as int)) <= 66_740_000_000_000_000_000_000) by (nonlinear_arith)
        requires
            gm == 6674 * mass * other_mass && 0 < mass <= 100_000_000
                && 0 < other_mass <= 100_000_000 && iabs(ux as int) <= 1000
                && iabs(uy as int) <= 1000,
    ;
    let den: i128 = (SCALE as i128) * (d2 as i128);
    let fx: i128 = tdiv128(gm * (ux as i128), den);
    let fy: i128 = tdiv128(gm * (uy as i128), den);
    (fx, fy)
}

/// Normalize-or-zero yields components of magnitude at most `SCALE`.
pub proof fn lemma_normalize_bound(fx: int, fy: int)
    ensures
        iabs(normalize_or_zero(fx, fy).0) <= SCALE,
        iabs(normalize_or_zero(fx, fy).1) <= SCALE,
{
    let s = shrink(fx, fy);
    let m2 = s.0 * s.0 + s.1 * s.1;
    if m2 != 0 {
        assert(m2 > 0) by (nonlinear_arith)
            requires
                m2 == s.0 * s.0 + s.1 * s.1 && m2 != 0,
        ;
        lemma_sqrt_floor_props(m2);
        let d = sqrt_floor(m2);
        assert(d >= 1) by (nonlinear_arith)
            requires
                is_sqrt(m2, d) && m2 > 0,
        ;
        assert(iabs(s.0) <= d && iabs(s.1) <= d) by (nonlinear_arith)
            requires
                m2 == s.0 * s.0 + s.1 * s.1 && is_sqrt(m2, d),
        ;
        assert(iabs(s.0 * 1000) <= d * 1000 && iabs(s.1 * 1000) <= d * 1000) by (nonlinear_arith)
            requires
                iabs(s.0) <= d && iabs(s.1) <= d && d >= 1,
        ;
        lemma_tdiv_bound(s.0 * SCALE, d, SCALE as int);
        lemma_tdiv_bound(s.1 * SCALE, d, SCALE as int);
    }
}

/// The acceleration of a well-formed body fits `SCALE * SCALE` in either
/// component.
pub proof fn lemma_accel_bound(bodies: Seq<Body>, i: int)
    requires
        0 <= i < bodies.len(),
        wf_body(bodies[i]),
    ensures
        iabs(accel_of(bodies, i).0) <= SCALE * SCALE,
        iabs(accel_of(bodies, i).1) <= SCALE * SCALE,
{
    let f = net_force(bodies, i);
    lemma_normalize_bound(f.0, f.1);
    let u = normalize_or_zero(f.0, f.1);
    let m = bodies[i].mass as int;
    assert(iabs(u.0 * 1000) <= m * 1_000_000 && iabs(u.1 * 1000) <= m * 1_000_000)
        by (nonlinear_arith)
        requires
            iabs(u.0) <= 1000 && iabs(u.1) <= 1000 && m >= 1,
    ;
    lemma_tdiv_bound(u.0 * SCALE, m, 1_000_000int);
    lemma_tdiv_bound(u.1 * SCALE, m, 1_000_000int);
}

/// The acceleration of body `i` for this step, computed from the registry
/// snapshot alone: exactly `accel_of`.
pub fn compute_accel(bodies: &Vec<Body>, i: usize) -> (a: Vec2)
    requires
        wf_bodies(bodies@),
        i < bodies@.len(),
    ensures
        a.x as int == accel_of(bodies@, i as int).0,
        a.y as int == accel_of(bodies@, i as int).1,
        iabs(a.x as int) <= SCALE * SCALE,
        iabs(a.y as int) <= SCALE * SCALE,
{
    let n: usize = bodies.len();
    let mut fx: i128 = 0;
    let mut fy: i128 = 0;
    let mut j: usize = 0;
    while j < n
        invariant
            wf_bodies(bodies@),
            i < n,
            n == bodies@.len(),
            j <= n,
            fx as int == net_force_prefix(bodies@, i as int, j as int).0,
            fy as int == net_force_prefix(bodies@, i as int, j as int).1,
            iabs(fx as int) <= (j as int) * FORCE_COMP_MAX,
            iabs(fy as int) <= (j as int) * FORCE_COMP_MAX,
        decreases n - j,
    {
        if j != i {
            let f = gravity_force(bodies[i].pos, bodies[i].mass, bodies[j].pos, bodies[j].mass);
            fx = fx + f.0;
            fy = fy + f.1;
        }
        j = j + 1;
    }
    let ghost gfx: int = fx as int;
    let ghost gfy: int = fy as int;
    proof {
        assert(gfx == net_force(bodies@, i as int).0);
        assert(gfy == net_force(bodies@, i as int).1);
        assert(iabs(gfx) + iabs(gfy) <= 133_480_000_000_000_000_000_000_000);
        lemma_normalize_bound(gfx, gfy);
    }
    while fx > FORCE_FIT as i128 || fx < -(FORCE_FIT as i128) || fy > FORCE_FIT as i128
        || fy < -(FORCE_FIT as i128)
        invariant
            shrink(gfx, gfy) == shrink(fx as int, fy as int),
            iabs(fx as int) + iabs(fy as int) <= 133_480_000_000_000_000_000_000_000,
        decreases iabs(fx as int) + iabs(fy as int),
    {
        proof {
            assert(shrink(fx as int, fy as int) == shrink(tdiv(fx as int, 2), tdiv(fy as int, 2)));
            lemma_tdiv_mag(fx as int, 2);
            lemma_tdiv_mag(fy as int, 2);
        }
        fx = tdiv128(fx, 2);
        fy = tdiv128(fy, 2);
    }
    let sx: i64 = fx as i64;
    let sy: i64 = fy as i64;
    proof {
        assert(shrink(gfx, gfy) == (sx as int, sy as int));
    }
    assert(0 <= sx * sx <= 4_000_000_000_000_000_000 && 0 <= sy * sy
        <= 4_000_000_000_000_000_000) by (nonlinear_arith)
        requires
            -2_000_000_000 <= sx <= 2_000_000_000 && -2_000_000_000 <= sy <= 2_000_000_000,
    ;
    let m2: i64 = sx * sx + sy * sy;
    let mut ux: i64 = 0;
    let mut uy: i64 = 0;
    if m2 != 0 {
        let d: u64 = isqrt64(m2 as u64);
        proof {
            assert(d as int == sqrt_floor(m2 as int));
            assert(d >= 1) by (nonlinear_arith)
                requires
                    is_sqrt(m2 as int, d as int) && m2 > 0,
            ;
        }
        ux = tdiv64(sx * SCALE, d as i64);
        uy = tdiv64(sy * SCALE, d as i64);
    }
    proof {
        assert(ux as int == normalize_or_zero(gfx, gfy).0);
        assert(uy as int == normalize_or_zero(gfx, gfy).1);
    }
    let m: i64 = bodies[i].mass;
    let ax: i64 = tdiv64(ux * SCALE, m);
    let ay: i64 = tdiv64(uy * SCALE, m);
    proof {
        lemma_accel_bound(bodies@, i as int);
    }
    Vec2 { x: ax, y: ay }
}

/// The speed cap holds of every capped velocity: its squared magnitude is
/// at most `V_MAX * V_MAX`, and a velocity already under the cap passes
/// through unchanged.
pub proof fn lemma_clamp_caps(vx: int, vy: int)
    ensures
        clamp_speed(vx, vy).0 * clamp_speed(vx, vy).0 + clamp_speed(vx, vy).1 * clamp_speed(
            vx,
            vy,
        ).1 <= V_MAX * V_MAX,
        iabs(clamp_speed(vx, vy).0) <= V_MAX,
        iabs(clamp_speed(vx, vy).1) <= V_MAX,
        vx * vx + vy * vy <= V_MAX * V_MAX ==> clamp_speed(vx, vy) == (vx, vy),
{
    let m2 = vx * vx + vy * vy;
    if m2 <= V_MAX * V_MAX {
        assert(iabs(vx) <= 5000 && iabs(vy) <= 5000) by (nonlinear_arith)
            requires
                vx * vx + vy * vy <= 25_000_000,
        ;
    } else {
        assert(m2 >= 0) by (nonlinear_arith)
            requires
                m2 == vx * vx + vy * vy,
        ;
        lemma_sqrt_floor_props(m2);
        let r = sqrt_floor(m2);
        let d = sqrt_up(m2);
        assert(d >= 1 && m2 <= d * d) by (nonlinear_arith)
            requires
                is_sqrt(m2, r) && ((d == r && r * r == m2) || (d == r + 1 && r * r != m2))
                    && m2 > 25_000_000,
        ;
        lemma_tdiv_mag(vx * V_MAX, d);
        lemma_tdiv_mag(vy * V_MAX, d);
        let x = tdiv(vx * V_MAX, d);
        let y = tdiv(vy * V_MAX, d);
        assert(x * x + y * y <= 25_000_000 && iabs(x) <= 5000 && iabs(y) <= 5000)
            by (nonlinear_arith)
            requires
                iabs(x) * d <= iabs(vx * 5000) && iabs(y) * d <= iabs(vy * 5000) && vx * vx + vy
                    * vy <= d * d && d >= 1,
        ;
    }
}

/// A velocity after the speed cap: exactly `clamp_speed`, in fixed point.
pub fn clamp_velocity(vx: i64, vy: i64) -> (w: (i64, i64))
    requires
        -1_001_000_000 <= vx <= 1_001_000_000,
        -1_001_000_000 <= vy <= 1_001_000_000,
    ensures
        w.0 as int == clamp_speed(vx as int, vy as int).0,
        w.1 as int == clamp_speed(vx as int, vy as int).1,
        (w.0 as int) * (w.0 as int) + (w.1 as int) * (w.1 as int) <= V_MAX * V_MAX || (w.0 == vx
            && w.1 == vy),
{
    proof {
        lemma_clamp_caps(vx as int, vy as int);
    }
    assert(0 <= vx * vx <= 1_003_000_000_000_000_000 && 0 <= vy * vy
        <= 1_003_000_000_000_000_000) by (nonlinear_arith)
        requires
            -1_001_000_000 <= vx <= 1_001_000_000 && -1_001_000_000 <= vy <= 1_001_000_000,
    ;
    let m2: i64 = vx * vx + vy * vy;
    if m2 <= V_MAX * V_MAX {
        (vx, vy)
    } else {
        let r: u64 = isqrt64(m2 as u64);
        let rsq: u64 = r * r;
        let d: u64 = if rsq < m2 as u64 {
            r + 1
        } else {
            r
        };
        proof {
            assert(d as int == sqrt_up(m2 as int));
            assert(d >= 1) by (nonlinear_arith)
                requires
                    is_sqrt(m2 as int, r as int) && d >= r && m2 > 25_000_000,
            ;
        }
        let x: i64 = tdiv64(vx * V_MAX, d as i64);
        let y: i64 = tdiv64(vy * V_MAX, d as i64);
        (x, y)
    }
}

/// The state of body `i` after one step of the whole registry: its
/// acceleration recomputed from the pre-step snapshot, its velocity
/// integrated and capped, its position integrated, everything else kept.
pub open spec fn step_body(bodies: Seq<Body>, i: int) -> Body {
    let b = bodies[i];
    let a = accel_of(bodies, i);
    let v = clamp_speed(b.vel.x + a.0, b.vel.y + a.1);
    Body {
        color: b.color,
        mass: b.mass,
        pos: Vec2 {
            x: clamp_pos(b.pos.x + v.0) as i64,
            y: clamp_pos(b.pos.y + v.1) as i64,
        },
        vel: Vec2 { x: v.0 as i64, y: v.1 as i64 },
        acc: Vec2 { x: a.0 as i64, y: a.1 as i64 },
    }
}

/// One step keeps every body well-formed: mass and color are untouched,
/// the position stays in range, and the velocity comes out under the
/// speed cap.
pub proof fn lemma_step_body_wf(bodies: Seq<Body>, i: int)
    requires
        wf_bodies(bodies),
        0 <= i < bodies.len(),
    ensures
        wf_body(step_body(bodies, i)),
        step_body(bodies, i).mass == bodies[i].mass,
        step_body(bodies, i).color == bodies[i].color,
        step_body(bodies, i).vel.mag_sq() <= V_MAX * V_MAX,
{
    lemma_accel_bound(bodies, i);
    let b = bodies[i];
    let a = accel_of(bodies, i);
    lemma_clamp_caps(b.vel.x + a.0, b.vel.y + a.1);
    let v = clamp_speed(b.vel.x + a.0, b.vel.y + a.1);
    assert(v.0 as i64 == v.0 && v.1 as i64 == v.1);
    assert(a.0 as i64 == a.0 && a.1 as i64 == a.1);
}

} // verus!
