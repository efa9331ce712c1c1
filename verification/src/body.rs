//! The data model: fixed-point 2D vectors, colors, bodies, and the
//! pending-creation settings, with the ranges every live body satisfies.

use vstd::prelude::*;

verus! {

/// Number of fixed-point counts in one unit: a coordinate of `1000`
/// stands for `1.0`.
pub const SCALE: i64 = 1000;

/// Largest admissible body mass, in fixed-point counts (`100_000.0`).
pub const MASS_MAX: i64 = 100_000_000;

/// Largest admissible coordinate magnitude, in fixed-point counts.
pub const POS_MAX: i64 = 1_000_000_000;

/// Largest admissible velocity-component magnitude at creation, in
/// fixed-point counts.
pub const VEL_LIMIT: i64 = 1_000_000_000;

/// Largest number of bodies the registry holds at once.
pub const MAX_BODIES: usize = 1_000_000;

/// A 2D vector in fixed-point counts.
#[derive(Clone, Copy, PartialEq, Eq, Structural, Debug)]
pub struct Vec2 {
    pub x: i64,
    pub y: i64,
}

impl Vec2 {
    /// The zero vector.
    pub fn zero() -> (v: Vec2)
        ensures
            v.x == 0 && v.y == 0,
    {
        Vec2 { x: 0, y: 0 }
    }

    /// Squared magnitude, as a mathematical integer.
    pub open spec fn mag_sq(self) -> int {
        self.x * self.x + self.y * self.y
    }
}

/// An 8-bit-per-channel display color; carried for rendering only and
/// irrelevant to the physics.
#[derive(Clone, Copy, PartialEq, Eq, Structural, Debug)]
pub struct Color {
    pub r: u8,
    pub g: u8,
    pub b: u8,
}

/// A point mass.
#[derive(Clone, Copy, PartialEq, Eq, Structural, Debug)]
pub struct Body {
    pub color: Color,
    pub mass: i64,
    pub pos: Vec2,
    pub vel: Vec2,
    pub acc: Vec2,
}

/// The ranges every live body satisfies: strictly positive bounded mass,
/// bounded coordinates, bounded velocity components.
pub open spec fn wf_body(b: Body) -> bool {
    &&& 0 < b.mass <= MASS_MAX
    &&& -POS_MAX <= b.pos.x <= POS_MAX
    &&& -POS_MAX <= b.pos.y <= POS_MAX
    &&& -VEL_LIMIT <= b.vel.x <= VEL_LIMIT
    &&& -VEL_LIMIT <= b.vel.y <= VEL_LIMIT
}

/// Both coordinates of a position fit the admissible range.
pub open spec fn in_pos_range(v: Vec2) -> bool {
    -POS_MAX <= v.x <= POS_MAX && -POS_MAX <= v.y <= POS_MAX
}

/// Both components of a creation velocity fit the admissible range.
pub open spec fn in_vel_range(v: Vec2) -> bool {
    -VEL_LIMIT <= v.x <= VEL_LIMIT && -VEL_LIMIT <= v.y <= VEL_LIMIT
}

/// Every body in the registry is well-formed and the registry fits its
/// capacity bound.
pub open spec fn wf_bodies(bodies: Seq<Body>) -> bool {
    &&& bodies.len() <= MAX_BODIES
    &&& forall|i: int| 0 <= i < bodies.len() ==> wf_body(#[trigger] bodies[i])
}

impl Body {
    /// A fresh body: caller-supplied attributes, zero acceleration.
    pub fn new(color: Color, mass: i64, pos: Vec2, vel: Vec2) -> (b: Body)
        ensures
            b.color == color && b.mass == mass && b.pos == pos && b.vel == vel,
            b.acc.x == 0 && b.acc.y == 0,
    {
        Body { color, mass, pos, vel, acc: Vec2 { x: 0, y: 0 } }
    }
}

/// Pending-creation settings: the attributes the next added body takes
/// when only a position is supplied.
#[derive(Clone, Copy, PartialEq, Eq, Structural, Debug)]
pub struct PlanetSettings {
    pub color: Color,
    pub mass: i64,
    pub initial_vel: Vec2,
}

impl Default for PlanetSettings {
    /// White color, a mass of `27.0`, and no initial velocity.
    fn default() -> (s: PlanetSettings)
        ensures
            s.color == (Color { r: 255, g: 255, b: 255 }),
            s.mass == 27 * SCALE,
            s.initial_vel.x == 0 && s.initial_vel.y == 0,
    {
        PlanetSettings {
            color: Color { r: 255, g: 255, b: 255 },
            mass: 27_000,
            initial_vel: Vec2 { x: 0, y: 0 },
        }
    }
}

} // verus!
