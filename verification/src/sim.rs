//! The simulation context: the ordered registry of bodies, the
//! pending-creation settings, and the operations the outside world
//! drives — add a body, remove the most recently added one, advance the
//! whole registry by one step, and read bodies for rendering.

use vstd::prelude::*;

use crate::body::{Body, Color, PlanetSettings, Vec2};
use crate::body::{in_pos_range, in_vel_range, wf_bodies, wf_body, MASS_MAX, MAX_BODIES, SCALE};
use crate::engine::{accel_of, compute_accel, clamp_velocity, step_body, lemma_step_body_wf,
    lemma_accel_bound, clamp_pos};

verus! {

/// Why an attempted body creation was rejected.
#[derive(Clone, Copy, PartialEq, Eq, Structural, Debug)]
pub enum AddBodyError {
    /// The supplied mass was zero or negative.
    NonPositiveMass,
    /// The supplied mass exceeds the largest representable mass.
    MassTooLarge,
    /// A position or velocity component exceeds the representable range.
    OutOfRange,
    /// The registry already holds `MAX_BODIES` bodies.
    RegistryFull,
}

/// The pending-creation settings a fresh context starts with.
pub open spec fn default_settings() -> PlanetSettings {
    PlanetSettings {
        color: Color { r: 255, g: 255, b: 255 },
        mass: (27 * SCALE) as i64,
        initial_vel: Vec2 { x: 0, y: 0 },
    }
}

/// The whole creation request is admissible.
pub open spec fn addable(mass: int, pos: Vec2, vel: Vec2, len: int) -> bool {
    &&& 0 < mass <= MASS_MAX
    &&& in_pos_range(pos)
    &&& in_vel_range(vel)
    &&& len < MAX_BODIES
}

/// A user action, produced by the outside interface layer and applied
/// synchronously between frames; a step never interleaves with one.
#[derive(Clone, Copy, PartialEq, Eq, Structural, Debug)]
pub enum Command {
    /// Append a body at this position with the pending-creation settings.
    AddBody { pos: Vec2 },
    /// Remove the most recently added body; a no-op on an empty registry.
    RemoveLast,
}

/// The owned simulation context: the ordered registry of live bodies and
/// the pending-creation settings.
pub struct Simulation {
    bodies: Vec<Body>,
    settings: PlanetSettings,
}

impl View for Simulation {
    type V = Seq<Body>;

    /// A context is viewed as the ordered sequence of its live bodies.
    closed spec fn view(&self) -> Seq<Body> {
        self.bodies@
    }
}

impl Simulation {
    /// The pending-creation settings.
    pub closed spec fn settings_spec(self) -> PlanetSettings {
        self.settings
    }

    /// Every live body is well-formed and the registry fits its capacity.
    /// Established by `new` and preserved by every operation.
    pub open spec fn wf(self) -> bool {
        wf_bodies(self@)
    }

    /// An empty registry with the default pending-creation settings.
    pub fn new() -> (s: Simulation)
        ensures
            s.wf(),
            s@.len() == 0,
            s.settings_spec() == default_settings(),
    {
        Simulation {
            bodies: Vec::new(),
            settings: PlanetSettings {
                color: Color { r: 255, g: 255, b: 255 },
                mass: 27_000,
                initial_vel: Vec2 { x: 0, y: 0 },
            },
        }
    }

    /// Number of live bodies.
    pub fn len(&self) -> (n: usize)
        ensures
            n == self@.len(),
    {
        self.bodies.len()
    }

    /// Read access to the body at index `i`, for the engine's pairwise
    /// pass and for rendering.
    pub fn body_at(&self, i: usize) -> (b: Body)
        requires
            i < self@.len(),
        ensures
            b == self@[i as int],
    {
        self.bodies[i]
    }

    /// The acceleration the engine would assign to body `i` in a step
    /// taken now: a read-only computation over the current snapshot.
    pub fn accel_at(&self, i: usize) -> (a: Vec2)
        requires
            self.wf(),
            i < self@.len(),
        ensures
            a.x as int == accel_of(self@, i as int).0,
            a.y as int == accel_of(self@, i as int).1,
    {
        compute_accel(&self.bodies, i)
    }

    /// The current pending-creation settings.
    pub fn settings(&self) -> (s: PlanetSettings)
        ensures
            s == self.settings_spec(),
    {
        self.settings
    }

    /// Replace the pending-creation settings; the registry is untouched.
    pub fn set_settings(&mut self, s: PlanetSettings)
        ensures
            final(self)@ == old(self)@,
            final(self).settings_spec() == s,
    {
        self.settings = s;
    }

    /// Append a body built from the given attributes. The request is
    /// rejected — and the registry left untouched — when the mass is not
    /// strictly positive, when a value exceeds the representable range,
    /// or when the registry is full; otherwise the body is appended with
    /// zero initial acceleration.
    pub fn add_body(&mut self, color: Color, mass: i64, pos: Vec2, vel: Vec2) -> (r: Result<
        (),
        AddBodyError,
    >)
        requires
            old(self).wf(),
        ensures
            final(self).wf(),
            final(self).settings_spec() == old(self).settings_spec(),
            mass <= 0 ==> r == Err::<(), AddBodyError>(AddBodyError::NonPositiveMass) && final(self)@ == old(self)@,
            mass > MASS_MAX ==> r == Err::<(), AddBodyError>(AddBodyError::MassTooLarge) && final(self)@ == old(self)@,
            0 < mass <= MASS_MAX && !(in_pos_range(pos) && in_vel_range(vel)) ==> r == Err::<
                (),
                AddBodyError,
            >(AddBodyError::OutOfRange) && final(self)@ == old(self)@,
            0 < mass <= MASS_MAX && in_pos_range(pos) && in_vel_range(vel) && old(self)@.len()
                >= MAX_BODIES ==> r == Err::<(), AddBodyError>(AddBodyError::RegistryFull)
                && final(self)@ == old(self)@,
            addable(mass as int, pos, vel, old(self)@.len() as int) ==> r == Ok::<
                (),
                AddBodyError,
            >(()) && final(self)@ == old(self)@.push(
                Body { color, mass, pos, vel, acc: Vec2 { x: 0, y: 0 } },
            ),
    {
        if mass <= 0 {
            return Err(AddBodyError::NonPositiveMass);
        }
        if mass > MASS_MAX {
            return Err(AddBodyError::MassTooLarge);
        }
        if pos.x < -1_000_000_000 || pos.x > 1_000_000_000 || pos.y < -1_000_000_000 || pos.y
            > 1_000_000_000 || vel.x < -1_000_000_000 || vel.x > 1_000_000_000 || vel.y
            < -1_000_000_000 || vel.y > 1_000_000_000 {
            return Err(AddBodyError::OutOfRange);
        }
        if self.bodies.len() >= MAX_BODIES {
            return Err(AddBodyError::RegistryFull);
        }
        self.bodies.push(Body { color, mass, pos, vel, acc: Vec2 { x: 0, y: 0 } });
        Ok(())
    }

    /// Append a body at the given position with the pending-creation
    /// settings' mass, velocity and color.
    pub fn add_body_at(&mut self, pos: Vec2) -> (r: Result<(), AddBodyError>)
        requires
            old(self).wf(),
        ensures
            final(self).wf(),
            final(self).settings_spec() == old(self).settings_spec(),
            addable(
                old(self).settings_spec().mass as int,
                pos,
                old(self).settings_spec().initial_vel,
                old(self)@.len() as int,
            ) ==> r == Ok::<(), AddBodyError>(()) && final(self)@ == old(self)@.push(
                Body {
                    color: old(self).settings_spec().color,
                    mass: old(self).settings_spec().mass,
                    pos,
                    vel: old(self).settings_spec().initial_vel,
                    acc: Vec2 { x: 0, y: 0 },
                },
            ),
            r is Err ==> final(self)@ == old(self)@,
    {
        let s = self.settings;
        self.add_body(s.color, s.mass, pos, s.initial_vel)
    }

    /// Apply one user action: append a body at the given position with
    /// the pending-creation settings, or remove the most recently added
    /// body (a no-op on an empty registry).
    pub fn apply(&mut self, c: Command) -> (r: Result<(), AddBodyError>)
        requires
            old(self).wf(),
        ensures
            final(self).wf(),
            final(self).settings_spec() == old(self).settings_spec(),
            forall|p: Vec2|
                c == (Command::AddBody { pos: p }) && addable(
                    old(self).settings_spec().mass as int,
                    p,
                    old(self).settings_spec().initial_vel,
                    old(self)@.len() as int,
                ) ==> r == Ok::<(), AddBodyError>(()) && final(self)@ == old(self)@.push(
                    Body {
                        color: old(self).settings_spec().color,
                        mass: old(self).settings_spec().mass,
                        pos: p,
                        vel: old(self).settings_spec().initial_vel,
                        acc: Vec2 { x: 0, y: 0 },
                    },
                ),
            c == Command::RemoveLast && old(self)@.len() == 0 ==> r == Ok::<(), AddBodyError>(())
                && final(self)@ == old(self)@,
            c == Command::RemoveLast && old(self)@.len() > 0 ==> r == Ok::<(), AddBodyError>(())
                && final(self)@ == old(self)@.drop_last(),
            r is Err ==> final(self)@ == old(self)@,
    {
        match c {
            Command::AddBody { pos } => self.add_body_at(pos),
            Command::RemoveLast => {
                let _ = self.remove_last();
                Ok(())
            },
        }
    }

    /// Remove and return the most recently added body; on an empty
    /// registry this is a no-op that signals `None`, never a failure.
    pub fn remove_last(&mut self) -> (r: Option<Body>)
        requires
            old(self).wf(),
        ensures
            final(self).wf(),
            final(self).settings_spec() == old(self).settings_spec(),
            old(self)@.len() == 0 ==> r is None && final(self)@ == old(self)@,
            old(self)@.len() > 0 ==> r == Some(old(self)@.last()) && final(self)@ == old(self)@.drop_last(),
    {
        if self.bodies.len() == 0 {
            None
        } else {
            let b = self.bodies.pop().unwrap();
            Some(b)
        }
    }

    /// Advance the whole registry by one step. Every body's new state is
    /// a function of the pre-step snapshot alone: all accelerations are
    /// computed from read-only access to the old positions and masses
    /// before any body is mutated.
    pub fn step(&mut self)
        requires
            old(self).wf(),
        ensures
            final(self).wf(),
            final(self).settings_spec() == old(self).settings_spec(),
            final(self)@.len() == old(self)@.len(),
            forall|i: int|
                0 <= i < old(self)@.len() ==> final(self)@[i] == step_body(old(self)@, i),
    {
        let ghost snap: Seq<Body> = self.bodies@;
        let n: usize = self.bodies.len();
        let mut accs: Vec<Vec2> = Vec::new();
        let mut i: usize = 0;
        while i < n
            invariant
                self.bodies@ == snap,
                self.settings == old(self).settings_spec(),
                wf_bodies(snap),
                n == snap.len(),
                i <= n,
                accs@.len() == i,
                forall|k: int|
                    0 <= k < i ==> (#[trigger] accs@[k]).x as int == accel_of(snap, k).0
                        && accs@[k].y as int == accel_of(snap, k).1,
            decreases n - i,
        {
            let a = compute_accel(&self.bodies, i);
            accs.push(a);
            i = i + 1;
        }
        let mut j: usize = 0;
        while j < n
            invariant
                self.settings == old(self).settings_spec(),
                wf_bodies(snap),
                n == snap.len(),
                self.bodies@.len() == n,
                j <= n,
                accs@.len() == n,
                forall|k: int|
                    0 <= k < n ==> (#[trigger] accs@[k]).x as int == accel_of(snap, k).0
                        && accs@[k].y as int == accel_of(snap, k).1,
                forall|k: int| j <= k < n ==> self.bodies@[k] == snap[k],
                forall|k: int| 0 <= k < j ==> self.bodies@[k] == step_body(snap, k),
            decreases n - j,
        {
            let b = self.bodies[j];
            let a = accs[j];
            proof {
                lemma_accel_bound(snap, j as int);
                lemma_step_body_wf(snap, j as int);
            }
            let w = clamp_velocity(b.vel.x + a.x, b.vel.y + a.y);
            let nvx: i64 = w.0;
            let nvy: i64 = w.1;
            let px: i64 = b.pos.x + nvx;
            let py: i64 = b.pos.y + nvy;
            let npx: i64 = if px < -1_000_000_000 {
                -1_000_000_000
            } else if px > 1_000_000_000 {
                1_000_000_000
            } else {
                px
            };
            let npy: i64 = if py < -1_000_000_000 {
                -1_000_000_000
            } else if py > 1_000_000_000 {
                1_000_000_000
            } else {
                py
            };
            let nb = Body {
                color: b.color,
                mass: b.mass,
                pos: Vec2 { x: npx, y: npy },
                vel: Vec2 { x: nvx, y: nvy },
                acc: a,
            };
            proof {
                assert(npx as int == clamp_pos(b.pos.x + nvx as int));
                assert(nb == step_body(snap, j as int));
            }
            self.bodies[j] = nb;
            j = j + 1;
        }
        proof {
            assert forall|k: int| 0 <= k < n implies wf_body(self.bodies@[k]) by {
                lemma_step_body_wf(snap, k);
            }
        }
    }
}

} // verus!
