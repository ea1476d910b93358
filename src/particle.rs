//! Particle records and the simulation domain.
use vstd::prelude::*;

verus! {

/// Fixed-point units in one length unit; velocities and forces use the same scale.
pub const ONE: i64 = 1024;

/// Fixed-point units in one unit of density; pressures use the same scale.
pub const DENSITY_ONE: i64 = 1048576;

/// Width of the domain, 799.5 length units.
pub const VIEW_WIDTH: i64 = 818688;

/// Height of the domain, 600 length units.
pub const VIEW_HEIGHT: i64 = 614400;

/// Largest speed along an axis that a step may produce (2^40 fixed-point units).
pub const MAX_SPEED: i64 = 1099511627776;

/// Largest number of particles a simulation holds.
pub const MAX_PARTICLES: usize = 4096;

/// A two-dimensional vector of fixed-point components.
#[derive(Clone, Copy, Debug, PartialEq, Eq, Structural)]
pub struct Vec2 {
    pub x: i64,
    pub y: i64,
}

/// One fluid sample point.
#[derive(Clone, Copy, Debug, PartialEq, Eq, Structural)]
pub struct Particle {
    pub position: Vec2,
    pub velocity: Vec2,
    /// Net force of the current step.
    pub force: Vec2,
    /// Density of the current step.
    pub density: i64,
    /// Pressure of the current step.
    pub pressure: i64,
}

pub open spec fn in_domain(p: Vec2) -> bool {
    0 <= p.x <= VIEW_WIDTH && 0 <= p.y <= VIEW_HEIGHT
}

pub open spec fn speed_in_range(v: Vec2) -> bool {
    -MAX_SPEED <= v.x <= MAX_SPEED && -MAX_SPEED <= v.y <= MAX_SPEED
}

/// A particle that a step can start from: inside the domain and not too fast.
pub open spec fn particle_wf(p: Particle) -> bool {
    in_domain(p.position) && speed_in_range(p.velocity)
}

pub open spec fn particles_wf(ps: Seq<Particle>) -> bool {
    &&& ps.len() <= MAX_PARTICLES
    &&& forall|k: int| 0 <= k < ps.len() ==> particle_wf(#[trigger] ps[k])
}

impl Vec2 {
    pub fn new(x: i64, y: i64) -> (r: Vec2)
        ensures
            r == (Vec2 { x, y }),
    {
        Vec2 { x, y }
    }
}

impl Particle {
    /// A particle at rest at `(x, y)`, with zero force, density and pressure.
    pub fn new(x: i64, y: i64) -> (r: Particle)
        ensures
            r.position == (Vec2 { x, y }),
            r.velocity == (Vec2 { x: 0, y: 0 }),
            r.force == (Vec2 { x: 0, y: 0 }),
            r.density == 0,
            r.pressure == 0,
    {
        Particle {
            position: Vec2 { x, y },
            velocity: Vec2 { x: 0, y: 0 },
            force: Vec2 { x: 0, y: 0 },
            density: 0,
            pressure: 0,
        }
    }
}

} // verus!
