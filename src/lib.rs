//! A two-dimensional smoothed-particle-hydrodynamics fluid solver.
//!
//! A [`state::State`] owns an ordered collection of particles and advances it by one
//! fixed time step per call: a density and pressure pass, a force pass (pressure,
//! viscosity and gravity), and semi-implicit Euler integration with damped reflection
//! at the domain's margins. Each pass reads the complete output of the one before.
//!
//! All quantities are fixed-point integers (see [`particle::ONE`] and
//! [`particle::DENSITY_ONE`]), so a step is exact, reproducible and free of overflow.
//! Every density is at least a particle's own kernel term, hence never zero, and two
//! particles at the same place exert no pressure force on each other. A step that would
//! drive a speed out of range is refused and leaves the state as it was.

pub mod fixed;
pub mod kernel;
pub mod particle;
pub mod solver;
pub mod state;
