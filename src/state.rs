//! The simulation state: an ordered collection of particles advanced one step at a time.
use vstd::prelude::*;
use vstd::arithmetic::div_mod::lemma_fundamental_div_mod_converse;
use crate::kernel::H;
use crate::particle::{particle_wf, particles_wf, Particle, Vec2, MAX_PARTICLES, MAX_SPEED, ONE, VIEW_HEIGHT, VIEW_WIDTH};
use crate::solver::{density_pass, density_pressure, force_pass, forces, integrate, integrate_pass, integrate_pass_ok};

verus! {

/// Relies on `rand::random`: a value drawn from the thread-local generator. Nothing is
/// promised of it.
pub assume_specification<T>[ rand::random::<T> ]() -> (r: T)
    where
        rand::distributions::Standard: rand::distributions::Distribution<T>,
;

/// Columns of the initial grid.
pub const GRID_COLUMNS: usize = 40;

/// Rows of the initial grid.
pub const GRID_ROWS: usize = 25;

/// Grid index of the first row and column, in kernel radii from the origin.
pub const GRID_OFFSET: i64 = 10;

/// Why a step was not taken.
#[derive(Clone, Copy, Debug, PartialEq, Eq, Structural)]
pub enum StepError {
    /// Some particle's speed would leave the representable range.
    OutOfRange,
}

/// The particles after one full step: density and pressure, then forces, then integration,
/// each pass reading the complete output of the one before.
pub open spec fn step(ps: Seq<Particle>) -> Seq<Particle> {
    integrate_pass(force_pass(density_pass(ps)))
}

/// A step from these particles keeps every speed in range.
pub open spec fn step_ok(ps: Seq<Particle>) -> bool {
    integrate_pass_ok(force_pass(density_pass(ps)))
}

/// Particle `k` of the initial grid: column `k / 25`, row `k % 25`, at rest, with a
/// horizontal jitter below one length unit.
pub open spec fn seeded(p: Particle, k: int) -> bool {
    let col = GRID_OFFSET + k / (GRID_ROWS as int);
    let row = GRID_OFFSET + k % (GRID_ROWS as int);
    &&& col * H <= p.position.x < col * H + ONE
    &&& p.position.y == row * H
    &&& p.velocity == Vec2 { x: 0, y: 0 }
    &&& p.force == Vec2 { x: 0, y: 0 }
    &&& p.density == 0
    &&& p.pressure == 0
}

pub struct State {
    particles: Vec<Particle>,
}

impl View for State {
    type V = Seq<Particle>;

    closed spec fn view(&self) -> Seq<Particle> {
        self.particles@
    }
}

impl State {
    /// A grid of 40 by 25 particles at rest, one kernel radius apart, each shifted
    /// horizontally by a random fraction of a length unit.
    pub fn new() -> (s: State)
        ensures
            particles_wf(s@),
            s@.len() == GRID_COLUMNS * GRID_ROWS,
            forall|k: int| 0 <= k < s@.len() ==> seeded(#[trigger] s@[k], k),
    {
        let mut particles: Vec<Particle> = Vec::new();
        let mut i: usize = 0;
        while i < GRID_COLUMNS
            invariant
                0 <= i <= GRID_COLUMNS,
                particles@.len() == i * GRID_ROWS,
                particles_wf(particles@),
                forall|k: int| 0 <= k < particles@.len() ==> seeded(#[trigger] particles@[k], k),
            decreases GRID_COLUMNS - i,
        {
            let mut j: usize = 0;
            while j < GRID_ROWS
                invariant
                    0 <= i < GRID_COLUMNS,
                    0 <= j <= GRID_ROWS,
                    particles@.len() == i * GRID_ROWS + j,
                    particles_wf(particles@),
                    forall|k: int| 0 <= k < particles@.len() ==> seeded(#[trigger] particles@[k], k),
                decreases GRID_ROWS - j,
            {
                let jitter: u8 = rand::random();
                let x = (GRID_OFFSET + i as i64) * H + jitter as i64 * 4;
                let y = (GRID_OFFSET + j as i64) * H;
                proof {
                    let k = i * GRID_ROWS + j;
                    lemma_fundamental_div_mod_converse(k as int, GRID_ROWS as int, i as int, j as int);
                }
                particles.push(Particle::new(x, y));
                j += 1;
            }
            i += 1;
        }
        State { particles }
    }

    /// A simulation of the given particles, or `None` where one lies outside the
    /// domain, moves too fast, or there are too many.
    pub fn from_particles(particles: Vec<Particle>) -> (r: Option<State>)
        ensures
            r is Some <==> particles_wf(particles@),
            r matches Some(s) ==> s@ == particles@,
    {
        if particles.len() > MAX_PARTICLES {
            return None;
        }
        let mut k: usize = 0;
        while k < particles.len()
            invariant
                0 <= k <= particles@.len(),
                forall|m: int| 0 <= m < k ==> particle_wf(#[trigger] particles@[m]),
            decreases particles@.len() - k,
        {
            let p = particles[k];
            if p.position.x < 0 || p.position.x > VIEW_WIDTH || p.position.y < 0 || p.position.y
                > VIEW_HEIGHT || p.velocity.x < -MAX_SPEED || p.velocity.x > MAX_SPEED
                || p.velocity.y < -MAX_SPEED || p.velocity.y > MAX_SPEED {
                return None;
            }
            k += 1;
        }
        Some(State { particles })
    }

    /// The particles, in their stable order.
    pub fn particles(&self) -> (r: &Vec<Particle>)
        ensures
            r@ == self@,
    {
        &self.particles
    }

    /// All horizontal coordinates in particle order, followed by all vertical ones.
    pub fn xs(&self) -> (r: Vec<i64>)
        ensures
            r@.len() == 2 * self@.len(),
            forall|k: int| 0 <= k < self@.len() ==> r@[k] == #[trigger] self@[k].position.x,
            forall|k: int|
                0 <= k < self@.len() ==> r@[self@.len() + k] == #[trigger] self@[k].position.y,
    {
        let n = self.particles.len();
        let mut r: Vec<i64> = Vec::new();
        let mut k: usize = 0;
        while k < n
            invariant
                n == self@.len(),
                0 <= k <= n,
                r@.len() == k,
                forall|m: int| 0 <= m < k ==> r@[m] == #[trigger] self@[m].position.x,
            decreases n - k,
        {
            r.push(self.particles[k].position.x);
            k += 1;
        }
        let mut k: usize = 0;
        while k < n
            invariant
                n == self@.len(),
                0 <= k <= n,
                r@.len() == n + k,
                forall|m: int| 0 <= m < n ==> r@[m] == #[trigger] self@[m].position.x,
                forall|m: int| 0 <= m < k ==> r@[n + m] == #[trigger] self@[m].position.y,
            decreases n - k,
        {
            r.push(self.particles[k].position.y);
            k += 1;
        }
        r
    }

    /// Advances the simulation by one time step. Where a particle's speed would leave
    /// the representable range, nothing changes and the step reports it.
    pub fn update(&mut self) -> (r: Result<(), StepError>)
        requires
            particles_wf(old(self)@),
        ensures
            particles_wf(final(self)@),
            r is Ok <==> step_ok(old(self)@),
            r is Ok ==> final(self)@ == step(old(self)@),
            r is Err ==> final(self)@ == old(self)@,
    {
        let d = density_pressure(&self.particles);
        let f = forces(&d);
        match integrate(&f) {
            Some(ps) => {
                self.particles = ps;
                Ok(())
            },
            None => Err(StepError::OutOfRange),
        }
    }
}

/// A step is a function of the particles alone: two simulations holding the same
/// particles step to the same particles, and either both succeed or both fail.
pub proof fn lemma_step_deterministic(a: State, b: State)
    requires
        a@ == b@,
    ensures
        step(a@) == step(b@),
        step_ok(a@) == step_ok(b@),
{
}

} // verus!
