use sph_fluid::fixed::floor_sqrt_exec;
use sph_fluid::kernel::{EPS, SELF_DENSITY};
use sph_fluid::particle::{Particle, Vec2, MAX_PARTICLES, MAX_SPEED, ONE, VIEW_WIDTH};
use sph_fluid::solver::{density_pressure, forces, integrate, integrate_particle};
use sph_fluid::state::{State, StepError};

fn at(x: i64, y: i64, vx: i64, vy: i64) -> Particle {
    let mut p = Particle::new(x * ONE, y * ONE);
    p.velocity = Vec2::new(vx, vy);
    p
}

fn state_of(ps: Vec<Particle>) -> State {
    State::from_particles(ps).expect("particles in the domain")
}

#[test]
fn integer_square_root() {
    assert_eq!(floor_sqrt_exec(0), 0);
    assert_eq!(floor_sqrt_exec(99), 9);
    assert_eq!(floor_sqrt_exec(100), 10);
    assert_eq!(floor_sqrt_exec(67108864), 8192);
}

#[test]
fn new_particle_is_at_rest() {
    let p = Particle::new(3, 4);
    assert_eq!(p.position, Vec2::new(3, 4));
    assert_eq!(p.velocity, Vec2::new(0, 0));
    assert_eq!(p.force, Vec2::new(0, 0));
    assert_eq!(p.density, 0);
    assert_eq!(p.pressure, 0);
}

#[test]
fn seeded_grid_layout() {
    let s = State::new();
    let ps = s.particles();
    assert_eq!(ps.len(), 1000);
    for (k, p) in ps.iter().enumerate() {
        let col = 10 + (k / 25) as i64;
        let row = 10 + (k % 25) as i64;
        assert!(p.position.x >= col * 16 * ONE && p.position.x < col * 16 * ONE + ONE);
        assert_eq!(p.position.y, row * 16 * ONE);
        assert_eq!(p.velocity, Vec2::new(0, 0));
    }
}

#[test]
fn density_of_every_seeded_particle_is_at_least_self_term() {
    let s = State::new();
    let d = density_pressure(s.particles());
    assert_eq!(d.len(), 1000);
    for p in d.iter() {
        assert!(p.density >= SELF_DENSITY);
        assert_eq!(p.pressure, 2000 * (p.density - 1048576000));
    }
}

#[test]
fn isolated_particle_density_is_self_term() {
    let d = density_pressure(&vec![at(400, 300, 0, 0)]);
    assert_eq!(d[0].density, 25668);
    assert_eq!(d[0].pressure, -2097100664000);
}

#[test]
fn two_particles_push_with_opposite_forces() {
    let ps = vec![at(400, 300, 0, 0), at(408, 300, 0, 0)];
    let d = density_pressure(&ps);
    assert_eq!(d[0].density, 36496);
    assert_eq!(d[1].density, 36496);
    assert_eq!(d[0].pressure, -2097079008000);
    let f = forces(&d);
    assert_eq!(f[0].force, Vec2::new(-208980382, -4191337));
    assert_eq!(f[1].force, Vec2::new(208980382, -4191337));
    assert_eq!(f[0].force.x, -f[1].force.x);
}

#[test]
fn isolated_particle_falls_under_gravity_only() {
    let ps = vec![at(400, 300, 0, 0)];
    let f = forces(&density_pressure(&ps));
    assert_eq!(f[0].force, Vec2::new(0, -2947809));
    let mut s = state_of(ps);
    assert_eq!(s.update(), Ok(()));
    let p = s.particles()[0];
    assert_eq!(p.velocity, Vec2::new(0, -96337));
    // dt * g = 0.0008 * -117600 = -94.08 length units per time unit
    let expected = -94.08 * ONE as f64;
    assert!((p.velocity.y as f64 - expected).abs() < 2.0);
    assert_eq!(p.position, Vec2::new(400 * ONE, 300 * ONE - 77));
}

#[test]
fn particle_past_lower_margin_is_reflected() {
    for vx in [5000i64, -3000, 0, 7] {
        let mut p = Particle::new(EPS - ONE, 300 * ONE);
        p.velocity = Vec2::new(vx, 0);
        p.density = SELF_DENSITY;
        let q = integrate_particle(&p).expect("in range");
        assert_eq!(q.position.x, EPS);
        assert_eq!(q.velocity.x, -(vx / 2));
    }
}

#[test]
fn particle_past_upper_margin_is_reflected() {
    let mut p = Particle::new(VIEW_WIDTH - EPS + ONE, 300 * ONE);
    p.velocity = Vec2::new(4000, 0);
    p.density = SELF_DENSITY;
    let q = integrate_particle(&p).expect("in range");
    assert_eq!(q.position.x, VIEW_WIDTH - EPS);
    assert_eq!(q.velocity.x, -2000);
}

#[test]
fn force_pass_reads_completed_densities() {
    let ps = vec![at(400, 300, 0, 0), at(406, 304, 1000, -2000), at(600, 300, 0, 0)];
    let d = density_pressure(&ps);
    assert_eq!(d[0].density, 38656);
    assert_eq!(d[1].density, 38656);
    assert_eq!(d[2].density, 25668);
    assert_eq!(d[0].pressure, -2097074688000);
    assert_eq!(d[1].pressure, -2097074688000);
    assert_eq!(d[2].pressure, -2097100664000);
    let f = forces(&d);
    assert_eq!(f[0].force, Vec2::new(-198139244, -136541049));
    assert_eq!(f[1].force, Vec2::new(198139244, 127662249));
    assert_eq!(f[2].force, Vec2::new(0, -2947809));
    let moved = integrate(&f).expect("in range");
    assert_eq!(moved[0].position, Vec2::new(406161, 304830));
    assert_eq!(moved[0].velocity, Vec2::new(-4299752, -2963031));
    assert_eq!(moved[1].position, Vec2::new(419184, 313510));
    assert_eq!(moved[1].velocity, Vec2::new(4300752, 2768355));
    assert_eq!(moved[2].position, Vec2::new(614400, 307123));
    let mut s = state_of(ps);
    assert_eq!(s.update(), Ok(()));
    assert_eq!(s.particles(), &moved);
}

#[test]
fn repeated_steps_are_reproducible() {
    let seed = State::new();
    let mut a = state_of(seed.particles().clone());
    let mut b = state_of(seed.particles().clone());
    for _ in 0..3 {
        assert_eq!(a.update(), b.update());
        assert_eq!(a.particles(), b.particles());
    }
    assert_eq!(a.xs(), b.xs());
}

#[test]
fn xs_lists_horizontal_then_vertical_coordinates() {
    let s = state_of(vec![at(100, 200, 0, 0), at(300, 400, 0, 0)]);
    assert_eq!(s.xs(), vec![100 * ONE, 300 * ONE, 200 * ONE, 400 * ONE]);
}

#[test]
fn empty_simulation_steps() {
    let mut s = state_of(vec![]);
    assert_eq!(s.update(), Ok(()));
    assert!(s.particles().is_empty());
    assert!(s.xs().is_empty());
}

#[test]
fn particles_outside_the_domain_are_refused() {
    assert!(State::from_particles(vec![Particle::new(-1, 0)]).is_none());
    assert!(State::from_particles(vec![Particle::new(0, 600 * ONE + 1)]).is_none());
    let mut fast = Particle::new(0, 0);
    fast.velocity = Vec2::new(MAX_SPEED + 1, 0);
    assert!(State::from_particles(vec![fast]).is_none());
    assert!(State::from_particles(vec![Particle::new(0, 0); MAX_PARTICLES + 1]).is_none());
    assert!(State::from_particles(vec![Particle::new(0, 0); MAX_PARTICLES]).is_some());
}

#[test]
fn step_that_leaves_speed_range_changes_nothing() {
    let mut p = at(400, 300, 0, 0);
    p.velocity = Vec2::new(0, -MAX_SPEED);
    let mut s = state_of(vec![p]);
    assert_eq!(s.update(), Err(StepError::OutOfRange));
    assert_eq!(s.particles(), &vec![p]);
}
