//! The three passes of a time step: density and pressure, forces, integration.
//!
//! Each pass reads a complete snapshot of the previous pass's output and returns a
//! new collection, so no particle observes a partial result of any pass.
use vstd::prelude::*;
use crate::fixed::{abs, div_toward_zero, div_tz, lemma_div_tz_bound, lemma_mul_abs_bound};
use crate::kernel::{
    density_term, density_term_exec, force_input_ok, gravity_of, lemma_density_term_bounds,
    pair_force, pair_force_exec, pressure_of, DT_INV, EPS, GAS_CONST, GRAVITY_Y, MAX_DENSITY,
    PAIR_FORCE_MAX, REST_DENSITY, SELF_DENSITY,
};
use crate::particle::{
    particle_wf, particles_wf, Particle, Vec2, DENSITY_ONE, MAX_PARTICLES,
    MAX_SPEED, VIEW_HEIGHT, VIEW_WIDTH,
};

verus! {

/// Bound on the magnitude of a net force component (2^59).
pub const MAX_FORCE: i64 = 576460752303423488;

/// Kernel-weighted density at `a` from the first `n` particles of `ps`.
pub open spec fn density_sum(ps: Seq<Particle>, a: Vec2, n: int) -> int
    decreases n,
{
    if n <= 0 {
        0
    } else {
        density_sum(ps, a, n - 1) + density_term(a, ps[n - 1].position)
    }
}

/// Density of particle `i`: the sum over all particles, itself included.
pub open spec fn density_at(ps: Seq<Particle>, i: int) -> int {
    density_sum(ps, ps[i].position, ps.len() as int)
}

/// The particles with density and pressure of the current positions.
pub open spec fn density_pass(ps: Seq<Particle>) -> Seq<Particle> {
    Seq::new(
        ps.len(),
        |i: int|
            Particle {
                density: density_at(ps, i) as i64,
                pressure: pressure_of(density_at(ps, i)) as i64,
                ..ps[i]
            },
    )
}

pub proof fn lemma_density_sum_bounds(ps: Seq<Particle>, a: Vec2, n: int)
    requires
        0 <= n <= ps.len(),
    ensures
        0 <= density_sum(ps, a, n) <= n * SELF_DENSITY,
    decreases n,
{
    if n > 0 {
        lemma_density_sum_bounds(ps, a, n - 1);
        lemma_density_term_bounds(a, ps[n - 1].position);
    }
}

pub proof fn lemma_density_sum_includes(ps: Seq<Particle>, a: Vec2, n: int, j: int)
    requires
        0 <= j < n <= ps.len(),
        ps[j].position == a,
    ensures
        density_sum(ps, a, n) >= SELF_DENSITY,
    decreases n,
{
    lemma_density_sum_bounds(ps, a, n - 1);
    lemma_density_term_bounds(a, ps[n - 1].position);
    if j < n - 1 {
        lemma_density_sum_includes(ps, a, n - 1, j);
    }
}

/// Every density is at least the particle's own kernel term, so it is strictly
/// positive, also for a particle with no neighbour; and at most one self term per
/// particle.
pub proof fn lemma_density_positive(ps: Seq<Particle>, i: int)
    requires
        0 <= i < ps.len(),
    ensures
        SELF_DENSITY <= density_at(ps, i) <= ps.len() * SELF_DENSITY,
        density_at(ps, i) > 0,
{
    lemma_density_sum_includes(ps, ps[i].position, ps.len() as int, i);
    lemma_density_sum_bounds(ps, ps[i].position, ps.len() as int);
}

/// Computes each particle's density and pressure from the positions of all particles.
pub fn density_pressure(ps: &Vec<Particle>) -> (out: Vec<Particle>)
    requires
        particles_wf(ps@),
    ensures
        out@ == density_pass(ps@),
        forall|k: int| 0 <= k < out@.len() ==> force_input_ok(#[trigger] out@[k]),
{
    let n = ps.len();
    let mut out: Vec<Particle> = Vec::with_capacity(n);
    let mut i: usize = 0;
    while i < n
        invariant
            n == ps.len(),
            particles_wf(ps@),
            0 <= i <= n,
            out@.len() == i,
            forall|k: int| 0 <= k < i ==> out@[k] == density_pass(ps@)[k],
            forall|k: int| 0 <= k < i ==> force_input_ok(#[trigger] out@[k]),
        decreases n - i,
    {
        let pi = ps[i];
        let mut acc: i128 = 0;
        let mut j: usize = 0;
        while j < n
            invariant
                n == ps.len(),
                particles_wf(ps@),
                i < n,
                pi == ps@[i as int],
                0 <= j <= n,
                acc == density_sum(ps@, pi.position, j as int),
                0 <= acc <= j * SELF_DENSITY,
            decreases n - j,
        {
            assert(particle_wf(ps@[j as int]));
            let t = density_term_exec(pi.position, ps[j].position);
            acc = acc + t;
            j += 1;
        }
        proof {
            lemma_density_positive(ps@, i as int);
            assert(n * SELF_DENSITY <= MAX_DENSITY) by (nonlinear_arith)
                requires
                    n <= MAX_PARTICLES,
            ;
        }
        let d = acc as i64;
        let p = GAS_CONST * (d - REST_DENSITY);
        out.push(Particle { density: d, pressure: p, ..pi });
        i += 1;
    }
    proof {
        assert(out@ =~= density_pass(ps@));
    }
    out
}

/// Pairwise force on particle `i` from the first `n` particles, itself excluded.
pub open spec fn force_sum(ps: Seq<Particle>, i: int, n: int) -> (int, int)
    decreases n,
{
    if n <= 0 {
        (0, 0)
    } else {
        let s = force_sum(ps, i, n - 1);
        let t = if n - 1 == i {
            (0, 0)
        } else {
            pair_force(ps[i], ps[n - 1])
        };
        (s.0 + t.0, s.1 + t.1)
    }
}

/// Net force on particle `i`: pressure and viscosity from all others, plus gravity.
pub open spec fn force_at(ps: Seq<Particle>, i: int) -> (int, int) {
    let s = force_sum(ps, i, ps.len() as int);
    (s.0, s.1 + gravity_of(ps[i].density as int))
}

/// The particles with the net force of the current densities and pressures.
pub open spec fn force_pass(ps: Seq<Particle>) -> Seq<Particle> {
    Seq::new(
        ps.len(),
        |i: int|
            Particle {
                force: Vec2 { x: force_at(ps, i).0 as i64, y: force_at(ps, i).1 as i64 },
                ..ps[i]
            },
    )
}

/// The particles carry what the force pass reads, in range.
pub open spec fn forces_ready(ps: Seq<Particle>) -> bool {
    &&& ps.len() <= MAX_PARTICLES
    &&& forall|k: int| 0 <= k < ps.len() ==> force_input_ok(#[trigger] ps[k])
}

/// What integration reads of a particle is in range.
pub open spec fn integrate_input_ok(p: Particle) -> bool {
    &&& force_input_ok(p)
    &&& -MAX_FORCE <= p.force.x <= MAX_FORCE
    &&& -MAX_FORCE <= p.force.y <= MAX_FORCE
}

/// Computes each particle's net force from the densities, pressures, positions and
/// velocities of all particles.
pub fn forces(ps: &Vec<Particle>) -> (out: Vec<Particle>)
    requires
        forces_ready(ps@),
    ensures
        out@ == force_pass(ps@),
        forall|k: int| 0 <= k < out@.len() ==> integrate_input_ok(#[trigger] out@[k]),
{
    let n = ps.len();
    let mut out: Vec<Particle> = Vec::with_capacity(n);
    let mut i: usize = 0;
    while i < n
        invariant
            n == ps.len(),
            forces_ready(ps@),
            0 <= i <= n,
            out@.len() == i,
            forall|k: int| 0 <= k < i ==> out@[k] == force_pass(ps@)[k],
            forall|k: int| 0 <= k < i ==> integrate_input_ok(#[trigger] out@[k]),
        decreases n - i,
    {
        let pi = ps[i];
        let mut fx: i128 = 0;
        let mut fy: i128 = 0;
        let mut j: usize = 0;
        while j < n
            invariant
                n == ps.len(),
                forces_ready(ps@),
                i < n,
                pi == ps@[i as int],
                force_input_ok(pi),
                0 <= j <= n,
                fx == force_sum(ps@, i as int, j as int).0,
                fy == force_sum(ps@, i as int, j as int).1,
                abs(fx as int) <= j * PAIR_FORCE_MAX,
                abs(fy as int) <= j * PAIR_FORCE_MAX,
            decreases n - j,
        {
            if j != i {
                assert(force_input_ok(ps@[j as int]));
                let t = pair_force_exec(&pi, &ps[j]);
                fx = fx + t.0;
                fy = fy + t.1;
            }
            j += 1;
        }
        proof {
            assert(n * PAIR_FORCE_MAX <= 288230376151711744) by (nonlinear_arith)
                requires
                    n <= MAX_PARTICLES,
            ;
            lemma_mul_abs_bound(GRAVITY_Y as int, pi.density as int, 120422400, MAX_DENSITY as int);
            lemma_div_tz_bound(GRAVITY_Y * pi.density, DENSITY_ONE as int, 120422400 * MAX_DENSITY,
                DENSITY_ONE as int);
        }
        let g = div_toward_zero(GRAVITY_Y * pi.density as i128, DENSITY_ONE as i128);
        let f = Vec2 { x: fx as i64, y: (fy + g) as i64 };
        out.push(Particle { force: f, ..pi });
        i += 1;
    }
    proof {
        assert(out@ =~= force_pass(ps@));
    }
    out
}

/// A velocity component times the boundary damping factor -1/2, rounded toward zero.
pub open spec fn damp(v: int) -> int {
    div_tz(-v, 2)
}

/// Keeps a coordinate `x` with velocity `v` at least `EPS` inside `[0, bound]`: a
/// coordinate past a margin is set on it and its velocity damped. The lower margin is
/// checked first, then the upper one.
pub open spec fn reflect(x: int, v: int, bound: int) -> (int, int) {
    let lo = if x - EPS < 0 {
        (EPS as int, damp(v))
    } else {
        (x, v)
    };
    if lo.0 + EPS > bound {
        (bound - EPS, damp(lo.1))
    } else {
        lo
    }
}

/// Velocity component after one time step under force `f` at density `d`.
pub open spec fn euler_velocity(v: int, f: int, d: int) -> int {
    v + div_tz(f * DENSITY_ONE, DT_INV * d)
}

/// Coordinate after one time step at the updated velocity `v`.
pub open spec fn euler_position(x: int, v: int) -> int {
    x + div_tz(v, DT_INV as int)
}

/// The step keeps the particle's speed in range.
pub open spec fn integrate_ok(p: Particle) -> bool {
    &&& abs(euler_velocity(p.velocity.x as int, p.force.x as int, p.density as int)) <= MAX_SPEED
    &&& abs(euler_velocity(p.velocity.y as int, p.force.y as int, p.density as int)) <= MAX_SPEED
}

/// The particle after semi-implicit Euler integration and boundary reflection.
pub open spec fn integrated(p: Particle) -> Particle {
    let vx = euler_velocity(p.velocity.x as int, p.force.x as int, p.density as int);
    let vy = euler_velocity(p.velocity.y as int, p.force.y as int, p.density as int);
    let rx = reflect(euler_position(p.position.x as int, vx), vx, VIEW_WIDTH as int);
    let ry = reflect(euler_position(p.position.y as int, vy), vy, VIEW_HEIGHT as int);
    Particle {
        position: Vec2 { x: rx.0 as i64, y: ry.0 as i64 },
        velocity: Vec2 { x: rx.1 as i64, y: ry.1 as i64 },
        ..p
    }
}

pub open spec fn integrate_pass_ok(ps: Seq<Particle>) -> bool {
    forall|k: int| 0 <= k < ps.len() ==> integrate_ok(#[trigger] ps[k])
}

pub open spec fn integrate_pass(ps: Seq<Particle>) -> Seq<Particle> {
    Seq::new(ps.len(), |i: int| integrated(ps[i]))
}

fn damp_exec(v: i128) -> (r: i128)
    requires
        abs(v as int) <= MAX_SPEED,
    ensures
        r == damp(v as int),
        abs(r as int) <= abs(v as int),
{
    proof {
        lemma_div_tz_bound(-v, 2, abs(v as int), 2);
    }
    div_toward_zero(-v, 2)
}

fn reflect_exec(x: i128, v: i128, bound: i128) -> (r: (i128, i128))
    requires
        abs(x as int) <= 4398046511104,
        abs(v as int) <= MAX_SPEED,
        bound >= 2 * EPS,
        bound <= VIEW_WIDTH,
    ensures
        r.0 == reflect(x as int, v as int, bound as int).0,
        r.1 == reflect(x as int, v as int, bound as int).1,
        EPS <= r.0 <= bound - EPS,
        abs(r.1 as int) <= abs(v as int),
{
    let mut nx = x;
    let mut nv = v;
    if nx - (EPS as i128) < 0 {
        nv = damp_exec(nv);
        nx = EPS as i128;
    }
    if nx + (EPS as i128) > bound {
        nv = damp_exec(nv);
        nx = bound - EPS as i128;
    }
    (nx, nv)
}

/// The particle after one time step, or `None` where its speed would leave the range.
pub fn integrate_particle(p: &Particle) -> (r: Option<Particle>)
    requires
        integrate_input_ok(*p),
    ensures
        r is Some <==> integrate_ok(*p),
        r matches Some(q) ==> q == integrated(*p) && particle_wf(q),
{
    proof {
        lemma_mul_abs_bound(p.force.x as int, DENSITY_ONE as int, MAX_FORCE as int, DENSITY_ONE as int);
        lemma_mul_abs_bound(p.force.y as int, DENSITY_ONE as int, MAX_FORCE as int, DENSITY_ONE as int);
        assert(DT_INV * p.density >= DT_INV * SELF_DENSITY) by (nonlinear_arith)
            requires
                p.density >= SELF_DENSITY,
        ;
        lemma_div_tz_bound(p.force.x * DENSITY_ONE, DT_INV * p.density, MAX_FORCE * DENSITY_ONE,
            DT_INV * SELF_DENSITY);
        lemma_div_tz_bound(p.force.y * DENSITY_ONE, DT_INV * p.density, MAX_FORCE * DENSITY_ONE,
            DT_INV * SELF_DENSITY);
    }
    let dd = DT_INV * p.density as i128;
    let vx = p.velocity.x as i128 + div_toward_zero(p.force.x as i128 * DENSITY_ONE as i128, dd);
    let vy = p.velocity.y as i128 + div_toward_zero(p.force.y as i128 * DENSITY_ONE as i128, dd);
    if vx < -(MAX_SPEED as i128) || vx > MAX_SPEED as i128 || vy < -(MAX_SPEED as i128) || vy
        > MAX_SPEED as i128 {
        return None;
    }
    proof {
        lemma_div_tz_bound(vx as int, DT_INV as int, MAX_SPEED as int, DT_INV as int);
        lemma_div_tz_bound(vy as int, DT_INV as int, MAX_SPEED as int, DT_INV as int);
    }
    let x = p.position.x as i128 + div_toward_zero(vx, DT_INV);
    let y = p.position.y as i128 + div_toward_zero(vy, DT_INV);
    let rx = reflect_exec(x, vx, VIEW_WIDTH as i128);
    let ry = reflect_exec(y, vy, VIEW_HEIGHT as i128);
    Some(
        Particle {
            position: Vec2 { x: rx.0 as i64, y: ry.0 as i64 },
            velocity: Vec2 { x: rx.1 as i64, y: ry.1 as i64 },
            ..*p
        },
    )
}

/// Advances every particle by one time step, or returns `None` where some particle's
/// speed would leave the range.
pub fn integrate(ps: &Vec<Particle>) -> (out: Option<Vec<Particle>>)
    requires
        ps@.len() <= MAX_PARTICLES,
        forall|k: int| 0 <= k < ps@.len() ==> integrate_input_ok(#[trigger] ps@[k]),
    ensures
        out is Some <==> integrate_pass_ok(ps@),
        out matches Some(qs) ==> qs@ == integrate_pass(ps@) && particles_wf(qs@),
{
    let n = ps.len();
    let mut out: Vec<Particle> = Vec::with_capacity(n);
    let mut i: usize = 0;
    while i < n
        invariant
            n == ps.len(),
            n <= MAX_PARTICLES,
            forall|k: int| 0 <= k < ps@.len() ==> integrate_input_ok(#[trigger] ps@[k]),
            0 <= i <= n,
            out@.len() == i,
            forall|k: int| 0 <= k < i ==> integrate_ok(#[trigger] ps@[k]),
            forall|k: int| 0 <= k < i ==> out@[k] == integrated(ps@[k]),
            forall|k: int| 0 <= k < i ==> particle_wf(#[trigger] out@[k]),
        decreases n - i,
    {
        assert(integrate_input_ok(ps@[i as int]));
        match integrate_particle(&ps[i]) {
            Some(q) => out.push(q),
            None => return None,
        }
        i += 1;
    }
    proof {
        assert(out@ =~= integrate_pass(ps@));
    }
    Some(out)
}

/// A coordinate short of the lower margin ends exactly on the margin, with its velocity
/// multiplied by the damping factor.
pub proof fn lemma_reflect_lower(x: int, v: int, bound: int)
    requires
        x < EPS,
        bound >= 2 * EPS,
    ensures
        reflect(x, v, bound) == (EPS as int, damp(v)),
{
}

/// A particle whose horizontal step ends short of the lower margin is set on the margin,
/// its horizontal velocity after the force update multiplied by the damping factor.
pub proof fn lemma_integrated_lower_reflection(p: Particle)
    requires
        euler_position(
            p.position.x as int,
            euler_velocity(p.velocity.x as int, p.force.x as int, p.density as int),
        ) < EPS,
    ensures
        integrated(p).position.x == EPS,
        integrated(p).velocity.x == damp(
            euler_velocity(p.velocity.x as int, p.force.x as int, p.density as int),
        ) as i64,
{
    let vx = euler_velocity(p.velocity.x as int, p.force.x as int, p.density as int);
    lemma_reflect_lower(euler_position(p.position.x as int, vx), vx, VIEW_WIDTH as int);
}

/// A lone particle has its own kernel term as density, and no force but gravity.
pub proof fn lemma_isolated_particle(p: Particle)
    ensures
        density_pass(seq![p])[0].density == SELF_DENSITY,
        force_pass(density_pass(seq![p]))[0].force == (Vec2 { x: 0i64, y: -2947809i64 }),
{
    let ps = seq![p];
    lemma_density_term_bounds(p.position, p.position);
    assert(density_sum(ps, p.position, 0) == 0);
    assert(density_at(ps, 0) == SELF_DENSITY);
    let ds = density_pass(ps);
    assert(force_sum(ds, 0, 0) == (0int, 0int));
    assert(force_sum(ds, 0, 1) == (0int, 0int));
    assert(gravity_of(SELF_DENSITY as int) == -2947809);
}

} // verus!
