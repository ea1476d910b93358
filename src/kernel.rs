//! Smoothing kernels and physical constants, in fixed point.
//!
//! Lengths, velocities and forces carry `ONE` units per unit, densities and
//! pressures `DENSITY_ONE`. The kernel coefficients of Müller's poly6,
//! spiky-gradient and viscosity-Laplacian kernels are folded into integer
//! fractions, with pi taken as 355/113.
use vstd::prelude::*;
use crate::fixed::{
    abs, div_toward_zero, div_tz, floor_sqrt, floor_sqrt_exec, is_floor_sqrt, lemma_div_tz_bound,
    lemma_div_tz_neg, lemma_floor_sqrt_bounds, lemma_floor_sqrt_exists, lemma_mul_abs_bound,
};
use vstd::arithmetic::div_mod::lemma_div_multiples_vanish;
use crate::particle::{in_domain, speed_in_range, Particle, Vec2, DENSITY_ONE};

verus! {

/// Kernel radius, 16 length units.
pub const H: i64 = 16384;

/// Square of the kernel radius.
pub const HSQ: i64 = 268435456;

/// Rest density 1000, in density units.
pub const REST_DENSITY: i64 = 1048576000;

/// Constant of the equation of state.
pub const GAS_CONST: i64 = 2000;

/// Particle mass 65 times the poly6 coefficient 315 / (65 pi H^9), as the fraction
/// `POLY6_NUM / POLY6_DEN` at the fixed-point scales.
pub const POLY6_NUM: i128 = 35595;

pub const POLY6_DEN: i128 = 26823041622699584813793280;

/// Density that a particle contributes to itself: mass times poly6 times H^6.
pub const SELF_DENSITY: i64 = 25668;

/// Scale of a unit direction vector.
pub const UNIT: i128 = 16384;

/// Mass times the magnitude of the spiky-gradient coefficient, 45 / (pi H^6), over two and
/// over the scale of a unit vector, as the fraction `SPIKY_NUM / SPIKY_DEN`.
pub const SPIKY_NUM: i128 = 330525;

pub const SPIKY_DEN: i128 = 199847233464565760;

/// Viscosity constant 250 times mass times the viscosity-Laplacian coefficient
/// 45 / (pi H^6), as the fraction `VISC_NUM / VISC_DEN`.
pub const VISC_NUM: i128 = 82631250;

pub const VISC_DEN: i128 = 5816320;

/// Downward gravity, 12000 * -9.8 length units per square time unit.
pub const GRAVITY_Y: i128 = -120422400;

/// Inverse of the time step 0.0008.
pub const DT_INV: i128 = 1250;

/// Boundary margin, equal to the kernel radius.
pub const EPS: i64 = 16384;

/// Largest density a simulation can reach: the most particles, all at one place.
pub const MAX_DENSITY: i64 = 105136128;

/// Bound on the magnitude of a pressure (2^41).
pub const MAX_PRESSURE: i64 = 2199023255552;

/// Bound on the magnitude of one pairwise force component (2^46).
pub const PAIR_FORCE_MAX: i128 = 70368744177664;

pub open spec fn dist_sq(a: Vec2, b: Vec2) -> int {
    (b.x - a.x) * (b.x - a.x) + (b.y - a.y) * (b.y - a.y)
}

/// Density contributed across a squared distance `r2` within the kernel radius.
pub open spec fn poly6(r2: int) -> int {
    POLY6_NUM * ((HSQ - r2) * (HSQ - r2) * (HSQ - r2)) / (POLY6_DEN as int)
}

/// Density that a particle at `b` contributes at `a`; zero beyond the kernel radius.
pub open spec fn density_term(a: Vec2, b: Vec2) -> int {
    if dist_sq(a, b) < HSQ {
        poly6(dist_sq(a, b))
    } else {
        0
    }
}

/// Pressure from density by the equation of state; negative below rest density.
pub open spec fn pressure_of(density: int) -> int {
    GAS_CONST * (density - REST_DENSITY)
}

/// Gravity on a particle of the given density, along the vertical axis.
pub open spec fn gravity_of(density: int) -> int {
    div_tz(GRAVITY_Y * density, DENSITY_ONE as int)
}

pub proof fn lemma_dist_sq_symmetric(a: Vec2, b: Vec2)
    ensures
        dist_sq(a, b) == dist_sq(b, a),
{
    assert((b.x - a.x) * (b.x - a.x) == (a.x - b.x) * (a.x - b.x)) by (nonlinear_arith);
    assert((b.y - a.y) * (b.y - a.y) == (a.y - b.y) * (a.y - b.y)) by (nonlinear_arith);
}

/// Each kernel term lies between zero and the self term, which it reaches at distance zero.
pub proof fn lemma_density_term_bounds(a: Vec2, b: Vec2)
    ensures
        0 <= density_term(a, b) <= SELF_DENSITY,
        a == b ==> density_term(a, b) == SELF_DENSITY,
{
    let r2 = dist_sq(a, b);
    let dx = b.x - a.x;
    let dy = b.y - a.y;
    assert(dx * dx + dy * dy >= 0) by (nonlinear_arith);
    if a == b {
        assert(dx == 0 && dy == 0);
        assert(dx * dx + dy * dy == 0) by (nonlinear_arith)
            requires
                dx == 0 && dy == 0,
        ;
        assert(poly6(0) == SELF_DENSITY);
    }
    if r2 < HSQ {
        let q = HSQ - r2;
        assert(0 < q <= HSQ);
        assert(0 <= q * q * q <= (HSQ as int) * (HSQ as int) * (HSQ as int)) by (nonlinear_arith)
            requires
                0 < q <= HSQ,
        ;
        assert(0 <= POLY6_NUM * (q * q * q) <= POLY6_NUM * ((HSQ as int) * (HSQ as int) * (HSQ as int))) by (nonlinear_arith)
            requires
                0 <= q * q * q <= (HSQ as int) * (HSQ as int) * (HSQ as int),
        ;
        lemma_div_tz_bound(POLY6_NUM * (q * q * q), POLY6_DEN as int,
            POLY6_NUM * ((HSQ as int) * (HSQ as int) * (HSQ as int)), POLY6_DEN as int);
        assert(POLY6_NUM * ((HSQ as int) * (HSQ as int) * (HSQ as int)) / (POLY6_DEN as int) == SELF_DENSITY);
    }
}

/// Squared distance between two points of the domain.
pub fn dist_sq_exec(a: Vec2, b: Vec2) -> (r: i128)
    requires
        in_domain(a),
        in_domain(b),
    ensures
        r == dist_sq(a, b),
        0 <= r <= 2 * 1099511627776,
{
    let dx = b.x as i128 - a.x as i128;
    let dy = b.y as i128 - a.y as i128;
    proof {
        lemma_mul_abs_bound(dx as int, dx as int, 1048576, 1048576);
        lemma_mul_abs_bound(dy as int, dy as int, 1048576, 1048576);
        assert(dx * dx >= 0 && dy * dy >= 0) by (nonlinear_arith);
    }
    dx * dx + dy * dy
}

/// Density that a particle at `b` contributes at `a`.
pub fn density_term_exec(a: Vec2, b: Vec2) -> (r: i128)
    requires
        in_domain(a),
        in_domain(b),
    ensures
        r == density_term(a, b),
        0 <= r <= SELF_DENSITY,
{
    proof {
        lemma_density_term_bounds(a, b);
    }
    let r2 = dist_sq_exec(a, b);
    if r2 < HSQ as i128 {
        let q = HSQ as i128 - r2;
        proof {
            assert(0 <= q * q <= (HSQ as int) * (HSQ as int)) by (nonlinear_arith)
                requires
                    0 < q <= HSQ,
            ;
            assert(0 <= q * q * q <= (HSQ as int) * (HSQ as int) * (HSQ as int)) by (nonlinear_arith)
                requires
                    0 < q <= HSQ,
            ;
            assert(0 <= POLY6_NUM * (q * q * q) <= POLY6_NUM * ((HSQ as int) * (HSQ as int) * (HSQ as int))) by (nonlinear_arith)
                requires
                    0 <= q * q * q <= (HSQ as int) * (HSQ as int) * (HSQ as int),
            ;
        }
        POLY6_NUM * (q * q * q) / POLY6_DEN
    } else {
        0
    }
}

/// What the force pass reads of a particle is in the range that the density pass leaves.
pub open spec fn force_input_ok(p: Particle) -> bool {
    &&& in_domain(p.position)
    &&& speed_in_range(p.velocity)
    &&& SELF_DENSITY <= p.density <= MAX_DENSITY
    &&& -MAX_PRESSURE <= p.pressure <= MAX_PRESSURE
}

/// One component of the pressure force: the displacement `d` along the axis over the
/// distance `r`, scaled by `k / den`; zero at distance zero.
pub open spec fn pressure_term(d: int, r: int, k: int, den: int) -> int {
    if r == 0 {
        0
    } else {
        div_tz(div_tz(d * UNIT, r) * k, den)
    }
}

/// One component of the viscosity force from the velocity difference `dv`.
pub open spec fn viscosity_term(dv: int, hr: int, den: int) -> int {
    div_tz(VISC_NUM * dv * hr, den)
}

/// Pressure plus viscosity force that `b` exerts on `a`; zero beyond the kernel radius.
/// The neighbour's density divides both terms.
pub open spec fn pair_force(a: Particle, b: Particle) -> (int, int) {
    let r2 = dist_sq(a.position, b.position);
    if r2 >= HSQ {
        (0, 0)
    } else {
        let r = floor_sqrt(r2);
        let hr = H - r;
        let k = SPIKY_NUM * (a.pressure + b.pressure) * (hr * hr);
        let dp = SPIKY_DEN * b.density;
        let dv = VISC_DEN * b.density;
        (
            pressure_term(b.position.x - a.position.x, r, k, dp)
                + viscosity_term(b.velocity.x - a.velocity.x, hr, dv),
            pressure_term(b.position.y - a.position.y, r, k, dp)
                + viscosity_term(b.velocity.y - a.velocity.y, hr, dv),
        )
    }
}

fn pressure_term_exec(d: i128, other: i128, r2: i128, r: i128, k: i128, den: i128) -> (t: i128)
    requires
        r2 == d * d + other * other,
        is_floor_sqrt(r2 as int, r as int),
        r < H,
        abs(k as int) <= SPIKY_NUM * 4398046511104 * 268435456,
        den >= SPIKY_DEN * SELF_DENSITY,
    ensures
        t == pressure_term(d as int, r as int, k as int, den as int),
        abs(t as int) <= 35184372088832,
{
    if r == 0 {
        0
    } else {
        proof {
            assert(other * other >= 0) by (nonlinear_arith);
            lemma_floor_sqrt_bounds(r2 as int, r as int, d as int);
            lemma_mul_abs_bound(d as int, UNIT as int, r as int, UNIT as int);
            lemma_mul_abs_bound(d as int, UNIT as int, H as int, UNIT as int);
            lemma_div_tz_bound(d * UNIT, r as int, r * UNIT, r as int);
            lemma_div_multiples_vanish(UNIT as int, r as int);
            assert(r * UNIT == UNIT * r);
        }
        let u = div_toward_zero(d * UNIT, r);
        proof {
            lemma_mul_abs_bound(u as int, k as int, UNIT as int, SPIKY_NUM * 4398046511104 * 268435456);
        }
        let m = u * k;
        proof {
            lemma_div_tz_bound(m as int, den as int, UNIT * (SPIKY_NUM * 4398046511104 * 268435456),
                SPIKY_DEN * SELF_DENSITY);
        }
        div_toward_zero(m, den)
    }
}

fn viscosity_term_exec(dv: i128, hr: i128, den: i128) -> (t: i128)
    requires
        abs(dv as int) <= 2199023255552,
        0 < hr <= H,
        den >= VISC_DEN * SELF_DENSITY,
    ensures
        t == viscosity_term(dv as int, hr as int, den as int),
        abs(t as int) <= 35184372088832,
{
    proof {
        lemma_mul_abs_bound(VISC_NUM as int, dv as int, VISC_NUM as int, 2199023255552);
        lemma_mul_abs_bound(VISC_NUM * dv, hr as int, VISC_NUM * 2199023255552, H as int);
    }
    let m = VISC_NUM * dv * hr;
    proof {
        lemma_div_tz_bound(m as int, den as int, VISC_NUM * 2199023255552 * H, VISC_DEN * SELF_DENSITY);
    }
    div_toward_zero(m, den)
}

/// Pressure plus viscosity force that `b` exerts on `a`.
pub fn pair_force_exec(a: &Particle, b: &Particle) -> (f: (i128, i128))
    requires
        force_input_ok(*a),
        force_input_ok(*b),
    ensures
        f.0 == pair_force(*a, *b).0,
        f.1 == pair_force(*a, *b).1,
        abs(f.0 as int) <= PAIR_FORCE_MAX,
        abs(f.1 as int) <= PAIR_FORCE_MAX,
{
    let r2 = dist_sq_exec(a.position, b.position);
    if r2 >= HSQ as i128 {
        return (0, 0);
    }
    let r = floor_sqrt_exec(r2);
    proof {
        assert(r < H) by (nonlinear_arith)
            requires
                r * r <= r2,
                r2 < HSQ,
                0 <= r,
                HSQ == H * H,
        ;
    }
    let hr = H as i128 - r;
    let dx = b.position.x as i128 - a.position.x as i128;
    let dy = b.position.y as i128 - a.position.y as i128;
    let ps = a.pressure as i128 + b.pressure as i128;
    proof {
        assert(0 < hr * hr <= 268435456) by (nonlinear_arith)
            requires
                0 < hr <= 16384,
        ;
        lemma_mul_abs_bound(SPIKY_NUM as int, ps as int, SPIKY_NUM as int, 4398046511104);
        lemma_mul_abs_bound(SPIKY_NUM * ps, hr * hr, SPIKY_NUM * 4398046511104, 268435456);
    }
    let k = SPIKY_NUM * ps * (hr * hr);
    let dp = SPIKY_DEN * b.density as i128;
    let dv = VISC_DEN * b.density as i128;
    proof {
        assert(SPIKY_DEN * b.density >= SPIKY_DEN * SELF_DENSITY) by (nonlinear_arith)
            requires
                b.density >= SELF_DENSITY,
        ;
        assert(VISC_DEN * b.density >= VISC_DEN * SELF_DENSITY) by (nonlinear_arith)
            requires
                b.density >= SELF_DENSITY,
        ;
    }
    let px = pressure_term_exec(dx, dy, r2, r, k, dp);
    let py = pressure_term_exec(dy, dx, r2, r, k, dp);
    let vx = viscosity_term_exec(b.velocity.x as i128 - a.velocity.x as i128, hr, dv);
    let vy = viscosity_term_exec(b.velocity.y as i128 - a.velocity.y as i128, hr, dv);
    (px + vx, py + vy)
}

pub proof fn lemma_pressure_term_odd(d: int, r: int, k: int, den: int)
    requires
        r >= 0,
        den > 0,
    ensures
        pressure_term(-d, r, k, den) == -pressure_term(d, r, k, den),
{
    if r > 0 {
        lemma_div_tz_neg(d * UNIT, r);
        assert((-d) * UNIT == -(d * UNIT));
        let u = div_tz(d * UNIT, r);
        assert((-u) * k == -(u * k)) by (nonlinear_arith);
        lemma_div_tz_neg(u * k, den);
    }
}

/// Two particles of equal density exert opposite forces on each other: the
/// displacement, and the velocity difference, that one sees are the exact negation of
/// what the other sees, at the same distance.
pub proof fn lemma_pair_force_antisymmetric(a: Particle, b: Particle)
    requires
        a.density == b.density,
        a.density > 0,
    ensures
        pair_force(a, b).0 == -pair_force(b, a).0,
        pair_force(a, b).1 == -pair_force(b, a).1,
{
    lemma_dist_sq_symmetric(a.position, b.position);
    let r2 = dist_sq(a.position, b.position);
    if r2 < HSQ {
        let r = floor_sqrt(r2);
        let hr = H - r;
        let dv = VISC_DEN * b.density;
        let dp = SPIKY_DEN * b.density;
        let k = SPIKY_NUM * (a.pressure + b.pressure) * (hr * hr);
        assert(SPIKY_NUM * (b.pressure + a.pressure) * (hr * hr) == k);
        assert(r2 >= 0) by (nonlinear_arith)
            requires
                r2 == (b.position.x - a.position.x) * (b.position.x - a.position.x) + (b.position.y
                    - a.position.y) * (b.position.y - a.position.y),
        ;
        lemma_floor_sqrt_exists(r2);
        assert(dp > 0 && dv > 0) by (nonlinear_arith)
            requires
                dp == SPIKY_DEN * b.density,
                dv == VISC_DEN * b.density,
                b.density > 0,
        ;
        lemma_pressure_term_odd(b.position.x - a.position.x, r, k, dp);
        lemma_pressure_term_odd(b.position.y - a.position.y, r, k, dp);
        assert(VISC_NUM * (a.velocity.x - b.velocity.x) * hr == -(VISC_NUM * (b.velocity.x
            - a.velocity.x) * hr)) by (nonlinear_arith);
        assert(VISC_NUM * (a.velocity.y - b.velocity.y) * hr == -(VISC_NUM * (b.velocity.y
            - a.velocity.y) * hr)) by (nonlinear_arith);
        lemma_div_tz_neg(VISC_NUM * (b.velocity.x - a.velocity.x) * hr, dv);
        lemma_div_tz_neg(VISC_NUM * (b.velocity.y - a.velocity.y) * hr, dv);
    }
}

} // verus!
