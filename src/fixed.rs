//! Integer helpers for the fixed-point arithmetic of the solver.
use vstd::prelude::*;
use vstd::arithmetic::div_mod::{
    lemma_div_is_ordered,
    lemma_div_is_ordered_by_denominator,
    lemma_div_pos_is_pos,
};

verus! {

/// Quotient of `a` by a positive `b`, rounded toward zero (Rust's integer division).
pub open spec fn div_tz(a: int, b: int) -> int {
    if a >= 0 {
        a / b
    } else {
        -((-a) / b)
    }
}

pub open spec fn abs(a: int) -> int {
    if a >= 0 {
        a
    } else {
        -a
    }
}

/// `r` is the integer square root of `n`: the largest `r` with `r * r <= n`.
pub open spec fn is_floor_sqrt(n: int, r: int) -> bool {
    0 <= r && r * r <= n && n < (r + 1) * (r + 1)
}

/// The integer square root of a non-negative `n`.
pub open spec fn floor_sqrt(n: int) -> int {
    choose|r: int| is_floor_sqrt(n, r)
}

pub proof fn lemma_floor_sqrt_unique(n: int, r: int, s: int)
    requires
        is_floor_sqrt(n, r),
        is_floor_sqrt(n, s),
    ensures
        r == s,
{
    if r < s {
        assert((r + 1) * (r + 1) <= s * s) by (nonlinear_arith)
            requires
                0 <= r,
                r + 1 <= s,
        ;
    } else if s < r {
        assert((s + 1) * (s + 1) <= r * r) by (nonlinear_arith)
            requires
                0 <= s,
                s + 1 <= r,
        ;
    }
}

pub proof fn lemma_floor_sqrt_is(n: int, r: int)
    requires
        is_floor_sqrt(n, r),
    ensures
        floor_sqrt(n) == r,
{
    let s = floor_sqrt(n);
    assert(is_floor_sqrt(n, s));
    lemma_floor_sqrt_unique(n, r, s);
}

/// Every non-negative integer has an integer square root.
pub proof fn lemma_floor_sqrt_exists(n: int)
    requires
        n >= 0,
    ensures
        is_floor_sqrt(n, floor_sqrt(n)),
    decreases n,
{
    if n == 0 {
        assert(is_floor_sqrt(0, 0));
    } else {
        lemma_floor_sqrt_exists(n - 1);
        let r = floor_sqrt(n - 1);
        if (r + 1) * (r + 1) <= n {
            assert(n < (r + 2) * (r + 2)) by (nonlinear_arith)
                requires
                    n - 1 < (r + 1) * (r + 1),
                    0 <= r,
            ;
            assert(is_floor_sqrt(n, r + 1));
        } else {
            assert(is_floor_sqrt(n, r));
        }
    }
}

/// A coordinate whose square is at most `n` is at most the integer square root of `n`.
pub proof fn lemma_floor_sqrt_bounds(n: int, r: int, d: int)
    requires
        is_floor_sqrt(n, r),
        d * d <= n,
    ensures
        abs(d) <= r,
{
    let m = abs(d);
    assert(m * m == d * d) by (nonlinear_arith)
        requires
            m == abs(d),
    ;
    if m > r {
        assert((r + 1) * (r + 1) <= m * m) by (nonlinear_arith)
            requires
                0 <= r,
                r + 1 <= m,
        ;
    }
}

/// `|a / b| <= A / B` for `|a| <= A` and `b >= B > 0`.
pub proof fn lemma_div_tz_bound(a: int, b: int, bound_a: int, bound_b: int)
    requires
        abs(a) <= bound_a,
        b >= bound_b,
        bound_b > 0,
    ensures
        abs(div_tz(a, b)) <= bound_a / bound_b,
        abs(div_tz(a, b)) <= abs(a),
{
    let m = abs(a);
    lemma_div_pos_is_pos(m, b);
    lemma_div_is_ordered_by_denominator(m, bound_b, b);
    lemma_div_is_ordered_by_denominator(m, 1, b);
    lemma_div_is_ordered(m, bound_a, bound_b);
}

/// `|a * b| <= A * B` for `|a| <= A` and `|b| <= B`.
pub proof fn lemma_mul_abs_bound(a: int, b: int, bound_a: int, bound_b: int)
    requires
        abs(a) <= bound_a,
        abs(b) <= bound_b,
    ensures
        abs(a * b) <= bound_a * bound_b,
{
    assert(abs(a * b) == abs(a) * abs(b)) by (nonlinear_arith);
    assert(abs(a) * abs(b) <= bound_a * bound_b) by (nonlinear_arith)
        requires
            0 <= abs(a) <= bound_a,
            0 <= abs(b) <= bound_b,
    ;
}

/// Division rounded toward zero, as Rust's `/` does.
pub fn div_toward_zero(a: i128, b: i128) -> (r: i128)
    requires
        b > 0,
        a > i128::MIN,
    ensures
        r == div_tz(a as int, b as int),
{
    proof {
        lemma_div_tz_bound(a as int, b as int, abs(a as int), 1);
    }
    if a >= 0 {
        a / b
    } else {
        -((-a) / b)
    }
}

/// Relies on `u128::isqrt`: the floor of the square root of its argument.
#[verifier::external_body]
fn isqrt_u128(n: u128) -> (r: u128)
    ensures
        r * r <= n,
        n < (r + 1) * (r + 1),
{
    n.isqrt()
}

/// The integer square root of a non-negative `n`.
pub fn floor_sqrt_exec(n: i128) -> (r: i128)
    requires
        n >= 0,
    ensures
        r == floor_sqrt(n as int),
        is_floor_sqrt(n as int, r as int),
{
    let s = isqrt_u128(n as u128);
    proof {
        assert(s <= n) by (nonlinear_arith)
            requires
                s * s <= n,
        ;
        lemma_floor_sqrt_is(n as int, s as int);
    }
    s as i128
}

/// Rounding toward zero commutes with negation.
pub proof fn lemma_div_tz_neg(a: int, b: int)
    requires
        b > 0,
    ensures
        div_tz(-a, b) == -div_tz(a, b),
{
    if a == 0 {
        assert(0int / b == 0);
    }
}

} // verus!
