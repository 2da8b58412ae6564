use vstd::prelude::*;
use vstd::math::abs;
use vstd::arithmetic::div_mod::{lemma_div_denominator, lemma_div_is_ordered};
use crate::bounds::{DELTA_LIMIT, MASS_LIMIT, PARAM_LIMIT, POS_LIMIT};
use crate::int_math::{clamp, isqrt, sqrt_floor, lemma_sqrt_floor_bounds};
use crate::particle::Particle;
use crate::vector2::{norm_sq, Vector2};

verus! {

/// The integer denominator of the softened force law along one
/// component: `r * (r^2 + eps^2) * sqrt(r^2 + eps^2)`, that is, the
/// separation times the softened square to the power three halves,
/// with both square roots taken as integer floors.
pub open spec fn force_denominator(p1: Particle, p2: Particle, epsilon: u64) -> int {
    let r2 = norm_sq(p1.position.x - p2.position.x, p1.position.y - p2.position.y);
    let s = r2 + epsilon * epsilon;
    sqrt_floor(r2 as nat) * s * sqrt_floor(s as nat)
}

/// The magnitude of the velocity increment along one component whose
/// separation is `dcomp`, before saturation and before the attractive
/// sign is applied. The subject's own mass cancels against the division
/// by it that turns force into acceleration, so only the other body's
/// mass appears:
/// `|dcomp| * gravity * other_mass * scale / (r * (r^2+eps^2)^(3/2))`.
pub open spec fn force_quotient(
    dcomp: int,
    p1: Particle,
    p2: Particle,
    gravity: u64,
    epsilon: u64,
    scale: u64,
) -> int {
    (abs(dcomp) * gravity * p2.mass * scale) / force_denominator(p1, p2, epsilon)
}

/// The `x` component of the velocity increment that `p2` exerts on
/// `p1`: zero when the two positions coincide exactly, otherwise the
/// saturated force magnitude signed so that it points from `p1` toward
/// `p2`.
pub open spec fn pair_delta_x(
    p1: Particle,
    p2: Particle,
    gravity: u64,
    epsilon: u64,
    scale: u64,
) -> int {
    if p1.position == p2.position {
        0
    } else {
        let dx = p1.position.x - p2.position.x;
        let q = clamp(force_quotient(dx, p1, p2, gravity, epsilon, scale), DELTA_LIMIT as int);
        if dx >= 0 {
            -q
        } else {
            q
        }
    }
}

/// The `y` component of the velocity increment that `p2` exerts on
/// `p1`.
pub open spec fn pair_delta_y(
    p1: Particle,
    p2: Particle,
    gravity: u64,
    epsilon: u64,
    scale: u64,
) -> int {
    if p1.position == p2.position {
        0
    } else {
        let dy = p1.position.y - p2.position.y;
        let q = clamp(force_quotient(dy, p1, p2, gravity, epsilon, scale), DELTA_LIMIT as int);
        if dy >= 0 {
            -q
        } else {
            q
        }
    }
}

/// Bounds that make the force arithmetic exact in 128 bits.
pub open spec fn force_inputs_ok(
    p1: Particle,
    p2: Particle,
    gravity: u64,
    epsilon: u64,
    scale: u64,
) -> bool {
    &&& -POS_LIMIT <= p1.position.x <= POS_LIMIT
    &&& -POS_LIMIT <= p1.position.y <= POS_LIMIT
    &&& -POS_LIMIT <= p2.position.x <= POS_LIMIT
    &&& -POS_LIMIT <= p2.position.y <= POS_LIMIT
    &&& p2.mass <= MASS_LIMIT
    &&& gravity <= PARAM_LIMIT
    &&& epsilon <= PARAM_LIMIT
    &&& scale <= PARAM_LIMIT
}

/// A pairwise force contribution never exceeds the per-pair saturation
/// band.
pub proof fn lemma_pair_delta_bounds(
    p1: Particle,
    p2: Particle,
    gravity: u64,
    epsilon: u64,
    scale: u64,
)
    ensures
        -DELTA_LIMIT <= pair_delta_x(p1, p2, gravity, epsilon, scale) <= DELTA_LIMIT,
        -DELTA_LIMIT <= pair_delta_y(p1, p2, gravity, epsilon, scale) <= DELTA_LIMIT,
{
}

/// A body of zero mass exerts no force.
pub proof fn lemma_pair_delta_zero_mass(
    p1: Particle,
    p2: Particle,
    gravity: u64,
    epsilon: u64,
    scale: u64,
)
    requires
        p2.mass == 0,
    ensures
        pair_delta_x(p1, p2, gravity, epsilon, scale) == 0,
        pair_delta_y(p1, p2, gravity, epsilon, scale) == 0,
{
    if p1.position != p2.position {
        let dx = p1.position.x - p2.position.x;
        let dy = p1.position.y - p2.position.y;
        let r2 = norm_sq(dx, dy);
        assert(r2 >= 1) by (nonlinear_arith)
            requires
                !(dx == 0 && dy == 0),
                r2 == dx * dx + dy * dy,
        ;
        assert(epsilon as int * epsilon as int >= 0) by (nonlinear_arith);
        let s = r2 + epsilon * epsilon;
        crate::int_math::lemma_sqrt_floor_pos(r2 as nat);
        crate::int_math::lemma_sqrt_floor_pos(s as nat);
        let den = force_denominator(p1, p2, epsilon);
        assert(den >= 1) by (nonlinear_arith)
            requires
                den == sqrt_floor(r2 as nat) * s * sqrt_floor(s as nat),
                sqrt_floor(r2 as nat) >= 1,
                s >= 1,
                sqrt_floor(s as nat) >= 1,
        ;
        assert(abs(dx) * gravity * p2.mass * scale == 0) by (nonlinear_arith)
            requires
                p2.mass == 0,
        ;
        assert(abs(dy) * gravity * p2.mass * scale == 0) by (nonlinear_arith)
            requires
                p2.mass == 0,
        ;
        assert(force_quotient(dx, p1, p2, gravity, epsilon, scale) == 0) by {
            vstd::arithmetic::div_mod::lemma_div_of0(den);
        }
        assert(force_quotient(dy, p1, p2, gravity, epsilon, scale) == 0) by {
            vstd::arithmetic::div_mod::lemma_div_of0(den);
        }
    }
}

/// With zero gravity there is no force between any two bodies.
pub proof fn lemma_pair_delta_zero_gravity(
    p1: Particle,
    p2: Particle,
    epsilon: u64,
    scale: u64,
)
    ensures
        pair_delta_x(p1, p2, 0, epsilon, scale) == 0,
        pair_delta_y(p1, p2, 0, epsilon, scale) == 0,
{
    if p1.position != p2.position {
        let dx = p1.position.x - p2.position.x;
        let dy = p1.position.y - p2.position.y;
        let r2 = norm_sq(dx, dy);
        assert(r2 >= 1) by (nonlinear_arith)
            requires
                !(dx == 0 && dy == 0),
                r2 == dx * dx + dy * dy,
        ;
        assert(epsilon as int * epsilon as int >= 0) by (nonlinear_arith);
        let s = r2 + epsilon * epsilon;
        crate::int_math::lemma_sqrt_floor_pos(r2 as nat);
        crate::int_math::lemma_sqrt_floor_pos(s as nat);
        let den = force_denominator(p1, p2, epsilon);
        assert(den >= 1) by (nonlinear_arith)
            requires
                den == sqrt_floor(r2 as nat) * s * sqrt_floor(s as nat),
                sqrt_floor(r2 as nat) >= 1,
                s >= 1,
                sqrt_floor(s as nat) >= 1,
        ;
        assert(abs(dx) * 0 * p2.mass * scale == 0) by (nonlinear_arith);
        assert(abs(dy) * 0 * p2.mass * scale == 0) by (nonlinear_arith);
        assert(force_quotient(dx, p1, p2, 0, epsilon, scale) == 0) by {
            vstd::arithmetic::div_mod::lemma_div_of0(den);
        }
        assert(force_quotient(dy, p1, p2, 0, epsilon, scale) == 0) by {
            vstd::arithmetic::div_mod::lemma_div_of0(den);
        }
    }
}

/// One component of the force computation: `|dcomp|` is handed in as a
/// non-negative magnitude, and the saturated quotient comes back.
fn force_component(
    dcomp_abs: u64,
    r: u64,
    s: u64,
    sq: u64,
    gravity: u64,
    mass2: u64,
    scale: u64,
) -> (q: i64)
    requires
        dcomp_abs <= 2 * POS_LIMIT,
        1 <= r,
        1 <= s,
        1 <= sq,
        mass2 <= MASS_LIMIT,
        gravity <= PARAM_LIMIT,
        scale <= PARAM_LIMIT,
    ensures
        q == clamp(
            (dcomp_abs * gravity * mass2 * scale) / ((r * s) * sq),
            DELTA_LIMIT as int,
        ),
        0 <= q <= DELTA_LIMIT,
{
    proof {
        assert(dcomp_abs as int * gravity as int <= 0x8_0000_0000_0000int)
            by (nonlinear_arith)
            requires
                0 <= dcomp_abs as int <= 0x8000_0000,
                0 <= gravity <= 0x10_0000,
        ;
        assert(dcomp_abs as int * gravity as int * mass2 as int
            <= 0x80000000000000000000000int) by (nonlinear_arith)
            requires
                0 <= dcomp_abs as int * gravity as int <= 0x8_0000_0000_0000int,
                0 <= mass2 <= 0x100_0000_0000,
        ;
        assert((dcomp_abs as int * gravity as int * mass2 as int * scale as int)
            < 0x1_0000_0000_0000_0000_0000_0000_0000int) by (nonlinear_arith)
            requires
                0 <= dcomp_abs as int * gravity as int * mass2 as int
                    <= 0x80000000000000000000000int,
                0 <= scale <= 0x10_0000,
        ;
    }
    let num: u128 = dcomp_abs as u128 * gravity as u128 * mass2 as u128 * scale as u128;
    let q1 = num / (r as u128);
    let q2 = q1 / (s as u128);
    let q3 = q2 / (sq as u128);
    proof {
        lemma_div_denominator(num as int, r as int, s as int);
        lemma_div_denominator(num as int, r as int * s as int, sq as int);
        assert(r as int * s as int * sq as int == (r as int * s as int) * sq as int);
        lemma_div_is_ordered(q3 as int, num as int, 1);
    }
    if q3 > DELTA_LIMIT as u128 {
        DELTA_LIMIT
    } else {
        q3 as i64
    }
}

/// The velocity increment that gravity from `p2` contributes to `p1`
/// over one time step: the Plummer-softened attraction, divided by the
/// subject's own mass and scaled by the global tuning factor, evaluated
/// exactly in integer arithmetic. Coinciding positions contribute
/// nothing; that guard is independent of the id-based self-exclusion
/// that traversals apply.
pub fn softened_gravitational_force(
    p1: &Particle,
    p2: &Particle,
    gravity: u64,
    epsilon: u64,
    scale: u64,
) -> (v: Vector2)
    requires
        force_inputs_ok(*p1, *p2, gravity, epsilon, scale),
    ensures
        v.x == pair_delta_x(*p1, *p2, gravity, epsilon, scale),
        v.y == pair_delta_y(*p1, *p2, gravity, epsilon, scale),
        p1.position == p2.position ==> v == (Vector2 { x: 0i64, y: 0i64 }),
        -DELTA_LIMIT <= v.x <= DELTA_LIMIT,
        -DELTA_LIMIT <= v.y <= DELTA_LIMIT,
{
    if p1.position.x == p2.position.x && p1.position.y == p2.position.y {
        return Vector2 { x: 0, y: 0 };
    }
    let dx = p1.position.x - p2.position.x;
    let dy = p1.position.y - p2.position.y;
    proof {
        crate::vector2::lemma_norm_sq_bound(dx as int, dy as int);
        assert(norm_sq(dx as int, dy as int) >= 1) by (nonlinear_arith)
            requires
                !(dx == 0 && dy == 0),
                norm_sq(dx as int, dy as int) == dx as int * dx as int + dy as int * dy as int,
        ;
        assert(epsilon as int * epsilon as int <= 0x100_0000_0000) by (nonlinear_arith)
            requires
                0 <= epsilon <= 0x10_0000,
        ;
    }
    let r2: u64 = ((dx as i128) * (dx as i128) + (dy as i128) * (dy as i128)) as u64;
    let r: u64 = isqrt(r2);
    let s: u64 = r2 + epsilon * epsilon;
    let sq: u64 = isqrt(s);
    proof {
        lemma_sqrt_floor_bounds(r2 as nat);
        lemma_sqrt_floor_bounds(s as nat);
        crate::int_math::lemma_sqrt_floor_pos(r2 as nat);
        crate::int_math::lemma_sqrt_floor_pos(s as nat);
    }
    let dxa: u64 = if dx >= 0 {
        dx as u64
    } else {
        (-dx) as u64
    };
    let dya: u64 = if dy >= 0 {
        dy as u64
    } else {
        (-dy) as u64
    };
    let qx = force_component(dxa, r, s, sq, gravity, p2.mass, scale);
    let qy = force_component(dya, r, s, sq, gravity, p2.mass, scale);
    let vx: i64 = if dx >= 0 {
        -qx
    } else {
        qx
    };
    let vy: i64 = if dy >= 0 {
        -qy
    } else {
        qy
    };
    Vector2 { x: vx, y: vy }
}

} // verus!
