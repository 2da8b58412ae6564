use vstd::prelude::*;
use vstd::arithmetic::div_mod::{
    lemma_div_is_ordered, lemma_div_multiples_vanish, lemma_div_pos_is_pos,
};
use crate::bounds::{DELTA_LIMIT, DIAM_LIMIT, MASS_LIMIT, PARAM_LIMIT, POS_LIMIT, VEL_LIMIT};
use crate::vector2::Vector2;

verus! {

/// rand's standard generator. It is the caller-supplied, seedable
/// source of randomness that particle generation draws from; threading
/// it through explicitly keeps runs reproducible.
#[verifier::external_type_specification]
#[verifier::external_body]
pub struct ExStdRng(rand::rngs::StdRng);

/// A cosmetic particle color; carried through the simulation and never
/// read by the physics.
#[derive(Debug, Clone, Copy, PartialEq, Eq, Structural)]
pub struct Color {
    pub red: u8,
    pub green: u8,
    pub blue: u8,
}

/// A point mass. `id` identifies the particle within one simulated set;
/// self-interaction is excluded by comparing ids, never positions.
#[derive(Debug, Clone, Copy, PartialEq, Eq, Structural)]
pub struct Particle {
    pub id: i32,
    pub mass: u64,
    pub diameter: u64,
    pub position: Vector2,
    pub velocity: Vector2,
    pub color: Color,
}

impl Particle {
    /// A particle the physics can work on: positive mass within the
    /// supported band, and a position within the supported coordinate
    /// band.
    pub open spec fn wf(self) -> bool {
        &&& 1 <= self.mass <= MASS_LIMIT
        &&& -POS_LIMIT <= self.position.x <= POS_LIMIT
        &&& -POS_LIMIT <= self.position.y <= POS_LIMIT
    }

    /// The velocity lies within the band that one step's integration
    /// keeps it in.
    pub open spec fn vel_ok(self) -> bool {
        &&& -VEL_LIMIT <= self.velocity.x <= VEL_LIMIT
        &&& -VEL_LIMIT <= self.velocity.y <= VEL_LIMIT
    }

    /// Build a particle from explicit fields. The identifier is supplied
    /// by the caller, which keeps a run reproducible; generated sets use
    /// the index of the particle in the set.
    pub fn new(
        id: i32,
        mass: u64,
        diameter: u64,
        position: Vector2,
        velocity: Vector2,
        color: Color,
    ) -> (p: Particle)
        ensures
            p == (Particle { id, mass, diameter, position, velocity, color }),
    {
        Particle { id, mass, diameter, position, velocity, color }
    }

    /// Build a particle with randomized mass, position and color, as a
    /// newly seeded world does: the mass uniform within the given
    /// percentage band around `mass` (never below one unit), the
    /// diameter scaled by the drawn-to-nominal mass ratio, the position
    /// uniform within `[0, world_size.x) x [0, world_size.y)`, and the
    /// velocity zero.
    pub fn new_rand(
        rng: &mut rand::rngs::StdRng,
        id: i32,
        world_size: Vector2,
        mass: u64,
        mass_deviation: u64,
        diameter: u64,
    ) -> (p: Particle)
        requires
            1 <= world_size.x <= POS_LIMIT,
            1 <= world_size.y <= POS_LIMIT,
            1 <= mass,
            mass_deviation <= 100,
            mass + mass * mass_deviation / 100 <= MASS_LIMIT,
            1 <= diameter <= DIAM_LIMIT,
        ensures
            p.id == id,
            p.mass >= mass - mass * mass_deviation / 100,
            p.mass <= mass + mass * mass_deviation / 100,
            p.diameter as int == diameter as int * p.mass as int / mass as int,
            0 <= p.position.x < world_size.x,
            0 <= p.position.y < world_size.y,
            p.velocity == (Vector2 { x: 0i64, y: 0i64 }),
            p.wf(),
            mass_deviation == 0 ==> p.mass == mass && p.diameter == diameter,
    {
        proof {
            assert(mass * mass_deviation <= mass * 100) by (nonlinear_arith)
                requires
                    mass_deviation <= 100,
                    1 <= mass,
            ;
            lemma_div_is_ordered(
                mass as int * mass_deviation as int,
                mass as int * 100,
                100,
            );
            assert(mass as int * 100 == 100 * mass as int) by (nonlinear_arith);
            lemma_div_multiples_vanish(mass as int, 100);
        }
        let dev = mass * mass_deviation / 100;
        let lo = mass - dev;
        let lo1 = if lo < 1 {
            1
        } else {
            lo
        };
        let hi = mass + dev;
        let m = if lo1 == hi {
            hi
        } else {
            rng_range_u64(rng, lo1, hi + 1)
        };
        proof {
            assert(m as int <= 2 * mass as int);
            assert(diameter as int * m as int <= diameter as int * (2 * mass as int))
                by (nonlinear_arith)
                requires
                    m as int <= 2 * mass as int,
                    0 <= diameter,
            ;
            assert(diameter as int * (2 * mass as int) == mass as int * (2 * diameter as int))
                by (nonlinear_arith);
            lemma_div_multiples_vanish(2 * diameter as int, mass as int);
            lemma_div_is_ordered(
                diameter as int * m as int,
                diameter as int * (2 * mass as int),
                mass as int,
            );
            lemma_div_pos_is_pos(diameter as int * m as int, mass as int);
            assert(diameter as int * m as int >= 0) by (nonlinear_arith)
                requires
                    0 <= diameter,
                    0 <= m,
            ;
            crate::int_math::lemma_u64_mul_fits(diameter as int, m as int);
            if mass_deviation == 0 {
                assert(diameter as int * mass as int == mass as int * diameter as int)
                    by (nonlinear_arith);
                lemma_div_multiples_vanish(diameter as int, mass as int);
            }
        }
        let d = ((diameter as u128) * (m as u128) / (mass as u128)) as u64;
        let px = rng_range_u64(rng, 0, world_size.x as u64) as i64;
        let py = rng_range_u64(rng, 0, world_size.y as u64) as i64;
        let color = Color { red: rng_u8(rng), green: rng_u8(rng), blue: rng_u8(rng) };
        Particle {
            id,
            mass: m,
            diameter: d,
            position: Vector2 { x: px, y: py },
            velocity: Vector2 { x: 0, y: 0 },
            color,
        }
    }

    /// The velocity the particle will have after this step under the
    /// exact, all-pairs force computation: its current velocity plus
    /// every other particle's softened-force contribution (own id
    /// excluded), saturated to the velocity band.
    pub fn next_velocity(
        &self,
        particles: &Vec<Particle>,
        gravity: u64,
        epsilon: u64,
        scale: u64,
    ) -> (v: Vector2)
        requires
            -POS_LIMIT <= self.position.x <= POS_LIMIT,
            -POS_LIMIT <= self.position.y <= POS_LIMIT,
            gravity <= PARAM_LIMIT,
            epsilon <= PARAM_LIMIT,
            scale <= PARAM_LIMIT,
            forall|i: int| 0 <= i < particles@.len() ==> (#[trigger] particles@[i]).wf(),
        ensures
            v.x == crate::int_math::clamp(
                self.velocity.x + crate::sums::sum_of(
                    particles@,
                    crate::sums::contrib_x(*self, gravity, epsilon, scale),
                ),
                VEL_LIMIT as int,
            ),
            v.y == crate::int_math::clamp(
                self.velocity.y + crate::sums::sum_of(
                    particles@,
                    crate::sums::contrib_y(*self, gravity, epsilon, scale),
                ),
                VEL_LIMIT as int,
            ),
            -VEL_LIMIT <= v.x <= VEL_LIMIT,
            -VEL_LIMIT <= v.y <= VEL_LIMIT,
    {
        let cx = Ghost(crate::sums::contrib_x(*self, gravity, epsilon, scale));
        let cy = Ghost(crate::sums::contrib_y(*self, gravity, epsilon, scale));
        let dl = DELTA_LIMIT;
        let mut fx: i128 = 0;
        let mut fy: i128 = 0;
        let mut i: usize = 0;
        while i < particles.len()
            invariant
                i <= particles.len(),
                -POS_LIMIT <= self.position.x <= POS_LIMIT,
                -POS_LIMIT <= self.position.y <= POS_LIMIT,
                gravity <= PARAM_LIMIT,
                epsilon <= PARAM_LIMIT,
                scale <= PARAM_LIMIT,
                forall|j: int| 0 <= j < particles@.len() ==> (#[trigger] particles@[j]).wf(),
                cx@ == crate::sums::contrib_x(*self, gravity, epsilon, scale),
                cy@ == crate::sums::contrib_y(*self, gravity, epsilon, scale),
                dl == DELTA_LIMIT,
                fx == crate::sums::sum_of(particles@.subrange(0, i as int), cx@),
                fy == crate::sums::sum_of(particles@.subrange(0, i as int), cy@),
                -(i as int * dl) <= fx <= i as int * dl,
                -(i as int * dl) <= fy <= i as int * dl,
            decreases particles.len() - i,
        {
            proof {
                assert(particles@[i as int].wf());
                crate::sums::lemma_sum_prefix_step(particles@, cx@, i as int);
                crate::sums::lemma_sum_prefix_step(particles@, cy@, i as int);
                crate::utils::calculation_utils::lemma_pair_delta_bounds(
                    *self,
                    particles@[i as int],
                    gravity,
                    epsilon,
                    scale,
                );
                assert((i + 1) as int * dl == i as int * dl + dl) by (nonlinear_arith);
            }
            let p = &particles[i];
            if p.id != self.id {
                let w = crate::utils::calculation_utils::softened_gravitational_force(
                    self,
                    p,
                    gravity,
                    epsilon,
                    scale,
                );
                fx = fx + w.x as i128;
                fy = fy + w.y as i128;
            }
            i = i + 1;
        }
        proof {
            crate::sums::lemma_sum_full_prefix(particles@, cx@);
            crate::sums::lemma_sum_full_prefix(particles@, cy@);
        }
        let vx = crate::int_math::clamp_i128(self.velocity.x as i128 + fx, VEL_LIMIT);
        let vy = crate::int_math::clamp_i128(self.velocity.y as i128 + fy, VEL_LIMIT);
        Vector2 { x: vx, y: vy }
    }

    /// Where the particle stands after one unit of time at its current
    /// velocity.
    pub fn next_position(&self) -> (r: Vector2)
        requires
            i64::MIN <= self.position.x + self.velocity.x <= i64::MAX,
            i64::MIN <= self.position.y + self.velocity.y <= i64::MAX,
        ensures
            r.x == self.position.x + self.velocity.x,
            r.y == self.position.y + self.velocity.y,
    {
        self.position.add(&self.velocity)
    }
}

/// Relies on rand's `Rng::gen_range` over a `u64` range: the sample
/// lies in `[lo, hi)`, and the call panics only on an empty range,
/// which the precondition rules out.
#[verifier::external_body]
fn rng_range_u64(rng: &mut rand::rngs::StdRng, lo: u64, hi: u64) -> (r: u64)
    requires
        lo < hi,
    ensures
        lo <= r < hi,
{
    rand::Rng::gen_range(rng, lo..hi)
}

/// Relies on rand's `Rng::gen` for `u8`: any byte may come back, and
/// nothing is promised of it; it only colors a particle.
#[verifier::external_body]
fn rng_u8(rng: &mut rand::rngs::StdRng) -> (r: u8) {
    rand::Rng::gen(rng)
}

} // verus!
