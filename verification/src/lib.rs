pub mod bounds;
pub mod ids;
pub mod int_math;
pub mod laws;
pub mod particle;
pub mod quad_tree;
pub mod quadrant;
pub mod rectangle;
pub mod sums;
pub mod utils;
pub mod vector2;

use vstd::prelude::*;
use crate::bounds::{DIAM_LIMIT, FORCE_CLAMP, MASS_LIMIT, PARAM_LIMIT, POS_LIMIT, VEL_LIMIT};
use crate::int_math::{clamp, lemma_clamp_compose};
use crate::particle::{Color, Particle};
use crate::quad_tree::{tree_force, tree_seq, tree_wf, QuadTree};
use crate::rectangle::Rectangle;
use crate::sums::{contrib_x, contrib_y, lemma_sum_bounds, lemma_sum_concat, mass_of, sum_of};
use crate::vector2::Vector2;

verus! {

/// Why a request was rejected: the simulation core works on a bounded
/// integer domain and refuses inputs that would leave it, instead of
/// silently producing degenerate physics.
#[derive(Debug, Clone, Copy, PartialEq, Eq, Structural)]
pub enum SimError {
    /// Gravity, epsilon or scale exceeds `PARAM_LIMIT`.
    BadParameter,
    /// A particle (or the nominal mass) is massless.
    ZeroMass,
    /// A mass (or the top of the requested mass band) exceeds
    /// `MASS_LIMIT`.
    MassTooLarge,
    /// The masses together exceed `MASS_LIMIT`.
    MassSumTooLarge,
    /// A position component lies outside the `POS_LIMIT` band.
    PositionOutOfRange,
    /// A velocity component lies outside the `VEL_LIMIT` band.
    VelocityOutOfRange,
    /// A particle lies outside the world region.
    OutOfBounds,
    /// A world dimension is zero, negative, or over `POS_LIMIT`.
    BadWorld,
    /// A diameter is zero.
    ZeroDiameter,
    /// A diameter exceeds `DIAM_LIMIT`.
    DiameterTooLarge,
    /// A mass deviation over one hundred percent.
    BadDeviation,
    /// More particles than there are distinct identifiers.
    TooMany,
}

/// The world region of a step: the rectangle from the origin to
/// `world_size`.
pub open spec fn world_rect(world_size: Vector2) -> Rectangle {
    Rectangle {
        position: Vector2 { x: 0, y: 0 },
        width: world_size.x as u64,
        height: world_size.y as u64,
    }
}

/// The first fault of one particle under the exact (all-pairs) step,
/// or `None`.
pub open spec fn particle_fault(p: Particle) -> Option<SimError> {
    if p.mass == 0 {
        Some(SimError::ZeroMass)
    } else if p.mass > MASS_LIMIT {
        Some(SimError::MassTooLarge)
    } else if !(-POS_LIMIT <= p.position.x <= POS_LIMIT && -POS_LIMIT <= p.position.y
        <= POS_LIMIT) {
        Some(SimError::PositionOutOfRange)
    } else if !p.vel_ok() {
        Some(SimError::VelocityOutOfRange)
    } else {
        None
    }
}

/// The first fault of one particle under the indexed step: the exact
/// step's faults, and then the world-membership check.
pub open spec fn particle_fault_fast(world: Rectangle, p: Particle) -> Option<SimError> {
    if particle_fault(p) is Some {
        particle_fault(p)
    } else if !world.contains(p.position) {
        Some(SimError::OutOfBounds)
    } else {
        None
    }
}

/// The first fault over a sequence of particles, scanning in order.
pub open spec fn particles_fault(s: Seq<Particle>) -> Option<SimError>
    decreases s.len(),
{
    if s.len() == 0 {
        None
    } else if particle_fault(s[0]) is Some {
        particle_fault(s[0])
    } else {
        particles_fault(s.drop_first())
    }
}

/// The first fault over a sequence of particles under the indexed
/// step.
pub open spec fn particles_fault_fast(world: Rectangle, s: Seq<Particle>) -> Option<SimError>
    decreases s.len(),
{
    if s.len() == 0 {
        None
    } else if particle_fault_fast(world, s[0]) is Some {
        particle_fault_fast(world, s[0])
    } else {
        particles_fault_fast(world, s.drop_first())
    }
}

/// What the exact step rejects, in check order: the physics
/// parameters, then each particle in turn.
pub open spec fn step_fault(s: Seq<Particle>, gravity: u64, epsilon: u64, scale: u64) -> Option<
    SimError,
> {
    if gravity > PARAM_LIMIT || epsilon > PARAM_LIMIT || scale > PARAM_LIMIT {
        Some(SimError::BadParameter)
    } else {
        particles_fault(s)
    }
}

/// What the indexed step rejects, in check order: the physics
/// parameters, the world region, each particle in turn, and finally
/// the mass total.
pub open spec fn step_fault_fast(
    world_size: Vector2,
    s: Seq<Particle>,
    gravity: u64,
    epsilon: u64,
    scale: u64,
) -> Option<SimError> {
    if gravity > PARAM_LIMIT || epsilon > PARAM_LIMIT || scale > PARAM_LIMIT {
        Some(SimError::BadParameter)
    } else if !(1 <= world_size.x <= POS_LIMIT && 1 <= world_size.y <= POS_LIMIT) {
        Some(SimError::BadWorld)
    } else if particles_fault_fast(world_rect(world_size), s) is Some {
        particles_fault_fast(world_rect(world_size), s)
    } else if sum_of(s, mass_of()) > MASS_LIMIT {
        Some(SimError::MassSumTooLarge)
    } else {
        None
    }
}

/// One particle advanced by the exact step: its velocity plus every
/// other particle's softened-force contribution, saturated to the
/// velocity band, and its position advanced by that new velocity
/// (explicit Euler).
pub open spec fn advance_exact(
    p: Particle,
    s: Seq<Particle>,
    gravity: u64,
    epsilon: u64,
    scale: u64,
) -> Particle {
    let vx = clamp(
        p.velocity.x + sum_of(s, contrib_x(p, gravity, epsilon, scale)),
        VEL_LIMIT as int,
    );
    let vy = clamp(
        p.velocity.y + sum_of(s, contrib_y(p, gravity, epsilon, scale)),
        VEL_LIMIT as int,
    );
    Particle {
        id: p.id,
        mass: p.mass,
        diameter: p.diameter,
        position: Vector2 { x: (p.position.x + vx) as i64, y: (p.position.y + vy) as i64 },
        velocity: Vector2 { x: vx as i64, y: vy as i64 },
        color: p.color,
    }
}

/// One particle advanced by the indexed step: as `advance_exact`, but
/// the force total comes from the quad-tree traversal under the
/// opening-angle approximation (the inner saturation is absorbed by
/// the outer one and is stated only because the accumulator hands the
/// total back through a 64-bit vector).
pub open spec fn advance_with_tree(
    p: Particle,
    t: QuadTree,
    gravity: u64,
    epsilon: u64,
    scale: u64,
    opening_angle: u64,
) -> Particle {
    let f = tree_force(t, p, gravity, epsilon, scale, opening_angle);
    let vx = clamp(p.velocity.x + clamp(f.0, FORCE_CLAMP as int), VEL_LIMIT as int);
    let vy = clamp(p.velocity.y + clamp(f.1, FORCE_CLAMP as int), VEL_LIMIT as int);
    Particle {
        id: p.id,
        mass: p.mass,
        diameter: p.diameter,
        position: Vector2 { x: (p.position.x + vx) as i64, y: (p.position.y + vy) as i64 },
        velocity: Vector2 { x: vx as i64, y: vy as i64 },
        color: p.color,
    }
}

/// The checks of `particle_fault`, executed.
fn check_particle(p: &Particle) -> (r: Option<SimError>)
    ensures
        r == particle_fault(*p),
{
    if p.mass == 0 {
        Some(SimError::ZeroMass)
    } else if p.mass > MASS_LIMIT {
        Some(SimError::MassTooLarge)
    } else if !(-POS_LIMIT <= p.position.x && p.position.x <= POS_LIMIT && -POS_LIMIT
        <= p.position.y && p.position.y <= POS_LIMIT) {
        Some(SimError::PositionOutOfRange)
    } else if !(-VEL_LIMIT <= p.velocity.x && p.velocity.x <= VEL_LIMIT && -VEL_LIMIT
        <= p.velocity.y && p.velocity.y <= VEL_LIMIT) {
        Some(SimError::VelocityOutOfRange)
    } else {
        None
    }
}

/// The checks of `particle_fault_fast`, executed.
fn check_particle_fast(world: &Rectangle, p: &Particle) -> (r: Option<SimError>)
    requires
        world.wf(),
    ensures
        r == particle_fault_fast(*world, *p),
{
    let base = check_particle(p);
    if base.is_some() {
        base
    } else if !(world.position.x <= p.position.x
        && p.position.x <= world.position.x + world.width as i64 && world.position.y
        <= p.position.y && p.position.y <= world.position.y + world.height as i64) {
        Some(SimError::OutOfBounds)
    } else {
        None
    }
}

/// Scan a particle set for the first fault of the exact step.
fn check_particles(particles: &Vec<Particle>) -> (r: Option<SimError>)
    ensures
        r == particles_fault(particles@),
        r is None ==> forall|i: int|
            0 <= i < particles@.len() ==> particle_fault(#[trigger] particles@[i]) is None,
{
    let ghost s = particles@;
    let n = particles.len();
    proof {
        assert(s.subrange(0, n as int) =~= s);
    }
    let mut i: usize = 0;
    while i < n
        invariant
            i <= n,
            n == s.len(),
            s == particles@,
            particles_fault(s) == particles_fault(s.subrange(i as int, n as int)),
            forall|j: int| 0 <= j < i ==> particle_fault(#[trigger] s[j]) is None,
        decreases n - i,
    {
        let r = check_particle(&particles[i]);
        proof {
            assert(s.subrange(i as int, n as int)[0] == s[i as int]);
            assert(s.subrange(i as int, n as int).drop_first() =~= s.subrange(i + 1, n as int));
        }
        if r.is_some() {
            return r;
        }
        i = i + 1;
    }
    proof {
        assert(s.subrange(n as int, n as int).len() == 0);
    }
    None
}

/// Scan a particle set for the first fault of the indexed step.
fn check_particles_fast(world: &Rectangle, particles: &Vec<Particle>) -> (r: Option<SimError>)
    requires
        world.wf(),
    ensures
        r == particles_fault_fast(*world, particles@),
        r is None ==> forall|i: int|
            0 <= i < particles@.len() ==> particle_fault_fast(
                *world,
                #[trigger] particles@[i],
            ) is None,
{
    let ghost s = particles@;
    let n = particles.len();
    proof {
        assert(s.subrange(0, n as int) =~= s);
    }
    let mut i: usize = 0;
    while i < n
        invariant
            i <= n,
            n == s.len(),
            s == particles@,
            world.wf(),
            particles_fault_fast(*world, s) == particles_fault_fast(
                *world,
                s.subrange(i as int, n as int),
            ),
            forall|j: int| 0 <= j < i ==> particle_fault_fast(*world, #[trigger] s[j]) is None,
        decreases n - i,
    {
        let r = check_particle_fast(world, &particles[i]);
        proof {
            assert(s.subrange(i as int, n as int)[0] == s[i as int]);
            assert(s.subrange(i as int, n as int).drop_first() =~= s.subrange(i + 1, n as int));
        }
        if r.is_some() {
            return r;
        }
        i = i + 1;
    }
    proof {
        assert(s.subrange(n as int, n as int).len() == 0);
    }
    None
}

/// A prefix of the masses weighs no more than the whole set.
proof fn lemma_mass_prefix_le(s: Seq<Particle>, k: int)
    requires
        0 <= k <= s.len(),
    ensures
        sum_of(s.subrange(0, k), mass_of()) <= sum_of(s, mass_of()),
{
    assert(s =~= s.subrange(0, k) + s.subrange(k, s.len() as int));
    lemma_sum_concat(s.subrange(0, k), s.subrange(k, s.len() as int), mass_of());
    lemma_sum_bounds(
        s.subrange(k, s.len() as int),
        mass_of(),
        0,
        0xffff_ffff_ffff_ffff,
    );
    assert(s.subrange(k, s.len() as int).len() * 0 == 0) by (nonlinear_arith);
}

/// What explicit particle construction rejects, in check order.
pub open spec fn generate_fault(
    mass: u64,
    diameter: u64,
    position: Vector2,
    velocity: Vector2,
) -> Option<SimError> {
    if mass == 0 {
        Some(SimError::ZeroMass)
    } else if mass > MASS_LIMIT {
        Some(SimError::MassTooLarge)
    } else if diameter == 0 {
        Some(SimError::ZeroDiameter)
    } else if diameter > DIAM_LIMIT {
        Some(SimError::DiameterTooLarge)
    } else if !(-POS_LIMIT <= position.x <= POS_LIMIT && -POS_LIMIT <= position.y <= POS_LIMIT) {
        Some(SimError::PositionOutOfRange)
    } else if !(-VEL_LIMIT <= velocity.x <= VEL_LIMIT && -VEL_LIMIT <= velocity.y <= VEL_LIMIT) {
        Some(SimError::VelocityOutOfRange)
    } else {
        None
    }
}

/// Build one particle from explicit fields, rejecting what the core
/// cannot simulate (massless or oversized bodies, out-of-band
/// coordinates). The identifier is caller-supplied — generated sets
/// use the particle's index — so that identities are reproducible and
/// collision-free by construction.
pub fn generate_particle(
    id: i32,
    mass: u64,
    diameter: u64,
    position: Vector2,
    velocity: Vector2,
    color: Color,
) -> (r: Result<Particle, SimError>)
    ensures
        r is Err <==> generate_fault(mass, diameter, position, velocity) is Some,
        r matches Err(e) ==> generate_fault(mass, diameter, position, velocity) == Some(e),
        r matches Ok(p) ==> p == (Particle { id, mass, diameter, position, velocity, color })
            && p.wf(),
{
    if mass == 0 {
        return Err(SimError::ZeroMass);
    }
    if mass > MASS_LIMIT {
        return Err(SimError::MassTooLarge);
    }
    if diameter == 0 {
        return Err(SimError::ZeroDiameter);
    }
    if diameter > DIAM_LIMIT {
        return Err(SimError::DiameterTooLarge);
    }
    if !(-POS_LIMIT <= position.x && position.x <= POS_LIMIT && -POS_LIMIT <= position.y
        && position.y <= POS_LIMIT) {
        return Err(SimError::PositionOutOfRange);
    }
    if !(-VEL_LIMIT <= velocity.x && velocity.x <= VEL_LIMIT && -VEL_LIMIT <= velocity.y
        && velocity.y <= VEL_LIMIT) {
        return Err(SimError::VelocityOutOfRange);
    }
    Ok(Particle::new(id, mass, diameter, position, velocity, color))
}

/// What randomized particle-set generation rejects, in check order.
pub open spec fn generate_particles_fault(
    number: usize,
    world_size: Vector2,
    mass: u64,
    mass_deviation: u64,
    diameter: u64,
) -> Option<SimError> {
    if !(1 <= world_size.x <= POS_LIMIT && 1 <= world_size.y <= POS_LIMIT) {
        Some(SimError::BadWorld)
    } else if mass == 0 {
        Some(SimError::ZeroMass)
    } else if mass_deviation > 100 {
        Some(SimError::BadDeviation)
    } else if mass + mass * mass_deviation / 100 > MASS_LIMIT {
        Some(SimError::MassTooLarge)
    } else if diameter == 0 {
        Some(SimError::ZeroDiameter)
    } else if diameter > DIAM_LIMIT {
        Some(SimError::DiameterTooLarge)
    } else if number > i32::MAX as usize {
        Some(SimError::TooMany)
    } else {
        None
    }
}

/// Build `number` randomized particles within the world region, from
/// the caller's seedable generator: the mass of each is uniform within
/// the requested percentage band around `mass` (never below one unit),
/// the diameter scales with the drawn-to-nominal mass ratio, the
/// position is uniform within `[0, world_size.x) x [0, world_size.y)`,
/// the velocity starts at zero, and the color is random and cosmetic.
/// Identifiers are the indices `0 .. number`, so they are unique.
pub fn generate_particles(
    rng: &mut rand::rngs::StdRng,
    number: usize,
    world_size: Vector2,
    mass: u64,
    mass_deviation: u64,
    diameter: u64,
) -> (r: Result<Vec<Particle>, SimError>)
    ensures
        r is Err <==> generate_particles_fault(number, world_size, mass, mass_deviation, diameter)
            is Some,
        r matches Err(e) ==> generate_particles_fault(
            number,
            world_size,
            mass,
            mass_deviation,
            diameter,
        ) == Some(e),
        r matches Ok(out) ==> out@.len() == number && forall|i: int|
            0 <= i < number ==> {
                let p = #[trigger] out@[i];
                &&& p.id == i
                &&& p.mass >= mass - mass * mass_deviation / 100
                &&& 1 <= p.mass <= mass + mass * mass_deviation / 100
                &&& p.diameter as int == diameter as int * p.mass as int / mass as int
                &&& 0 <= p.position.x < world_size.x
                &&& 0 <= p.position.y < world_size.y
                &&& p.velocity == (Vector2 { x: 0i64, y: 0i64 })
                &&& p.wf()
                &&& (mass_deviation == 0 ==> p.mass == mass && p.diameter == diameter)
            },
{
    if !(1 <= world_size.x && world_size.x <= POS_LIMIT && 1 <= world_size.y && world_size.y
        <= POS_LIMIT) {
        return Err(SimError::BadWorld);
    }
    if mass == 0 {
        return Err(SimError::ZeroMass);
    }
    if mass_deviation > 100 {
        return Err(SimError::BadDeviation);
    }
    proof {
        crate::int_math::lemma_u64_mul_fits(mass as int, mass_deviation as int);
    }
    if (mass as u128) + (mass as u128) * (mass_deviation as u128) / 100 > MASS_LIMIT as u128 {
        return Err(SimError::MassTooLarge);
    }
    if diameter == 0 {
        return Err(SimError::ZeroDiameter);
    }
    if diameter > DIAM_LIMIT {
        return Err(SimError::DiameterTooLarge);
    }
    if number > i32::MAX as usize {
        return Err(SimError::TooMany);
    }
    let mut out: Vec<Particle> = Vec::new();
    let mut i: usize = 0;
    while i < number
        invariant
            i <= number,
            number <= i32::MAX as usize,
            out@.len() == i,
            1 <= world_size.x <= POS_LIMIT,
            1 <= world_size.y <= POS_LIMIT,
            1 <= mass,
            mass_deviation <= 100,
            mass + mass * mass_deviation / 100 <= MASS_LIMIT,
            1 <= diameter <= DIAM_LIMIT,
            forall|j: int|
                0 <= j < i ==> {
                    let p = #[trigger] out@[j];
                    &&& p.id == j
                    &&& p.mass >= mass - mass * mass_deviation / 100
                    &&& 1 <= p.mass <= mass + mass * mass_deviation / 100
                    &&& p.diameter as int == diameter as int * p.mass as int / mass as int
                    &&& 0 <= p.position.x < world_size.x
                    &&& 0 <= p.position.y < world_size.y
                    &&& p.velocity == (Vector2 { x: 0i64, y: 0i64 })
                    &&& p.wf()
                    &&& (mass_deviation == 0 ==> p.mass == mass && p.diameter == diameter)
                },
        decreases number - i,
    {
        let p = Particle::new_rand(rng, i as i32, world_size, mass, mass_deviation, diameter);
        out.push(p);
        i = i + 1;
    }
    Ok(out)
}

/// Advance the particle set by one step with the exact, all-pairs
/// force computation. The output set preserves order, identity, mass,
/// diameter and color; each velocity gains the softened-force
/// contributions of every other particle (excluded by id, never by
/// position), saturated to the velocity band, and each position then
/// advances by the new velocity. All forces are computed from the
/// input set alone: no update feeds back into the same step.
pub fn next_nbody_positions(
    particles: &Vec<Particle>,
    gravity: u64,
    epsilon: u64,
    scale: u64,
) -> (r: Result<Vec<Particle>, SimError>)
    ensures
        r is Err <==> step_fault(particles@, gravity, epsilon, scale) is Some,
        r matches Err(e) ==> step_fault(particles@, gravity, epsilon, scale) == Some(e),
        r matches Ok(out) ==> out@.len() == particles@.len() && forall|i: int|
            0 <= i < particles@.len() ==> out@[i] == advance_exact(
                #[trigger] particles@[i],
                particles@,
                gravity,
                epsilon,
                scale,
            ),
{
    if gravity > PARAM_LIMIT || epsilon > PARAM_LIMIT || scale > PARAM_LIMIT {
        return Err(SimError::BadParameter);
    }
    if let Some(e) = check_particles(particles) {
        return Err(e);
    }
    let n = particles.len();
    let mut out: Vec<Particle> = Vec::new();
    let mut i: usize = 0;
    while i < n
        invariant
            i <= n,
            n == particles@.len(),
            out@.len() == i,
            gravity <= PARAM_LIMIT,
            epsilon <= PARAM_LIMIT,
            scale <= PARAM_LIMIT,
            forall|j: int| 0 <= j < n ==> particle_fault(#[trigger] particles@[j]) is None,
            forall|j: int|
                0 <= j < i ==> out@[j] == advance_exact(
                    #[trigger] particles@[j],
                    particles@,
                    gravity,
                    epsilon,
                    scale,
                ),
        decreases n - i,
    {
        proof {
            assert(particle_fault(particles@[i as int]) is None);
            assert forall|j: int| 0 <= j < particles@.len() implies (
            #[trigger] particles@[j]).wf() by {
                assert(particle_fault(particles@[j]) is None);
            }
        }
        let p = particles[i];
        let v = p.next_velocity(particles, gravity, epsilon, scale);
        let pos = p.position.add(&v);
        out.push(
            Particle {
                id: p.id,
                mass: p.mass,
                diameter: p.diameter,
                position: pos,
                velocity: v,
                color: p.color,
            },
        );
        i = i + 1;
    }
    Ok(out)
}

/// Advance the particle set by one step through a freshly built
/// quad-tree index over the world region. The index is built from the
/// input positions and then only read: some well-formed tree holding
/// exactly the input particles determines every output, each particle
/// advanced by the tree's force under the opening-angle approximation.
/// Any two such trees exert identical forces (the laws module proves
/// it), so the step is deterministic in its inputs. With
/// `opening_angle` zero the traversal always reaches the leaves and
/// the step equals the exact one; see the laws module.
pub fn next_nbody_positions_fast(
    world_size: Vector2,
    particles: &Vec<Particle>,
    gravity: u64,
    epsilon: u64,
    scale: u64,
    opening_angle: u64,
) -> (r: Result<Vec<Particle>, SimError>)
    ensures
        r is Err <==> step_fault_fast(world_size, particles@, gravity, epsilon, scale) is Some,
        r matches Err(e) ==> step_fault_fast(world_size, particles@, gravity, epsilon, scale)
            == Some(e),
        r matches Ok(out) ==> out@.len() == particles@.len() && exists|t: QuadTree|
            tree_wf(t) && t.boundary == world_rect(world_size) && tree_seq(t).to_multiset()
                == particles@.to_multiset() && forall|i: int|
                0 <= i < particles@.len() ==> out@[i] == advance_with_tree(
                    #[trigger] particles@[i],
                    t,
                    gravity,
                    epsilon,
                    scale,
                    opening_angle,
                ),
{
    broadcast use vstd::seq_lib::group_to_multiset_ensures;

    if gravity > PARAM_LIMIT || epsilon > PARAM_LIMIT || scale > PARAM_LIMIT {
        return Err(SimError::BadParameter);
    }
    if !(1 <= world_size.x && world_size.x <= POS_LIMIT && 1 <= world_size.y && world_size.y
        <= POS_LIMIT) {
        return Err(SimError::BadWorld);
    }
    let world = Rectangle::new(Vector2 { x: 0, y: 0 }, world_size.x as u64, world_size.y as u64);
    proof {
        assert(world == world_rect(world_size));
    }
    if let Some(e) = check_particles_fast(&world, particles) {
        return Err(e);
    }
    let n = particles.len();

    // The mass total, checked before any insertion so that the
    // index's aggregate arithmetic stays exact.
    let mut total: u128 = 0;
    let mut i: usize = 0;
    while i < n
        invariant
            i <= n,
            n == particles@.len(),
            forall|j: int|
                0 <= j < n ==> particle_fault_fast(
                    world_rect(world_size),
                    #[trigger] particles@[j],
                ) is None,
            total == sum_of(particles@.subrange(0, i as int), mass_of()),
            total <= i as int * MASS_LIMIT,
        decreases n - i,
    {
        proof {
            crate::sums::lemma_sum_prefix_step(particles@, mass_of(), i as int);
            assert(particle_fault_fast(world_rect(world_size), particles@[i as int]) is None);
            assert((i + 1) as int * MASS_LIMIT == i as int * MASS_LIMIT + MASS_LIMIT)
                by (nonlinear_arith);
        }
        total = total + particles[i].mass as u128;
        i = i + 1;
    }
    proof {
        assert(particles@.subrange(0, n as int) =~= particles@);
    }
    if total > MASS_LIMIT as u128 {
        return Err(SimError::MassSumTooLarge);
    }

    let mut tree = QuadTree::new(world);
    let mut i: usize = 0;
    while i < n
        invariant
            i <= n,
            n == particles@.len(),
            tree_wf(tree),
            tree.boundary == world_rect(world_size),
            world_rect(world_size).wf(),
            forall|j: int|
                0 <= j < n ==> particle_fault_fast(
                    world_rect(world_size),
                    #[trigger] particles@[j],
                ) is None,
            sum_of(particles@, mass_of()) <= MASS_LIMIT,
            tree.total_mass as int == sum_of(particles@.subrange(0, i as int), mass_of()),
            tree_seq(tree).to_multiset() == particles@.subrange(0, i as int).to_multiset(),
        decreases n - i,
    {
        proof {
            crate::sums::lemma_sum_prefix_step(particles@, mass_of(), i as int);
            lemma_mass_prefix_le(particles@, i + 1);
            assert(particle_fault_fast(world_rect(world_size), particles@[i as int]) is None);
            assert(particles@.subrange(0, i + 1) =~= particles@.subrange(0, i as int).push(
                particles@[i as int],
            ));
            vstd::seq_lib::to_multiset_build(
                particles@.subrange(0, i as int),
                particles@[i as int],
            );
        }
        tree.insert(particles[i]);
        i = i + 1;
    }
    proof {
        assert(particles@.subrange(0, n as int) =~= particles@);
    }

    let mut out: Vec<Particle> = Vec::new();
    let mut i: usize = 0;
    while i < n
        invariant
            i <= n,
            n == particles@.len(),
            out@.len() == i,
            gravity <= PARAM_LIMIT,
            epsilon <= PARAM_LIMIT,
            scale <= PARAM_LIMIT,
            tree_wf(tree),
            tree.boundary == world_rect(world_size),
            tree_seq(tree).to_multiset() == particles@.to_multiset(),
            forall|j: int|
                0 <= j < n ==> particle_fault_fast(
                    world_rect(world_size),
                    #[trigger] particles@[j],
                ) is None,
            forall|j: int|
                0 <= j < i ==> out@[j] == advance_with_tree(
                    #[trigger] particles@[j],
                    tree,
                    gravity,
                    epsilon,
                    scale,
                    opening_angle,
                ),
        decreases n - i,
    {
        proof {
            assert(particle_fault_fast(world_rect(world_size), particles@[i as int]) is None);
        }
        let p = particles[i];
        let mut vector = Vector2 { x: 0, y: 0 };
        tree.compute_force(&p, gravity, epsilon, scale, opening_angle, &mut vector);
        let vx = crate::int_math::clamp_i128(p.velocity.x as i128 + vector.x as i128, VEL_LIMIT);
        let vy = crate::int_math::clamp_i128(p.velocity.y as i128 + vector.y as i128, VEL_LIMIT);
        proof {
            let f = tree_force(tree, p, gravity, epsilon, scale, opening_angle);
            lemma_clamp_compose(p.velocity.x as int, f.0, VEL_LIMIT as int);
            lemma_clamp_compose(p.velocity.y as int, f.1, VEL_LIMIT as int);
        }
        out.push(
            Particle {
                id: p.id,
                mass: p.mass,
                diameter: p.diameter,
                position: Vector2 { x: p.position.x + vx, y: p.position.y + vy },
                velocity: Vector2 { x: vx, y: vy },
                color: p.color,
            },
        );
        i = i + 1;
    }
    proof {
        let t = tree;
        assert(tree_wf(t) && t.boundary == world_rect(world_size) && tree_seq(t).to_multiset()
            == particles@.to_multiset() && forall|i: int|
            0 <= i < particles@.len() ==> out@[i] == advance_with_tree(
                #[trigger] particles@[i],
                t,
                gravity,
                epsilon,
                scale,
                opening_angle,
            ));
    }
    Ok(out)
}

} // verus!
