use nbody_simulator::particle::{Color, Particle};
use nbody_simulator::vector2::Vector2;
use nbody_simulator::{
    generate_particle, generate_particles, next_nbody_positions, next_nbody_positions_fast,
    SimError,
};
use rand::rngs::StdRng;
use rand::SeedableRng;

fn particle(id: i32, mass: u64, x: i64, y: i64, vx: i64, vy: i64) -> Particle {
    Particle::new(
        id,
        mass,
        10,
        Vector2 { x, y },
        Vector2 { x: vx, y: vy },
        Color { red: 1, green: 2, blue: 3 },
    )
}

#[test]
fn real_scenario() {
    let mut rng = StdRng::seed_from_u64(7);
    let particles = generate_particles(
        &mut rng,
        4,
        Vector2 { x: 700, y: 700 },
        100,
        0,
        10,
    )
    .unwrap();

    println!("{:?}", particles);

    let stepped = next_nbody_positions(&particles, 100, 5, 1000).unwrap();

    println!("{:?}", stepped);
    assert_eq!(stepped.len(), 4);
}

#[test]
fn test_generate_particles_bounds() {
    let mut rng = StdRng::seed_from_u64(2024);
    let out = generate_particles(
        &mut rng,
        100,
        Vector2 { x: 700, y: 700 },
        100,
        10,
        10,
    )
    .unwrap();
    assert_eq!(out.len(), 100);
    for (i, p) in out.iter().enumerate() {
        assert_eq!(p.id, i as i32);
        assert!(0 <= p.position.x && p.position.x < 700);
        assert!(0 <= p.position.y && p.position.y < 700);
        assert!(90 <= p.mass && p.mass <= 110);
        assert_eq!(p.velocity, Vector2 { x: 0, y: 0 });
    }
}

#[test]
fn test_generate_particles_zero_deviation_keeps_nominals() {
    let mut rng = StdRng::seed_from_u64(5);
    let out = generate_particles(&mut rng, 10, Vector2 { x: 50, y: 50 }, 123, 0, 45).unwrap();
    for p in &out {
        assert_eq!(p.mass, 123);
        assert_eq!(p.diameter, 45);
    }
}

#[test]
fn test_generate_particle_explicit() {
    let p = generate_particle(
        17,
        1000,
        20,
        Vector2 { x: 3, y: 4 },
        Vector2 { x: -1, y: 2 },
        Color { red: 9, green: 8, blue: 7 },
    )
    .unwrap();
    assert_eq!(p.id, 17);
    assert_eq!(p.mass, 1000);
    assert_eq!(p.diameter, 20);
    assert_eq!(p.position, Vector2 { x: 3, y: 4 });
    assert_eq!(p.velocity, Vector2 { x: -1, y: 2 });
    assert_eq!(p.color, Color { red: 9, green: 8, blue: 7 });
}

#[test]
fn test_next_position_advances_by_velocity() {
    let p = particle(1, 5, 100, 200, 7, -9);
    let next = p.next_position();
    assert_eq!(next, Vector2 { x: 107, y: 191 });
}

#[test]
fn test_zero_gravity_step_keeps_velocity() {
    let particles = vec![
        particle(0, 50, 10, 10, 3, -2),
        particle(1, 70, 400, 300, -5, 8),
        particle(2, 90, 222, 111, 0, 0),
    ];
    let slow = next_nbody_positions(&particles, 0, 5, 1000).unwrap();
    let fast =
        next_nbody_positions_fast(Vector2 { x: 700, y: 700 }, &particles, 0, 5, 1000, 500)
            .unwrap();
    for (orig, stepped) in particles.iter().zip(slow.iter()) {
        assert_eq!(stepped.velocity, orig.velocity);
        assert_eq!(
            stepped.position,
            Vector2 {
                x: orig.position.x + orig.velocity.x,
                y: orig.position.y + orig.velocity.y,
            }
        );
    }
    for (s, f) in slow.iter().zip(fast.iter()) {
        assert_eq!(s, f);
    }
}

#[test]
fn test_zero_angle_step_matches_exact_step() {
    // Eight particles: at opening angle zero the indexed step must
    // reproduce the exact all-pairs step to the last unit.
    let particles = vec![
        particle(0, 2812, 0, 0, 0, 0),
        particle(1, 3112, 3, 4, 1, 1),
        particle(2, 500, 10, 90, -2, 0),
        particle(3, 3112, 90, 90, 0, 3),
        particle(4, 1, 55, 55, 0, 0),
        particle(5, 999, 70, 12, 4, -4),
        particle(6, 42, 33, 66, 0, 0),
        particle(7, 777, 99, 1, -1, -1),
    ];
    let slow = next_nbody_positions(&particles, 1000, 3, 7).unwrap();
    let fast =
        next_nbody_positions_fast(Vector2 { x: 100, y: 100 }, &particles, 1000, 3, 7, 0)
            .unwrap();
    assert_eq!(slow.len(), fast.len());
    for (s, f) in slow.iter().zip(fast.iter()) {
        assert_eq!(s, f);
    }
}

#[test]
fn test_fast_step_deterministic() {
    // A step consumes no randomness: identical inputs give identical
    // outputs, call after call.
    let particles = vec![
        particle(0, 2812, 0, 0, 0, 0),
        particle(1, 3112, 3, 4, 1, 1),
        particle(2, 500, 10, 90, -2, 0),
        particle(3, 777, 99, 1, -1, -1),
    ];
    let world = Vector2 { x: 100, y: 100 };
    let a = next_nbody_positions_fast(world, &particles, 1000, 3, 7, 500).unwrap();
    let b = next_nbody_positions_fast(world, &particles, 1000, 3, 7, 500).unwrap();
    assert_eq!(a, b);
}

#[test]
fn test_step_rejections() {
    let good = particle(0, 50, 10, 10, 0, 0);
    let world = Vector2 { x: 700, y: 700 };

    // Parameters over the supported band.
    assert_eq!(
        next_nbody_positions(&vec![good], 1 << 21, 0, 1),
        Err(SimError::BadParameter)
    );

    // A massless particle.
    let massless = particle(1, 0, 10, 10, 0, 0);
    assert_eq!(
        next_nbody_positions(&vec![massless], 1, 0, 1),
        Err(SimError::ZeroMass)
    );

    // A single mass over the band.
    let heavy = particle(1, (1 << 40) + 1, 10, 10, 0, 0);
    assert_eq!(
        next_nbody_positions(&vec![heavy], 1, 0, 1),
        Err(SimError::MassTooLarge)
    );

    // A position out of the coordinate band.
    let far = particle(1, 5, (1 << 30) + 1, 10, 0, 0);
    assert_eq!(
        next_nbody_positions(&vec![far], 1, 0, 1),
        Err(SimError::PositionOutOfRange)
    );

    // A velocity out of the velocity band.
    let quick = particle(1, 5, 10, 10, (1 << 25) + 1, 0);
    assert_eq!(
        next_nbody_positions(&vec![quick], 1, 0, 1),
        Err(SimError::VelocityOutOfRange)
    );

    // Outside the world region (fine for the exact step, rejected by
    // the indexed one, whose index only covers the region).
    let outside = particle(1, 5, 800, 10, 0, 0);
    assert!(next_nbody_positions(&vec![outside], 1, 0, 1).is_ok());
    assert_eq!(
        next_nbody_positions_fast(world, &vec![outside], 1, 0, 1, 500),
        Err(SimError::OutOfBounds)
    );

    // A degenerate world.
    assert_eq!(
        next_nbody_positions_fast(Vector2 { x: 0, y: 700 }, &vec![good], 1, 0, 1, 500),
        Err(SimError::BadWorld)
    );

    // Masses that are each in range but together over the band.
    let h1 = particle(1, 1 << 39, 10, 10, 0, 0);
    let h2 = particle(2, (1 << 39) + 1, 20, 20, 0, 0);
    assert_eq!(
        next_nbody_positions_fast(world, &vec![h1, h2], 1, 0, 1, 500),
        Err(SimError::MassSumTooLarge)
    );
}

#[test]
fn test_generation_rejections() {
    let mut rng = StdRng::seed_from_u64(1);
    let world = Vector2 { x: 700, y: 700 };

    assert_eq!(
        generate_particles(&mut rng, 10, Vector2 { x: 0, y: 700 }, 100, 10, 10),
        Err(SimError::BadWorld)
    );
    assert_eq!(
        generate_particles(&mut rng, 10, world, 0, 10, 10),
        Err(SimError::ZeroMass)
    );
    assert_eq!(
        generate_particles(&mut rng, 10, world, 100, 101, 10),
        Err(SimError::BadDeviation)
    );
    assert_eq!(
        generate_particles(&mut rng, 10, world, 1 << 40, 100, 10),
        Err(SimError::MassTooLarge)
    );
    assert_eq!(
        generate_particles(&mut rng, 10, world, 100, 10, 0),
        Err(SimError::ZeroDiameter)
    );
    assert_eq!(
        generate_particles(&mut rng, 10, world, 100, 10, (1 << 32) + 1),
        Err(SimError::DiameterTooLarge)
    );
    assert_eq!(
        generate_particles(&mut rng, (i32::MAX as usize) + 1, world, 100, 10, 10),
        Err(SimError::TooMany)
    );

    assert_eq!(
        generate_particle(
            1,
            1000,
            20,
            Vector2 { x: 3, y: 4 },
            Vector2 { x: 0, y: (1 << 25) + 1 },
            Color { red: 0, green: 0, blue: 0 },
        ),
        Err(SimError::VelocityOutOfRange)
    );
}
