use nbody_simulator::ids::{generate_id, Person};
use nbody_simulator::vector2::Vector2;

#[test]
fn test_vector_arithmetic() {
    let a = Vector2::new(3, -4);
    let b = Vector2::new(-1, 10);
    assert_eq!(a.add(&b), Vector2 { x: 2, y: 6 });
    assert_eq!(a.sub(&b), Vector2 { x: 4, y: -14 });
    assert_eq!(a.scale(-3), Vector2 { x: -9, y: 12 });
}

#[test]
fn test_vector_magnitude_and_distance() {
    assert_eq!(Vector2::new(3, 4).magnitude(), 5);
    assert_eq!(Vector2::new(-3, 4).magnitude(), 5);
    // The norm is the floor of the true Euclidean length.
    assert_eq!(Vector2::new(1, 1).magnitude(), 1);
    assert_eq!(Vector2::new(0, 0).magnitude(), 0);
    assert_eq!(Vector2::new(10, 10).distance(&Vector2::new(13, 14)), 5);
}

#[test]
fn test_vector_normalize() {
    // Components are divided by the floor of the norm, rounding toward
    // negative infinity: an axis vector keeps its direction, and a
    // short diagonal one collapses — the coarse grain of unit-length
    // integer directions.
    assert_eq!(Vector2::new(5, 0).normalize(), Vector2 { x: 1, y: 0 });
    assert_eq!(Vector2::new(0, -7).normalize(), Vector2 { x: 0, y: -1 });
    assert_eq!(Vector2::new(3, 4).normalize(), Vector2 { x: 0, y: 0 });
}

#[test]
fn test_generate_id_squares() {
    let mut p = Person { id: 0 };
    generate_id(&mut p, 5);
    assert_eq!(p.id, 25);
    generate_id(&mut p, 3);
    assert_eq!(p.id, 34);
    generate_id(&mut p, 0);
    assert_eq!(p.id, 34);
    generate_id(&mut p, -2);
    assert_eq!(p.id, 34);
}
