use nbody_simulator::particle::{Color, Particle};
use nbody_simulator::quadrant::Quadrant;
use nbody_simulator::rectangle::Rectangle;
use nbody_simulator::utils::calculation_utils::softened_gravitational_force;
use nbody_simulator::utils::quadrant_utils::{find_quadrant, quadrant_to_rectangle};
use nbody_simulator::vector2::Vector2;

fn particle_at(id: i32, mass: u64, diameter: u64, x: i64, y: i64) -> Particle {
    Particle::new(
        id,
        mass,
        diameter,
        Vector2 { x, y },
        Vector2 { x: 0, y: 0 },
        Color { red: 255, green: 255, blue: 255 },
    )
}

#[test]
fn test_softened_gravitational_force() {
    let p1 = particle_at(1, 2812, 1967738920, 0, 0);
    let p2 = particle_at(2, 3112, 2177649560, 3, 4);

    let gravity = 10000;
    let epsilon = 0;
    let scale = 1;

    let result_force = softened_gravitational_force(&p1, &p2, gravity, epsilon, scale);

    // Exactly what the integer force law must give: the separation is
    // (-3, -4), so r = 5, the softened square is 25 and its root 5.
    // Along x: 3 * 10000 * 3112 * 1 = 93_360_000, divided in turn by
    // 5, 25 and 5 gives 149_376; along y the numerator carries 4
    // instead of 3 and gives 199_168. Both point from p1 toward p2.
    assert_eq!(result_force.x, 149_376);
    assert_eq!(result_force.y, 199_168);
    // The force lies along the unit direction (0.6, 0.8): 4 x == 3 y.
    assert_eq!(4 * result_force.x, 3 * result_force.y);
}

#[test]
fn test_force_zero_at_same_position() {
    let p1 = particle_at(1, 1000, 10, 42, -17);
    let p2 = particle_at(2, 999_999, 10, 42, -17);
    let v = softened_gravitational_force(&p1, &p2, 1_000_000, 0, 1_000_000);
    assert_eq!(v.x, 0);
    assert_eq!(v.y, 0);
    let w = softened_gravitational_force(&p1, &p2, 3, 1000, 7);
    assert_eq!(w.x, 0);
    assert_eq!(w.y, 0);
}

#[test]
fn test_force_saturates() {
    // Two heavy adjacent bodies: the raw magnitude would be enormous,
    // so the per-pair saturation band must cap the components.
    let p1 = particle_at(1, 1_000_000, 10, 0, 0);
    let p2 = particle_at(2, 1_000_000, 10, 1, 0);
    let v = softened_gravitational_force(&p1, &p2, 1_000_000, 0, 1_000_000);
    assert_eq!(v.x, 33_554_432);
    assert_eq!(v.y, 0);
}

#[test]
fn test_quadrant_to_rectangle_nw() {
    let rect = Rectangle {
        position: Vector2 { x: 0, y: 0 },
        width: 100,
        height: 100,
    };
    let quadrant_rect = quadrant_to_rectangle(&rect, &Quadrant::NW);
    assert_eq!(quadrant_rect.position.x, 0);
    assert_eq!(quadrant_rect.position.y, 0);
    assert_eq!(quadrant_rect.width, 50);
    assert_eq!(quadrant_rect.height, 50);
}

#[test]
fn test_quadrant_rectangles_tile_odd_sides() {
    // An odd-sided rectangle still tiles exactly: the west halves take
    // the rounded-down width and the east halves the rest.
    let rect = Rectangle {
        position: Vector2 { x: 10, y: 20 },
        width: 101,
        height: 7,
    };
    let nw = quadrant_to_rectangle(&rect, &Quadrant::NW);
    let ne = quadrant_to_rectangle(&rect, &Quadrant::NE);
    let sw = quadrant_to_rectangle(&rect, &Quadrant::SW);
    let se = quadrant_to_rectangle(&rect, &Quadrant::SE);
    assert_eq!(nw.width + ne.width, 101);
    assert_eq!(nw.height + sw.height, 7);
    assert_eq!(ne.position.x, 10 + 50);
    assert_eq!(se.position.y, 20 + 3);
    assert_eq!(sw.width, 50);
    assert_eq!(se.width, 51);
}

#[test]
fn test_find_quadrant_inside() {
    let boundary = Rectangle {
        position: Vector2 { x: 0, y: 0 },
        width: 100,
        height: 100,
    };
    let nw_position = Vector2 { x: 25, y: 25 };
    assert_eq!(find_quadrant(&boundary, &nw_position), Some(Quadrant::NW));
}

#[test]
fn test_find_quadrant_outside() {
    let boundary = Rectangle {
        position: Vector2 { x: 0, y: 0 },
        width: 100,
        height: 100,
    };
    let outside_position = Vector2 { x: -10, y: 110 };
    assert_eq!(find_quadrant(&boundary, &outside_position), None);
}

#[test]
fn test_quadrant_child_indices() {
    assert_eq!(Quadrant::NW.child_index(), 0);
    assert_eq!(Quadrant::NE.child_index(), 1);
    assert_eq!(Quadrant::SW.child_index(), 2);
    assert_eq!(Quadrant::SE.child_index(), 3);
}

#[test]
fn test_midline_tie_break() {
    // A point exactly on a midline always goes to the same side: east
    // on the vertical midline, south on the horizontal one.
    let boundary = Rectangle {
        position: Vector2 { x: 0, y: 0 },
        width: 100,
        height: 100,
    };
    for _ in 0..3 {
        assert_eq!(
            find_quadrant(&boundary, &Vector2 { x: 50, y: 25 }),
            Some(Quadrant::NE)
        );
        assert_eq!(
            find_quadrant(&boundary, &Vector2 { x: 25, y: 50 }),
            Some(Quadrant::SW)
        );
        assert_eq!(
            find_quadrant(&boundary, &Vector2 { x: 50, y: 50 }),
            Some(Quadrant::SE)
        );
    }
}
