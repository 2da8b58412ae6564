use nbody_simulator::next_nbody_positions_fast;
use nbody_simulator::particle::{Color, Particle};
use nbody_simulator::quad_tree::{QuadNode, QuadTree};
use nbody_simulator::rectangle::Rectangle;
use nbody_simulator::utils::calculation_utils::softened_gravitational_force;
use nbody_simulator::vector2::Vector2;

fn particle_at(id: i32, mass: u64, diameter: u64, x: i64, y: i64) -> Particle {
    Particle::new(
        id,
        mass,
        diameter,
        Vector2 { x, y },
        Vector2 { x: 0, y: 0 },
        Color { red: 255, green: 255, blue: 255 },
    )
}

#[test]
fn test_quadtree_initialization() {
    let boundary = Rectangle::new(Vector2::new(0, 0), 100, 100);
    let quadtree = QuadTree::new(boundary);

    assert_eq!(quadtree.total_mass, 0);
    assert_eq!(quadtree.center_of_mass(), Vector2 { x: 0, y: 0 });
    assert!(matches!(quadtree.nw, QuadNode::Empty));
    assert!(matches!(quadtree.ne, QuadNode::Empty));
    assert!(matches!(quadtree.sw, QuadNode::Empty));
    assert!(matches!(quadtree.se, QuadNode::Empty));
}

#[test]
fn test_particle_insertion_and_mass_update() {
    let mut quadtree = QuadTree::new(Rectangle::new(Vector2::new(0, 0), 100, 100));
    let p1 = particle_at(1, 1, 1, 10, 10);
    let p2 = particle_at(2, 1, 1, 90, 10);
    let p3 = particle_at(3, 1, 1, 10, 90);
    let p4 = particle_at(4, 1, 1, 90, 90);

    quadtree.insert(p1);
    quadtree.insert(p2);
    quadtree.insert(p3);
    quadtree.insert(p4);

    assert!(matches!(quadtree.nw, QuadNode::Leaf(_)));
    assert!(matches!(quadtree.ne, QuadNode::Leaf(_)));
    assert!(matches!(quadtree.sw, QuadNode::Leaf(_)));
    assert!(matches!(quadtree.se, QuadNode::Leaf(_)));
    assert_eq!(quadtree.total_mass, 4);
    assert_eq!(quadtree.center_of_mass(), Vector2::new(50, 50));
}

#[test]
fn test_compute() {
    let p1 = particle_at(1, 2812, 1967738920, 5_000_000, 5_000_000);
    let p2 = particle_at(2, 3112, 2177649560, 5_000_003, 5_000_004);
    let p3 = particle_at(3, 1, 1, 5_000_010, 5_000_090);
    let p4 = particle_at(4, 3112, 1, 5_000_090, 5_000_090);
    let particles = vec![p1, p2, p3, p4];

    let world = Vector2 { x: 10_000_000, y: 10_000_000 };

    let first = next_nbody_positions_fast(world, &particles, 10000, 10, 100, 0).unwrap();
    for p in &first {
        println!("{:?}", p.velocity);
    }

    println!("2nd round");
    let second = next_nbody_positions_fast(world, &first, 5, 5, 10, 0).unwrap();
    for p in &second {
        println!("{:?}", p.velocity);
    }
    assert_eq!(second.len(), 4);
}

#[test]
fn test_root_total_mass_is_exact_sum() {
    let mut tree = QuadTree::new(Rectangle::new(Vector2::new(0, 0), 700, 700));
    let masses = [3_u64, 141, 59, 26, 535, 8979];
    let mut expected: u64 = 0;
    for (i, m) in masses.iter().enumerate() {
        let x = 100 + 93 * i as i64;
        tree.insert(particle_at(i as i32, *m, 5, x, 650 - 70 * i as i64));
        expected += m;
    }
    assert_eq!(tree.total_mass, expected);
}

#[test]
fn test_corner_particles_center_of_mass() {
    // Four equal masses on the corners put the centroid exactly at the
    // region's center — also for an odd-sided region off the origin.
    let r1 = Rectangle::new(Vector2::new(0, 0), 100, 100);
    let mut t1 = QuadTree::new(r1);
    t1.insert(particle_at(1, 7, 1, 0, 0));
    t1.insert(particle_at(2, 7, 1, 100, 0));
    t1.insert(particle_at(3, 7, 1, 0, 100));
    t1.insert(particle_at(4, 7, 1, 100, 100));
    assert_eq!(t1.center_of_mass(), Vector2::new(50, 50));

    let r2 = Rectangle::new(Vector2::new(6, 8), 101, 103);
    let mut t2 = QuadTree::new(r2);
    t2.insert(particle_at(1, 7, 1, 6, 8));
    t2.insert(particle_at(2, 7, 1, 107, 8));
    t2.insert(particle_at(3, 7, 1, 6, 111));
    t2.insert(particle_at(4, 7, 1, 107, 111));
    assert_eq!(t2.center_of_mass(), Vector2::new(6 + 50, 8 + 51));
}

#[test]
fn test_leaf_splits_into_subtree() {
    // Two particles routed to the same quadrant force the slot to
    // become an internal subtree holding both.
    let mut tree = QuadTree::new(Rectangle::new(Vector2::new(0, 0), 100, 100));
    tree.insert(particle_at(1, 5, 1, 10, 10));
    tree.insert(particle_at(2, 5, 1, 20, 20));
    match &tree.nw {
        QuadNode::Internal(sub) => {
            assert_eq!(sub.total_mass, 10);
        },
        _ => panic!("the northwest slot should have been subdivided"),
    }
    assert_eq!(tree.total_mass, 10);
}

#[test]
fn test_coincident_particles_end_in_cluster() {
    // Two distinct particles on the same point cannot be separated by
    // subdividing; the recursion stops at a one-unit region and keeps
    // them side by side in one aggregate leaf.
    let mut tree = QuadTree::new(Rectangle::new(Vector2::new(0, 0), 100, 100));
    tree.insert(particle_at(1, 5, 1, 10, 10));
    tree.insert(particle_at(2, 5, 1, 10, 10));
    assert_eq!(tree.total_mass, 10);

    fn has_cluster(node: &QuadNode) -> bool {
        match node {
            QuadNode::Empty => false,
            QuadNode::Leaf(_) => false,
            QuadNode::Cluster(v) => v.len() == 2,
            QuadNode::Internal(t) => {
                has_cluster(&t.nw) || has_cluster(&t.ne) || has_cluster(&t.sw)
                    || has_cluster(&t.se)
            },
        }
    }
    let found = has_cluster(&tree.nw) || has_cluster(&tree.ne) || has_cluster(&tree.sw)
        || has_cluster(&tree.se);
    assert!(found);
}

#[test]
fn test_far_angle_uses_single_aggregate_body() {
    // With an opening angle of at least a thousand times the root
    // width, the force on a distant subject is exactly one softened
    // interaction with the root's aggregate body.
    let mut tree = QuadTree::new(Rectangle::new(Vector2::new(0, 0), 1000, 1000));
    tree.insert(particle_at(1, 40, 1, 10, 10));
    tree.insert(particle_at(2, 60, 1, 14, 22));
    tree.insert(particle_at(3, 100, 1, 30, 8));

    let subject = particle_at(9, 50, 1, 900, 900);
    let mut v = Vector2 { x: 0, y: 0 };
    tree.compute_force(&subject, 10000, 3, 1000, 1_000_000, &mut v);

    let synthetic = Particle::new(
        0,
        tree.total_mass,
        0,
        tree.center_of_mass(),
        Vector2 { x: 0, y: 0 },
        Color { red: 0, green: 0, blue: 0 },
    );
    let expected = softened_gravitational_force(&subject, &synthetic, 10000, 3, 1000);
    assert_eq!(v, expected);
}
