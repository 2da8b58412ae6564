use vstd::prelude::*;
use crate::bounds::{ANGLE_SCALE, VEL_LIMIT};
use crate::int_math::lemma_clamp_compose;
use crate::particle::Particle;
use crate::quad_tree::{
    com_x, com_y, expands, lemma_tree_seq_multiset, node_force, node_seq, node_wf, slot_of,
    slot_routed, splittable, synthetic_body, tree_force, tree_seq, tree_wf, QuadNode, QuadTree,
};
use crate::quadrant::Quadrant;
use crate::rectangle::Rectangle;
use crate::sums::{
    contrib_x, contrib_y, lemma_sum_concat, lemma_sum_permutation, lemma_sum_push, lemma_sum_zero,
    mass_of, sum_of, weighted_x, weighted_y,
};
use crate::utils::calculation_utils::{
    lemma_pair_delta_zero_gravity, pair_delta_x, pair_delta_y,
};
use crate::utils::quadrant_utils::{quadrant_of, subregion};
use crate::vector2::{dist_floor, Vector2};
use crate::{advance_exact, advance_with_tree};

verus! {

/// For every particle set: a well-formed index holding exactly the
/// particles of `s` reports as its root `total_mass` exactly the sum
/// of the masses of `s` — the integer aggregates carry no rounding at
/// all, and no insertion order can disturb the total.
pub proof fn lemma_total_mass_is_mass_sum(t: QuadTree, s: Seq<Particle>)
    requires
        tree_wf(t),
        tree_seq(t).to_multiset() == s.to_multiset(),
    ensures
        t.total_mass as int == sum_of(s, mass_of()),
{
    lemma_sum_permutation(tree_seq(t), s, mass_of());
}

/// Four particles of one common mass placed on the four corners of the
/// region put the center of mass exactly at the region's center,
/// whatever the region, the mass, and the order of insertion.
pub proof fn lemma_corner_particles_centroid(t: QuadTree, r: Rectangle, m: u64, s: Seq<Particle>)
    requires
        tree_wf(t),
        t.boundary == r,
        r.wf(),
        tree_seq(t).to_multiset() == s.to_multiset(),
        s.len() == 4,
        1 <= m,
        s[0].mass == m,
        s[1].mass == m,
        s[2].mass == m,
        s[3].mass == m,
        s[0].position == (Vector2 { x: r.position.x, y: r.position.y }),
        s[1].position == (Vector2 {
            x: (r.position.x + r.width) as i64,
            y: r.position.y,
        }),
        s[2].position == (Vector2 {
            x: r.position.x,
            y: (r.position.y + r.height) as i64,
        }),
        s[3].position == (Vector2 {
            x: (r.position.x + r.width) as i64,
            y: (r.position.y + r.height) as i64,
        }),
    ensures
        com_x(t) == r.center_x(),
        com_y(t) == r.center_y(),
{
    lemma_sum_permutation(tree_seq(t), s, mass_of());
    lemma_sum_permutation(tree_seq(t), s, weighted_x());
    lemma_sum_permutation(tree_seq(t), s, weighted_y());
    lemma_four_sums(s, mass_of());
    lemma_four_sums(s, weighted_x());
    lemma_four_sums(s, weighted_y());
    let x = r.position.x as int;
    let y = r.position.y as int;
    let w = r.width as int;
    let h = r.height as int;
    assert(t.total_mass as int == 4 * m);
    assert(t.wsum_x as int == m * x + m * (x + w) + m * x + m * (x + w));
    assert(t.wsum_y as int == m * y + m * y + m * (y + h) + m * (y + h));
    assert(t.wsum_x as int == m * (4 * x + 2 * w)) by (nonlinear_arith)
        requires
            t.wsum_x as int == m * x + m * (x + w) + m * x + m * (x + w),
    ;
    assert(t.wsum_y as int == m * (4 * y + 2 * h)) by (nonlinear_arith)
        requires
            t.wsum_y as int == m * y + m * y + m * (y + h) + m * (y + h),
    ;
    lemma_weighted_average_cancels(m as int, 4 * x + 2 * w);
    lemma_weighted_average_cancels(m as int, 4 * y + 2 * h);
    lemma_half_of_double(x, w);
    lemma_half_of_double(y, h);
}

/// A sum over a four-element sequence, written out.
proof fn lemma_four_sums(s: Seq<Particle>, f: spec_fn(Particle) -> int)
    requires
        s.len() == 4,
    ensures
        sum_of(s, f) == f(s[0]) + f(s[1]) + f(s[2]) + f(s[3]),
{
    let e = Seq::<Particle>::empty();
    assert(s =~= e.push(s[0]).push(s[1]).push(s[2]).push(s[3]));
    lemma_sum_push(e, f, s[0]);
    lemma_sum_push(e.push(s[0]), f, s[1]);
    lemma_sum_push(e.push(s[0]).push(s[1]), f, s[2]);
    lemma_sum_push(e.push(s[0]).push(s[1]).push(s[2]), f, s[3]);
}

/// Dividing a weighted total `m * a` by a weighted count `4 * m`
/// cancels the weight exactly.
proof fn lemma_weighted_average_cancels(m: int, a: int)
    requires
        1 <= m,
    ensures
        (m * a) / (4 * m) == a / 4,
{
    vstd::arithmetic::div_mod::lemma_fundamental_div_mod(a, 4);
    let q = a / 4;
    let rr = a % 4;
    assert(m * a == q * (4 * m) + m * rr) by (nonlinear_arith)
        requires
            a == 4 * q + rr,
    ;
    assert(0 <= m * rr < 4 * m) by (nonlinear_arith)
        requires
            0 <= rr < 4,
            1 <= m,
    ;
    vstd::arithmetic::div_mod::lemma_fundamental_div_mod_converse(m * a, 4 * m, q, m * rr);
}

/// `(4x + 2w) / 4 == x + w / 2`.
proof fn lemma_half_of_double(x: int, w: int)
    requires
        0 <= w,
    ensures
        (4 * x + 2 * w) / 4 == x + w / 2,
{
    vstd::arithmetic::div_mod::lemma_hoist_over_denominator(2 * w, x, 4nat);
    assert(2 * w + x * 4 == 4 * x + 2 * w);
    vstd::arithmetic::div_mod::lemma_div_denominator(2 * w, 2, 2);
    vstd::arithmetic::div_mod::lemma_div_multiples_vanish(w, 2);
}

/// Two coinciding bodies exert no force on one another, whatever the
/// masses and parameters: the zero-distance guard of the force law.
pub proof fn lemma_coincident_no_force(
    p1: Particle,
    p2: Particle,
    gravity: u64,
    epsilon: u64,
    scale: u64,
)
    requires
        p1.position == p2.position,
    ensures
        pair_delta_x(p1, p2, gravity, epsilon, scale) == 0,
        pair_delta_y(p1, p2, gravity, epsilon, scale) == 0,
{
}

/// The force of one child slot under zero gravity is zero.
proof fn lemma_node_force_zero_gravity(
    n: QuadNode,
    rect: Rectangle,
    p: Particle,
    epsilon: u64,
    scale: u64,
    opening_angle: u64,
)
    requires
        node_wf(n, rect),
    ensures
        node_force(n, p, 0, epsilon, scale, opening_angle) == (0int, 0int),
    decreases n,
{
    match n {
        QuadNode::Empty => {
        },
        QuadNode::Leaf(q) => {
            lemma_pair_delta_zero_gravity(p, q, epsilon, scale);
        },
        QuadNode::Cluster(v) => {
            assert forall|i: int| 0 <= i < v@.len() implies #[trigger] contrib_x(
                p,
                0,
                epsilon,
                scale,
            )(v@[i]) == 0 by {
                lemma_pair_delta_zero_gravity(p, v@[i], epsilon, scale);
            }
            assert forall|i: int| 0 <= i < v@.len() implies #[trigger] contrib_y(
                p,
                0,
                epsilon,
                scale,
            )(v@[i]) == 0 by {
                lemma_pair_delta_zero_gravity(p, v@[i], epsilon, scale);
            }
            lemma_sum_zero(v@, contrib_x(p, 0, epsilon, scale));
            lemma_sum_zero(v@, contrib_y(p, 0, epsilon, scale));
        },
        QuadNode::Internal(t) => {
            lemma_tree_force_zero_gravity(*t, p, epsilon, scale, opening_angle);
        },
    }
}

/// The force of a whole subtree under zero gravity is zero.
proof fn lemma_tree_force_zero_gravity(
    t: QuadTree,
    p: Particle,
    epsilon: u64,
    scale: u64,
    opening_angle: u64,
)
    requires
        tree_wf(t),
    ensures
        tree_force(t, p, 0, epsilon, scale, opening_angle) == (0int, 0int),
    decreases t,
{
    if expands(t, p, opening_angle) {
        lemma_node_force_zero_gravity(
            t.nw,
            subregion(t.boundary, Quadrant::NW),
            p,
            epsilon,
            scale,
            opening_angle,
        );
        lemma_node_force_zero_gravity(
            t.ne,
            subregion(t.boundary, Quadrant::NE),
            p,
            epsilon,
            scale,
            opening_angle,
        );
        lemma_node_force_zero_gravity(
            t.sw,
            subregion(t.boundary, Quadrant::SW),
            p,
            epsilon,
            scale,
            opening_angle,
        );
        lemma_node_force_zero_gravity(
            t.se,
            subregion(t.boundary, Quadrant::SE),
            p,
            epsilon,
            scale,
            opening_angle,
        );
    } else {
        lemma_pair_delta_zero_gravity(p, synthetic_body(t), epsilon, scale);
    }
}

/// With zero gravity a step changes no velocity, and every position
/// advances by exactly the particle's prior velocity — under the exact
/// step and under the indexed step alike.
pub proof fn lemma_zero_gravity_step(
    p: Particle,
    s: Seq<Particle>,
    t: QuadTree,
    epsilon: u64,
    scale: u64,
    opening_angle: u64,
)
    requires
        tree_wf(t),
        p.vel_ok(),
    ensures
        advance_exact(p, s, 0, epsilon, scale).velocity == p.velocity,
        advance_exact(p, s, 0, epsilon, scale).position == (Vector2 {
            x: (p.position.x + p.velocity.x) as i64,
            y: (p.position.y + p.velocity.y) as i64,
        }),
        advance_with_tree(p, t, 0, epsilon, scale, opening_angle).velocity == p.velocity,
        advance_with_tree(p, t, 0, epsilon, scale, opening_angle).position == (Vector2 {
            x: (p.position.x + p.velocity.x) as i64,
            y: (p.position.y + p.velocity.y) as i64,
        }),
{
    assert forall|i: int| 0 <= i < s.len() implies #[trigger] contrib_x(p, 0, epsilon, scale)(
        s[i],
    ) == 0 by {
        lemma_pair_delta_zero_gravity(p, s[i], epsilon, scale);
    }
    assert forall|i: int| 0 <= i < s.len() implies #[trigger] contrib_y(p, 0, epsilon, scale)(
        s[i],
    ) == 0 by {
        lemma_pair_delta_zero_gravity(p, s[i], epsilon, scale);
    }
    lemma_sum_zero(s, contrib_x(p, 0, epsilon, scale));
    lemma_sum_zero(s, contrib_y(p, 0, epsilon, scale));
    lemma_tree_force_zero_gravity(t, p, epsilon, scale, opening_angle);
}

/// The force of one child slot at opening angle zero is the exact
/// pairwise sum over the particles under it.
proof fn lemma_node_force_zero_angle(
    n: QuadNode,
    rect: Rectangle,
    p: Particle,
    gravity: u64,
    epsilon: u64,
    scale: u64,
)
    requires
        node_wf(n, rect),
    ensures
        node_force(n, p, gravity, epsilon, scale, 0) == (
            sum_of(node_seq(n), contrib_x(p, gravity, epsilon, scale)),
            sum_of(node_seq(n), contrib_y(p, gravity, epsilon, scale)),
        ),
    decreases n,
{
    let cx = contrib_x(p, gravity, epsilon, scale);
    let cy = contrib_y(p, gravity, epsilon, scale);
    match n {
        QuadNode::Empty => {
            assert(node_seq(n) =~= Seq::<Particle>::empty());
        },
        QuadNode::Leaf(q) => {
            assert(node_seq(n) =~= Seq::<Particle>::empty().push(q));
            lemma_sum_push(Seq::<Particle>::empty(), cx, q);
            lemma_sum_push(Seq::<Particle>::empty(), cy, q);
        },
        QuadNode::Cluster(v) => {
        },
        QuadNode::Internal(t) => {
            lemma_tree_force_zero_angle(*t, p, gravity, epsilon, scale);
        },
    }
}

/// The force of a whole subtree at opening angle zero is the exact
/// pairwise sum over its particles, in traversal order.
proof fn lemma_tree_force_zero_angle(
    t: QuadTree,
    p: Particle,
    gravity: u64,
    epsilon: u64,
    scale: u64,
)
    requires
        tree_wf(t),
    ensures
        tree_force(t, p, gravity, epsilon, scale, 0) == (
            sum_of(tree_seq(t), contrib_x(p, gravity, epsilon, scale)),
            sum_of(tree_seq(t), contrib_y(p, gravity, epsilon, scale)),
        ),
    decreases t,
{
    let cx = contrib_x(p, gravity, epsilon, scale);
    let cy = contrib_y(p, gravity, epsilon, scale);
    assert(expands(t, p, 0)) by {
        let d = dist_floor(
            Vector2 { x: com_x(t) as i64, y: com_y(t) as i64 },
            p.position,
        );
        if d != 0 {
            assert(0 * d == 0) by (nonlinear_arith);
            assert(t.boundary.width * ANGLE_SCALE >= ANGLE_SCALE) by (nonlinear_arith)
                requires
                    t.boundary.width >= 1,
            ;
        }
    }
    lemma_node_force_zero_angle(t.nw, subregion(t.boundary, Quadrant::NW), p, gravity, epsilon, scale);
    lemma_node_force_zero_angle(t.ne, subregion(t.boundary, Quadrant::NE), p, gravity, epsilon, scale);
    lemma_node_force_zero_angle(t.sw, subregion(t.boundary, Quadrant::SW), p, gravity, epsilon, scale);
    lemma_node_force_zero_angle(t.se, subregion(t.boundary, Quadrant::SE), p, gravity, epsilon, scale);
    lemma_sum_concat(node_seq(t.nw), node_seq(t.ne), cx);
    lemma_sum_concat(node_seq(t.nw) + node_seq(t.ne), node_seq(t.sw), cx);
    lemma_sum_concat(node_seq(t.nw) + node_seq(t.ne) + node_seq(t.sw), node_seq(t.se), cx);
    lemma_sum_concat(node_seq(t.nw), node_seq(t.ne), cy);
    lemma_sum_concat(node_seq(t.nw) + node_seq(t.ne), node_seq(t.sw), cy);
    lemma_sum_concat(node_seq(t.nw) + node_seq(t.ne) + node_seq(t.sw), node_seq(t.se), cy);
}

/// At opening angle zero the index's force on a particle equals the
/// exact all-pairs force over any sequence holding the same particles:
/// as the opening angle goes to zero the indexed step does not merely
/// converge to the exact one — in this integer core it reaches it.
pub proof fn lemma_zero_angle_force_exact(
    t: QuadTree,
    p: Particle,
    s: Seq<Particle>,
    gravity: u64,
    epsilon: u64,
    scale: u64,
)
    requires
        tree_wf(t),
        tree_seq(t).to_multiset() == s.to_multiset(),
    ensures
        tree_force(t, p, gravity, epsilon, scale, 0) == (
            sum_of(s, contrib_x(p, gravity, epsilon, scale)),
            sum_of(s, contrib_y(p, gravity, epsilon, scale)),
        ),
{
    lemma_tree_force_zero_angle(t, p, gravity, epsilon, scale);
    lemma_sum_permutation(tree_seq(t), s, contrib_x(p, gravity, epsilon, scale));
    lemma_sum_permutation(tree_seq(t), s, contrib_y(p, gravity, epsilon, scale));
}

/// At opening angle zero the indexed step advances every particle
/// exactly as the exact step does.
pub proof fn lemma_fast_step_matches_exact(
    t: QuadTree,
    p: Particle,
    s: Seq<Particle>,
    gravity: u64,
    epsilon: u64,
    scale: u64,
)
    requires
        tree_wf(t),
        tree_seq(t).to_multiset() == s.to_multiset(),
        p.vel_ok(),
    ensures
        advance_with_tree(p, t, gravity, epsilon, scale, 0) == advance_exact(
            p,
            s,
            gravity,
            epsilon,
            scale,
        ),
{
    lemma_zero_angle_force_exact(t, p, s, gravity, epsilon, scale);
    let f = tree_force(t, p, gravity, epsilon, scale, 0);
    lemma_clamp_compose(p.velocity.x as int, f.0, VEL_LIMIT as int);
    lemma_clamp_compose(p.velocity.y as int, f.1, VEL_LIMIT as int);
}

/// With an opening angle of at least `ANGLE_SCALE` times the root's
/// width, and the subject off the centroid, the whole tree is taken as
/// one aggregate body: the force is a single softened interaction with
/// the root's total mass at the root's center of mass.
pub proof fn lemma_far_angle_single_body(
    t: QuadTree,
    p: Particle,
    gravity: u64,
    epsilon: u64,
    scale: u64,
    opening_angle: u64,
)
    requires
        tree_wf(t),
        opening_angle >= t.boundary.width * ANGLE_SCALE,
        dist_floor(Vector2 { x: com_x(t) as i64, y: com_y(t) as i64 }, p.position) != 0,
    ensures
        tree_force(t, p, gravity, epsilon, scale, opening_angle) == (
            pair_delta_x(p, synthetic_body(t), gravity, epsilon, scale),
            pair_delta_y(p, synthetic_body(t), gravity, epsilon, scale),
        ),
{
    let d = dist_floor(Vector2 { x: com_x(t) as i64, y: com_y(t) as i64 }, p.position);
    assert(opening_angle * d >= opening_angle) by (nonlinear_arith)
        requires
            d >= 1,
            opening_angle >= 0,
    ;
    assert(!expands(t, p, opening_angle));
}

/// A slot holds nothing that routes elsewhere: a particle whose
/// quadrant is not `r` occurs zero times under slot `r`.
proof fn lemma_slot_count_off_route(t: QuadTree, r: Quadrant, x: Particle)
    requires
        tree_wf(t),
        quadrant_of(t.boundary, x.position) != Some(r),
    ensures
        node_seq(slot_of(t, r)).to_multiset().count(x) == 0,
{
    broadcast use vstd::multiset::group_multiset_axioms;
    broadcast use vstd::seq_lib::group_to_multiset_ensures;

    assert(slot_routed(t, r)) by {
        match r {
            Quadrant::NW => {},
            Quadrant::NE => {},
            Quadrant::SW => {},
            Quadrant::SE => {},
        }
    }
    let s = node_seq(slot_of(t, r));
    if s.to_multiset().count(x) > 0 {
        assert(s.contains(x));
        let j = choose|j: int| 0 <= j < s.len() && s[j] == x;
        assert(quadrant_of(t.boundary, s[j].position) == Some(r));
    }
}

/// The whole tree's count of a particle routed to quadrant `q` sits in
/// slot `q`.
proof fn lemma_tree_count_concentrated(t: QuadTree, q: Quadrant, x: Particle)
    requires
        tree_wf(t),
        quadrant_of(t.boundary, x.position) == Some(q),
    ensures
        tree_seq(t).to_multiset().count(x) == node_seq(slot_of(t, q)).to_multiset().count(x),
{
    broadcast use vstd::multiset::group_multiset_axioms;

    lemma_tree_seq_multiset(t);
    if q != Quadrant::NW {
        lemma_slot_count_off_route(t, Quadrant::NW, x);
    }
    if q != Quadrant::NE {
        lemma_slot_count_off_route(t, Quadrant::NE, x);
    }
    if q != Quadrant::SW {
        lemma_slot_count_off_route(t, Quadrant::SW, x);
    }
    if q != Quadrant::SE {
        lemma_slot_count_off_route(t, Quadrant::SE, x);
    }
    match q {
        Quadrant::NW => {},
        Quadrant::NE => {},
        Quadrant::SW => {},
        Quadrant::SE => {},
    }
}

/// Routing determines the slots: two well-formed trees over the same
/// region holding the same particles hold the same particles under
/// each child slot.
proof fn lemma_slot_multisets_determined(t1: QuadTree, t2: QuadTree, q: Quadrant)
    requires
        tree_wf(t1),
        tree_wf(t2),
        t1.boundary == t2.boundary,
        tree_seq(t1).to_multiset() == tree_seq(t2).to_multiset(),
    ensures
        node_seq(slot_of(t1, q)).to_multiset() == node_seq(slot_of(t2, q)).to_multiset(),
{
    broadcast use vstd::multiset::group_multiset_axioms;

    assert forall|x: Particle| #[trigger] node_seq(slot_of(t1, q)).to_multiset().count(x)
        == node_seq(slot_of(t2, q)).to_multiset().count(x) by {
        if quadrant_of(t1.boundary, x.position) == Some(q) {
            lemma_tree_count_concentrated(t1, q, x);
            lemma_tree_count_concentrated(t2, q, x);
        } else {
            lemma_slot_count_off_route(t1, q, x);
            lemma_slot_count_off_route(t2, q, x);
        }
    }
    assert(node_seq(slot_of(t1, q)).to_multiset() =~= node_seq(slot_of(t2, q)).to_multiset());
}

/// Two well-formed slots over the same sub-rectangle holding the same
/// particles contribute the same force: the slot state is forced by
/// the contents, and cluster order cannot matter to a sum.
proof fn lemma_node_force_determined(
    n1: QuadNode,
    n2: QuadNode,
    rect: Rectangle,
    subject: Particle,
    gravity: u64,
    epsilon: u64,
    scale: u64,
    opening_angle: u64,
)
    requires
        node_wf(n1, rect),
        node_wf(n2, rect),
        node_seq(n1).to_multiset() == node_seq(n2).to_multiset(),
    ensures
        node_force(n1, subject, gravity, epsilon, scale, opening_angle) == node_force(
            n2,
            subject,
            gravity,
            epsilon,
            scale,
            opening_angle,
        ),
    decreases n1,
{
    broadcast use vstd::multiset::group_multiset_axioms;
    broadcast use vstd::seq_lib::group_to_multiset_ensures;

    let len = node_seq(n1).len();
    assert(node_seq(n1).len() == node_seq(n1).to_multiset().len());
    assert(node_seq(n2).len() == node_seq(n2).to_multiset().len());
    match n1 {
        QuadNode::Empty => {
            assert(len == 0);
            match n2 {
                QuadNode::Empty => {},
                QuadNode::Leaf(p2) => {
                    assert(node_seq(n2).len() == 1);
                },
                QuadNode::Cluster(v2) => {},
                QuadNode::Internal(t2) => {},
            }
        },
        QuadNode::Leaf(p1) => {
            assert(len == 1);
            match n2 {
                QuadNode::Empty => {},
                QuadNode::Leaf(p2) => {
                    assert(node_seq(n1).to_multiset().count(p1) > 0) by {
                        assert(node_seq(n1).contains(p1)) by {
                            assert(node_seq(n1)[0] == p1);
                        }
                    }
                    assert(node_seq(n2).contains(p1));
                    assert(p1 == p2) by {
                        let j = choose|j: int| 0 <= j < node_seq(n2).len() && node_seq(n2)[j]
                            == p1;
                        assert(node_seq(n2)[j] == p2);
                    }
                },
                QuadNode::Cluster(v2) => {},
                QuadNode::Internal(t2) => {},
            }
        },
        QuadNode::Cluster(v1) => {
            assert(!splittable(rect));
            match n2 {
                QuadNode::Empty => {},
                QuadNode::Leaf(p2) => {},
                QuadNode::Cluster(v2) => {
                    lemma_sum_permutation(
                        v1@,
                        v2@,
                        contrib_x(subject, gravity, epsilon, scale),
                    );
                    lemma_sum_permutation(
                        v1@,
                        v2@,
                        contrib_y(subject, gravity, epsilon, scale),
                    );
                },
                QuadNode::Internal(t2) => {},
            }
        },
        QuadNode::Internal(t1) => {
            assert(splittable(rect));
            match n2 {
                QuadNode::Empty => {},
                QuadNode::Leaf(p2) => {},
                QuadNode::Cluster(v2) => {},
                QuadNode::Internal(t2) => {
                    lemma_tree_force_determined(
                        *t1,
                        *t2,
                        subject,
                        gravity,
                        epsilon,
                        scale,
                        opening_angle,
                    );
                },
            }
        },
    }
}

/// Two well-formed trees over the same region holding the same
/// particles exert the same force on every subject: the index's shape
/// ambiguity — where on a shared slot boundary a tree was allowed to
/// file a particle has been fixed by the routing clause, and slot
/// states are forced by their contents — never reaches the physics.
pub proof fn lemma_tree_force_determined(
    t1: QuadTree,
    t2: QuadTree,
    subject: Particle,
    gravity: u64,
    epsilon: u64,
    scale: u64,
    opening_angle: u64,
)
    requires
        tree_wf(t1),
        tree_wf(t2),
        t1.boundary == t2.boundary,
        tree_seq(t1).to_multiset() == tree_seq(t2).to_multiset(),
    ensures
        tree_force(t1, subject, gravity, epsilon, scale, opening_angle) == tree_force(
            t2,
            subject,
            gravity,
            epsilon,
            scale,
            opening_angle,
        ),
    decreases t1,
{
    lemma_sum_permutation(tree_seq(t1), tree_seq(t2), mass_of());
    lemma_sum_permutation(tree_seq(t1), tree_seq(t2), weighted_x());
    lemma_sum_permutation(tree_seq(t1), tree_seq(t2), weighted_y());
    assert(t1.total_mass == t2.total_mass);
    assert(t1.wsum_x == t2.wsum_x);
    assert(t1.wsum_y == t2.wsum_y);
    assert(expands(t1, subject, opening_angle) == expands(t2, subject, opening_angle));
    if expands(t1, subject, opening_angle) {
        lemma_slot_multisets_determined(t1, t2, Quadrant::NW);
        lemma_slot_multisets_determined(t1, t2, Quadrant::NE);
        lemma_slot_multisets_determined(t1, t2, Quadrant::SW);
        lemma_slot_multisets_determined(t1, t2, Quadrant::SE);
        lemma_node_force_determined(
            t1.nw,
            t2.nw,
            subregion(t1.boundary, Quadrant::NW),
            subject,
            gravity,
            epsilon,
            scale,
            opening_angle,
        );
        lemma_node_force_determined(
            t1.ne,
            t2.ne,
            subregion(t1.boundary, Quadrant::NE),
            subject,
            gravity,
            epsilon,
            scale,
            opening_angle,
        );
        lemma_node_force_determined(
            t1.sw,
            t2.sw,
            subregion(t1.boundary, Quadrant::SW),
            subject,
            gravity,
            epsilon,
            scale,
            opening_angle,
        );
        lemma_node_force_determined(
            t1.se,
            t2.se,
            subregion(t1.boundary, Quadrant::SE),
            subject,
            gravity,
            epsilon,
            scale,
            opening_angle,
        );
    } else {
        assert(synthetic_body(t1) == synthetic_body(t2));
    }
}

/// The indexed step is deterministic: any two well-formed index
/// snapshots over the same region holding exactly the same particles
/// advance a particle identically, so identical inputs give identical
/// outputs — the index consumes no randomness.
pub proof fn lemma_fast_step_deterministic(
    t1: QuadTree,
    t2: QuadTree,
    p: Particle,
    gravity: u64,
    epsilon: u64,
    scale: u64,
    opening_angle: u64,
)
    requires
        tree_wf(t1),
        tree_wf(t2),
        t1.boundary == t2.boundary,
        tree_seq(t1).to_multiset() == tree_seq(t2).to_multiset(),
    ensures
        advance_with_tree(p, t1, gravity, epsilon, scale, opening_angle) == advance_with_tree(
            p,
            t2,
            gravity,
            epsilon,
            scale,
            opening_angle,
        ),
{
    lemma_tree_force_determined(t1, t2, p, gravity, epsilon, scale, opening_angle);
}

} // verus!
