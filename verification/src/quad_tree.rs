use vstd::prelude::*;
use vstd::seq_lib::lemma_multiset_commutative;
use vstd::multiset::Multiset;
use crate::bounds::{MASS_LIMIT, POS_LIMIT};
use crate::particle::Particle;
use crate::quadrant::Quadrant;
use crate::rectangle::Rectangle;
use crate::sums::{
    lemma_sum_bounds, lemma_sum_concat, lemma_sum_permutation, lemma_sum_push, mass_of, sum_of,
    weighted_x, weighted_y,
};
use crate::utils::quadrant_utils::{
    find_quadrant, lemma_quadrant_tiles, lemma_subregion_within, quadrant_of,
    quadrant_to_rectangle, subregion,
};
use crate::vector2::Vector2;

verus! {

/// One child slot of a quad-tree node: empty, a single particle, a
/// bundle of particles in a region too small to subdivide further, or a
/// subdivided subtree.
///
/// `Cluster` is the explicit degenerate-input policy: when two
/// particles fall into a slot whose region cannot be halved again (a
/// side would drop below one unit), they are kept side by side in one
/// aggregate leaf instead of recursing without bound.
pub enum QuadNode {
    Empty,
    Leaf(Particle),
    Cluster(Vec<Particle>),
    Internal(Box<QuadTree>),
}

/// A quad-tree node: the region it covers, the mass aggregates of every
/// particle in its subtree, and its four child slots.
///
/// The center of mass is kept exactly, as the pair of mass-weighted
/// coordinate sums `wsum_x` / `wsum_y`; dividing by `total_mass`
/// recovers the centroid (see `center_of_mass`).
pub struct QuadTree {
    pub boundary: Rectangle,
    pub total_mass: u64,
    pub wsum_x: i128,
    pub wsum_y: i128,
    pub nw: QuadNode,
    pub ne: QuadNode,
    pub sw: QuadNode,
    pub se: QuadNode,
}

/// The particles stored under one child slot, in slot order.
pub open spec fn node_seq(n: QuadNode) -> Seq<Particle>
    decreases n,
{
    match n {
        QuadNode::Empty => Seq::empty(),
        QuadNode::Leaf(p) => seq![p],
        QuadNode::Cluster(v) => v@,
        QuadNode::Internal(t) => tree_seq(*t),
    }
}

/// The particles stored in a subtree, in traversal order
/// (NW, NE, SW, SE).
pub open spec fn tree_seq(t: QuadTree) -> Seq<Particle>
    decreases t,
{
    node_seq(t.nw) + node_seq(t.ne) + node_seq(t.sw) + node_seq(t.se)
}

/// A region can be subdivided when both halves of both sides are still
/// at least one unit long.
pub open spec fn splittable(rect: Rectangle) -> bool {
    rect.width >= 2 && rect.height >= 2
}

/// Well-formedness of one child slot with respect to the sub-rectangle
/// it covers. A slot never holds an avoidable indirection: a cluster or
/// a subtree carries at least two particles, so a slot with none is
/// `Empty` and a slot with one is a `Leaf` — the slot states of a tree
/// are forced by what it holds.
pub open spec fn node_wf(n: QuadNode, rect: Rectangle) -> bool
    decreases n,
{
    match n {
        QuadNode::Empty => true,
        QuadNode::Leaf(p) => {
            &&& rect.wf()
            &&& p.wf()
            &&& rect.contains(p.position)
        },
        QuadNode::Cluster(v) => {
            &&& rect.wf()
            &&& !splittable(rect)
            &&& v@.len() >= 2
            &&& forall|i: int|
                0 <= i < v@.len() ==> (#[trigger] v@[i]).wf() && rect.contains(v@[i].position)
        },
        QuadNode::Internal(t) => {
            &&& t.boundary == rect
            &&& splittable(rect)
            &&& tree_seq(*t).len() >= 2
            &&& tree_wf(*t)
        },
    }
}

/// The child slot of `t` that quadrant `q` names.
pub open spec fn slot_of(t: QuadTree, q: Quadrant) -> QuadNode {
    match q {
        Quadrant::NW => t.nw,
        Quadrant::NE => t.ne,
        Quadrant::SW => t.sw,
        Quadrant::SE => t.se,
    }
}

/// Every particle under the slot routes, at this node's boundary, to
/// the quadrant that names the slot: a slot holds exactly the
/// particles that `quadrant_of` sends to it.
pub open spec fn slot_routed(t: QuadTree, q: Quadrant) -> bool {
    forall|i: int|
        0 <= i < node_seq(slot_of(t, q)).len() ==> quadrant_of(
            t.boundary,
            (#[trigger] node_seq(slot_of(t, q))[i]).position,
        ) == Some(q)
}

/// The invariant of a quad-tree node: its region is usable, its
/// aggregates are exactly the sums over the particles of its subtree,
/// and each child slot is well-formed over the sub-rectangle that its
/// quadrant names.
pub open spec fn tree_wf(t: QuadTree) -> bool
    decreases t,
{
    &&& t.boundary.wf()
    &&& t.total_mass <= MASS_LIMIT
    &&& t.total_mass as int == sum_of(tree_seq(t), mass_of())
    &&& t.wsum_x as int == sum_of(tree_seq(t), weighted_x())
    &&& t.wsum_y as int == sum_of(tree_seq(t), weighted_y())
    &&& -(t.total_mass as int * POS_LIMIT) <= t.wsum_x as int <= t.total_mass as int * POS_LIMIT
    &&& -(t.total_mass as int * POS_LIMIT) <= t.wsum_y as int <= t.total_mass as int * POS_LIMIT
    &&& node_wf(t.nw, subregion(t.boundary, Quadrant::NW))
    &&& node_wf(t.ne, subregion(t.boundary, Quadrant::NE))
    &&& node_wf(t.sw, subregion(t.boundary, Quadrant::SW))
    &&& node_wf(t.se, subregion(t.boundary, Quadrant::SE))
    &&& slot_routed(t, Quadrant::NW)
    &&& slot_routed(t, Quadrant::NE)
    &&& slot_routed(t, Quadrant::SW)
    &&& slot_routed(t, Quadrant::SE)
}

/// The `x` coordinate of the centroid: the weighted sum divided by the
/// total mass, rounding toward negative infinity; zero for an empty
/// tree.
pub open spec fn com_x(t: QuadTree) -> int {
    if t.total_mass == 0 {
        0
    } else {
        t.wsum_x as int / t.total_mass as int
    }
}

/// The `y` coordinate of the centroid.
pub open spec fn com_y(t: QuadTree) -> int {
    if t.total_mass == 0 {
        0
    } else {
        t.wsum_y as int / t.total_mass as int
    }
}

/// The multiset of a subtree's particles splits over the four child
/// slots.
pub proof fn lemma_tree_seq_multiset(t: QuadTree)
    ensures
        tree_seq(t).to_multiset() == node_seq(t.nw).to_multiset().add(
            node_seq(t.ne).to_multiset(),
        ).add(node_seq(t.sw).to_multiset()).add(node_seq(t.se).to_multiset()),
{
    lemma_multiset_commutative(node_seq(t.nw), node_seq(t.ne));
    lemma_multiset_commutative(node_seq(t.nw) + node_seq(t.ne), node_seq(t.sw));
    lemma_multiset_commutative(
        node_seq(t.nw) + node_seq(t.ne) + node_seq(t.sw),
        node_seq(t.se),
    );
}

impl QuadTree {
    /// A fresh, empty index over `boundary`: zero aggregates and all
    /// four child slots empty.
    pub fn new(boundary: Rectangle) -> (t: QuadTree)
        requires
            boundary.wf(),
        ensures
            tree_wf(t),
            t == (QuadTree {
                boundary,
                total_mass: 0u64,
                wsum_x: 0i128,
                wsum_y: 0i128,
                nw: QuadNode::Empty,
                ne: QuadNode::Empty,
                sw: QuadNode::Empty,
                se: QuadNode::Empty,
            }),
            tree_seq(t) == Seq::<Particle>::empty(),
    {
        let t = QuadTree {
            boundary,
            total_mass: 0,
            wsum_x: 0,
            wsum_y: 0,
            nw: QuadNode::Empty,
            ne: QuadNode::Empty,
            sw: QuadNode::Empty,
            se: QuadNode::Empty,
        };
        proof {
            assert(tree_seq(t) =~= Seq::<Particle>::empty());
        }
        t
    }

    /// The mass-weighted average position of the particles in the
    /// subtree, each coordinate rounded toward negative infinity; the
    /// origin while the tree is empty.
    pub fn center_of_mass(&self) -> (c: Vector2)
        requires
            tree_wf(*self),
        ensures
            c.x == com_x(*self),
            c.y == com_y(*self),
            -POS_LIMIT <= c.x <= POS_LIMIT,
            -POS_LIMIT <= c.y <= POS_LIMIT,
    {
        if self.total_mass == 0 {
            Vector2 { x: 0, y: 0 }
        } else {
            proof {
                crate::int_math::lemma_div_mul_range(
                    self.wsum_x as int,
                    self.total_mass as int,
                    POS_LIMIT as int,
                );
                crate::int_math::lemma_div_mul_range(
                    self.wsum_y as int,
                    self.total_mass as int,
                    POS_LIMIT as int,
                );
                assert(self.total_mass as int * POS_LIMIT as int
                    <= 0x100_0000_0000int * 0x4000_0000int) by (nonlinear_arith)
                    requires
                        0 <= self.total_mass <= 0x100_0000_0000,
                ;
            }
            let cx = crate::int_math::div_floor_i128(self.wsum_x, self.total_mass);
            let cy = crate::int_math::div_floor_i128(self.wsum_y, self.total_mass);
            Vector2 { x: cx as i64, y: cy as i64 }
        }
    }

    /// Insert one particle. The caller routes only particles whose
    /// position lies within the tree's region (the step driver checks
    /// and reports the others); every aggregate on the path from the
    /// root to the particle's slot is updated, and exactly the slot of
    /// the particle's quadrant changes, following the slot state
    /// machine: an empty slot becomes the particle's leaf, a leaf slot
    /// subdivides (or, at minimal region size, becomes an aggregate
    /// cluster), a cluster grows, and a subdivided slot stays
    /// subdivided with the particle delegated into it — no slot ever
    /// reverts.
    pub fn insert(&mut self, particle: Particle)
        requires
            tree_wf(*old(self)),
            particle.wf(),
            old(self).boundary.contains(particle.position),
            old(self).total_mass + particle.mass <= MASS_LIMIT,
        ensures
            tree_wf(*final(self)),
            final(self).boundary == old(self).boundary,
            final(self).total_mass == old(self).total_mass + particle.mass,
            final(self).wsum_x == old(self).wsum_x + particle.mass * particle.position.x,
            final(self).wsum_y == old(self).wsum_y + particle.mass * particle.position.y,
            tree_seq(*final(self)).to_multiset() == tree_seq(*old(self)).to_multiset().insert(
                particle,
            ),
            ({
                let q = quadrant_of(old(self).boundary, particle.position)->Some_0;
                let before = slot_of(*old(self), q);
                let after = slot_of(*final(self), q);
                &&& (forall|r: Quadrant|
                    r != q ==> slot_of(*final(self), r) == slot_of(*old(self), r))
                &&& node_seq(after).to_multiset() == node_seq(before).to_multiset().insert(
                    particle,
                )
                &&& (before is Empty ==> after == QuadNode::Leaf(particle))
                &&& (before matches QuadNode::Leaf(e) ==> (if splittable(
                    subregion(old(self).boundary, q),
                ) {
                    after is Internal
                } else {
                    after matches QuadNode::Cluster(w) && w@ == seq![e, particle]
                }))
                &&& (before matches QuadNode::Cluster(v) ==> (after matches QuadNode::Cluster(w)
                    && w@ == v@.push(particle)))
                &&& (before is Internal ==> after is Internal)
            }),
        decreases old(self).boundary.width + old(self).boundary.height, 1int,
    {
        proof {
            lemma_wsum_band_step(
                old(self).wsum_x as int,
                old(self).total_mass as int,
                particle.mass as int,
                particle.position.x as int,
            );
            lemma_wsum_band_step(
                old(self).wsum_y as int,
                old(self).total_mass as int,
                particle.mass as int,
                particle.position.y as int,
            );
        }
        self.total_mass = self.total_mass + particle.mass;
        self.wsum_x = self.wsum_x + (particle.mass as i128) * (particle.position.x as i128);
        self.wsum_y = self.wsum_y + (particle.mass as i128) * (particle.position.y as i128);
        let q_opt = find_quadrant(&self.boundary, &particle.position);
        let q = match q_opt {
            Some(q) => q,
            None => unreached(),
        };
        proof {
            lemma_quadrant_tiles(self.boundary, particle.position);
            lemma_slot_mass_budget(*old(self), q);
        }
        let rect = quadrant_to_rectangle(&self.boundary, &q);
        let ghost prev = *self;
        let ghost span = self.boundary.width + self.boundary.height as int;
        match q {
            Quadrant::NW => insert_into_slot(&mut self.nw, rect, particle, Ghost(span)),
            Quadrant::NE => insert_into_slot(&mut self.ne, rect, particle, Ghost(span)),
            Quadrant::SW => insert_into_slot(&mut self.sw, rect, particle, Ghost(span)),
            Quadrant::SE => insert_into_slot(&mut self.se, rect, particle, Ghost(span)),
        }
        proof {
            lemma_insert_reassemble(*old(self), prev, *self, particle, q);
        }
    }
}

/// After the selected slot has absorbed the particle, the whole tree's
/// particle multiset, aggregate sums and well-formedness follow.
/// `before` is the tree after the aggregate update but before the slot
/// update, `after` the finished tree.
proof fn lemma_insert_reassemble(
    orig: QuadTree,
    before: QuadTree,
    after: QuadTree,
    particle: Particle,
    q: Quadrant,
)
    requires
        tree_wf(orig),
        particle.wf(),
        orig.boundary.contains(particle.position),
        orig.total_mass + particle.mass <= MASS_LIMIT,
        quadrant_of(orig.boundary, particle.position) == Some(q),
        before.boundary == orig.boundary,
        before.total_mass == orig.total_mass + particle.mass,
        before.wsum_x == orig.wsum_x + particle.mass * particle.position.x,
        before.wsum_y == orig.wsum_y + particle.mass * particle.position.y,
        before.nw == orig.nw,
        before.ne == orig.ne,
        before.sw == orig.sw,
        before.se == orig.se,
        after.boundary == before.boundary,
        after.total_mass == before.total_mass,
        after.wsum_x == before.wsum_x,
        after.wsum_y == before.wsum_y,
        -(before.total_mass as int * POS_LIMIT) <= before.wsum_x as int
            <= before.total_mass as int * POS_LIMIT,
        -(before.total_mass as int * POS_LIMIT) <= before.wsum_y as int
            <= before.total_mass as int * POS_LIMIT,
        node_wf(slot_of(after, q), subregion(orig.boundary, q)),
        node_seq(slot_of(after, q)).to_multiset() == node_seq(slot_of(orig, q)).to_multiset()
            .insert(particle),
        forall|r: Quadrant| r != q ==> slot_of(after, r) == slot_of(orig, r),
    ensures
        tree_wf(after),
        tree_seq(after).to_multiset() == tree_seq(orig).to_multiset().insert(particle),
{
    broadcast use vstd::multiset::group_multiset_axioms;

    lemma_tree_seq_multiset(orig);
    lemma_tree_seq_multiset(after);
    assert(slot_of(after, Quadrant::NW) == after.nw);
    assert(slot_of(orig, Quadrant::NW) == orig.nw);
    assert(slot_of(after, Quadrant::NE) == after.ne);
    assert(slot_of(orig, Quadrant::NE) == orig.ne);
    assert(slot_of(after, Quadrant::SW) == after.sw);
    assert(slot_of(orig, Quadrant::SW) == orig.sw);
    assert(slot_of(after, Quadrant::SE) == after.se);
    assert(slot_of(orig, Quadrant::SE) == orig.se);
    assert(tree_seq(after).to_multiset() =~= tree_seq(orig).to_multiset().insert(particle));

    // The aggregate clauses: sums respect the multiset, and the new
    // multiset is that of the old sequence with the particle appended.
    let oldseq = tree_seq(orig);
    let newseq = tree_seq(after);
    vstd::seq_lib::to_multiset_build(oldseq, particle);
    lemma_sum_permutation(newseq, oldseq.push(particle), mass_of());
    lemma_sum_permutation(newseq, oldseq.push(particle), weighted_x());
    lemma_sum_permutation(newseq, oldseq.push(particle), weighted_y());
    lemma_sum_push(oldseq, mass_of(), particle);
    lemma_sum_push(oldseq, weighted_x(), particle);
    lemma_sum_push(oldseq, weighted_y(), particle);
    assert(mass_of()(particle) == particle.mass as int);
    assert(weighted_x()(particle) == particle.mass * particle.position.x);
    assert(weighted_y()(particle) == particle.mass * particle.position.y);

    // Routing: the absorbed particle routes to the touched slot's own
    // quadrant, the other slots are untouched.
    assert(slot_routed(after, q)) by {
        assert(slot_routed(orig, q)) by {
            match q {
                Quadrant::NW => {},
                Quadrant::NE => {},
                Quadrant::SW => {},
                Quadrant::SE => {},
            }
        }
        lemma_routing_preserved(
            node_seq(slot_of(orig, q)),
            node_seq(slot_of(after, q)),
            particle,
            orig.boundary,
            q,
        );
    }
    assert forall|r: Quadrant| r != q implies slot_routed(after, r) by {
        assert(slot_routed(orig, r)) by {
            match r {
                Quadrant::NW => {},
                Quadrant::NE => {},
                Quadrant::SW => {},
                Quadrant::SE => {},
            }
        }
        assert(slot_of(after, r) == slot_of(orig, r));
    }
    assert(slot_routed(after, Quadrant::NW) && slot_routed(after, Quadrant::NE) && slot_routed(
        after,
        Quadrant::SW,
    ) && slot_routed(after, Quadrant::SE));
}

/// Absorbing one particle that routes to a slot's own quadrant keeps
/// every particle of the slot routed there, whatever order the slot's
/// sequence takes.
proof fn lemma_routing_preserved(
    olds: Seq<Particle>,
    news: Seq<Particle>,
    p: Particle,
    boundary: Rectangle,
    q: Quadrant,
)
    requires
        news.to_multiset() == olds.to_multiset().insert(p),
        quadrant_of(boundary, p.position) == Some(q),
        forall|i: int|
            0 <= i < olds.len() ==> quadrant_of(boundary, (#[trigger] olds[i]).position) == Some(
                q,
            ),
    ensures
        forall|i: int|
            0 <= i < news.len() ==> quadrant_of(boundary, (#[trigger] news[i]).position) == Some(
                q,
            ),
{
    broadcast use vstd::multiset::group_multiset_axioms;
    broadcast use vstd::seq_lib::group_to_multiset_ensures;

    assert forall|i: int|
        0 <= i < news.len() implies quadrant_of(boundary, (#[trigger] news[i]).position) == Some(
        q,
    ) by {
        let x = news[i];
        assert(news.contains(x));
        assert(news.to_multiset().count(x) > 0);
        if x != p {
            vstd::multiset::lemma_insert_other_elements_unchanged(olds.to_multiset(), p, x);
            assert(olds.to_multiset().count(x) > 0);
            assert(olds.contains(x));
            let j = choose|j: int| 0 <= j < olds.len() && olds[j] == x;
            assert(quadrant_of(boundary, olds[j].position) == Some(q));
        }
    }
}

/// The synthetic single body that stands in for a whole subtree when
/// the opening-angle criterion allows the approximation: all of the
/// subtree's mass, placed at its center of mass.
pub open spec fn synthetic_body(t: QuadTree) -> Particle {
    Particle {
        id: 0,
        mass: t.total_mass,
        diameter: 0,
        position: Vector2 { x: com_x(t) as i64, y: com_y(t) as i64 },
        velocity: Vector2 { x: 0, y: 0 },
        color: crate::particle::Color { red: 0, green: 0, blue: 0 },
    }
}

/// The opening-angle criterion: a subtree is expanded (its children
/// are visited one by one) when the subject sits on the centroid, or
/// when the region is too large relative to its distance — that is,
/// when `width / distance` exceeds the configured angle, compared in
/// thousandths without division. Otherwise the subtree is approximated
/// by its synthetic body.
pub open spec fn expands(t: QuadTree, subject: Particle, opening_angle: u64) -> bool {
    let d = crate::vector2::dist_floor(
        Vector2 { x: com_x(t) as i64, y: com_y(t) as i64 },
        subject.position,
    );
    d == 0 || t.boundary.width * crate::bounds::ANGLE_SCALE > opening_angle * d
}

/// The force that one child slot contributes to `subject`: nothing from
/// an empty slot, the pairwise softened force from a leaf or from each
/// member of a cluster (own id excluded), and the subtree's force from
/// an internal slot.
pub open spec fn node_force(
    n: QuadNode,
    subject: Particle,
    gravity: u64,
    epsilon: u64,
    scale: u64,
    opening_angle: u64,
) -> (int, int)
    decreases n,
{
    match n {
        QuadNode::Empty => (0, 0),
        QuadNode::Leaf(p) => (
            crate::sums::contrib_x(subject, gravity, epsilon, scale)(p),
            crate::sums::contrib_y(subject, gravity, epsilon, scale)(p),
        ),
        QuadNode::Cluster(v) => (
            sum_of(v@, crate::sums::contrib_x(subject, gravity, epsilon, scale)),
            sum_of(v@, crate::sums::contrib_y(subject, gravity, epsilon, scale)),
        ),
        QuadNode::Internal(t) => tree_force(*t, subject, gravity, epsilon, scale, opening_angle),
    }
}

/// The velocity increment that the whole subtree contributes to
/// `subject` under the opening-angle approximation: either the sum over
/// the four child slots, or one pairwise force against the synthetic
/// body. This recursion is the reference meaning of `compute_force`.
pub open spec fn tree_force(
    t: QuadTree,
    subject: Particle,
    gravity: u64,
    epsilon: u64,
    scale: u64,
    opening_angle: u64,
) -> (int, int)
    decreases t,
{
    if expands(t, subject, opening_angle) {
        let fnw = node_force(t.nw, subject, gravity, epsilon, scale, opening_angle);
        let fne = node_force(t.ne, subject, gravity, epsilon, scale, opening_angle);
        let fsw = node_force(t.sw, subject, gravity, epsilon, scale, opening_angle);
        let fse = node_force(t.se, subject, gravity, epsilon, scale, opening_angle);
        (fnw.0 + fne.0 + fsw.0 + fse.0, fnw.1 + fne.1 + fsw.1 + fse.1)
    } else {
        (
            crate::utils::calculation_utils::pair_delta_x(
                subject,
                synthetic_body(t),
                gravity,
                epsilon,
                scale,
            ),
            crate::utils::calculation_utils::pair_delta_y(
                subject,
                synthetic_body(t),
                gravity,
                epsilon,
                scale,
            ),
        )
    }
}

/// Bounds on the subject and the physics parameters under which the
/// force traversal's arithmetic is exact.
pub open spec fn query_ok(subject: Particle, gravity: u64, epsilon: u64, scale: u64) -> bool {
    &&& -POS_LIMIT <= subject.position.x <= POS_LIMIT
    &&& -POS_LIMIT <= subject.position.y <= POS_LIMIT
    &&& gravity <= crate::bounds::PARAM_LIMIT
    &&& epsilon <= crate::bounds::PARAM_LIMIT
    &&& scale <= crate::bounds::PARAM_LIMIT
}

/// Every particle under a well-formed child slot is itself well-formed
/// and lies within the slot's rectangle.
proof fn lemma_node_particles_wf(n: QuadNode, rect: Rectangle)
    requires
        node_wf(n, rect),
    ensures
        forall|i: int|
            0 <= i < node_seq(n).len() ==> (#[trigger] node_seq(n)[i]).wf() && rect.contains(
                node_seq(n)[i].position,
            ),
    decreases n,
{
    match n {
        QuadNode::Empty => {
        },
        QuadNode::Leaf(p) => {
        },
        QuadNode::Cluster(v) => {
        },
        QuadNode::Internal(t) => {
            lemma_tree_particles_wf(*t);
        },
    }
}

/// Every particle of a well-formed tree is well-formed and lies within
/// the tree's region.
proof fn lemma_tree_particles_wf(t: QuadTree)
    requires
        tree_wf(t),
    ensures
        forall|i: int|
            0 <= i < tree_seq(t).len() ==> (#[trigger] tree_seq(t)[i]).wf()
                && t.boundary.contains(tree_seq(t)[i].position),
    decreases t,
{
    lemma_node_particles_wf(t.nw, subregion(t.boundary, Quadrant::NW));
    lemma_node_particles_wf(t.ne, subregion(t.boundary, Quadrant::NE));
    lemma_node_particles_wf(t.sw, subregion(t.boundary, Quadrant::SW));
    lemma_node_particles_wf(t.se, subregion(t.boundary, Quadrant::SE));
    let a = node_seq(t.nw);
    let b = node_seq(t.ne);
    let c = node_seq(t.sw);
    let d = node_seq(t.se);
    assert forall|i: int| 0 <= i < tree_seq(t).len() implies (#[trigger] tree_seq(t)[i]).wf()
        && t.boundary.contains(tree_seq(t)[i].position) by {
        let p = tree_seq(t)[i];
        if i < a.len() {
            assert(p == a[i]);
            lemma_subregion_within(t.boundary, Quadrant::NW, p.position);
        } else if i < a.len() + b.len() {
            assert(p == b[i - a.len()]);
            lemma_subregion_within(t.boundary, Quadrant::NE, p.position);
        } else if i < a.len() + b.len() + c.len() {
            assert(p == c[i - a.len() - b.len()]);
            lemma_subregion_within(t.boundary, Quadrant::SW, p.position);
        } else {
            assert(p == d[i - a.len() - b.len() - c.len()]);
            lemma_subregion_within(t.boundary, Quadrant::SE, p.position);
        }
    }
}

/// A well-formed tree holds no more particles than its total mass:
/// every mass is at least one unit.
proof fn lemma_tree_len_le_mass(t: QuadTree)
    requires
        tree_wf(t),
    ensures
        tree_seq(t).len() <= t.total_mass,
{
    lemma_tree_particles_wf(t);
    lemma_sum_bounds(tree_seq(t), mass_of(), 1, MASS_LIMIT as int);
    assert(tree_seq(t).len() * 1 == tree_seq(t).len()) by (nonlinear_arith);
}

/// The force a child slot contributes is bounded by the saturation
/// band times the number of particles under the slot.
proof fn lemma_node_force_bound(
    n: QuadNode,
    rect: Rectangle,
    subject: Particle,
    gravity: u64,
    epsilon: u64,
    scale: u64,
    opening_angle: u64,
)
    requires
        node_wf(n, rect),
    ensures
        -(node_seq(n).len() * crate::bounds::DELTA_LIMIT)
            <= node_force(n, subject, gravity, epsilon, scale, opening_angle).0
            <= node_seq(n).len() * crate::bounds::DELTA_LIMIT,
        -(node_seq(n).len() * crate::bounds::DELTA_LIMIT)
            <= node_force(n, subject, gravity, epsilon, scale, opening_angle).1
            <= node_seq(n).len() * crate::bounds::DELTA_LIMIT,
    decreases n,
{
    let dl = crate::bounds::DELTA_LIMIT as int;
    match n {
        QuadNode::Empty => {
        },
        QuadNode::Leaf(p) => {
            crate::utils::calculation_utils::lemma_pair_delta_bounds(
                subject,
                p,
                gravity,
                epsilon,
                scale,
            );
        },
        QuadNode::Cluster(v) => {
            assert forall|i: int| 0 <= i < v@.len() implies -dl <= #[trigger] crate::sums::contrib_x(
                subject,
                gravity,
                epsilon,
                scale,
            )(v@[i]) <= dl by {
                crate::utils::calculation_utils::lemma_pair_delta_bounds(
                    subject,
                    v@[i],
                    gravity,
                    epsilon,
                    scale,
                );
            }
            assert forall|i: int| 0 <= i < v@.len() implies -dl <= #[trigger] crate::sums::contrib_y(
                subject,
                gravity,
                epsilon,
                scale,
            )(v@[i]) <= dl by {
                crate::utils::calculation_utils::lemma_pair_delta_bounds(
                    subject,
                    v@[i],
                    gravity,
                    epsilon,
                    scale,
                );
            }
            lemma_sum_bounds(v@, crate::sums::contrib_x(subject, gravity, epsilon, scale), -dl, dl);
            lemma_sum_bounds(v@, crate::sums::contrib_y(subject, gravity, epsilon, scale), -dl, dl);
            assert(v@.len() * (-dl) == -(v@.len() * dl)) by (nonlinear_arith);
        },
        QuadNode::Internal(t) => {
            lemma_tree_force_bound(*t, subject, gravity, epsilon, scale, opening_angle);
        },
    }
}

/// The force a subtree contributes is bounded by the saturation band
/// times the number of particles in it.
proof fn lemma_tree_force_bound(
    t: QuadTree,
    subject: Particle,
    gravity: u64,
    epsilon: u64,
    scale: u64,
    opening_angle: u64,
)
    requires
        tree_wf(t),
    ensures
        -(tree_seq(t).len() * crate::bounds::DELTA_LIMIT)
            <= tree_force(t, subject, gravity, epsilon, scale, opening_angle).0
            <= tree_seq(t).len() * crate::bounds::DELTA_LIMIT,
        -(tree_seq(t).len() * crate::bounds::DELTA_LIMIT)
            <= tree_force(t, subject, gravity, epsilon, scale, opening_angle).1
            <= tree_seq(t).len() * crate::bounds::DELTA_LIMIT,
    decreases t,
{
    let dl = crate::bounds::DELTA_LIMIT as int;
    let len = tree_seq(t).len() as int;
    if expands(t, subject, opening_angle) {
        lemma_node_force_bound(
            t.nw,
            subregion(t.boundary, Quadrant::NW),
            subject,
            gravity,
            epsilon,
            scale,
            opening_angle,
        );
        lemma_node_force_bound(
            t.ne,
            subregion(t.boundary, Quadrant::NE),
            subject,
            gravity,
            epsilon,
            scale,
            opening_angle,
        );
        lemma_node_force_bound(
            t.sw,
            subregion(t.boundary, Quadrant::SW),
            subject,
            gravity,
            epsilon,
            scale,
            opening_angle,
        );
        lemma_node_force_bound(
            t.se,
            subregion(t.boundary, Quadrant::SE),
            subject,
            gravity,
            epsilon,
            scale,
            opening_angle,
        );
        assert(len == node_seq(t.nw).len() + node_seq(t.ne).len() + node_seq(t.sw).len()
            + node_seq(t.se).len());
    } else {
        crate::utils::calculation_utils::lemma_pair_delta_bounds(
            subject,
            synthetic_body(t),
            gravity,
            epsilon,
            scale,
        );
        if tree_seq(t).len() == 0 {
            assert(tree_seq(t) =~= Seq::<Particle>::empty());
            assert(t.total_mass == 0);
            crate::utils::calculation_utils::lemma_pair_delta_zero_mass(
                subject,
                synthetic_body(t),
                gravity,
                epsilon,
                scale,
            );
        } else {
            assert(dl <= len * dl) by (nonlinear_arith)
                requires
                    1 <= len,
                    0 < dl,
            ;
        }
    }
}

/// The force that one child slot exerts on `subject`, accumulated
/// exactly in 128 bits. `rect` is the sub-rectangle the slot covers.
fn node_force_acc(
    node: &QuadNode,
    rect: Ghost<Rectangle>,
    subject: &Particle,
    gravity: u64,
    epsilon: u64,
    scale: u64,
    opening_angle: u64,
) -> (f: (i128, i128))
    requires
        node_wf(*node, rect@),
        query_ok(*subject, gravity, epsilon, scale),
    ensures
        f.0 == node_force(*node, *subject, gravity, epsilon, scale, opening_angle).0,
        f.1 == node_force(*node, *subject, gravity, epsilon, scale, opening_angle).1,
    decreases *node,
{
    match node {
        QuadNode::Empty => (0, 0),
        QuadNode::Leaf(p) => {
            if p.id == subject.id {
                (0, 0)
            } else {
                let w = crate::utils::calculation_utils::softened_gravitational_force(
                    subject,
                    p,
                    gravity,
                    epsilon,
                    scale,
                );
                (w.x as i128, w.y as i128)
            }
        },
        QuadNode::Cluster(v) => {
            let cx = Ghost(crate::sums::contrib_x(*subject, gravity, epsilon, scale));
            let cy = Ghost(crate::sums::contrib_y(*subject, gravity, epsilon, scale));
            let dl = crate::bounds::DELTA_LIMIT;
            let mut fx: i128 = 0;
            let mut fy: i128 = 0;
            proof {
                assert(node_wf(*node, rect@));
            }
            let mut i: usize = 0;
            while i < v.len()
                invariant
                    i <= v.len(),
                    query_ok(*subject, gravity, epsilon, scale),
                    rect@.wf(),
                    forall|j: int|
                        0 <= j < v@.len() ==> (#[trigger] v@[j]).wf() && rect@.contains(
                            v@[j].position,
                        ),
                    cx@ == crate::sums::contrib_x(*subject, gravity, epsilon, scale),
                    cy@ == crate::sums::contrib_y(*subject, gravity, epsilon, scale),
                    dl == crate::bounds::DELTA_LIMIT,
                    fx == sum_of(v@.subrange(0, i as int), cx@),
                    fy == sum_of(v@.subrange(0, i as int), cy@),
                    -(i as int * dl) <= fx <= i as int * dl,
                    -(i as int * dl) <= fy <= i as int * dl,
                decreases v.len() - i,
            {
                proof {
                    assert(v@[i as int].wf() && rect@.contains(v@[i as int].position));
                    crate::sums::lemma_sum_prefix_step(v@, cx@, i as int);
                    crate::sums::lemma_sum_prefix_step(v@, cy@, i as int);
                    crate::utils::calculation_utils::lemma_pair_delta_bounds(
                        *subject,
                        v@[i as int],
                        gravity,
                        epsilon,
                        scale,
                    );
                    assert((i + 1) as int * dl == i as int * dl + dl) by (nonlinear_arith);
                }
                let p = &v[i];
                if p.id != subject.id {
                    let w = crate::utils::calculation_utils::softened_gravitational_force(
                        subject,
                        p,
                        gravity,
                        epsilon,
                        scale,
                    );
                    fx = fx + w.x as i128;
                    fy = fy + w.y as i128;
                }
                i = i + 1;
            }
            proof {
                crate::sums::lemma_sum_full_prefix(v@, cx@);
                crate::sums::lemma_sum_full_prefix(v@, cy@);
            }
            (fx, fy)
        },
        QuadNode::Internal(t) => tree_force_acc(t, subject, gravity, epsilon, scale, opening_angle),
    }
}

/// The force the whole subtree exerts on `subject`, accumulated
/// exactly in 128 bits; the recursion mirrors `tree_force`.
fn tree_force_acc(
    t: &QuadTree,
    subject: &Particle,
    gravity: u64,
    epsilon: u64,
    scale: u64,
    opening_angle: u64,
) -> (f: (i128, i128))
    requires
        tree_wf(*t),
        query_ok(*subject, gravity, epsilon, scale),
    ensures
        f.0 == tree_force(*t, *subject, gravity, epsilon, scale, opening_angle).0,
        f.1 == tree_force(*t, *subject, gravity, epsilon, scale, opening_angle).1,
    decreases *t,
{
    let cm = t.center_of_mass();
    let dx = cm.x - subject.position.x;
    let dy = cm.y - subject.position.y;
    proof {
        crate::vector2::lemma_norm_sq_bound(dx as int, dy as int);
    }
    let d2 = ((dx as i128) * (dx as i128) + (dy as i128) * (dy as i128)) as u64;
    let d = crate::int_math::isqrt(d2);
    proof {
        crate::int_math::lemma_u64_mul_fits(t.boundary.width as int, crate::bounds::ANGLE_SCALE as int);
        crate::int_math::lemma_u64_mul_fits(opening_angle as int, d as int);
        assert(Vector2 { x: com_x(*t) as i64, y: com_y(*t) as i64 } == cm);
    }
    let expand = d == 0 || (t.boundary.width as u128) * (crate::bounds::ANGLE_SCALE as u128)
        > (opening_angle as u128) * (d as u128);
    if expand {
        proof {
            lemma_node_force_bound(
                t.nw,
                subregion(t.boundary, Quadrant::NW),
                *subject,
                gravity,
                epsilon,
                scale,
                opening_angle,
            );
            lemma_node_force_bound(
                t.ne,
                subregion(t.boundary, Quadrant::NE),
                *subject,
                gravity,
                epsilon,
                scale,
                opening_angle,
            );
            lemma_node_force_bound(
                t.sw,
                subregion(t.boundary, Quadrant::SW),
                *subject,
                gravity,
                epsilon,
                scale,
                opening_angle,
            );
            lemma_node_force_bound(
                t.se,
                subregion(t.boundary, Quadrant::SE),
                *subject,
                gravity,
                epsilon,
                scale,
                opening_angle,
            );
        }
        let f1 = node_force_acc(
            &t.nw,
            Ghost(subregion(t.boundary, Quadrant::NW)),
            subject,
            gravity,
            epsilon,
            scale,
            opening_angle,
        );
        let f2 = node_force_acc(
            &t.ne,
            Ghost(subregion(t.boundary, Quadrant::NE)),
            subject,
            gravity,
            epsilon,
            scale,
            opening_angle,
        );
        let f3 = node_force_acc(
            &t.sw,
            Ghost(subregion(t.boundary, Quadrant::SW)),
            subject,
            gravity,
            epsilon,
            scale,
            opening_angle,
        );
        let f4 = node_force_acc(
            &t.se,
            Ghost(subregion(t.boundary, Quadrant::SE)),
            subject,
            gravity,
            epsilon,
            scale,
            opening_angle,
        );
        proof {
            lemma_tree_len_le_mass(*t);
            assert(tree_seq(*t).len() == node_seq(t.nw).len() + node_seq(t.ne).len()
                + node_seq(t.sw).len() + node_seq(t.se).len());
        }
        (f1.0 + f2.0 + f3.0 + f4.0, f1.1 + f2.1 + f3.1 + f4.1)
    } else {
        let body = Particle {
            id: 0,
            mass: t.total_mass,
            diameter: 0,
            position: cm,
            velocity: Vector2 { x: 0, y: 0 },
            color: crate::particle::Color { red: 0, green: 0, blue: 0 },
        };
        proof {
            assert(body == synthetic_body(*t));
        }
        let w = crate::utils::calculation_utils::softened_gravitational_force(
            subject,
            &body,
            gravity,
            epsilon,
            scale,
        );
        (w.x as i128, w.y as i128)
    }
}

impl QuadTree {
    /// Accumulate into `vector` the velocity increment that the index
    /// contributes to `particle`, following the opening-angle
    /// approximation; the added total is saturated to the
    /// `FORCE_CLAMP` band, which the step driver's final velocity
    /// saturation absorbs exactly.
    pub fn compute_force(
        &self,
        particle: &Particle,
        gravity: u64,
        epsilon: u64,
        scale: u64,
        opening_angle: u64,
        vector: &mut Vector2,
    )
        requires
            tree_wf(*self),
            query_ok(*particle, gravity, epsilon, scale),
            -crate::bounds::VEL_LIMIT <= old(vector).x <= crate::bounds::VEL_LIMIT,
            -crate::bounds::VEL_LIMIT <= old(vector).y <= crate::bounds::VEL_LIMIT,
        ensures
            final(vector).x == old(vector).x + crate::int_math::clamp(
                tree_force(*self, *particle, gravity, epsilon, scale, opening_angle).0,
                crate::bounds::FORCE_CLAMP as int,
            ),
            final(vector).y == old(vector).y + crate::int_math::clamp(
                tree_force(*self, *particle, gravity, epsilon, scale, opening_angle).1,
                crate::bounds::FORCE_CLAMP as int,
            ),
    {
        let f = tree_force_acc(self, particle, gravity, epsilon, scale, opening_angle);
        let fx = crate::int_math::clamp_i128(f.0, crate::bounds::FORCE_CLAMP);
        let fy = crate::int_math::clamp_i128(f.1, crate::bounds::FORCE_CLAMP);
        vector.x = vector.x + fx;
        vector.y = vector.y + fy;
    }
}

/// The mass sum of one child slot is non-negative.
proof fn lemma_node_mass_sum_nonneg(n: QuadNode, rect: Rectangle)
    requires
        node_wf(n, rect),
    ensures
        0 <= sum_of(node_seq(n), mass_of()),
{
    match n {
        QuadNode::Empty => {
        },
        QuadNode::Leaf(p) => {
            lemma_sum_push(Seq::<Particle>::empty(), mass_of(), p);
            assert(node_seq(n) =~= Seq::<Particle>::empty().push(p));
        },
        QuadNode::Cluster(v) => {
            lemma_sum_bounds(v@, mass_of(), 0, MASS_LIMIT as int);
            assert(v@.len() * 0 == 0) by (nonlinear_arith);
        },
        QuadNode::Internal(t) => {
        },
    }
}

/// The particles of one child slot weigh no more than the whole node.
proof fn lemma_slot_mass_budget(t: QuadTree, q: Quadrant)
    requires
        tree_wf(t),
    ensures
        sum_of(node_seq(slot_of(t, q)), mass_of()) <= t.total_mass,
{
    lemma_sum_concat(node_seq(t.nw), node_seq(t.ne), mass_of());
    lemma_sum_concat(node_seq(t.nw) + node_seq(t.ne), node_seq(t.sw), mass_of());
    lemma_sum_concat(
        node_seq(t.nw) + node_seq(t.ne) + node_seq(t.sw),
        node_seq(t.se),
        mass_of(),
    );
    lemma_node_mass_sum_nonneg(t.nw, subregion(t.boundary, Quadrant::NW));
    lemma_node_mass_sum_nonneg(t.ne, subregion(t.boundary, Quadrant::NE));
    lemma_node_mass_sum_nonneg(t.sw, subregion(t.boundary, Quadrant::SW));
    lemma_node_mass_sum_nonneg(t.se, subregion(t.boundary, Quadrant::SE));
}

/// The weighted-sum band survives adding one particle.
proof fn lemma_wsum_band_step(wsum: int, total: int, m: int, x: int)
    requires
        -(total * POS_LIMIT) <= wsum <= total * POS_LIMIT,
        1 <= m,
        -POS_LIMIT <= x <= POS_LIMIT,
        0 <= total,
    ensures
        -((total + m) * POS_LIMIT) <= wsum + m * x <= (total + m) * POS_LIMIT,
{
    assert(-(m * POS_LIMIT) <= m * x <= m * POS_LIMIT) by (nonlinear_arith)
        requires
            1 <= m,
            -POS_LIMIT <= x <= POS_LIMIT,
    ;
    assert((total + m) * POS_LIMIT == total * POS_LIMIT + m * POS_LIMIT) by (nonlinear_arith);
}

/// Insert `particle` into one child slot covering `rect`. `span` is the
/// perimeter measure of the parent's region; the slot's region never
/// exceeds it, and is strictly below it whenever the slot can hold a
/// subtree, which bounds the recursion.
fn insert_into_slot(node: &mut QuadNode, rect: Rectangle, particle: Particle, span: Ghost<int>)
    requires
        rect.wf(),
        node_wf(*old(node), rect),
        rect.contains(particle.position),
        particle.wf(),
        sum_of(node_seq(*old(node)), mass_of()) + particle.mass <= MASS_LIMIT,
        rect.width + rect.height <= span@,
        splittable(rect) ==> rect.width + rect.height < span@,
    ensures
        node_wf(*final(node), rect),
        node_seq(*final(node)).to_multiset() == node_seq(*old(node)).to_multiset().insert(
            particle,
        ),
        *old(node) is Empty ==> *final(node) == QuadNode::Leaf(particle),
        *old(node) matches QuadNode::Leaf(e) ==> (if splittable(rect) {
            *final(node) is Internal
        } else {
            *final(node) matches QuadNode::Cluster(w) && w@ == seq![e, particle]
        }),
        *old(node) matches QuadNode::Cluster(v) ==> (*final(node) matches QuadNode::Cluster(w)
            && w@ == v@.push(particle)),
        *old(node) is Internal ==> *final(node) is Internal,
    decreases span@, 0int,
{
    broadcast use vstd::multiset::group_multiset_axioms;
    broadcast use vstd::seq_lib::group_to_multiset_ensures;

    match node {
        QuadNode::Empty => {
            *node = QuadNode::Leaf(particle);
            proof {
                assert(node_seq(*node) =~= Seq::<Particle>::empty().push(particle));
                vstd::seq_lib::to_multiset_build(Seq::<Particle>::empty(), particle);
                assert(Seq::<Particle>::empty().to_multiset() =~= Multiset::<Particle>::empty());
            }
        },
        QuadNode::Leaf(existing_ref) => {
            let existing = *existing_ref;
            proof {
                crate::sums::lemma_sum_push(Seq::<Particle>::empty(), mass_of(), existing);
                assert(node_seq(*old(node)) =~= Seq::<Particle>::empty().push(existing));
            }
            if rect.width >= 2 && rect.height >= 2 {
                let mut sub = QuadTree::new(rect);
                sub.insert(existing);
                sub.insert(particle);
                proof {
                    vstd::seq_lib::to_multiset_build(Seq::<Particle>::empty(), existing);
                    assert(Seq::<Particle>::empty().to_multiset()
                        =~= Multiset::<Particle>::empty());
                    vstd::multiset::lemma_insert_len(Multiset::<Particle>::empty(), existing);
                    vstd::multiset::lemma_insert_len(
                        Multiset::<Particle>::empty().insert(existing),
                        particle,
                    );
                    assert(tree_seq(sub).len() == tree_seq(sub).to_multiset().len());
                }
                *node = QuadNode::Internal(Box::new(sub));
                proof {
                    assert(node_seq(*node).to_multiset() =~= node_seq(*old(node)).to_multiset()
                        .insert(particle));
                }
            } else {
                let mut v: Vec<Particle> = Vec::new();
                v.push(existing);
                v.push(particle);
                proof {
                    assert(v@ =~= Seq::<Particle>::empty().push(existing).push(particle));
                    assert(v@ =~= seq![existing, particle]);
                    vstd::seq_lib::to_multiset_build(Seq::<Particle>::empty(), existing);
                    vstd::seq_lib::to_multiset_build(
                        Seq::<Particle>::empty().push(existing),
                        particle,
                    );
                    assert(Seq::<Particle>::empty().to_multiset()
                        =~= Multiset::<Particle>::empty());
                }
                *node = QuadNode::Cluster(v);
            }
        },
        QuadNode::Cluster(v) => {
            let ghost oldv = v@;
            v.push(particle);
            proof {
                vstd::seq_lib::to_multiset_build(oldv, particle);
                assert(forall|i: int|
                    0 <= i < v@.len() ==> (#[trigger] v@[i]).wf() && rect.contains(
                        v@[i].position,
                    )) by {
                    assert(forall|i: int| 0 <= i < oldv.len() ==> v@[i] == oldv[i]);
                    assert(v@[v@.len() - 1] == particle);
                }
            }
        },
        QuadNode::Internal(sub) => {
            proof {
                assert(sub.total_mass as int == sum_of(node_seq(*old(node)), mass_of()));
            }
            let ghost oldsub = **sub;
            (&mut **sub).insert(particle);
            proof {
                vstd::multiset::lemma_insert_len(tree_seq(oldsub).to_multiset(), particle);
                assert(tree_seq(**sub).len() == tree_seq(**sub).to_multiset().len());
                assert(tree_seq(oldsub).len() == tree_seq(oldsub).to_multiset().len());
            }
        },
    }
}

} // verus!
