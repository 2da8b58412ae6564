use vstd::prelude::*;
use vstd::seq_lib::{commutative_foldl, lemma_fold_left_permutation};
use crate::particle::Particle;
use crate::utils::calculation_utils::{pair_delta_x, pair_delta_y};

verus! {

/// The sum of `f` over the elements of `s`.
pub open spec fn sum_of(s: Seq<Particle>, f: spec_fn(Particle) -> int) -> int {
    s.fold_left(0int, |acc: int, p: Particle| acc + f(p))
}

/// The mass of a particle, as the summand of the total-mass aggregate.
pub open spec fn mass_of() -> spec_fn(Particle) -> int {
    |p: Particle| p.mass as int
}

/// The mass-weighted `x` coordinate, as the summand of the
/// center-of-mass aggregate.
pub open spec fn weighted_x() -> spec_fn(Particle) -> int {
    |p: Particle| p.mass * p.position.x
}

/// The mass-weighted `y` coordinate.
pub open spec fn weighted_y() -> spec_fn(Particle) -> int {
    |p: Particle| p.mass * p.position.y
}

/// The `x` component of the force contribution of one particle on
/// `subject`, with the id-based self-exclusion applied.
pub open spec fn contrib_x(
    subject: Particle,
    gravity: u64,
    epsilon: u64,
    scale: u64,
) -> spec_fn(Particle) -> int {
    |p: Particle|
        if p.id == subject.id {
            0
        } else {
            pair_delta_x(subject, p, gravity, epsilon, scale)
        }
}

/// The `y` component of the force contribution of one particle on
/// `subject`, with the id-based self-exclusion applied.
pub open spec fn contrib_y(
    subject: Particle,
    gravity: u64,
    epsilon: u64,
    scale: u64,
) -> spec_fn(Particle) -> int {
    |p: Particle|
        if p.id == subject.id {
            0
        } else {
            pair_delta_y(subject, p, gravity, epsilon, scale)
        }
}

/// Appending one element adds its summand.
pub proof fn lemma_sum_push(s: Seq<Particle>, f: spec_fn(Particle) -> int, p: Particle)
    ensures
        sum_of(s.push(p), f) == sum_of(s, f) + f(p),
{
    assert(s.push(p).drop_last() =~= s);
    assert(s.push(p).last() == p);
}

/// Sums split over concatenation.
pub proof fn lemma_sum_concat(a: Seq<Particle>, b: Seq<Particle>, f: spec_fn(Particle) -> int)
    ensures
        sum_of(a + b, f) == sum_of(a, f) + sum_of(b, f),
    decreases b.len(),
{
    if b.len() == 0 {
        assert(a + b =~= a);
    } else {
        lemma_sum_concat(a, b.drop_last(), f);
        assert((a + b).drop_last() =~= a + b.drop_last());
        assert((a + b).last() == b.last());
    }
}

/// A sum only depends on which elements occur, with multiplicity, not
/// on their order.
pub proof fn lemma_sum_permutation(a: Seq<Particle>, b: Seq<Particle>, f: spec_fn(Particle) -> int)
    requires
        a.to_multiset() == b.to_multiset(),
    ensures
        sum_of(a, f) == sum_of(b, f),
{
    let g = |acc: int, p: Particle| acc + f(p);
    assert(commutative_foldl(g)) by {
        assert forall|x: Particle, y: Particle, v: int| #[trigger]
            g(g(v, x), y) == g(g(v, y), x) by {
        }
    }
    lemma_fold_left_permutation(a, b, g, 0int);
}

/// A band on every summand gives a band on the sum.
pub proof fn lemma_sum_bounds(s: Seq<Particle>, f: spec_fn(Particle) -> int, lo: int, hi: int)
    requires
        forall|i: int| 0 <= i < s.len() ==> lo <= #[trigger] f(s[i]) <= hi,
    ensures
        s.len() * lo <= sum_of(s, f) <= s.len() * hi,
    decreases s.len(),
{
    if s.len() == 0 {
    } else {
        let d = s.drop_last();
        assert(forall|i: int| 0 <= i < d.len() ==> lo <= #[trigger] f(d[i]) <= hi) by {
            assert(forall|i: int| 0 <= i < d.len() ==> d[i] == s[i]);
        }
        lemma_sum_bounds(d, f, lo, hi);
        assert(f(s.last()) == f(s[s.len() - 1]));
        assert(s.len() * lo == d.len() * lo + lo) by (nonlinear_arith)
            requires
                s.len() == d.len() + 1,
        ;
        assert(s.len() * hi == d.len() * hi + hi) by (nonlinear_arith)
            requires
                s.len() == d.len() + 1,
        ;
    }
}

/// A sum of zero summands is zero.
pub proof fn lemma_sum_zero(s: Seq<Particle>, f: spec_fn(Particle) -> int)
    requires
        forall|i: int| 0 <= i < s.len() ==> #[trigger] f(s[i]) == 0,
    ensures
        sum_of(s, f) == 0,
{
    lemma_sum_bounds(s, f, 0, 0);
    assert(s.len() * 0 == 0) by (nonlinear_arith);
}

/// Taking one more element of a prefix adds that element's summand.
pub proof fn lemma_sum_prefix_step(s: Seq<Particle>, f: spec_fn(Particle) -> int, i: int)
    requires
        0 <= i < s.len(),
    ensures
        sum_of(s.subrange(0, i + 1), f) == sum_of(s.subrange(0, i), f) + f(s[i]),
{
    assert(s.subrange(0, i + 1) =~= s.subrange(0, i).push(s[i]));
    lemma_sum_push(s.subrange(0, i), f, s[i]);
}

/// The whole sequence is the full prefix.
pub proof fn lemma_sum_full_prefix(s: Seq<Particle>, f: spec_fn(Particle) -> int)
    ensures
        sum_of(s.subrange(0, s.len() as int), f) == sum_of(s, f),
{
    assert(s.subrange(0, s.len() as int) =~= s);
}

} // verus!
