use vstd::prelude::*;

verus! {

/// A bearer of a numeric identity.
#[derive(Debug, Clone, Copy, PartialEq, Eq, Structural)]
pub struct Person {
    pub id: i32,
}

/// Advance the bearer's identifier by `n`, `n` times over: the
/// identifier grows by exactly `n * n`, and does not move at all when
/// `n` is not positive.
pub fn generate_id(p: &mut Person, n: i32)
    requires
        n > 0 ==> old(p).id + n * n <= i32::MAX,
    ensures
        n > 0 ==> final(p).id == old(p).id + n * n,
        n <= 0 ==> final(p).id == old(p).id,
{
    let mut i: i32 = 0;
    while i < n
        invariant
            0 <= i,
            i <= n || n <= 0,
            n <= 0 ==> i == 0,
            p.id == old(p).id + i * n,
            n > 0 ==> old(p).id + n * n <= i32::MAX,
        decreases n - i,
    {
        proof {
            assert((i + 1) * n <= n * n) by (nonlinear_arith)
                requires
                    0 <= i < n,
            ;
            assert(i * n + n == (i + 1) * n) by (nonlinear_arith);
            assert(0 < i * n + n) by (nonlinear_arith)
                requires
                    0 <= i,
                    0 < n,
            ;
        }
        p.id = p.id + n;
        i = i + 1;
    }
}

} // verus!
