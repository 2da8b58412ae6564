use vstd::prelude::*;
use vstd::arithmetic::div_mod::{
    lemma_div_multiples_vanish, lemma_div_multiples_vanish_fancy, lemma_fundamental_div_mod,
    lemma_fundamental_div_mod_converse, lemma_div_is_ordered,
};

verus! {

/// Floor of the square root of `n`: the greatest `r` with `r * r <= n`.
pub open spec fn sqrt_floor(n: nat) -> nat
    decreases n,
{
    if n == 0 {
        0
    } else {
        let r = sqrt_floor((n - 1) as nat);
        if (r + 1) * (r + 1) <= n {
            r + 1
        } else {
            r
        }
    }
}

/// `sqrt_floor(n)` really is the floor of the square root of `n`.
pub proof fn lemma_sqrt_floor_bounds(n: nat)
    ensures
        sqrt_floor(n) * sqrt_floor(n) <= n,
        n < (sqrt_floor(n) + 1) * (sqrt_floor(n) + 1),
    decreases n,
{
    let s = sqrt_floor(n);
    if n > 0 {
        lemma_sqrt_floor_bounds((n - 1) as nat);
        let r = sqrt_floor((n - 1) as nat);
        if (r + 1) * (r + 1) <= n {
            assert(s == r + 1);
            assert((s + 1) * (s + 1) > n) by (nonlinear_arith)
                requires
                    s == r + 1,
                    (r + 1) * (r + 1) <= n,
                    n - 1 < (r + 1) * (r + 1),
            ;
        } else {
            assert(s == r);
            assert(s * s <= n);
            assert((s + 1) * (s + 1) > n);
        }
    } else {
        assert(s == 0);
        assert(s * s <= n);
        assert((s + 1) * (s + 1) == 1) by (nonlinear_arith)
            requires
                s == 0,
        ;
    }
}

/// Any `r` enclosing `n` between `r * r` and `(r + 1) * (r + 1)` is the
/// floor of the square root of `n`.
pub proof fn lemma_sqrt_floor_unique(n: nat, r: nat)
    requires
        r * r <= n,
        n < (r + 1) * (r + 1),
    ensures
        r == sqrt_floor(n),
{
    lemma_sqrt_floor_bounds(n);
    let s = sqrt_floor(n);
    if r < s {
        assert((r + 1) * (r + 1) <= s * s) by (nonlinear_arith)
            requires
                r + 1 <= s,
        ;
    }
    if s < r {
        assert((s + 1) * (s + 1) <= r * r) by (nonlinear_arith)
            requires
                s + 1 <= r,
        ;
    }
}

/// The floor square root of a positive number is positive.
pub proof fn lemma_sqrt_floor_pos(n: nat)
    requires
        1 <= n,
    ensures
        1 <= sqrt_floor(n),
{
    lemma_sqrt_floor_bounds(n);
    if sqrt_floor(n) == 0 {
        assert(n < (sqrt_floor(n) + 1) * (sqrt_floor(n) + 1));
        assert((sqrt_floor(n) + 1) * (sqrt_floor(n) + 1) == 1) by (nonlinear_arith)
            requires
                sqrt_floor(n) == 0,
        ;
    }
}

/// Floor square root, by binary search.
pub fn isqrt(n: u64) -> (r: u64)
    ensures
        r == sqrt_floor(n as nat),
        r * r <= n,
{
    let mut lo: u64 = 0;
    let mut hi: u64 = 4_294_967_295;
    proof {
        assert((hi + 1) * (hi + 1) > n as nat) by (nonlinear_arith)
            requires
                hi == 4_294_967_295u64 && n <= 0xffff_ffff_ffff_ffffu64,
        ;
    }
    while lo < hi
        invariant
            lo <= hi,
            (lo as nat) * (lo as nat) <= n as nat,
            (n as nat) < ((hi + 1) as nat) * ((hi + 1) as nat),
            hi <= 4_294_967_295,
        decreases hi - lo,
    {
        let gap = (hi - lo + 1) / 2;
        proof {
            assert(gap <= hi - lo);
        }
        let mid = lo + gap;
        proof {
            assert((mid as int) * (mid as int) <= 0xffff_ffff * 0xffff_ffff) by (nonlinear_arith)
                requires
                    0 <= mid as int <= 0xffff_ffff,
            ;
        }
        if (mid as u128) * (mid as u128) <= n as u128 {
            lo = mid;
        } else {
            hi = mid - 1;
        }
    }
    proof {
        lemma_sqrt_floor_unique(n as nat, lo as nat);
    }
    lo
}

/// Saturation of `v` to the band `[-lim, lim]`.
pub open spec fn clamp(v: int, lim: int) -> int {
    if v > lim {
        lim
    } else if v < -lim {
        -lim
    } else {
        v
    }
}

/// Saturate a wide accumulator into an `i64` band.
pub fn clamp_i128(v: i128, lim: i64) -> (r: i64)
    requires
        0 < lim,
    ensures
        r as int == clamp(v as int, lim as int),
{
    if v > lim as i128 {
        lim
    } else if v < -(lim as i128) {
        -lim
    } else {
        v as i64
    }
}

/// Clamping the total before adding it to a base and clamping again to a
/// band of half the width changes nothing: the outer saturation absorbs
/// the inner one.
pub proof fn lemma_clamp_compose(base: int, v: int, lim: int)
    requires
        0 < lim,
        -lim <= base <= lim,
    ensures
        clamp(base + clamp(v, 2 * lim), lim) == clamp(base + v, lim),
{
}

/// The product of two values of 64-bit range fits in 128 bits.
pub proof fn lemma_u64_mul_fits(a: int, b: int) by (nonlinear_arith)
    requires
        0 <= a < 0x1_0000_0000_0000_0000,
        0 <= b < 0x1_0000_0000_0000_0000,
    ensures
        0 <= a * b < 0x1_0000_0000_0000_0000_0000_0000_0000_0000,
{
}

/// Dividing by a positive divisor keeps a value inside a band around
/// zero that contains it.
pub proof fn lemma_div_range(a: int, m: int, lo: int, hi: int)
    requires
        1 <= m,
        lo <= a <= hi,
        lo <= 0 <= hi,
    ensures
        lo <= a / m <= hi,
{
    lemma_fundamental_div_mod(a, m);
    let q = a / m;
    let r = a % m;
    if q < lo {
        assert(m * q <= m * (lo - 1)) by (nonlinear_arith)
            requires
                q <= lo - 1,
                m >= 1,
        ;
        assert(m * (lo - 1) <= lo - m) by (nonlinear_arith)
            requires
                lo <= 0,
                m >= 1,
        ;
    }
    if q > hi {
        assert(m * q >= q) by (nonlinear_arith)
            requires
                q >= 1,
                m >= 1,
        ;
    }
}

/// A value within `m` times a band stays within the band once divided
/// by `m`.
pub proof fn lemma_div_mul_range(a: int, m: int, l: int)
    requires
        1 <= m,
        0 <= l,
        -(m * l) <= a <= m * l,
    ensures
        -l <= a / m <= l,
{
    lemma_div_is_ordered(-(m * l), a, m);
    lemma_div_is_ordered(a, m * l, m);
    lemma_div_multiples_vanish(l, m);
    lemma_div_multiples_vanish(-l, m);
    assert(m * (-l) == -(m * l)) by (nonlinear_arith);
}

/// Floor division (round toward negative infinity) of a wide signed
/// value by a positive divisor; this is the `int` division of the
/// specification world.
pub fn div_floor_i128(a: i128, b: u64) -> (q: i128)
    requires
        1 <= b,
        -0x4000_0000_0000_0000_0000_0000_0000_0000 < a,
    ensures
        q as int == a as int / b as int,
{
    if a >= 0 {
        let q = (a as u128) / (b as u128);
        proof {
            lemma_div_is_ordered(q as int, a as int, 1);
        }
        q as i128
    } else {
        let na = (-a) as u128;
        let d = b as u128;
        let qq = (na + (d - 1)) / d;
        proof {
            let naq = (na as int) / (d as int);
            let nar = (na as int) % (d as int);
            lemma_fundamental_div_mod(na as int, d as int);
            if nar == 0 {
                assert((na + d - 1) as int == d as int * naq + (d - 1)) by {
                    assert(na as int == d as int * naq);
                }
                lemma_div_multiples_vanish_fancy(naq, (d - 1) as int, d as int);
                assert(qq as int == naq);
                assert(a as int == d as int * (-naq)) by {
                    assert(d as int * (-naq) == -(d as int * naq)) by (nonlinear_arith);
                }
                lemma_div_multiples_vanish(-naq, d as int);
            } else {
                assert((na + d - 1) as int == d as int * (naq + 1) + (nar - 1)) by {
                    assert(na as int == d as int * naq + nar);
                    assert(d as int * (naq + 1) == d as int * naq + d as int) by (nonlinear_arith);
                }
                lemma_div_multiples_vanish_fancy(naq + 1, nar - 1, d as int);
                assert(qq as int == naq + 1);
                assert(a as int == (-(naq + 1)) * (d as int) + (d - nar)) by {
                    assert((-(naq + 1)) * (d as int) == -(d as int * naq) - d as int)
                        by (nonlinear_arith);
                }
                lemma_fundamental_div_mod_converse(a as int, d as int, -(naq + 1), d as int - nar);
            }
        }
        -(qq as i128)
    }
}

} // verus!
