//! Integer square roots, rounded up.
//!
//! Lengths are measured with the root rounded up, so that a vector divided
//! by its measured length never comes out longer than one.

use vstd::prelude::*;

verus! {

/// One more than the largest root this module computes.
pub open spec fn root_limit() -> int {
    0x1_0000_0000_0000_0000
}

/// The largest radicand this module takes: two squares of 64-bit values.
pub open spec fn radicand_limit() -> int {
    0x8000_0000_0000_0000_0000_0000_0000_0000
}

/// `r` is the least natural number whose square is at least `n`.
pub open spec fn is_ceil_sqrt(n: nat, r: nat) -> bool {
    if r == 0 {
        n == 0
    } else {
        (r - 1) * (r - 1) < n <= r * r
    }
}

/// The square root of `n`, rounded up.
pub open spec fn ceil_sqrt(n: nat) -> nat {
    choose|r: nat| is_ceil_sqrt(n, r)
}

/// Squaring keeps the order of natural numbers.
pub proof fn lemma_square_monotonic(a: int, b: int)
    requires
        0 <= a <= b,
    ensures
        a * a <= b * b,
{
    assert(a * a <= b * b) by (nonlinear_arith)
        requires
            0 <= a <= b,
    ;
}

/// At most one number is the rounded-up root of `n`.
pub proof fn lemma_ceil_sqrt_unique(n: nat, r1: nat, r2: nat)
    requires
        is_ceil_sqrt(n, r1),
        is_ceil_sqrt(n, r2),
    ensures
        r1 == r2,
{
    if r1 < r2 {
        lemma_square_monotonic(r1 as int, r2 - 1);
    } else if r2 < r1 {
        lemma_square_monotonic(r2 as int, r1 - 1);
    }
}

/// A number with the defining property is the rounded-up root.
pub proof fn lemma_ceil_sqrt_is(n: nat, r: nat)
    requires
        is_ceil_sqrt(n, r),
    ensures
        ceil_sqrt(n) == r,
{
    lemma_ceil_sqrt_unique(n, r, ceil_sqrt(n));
}

/// The square of a value below `2^64` fits in 128 bits.
proof fn lemma_square_fits(a: int)
    requires
        0 <= a < root_limit(),
    ensures
        a * a <= u128::MAX,
{
    let top: int = root_limit() - 1;
    lemma_square_monotonic(a, top);
    assert(top * top <= u128::MAX) by (nonlinear_arith)
        requires
            top == 0xffff_ffff_ffff_ffff,
    ;
}

/// The square root of `n`, rounded up.
pub fn isqrt_ceil(n: u128) -> (r: u128)
    requires
        n <= radicand_limit(),
    ensures
        r == ceil_sqrt(n as nat),
        is_ceil_sqrt(n as nat, r as nat),
        r < root_limit(),
{
    let mut lo: u128 = 0;
    let mut hi: u128 = 0x1_0000_0000_0000_0000;
    proof {
        assert(root_limit() * root_limit() > radicand_limit()) by (nonlinear_arith);
    }
    while hi - lo > 1
        invariant
            lo < hi <= root_limit(),
            lo * lo <= n < hi * hi,
        decreases hi - lo,
    {
        let mid: u128 = lo + (hi - lo) / 2;
        proof {
            lemma_square_fits(mid as int);
        }
        if mid * mid <= n {
            lo = mid;
        } else {
            hi = mid;
        }
    }
    proof {
        lemma_square_fits(lo as int);
    }
    let r: u128 = if lo * lo == n {
        lo
    } else {
        lo + 1
    };
    proof {
        if lo * lo == n {
            if lo > 0 {
                assert((lo - 1) * (lo - 1) < lo * lo) by (nonlinear_arith)
                    requires
                        lo > 0,
                ;
            }
        } else {
            assert(hi == lo + 1);
        }
        if r >= root_limit() {
            assert(lo * lo < n);
            assert(lo == root_limit() - 1);
            assert(lo * lo >= radicand_limit()) by (nonlinear_arith)
                requires
                    lo == 0xffff_ffff_ffff_ffff,
            ;
        }
        lemma_ceil_sqrt_is(n as nat, r as nat);
    }
    r
}

} // verus!
