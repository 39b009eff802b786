//! Pools on which computing the invariant is sure to succeed, or not to overflow.

use vstd::prelude::*;

use crate::stableswap::curve::{
    d_from, d_step, d_step_fits, fits, gap, invariant_d, product_term, MAX_ITERATIONS,
};
use crate::stableswap::curve_laws::{
    curve_residual, lemma_floor, lemma_product_term, lemma_residual_geometric, lemma_start,
    lemma_step_above, lemma_step_below,
};
use crate::stableswap::errors::StableSwapError;

verus! {

/// In a balanced pool the invariant is exactly the sum of the reserves, found at once,
/// as long as the one Newton step it takes is representable.
pub proof fn balanced_pool_invariant_is_the_sum(r: u128, amp: u128)
    requires
        r >= 1,
        amp >= 1,
    ensures
        invariant_d(r as int, r as int, amp as int) == (if fits((amp * 4 + 2) * (2 * r) * (2 * r)) {
            Ok::<int, StableSwapError>(2 * r)
        } else {
            Err(StableSwapError::MathOverflow)
        }),
{
    let x = r as int;
    let d = 2 * x;
    let ann = amp * 4;
    let dp = product_term(x, x, d);
    assert(d * d / (2 * x) == d) by {
        vstd::arithmetic::div_mod::lemma_div_by_multiple(d, d);
    }
    assert(dp == d) by {
        vstd::arithmetic::div_mod::lemma_div_by_multiple(d, d);
    }
    let num = (ann * (x + x) + dp * 2) * d;
    let den = (ann - 1) * d + dp * 3;
    assert(den == (ann + 2) * d) by (nonlinear_arith)
        requires
            den == (ann - 1) * d + dp * 3,
            dp == d,
    ;
    assert(num == (ann + 2) * d * d) by (nonlinear_arith)
        requires
            num == (ann * (x + x) + dp * 2) * d,
            dp == d,
            d == 2 * x,
    ;
    assert(den > 0) by (nonlinear_arith)
        requires
            den == (ann + 2) * d,
            ann >= 4,
            d >= 2,
    ;
    assert(num == d * den) by (nonlinear_arith)
        requires
            num == (ann + 2) * d * d,
            den == (ann + 2) * d,
    ;
    vstd::arithmetic::div_mod::lemma_div_by_multiple(d, den);
    assert(d_step(x, x, ann, d) == d);
    // every intermediate value is at most the numerator
    assert(d * d <= num) by (nonlinear_arith)
        requires
            num == (ann + 2) * d * d,
            ann >= 4,
            d >= 2,
    ;
    assert(den * 2 <= num) by (nonlinear_arith)
        requires
            num == d * den,
            d >= 2,
            den > 0,
    ;
    assert(ann * d <= den) by (nonlinear_arith)
        requires
            den == (ann + 2) * d,
            d >= 2,
    ;
    assert((ann - 1) * d <= den && dp * 3 <= den && ann <= den) by (nonlinear_arith)
        requires
            den == (ann + 2) * d,
            dp == d,
            d >= 2,
            ann >= 4,
    ;
    assert(d_from(x, x, ann, d, MAX_ITERATIONS as nat) == (if d_step_fits(x, x, ann, d) {
        Ok::<int, StableSwapError>(d)
    } else {
        Err(StableSwapError::MathOverflow)
    }));
    assert(d_step_fits(x, x, ann, d) <==> fits(num));
}

/// A Newton step is representable in a pool of up to `2^42` units.
pub proof fn lemma_small_pool_fits(x: int, y: int, ann: int, d: int)
    requires
        x >= 1,
        y >= 1,
        x + y <= 0x400_0000_0000,
        4 <= ann <= 4_000_000,
        1 <= d <= x + y,
    ensures
        d_step_fits(x, y, ann, d),
{
    let s = x + y;
    let m: int = 0x400_0000_0000;
    let q = d * d / (2 * x);
    let dp = product_term(x, y, d);
    lemma_product_term(x, y, d);
    lemma_floor(d * d, 2 * x);
    assert(d * d <= m * m) by (nonlinear_arith)
        requires
            1 <= d <= m,
    ;
    assert(q * d <= m * m * m) by (nonlinear_arith)
        requires
            2 * x * q <= d * d,
            d * d <= m * m,
            x >= 1,
            1 <= d <= m,
    ;
    assert(2 * s <= 4 * x * y) by (nonlinear_arith)
        requires
            s == x + y,
            x >= 1,
            y >= 1,
    ;
    assert(d * d * d <= s * s * s) by (nonlinear_arith)
        requires
            1 <= d <= s,
    ;
    assert(2 * s * dp <= s * s * s) by (nonlinear_arith)
        requires
            4 * x * y * dp <= d * d * d,
            d * d * d <= s * s * s,
            2 * s <= 4 * x * y,
            dp >= 0,
    ;
    assert(2 * dp <= m * m) by (nonlinear_arith)
        requires
            2 * s * dp <= s * s * s,
            1 <= s <= m,
            dp >= 0,
    ;
    assert(0 <= ann * s <= 4_000_000 * m) by (nonlinear_arith)
        requires
            4 <= ann <= 4_000_000,
            1 <= s <= m,
    ;
    let top = ann * s + dp * 2;
    assert(top * d <= (4_000_000 * m + m * m) * m) by (nonlinear_arith)
        requires
            0 <= top <= 4_000_000 * m + m * m,
            1 <= d <= m,
    ;
    assert(0 < (ann - 1) * d <= 4_000_000 * m) by (nonlinear_arith)
        requires
            4 <= ann <= 4_000_000,
            1 <= d <= m,
    ;
    assert(m * m == 0x10_0000_0000_0000_0000_0000int);
    assert(m * m * m == 0x4000_0000_0000_0000_0000_0000_0000_0000int) by (nonlinear_arith)
        requires
            m * m == 0x10_0000_0000_0000_0000_0000int,
            m == 0x400_0000_0000,
    ;
    assert((4_000_000 * m + m * m) * m == 4_000_000 * (m * m) + m * m * m) by (nonlinear_arith);
}

/// In a pool of up to `2^42` units in all, with an amplification that the pool accepts,
/// computing the invariant never overflows.
pub proof fn small_pool_never_overflows(x: u128, y: u128, amp: u128)
    requires
        x + y <= 0x400_0000_0000,
        1 <= amp <= 1_000_000,
    ensures
        invariant_d(x as int, y as int, amp as int) != Err::<int, StableSwapError>(
            StableSwapError::MathOverflow,
        ),
{
    if x > 0 && y > 0 {
        lemma_start(x as int, y as int, amp * 4);
        lemma_small_pool_from(x as int, y as int, amp * 4, x + y, MAX_ITERATIONS as nat);
    }
}

/// No step of Newton's method overflows in a pool of up to `2^42` units.
proof fn lemma_small_pool_from(x: int, y: int, ann: int, d: int, rounds: nat)
    requires
        x >= 1,
        y >= 1,
        x + y <= 0x400_0000_0000,
        4 <= ann <= 4_000_000,
        1 <= d <= x + y,
        curve_residual(x, y, ann, d + 1) > 0,
    ensures
        d_from(x, y, ann, d, rounds) != Err::<int, StableSwapError>(StableSwapError::MathOverflow),
    decreases rounds,
{
    if rounds > 0 {
        let next = d_step(x, y, ann, d);
        lemma_small_pool_fits(x, y, ann, d);
        lemma_step_above(x, y, ann, d);
        lemma_step_below(x, y, ann, d);
        lemma_residual_geometric(x, y, ann, next + 1);
        if gap(next, d) > 1 {
            lemma_small_pool_from(x, y, ann, next, (rounds - 1) as nat);
        }
    }
}

} // verus!
