//! When the search for the invariant of a pool succeeds.

use vstd::arithmetic::power::{lemma_pow0, lemma_pow1, lemma_pow_adds, pow};
use vstd::prelude::*;

use crate::stableswap::curve::{
    d_from, d_step, d_step_fits, gap, invariant_d, outcome, product_term, MAX_ITERATIONS,
};
use crate::stableswap::curve_laws::{
    curve_residual, lemma_floor, lemma_product_term, lemma_residual_form,
    lemma_residual_geometric, lemma_start, lemma_step_above, lemma_step_below,
};
use crate::stableswap::errors::StableSwapError;
use crate::stableswap::range_laws::lemma_small_pool_fits;
use crate::stableswap::value_laws::lemma_residual_grows_with_d;

verus! {

/// Whether `r` is the invariant of a pool on the curve itself, rounded down.
pub open spec fn is_invariant(x: int, y: int, ann: int, r: int) -> bool {
    &&& r >= 0
    &&& curve_residual(x, y, ann, r) <= 0
    &&& curve_residual(x, y, ann, r + 1) > 0
}

/// The invariant lies below any value that overshoots the curve.
proof fn lemma_invariant_below(x: int, y: int, ann: int, n: int) -> (r: int)
    requires
        x >= 1,
        y >= 1,
        ann >= 4,
        n >= 1,
        curve_residual(x, y, ann, n) > 0,
    ensures
        is_invariant(x, y, ann, r),
        r < n,
    decreases n,
{
    if curve_residual(x, y, ann, n - 1) <= 0 {
        n - 1
    } else {
        if n == 1 {
            let k = 4 * x * y;
            let sum = ann * (x + y);
            lemma_residual_form(x, y, ann, 0);
            assert(curve_residual(x, y, ann, 0) == k * (0 - sum)) by {
                assert((ann - 1) * 0 == 0);
            }
            assert(k * (0 - sum) <= 0) by (nonlinear_arith)
                requires
                    k == 4 * x * y,
                    sum == ann * (x + y),
                    x >= 1,
                    y >= 1,
                    ann >= 4,
            ;
        }
        lemma_invariant_below(x, y, ann, n - 1)
    }
}

/// What the roundings of the product term drop is small against the slope of the curve, in
/// a pool whose second reserve is not too small a part of it.
proof fn lemma_dropped(x: int, y: int, ann: int, p: int)
    requires
        x >= 1,
        y >= 1,
        ann >= 4,
        1 <= p <= x + y,
        x <= 4 * (ann - 1) * y,
    ensures
        ({
            let k = 4 * x * y;
            let dropped = p * p * p - k * product_term(x, y, p);
            0 <= dropped && 5 * dropped <= 4 * (k * (ann - 1)) + 12 * (p * p) - 5 * p
        }),
{
    let k = 4 * x * y;
    let a = ann - 1;
    let ka = k * a;
    let dp = product_term(x, y, p);
    let dropped = p * p * p - k * dp;
    lemma_product_term(x, y, p);
    assert(dropped <= 2 * x * p - p + k - 2 * x) by (nonlinear_arith)
        requires
            p * p * p <= k * dp + (2 * x - 1) * p + 2 * x * (2 * y - 1),
            dropped == p * p * p - k * dp,
            k == 4 * x * y,
    ;
    let square = p * p;
    assert(x * x <= ka) by (nonlinear_arith)
        requires
            x <= 4 * a * y,
            ka == k * a,
            k == 4 * x * y,
            x >= 1,
    ;
    assert(30 * (x * p) <= 7 * (x * x) + 36 * square) by (nonlinear_arith)
        requires
            square == p * p,
    ;
    assert(3 * k <= ka) by (nonlinear_arith)
        requires
            ka == k * a,
            a >= 3,
            k == 4 * x * y,
            x >= 1,
            y >= 1,
    ;
    assert(2 * x * p == 2 * (x * p)) by (nonlinear_arith);
}

/// What one step from `p` does, with the denominator of the curve cleared.
proof fn lemma_cleared_step(x: int, y: int, ann: int, p: int)
    requires
        x >= 1,
        y >= 1,
        ann >= 4,
        1 <= p <= x + y,
    ensures
        ({
            let k = 4 * x * y;
            let dropped = p * p * p - k * product_term(x, y, p);
            let slope = k * (ann - 1) + 3 * (p * p);
            let target = k * ann * (x + y);
            &&& d_step(x, y, ann, p) >= 0
            &&& p * slope - 3 * dropped > 0
            &&& d_step(x, y, ann, p) * (p * slope - 3 * dropped) <= p * (target + 2 * (p * p * p)
                - 2 * dropped)
        }),
{
    let k = 4 * x * y;
    let s = x + y;
    let a = ann - 1;
    let dp = product_term(x, y, p);
    let cube = p * p * p;
    let dropped = cube - k * dp;
    let slope = k * a + 3 * (p * p);
    let target = k * ann * s;
    let num = (ann * s + dp * 2) * p;
    let den = a * p + dp * 3;
    let next = d_step(x, y, ann, p);
    lemma_product_term(x, y, p);
    lemma_step_above(x, y, ann, p);
    assert(k > 0) by (nonlinear_arith)
        requires
            k == 4 * x * y,
            x >= 1,
            y >= 1,
    ;
    assert(den > 0) by (nonlinear_arith)
        requires
            den == a * p + dp * 3,
            a >= 3,
            p >= 1,
            dp >= 0,
    ;
    lemma_floor(num, den);
    assert(k * den == p * slope - 3 * dropped) by {
        assert(k * (a * p) == p * (k * a)) by (nonlinear_arith);
        assert(k * (dp * 3) == 3 * (k * dp)) by (nonlinear_arith);
        assert(p * (3 * (p * p)) == 3 * cube) by (nonlinear_arith)
            requires
                cube == p * p * p,
        ;
        assert(p * slope == p * (k * a) + p * (3 * (p * p))) by (nonlinear_arith)
            requires
                slope == k * a + 3 * (p * p),
        ;
        assert(k * den == k * (a * p) + k * (dp * 3)) by (nonlinear_arith)
            requires
                den == a * p + dp * 3,
        ;
    }
    assert(k * num == p * (target + 2 * cube - 2 * dropped)) by {
        let inner = ann * s + dp * 2;
        assert(k * inner == k * ann * s + 2 * (k * dp)) by (nonlinear_arith)
            requires
                inner == ann * s + dp * 2,
        ;
        assert(k * (inner * p) == p * (k * inner)) by (nonlinear_arith);
    }
    assert(next * (k * den) <= k * num) by (nonlinear_arith)
        requires
            den * next <= num,
            k > 0,
    ;
    assert(k * den > 0) by (nonlinear_arith)
        requires
            k > 0,
            den > 0,
    ;
}

/// One step from the invariant or above never undershoots it. From the invariant it rises by
/// at most one unit; from above it does not rise, and brings all but two units of the
/// distance down to two thirds.
proof fn lemma_d_step(x: int, y: int, ann: int, p: int, r: int)
    requires
        x >= 1,
        y >= 1,
        ann >= 4,
        x <= 4 * (ann - 1) * y,
        30 <= p <= x + y,
        r <= p,
        is_invariant(x, y, ann, r),
    ensures
        d_step(x, y, ann, p) >= r,
        p == r ==> d_step(x, y, ann, p) <= r + 1,
        p > r ==> d_step(x, y, ann, p) <= p,
        p > r ==> 3 * (d_step(x, y, ann, p) - (r + 1)) <= 2 * (p - (r + 1)) + 2,
{
    let k = 4 * x * y;
    let s = x + y;
    let a = ann - 1;
    let ka = k * a;
    let cube = p * p * p;
    let square = p * p;
    let dropped = cube - k * product_term(x, y, p);
    let slope = ka + 3 * square;
    let target = k * ann * s;
    let t = r + 1;
    let next = d_step(x, y, ann, p);
    lemma_dropped(x, y, ann, p);
    lemma_cleared_step(x, y, ann, p);
    lemma_step_above(x, y, ann, p);
    assert(ka >= 0 && square >= 0) by (nonlinear_arith)
        requires
            ka == k * a,
            k == 4 * x * y,
            square == p * p,
            x >= 1,
            y >= 1,
            a >= 3,
    ;
    if next < r {
        lemma_residual_grows_with_d(x, y, ann, next + 1, r);
    }
    let den = p * slope - 3 * dropped;
    let num = p * (target + 2 * cube - 2 * dropped);
    let tt = t * t * t;
    assert(curve_residual(x, y, ann, t) == ka * t + tt - target);
    if p == r {
        assert(tt == cube + 3 * square + 3 * p + 1) by (nonlinear_arith)
            requires
                tt == t * t * t,
                t == p + 1,
                cube == p * p * p,
                square == p * p,
        ;
        assert(ka * t == ka * p + ka) by (nonlinear_arith)
            requires
                t == p + 1,
        ;
        lemma_rise_from_the_invariant(p, next, ka, square, cube, dropped, target);
    }
    if p > r {
        lemma_residual_grows_with_d(x, y, ann, t, p);
        assert(curve_residual(x, y, ann, p) == ka * p + cube - target);
        assert(p * square == cube) by (nonlinear_arith)
            requires
                square == p * p,
                cube == p * p * p,
        ;
        lemma_no_rise_from_above(p, next, ka, square, cube, dropped, target);
        lemma_fall_from_above(p, next, t, ka, square, cube, tt, dropped, target);
    }
}

/// A step from the invariant rises by at most one unit.
proof fn lemma_rise_from_the_invariant(
    p: int,
    next: int,
    ka: int,
    square: int,
    cube: int,
    dropped: int,
    target: int,
)
    requires
        p >= 30,
        ka >= 0,
        square == p * p,
        cube == p * p * p,
        0 <= dropped,
        5 * dropped <= 4 * ka + 12 * square - 5 * p,
        target < ka * p + ka + cube + 3 * square + 3 * p + 1,
        p * (ka + 3 * square) - 3 * dropped > 0,
        next * (p * (ka + 3 * square) - 3 * dropped) <= p * (target + 2 * cube - 2 * dropped),
    ensures
        next <= p + 1,
{
    if next >= p + 2 {
        let slope = ka + 3 * square;
        let den = p * slope - 3 * dropped;
        let limit = ka * p + ka + cube + 3 * square + 3 * p + 1;
        assert((p + 2) * den <= next * den) by (nonlinear_arith)
            requires
                next >= p + 2,
                den > 0,
        ;
        assert(p * (target + 2 * cube - 2 * dropped) < p * (limit + 2 * cube - 2 * dropped))
            by (nonlinear_arith)
            requires
                target < limit,
                p >= 1,
        ;
        let pka = p * ka;
        let pd = p * dropped;
        assert(p * square == cube) by (nonlinear_arith)
            requires
                square == p * p,
                cube == p * p * p,
        ;
        assert(p * slope == pka + 3 * cube) by (nonlinear_arith)
            requires
                slope == ka + 3 * square,
                pka == p * ka,
                p * square == cube,
        ;
        assert((p + 2) * den == p * (pka + 3 * cube) - 3 * pd + 2 * pka + 6 * cube - 6 * dropped)
            by (nonlinear_arith)
            requires
                den == pka + 3 * cube - 3 * dropped,
                pd == p * dropped,
        ;
        assert(p * (limit + 2 * cube - 2 * dropped) == p * (pka + 3 * cube) + pka + 3 * cube + 3
            * square + p - 2 * pd) by (nonlinear_arith)
            requires
                limit == ka * p + ka + cube + 3 * square + 3 * p + 1,
                pka == p * ka,
                pd == p * dropped,
                p * square == cube,
                square == p * p,
        ;
        assert(pka + 3 * cube < pd + 6 * dropped + 3 * square + p);
        assert(5 * pd <= 4 * pka + 12 * cube - 5 * square) by (nonlinear_arith)
            requires
                5 * dropped <= 4 * ka + 12 * square - 5 * p,
                pd == p * dropped,
                pka == p * ka,
                p * square == cube,
                square == p * p,
                p >= 0,
        ;
        assert(pka >= 30 * ka) by (nonlinear_arith)
            requires
                pka == p * ka,
                p >= 30,
                ka >= 0,
        ;
        assert(cube >= 30 * square) by (nonlinear_arith)
            requires
                cube == p * square,
                p >= 30,
                square >= 0,
        ;
        assert(square >= 30 * p) by (nonlinear_arith)
            requires
                square == p * p,
                p >= 30,
        ;
    }
}

/// A step from above the invariant does not rise.
proof fn lemma_no_rise_from_above(
    p: int,
    next: int,
    ka: int,
    square: int,
    cube: int,
    dropped: int,
    target: int,
)
    requires
        p >= 30,
        ka >= 0,
        square == p * p,
        cube == p * square,
        0 <= dropped,
        5 * dropped <= 4 * ka + 12 * square - 5 * p,
        target < ka * p + cube,
        p * (ka + 3 * square) - 3 * dropped > 0,
        next * (p * (ka + 3 * square) - 3 * dropped) <= p * (target + 2 * cube - 2 * dropped),
    ensures
        next <= p,
{
    if next >= p + 1 {
        let slope = ka + 3 * square;
        let den = p * slope - 3 * dropped;
        let pka = p * ka;
        let pd = p * dropped;
        let limit = pka + cube;
        assert((p + 1) * den <= next * den) by (nonlinear_arith)
            requires
                next >= p + 1,
                den > 0,
        ;
        assert(ka * p == pka) by (nonlinear_arith)
            requires
                pka == p * ka,
        ;
        assert(p * (target + 2 * cube - 2 * dropped) < p * (limit + 2 * cube - 2 * dropped))
            by (nonlinear_arith)
            requires
                target < limit,
                p >= 1,
        ;
        assert(p * slope == pka + 3 * cube) by (nonlinear_arith)
            requires
                slope == ka + 3 * square,
                pka == p * ka,
                p * square == cube,
        ;
        assert((p + 1) * den == p * (pka + 3 * cube) - 3 * pd + pka + 3 * cube - 3 * dropped)
            by (nonlinear_arith)
            requires
                den == pka + 3 * cube - 3 * dropped,
                pd == p * dropped,
        ;
        assert(p * (limit + 2 * cube - 2 * dropped) == p * (pka + 3 * cube) - 2 * pd)
            by (nonlinear_arith)
            requires
                limit == pka + cube,
                pd == p * dropped,
        ;
        assert(pka + 3 * cube < pd + 3 * dropped);
        assert(5 * pd <= 4 * pka + 12 * cube - 5 * square) by (nonlinear_arith)
            requires
                5 * dropped <= 4 * ka + 12 * square - 5 * p,
                pd == p * dropped,
                pka == p * ka,
                p * square == cube,
                square == p * p,
                p >= 0,
        ;
        assert(pka >= 30 * ka) by (nonlinear_arith)
            requires
                pka == p * ka,
                p >= 30,
                ka >= 0,
        ;
        assert(cube >= 30 * square) by (nonlinear_arith)
            requires
                cube == p * square,
                p >= 30,
                square >= 0,
        ;
    }
}

/// A step from above brings all but two units of the distance down to two thirds.
proof fn lemma_fall_from_above(
    p: int,
    next: int,
    t: int,
    ka: int,
    square: int,
    cube: int,
    tt: int,
    dropped: int,
    target: int,
)
    requires
        p >= 30,
        1 <= t <= p,
        0 <= next <= p,
        ka >= 0,
        square == p * p,
        cube == p * square,
        tt == t * t * t,
        0 <= dropped,
        5 * dropped <= 4 * ka + 12 * square - 5 * p,
        target < ka * t + tt,
        next * (p * (ka + 3 * square) - 3 * dropped) <= p * (target + 2 * cube - 2 * dropped),
    ensures
        3 * (next - t) <= 2 * (p - t) + 2,
{
    let slope = ka + 3 * square;
    let far = p - t;
    assert(next * dropped <= p * dropped) by (nonlinear_arith)
        requires
            next <= p,
            dropped >= 0,
    ;
    assert(p * (next * slope) <= p * (target + 2 * cube + dropped)) by (nonlinear_arith)
        requires
            next * (p * slope - 3 * dropped) <= p * (target + 2 * cube - 2 * dropped),
            next * dropped <= p * dropped,
    ;
    assert(next * slope <= target + 2 * cube + dropped) by (nonlinear_arith)
        requires
            p * (next * slope) <= p * (target + 2 * cube + dropped),
            p >= 1,
    ;
    assert(t * slope == ka * t + 3 * (t * square)) by (nonlinear_arith)
        requires
            slope == ka + 3 * square,
    ;
    assert((next - t) * slope == next * slope - t * slope) by (nonlinear_arith);
    assert((next - t) * slope < tt + 2 * cube - 3 * (t * square) + dropped);
    assert(tt + 2 * cube - 3 * (t * square) == far * (far * (t + 2 * p))) by (nonlinear_arith)
        requires
            tt == t * t * t,
            cube == p * square,
            square == p * p,
            far == p - t,
    ;
    assert(far * (t + 2 * p) <= 2 * square) by (nonlinear_arith)
        requires
            far == p - t,
            square == p * p,
            t >= 1,
            p >= 1,
    ;
    assert(far * (far * (t + 2 * p)) <= far * (2 * square)) by (nonlinear_arith)
        requires
            far * (t + 2 * p) <= 2 * square,
            far >= 0,
    ;
    if 3 * (next - t) >= 2 * far + 3 {
        assert(3 * ((next - t) * slope) >= (2 * far + 3) * slope) by (nonlinear_arith)
            requires
                3 * (next - t) >= 2 * far + 3,
                slope >= 0,
        ;
        assert((2 * far + 3) * slope >= 3 * (far * (2 * square)) + 3 * slope) by (nonlinear_arith)
            requires
                slope == ka + 3 * square,
                ka >= 0,
                far >= 0,
        ;
    }
}

/// Whether every step of a search that starts at the sum of the reserves fits the machine
/// word.
pub open spec fn steps_fit(x: int, y: int, ann: int) -> bool {
    forall|p: int| 1 <= p <= x + y ==> #[trigger] d_step_fits(x, y, ann, p)
}

/// Close to the invariant every step that goes on takes two units off the distance.
proof fn lemma_d_settles_nearby(x: int, y: int, ann: int, p: int, r: int, rounds: nat)
    requires
        x >= 1,
        y >= 1,
        ann >= 4,
        steps_fit(x, y, ann),
        x <= 4 * (ann - 1) * y,
        30 <= r <= p <= x + y,
        is_invariant(x, y, ann, r),
        p - r < 2 * rounds,
    ensures
        d_from(x, y, ann, p, rounds) is Ok,
    decreases rounds,
{
    assert(d_step_fits(x, y, ann, p));
    lemma_d_step(x, y, ann, p, r);
    let next = d_step(x, y, ann, p);
    if gap(next, p) > 1 {
        lemma_d_settles_nearby(x, y, ann, next, r, (rounds - 1) as nat);
    }
}

/// From less than `(3/2)^n` units further away, `n` steps lead close to the invariant.
proof fn lemma_d_settles(x: int, y: int, ann: int, p: int, r: int, n: nat, rounds: nat)
    requires
        x >= 1,
        y >= 1,
        ann >= 4,
        steps_fit(x, y, ann),
        x <= 4 * (ann - 1) * y,
        30 <= r <= p <= x + y,
        is_invariant(x, y, ann, r),
        (p - r - 3) * pow(2, n) < pow(3, n),
        rounds >= n + 2,
    ensures
        d_from(x, y, ann, p, rounds) is Ok,
    decreases n,
{
    if n == 0 {
        lemma_pow0(2);
        lemma_pow0(3);
        lemma_d_settles_nearby(x, y, ann, p, r, rounds);
    } else {
        assert(d_step_fits(x, y, ann, p));
        lemma_d_step(x, y, ann, p, r);
        let next = d_step(x, y, ann, p);
        if gap(next, p) > 1 {
            let m = (n - 1) as nat;
            lemma_pow_adds(2, m, 1);
            lemma_pow_adds(3, m, 1);
            lemma_pow1(2);
            lemma_pow1(3);
            vstd::arithmetic::power::lemma_pow_positive(2, m);
            let twos = pow(2, m);
            let threes = pow(3, m);
            let far = p - r - 3;
            let near = next - r - 3;
            assert(near * twos < threes) by (nonlinear_arith)
                requires
                    3 * near <= 2 * far,
                    far * (twos * 2) < threes * 3,
                    twos > 0,
            ;
            lemma_d_settles(x, y, ann, next, r, m, (rounds - 1) as nat);
        }
    }
}

/// `2^64 * 2^144` is below `3^144`.
proof fn lemma_enough_steps()
    ensures
        0x1_0000_0000_0000_0000 * pow(2, 144) < pow(3, 144),
        pow(2, 144) > 0,
{
    vstd::arithmetic::power::lemma_pow_positive(2, 144);
    lemma_pow1(2);
    lemma_pow1(3);
    lemma_pow_adds(2, 1, 1);
    lemma_pow_adds(2, 2, 1);
    lemma_pow_adds(2, 3, 3);
    lemma_pow_adds(2, 6, 3);
    lemma_pow_adds(2, 9, 9);
    lemma_pow_adds(2, 18, 18);
    lemma_pow_adds(2, 36, 36);
    lemma_pow_adds(2, 72, 72);
    lemma_pow_adds(3, 1, 1);
    lemma_pow_adds(3, 2, 1);
    lemma_pow_adds(3, 3, 3);
    lemma_pow_adds(3, 6, 3);
    lemma_pow_adds(3, 9, 9);
    lemma_pow_adds(3, 18, 18);
    lemma_pow_adds(3, 36, 36);
    lemma_pow_adds(3, 72, 72);
    assert(pow(2, 18) == 262_144) by (nonlinear_arith)
        requires
            pow(2, 18) == pow(2, 9) * pow(2, 9),
            pow(2, 9) == 512,
    ;
    assert(pow(2, 36) == 68_719_476_736) by (nonlinear_arith)
        requires
            pow(2, 36) == pow(2, 18) * pow(2, 18),
            pow(2, 18) == 262_144,
    ;
    assert(pow(3, 18) == 387_420_489) by (nonlinear_arith)
        requires
            pow(3, 18) == pow(3, 9) * pow(3, 9),
            pow(3, 9) == 19_683,
    ;
    assert(pow(3, 36) == 150_094_635_296_999_121) by (nonlinear_arith)
        requires
            pow(3, 36) == pow(3, 18) * pow(3, 18),
            pow(3, 18) == 387_420_489,
    ;
    let twos = pow(2, 36);
    let threes = pow(3, 36);
    assert(0x400_0000_0000 * (twos * twos) < threes * threes) by (nonlinear_arith)
        requires
            twos == 68_719_476_736,
            threes == 150_094_635_296_999_121,
    ;
    let more_twos = pow(2, 72);
    let more_threes = pow(3, 72);
    vstd::arithmetic::power::lemma_pow_positive(2, 72);
    assert(0x1_0000_0000_0000_0000 * (more_twos * more_twos) < more_threes * more_threes)
        by (nonlinear_arith)
        requires
            0x400_0000_0000 * more_twos < more_threes,
            more_twos > 0,
    ;
}

/// A search that fits the machine word settles in a pool of moderate balance.
proof fn lemma_fitting_search_settles(x: int, y: int, ann: int)
    requires
        x >= 1,
        y >= 1,
        x * y >= 256,
        ann >= 4,
        x + y <= 0x1_0000_0000_0000_0000,
        x <= 4 * (ann - 1) * y,
        steps_fit(x, y, ann),
    ensures
        d_from(x, y, ann, x + y, MAX_ITERATIONS as nat) is Ok,
{
    let s = x + y;
    lemma_start(x, y, ann);
    let r = lemma_invariant_below(x, y, ann, s + 1);
    lemma_residual_geometric(x, y, ann, r + 1);
    assert(r >= 30) by (nonlinear_arith)
        requires
            (r + 1) * (r + 1) > 4 * x * y,
            r >= 0,
            x * y >= 256,
    ;
    lemma_enough_steps();
    assert((s - r - 3) * pow(2, 144) < pow(3, 144)) by (nonlinear_arith)
        requires
            s - r - 3 <= 0x1_0000_0000_0000_0000,
            pow(2, 144) > 0,
            0x1_0000_0000_0000_0000 * pow(2, 144) < pow(3, 144),
    ;
    lemma_d_settles(x, y, ann, s, r, 144, MAX_ITERATIONS as nat);
}

/// The invariant is found in every pool of up to `2^42` units whose reserves multiply to at
/// least 256, as two of 16 do, unless there is less than one part of the second token for
/// `4 (4A - 1)` of the first. Near the peg, and far around it, Newton's method always settles.
pub proof fn d_is_found(x: u128, y: u128, amp: u128)
    requires
        x >= 1,
        y >= 1,
        x * y >= 256,
        x + y <= 0x400_0000_0000,
        1 <= amp <= 1_000_000,
        x <= 4 * (amp * 4 - 1) * y,
    ensures
        invariant_d(x as int, y as int, amp as int) is Ok,
{
    let ann = amp * 4;
    assert forall|p: int| 1 <= p <= x + y implies #[trigger] d_step_fits(
        x as int,
        y as int,
        ann,
        p,
    ) by {
        lemma_small_pool_fits(x as int, y as int, ann, p);
    }
    lemma_fitting_search_settles(x as int, y as int, ann);
}

/// A step fits the machine word if the products of the sum of the reserves do.
proof fn lemma_products_fit(x: int, y: int, ann: int, p: int)
    requires
        x >= 1,
        y >= 1,
        ann >= 4,
        1 <= p <= x + y,
        (x + y) * (x + y) * (x + y) <= 2 * x * u128::MAX,
        ann * ((x + y) * (x + y)) * (2 * x * y) + (x + y) * (x + y) * ((x + y) * (x + y)) <= (2 * x
            * y) * u128::MAX,
    ensures
        d_step_fits(x, y, ann, p),
{
    let s = x + y;
    let m = u128::MAX as int;
    let square = s * s;
    let w = 2 * x * y;
    let q = p * p / (2 * x);
    let dp = product_term(x, y, p);
    lemma_product_term(x, y, p);
    lemma_floor(p * p, 2 * x);
    lemma_floor(q * p, 2 * y);
    assert(w > 0 && square >= 2 * s) by (nonlinear_arith)
        requires
            w == 2 * x * y,
            square == s * s,
            x >= 1,
            y >= 1,
            s == x + y,
    ;
    assert(p * p <= square) by (nonlinear_arith)
        requires
            1 <= p <= s,
            square == s * s,
    ;
    assert(p * p * p <= square * s) by (nonlinear_arith)
        requires
            1 <= p <= s,
            p * p <= square,
    ;
    assert(ann * square <= m) by (nonlinear_arith)
        requires
            ann * square * w + square * square <= w * m,
            w > 0,
    ;
    assert(ann * s <= ann * square && 4 * square <= ann * square) by (nonlinear_arith)
        requires
            2 * s <= square,
            s >= 0,
            ann >= 4,
    ;
    assert(q >= 0) by (nonlinear_arith)
        requires
            p * p < 2 * x * q + 2 * x,
            x >= 1,
    ;
    assert(q * p <= m) by (nonlinear_arith)
        requires
            2 * x * q <= p * p,
            p * p * p <= square * s,
            square * s <= 2 * x * m,
            p >= 1,
            x >= 1,
    ;
    // Twice the product term times the sum stays within what the second bound leaves.
    assert(w * (2 * dp) <= square * s) by (nonlinear_arith)
        requires
            4 * x * y * dp <= p * p * p,
            p * p * p <= square * s,
            w == 2 * x * y,
    ;
    let t = 2 * dp * s;
    assert(w * t <= square * square) by (nonlinear_arith)
        requires
            w * (2 * dp) <= square * s,
            t == 2 * dp * s,
            square == s * s,
            s >= 0,
    ;
    assert(ann * square + t <= m) by (nonlinear_arith)
        requires
            ann * square * w + square * square <= w * m,
            w * t <= square * square,
            w > 0,
    ;
    assert(4 * dp <= t) by (nonlinear_arith)
        requires
            t == 2 * dp * s,
            s >= 2,
            dp >= 0,
    ;
    let sum = ann * s;
    assert((sum + dp * 2) * p <= ann * square + t) by (nonlinear_arith)
        requires
            sum == ann * s,
            square == s * s,
            t == 2 * dp * s,
            1 <= p <= s,
            dp >= 0,
            ann >= 4,
    ;
    assert((ann - 1) * p <= sum) by (nonlinear_arith)
        requires
            sum == ann * s,
            1 <= p <= s,
            ann >= 4,
    ;
    assert((ann - 1) * p > 0) by (nonlinear_arith)
        requires
            p >= 1,
            ann >= 4,
    ;
}

/// The invariant is found in every pool whose reserves multiply to at least 256 and whose
/// products fit the machine word, unless there is less than one part of the second token for
/// `4 (4A - 1)` of the first: with `S = x + y`, both `S^3 / 2x` and `4A S^2 + S^4 / 2xy` have
/// to fit.
pub proof fn d_is_found_while_products_fit(x: u128, y: u128, amp: u128)
    requires
        x >= 1,
        y >= 1,
        x * y >= 256,
        amp >= 1,
        x <= 4 * (amp * 4 - 1) * y,
        (x + y) * (x + y) * (x + y) <= 2 * x * u128::MAX,
        (amp * 4) * ((x + y) * (x + y)) * (2 * x * y) + (x + y) * (x + y) * ((x + y) * (x + y)) <= (
        2 * x * y) * u128::MAX,
    ensures
        invariant_d(x as int, y as int, amp as int) is Ok,
{
    let ann = amp * 4;
    let xi = x as int;
    let yi = y as int;
    let s = xi + yi;
    let square = s * s;
    let w = 2 * xi * yi;
    assert forall|p: int| 1 <= p <= xi + yi implies #[trigger] d_step_fits(xi, yi, ann, p) by {
        lemma_products_fit(xi, yi, ann, p);
    }
    assert(w > 0) by (nonlinear_arith)
        requires
            w == 2 * xi * yi,
            xi >= 1,
            yi >= 1,
    ;
    assert(ann * square <= u128::MAX) by (nonlinear_arith)
        requires
            ann * square * w + square * square <= w * u128::MAX,
            w > 0,
    ;
    assert(s <= 0x1_0000_0000_0000_0000) by (nonlinear_arith)
        requires
            ann * square <= u128::MAX,
            square == s * s,
            ann >= 4,
            s >= 0,
    ;
    assert(ann <= ann * square) by (nonlinear_arith)
        requires
            square == s * s,
            s >= 1,
            ann >= 4,
    ;
    lemma_fitting_search_settles(xi, yi, ann);
}

/// The products of a pool too large are the only other reason to give up: whatever the
/// balance of the pool, a search whose products fit never overflows.
pub proof fn d_never_overflows_while_products_fit(x: u128, y: u128, amp: u128)
    requires
        x >= 1,
        y >= 1,
        amp >= 1,
        (x + y) * (x + y) * (x + y) <= 2 * x * u128::MAX,
        (amp * 4) * ((x + y) * (x + y)) * (2 * x * y) + (x + y) * (x + y) * ((x + y) * (x + y)) <= (
        2 * x * y) * u128::MAX,
    ensures
        invariant_d(x as int, y as int, amp as int) != Err::<int, StableSwapError>(
            StableSwapError::MathOverflow,
        ),
{
    let ann = amp * 4;
    let xi = x as int;
    let yi = y as int;
    let s = xi + yi;
    let square = s * s;
    let w = 2 * xi * yi;
    assert(w > 0) by (nonlinear_arith)
        requires
            w == 2 * xi * yi,
            xi >= 1,
            yi >= 1,
    ;
    assert(ann * square <= u128::MAX) by (nonlinear_arith)
        requires
            ann * square * w + square * square <= w * u128::MAX,
            w > 0,
    ;
    assert(s <= ann * square && ann <= ann * square) by (nonlinear_arith)
        requires
            square == s * s,
            s >= 1,
            ann >= 4,
    ;
    lemma_start(xi, yi, ann);
    lemma_fitting_search_never_overflows(xi, yi, ann, s, MAX_ITERATIONS as nat);
}

/// No step of a search overflows while the products fit.
proof fn lemma_fitting_search_never_overflows(x: int, y: int, ann: int, d: int, rounds: nat)
    requires
        x >= 1,
        y >= 1,
        ann >= 4,
        1 <= d <= x + y,
        curve_residual(x, y, ann, d + 1) > 0,
        (x + y) * (x + y) * (x + y) <= 2 * x * u128::MAX,
        ann * ((x + y) * (x + y)) * (2 * x * y) + (x + y) * (x + y) * ((x + y) * (x + y)) <= (2 * x
            * y) * u128::MAX,
    ensures
        d_from(x, y, ann, d, rounds) != Err::<int, StableSwapError>(StableSwapError::MathOverflow),
    decreases rounds,
{
    if rounds > 0 {
        let next = d_step(x, y, ann, d);
        lemma_products_fit(x, y, ann, d);
        lemma_step_above(x, y, ann, d);
        lemma_step_below(x, y, ann, d);
        lemma_residual_geometric(x, y, ann, next + 1);
        if gap(next, d) > 1 {
            lemma_fitting_search_never_overflows(x, y, ann, next, (rounds - 1) as nat);
        }
    }
}

/// An invariant is where Newton's method comes to rest: it is the rounded-down Newton step
/// from a value that differs from it by at most one unit.
pub proof fn d_is_where_newton_rests(
    x: u128,
    y: u128,
    amp: u128,
    r: Result<u128, StableSwapError>,
) -> (p: int)
    requires
        outcome(r) == invariant_d(x as int, y as int, amp as int),
    ensures
        r matches Ok(d) ==> {
            let sum = x + y;
            let product = (p * p / (2 * x)) * p / (2 * y);
            let denominator = (4 * amp - 1) * p + 3 * product;
            let numerator = (4 * amp * sum + 2 * product) * p;
            &&& -1 <= p - d <= 1
            &&& denominator > 0
            &&& d * denominator <= numerator < (d + 1) * denominator
        },
{
    let ann = amp * 4;
    let p = lemma_rest(x as int, y as int, ann, x + y, MAX_ITERATIONS as nat);
    if r is Ok {
        let d = r->Ok_0 as int;
        let xi = x as int;
        let yi = y as int;
        let dp = product_term(xi, yi, p);
        let num = (ann * (xi + yi) + dp * 2) * p;
        let den = (ann - 1) * p + dp * 3;
        assert(2 * xi == 2 * x && 2 * yi == 2 * y);
        lemma_floor(num, den);
        assert(d * den == den * d && (d + 1) * den == den * d + den) by (nonlinear_arith);
        assert(4 * amp * (x + y) == ann * (xi + yi)) by (nonlinear_arith)
            requires
                ann == amp * 4,
                xi == x,
                yi == y,
        ;
    }
    p
}

/// The value from which a search took its last step.
proof fn lemma_rest(x: int, y: int, ann: int, d: int, rounds: nat) -> (p: int)
    ensures
        d_from(x, y, ann, d, rounds) matches Ok(v) ==> {
            &&& v == d_step(x, y, ann, p)
            &&& d_step_fits(x, y, ann, p)
            &&& -1 <= v - p <= 1
        },
    decreases rounds,
{
    if rounds == 0 || !d_step_fits(x, y, ann, d) || gap(d_step(x, y, ann, d), d) <= 1 {
        d
    } else {
        lemma_rest(x, y, ann, d_step(x, y, ann, d), (rounds - 1) as nat)
    }
}

} // verus!
