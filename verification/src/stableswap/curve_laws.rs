//! What holds of every value that Newton's method returns for the StableSwap curve.

use vstd::prelude::*;

use crate::stableswap::curve::{
    d_from, d_step, d_step_fits, gap, invariant_d, product_term, MAX_ITERATIONS,
};

verus! {

/// The invariant equation with its denominator cleared, as a function of `D`:
/// `4xy(4A - 1) D + D^3 - 4xy * 4A(x + y)`. It is zero exactly on the curve and
/// grows with `D`.
pub open spec fn curve_residual(x: int, y: int, ann: int, d: int) -> int {
    4 * x * y * (ann - 1) * d + d * d * d - 4 * x * y * ann * (x + y)
}

/// Division by a positive number rounds down.
pub proof fn lemma_floor(n: int, m: int)
    requires
        m > 0,
    ensures
        m * (n / m) <= n < m * (n / m) + m,
{
    vstd::arithmetic::div_mod::lemma_fundamental_div_mod(n, m);
    vstd::arithmetic::div_mod::lemma_mod_bound(n, m);
}

/// A quotient is the one number whose multiple comes closest from below.
pub proof fn lemma_quotient(n: int, m: int, q: int)
    requires
        m > 0,
        q * m <= n < (q + 1) * m,
    ensures
        n / m == q,
{
    lemma_floor(n, m);
    let p = n / m;
    assert(p == q) by (nonlinear_arith)
        requires
            m > 0,
            m * p <= n < m * p + m,
            q * m <= n < (q + 1) * m,
    ;
}

/// The two roundings of the product term cost less than `2xd + 4xy` after scaling.
pub proof fn lemma_product_term(x: int, y: int, d: int)
    requires
        x >= 1,
        y >= 1,
        d >= 0,
    ensures
        product_term(x, y, d) >= 0,
        4 * x * y * product_term(x, y, d) <= d * d * d,
        d * d * d <= 4 * x * y * product_term(x, y, d) + (2 * x - 1) * d + 2 * x * (2 * y - 1),
{
    let q = d * d / (2 * x);
    let dp = product_term(x, y, d);
    assert(d * d >= 0) by (nonlinear_arith);
    lemma_floor(d * d, 2 * x);
    assert(q >= 0) by (nonlinear_arith)
        requires
            d * d < 2 * x * q + 2 * x,
            d * d >= 0,
            x >= 1,
    ;
    assert(q * d >= 0) by (nonlinear_arith)
        requires
            q >= 0,
            d >= 0,
    ;
    lemma_floor(q * d, 2 * y);
    assert(dp >= 0) by (nonlinear_arith)
        requires
            q * d < 2 * y * dp + 2 * y,
            q * d >= 0,
            y >= 1,
    ;
    assert(4 * x * y * dp <= 2 * x * (q * d) <= d * d * d) by (nonlinear_arith)
        requires
            2 * y * dp <= q * d,
            2 * x * q <= d * d,
            x >= 1,
            d >= 0,
    ;
    assert(d * d * d <= 2 * x * (q * d) + (2 * x - 1) * d) by (nonlinear_arith)
        requires
            d * d <= 2 * x * q + 2 * x - 1,
            d >= 0,
    ;
    assert(2 * x * (q * d) <= 4 * x * y * dp + 2 * x * (2 * y - 1)) by (nonlinear_arith)
        requires
            q * d <= 2 * y * dp + 2 * y - 1,
            x >= 1,
    ;
}

/// The cleared invariant equation, with the reserves' product factored out.
pub proof fn lemma_residual_form(x: int, y: int, ann: int, d: int)
    ensures
        curve_residual(x, y, ann, d) == 4 * x * y * ((ann - 1) * d - ann * (x + y)) + d * d * d,
{
    let k = 4 * x * y;
    let s = x + y;
    let grown = (ann - 1) * d;
    let sum = ann * s;
    assert(k * (ann - 1) * d == k * grown) by (nonlinear_arith)
        requires
            grown == (ann - 1) * d,
    ;
    assert(k * ann * s == k * sum) by (nonlinear_arith)
        requires
            sum == ann * s,
    ;
    assert(k * (grown - sum) == k * grown - k * sum) by (nonlinear_arith);
}

/// A Newton step never lands a whole unit below the curve.
pub proof fn lemma_step_above(x: int, y: int, ann: int, p: int)
    requires
        x >= 1,
        y >= 1,
        ann >= 4,
        1 <= p <= x + y,
    ensures
        curve_residual(x, y, ann, d_step(x, y, ann, p) + 1) > 0,
        d_step(x, y, ann, p) >= 0,
{
    let s = x + y;
    let dp = product_term(x, y, p);
    let den = (ann - 1) * p + dp * 3;
    let num = (ann * s + dp * 2) * p;
    let q = d_step(x, y, ann, p) + 1;
    let k = 4 * x * y;
    lemma_product_term(x, y, p);
    assert(den > 0) by (nonlinear_arith)
        requires
            den == (ann - 1) * p + dp * 3,
            ann >= 4,
            p >= 1,
            dp >= 0,
    ;
    assert(num > 0) by (nonlinear_arith)
        requires
            num == (ann * s + dp * 2) * p,
            ann >= 4,
            s >= 1,
            p >= 1,
            dp >= 0,
    ;
    lemma_floor(num, den);
    assert(q * den > num) by (nonlinear_arith)
        requires
            num < den * (num / den) + den,
            q == num / den + 1,
    ;
    assert(q >= 1) by (nonlinear_arith)
        requires
            q * den > num,
            num > 0,
            den > 0,
    ;
    assert(k >= 4) by (nonlinear_arith)
        requires
            k == 4 * x * y,
            x >= 1,
            y >= 1,
    ;
    // q (a p + 3 dp) > (ann s + 2 dp) p, regrouped
    assert((q * (ann - 1) - ann * s) * p > dp * (2 * p - 3 * q)) by (nonlinear_arith)
        requires
            q * den > num,
            den == (ann - 1) * p + dp * 3,
            num == (ann * s + dp * 2) * p,
    ;
    if 2 * p >= 3 * q {
        assert(dp * (2 * p - 3 * q) >= 0) by (nonlinear_arith)
            requires
                dp >= 0,
                2 * p >= 3 * q,
        ;
        assert(q * (ann - 1) > ann * s) by (nonlinear_arith)
            requires
                (q * (ann - 1) - ann * s) * p > 0,
                p >= 1,
        ;
        assert(false) by (nonlinear_arith)
            requires
                q * (ann - 1) > ann * s,
                3 * q <= 2 * p,
                p <= s,
                ann >= 4,
                q >= 1,
        ;
    } else {
        assert(k * dp * (3 * q - 2 * p) <= p * p * p * (3 * q - 2 * p)) by (nonlinear_arith)
            requires
                k * dp <= p * p * p,
                3 * q > 2 * p,
        ;
        assert(k * ((q * (ann - 1) - ann * s) * p) > -(k * dp * (3 * q - 2 * p)))
            by (nonlinear_arith)
            requires
                (q * (ann - 1) - ann * s) * p > dp * (2 * p - 3 * q),
                k >= 4,
        ;
        assert(p * (k * (q * (ann - 1) - ann * s)) > p * (-(p * p * (3 * q - 2 * p))))
            by (nonlinear_arith)
            requires
                k * ((q * (ann - 1) - ann * s) * p) > -(p * p * p * (3 * q - 2 * p)),
        ;
        assert(k * (q * (ann - 1) - ann * s) > -(p * p * (3 * q - 2 * p))) by (nonlinear_arith)
            requires
                p * (k * (q * (ann - 1) - ann * s)) > p * (-(p * p * (3 * q - 2 * p))),
                p >= 1,
        ;
        lemma_cube_tangent(q, p);
        lemma_residual_form(x, y, ann, q);
        assert(q * (ann - 1) == (ann - 1) * q) by (nonlinear_arith);
    }
}

/// A cube lies above its tangents on the non-negative side.
proof fn lemma_cube_tangent(q: int, p: int)
    requires
        q >= 0,
        p >= 0,
    ensures
        q * q * q - p * p * (3 * q - 2 * p) == (q - p) * (q - p) * (q + 2 * p),
        q * q * q >= p * p * (3 * q - 2 * p),
{
    assert(q * q * q - p * p * (3 * q - 2 * p) == (q - p) * (q - p) * (q + 2 * p))
        by (nonlinear_arith);
    assert((q - p) * (q - p) * (q + 2 * p) >= 0) by (nonlinear_arith)
        requires
            q >= 0,
            p >= 0,
    ;
}

/// Between a point at most one unit below the curve and the sum of the reserves, the
/// product term falls short of `p` only one unit below that sum, and then by at most three.
proof fn lemma_product_term_large(x: int, y: int, ann: int, p: int)
    requires
        x >= 1,
        y >= 1,
        ann >= 4,
        1 <= p <= x + y,
        curve_residual(x, y, ann, p + 1) > 0,
        product_term(x, y, p) < p,
    ensures
        p == x + y - 1,
        product_term(x, y, p) >= p - 3,
{
    let s = x + y;
    let q = p * p / (2 * x);
    let dp = product_term(x, y, p);
    let k = 4 * x * y;
    let u = p + 1;
    let t = s - u;
    lemma_floor(p * p, 2 * x);
    lemma_floor(q * p, 2 * y);
    assert(q < 2 * y) by (nonlinear_arith)
        requires
            q * p < 2 * y * dp + 2 * y,
            dp <= p - 1,
            p >= 1,
            y >= 1,
    ;
    assert(p * p < k) by (nonlinear_arith)
        requires
            p * p < 2 * x * q + 2 * x,
            q <= 2 * y - 1,
            k == 4 * x * y,
            x >= 1,
    ;
    assert(k <= s * s) by (nonlinear_arith)
        requires
            k == 4 * x * y,
            s == x + y,
    ;
    assert(p < s) by (nonlinear_arith)
        requires
            p * p < k,
            k <= s * s,
            p >= 1,
            s >= 1,
    ;
    // u^3 > K (u + ann t)
    assert(u * u * u > k * (u + ann * t)) by (nonlinear_arith)
        requires
            4 * x * y * (ann - 1) * u + u * u * u - 4 * x * y * ann * (x + y) > 0,
            k == 4 * x * y,
            t == x + y - u,
    ;
    assert(t == 0) by {
        if t >= 1 {
            assert(k * (u + ann * t) >= k * (u + 4)) by (nonlinear_arith)
                requires
                    ann >= 4,
                    t >= 1,
                    k >= 0,
            ;
            assert(k * (u + 4) >= ((u - 1) * (u - 1) + 1) * (u + 4)) by (nonlinear_arith)
                requires
                    p * p < k,
                    u == p + 1,
                    u >= 0,
            ;
            assert(((u - 1) * (u - 1) + 1) * (u + 4) >= u * u * u) by (nonlinear_arith)
                requires
                    u >= 2,
            ;
        }
    }
    assert(p * p - 2 * x * (2 * y - 2) == (x - y + 1) * (x - y + 1)) by (nonlinear_arith)
        requires
            p == x + y - 1,
    ;
    assert((x - y + 1) * (x - y + 1) >= 0) by (nonlinear_arith);
    assert(q >= 2 * y - 2) by (nonlinear_arith)
        requires
            p * p < 2 * x * q + 2 * x,
            p * p >= 2 * x * (2 * y - 2),
            x >= 1,
    ;
    assert(x <= 2 * y + 1) by {
        if x >= 2 * y + 2 {
            let e = x - y;
            assert(p * p - k == (e - 1) * (e - 1) - 4 * y) by (nonlinear_arith)
                requires
                    p == x + y - 1,
                    k == 4 * x * y,
                    e == x - y,
            ;
            assert((e - 1) * (e - 1) >= (y + 1) * (y + 1)) by (nonlinear_arith)
                requires
                    e >= y + 2,
                    y >= 1,
            ;
            assert((y + 1) * (y + 1) - 4 * y == (y - 1) * (y - 1)) by (nonlinear_arith);
            assert((y - 1) * (y - 1) >= 0) by (nonlinear_arith);
        }
    }
    assert(q * p >= 2 * y * (p - 3)) by (nonlinear_arith)
        requires
            q >= 2 * y - 2,
            p == x + y - 1,
            p >= 1,
            x <= 2 * y + 1,
    ;
    assert(dp >= p - 3) by (nonlinear_arith)
        requires
            q * p < 2 * y * dp + 2 * y,
            q * p >= 2 * y * (p - 3),
            y >= 1,
    ;
}

/// The product term one unit below the sum of reserves that sum to three or four.
proof fn lemma_product_term_small(x: int, y: int)
    requires
        x >= 1,
        y >= 1,
        x + y <= 4,
    ensures
        x + y >= 3 ==> product_term(x, y, x + y - 1) >= 1,
{
    let p = x + y - 1;
    let q = p * p / (2 * x);
    let dp = product_term(x, y, p);
    lemma_floor(p * p, 2 * x);
    lemma_floor(q * p, 2 * y);
    if x == 1 && y == 2 {
        assert(dp >= 1) by (nonlinear_arith)
            requires
                p * p < 2 * x * q + 2 * x,
                q * p < 2 * y * dp + 2 * y,
                x == 1,
                y == 2,
                p == 2,
        ;
    }
    if x == 2 && y == 1 {
        assert(dp >= 1) by (nonlinear_arith)
            requires
                p * p < 2 * x * q + 2 * x,
                q * p < 2 * y * dp + 2 * y,
                x == 2,
                y == 1,
                p == 2,
        ;
    }
    if x == 1 && y == 3 {
        assert(dp >= 1) by (nonlinear_arith)
            requires
                p * p < 2 * x * q + 2 * x,
                q * p < 2 * y * dp + 2 * y,
                x == 1,
                y == 3,
                p == 3,
        ;
    }
    if x == 2 && y == 2 {
        assert(dp >= 1) by (nonlinear_arith)
            requires
                p * p < 2 * x * q + 2 * x,
                q * p < 2 * y * dp + 2 * y,
                x == 2,
                y == 2,
                p == 3,
        ;
    }
    if x == 3 && y == 1 {
        assert(dp >= 1) by (nonlinear_arith)
            requires
                p * p < 2 * x * q + 2 * x,
                q * p < 2 * y * dp + 2 * y,
                x == 3,
                y == 1,
                p == 3,
        ;
    }
}

/// A Newton step never passes the sum of the reserves.
pub proof fn lemma_step_below(x: int, y: int, ann: int, p: int)
    requires
        x >= 1,
        y >= 1,
        ann >= 4,
        1 <= p <= x + y,
        curve_residual(x, y, ann, p + 1) > 0,
    ensures
        d_step(x, y, ann, p) <= x + y,
{
    let s = x + y;
    let dp = product_term(x, y, p);
    let den = (ann - 1) * p + dp * 3;
    let num = (ann * s + dp * 2) * p;
    lemma_product_term(x, y, p);
    assert(den > 0) by (nonlinear_arith)
        requires
            den == (ann - 1) * p + dp * 3,
            ann >= 4,
            p >= 1,
            dp >= 0,
    ;
    assert(2 * (dp * p) + s * p < 3 * p + 3 * (s * dp) + 3 * dp) by {
        if dp >= p {
            assert(dp * p <= s * dp) by (nonlinear_arith)
                requires
                    p <= s,
                    dp >= 0,
            ;
            assert(s * p <= s * dp) by (nonlinear_arith)
                requires
                    p <= dp,
                    s >= 0,
            ;
        } else {
            lemma_product_term_large(x, y, ann, p);
            if s >= 5 {
                assert(2 * (dp * p) + s * p < 3 * p + 3 * (s * dp) + 3 * dp) by (nonlinear_arith)
                    requires
                        p == s - 1,
                        dp >= s - 4,
                        s >= 5,
                ;
            } else {
                assert(s >= 3 ==> dp >= 1) by {
                    lemma_product_term_small(x, y);
                }
                assert(2 * (dp * p) + s * p < 3 * p + 3 * (s * dp) + 3 * dp) by (nonlinear_arith)
                    requires
                        p == s - 1,
                        2 <= s <= 4,
                        dp >= 0,
                        s >= 3 ==> dp >= 1,
                ;
            }
        }
    }
    assert(num < (s + 1) * den) by (nonlinear_arith)
        requires
            2 * (dp * p) + s * p < 3 * p + 3 * (s * dp) + 3 * dp,
            num == (ann * s + dp * 2) * p,
            den == (ann - 1) * p + dp * 3,
            ann >= 4,
            p >= 1,
    ;
    lemma_floor(num, den);
    assert(num / den <= s) by (nonlinear_arith)
        requires
            den * (num / den) <= num,
            num < (s + 1) * den,
            den > 0,
    ;
}

/// Beyond the curve lies beyond the geometric mean of the reserves.
pub proof fn lemma_residual_geometric(x: int, y: int, ann: int, u: int)
    requires
        x >= 1,
        y >= 1,
        ann >= 4,
        u >= 1,
        curve_residual(x, y, ann, u) > 0,
    ensures
        u * u > 4 * x * y,
        u >= 3,
{
    let k = 4 * x * y;
    let s = x + y;
    assert(k >= 4) by (nonlinear_arith)
        requires
            k == 4 * x * y,
            x >= 1,
            y >= 1,
    ;
    if u * u <= k {
        assert(u * u * u <= k * u) by (nonlinear_arith)
            requires
                u * u <= k,
                u >= 1,
        ;
        assert(k * ann * u > k * ann * s) by (nonlinear_arith)
            requires
                4 * x * y * (ann - 1) * u + u * u * u - 4 * x * y * ann * (x + y) > 0,
                k == 4 * x * y,
                s == x + y,
                u * u * u <= k * u,
        ;
        assert(u > s) by (nonlinear_arith)
            requires
                k * ann * u > k * ann * s,
                k >= 4,
                ann >= 4,
        ;
        assert(u * u > k) by (nonlinear_arith)
            requires
                u > s,
                s == x + y,
                k == 4 * x * y,
                x >= 1,
                y >= 1,
        ;
    }
    assert(u >= 3) by (nonlinear_arith)
        requires
            u * u > 4,
            u >= 1,
    ;
}

/// Where Newton's method stops, the equation holds up to the roundings of one step.
proof fn lemma_stop_residual(x: int, y: int, ann: int, p: int)
    requires
        x >= 1,
        y >= 1,
        ann >= 4,
        1 <= p <= x + y,
        gap(d_step(x, y, ann, p), p) <= 1,
        d_step(x, y, ann, p) >= 2,
    ensures
        curve_residual(x, y, ann, d_step(x, y, ann, p)) <= 3 * d_step(x, y, ann, p) + 2 + 8 * x * (
        d_step(x, y, ann, p) + 1) + 16 * x * y,
{
    let s = x + y;
    let k = 4 * x * y;
    let dp = product_term(x, y, p);
    let den = (ann - 1) * p + dp * 3;
    let num = (ann * s + dp * 2) * p;
    let d = d_step(x, y, ann, p);
    let slack = p * p * p - k * dp;
    let w = 3 * d - 2 * p;
    let line = (ann - 1) * d - ann * s;
    lemma_product_term(x, y, p);
    assert(den > 0) by (nonlinear_arith)
        requires
            den == (ann - 1) * p + dp * 3,
            ann >= 4,
            p >= 1,
            dp >= 0,
    ;
    lemma_floor(num, den);
    assert(slack <= 2 * x * p + k) by (nonlinear_arith)
        requires
            p * p * p <= k * dp + (2 * x - 1) * p + 2 * x * (2 * y - 1),
            slack == p * p * p - k * dp,
            k == 4 * x * y,
            x >= 1,
            p >= 1,
    ;
    assert(line * p <= -(dp * w)) by (nonlinear_arith)
        requires
            den * d <= num,
            den == (ann - 1) * p + dp * 3,
            num == (ann * s + dp * 2) * p,
            line == (ann - 1) * d - ann * s,
            w == 3 * d - 2 * p,
    ;
    assert(k >= 0) by (nonlinear_arith)
        requires
            k == 4 * x * y,
            x >= 1,
            y >= 1,
    ;
    assert(p * (k * line) <= -(k * dp * w)) by (nonlinear_arith)
        requires
            line * p <= -(dp * w),
            k >= 0,
    ;
    assert(k * dp * w == p * p * p * w - slack * w) by (nonlinear_arith)
        requires
            slack == p * p * p - k * dp,
    ;
    assert(slack * w <= 4 * p * slack) by (nonlinear_arith)
        requires
            slack >= 0,
            w <= 4 * p,
    ;
    assert(p * (k * line) <= p * (4 * slack - p * p * w)) by (nonlinear_arith)
        requires
            p * (k * line) <= -(p * p * p * w) + 4 * p * slack,
    ;
    assert(k * line <= 4 * slack - p * p * w) by (nonlinear_arith)
        requires
            p * (k * line) <= p * (4 * slack - p * p * w),
            p >= 1,
    ;
    lemma_cube_tangent(d, p);
    assert((d - p) * (d - p) * (d + 2 * p) <= d + 2 * p) by (nonlinear_arith)
        requires
            -1 <= d - p <= 1,
            d >= 0,
            p >= 0,
    ;
    lemma_residual_form(x, y, ann, d);
    assert(8 * x * p <= 8 * x * (d + 1)) by (nonlinear_arith)
        requires
            p <= d + 1,
            x >= 1,
    ;
    assert(4 * (2 * x * p + k) == 8 * x * p + 16 * x * y) by (nonlinear_arith)
        requires
            k == 4 * x * y,
    ;
}

/// The bounds on `D` carried along Newton's method.
proof fn lemma_d_from(x: int, y: int, ann: int, d: int, rounds: nat)
    requires
        x >= 1,
        y >= 1,
        ann >= 4,
        1 <= d <= x + y,
        curve_residual(x, y, ann, d + 1) > 0,
    ensures
        d_from(x, y, ann, d, rounds) matches Ok(r) ==> {
            &&& 2 <= r <= x + y
            &&& curve_residual(x, y, ann, r + 1) > 0
            &&& curve_residual(x, y, ann, r) <= 3 * r + 2 + 8 * x * (r + 1) + 16 * x * y
        },
    decreases rounds,
{
    if rounds > 0 && d_step_fits(x, y, ann, d) {
        let next = d_step(x, y, ann, d);
        lemma_step_above(x, y, ann, d);
        lemma_step_below(x, y, ann, d);
        lemma_residual_geometric(x, y, ann, next + 1);
        if gap(next, d) <= 1 {
            lemma_stop_residual(x, y, ann, d);
        } else {
            lemma_d_from(x, y, ann, next, (rounds - 1) as nat);
        }
    }
}

/// The sum of the reserves, where Newton's method starts, is not below the curve.
pub proof fn lemma_start(x: int, y: int, ann: int)
    requires
        x >= 1,
        y >= 1,
        ann >= 4,
    ensures
        curve_residual(x, y, ann, x + y + 1) > 0,
{
    let s = x + y;
    let k = 4 * x * y;
    assert(k <= s * s) by (nonlinear_arith)
        requires
            k == 4 * x * y,
            s == x + y,
    ;
    assert(k >= 4) by (nonlinear_arith)
        requires
            k == 4 * x * y,
            x >= 1,
            y >= 1,
    ;
    assert(curve_residual(x, y, ann, s + 1) == k * (ann - 1) - k * s + (s + 1) * (s + 1) * (s + 1))
        by (nonlinear_arith)
        requires
            curve_residual(x, y, ann, s + 1) == 4 * x * y * (ann - 1) * (s + 1) + (s + 1) * (s + 1)
                * (s + 1) - 4 * x * y * ann * (x + y),
            k == 4 * x * y,
            s == x + y,
    ;
    assert(k * s <= s * s * s) by (nonlinear_arith)
        requires
            k <= s * s,
            s >= 1,
    ;
    assert((s + 1) * (s + 1) * (s + 1) > s * s * s) by (nonlinear_arith)
        requires
            s >= 1,
    ;
    assert(k * (ann - 1) >= 0) by (nonlinear_arith)
        requires
            k >= 4,
            ann >= 4,
    ;
}

/// The invariant lies between constant product and constant sum: it never exceeds the
/// sum of the reserves, and it is less than one unit below twice their geometric mean.
pub proof fn d_lies_between_the_means(x: u128, y: u128, amp: u128)
    ensures
        invariant_d(x as int, y as int, amp as int) matches Ok(d) ==> {
            &&& 2 <= d <= x + y
            &&& (d + 1) * (d + 1) > 4 * x * y
        },
{
    let r = invariant_d(x as int, y as int, amp as int);
    if r is Ok {
        lemma_ok_amplified(x as int, y as int, amp as int);
        lemma_start(x as int, y as int, amp * 4);
        lemma_d_from(x as int, y as int, amp * 4, x + y, MAX_ITERATIONS as nat);
        lemma_residual_geometric(x as int, y as int, amp * 4, r->Ok_0 + 1);
    }
}

/// A returned invariant solves `4A(x + y) + D = 4AD + D^3 / (4xy)` up to rounding: with
/// the denominator cleared, one more unit overshoots the equation, and `D` itself
/// overshoots it by no more than the roundings of a single Newton step.
pub proof fn d_solves_the_invariant(x: u128, y: u128, amp: u128)
    ensures
        invariant_d(x as int, y as int, amp as int) matches Ok(d) ==> {
            &&& curve_residual(x as int, y as int, amp * 4, d + 1) > 0
            &&& curve_residual(x as int, y as int, amp * 4, d) <= 3 * d + 2 + 8 * x * (d + 1) + 16
                * x * y
        },
{
    if invariant_d(x as int, y as int, amp as int) is Ok {
        lemma_ok_amplified(x as int, y as int, amp as int);
        lemma_start(x as int, y as int, amp * 4);
        lemma_d_from(x as int, y as int, amp * 4, x + y, MAX_ITERATIONS as nat);
    }
}

/// Newton's method succeeds only under a positive amplification.
proof fn lemma_ok_amplified(x: int, y: int, amp: int)
    requires
        x >= 0,
        y >= 0,
        amp >= 0,
        invariant_d(x, y, amp) is Ok,
    ensures
        x >= 1,
        y >= 1,
        amp >= 1,
{
    assert(d_from(x, y, amp * 4, x + y, MAX_ITERATIONS as nat) is Ok);
    assert(d_step_fits(x, y, amp * 4, x + y));
}

} // verus!
