//! What holds of the reserve that a trade leaves in the pool.

use vstd::prelude::*;

use crate::stableswap::curve::{
    gap, reserve_y, y_constant, y_from, y_linear, y_step, y_step_fits, MAX_ITERATIONS,
};
use crate::stableswap::curve_laws::{curve_residual, lemma_floor};

verus! {

/// Where Newton's method for `y` stops, the quadratic is solved to the unit.
proof fn lemma_y_from(b: int, c: int, d: int, y: int, rounds: nat)
    requires
        c >= 0,
        y >= 0,
    ensures
        y_from(b, c, d, y, rounds) matches Ok(r) ==> {
            &&& r >= 0
            &&& r * r + (b - d) * r <= c + 1
            &&& (r + 1) * (r + 1) + (b - d) * (r + 1) > c
        },
    decreases rounds,
{
    if rounds > 0 && y_step_fits(b, c, d, y) {
        let num = y * y + c;
        let den = y * 2 + b - d;
        let r = y_step(b, c, d, y);
        assert(num >= 0) by (nonlinear_arith)
            requires
                num == y * y + c,
                c >= 0,
        ;
        lemma_floor(num, den);
        assert(r >= 0) by (nonlinear_arith)
            requires
                num < den * r + den,
                num >= 0,
                den > 0,
        ;
        if gap(r, y) <= 1 {
            assert(r * r + (b - d) * r - c <= (r - y) * (r - y)) by (nonlinear_arith)
                requires
                    den * r <= num,
                    num == y * y + c,
                    den == y * 2 + b - d,
            ;
            assert((r - y) * (r - y) <= 1) by (nonlinear_arith)
                requires
                    -1 <= r - y <= 1,
            ;
            let t = r + 1;
            assert(t * t + (b - d) * t - c > (t - y) * (t - y)) by (nonlinear_arith)
                requires
                    num < den * r + den,
                    num == y * y + c,
                    den == y * 2 + b - d,
                    t == r + 1,
            ;
            assert((t - y) * (t - y) >= 0) by (nonlinear_arith);
        } else {
            lemma_y_from(b, c, d, r, (rounds - 1) as nat);
        }
    }
}

/// The coefficients of a solvable quadratic are non-negative.
pub proof fn lemma_y_constant(x: int, d: int, ann: int)
    requires
        x >= 1,
        d >= 0,
        ann >= 1,
    ensures
        x * 4 * ann > 0,
        y_constant(x, d, ann) >= 0,
{
    assert(x * 4 * ann > 0) by (nonlinear_arith)
        requires
            x >= 1,
            ann >= 1,
    ;
    assert(d * d * d >= 0) by (nonlinear_arith)
        requires
            d >= 0,
    ;
    lemma_floor(d * d * d, x * 4 * ann);
    let c = y_constant(x, d, ann);
    let m = x * 4 * ann;
    assert(c >= 0) by (nonlinear_arith)
        requires
            d * d * d < m * c + m,
            d * d * d >= 0,
            m > 0,
    ;
}

/// A returned reserve solves `y^2 + (x + D/4A - D) y = D^3 / (16Ax)` to the unit: `y`
/// overshoots the equation by at most one, and `y + 1` overshoots it for certain.
pub proof fn y_solves_the_quadratic(x: u128, d: u128, amp: u128)
    ensures
        reserve_y(x as int, d as int, amp as int) matches Ok(y) ==> {
            let b = y_linear(x as int, d as int, amp * 4);
            let c = y_constant(x as int, d as int, amp * 4);
            &&& y >= 0
            &&& y * y + (b - d) * y <= c + 1
            &&& (y + 1) * (y + 1) + (b - d) * (y + 1) > c
        },
{
    if reserve_y(x as int, d as int, amp as int) is Ok {
        lemma_y_constant(x as int, d as int, amp * 4);
        lemma_y_from(
            y_linear(x as int, d as int, amp * 4),
            y_constant(x as int, d as int, amp * 4),
            d as int,
            d as int,
            MAX_ITERATIONS as nat,
        );
    }
}

/// A trade cannot take the last unit of a reserve as long as the constant of the quadratic
/// outweighs its other coefficients at one unit.
pub proof fn trade_never_drains_the_pool(x: u128, d: u128, amp: u128)
    requires
        y_constant(x as int, d as int, amp * 4) >= 1 + y_linear(x as int, d as int, amp * 4) - d,
    ensures
        reserve_y(x as int, d as int, amp as int) matches Ok(y) ==> y >= 1,
{
    y_solves_the_quadratic(x, d, amp);
    let r = reserve_y(x as int, d as int, amp as int);
    if r is Ok && r->Ok_0 == 0 {
        let t: int = 1;
        let e = y_linear(x as int, d as int, amp * 4) - d;
        assert(t * t + e * t == 1 + e) by (nonlinear_arith)
            requires
                t == 1,
        ;
    }
}

/// The reserves after a trade stay on the curve of the same `D`: with the new reserve
/// `y` the cleared invariant equation is short of zero by at most the roundings of its
/// two coefficients, and one more unit in the pool would overshoot it.
pub proof fn y_keeps_the_invariant(x: u128, d: u128, amp: u128)
    ensures
        reserve_y(x as int, d as int, amp as int) matches Ok(y) ==> {
            &&& curve_residual(x as int, y + 1, amp * 4, d as int) < 0
            &&& curve_residual(x as int, y, amp * 4, d as int) >= -(4 * (amp * 4) * x * (y + 1))
        },
{
    let r = reserve_y(x as int, d as int, amp as int);
    if r is Ok {
        let ann = amp * 4;
        let xi = x as int;
        let di = d as int;
        let y = r->Ok_0;
        let b = y_linear(xi, di, ann);
        let c = y_constant(xi, di, ann);
        let m = xi * 4 * ann;
        y_solves_the_quadratic(x, d, amp);
        lemma_y_constant(xi, di, ann);
        lemma_floor(di, ann);
        lemma_floor(di * di * di, m);
        let rd = di - ann * (di / ann);
        let rc = di * di * di - m * c;
        assert(ann * b == ann * xi + di - rd) by (nonlinear_arith)
            requires
                b == xi + di / ann,
                rd == di - ann * (di / ann),
        ;
        lemma_residual_as_quadratic(xi, y, ann, di, b, c, rd, rc);
        lemma_residual_as_quadratic(xi, y + 1, ann, di, b, c, rd, rc);
        let g0 = y * y + (b - di) * y - c;
        let g1 = (y + 1) * (y + 1) + (b - di) * (y + 1) - c;
        assert(m * g0 <= m) by (nonlinear_arith)
            requires
                g0 <= 1,
                m > 0,
        ;
        assert(m * g1 >= m) by (nonlinear_arith)
            requires
                g1 >= 1,
                m > 0,
        ;
        assert(4 * xi * rd * y <= m * y) by (nonlinear_arith)
            requires
                m == xi * 4 * ann,
                rd <= ann,
                xi >= 0,
                y >= 0,
        ;
        assert(4 * xi * rd * (y + 1) >= 0) by (nonlinear_arith)
            requires
                xi >= 0,
                rd >= 0,
                y >= 0,
        ;
        assert(m + m * y == 4 * ann * xi * (y + 1)) by (nonlinear_arith)
            requires
                m == xi * 4 * ann,
        ;
    }
}

/// The cleared invariant equation, written through the rounded coefficients of the
/// quadratic and what their roundings dropped.
proof fn lemma_residual_as_quadratic(
    x: int,
    y: int,
    ann: int,
    d: int,
    b: int,
    c: int,
    rd: int,
    rc: int,
)
    requires
        ann * b == ann * x + d - rd,
        rc == d * d * d - x * 4 * ann * c,
    ensures
        -curve_residual(x, y, ann, d) == x * 4 * ann * (y * y + (b - d) * y - c) + 4 * x * rd * y
            - rc,
{
    let w = 4 * x * y;
    let m = x * 4 * ann;
    let e = b - d;
    assert(ann * x + d - ann * d == ann * e + rd) by (nonlinear_arith)
        requires
            ann * b == ann * x + d - rd,
            e == b - d,
    ;
    assert(w * (ann - 1) * d == w * (ann * d) - w * d) by (nonlinear_arith);
    assert(w * ann * (x + y) == w * (ann * x) + w * (ann * y)) by (nonlinear_arith);
    assert(w * (ann * x + d - ann * d) == w * (ann * x) + w * d - w * (ann * d))
        by (nonlinear_arith);
    assert(w * (ann * e + rd) == w * (ann * e) + w * rd) by (nonlinear_arith);
    assert(w * (ann * y) == m * (y * y)) by (nonlinear_arith)
        requires
            w == 4 * x * y,
            m == x * 4 * ann,
    ;
    assert(w * (ann * e) == m * (e * y)) by (nonlinear_arith)
        requires
            w == 4 * x * y,
            m == x * 4 * ann,
    ;
    assert(w * rd == 4 * x * rd * y) by (nonlinear_arith)
        requires
            w == 4 * x * y,
    ;
    let g = y * y;
    let h = e * y;
    assert(m * (g + h - c) == m * g + m * h - m * c) by (nonlinear_arith);
}

} // verus!
