//! When the search for the reserve that a trade leaves in the pool succeeds.

use vstd::arithmetic::power2::{lemma2_to64, lemma_pow2_adds, lemma_pow2_unfold, pow2};
use vstd::prelude::*;

use crate::stableswap::curve::{
    gap, invariant_d, outcome, reserve_y, y_coefficients_fit, y_constant, y_from, y_linear, y_step,
    y_step_fits, MAX_ITERATIONS,
};
use crate::stableswap::curve_laws::{d_lies_between_the_means, lemma_floor, lemma_quotient};
use crate::stableswap::errors::StableSwapError;
use crate::stableswap::quote::Trade;
use crate::stableswap::trade_laws::{lemma_y_constant, y_solves_the_quadratic};

verus! {

/// Whether `r` is the root of `y^2 + ey = c`, rounded down.
pub open spec fn is_root(e: int, c: int, r: int) -> bool {
    &&& r >= 0
    &&& r * r + e * r <= c
    &&& (r + 1) * (r + 1) + e * (r + 1) > c
}

/// The root lies below any value that overshoots the equation.
proof fn lemma_root_below(e: int, c: int, n: int) -> (r: int)
    requires
        c >= 0,
        n >= 1,
        n * n + e * n > c,
    ensures
        is_root(e, c, r),
    decreases n,
{
    let m = n - 1;
    if m * m + e * m <= c {
        m
    } else {
        assert(m >= 1) by {
            if m == 0 {
                assert(m * m + e * m == 0) by (nonlinear_arith)
                    requires
                        m == 0,
                ;
            }
        }
        lemma_root_below(e, c, m)
    }
}

/// There is a root.
proof fn lemma_root_exists(e: int, c: int) -> (r: int)
    requires
        c >= 0,
    ensures
        is_root(e, c, r),
{
    let n = c + 1 + if e < 0 {
        -e
    } else {
        0
    };
    assert(n * n + e * n > c) by (nonlinear_arith)
        requires
            n >= c + 1,
            n + e >= c + 1,
            c >= 0,
    ;
    lemma_root_below(e, c, n)
}

/// One step from `y` never undershoots the root. From the root it rises by at most one
/// unit; from above it falls, and halves the distance to the value after the root. A step
/// that goes on leaves a positive denominator for the next one.
proof fn lemma_y_step(b: int, c: int, d: int, y: int, r: int)
    requires
        c >= 0,
        y >= 0,
        y * 2 + b - d > 0,
        is_root(b - d, c, r),
    ensures
        y_step(b, c, d, y) >= r,
        y_step(b, c, d, y) <= y * y + c,
        y == r ==> y_step(b, c, d, y) <= r + 1,
        y > r ==> y_step(b, c, d, y) < y,
        y > r ==> 2 * (y_step(b, c, d, y) - (r + 1)) <= y - (r + 1),
        gap(y_step(b, c, d, y), y) > 1 ==> y_step(b, c, d, y) * 2 + b - d > 0,
{
    let e = b - d;
    let num = y * y + c;
    let den = y * 2 + e;
    let next = y_step(b, c, d, y);
    let s = r + 1;
    lemma_floor(num, den);
    assert(num >= 0) by (nonlinear_arith)
        requires
            num == y * y + c,
            c >= 0,
    ;
    assert(s + e >= 1) by (nonlinear_arith)
        requires
            s * s + e * s > c,
            c >= 0,
            s >= 1,
    ;
    assert(next >= r) by {
        assert(r * den <= num) by (nonlinear_arith)
            requires
                r * r + e * r <= c,
                num == y * y + c,
                den == y * 2 + e,
        ;
        assert(next + 1 > r) by (nonlinear_arith)
            requires
                r * den <= num,
                num < den * next + den,
                den > 0,
        ;
    }
    assert(next <= num) by (nonlinear_arith)
        requires
            den * next <= num,
            den >= 1,
            next >= 0,
    ;
    if y == r {
        assert(num < (s + 1) * den) by (nonlinear_arith)
            requires
                num == y * y + c,
                den == y * 2 + e,
                y == r,
                s == r + 1,
                c < s * s + e * s,
                den >= 1,
                s + e >= 1,
                r >= 0,
        ;
        assert(next < s + 1) by (nonlinear_arith)
            requires
                den * next <= num,
                num < (s + 1) * den,
                den > 0,
        ;
    }
    if y > r {
        let far = y - s;
        assert((next - s) * den < far * far + 1) by (nonlinear_arith)
            requires
                den * next <= num,
                num == y * y + c,
                den == y * 2 + e,
                c < s * s + e * s,
                far == y - s,
        ;
        assert(y * y + e * y > c) by (nonlinear_arith)
            requires
                s * s + e * s > c,
                y >= s,
                s + e >= 1,
                s >= 1,
        ;
        assert(next < y) by (nonlinear_arith)
            requires
                den * next <= num,
                num == y * y + c,
                den == y * 2 + e,
                y * y + e * y > c,
                den > 0,
        ;
        assert(den >= 2 * far + 1) by {
            assert(den == 2 * far + 2 * s + e);
        }
        assert(2 * (next - s) <= far) by (nonlinear_arith)
            requires
                (next - s) * den < far * far + 1,
                den >= 2 * far + 1,
                far >= 0,
        ;
    }
    if gap(next, y) > 1 && next * 2 + e <= 0 {
        assert(next == 0 && r == 0 && e == 0);
        assert(c == 0) by (nonlinear_arith)
            requires
                s * s + e * s > c,
                s == 1,
                e == 0,
                c >= 0,
        ;
        assert(y < 2) by (nonlinear_arith)
            requires
                num < den * next + den,
                num == y * y + c,
                den == y * 2 + e,
                next == 0,
                e == 0,
                c == 0,
        ;
    }
}

/// From at most `2^k` beyond the root, `k + 1` steps are enough.
proof fn lemma_y_settles(b: int, c: int, d: int, y: int, r: int, k: nat, rounds: nat)
    requires
        c >= 0,
        is_root(b - d, c, r),
        r <= y,
        y - (r + 1) < pow2(k),
        rounds >= k + 1,
    ensures
        y_from(b, c, d, y, rounds) != Err::<int, StableSwapError>(
            StableSwapError::ConvergenceFailed,
        ),
    decreases k,
{
    if y_step_fits(b, c, d, y) {
        lemma_y_step(b, c, d, y, r);
        let next = y_step(b, c, d, y);
        if gap(next, y) > 1 {
            lemma2_to64();
            assert(k > 0);
            lemma_pow2_unfold(k);
            lemma_y_settles(b, c, d, next, r, (k - 1) as nat, (rounds - 1) as nat);
        }
    }
}

/// The search for the reserve of a trade always settles: where it does not give up on a
/// value too large for the machine word, the distance to the root halves with every step,
/// so that the steps allowed are enough.
pub proof fn y_search_always_settles(x: u128, d: u128, amp: u128)
    ensures
        reserve_y(x as int, d as int, amp as int) != Err::<int, StableSwapError>(
            StableSwapError::ConvergenceFailed,
        ),
{
    let ann = amp * 4;
    if x > 0 && y_coefficients_fit(x as int, d as int, ann) {
        let b = y_linear(x as int, d as int, ann);
        let c = y_constant(x as int, d as int, ann);
        let di = d as int;
        lemma_y_constant(x as int, di, ann);
        let r = lemma_root_exists(b - di, c);
        lemma2_to64();
        lemma_pow2_adds(64, 64);
        assert(pow2(128) == 0x1_0000_0000_0000_0000_0000_0000_0000_0000) by (nonlinear_arith)
            requires
                pow2(128) == pow2(64) * pow2(64),
                pow2(64) == 0x1_0000_0000_0000_0000,
        ;
        if r <= di {
            lemma_y_settles(b, c, di, di, r, 128, MAX_ITERATIONS as nat);
        } else if y_step_fits(b, c, di, di) {
            lemma_y_step(b, c, di, di, r);
            lemma_y_settles(
                b,
                c,
                di,
                y_step(b, c, di, di),
                r,
                128,
                (MAX_ITERATIONS - 1) as nat,
            );
        }
    }
}

/// Steps that start below `2^62` with moderate coefficients fit the machine word.
proof fn lemma_y_settles_in_range(b: int, c: int, d: int, y: int, r: int, k: nat, rounds: nat)
    requires
        0 <= c <= 0x4000_0000_0000_0000_0000_0000_0000_0000,
        0 <= b <= 0x2_0000_0000_0000_0000,
        is_root(b - d, c, r),
        r <= y <= 0x4000_0000_0000_0000,
        y * 2 + b - d > 0,
        y - (r + 1) < pow2(k),
        rounds >= k + 1,
    ensures
        y_from(b, c, d, y, rounds) is Ok,
    decreases k,
{
    assert(y * y <= 0x1000_0000_0000_0000_0000_0000_0000_0000) by (nonlinear_arith)
        requires
            0 <= y <= 0x4000_0000_0000_0000,
    ;
    assert(y_step_fits(b, c, d, y));
    lemma_y_step(b, c, d, y, r);
    let next = y_step(b, c, d, y);
    if gap(next, y) > 1 {
        lemma2_to64();
        assert(k > 0);
        lemma_pow2_unfold(k);
        lemma_y_settles_in_range(b, c, d, next, r, (k - 1) as nat, (rounds - 1) as nat);
    }
}

/// The reserve of a trade is found in every pool of up to `2^42` units whose paid-in side is
/// not vanishingly small: `D^2` may be up to `2^64` times it, so that `2^20` units, about
/// one token of six decimals, are always enough.
pub proof fn y_is_found(x: u128, d: u128, amp: u128)
    requires
        1 <= x <= 0x1_0000_0000_0000_0000,
        d <= 0x400_0000_0000,
        d * d <= x * 0x1_0000_0000_0000_0000,
        1 <= amp <= 1_000_000,
    ensures
        reserve_y(x as int, d as int, amp as int) is Ok,
{
    let ann = amp * 4;
    let xi = x as int;
    let di = d as int;
    let m = xi * 4 * ann;
    let square = di * di;
    let cube = square * di;
    assert(square <= 0x10_0000_0000_0000_0000_0000) by (nonlinear_arith)
        requires
            square == di * di,
            0 <= di <= 0x400_0000_0000,
    ;
    assert(0 <= cube <= 0x4000_0000_0000_0000_0000_0000_0000_0000) by (nonlinear_arith)
        requires
            cube == square * di,
            0 <= di <= 0x400_0000_0000,
            0 <= square <= 0x10_0000_0000_0000_0000_0000,
    ;
    assert(16 * xi <= m <= 0x100_0000_0000_0000_0000_0000_0000) by (nonlinear_arith)
        requires
            m == xi * 4 * ann,
            4 <= ann <= 4_000_000,
            1 <= xi <= 0x1_0000_0000_0000_0000,
    ;
    lemma_y_constant(xi, di, ann);
    lemma_floor(di, ann);
    lemma_floor(cube, m);
    let b = y_linear(xi, di, ann);
    let c = y_constant(xi, di, ann);
    assert(0 <= di / ann <= di) by (nonlinear_arith)
        requires
            ann * (di / ann) <= di < ann * (di / ann) + ann,
            di >= 0,
            ann >= 1,
    ;
    assert(c <= cube) by (nonlinear_arith)
        requires
            m * c <= cube,
            m >= 1,
            c >= 0,
    ;
    assert(16 * xi * c <= cube) by (nonlinear_arith)
        requires
            m * c <= cube,
            16 * xi <= m,
            c >= 0,
    ;
    assert(c <= di * 0x1000_0000_0000_0000) by (nonlinear_arith)
        requires
            16 * xi * c <= cube,
            cube == square * di,
            square <= xi * 0x1_0000_0000_0000_0000,
            xi >= 1,
            di >= 0,
    ;
    let r = lemma_root_exists(b - di, c);
    lemma2_to64();
    if r <= di {
        lemma_y_settles_in_range(b, c, di, di, r, 64, MAX_ITERATIONS as nat);
    } else {
        lemma_y_step(b, c, di, di, r);
        let next = y_step(b, c, di, di);
        let den = di * 2 + b - di;
        lemma_floor(square + c, den);
        assert(next <= 0x2000_0000_0000_0000) by (nonlinear_arith)
            requires
                den * next <= square + c,
                den >= di + 1,
                square == di * di,
                c <= di * 0x1000_0000_0000_0000,
                0 <= di <= 0x400_0000_0000,
                next >= 0,
        ;
        assert(y_step_fits(b, c, di, di));
        if gap(next, di) > 1 {
            lemma_y_settles_in_range(b, c, di, next, r, 64, (MAX_ITERATIONS - 1) as nat);
        }
    }
}

/// Steps that stay at or below `top` fit the machine word if the products of `top` do.
proof fn lemma_y_settles_below(
    b: int,
    c: int,
    d: int,
    y: int,
    r: int,
    top: int,
    k: nat,
    rounds: nat,
)
    requires
        c >= 0,
        b >= 0,
        is_root(b - d, c, r),
        r <= y <= top,
        top * top + c <= u128::MAX,
        2 * top + b <= u128::MAX,
        y * 2 + b - d > 0,
        y - (r + 1) < pow2(k),
        rounds >= k + 1,
    ensures
        y_from(b, c, d, y, rounds) is Ok,
    decreases k,
{
    assert(y * y <= top * top) by (nonlinear_arith)
        requires
            0 <= y <= top,
    ;
    assert(y_step_fits(b, c, d, y));
    lemma_y_step(b, c, d, y, r);
    let next = y_step(b, c, d, y);
    if gap(next, y) > 1 {
        lemma2_to64();
        assert(k > 0);
        lemma_pow2_unfold(k);
        lemma_y_settles_below(b, c, d, next, r, top, (k - 1) as nat, (rounds - 1) as nat);
    }
}

/// The reserve of a trade is found whenever the products fit the machine word: `16Ax`, `D^3`
/// and, for a bound `top` on the first two values of the search, `top^2 + D^3 / 16Ax` and
/// `2 top + x + D`.
pub proof fn y_is_found_while_products_fit(x: u128, d: u128, amp: u128, top: int)
    requires
        x >= 1,
        amp >= 1,
        x * 4 * (amp * 4) <= u128::MAX,
        d * d * d <= u128::MAX,
        d <= top,
        d * d + (d * d * d) / (x * 4 * (amp * 4)) < (top + 1) * (d + x),
        top * top + (d * d * d) / (x * 4 * (amp * 4)) <= u128::MAX,
        2 * top + x + d <= u128::MAX,
    ensures
        reserve_y(x as int, d as int, amp as int) is Ok,
{
    let ann = amp * 4;
    let xi = x as int;
    let di = d as int;
    let b = y_linear(xi, di, ann);
    let c = y_constant(xi, di, ann);
    lemma_y_constant(xi, di, ann);
    lemma_floor(di, ann);
    assert(0 <= di / ann <= di) by (nonlinear_arith)
        requires
            ann * (di / ann) <= di < ann * (di / ann) + ann,
            di >= 0,
            ann >= 1,
    ;
    assert(di * di <= u128::MAX) by (nonlinear_arith)
        requires
            di * di * di <= u128::MAX,
            di >= 0,
    ;
    assert(ann <= xi * 4 * ann && xi * 4 <= xi * 4 * ann) by (nonlinear_arith)
        requires
            xi >= 1,
            ann >= 4,
    ;
    let r = lemma_root_exists(b - di, c);
    lemma2_to64();
    lemma_pow2_adds(64, 64);
    assert(pow2(128) == 0x1_0000_0000_0000_0000_0000_0000_0000_0000) by (nonlinear_arith)
        requires
            pow2(128) == pow2(64) * pow2(64),
            pow2(64) == 0x1_0000_0000_0000_0000,
    ;
    if r <= di {
        lemma_y_settles_below(b, c, di, di, r, top, 128, MAX_ITERATIONS as nat);
    } else {
        lemma_y_step(b, c, di, di, r);
        let next = y_step(b, c, di, di);
        let den = di * 2 + b - di;
        lemma_floor(di * di + c, den);
        assert(next <= top) by (nonlinear_arith)
            requires
                den * next <= di * di + c,
                di * di + c < (top + 1) * (di + xi),
                den >= di + xi,
                di + xi >= 1,
                next >= 0,
        ;
        assert(di * di <= top * top) by (nonlinear_arith)
            requires
                0 <= di <= top,
        ;
        assert(y_step_fits(b, c, di, di));
        if gap(next, di) > 1 {
            lemma_y_settles_below(b, c, di, next, r, top, 128, (MAX_ITERATIONS - 1) as nat);
        }
    }
}

/// A found reserve solves `y^2 + (x + D/4A - D) y = D^3 / 16Ax` to the unit, where `part` is
/// `D/4A` and `constant` is `D^3 / 16Ax`, each rounded down.
pub proof fn found_reserve_solves_the_equation(
    x: u128,
    d: u128,
    amp: u128,
    part: int,
    constant: int,
    r: Result<u128, StableSwapError>,
)
    requires
        outcome(r) == reserve_y(x as int, d as int, amp as int),
        part * (4 * amp) <= d < (part + 1) * (4 * amp),
        constant * (16 * amp * x) <= d * d * d < (constant + 1) * (16 * amp * x),
    ensures
        r matches Ok(y) ==> {
            &&& y * y + (x + part - d) * y <= constant + 1
            &&& (y + 1) * (y + 1) + (x + part - d) * (y + 1) > constant
        },
{
    if r is Ok {
        let ann = amp * 4;
        let xi = x as int;
        let m = xi * 4 * ann;
        assert(m == 16 * amp * x) by (nonlinear_arith)
            requires
                m == xi * 4 * ann,
                ann == amp * 4,
                xi == x,
        ;
        assert(m > 0) by (nonlinear_arith)
            requires
                m == xi * 4 * ann,
                xi >= 1,
                ann >= 1,
        ;
        lemma_quotient(d as int, ann, part);
        lemma_quotient(d * d * d, m, constant);
        y_solves_the_quadratic(x, d, amp);
    }
}

/// Once the invariant of a pool of up to `2^42` units is found, so is the reserve that a
/// trade leaves in it, if the trader's side then holds `2^20` units or more.
pub proof fn found_invariant_settles_the_trade(trade: Trade)
    requires
        trade.reserve_in + trade.reserve_out <= 0x400_0000_0000,
        0x10_0000 <= trade.paid_in() <= 0x1_0000_0000_0000_0000,
        1 <= trade.amp <= 1_000_000,
    ensures
        invariant_d(
            trade.reserve_in as int,
            trade.reserve_out as int,
            trade.amp as int,
        ) is Ok ==> trade.reserve_left() is Ok,
{
    let found = invariant_d(
        trade.reserve_in as int,
        trade.reserve_out as int,
        trade.amp as int,
    );
    if found is Ok {
        let d = found->Ok_0;
        let x = trade.paid_in();
        d_lies_between_the_means(trade.reserve_in, trade.reserve_out, trade.amp);
        assert(d * d <= x * 0x1_0000_0000_0000_0000) by (nonlinear_arith)
            requires
                0 <= d <= 0x400_0000_0000,
                x >= 0x10_0000,
        ;
        y_is_found(x as u128, d as u128, trade.amp);
    }
}

} // verus!
