//! The StableSwap invariant `4A(x + y) + D = 4AD + D^3 / (4xy)`, solved for `D`
//! and for one reserve by Newton's method on integers.

use vstd::prelude::*;

use crate::stableswap::errors::StableSwapError;

verus! {

/// Newton's method gives up after this many steps.
pub const MAX_ITERATIONS: u8 = 255;

/// An executable outcome as a mathematical one.
pub open spec fn outcome(r: Result<u128, StableSwapError>) -> Result<int, StableSwapError> {
    match r {
        Ok(v) => Ok(v as int),
        Err(e) => Err(e),
    }
}

/// How far two integers are apart.
pub open spec fn gap(a: int, b: int) -> int {
    if a <= b {
        b - a
    } else {
        a - b
    }
}

/// Whether a non-negative integer fits the machine word of the pool's arithmetic.
pub open spec fn fits(v: int) -> bool {
    v <= u128::MAX
}

/// The product term `D^3 / (4xy)`, rounded down after each of its two divisions.
pub open spec fn product_term(x: int, y: int, d: int) -> int {
    (d * d / (2 * x)) * d / (2 * y)
}

/// One Newton step for `D`, rounded down.
pub open spec fn d_step(x: int, y: int, ann: int, d: int) -> int {
    let dp = product_term(x, y, d);
    ((ann * (x + y) + dp * 2) * d) / ((ann - 1) * d + dp * 3)
}

/// Whether every intermediate value of a Newton step for `D` is representable.
pub open spec fn d_step_fits(x: int, y: int, ann: int, d: int) -> bool {
    let dp = product_term(x, y, d);
    &&& fits(x * 2)
    &&& fits(y * 2)
    &&& fits(d * d)
    &&& fits((d * d / (2 * x)) * d)
    &&& fits(dp * 3)
    &&& fits(ann * (x + y))
    &&& fits(ann * (x + y) + dp * 2)
    &&& fits((ann * (x + y) + dp * 2) * d)
    &&& ann >= 1
    &&& fits((ann - 1) * d)
    &&& fits((ann - 1) * d + dp * 3)
    &&& (ann - 1) * d + dp * 3 > 0
}

/// Where Newton's method ends when it stands at `d` with `rounds` steps left:
/// at the first value that moves by at most one unit.
pub open spec fn d_from(x: int, y: int, ann: int, d: int, rounds: nat) -> Result<
    int,
    StableSwapError,
>
    decreases rounds,
{
    if rounds == 0 {
        Err(StableSwapError::ConvergenceFailed)
    } else if !d_step_fits(x, y, ann, d) {
        Err(StableSwapError::MathOverflow)
    } else {
        let next = d_step(x, y, ann, d);
        if gap(next, d) <= 1 {
            Ok(next)
        } else {
            d_from(x, y, ann, next, (rounds - 1) as nat)
        }
    }
}

/// The invariant `D` of a pool with reserves `x` and `y` and amplification `amp`.
pub open spec fn invariant_d(x: int, y: int, amp: int) -> Result<int, StableSwapError> {
    if x == 0 || y == 0 {
        Err(StableSwapError::EmptyPool)
    } else if !fits(x + y) || !fits(amp * 4) {
        Err(StableSwapError::MathOverflow)
    } else {
        d_from(x, y, amp * 4, x + y, MAX_ITERATIONS as nat)
    }
}

/// The distance between two unsigned integers.
pub(crate) fn distance(a: u128, b: u128) -> (r: u128)
    ensures
        r == gap(a as int, b as int),
{
    if a <= b {
        b - a
    } else {
        a - b
    }
}

/// One Newton step for `D`, or [`StableSwapError::MathOverflow`].
fn next_d(x: u128, y: u128, s: u128, ann: u128, d: u128) -> (r: Result<u128, StableSwapError>)
    requires
        x > 0,
        y > 0,
        s == x + y,
    ensures
        outcome(r) == (if d_step_fits(x as int, y as int, ann as int, d as int) {
            Ok::<int, StableSwapError>(d_step(x as int, y as int, ann as int, d as int))
        } else {
            Err(StableSwapError::MathOverflow)
        }),
{
    let two_x = x.checked_mul(2).ok_or(StableSwapError::MathOverflow)?;
    let two_y = y.checked_mul(2).ok_or(StableSwapError::MathOverflow)?;
    let square = d.checked_mul(d).ok_or(StableSwapError::MathOverflow)?;
    let scaled = (square / two_x).checked_mul(d).ok_or(StableSwapError::MathOverflow)?;
    let dp = scaled / two_y;
    let triple_dp = dp.checked_mul(3).ok_or(StableSwapError::MathOverflow)?;
    let numerator = ann.checked_mul(s).ok_or(StableSwapError::MathOverflow)?.checked_add(
        dp * 2,
    ).ok_or(StableSwapError::MathOverflow)?.checked_mul(d).ok_or(StableSwapError::MathOverflow)?;
    let denominator = ann.checked_sub(1).ok_or(StableSwapError::MathOverflow)?.checked_mul(
        d,
    ).ok_or(StableSwapError::MathOverflow)?.checked_add(triple_dp).ok_or(
        StableSwapError::MathOverflow,
    )?;
    numerator.checked_div(denominator).ok_or(StableSwapError::MathOverflow)
}

/// Compute the StableSwap invariant `D` of two reserves under amplification `amp`.
///
/// Newton's method starts from the sum of the reserves and ends at the first value
/// that moves by at most one unit.
pub fn compute_d(reserve_a: u128, reserve_b: u128, amp: u128) -> (r: Result<u128, StableSwapError>)
    ensures
        outcome(r) == invariant_d(reserve_a as int, reserve_b as int, amp as int),
{
    if !(reserve_a > 0 && reserve_b > 0) {
        return Err(StableSwapError::EmptyPool);
    }
    let s = reserve_a.checked_add(reserve_b).ok_or(StableSwapError::MathOverflow)?;
    let ann = amp.checked_mul(4).ok_or(StableSwapError::MathOverflow)?;
    let mut d = s;
    let mut round: u8 = 0;
    while round < MAX_ITERATIONS
        invariant
            round <= MAX_ITERATIONS,
            reserve_a > 0,
            reserve_b > 0,
            s == reserve_a + reserve_b,
            ann == amp * 4,
            invariant_d(reserve_a as int, reserve_b as int, amp as int) == d_from(
                reserve_a as int,
                reserve_b as int,
                ann as int,
                d as int,
                (MAX_ITERATIONS - round) as nat,
            ),
        decreases MAX_ITERATIONS - round,
    {
        let next = next_d(reserve_a, reserve_b, s, ann, d)?;
        if distance(next, d) <= 1 {
            return Ok(next);
        }
        d = next;
        round = round + 1;
    }
    Err(StableSwapError::ConvergenceFailed)
}

/// The linear coefficient `x + D/4A` of the quadratic `y^2 + (x + D/4A - D) y = D^3 / (16Ax)`.
pub open spec fn y_linear(x: int, d: int, ann: int) -> int {
    x + d / ann
}

/// The constant `D^3 / (16Ax)` of that quadratic.
pub open spec fn y_constant(x: int, d: int, ann: int) -> int {
    (d * d * d) / (x * 4 * ann)
}

/// One Newton step for the reserve `y`, rounded down.
pub open spec fn y_step(b: int, c: int, d: int, y: int) -> int {
    (y * y + c) / (y * 2 + b - d)
}

/// Whether every intermediate value of a Newton step for `y` is representable.
pub open spec fn y_step_fits(b: int, c: int, d: int, y: int) -> bool {
    &&& fits(y * y)
    &&& fits(y * y + c)
    &&& fits(y * 2)
    &&& fits(y * 2 + b)
    &&& y * 2 + b - d > 0
}

/// Where Newton's method ends when it stands at `y` with `rounds` steps left.
pub open spec fn y_from(b: int, c: int, d: int, y: int, rounds: nat) -> Result<int, StableSwapError>
    decreases rounds,
{
    if rounds == 0 {
        Err(StableSwapError::ConvergenceFailed)
    } else if !y_step_fits(b, c, d, y) {
        Err(StableSwapError::MathOverflow)
    } else {
        let next = y_step(b, c, d, y);
        if gap(next, y) <= 1 {
            Ok(next)
        } else {
            y_from(b, c, d, next, (rounds - 1) as nat)
        }
    }
}

/// Whether the coefficients of the quadratic for `y` are representable.
pub open spec fn y_coefficients_fit(x: int, d: int, ann: int) -> bool {
    &&& ann > 0
    &&& fits(y_linear(x, d, ann))
    &&& fits(d * d)
    &&& fits(d * d * d)
    &&& fits(x * 4)
    &&& fits(x * 4 * ann)
}

/// The reserve that keeps the invariant at `d` when the other reserve is `x`.
pub open spec fn reserve_y(x: int, d: int, amp: int) -> Result<int, StableSwapError> {
    let ann = amp * 4;
    if x == 0 {
        Err(StableSwapError::EmptyPool)
    } else if !fits(ann) || !y_coefficients_fit(x, d, ann) {
        Err(StableSwapError::MathOverflow)
    } else {
        y_from(y_linear(x, d, ann), y_constant(x, d, ann), d, d, MAX_ITERATIONS as nat)
    }
}

/// One Newton step for `y`, or [`StableSwapError::MathOverflow`].
fn next_y(b: u128, c: u128, d: u128, y: u128) -> (r: Result<u128, StableSwapError>)
    ensures
        outcome(r) == (if y_step_fits(b as int, c as int, d as int, y as int) {
            Ok::<int, StableSwapError>(y_step(b as int, c as int, d as int, y as int))
        } else {
            Err(StableSwapError::MathOverflow)
        }),
{
    let numerator = y.checked_mul(y).ok_or(StableSwapError::MathOverflow)?.checked_add(c).ok_or(
        StableSwapError::MathOverflow,
    )?;
    let denominator = y.checked_mul(2).ok_or(StableSwapError::MathOverflow)?.checked_add(b).ok_or(
        StableSwapError::MathOverflow,
    )?.checked_sub(d).ok_or(StableSwapError::MathOverflow)?;
    numerator.checked_div(denominator).ok_or(StableSwapError::MathOverflow)
}

/// Given the new reserve of one token, compute the reserve of the other that keeps
/// the invariant at `d`.
///
/// Newton's method starts from `d` and ends at the first value that moves by at
/// most one unit.
pub fn compute_y(reserve_other: u128, d: u128, amp: u128) -> (r: Result<u128, StableSwapError>)
    ensures
        outcome(r) == reserve_y(reserve_other as int, d as int, amp as int),
{
    if !(reserve_other > 0) {
        return Err(StableSwapError::EmptyPool);
    }
    let ann = amp.checked_mul(4).ok_or(StableSwapError::MathOverflow)?;
    let b = reserve_other.checked_add(
        d.checked_div(ann).ok_or(StableSwapError::MathOverflow)?,
    ).ok_or(StableSwapError::MathOverflow)?;
    let cube = d.checked_mul(d).ok_or(StableSwapError::MathOverflow)?.checked_mul(d).ok_or(
        StableSwapError::MathOverflow,
    )?;
    let scale = reserve_other.checked_mul(4).ok_or(StableSwapError::MathOverflow)?.checked_mul(
        ann,
    ).ok_or(StableSwapError::MathOverflow)?;
    assert(scale > 0) by (nonlinear_arith)
        requires
            scale == reserve_other * 4 * ann,
            reserve_other > 0,
            ann > 0,
    ;
    let c = cube / scale;
    let mut y = d;
    let mut round: u8 = 0;
    while round < MAX_ITERATIONS
        invariant
            round <= MAX_ITERATIONS,
            reserve_y(reserve_other as int, d as int, amp as int) == y_from(
                b as int,
                c as int,
                d as int,
                y as int,
                (MAX_ITERATIONS - round) as nat,
            ),
        decreases MAX_ITERATIONS - round,
    {
        let next = next_y(b, c, d, y)?;
        if distance(next, y) <= 1 {
            return Ok(next);
        }
        y = next;
        round = round + 1;
    }
    Err(StableSwapError::ConvergenceFailed)
}

} // verus!
