//! What a swap does to the value of the pool.

use vstd::prelude::*;

use crate::stableswap::curve::invariant_d;
use crate::stableswap::curve_laws::{
    curve_residual, d_lies_between_the_means, d_solves_the_invariant, lemma_residual_form,
};
use crate::stableswap::quote::{quote_splits_the_gross_output, swap_keeps_the_invariant, Trade};

verus! {

/// Reserves beyond a curve stay beyond it when one of them grows.
proof fn lemma_residual_falls_with_reserve(x: int, y: int, more: int, ann: int, d: int)
    requires
        x >= 1,
        1 <= y <= more,
        ann >= 0,
        d >= 0,
        curve_residual(x, y, ann, d) < 0,
    ensures
        curve_residual(x, more, ann, d) < 0,
{
    let c = (ann - 1) * d - ann * x;
    let near = c - ann * y;
    let far = c - ann * more;
    let cube = d * d * d;
    lemma_residual_form(x, y, ann, d);
    lemma_residual_form(x, more, ann, d);
    assert((ann - 1) * d - ann * (x + y) == near) by (nonlinear_arith)
        requires
            c == (ann - 1) * d - ann * x,
            near == c - ann * y,
    ;
    assert((ann - 1) * d - ann * (x + more) == far) by (nonlinear_arith)
        requires
            c == (ann - 1) * d - ann * x,
            far == c - ann * more,
    ;
    assert(cube >= 0) by (nonlinear_arith)
        requires
            cube == d * d * d,
            d >= 0,
    ;
    assert(far <= near) by (nonlinear_arith)
        requires
            near == c - ann * y,
            far == c - ann * more,
            y <= more,
            ann >= 0,
    ;
    let w = 4 * x * y;
    let v = 4 * x * more;
    assert(0 < w <= v) by (nonlinear_arith)
        requires
            w == 4 * x * y,
            v == 4 * x * more,
            x >= 1,
            1 <= y <= more,
    ;
    assert(near < 0) by (nonlinear_arith)
        requires
            w * near < 0,
            w > 0,
    ;
    assert(v * far <= w * near) by (nonlinear_arith)
        requires
            far <= near < 0,
            0 < w <= v,
    ;
}

/// The residual does not fall as `D` grows.
pub proof fn lemma_residual_grows_with_d(x: int, y: int, ann: int, d: int, more: int)
    requires
        x >= 0,
        y >= 0,
        ann >= 1,
        0 <= d <= more,
    ensures
        curve_residual(x, y, ann, d) <= curve_residual(x, y, ann, more),
{
    let w = 4 * x * y;
    let sum = ann * (x + y);
    let low = (ann - 1) * d - sum;
    let high = (ann - 1) * more - sum;
    lemma_residual_form(x, y, ann, d);
    lemma_residual_form(x, y, ann, more);
    assert(w >= 0) by (nonlinear_arith)
        requires
            w == 4 * x * y,
            x >= 0,
            y >= 0,
    ;
    assert(low <= high) by (nonlinear_arith)
        requires
            low == (ann - 1) * d - sum,
            high == (ann - 1) * more - sum,
            ann >= 1,
            d <= more,
    ;
    assert(w * low <= w * high) by (nonlinear_arith)
        requires
            low <= high,
            w >= 0,
    ;
    assert(d * d <= more * more) by (nonlinear_arith)
        requires
            0 <= d <= more,
    ;
    assert(d * d * d <= more * more * more) by (nonlinear_arith)
        requires
            0 <= d <= more,
            0 <= d * d <= more * more,
    ;
}

/// A swap that pays a fee never shrinks the pool: its reserves end up strictly beyond the
/// curve they were on, and the invariant computed of them is no less than before.
pub proof fn swap_never_shrinks_the_invariant(trade: Trade)
    ensures
        trade.price() matches Ok(price) ==> price.fee() >= 1 ==> {
            let after = trade.reserve_out - price.net();
            &&& invariant_d(
                trade.reserve_in as int,
                trade.reserve_out as int,
                trade.amp as int,
            ) matches Ok(d)
            &&& curve_residual(trade.paid_in(), after, trade.amp * 4, d) < 0
            &&& invariant_d(trade.paid_in(), after, trade.amp as int) matches Ok(grown) ==> grown
                >= d
        },
{
    if trade.price() is Ok && trade.price()->Ok_0.fee() >= 1 {
        let price = trade.price()->Ok_0;
        let amp = trade.amp as int;
        let d = invariant_d(trade.reserve_in as int, trade.reserve_out as int, amp)->Ok_0;
        let left = trade.reserve_out - price.gross;
        let after = trade.reserve_out - price.net();
        quote_splits_the_gross_output(trade);
        swap_keeps_the_invariant(trade);
        d_lies_between_the_means(trade.reserve_in, trade.reserve_out, trade.amp);
        lemma_residual_falls_with_reserve(trade.paid_in(), left + 1, after, amp * 4, d);
        if invariant_d(trade.paid_in(), after, amp) is Ok {
            let grown = invariant_d(trade.paid_in(), after, amp)->Ok_0;
            d_solves_the_invariant(trade.paid_in() as u128, after as u128, trade.amp);
            d_lies_between_the_means(trade.paid_in() as u128, after as u128, trade.amp);
            if grown < d {
                lemma_residual_grows_with_d(trade.paid_in(), after, amp * 4, grown + 1, d);
            }
        }
    }
}

} // verus!
