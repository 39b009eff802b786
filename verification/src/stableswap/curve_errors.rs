//! Which failures the two searches on the curve end in, and when.

use vstd::prelude::*;

use crate::stableswap::curve::{
    d_from, d_step, invariant_d, outcome, reserve_y, y_constant, y_from, y_linear, y_step,
    MAX_ITERATIONS,
};
use crate::stableswap::errors::StableSwapError;
use crate::stableswap::fees::fee_outcome;
use crate::stableswap::liquidity::lp_outcome;

verus! {

/// A search for the invariant ends in a value or in one of two failures.
proof fn lemma_d_from_errors(x: int, y: int, ann: int, d: int, rounds: nat)
    ensures
        d_from(x, y, ann, d, rounds) matches Err(e) ==> e == StableSwapError::MathOverflow || e
            == StableSwapError::ConvergenceFailed,
    decreases rounds,
{
    if rounds > 0 {
        lemma_d_from_errors(x, y, ann, d_step(x, y, ann, d), (rounds - 1) as nat);
    }
}

/// A search for a reserve ends in a value or in one of two failures.
proof fn lemma_y_from_errors(b: int, c: int, d: int, y: int, rounds: nat)
    ensures
        y_from(b, c, d, y, rounds) matches Err(e) ==> e == StableSwapError::MathOverflow || e
            == StableSwapError::ConvergenceFailed,
    decreases rounds,
{
    if rounds > 0 {
        lemma_y_from_errors(b, c, d, y_step(b, c, d, y), (rounds - 1) as nat);
    }
}

/// A result is read as it is: a value as its number, a failure as itself.
pub proof fn results_are_read_as_they_are(value: u128, fee: u16, lp: u64, e: StableSwapError)
    ensures
        outcome(Ok(value)) == Ok::<int, StableSwapError>(value as int),
        outcome(Err(e)) == Err::<int, StableSwapError>(e),
        fee_outcome(Ok(fee)) == Ok::<int, StableSwapError>(fee as int),
        fee_outcome(Err(e)) == Err::<int, StableSwapError>(e),
        lp_outcome(Ok(lp)) == Ok::<int, StableSwapError>(lp as int),
        lp_outcome(Err(e)) == Err::<int, StableSwapError>(e),
{
}

/// The invariant of a pool is refused as empty exactly if a reserve is empty, and otherwise
/// only for a product too large or a search without end.
pub proof fn d_errors_are_named(x: int, y: int, amp: int)
    ensures
        invariant_d(x, y, amp) == Err::<int, StableSwapError>(StableSwapError::EmptyPool) <==> x
            == 0 || y == 0,
        invariant_d(x, y, amp) matches Err(e) ==> {
            ||| e == StableSwapError::EmptyPool
            ||| e == StableSwapError::MathOverflow
            ||| e == StableSwapError::ConvergenceFailed
        },
{
    lemma_d_from_errors(x, y, amp * 4, x + y, MAX_ITERATIONS as nat);
}

/// A reserve is refused as empty exactly if the other reserve is empty, and otherwise only
/// for a product too large or a search without end.
pub proof fn y_errors_are_named(x: int, d: int, amp: int)
    ensures
        reserve_y(x, d, amp) == Err::<int, StableSwapError>(StableSwapError::EmptyPool) <==> x
            == 0,
        reserve_y(x, d, amp) matches Err(e) ==> {
            ||| e == StableSwapError::EmptyPool
            ||| e == StableSwapError::MathOverflow
            ||| e == StableSwapError::ConvergenceFailed
        },
{
    lemma_y_from_errors(
        y_linear(x, d, amp * 4),
        y_constant(x, d, amp * 4),
        d,
        d,
        MAX_ITERATIONS as nat,
    );
}

} // verus!
