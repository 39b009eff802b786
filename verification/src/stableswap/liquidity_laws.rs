//! What deposits earn and withdrawals pay, in terms of invariants, reserves and shares.

use vstd::prelude::*;

use crate::stableswap::curve::invariant_d;
use crate::stableswap::curve_laws::{d_lies_between_the_means, lemma_floor};
use crate::stableswap::errors::StableSwapError;
use crate::stableswap::liquidity::{lp_mint, lp_outcome, withdrawal, withdrawal_agrees};

verus! {

/// The first deposit earns the invariant it creates less the locked shares, and is refused
/// only if that invariant cannot be computed or does not exceed the locked shares.
pub proof fn first_deposit_earns_the_invariant(
    a_before: u128,
    b_before: u128,
    a: u128,
    b: u128,
    amp: u128,
    locked: u64,
    r: Result<u64, StableSwapError>,
)
    requires
        lp_outcome(r) == lp_mint(
            a_before as int,
            b_before as int,
            a as int,
            b as int,
            0,
            amp as int,
            locked as int,
        ),
    ensures
        match invariant_d(a as int, b as int, amp as int) {
            Err(e) => r == Err::<u64, StableSwapError>(e),
            Ok(d) => match r {
                Ok(lp) => {
                    &&& d > locked
                    &&& d - locked <= u64::MAX ==> lp == d - locked
                    &&& d - locked > u64::MAX ==> lp == u64::MAX
                },
                Err(e) => e == StableSwapError::InsufficientInitialLiquidity && d <= locked,
            },
        },
{
}

/// A later deposit earns the share of the LP supply by which the invariant grows, rounded
/// down. It is refused only if one of the invariants cannot be computed, the invariant
/// falls, or the product of supply and growth is too large.
pub proof fn later_deposit_earns_the_growth(
    a_before: u128,
    b_before: u128,
    a_after: u128,
    b_after: u128,
    supply: u128,
    amp: u128,
    locked: u64,
    r: Result<u64, StableSwapError>,
)
    requires
        supply > 0,
        lp_outcome(r) == lp_mint(
            a_before as int,
            b_before as int,
            a_after as int,
            b_after as int,
            supply as int,
            amp as int,
            locked as int,
        ),
    ensures
        match (
            invariant_d(a_before as int, b_before as int, amp as int),
            invariant_d(a_after as int, b_after as int, amp as int),
        ) {
            (Err(e), _) => r == Err::<u64, StableSwapError>(e),
            (Ok(_), Err(e)) => r == Err::<u64, StableSwapError>(e),
            (Ok(before), Ok(after)) => match r {
                Ok(lp) => {
                    &&& after >= before
                    &&& supply * (after - before) <= u128::MAX
                    &&& lp * before <= supply * (after - before)
                    &&& lp < u64::MAX ==> supply * (after - before) < (lp + 1) * before
                },
                Err(StableSwapError::InsufficientLiquidity) => after < before,
                Err(StableSwapError::MathOverflow) => {
                    &&& after >= before
                    &&& supply * (after - before) > u128::MAX
                },
                Err(_) => false,
            },
        },
{
    let before = invariant_d(a_before as int, b_before as int, amp as int);
    let after = invariant_d(a_after as int, b_after as int, amp as int);
    if before is Ok && after is Ok {
        let d = before->Ok_0;
        let grown = supply * (after->Ok_0 - d);
        d_lies_between_the_means(a_before, b_before, amp);
        lemma_floor(grown, d);
        let q = grown / d;
        assert(q * d == d * q && (q + 1) * d == d * q + d) by (nonlinear_arith);
        if r is Ok {
            let lp = r->Ok_0 as int;
            assert(lp * d <= q * d) by (nonlinear_arith)
                requires
                    lp <= q,
                    d > 0,
            ;
        }
    }
}

/// Whether an amount is the given share of a reserve, rounded down and no more than a token
/// amount can be.
pub open spec fn rounded_share(paid: int, reserve: int, part: int, whole: int) -> bool {
    &&& paid * whole <= reserve * part
    &&& paid < u64::MAX ==> reserve * part < (paid + 1) * whole
    &&& 0 <= paid <= u64::MAX
}

/// A withdrawal pays out of each reserve that reserve's own share, rounded down. It is refused
/// only for reserves that are not two, nothing to burn, an empty pool, a product too large,
/// or a share of less than one unit.
pub proof fn withdrawal_pays_each_reserves_share(
    reserves: Seq<u128>,
    lp_amount: u128,
    supply: u128,
    r: Result<Vec<u64>, StableSwapError>,
)
    requires
        withdrawal_agrees(r, withdrawal(reserves, lp_amount as int, supply as int)),
    ensures
        match r {
            Ok(amounts) => {
                &&& reserves.len() == 2
                &&& amounts@.len() == 2
                &&& lp_amount > 0 && supply > 0
                &&& amounts@[0] >= 1 && amounts@[1] >= 1
                &&& rounded_share(
                    amounts@[0] as int,
                    reserves[0] as int,
                    lp_amount as int,
                    supply as int,
                )
                &&& rounded_share(
                    amounts@[1] as int,
                    reserves[1] as int,
                    lp_amount as int,
                    supply as int,
                )
            },
            Err(StableSwapError::InvalidVault) => reserves.len() != 2,
            Err(StableSwapError::ZeroAmount) => reserves.len() == 2 && lp_amount == 0,
            Err(StableSwapError::EmptyPool) => {
                &&& reserves.len() == 2 && lp_amount > 0
                &&& supply == 0 || reserves[0] == 0 || reserves[1] == 0
            },
            Err(StableSwapError::MathOverflow) => {
                &&& reserves.len() == 2 && lp_amount > 0 && supply > 0
                &&& reserves[0] > 0 && reserves[1] > 0
                &&& reserves[0] * lp_amount > u128::MAX || reserves[1] * lp_amount > u128::MAX
            },
            Err(StableSwapError::SingleSidedWithdrawalNotAllowed) => {
                &&& reserves.len() == 2 && lp_amount > 0 && supply > 0
                &&& reserves[0] > 0 && reserves[1] > 0
                &&& reserves[0] * lp_amount <= u128::MAX && reserves[1] * lp_amount <= u128::MAX
                &&& reserves[0] * lp_amount < supply || reserves[1] * lp_amount < supply
            },
            Err(_) => false,
        },
{
    if reserves.len() == 2 && supply > 0 {
        lemma_rounded_share(reserves[0], lp_amount, supply);
        lemma_rounded_share(reserves[1], lp_amount, supply);
    }
}

/// A share of a reserve is rounded down, and at least one if the product allows it.
pub proof fn lemma_rounded_share(reserve: u128, part: u128, whole: u128)
    requires
        whole > 0,
    ensures
        ({
            let q = (reserve * part) / (whole as int);
            let capped = if q <= u64::MAX {
                q
            } else {
                u64::MAX as int
            };
            &&& rounded_share(capped, reserve as int, part as int, whole as int)
            &&& capped == 0 <==> reserve * part < whole
        }),
{
    let product = reserve * part;
    let w = whole as int;
    let q = product / w;
    assert(product >= 0) by (nonlinear_arith)
        requires
            product == reserve * part,
    ;
    lemma_floor(product, w);
    assert(q >= 0) by (nonlinear_arith)
        requires
            product < w * q + w,
            product >= 0,
            w > 0,
    ;
    assert(q * w == w * q && (q + 1) * w == w * q + w) by (nonlinear_arith);
    let capped = if q <= u64::MAX {
        q
    } else {
        u64::MAX as int
    };
    assert(capped * w <= q * w) by (nonlinear_arith)
        requires
            capped <= q,
            w > 0,
    ;
    assert(q == 0 <==> product < w) by (nonlinear_arith)
        requires
            q >= 0,
            w * q <= product < w * q + w,
            w > 0,
    ;
}

} // verus!
