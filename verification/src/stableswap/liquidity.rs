//! Issuing LP tokens for deposits and redeeming them for reserves.

use vstd::prelude::*;

use crate::stableswap::curve::{compute_d, fits, invariant_d};
use crate::stableswap::curve_laws::{d_lies_between_the_means, lemma_floor};
use crate::stableswap::errors::StableSwapError;
use crate::stableswap::fees::lesser;

verus! {

/// An executable LP amount as a mathematical one.
pub open spec fn lp_outcome(r: Result<u64, StableSwapError>) -> Result<int, StableSwapError> {
    match r {
        Ok(v) => Ok(v as int),
        Err(e) => Err(e),
    }
}

/// LP tokens for the first deposit: the invariant it creates, less the locked shares.
pub open spec fn first_lp_mint(
    reserve_a: int,
    reserve_b: int,
    amp: int,
    minimum_liquidity: int,
) -> Result<int, StableSwapError> {
    match invariant_d(reserve_a, reserve_b, amp) {
        Err(e) => Err(e),
        Ok(d) => if d <= minimum_liquidity {
            Err(StableSwapError::InsufficientInitialLiquidity)
        } else {
            Ok(lesser(d - minimum_liquidity, u64::MAX as int))
        },
    }
}

/// LP tokens for growing the invariant from `d_before` to `d_after`.
pub open spec fn grown_lp_mint(lp_supply: int, d_before: int, d_after: int) -> Result<
    int,
    StableSwapError,
> {
    if d_after < d_before {
        Err(StableSwapError::InsufficientLiquidity)
    } else if !fits(lp_supply * (d_after - d_before)) {
        Err(StableSwapError::MathOverflow)
    } else {
        Ok(lesser(lp_supply * (d_after - d_before) / d_before, u64::MAX as int))
    }
}

/// LP tokens for a deposit that moves the reserves from `before` to `after`.
pub open spec fn lp_mint(
    reserve_a_before: int,
    reserve_b_before: int,
    reserve_a_after: int,
    reserve_b_after: int,
    lp_supply: int,
    amp: int,
    minimum_liquidity: int,
) -> Result<int, StableSwapError> {
    if lp_supply == 0 {
        first_lp_mint(reserve_a_after, reserve_b_after, amp, minimum_liquidity)
    } else {
        match (
            invariant_d(reserve_a_before, reserve_b_before, amp),
            invariant_d(reserve_a_after, reserve_b_after, amp),
        ) {
            (Err(e), _) => Err(e),
            (Ok(_), Err(e)) => Err(e),
            (Ok(d_before), Ok(d_after)) => grown_lp_mint(lp_supply, d_before, d_after),
        }
    }
}

/// Compute how many LP tokens to mint for a deposit.
///
/// Issuance follows the growth of the invariant. The first deposit mints the invariant
/// less `minimum_liquidity`, which stays locked as virtual dead shares; later deposits
/// mint `lp_supply * (D_after - D_before) / D_before`.
pub fn calculate_lp_mint_amount(
    reserve_a_before: u128,
    reserve_b_before: u128,
    reserve_a_after: u128,
    reserve_b_after: u128,
    lp_supply: u128,
    amp: u128,
    minimum_liquidity: u64,
) -> (r: Result<u64, StableSwapError>)
    ensures
        lp_outcome(r) == lp_mint(
            reserve_a_before as int,
            reserve_b_before as int,
            reserve_a_after as int,
            reserve_b_after as int,
            lp_supply as int,
            amp as int,
            minimum_liquidity as int,
        ),
{
    if lp_supply == 0 {
        let d = compute_d(reserve_a_after, reserve_b_after, amp)?;
        if !(d > minimum_liquidity as u128) {
            return Err(StableSwapError::InsufficientInitialLiquidity);
        }
        return Ok(clamp_to_u64(d - minimum_liquidity as u128));
    }
    let d_before = compute_d(reserve_a_before, reserve_b_before, amp)?;
    let d_after = compute_d(reserve_a_after, reserve_b_after, amp)?;
    if !(d_after >= d_before) {
        return Err(StableSwapError::InsufficientLiquidity);
    }
    let d_diff = d_after - d_before;
    let scaled = lp_supply.checked_mul(d_diff).ok_or(StableSwapError::MathOverflow)?;
    proof {
        d_lies_between_the_means(reserve_a_before, reserve_b_before, amp);
    }
    Ok(clamp_to_u64(scaled / d_before))
}

/// The value itself, or the largest token amount if it is larger still.
fn clamp_to_u64(v: u128) -> (r: u64)
    ensures
        r == lesser(v as int, u64::MAX as int),
{
    if v <= u64::MAX as u128 {
        v as u64
    } else {
        u64::MAX
    }
}

/// The share of a reserve that `lp_amount` out of `supply` redeems.
pub open spec fn share(reserve: int, lp_amount: int, supply: int) -> int {
    lesser(reserve * lp_amount / supply, u64::MAX as int)
}

/// What an LP burn redeems of each reserve, or why it is refused.
pub open spec fn withdrawal(reserves: Seq<u128>, lp_amount: int, supply: int) -> Result<
    (int, int),
    StableSwapError,
> {
    if reserves.len() != 2 {
        Err(StableSwapError::InvalidVault)
    } else if lp_amount == 0 {
        Err(StableSwapError::ZeroAmount)
    } else if supply == 0 || reserves[0] == 0 || reserves[1] == 0 {
        Err(StableSwapError::EmptyPool)
    } else if !fits(reserves[0] * lp_amount) || !fits(reserves[1] * lp_amount) {
        Err(StableSwapError::MathOverflow)
    } else {
        let a = share(reserves[0] as int, lp_amount, supply);
        let b = share(reserves[1] as int, lp_amount, supply);
        if a == 0 || b == 0 {
            Err(StableSwapError::SingleSidedWithdrawalNotAllowed)
        } else {
            Ok((a, b))
        }
    }
}

/// Whether an executable withdrawal states a mathematical one.
pub open spec fn withdrawal_agrees(
    r: Result<Vec<u64>, StableSwapError>,
    w: Result<(int, int), StableSwapError>,
) -> bool {
    match (r, w) {
        (Ok(amounts), Ok((a, b))) => {
            &&& amounts@.len() == 2
            &&& amounts@[0] == a
            &&& amounts@[1] == b
        },
        (Err(e), Err(f)) => e == f,
        _ => false,
    }
}

/// The share of one reserve, or [`StableSwapError::MathOverflow`].
fn redeem(reserve: u128, lp_amount: u128, supply: u128) -> (r: Result<u64, StableSwapError>)
    requires
        supply > 0,
    ensures
        lp_outcome(r) == (if fits(reserve * lp_amount) {
            Ok::<int, StableSwapError>(share(reserve as int, lp_amount as int, supply as int))
        } else {
            Err(StableSwapError::MathOverflow)
        }),
{
    let scaled = reserve.checked_mul(lp_amount).ok_or(StableSwapError::MathOverflow)?;
    Ok(clamp_to_u64(scaled / supply))
}

/// Compute the proportional token amounts owed for an LP burn.
///
/// An LP burns a share of the total supply and receives that same share of each of the
/// two reserves; a burn too small to redeem something of both is refused.
pub fn calculate_withdraw_amounts(
    reserves: &[u128],
    lp_amount: u128,
    adjusted_supply: u128,
) -> (r: Result<Vec<u64>, StableSwapError>)
    ensures
        withdrawal_agrees(
            r,
            withdrawal(reserves@, lp_amount as int, adjusted_supply as int),
        ),
{
    if !(reserves.len() == 2) {
        return Err(StableSwapError::InvalidVault);
    }
    if !(lp_amount > 0) {
        return Err(StableSwapError::ZeroAmount);
    }
    if !(adjusted_supply > 0) {
        return Err(StableSwapError::EmptyPool);
    }
    if !(reserves[0] > 0 && reserves[1] > 0) {
        return Err(StableSwapError::EmptyPool);
    }
    let a = redeem(reserves[0], lp_amount, adjusted_supply)?;
    let b = redeem(reserves[1], lp_amount, adjusted_supply)?;
    if !(a > 0 && b > 0) {
        return Err(StableSwapError::SingleSidedWithdrawalNotAllowed);
    }
    let mut withdraw_amounts: Vec<u64> = Vec::with_capacity(2);
    withdraw_amounts.push(a);
    withdraw_amounts.push(b);
    Ok(withdraw_amounts)
}

/// The first deposit never mints more than the invariant it creates less the locked
/// shares, and mints exactly that while it is a representable token amount.
pub proof fn first_deposit_locks_shares(
    a_before: u128,
    b_before: u128,
    a: u128,
    b: u128,
    amp: u128,
    minimum_liquidity: u64,
)
    ensures
        lp_mint(
            a_before as int,
            b_before as int,
            a as int,
            b as int,
            0,
            amp as int,
            minimum_liquidity as int,
        ) matches Ok(lp) ==> {
            &&& invariant_d(a as int, b as int, amp as int) matches Ok(d)
            &&& 0 < lp
            &&& lp + minimum_liquidity <= d <= a + b
            &&& d - minimum_liquidity <= u64::MAX ==> lp + minimum_liquidity == d
        },
{
    d_lies_between_the_means(a, b, amp);
}

/// A deposit never dilutes the shares that exist: the invariant per LP token does not
/// fall.
pub proof fn deposit_never_dilutes(
    a_before: u128,
    b_before: u128,
    a_after: u128,
    b_after: u128,
    lp_supply: u128,
    amp: u128,
    minimum_liquidity: u64,
)
    requires
        lp_supply > 0,
    ensures
        lp_mint(
            a_before as int,
            b_before as int,
            a_after as int,
            b_after as int,
            lp_supply as int,
            amp as int,
            minimum_liquidity as int,
        ) matches Ok(lp) ==> {
            &&& invariant_d(a_before as int, b_before as int, amp as int) matches Ok(d_before)
            &&& invariant_d(a_after as int, b_after as int, amp as int) matches Ok(d_after)
            &&& lp >= 0
            &&& (lp_supply + lp) * d_before <= lp_supply * d_after
        },
{
    let before = invariant_d(a_before as int, b_before as int, amp as int);
    let after = invariant_d(a_after as int, b_after as int, amp as int);
    if before is Ok && after is Ok {
        let d = before->Ok_0;
        let e = after->Ok_0;
        d_lies_between_the_means(a_before, b_before, amp);
        let grown = lp_supply * (e - d);
        lemma_floor(grown, d);
        let q = grown / d;
        let lp = lesser(q, u64::MAX as int);
        if e >= d {
            assert(grown >= 0) by (nonlinear_arith)
                requires
                    grown == lp_supply * (e - d),
                    e >= d,
            ;
            assert(q >= 0) by (nonlinear_arith)
                requires
                    grown < d * q + d,
                    grown >= 0,
                    d > 0,
            ;
            assert((lp_supply + lp) * d <= lp_supply * e) by (nonlinear_arith)
                requires
                    lp <= q,
                    d * q <= grown,
                    grown == lp_supply * (e - d),
                    d > 0,
            ;
        }
    }
}

/// A withdrawal redeems the same share of both reserves, each rounded down: never more
/// than that share, and less than one unit below it while it is a representable amount.
pub proof fn withdrawal_is_proportional(reserves: Seq<u128>, lp_amount: u128, supply: u128)
    ensures
        withdrawal(reserves, lp_amount as int, supply as int) matches Ok((a, b)) ==> {
            &&& a >= 1
            &&& b >= 1
            &&& a * supply <= reserves[0] * lp_amount
            &&& b * supply <= reserves[1] * lp_amount
            &&& a < u64::MAX ==> reserves[0] * lp_amount < (a + 1) * supply
            &&& b < u64::MAX ==> reserves[1] * lp_amount < (b + 1) * supply
        },
{
    if withdrawal(reserves, lp_amount as int, supply as int) is Ok {
        lemma_share(reserves[0], lp_amount, supply);
        lemma_share(reserves[1], lp_amount, supply);
    }
}

/// A share is a rounded-down proportion.
proof fn lemma_share(reserve: u128, lp_amount: u128, supply: u128)
    requires
        supply > 0,
    ensures
        share(reserve as int, lp_amount as int, supply as int) >= 0,
        share(reserve as int, lp_amount as int, supply as int) * supply <= reserve * lp_amount,
        share(reserve as int, lp_amount as int, supply as int) < u64::MAX ==> reserve * lp_amount
            < (share(reserve as int, lp_amount as int, supply as int) + 1) * supply,
{
    let product = reserve * lp_amount;
    let q = product / supply as int;
    let w = share(reserve as int, lp_amount as int, supply as int);
    assert(product >= 0) by (nonlinear_arith)
        requires
            product == reserve * lp_amount,
    ;
    lemma_floor(product, supply as int);
    assert(q >= 0) by (nonlinear_arith)
        requires
            product < supply * q + supply,
            product >= 0,
            supply > 0,
    ;
    assert(w * supply <= product) by (nonlinear_arith)
        requires
            w <= q,
            supply * q <= product,
            supply > 0,
    ;
    assert((q + 1) * supply > product) by (nonlinear_arith)
        requires
            product < supply * q + supply,
    ;
}

/// Whoever stays is never worse off after a withdrawal: what is left of each reserve per
/// remaining share does not fall, and no reserve is overdrawn.
pub proof fn withdrawal_never_dilutes(reserves: Seq<u128>, lp_amount: u128, supply: u128)
    requires
        lp_amount <= supply,
    ensures
        withdrawal(reserves, lp_amount as int, supply as int) matches Ok((a, b)) ==> {
            &&& a <= reserves[0]
            &&& b <= reserves[1]
            &&& (reserves[0] - a) * supply >= reserves[0] * (supply - lp_amount)
            &&& (reserves[1] - b) * supply >= reserves[1] * (supply - lp_amount)
        },
{
    if withdrawal(reserves, lp_amount as int, supply as int) is Ok {
        lemma_share_left(reserves[0], lp_amount, supply);
        lemma_share_left(reserves[1], lp_amount, supply);
    }
}

/// What a share leaves behind.
proof fn lemma_share_left(reserve: u128, lp_amount: u128, supply: u128)
    requires
        supply > 0,
        lp_amount <= supply,
    ensures
        share(reserve as int, lp_amount as int, supply as int) <= reserve,
        (reserve - share(reserve as int, lp_amount as int, supply as int)) * supply >= reserve * (
        supply - lp_amount),
{
    let w = share(reserve as int, lp_amount as int, supply as int);
    lemma_share(reserve, lp_amount, supply);
    assert((reserve - w) * supply >= reserve * (supply - lp_amount)) by (nonlinear_arith)
        requires
            w * supply <= reserve * lp_amount,
    ;
    assert(w <= reserve) by (nonlinear_arith)
        requires
            (reserve - w) * supply >= reserve * (supply - lp_amount),
            lp_amount <= supply,
            supply > 0,
    ;
}

} // verus!
