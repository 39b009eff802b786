//! What holds of a pool across its instructions.

use vstd::prelude::*;

use crate::stableswap::curve::{fits, invariant_d};
use crate::stableswap::curve_laws::{d_lies_between_the_means, lemma_floor};
use crate::stableswap::errors::StableSwapError;
use crate::stableswap::fees::lesser;
use crate::stableswap::liquidity::{
    deposit_never_dilutes, lp_mint, withdrawal_is_proportional, withdrawal_never_dilutes,
};
use crate::stableswap::pool::{
    depegged, deposit, open_at, payout, swap_price, trade_of, usable_prices, Balances, Pool,
    Readings, MINIMUM_LIQUIDITY,
};
use crate::stableswap::quote::quote_splits_the_gross_output;
use crate::stableswap::range_laws::balanced_pool_invariant_is_the_sum;

verus! {

/// A pool after its peg was checked at the given prices.
pub open spec fn checked(pool: Pool, prices: (int, int)) -> Pool {
    Pool { is_paused: depegged(pool, prices), ..pool }
}

/// Checking the peg keeps a sound pool sound.
pub proof fn peg_check_keeps_the_pool_sound(pool: Pool, prices: (int, int))
    requires
        pool.wf(),
    ensures
        checked(pool, prices).wf(),
{
}

/// Checking the peg announces what swaps and deposits go by: an open pool gets halted by
/// the check exactly when they would be refused at the same readings anyway.
pub proof fn peg_check_announces_the_halt(pool: Pool, readings: Readings, prices: (int, int))
    requires
        !pool.is_paused,
        usable_prices(pool, readings) == Ok::<(int, int), StableSwapError>(prices),
    ensures
        checked(pool, prices).is_paused <==> open_at(pool, readings) == Err::<
            (int, int),
            StableSwapError,
        >(StableSwapError::PoolPaused),
        checked(pool, prices).is_paused <==> open_at(checked(pool, prices), readings) is Err,
{
}

/// A halted pool opens again when the peg is checked with both prices back in the band.
pub proof fn recovered_peg_opens_the_pool(pool: Pool, readings: Readings, prices: (int, int))
    requires
        usable_prices(pool, readings) == Ok::<(int, int), StableSwapError>(prices),
        !depegged(pool, prices),
    ensures
        open_at(checked(pool, prices), readings) == Ok::<(int, int), StableSwapError>(prices),
{
}

/// A halted pool refuses every deposit and every swap, and says that it is paused unless
/// the request was nonsensical to begin with.
pub proof fn halted_pool_refuses(
    pool: Pool,
    balances: Balances,
    readings: Readings,
    amount_a: u64,
    amount_b: u64,
    min_out: u64,
    input_index: u8,
    output_index: u8,
)
    requires
        pool.is_paused || (usable_prices(pool, readings) matches Ok(prices) && depegged(
            pool,
            prices,
        )),
    ensures
        deposit(pool, balances, readings, amount_a, amount_b, min_out) == (if amount_a == 0
            && amount_b == 0 {
            Err::<int, StableSwapError>(StableSwapError::ZeroAmount)
        } else {
            Err(StableSwapError::PoolPaused)
        }),
        swap_price(
            pool,
            balances,
            readings,
            amount_a,
            min_out,
            input_index,
            output_index,
        ) is Err,
        input_index <= 1 && output_index <= 1 && input_index != output_index ==> swap_price(
            pool,
            balances,
            readings,
            amount_a,
            min_out,
            input_index,
            output_index,
        )->Err_0 == StableSwapError::PoolPaused,
{
}

/// A swap pays out at least what the trader asked for and no more than the vault holds,
/// at a fee within the pool's schedule.
pub proof fn swap_keeps_its_bounds(
    pool: Pool,
    balances: Balances,
    readings: Readings,
    amount_in: u64,
    min_amount_out: u64,
    input_index: u8,
    output_index: u8,
)
    ensures
        swap_price(
            pool,
            balances,
            readings,
            amount_in,
            min_amount_out,
            input_index,
            output_index,
        ) matches Ok(price) ==> {
            &&& min_amount_out <= price.net()
            &&& price.net() + price.fee() == price.gross
            &&& price.gross <= if output_index == 0 {
                balances.vault_a
            } else {
                balances.vault_b
            }
            &&& pool.fee_bps <= price.fee_bps <= pool.max_dynamic_fee_bps
        },
{
    if swap_price(
        pool,
        balances,
        readings,
        amount_in,
        min_amount_out,
        input_index,
        output_index,
    ) is Ok {
        let prices = open_at(pool, readings)->Ok_0;
        quote_splits_the_gross_output(trade_of(pool, balances, prices, amount_in, input_index));
    }
}

/// The locked shares keep a pool alive: burning any number of the LP tokens that exist
/// leaves something in both vaults.
pub proof fn locked_shares_keep_the_vaults_filled(
    balances: Balances,
    lp_amount: u64,
    min_a: u64,
    min_b: u64,
)
    requires
        lp_amount <= balances.lp_supply,
    ensures
        payout(balances, lp_amount, min_a, min_b) matches Ok((a, b)) ==> {
            &&& min_a <= a < balances.vault_a
            &&& min_b <= b < balances.vault_b
        },
{
    if payout(balances, lp_amount, min_a, min_b) is Ok {
        let (a, b) = payout(balances, lp_amount, min_a, min_b)->Ok_0;
        let reserves = seq![balances.vault_a as u128, balances.vault_b as u128];
        let supply = balances.lp_supply + MINIMUM_LIQUIDITY;
        withdrawal_never_dilutes(reserves, lp_amount as u128, supply as u128);
        lemma_something_left(reserves[0] as int, a, lp_amount as int, supply);
        lemma_something_left(reserves[1] as int, b, lp_amount as int, supply);
    }
}

/// Less than the whole supply redeems less than the whole reserve.
proof fn lemma_something_left(reserve: int, paid: int, lp_amount: int, supply: int)
    requires
        reserve > 0,
        lp_amount < supply,
        supply > 0,
        (reserve - paid) * supply >= reserve * (supply - lp_amount),
    ensures
        paid < reserve,
{
    assert(reserve * (supply - lp_amount) > 0) by (nonlinear_arith)
        requires
            reserve > 0,
            lp_amount < supply,
    ;
    assert(reserve - paid > 0) by (nonlinear_arith)
        requires
            (reserve - paid) * supply > 0,
            supply > 0,
    ;
}

/// A later deposit issues LP tokens for no more than the invariant it adds.
pub proof fn deposit_is_never_free(
    pool: Pool,
    balances: Balances,
    readings: Readings,
    amount_a: u64,
    amount_b: u64,
    min_lp_out: u64,
)
    requires
        balances.lp_supply > 0,
    ensures
        deposit(pool, balances, readings, amount_a, amount_b, min_lp_out) matches Ok(lp) ==> {
            let amp = pool.amplification as int;
            &&& min_lp_out <= lp
            &&& invariant_d(balances.vault_a as int, balances.vault_b as int, amp) matches Ok(
                before,
            )
            &&& invariant_d(
                balances.vault_a + amount_a,
                balances.vault_b + amount_b,
                amp,
            ) matches Ok(after)
            &&& lp * before <= balances.lp_supply * (after - before)
        },
{
    deposit_never_dilutes(
        balances.vault_a as u128,
        balances.vault_b as u128,
        (balances.vault_a + amount_a) as u128,
        (balances.vault_b + amount_b) as u128,
        balances.lp_supply as u128,
        pool.amplification as u128,
        MINIMUM_LIQUIDITY,
    );
    if deposit(pool, balances, readings, amount_a, amount_b, min_lp_out) is Ok {
        let lp = deposit(pool, balances, readings, amount_a, amount_b, min_lp_out)->Ok_0;
        let amp = pool.amplification as int;
        let before = invariant_d(balances.vault_a as int, balances.vault_b as int, amp)->Ok_0;
        let after = invariant_d(
            balances.vault_a + amount_a,
            balances.vault_b + amount_b,
            amp,
        )->Ok_0;
        assert(lp * before <= balances.lp_supply * (after - before)) by (nonlinear_arith)
            requires
                (balances.lp_supply + lp) * before <= balances.lp_supply * after,
        ;
    }
}

/// Inflating the pool never pays: whatever was sent to the vaults before a later deposit, all
/// LP tokens that existed by then together claim less of the invariant after the deposit
/// than the whole pool was worth before it, since the locked shares take part. So whoever
/// made the first deposit and sent tokens to the vaults gets back less than was put in.
///
/// Issued LP tokens are capped at the largest token amount; a deposit that meets the cap is
/// left out.
pub proof fn inflated_pool_never_pays(
    pool: Pool,
    balances: Balances,
    readings: Readings,
    amount_a: u64,
    amount_b: u64,
    min_lp_out: u64,
)
    requires
        balances.lp_supply > 0,
    ensures
        deposit(pool, balances, readings, amount_a, amount_b, min_lp_out) matches Ok(lp) ==> lp
            < u64::MAX ==> {
            let amp = pool.amplification as int;
            let supply = balances.lp_supply + lp + MINIMUM_LIQUIDITY;
            &&& invariant_d(balances.vault_a as int, balances.vault_b as int, amp) matches Ok(
                before,
            )
            &&& invariant_d(
                balances.vault_a + amount_a,
                balances.vault_b + amount_b,
                amp,
            ) matches Ok(after)
            &&& balances.lp_supply * after < supply * before
        },
{
    if deposit(pool, balances, readings, amount_a, amount_b, min_lp_out) is Ok {
        let lp = deposit(pool, balances, readings, amount_a, amount_b, min_lp_out)->Ok_0;
        let amp = pool.amplification as int;
        let before = invariant_d(balances.vault_a as int, balances.vault_b as int, amp)->Ok_0;
        let after = invariant_d(
            balances.vault_a + amount_a,
            balances.vault_b + amount_b,
            amp,
        )->Ok_0;
        let held = balances.lp_supply as int;
        let supply = held + lp + MINIMUM_LIQUIDITY;
        d_lies_between_the_means(
            balances.vault_a as u128,
            balances.vault_b as u128,
            pool.amplification as u128,
        );
        let grown = held * (after - before);
        lemma_floor(grown, before);
        if lp < u64::MAX {
            assert(held * after < supply * before) by (nonlinear_arith)
                requires
                    grown == held * (after - before),
                    grown < before * lp + before,
                    supply == held + lp + 1_000,
                    before > 0,
            ;
        }
    }
}

/// The same in tokens, for a pool whose vaults hold as much of one token as of the other:
/// after an even deposit, burning every LP token that existed before it pays out less of
/// each token than its vault held before the deposit.
pub proof fn inflated_vaults_never_pay(
    pool: Pool,
    readings: Readings,
    vault: u64,
    lp_supply: u64,
    amount: u64,
    min_lp_out: u64,
    lp: u64,
    vault_after: u64,
    supply_after: u64,
)
    requires
        pool.wf(),
        lp_supply > 0,
        lp < u64::MAX,
        vault_after == vault + amount,
        supply_after == lp_supply + lp,
        deposit(
            pool,
            (Balances { vault_a: vault, vault_b: vault, lp_supply }),
            readings,
            amount,
            amount,
            min_lp_out,
        ) == Ok::<int, StableSwapError>(lp as int),
    ensures
        payout(
            (Balances { vault_a: vault_after, vault_b: vault_after, lp_supply: supply_after }),
            lp_supply,
            0,
            0,
        ) matches Ok((a, b)) ==> a < vault && b < vault,
{
    let before = Balances { vault_a: vault, vault_b: vault, lp_supply };
    let after = Balances { vault_a: vault_after, vault_b: vault_after, lp_supply: supply_after };
    let amp = pool.amplification as u128;
    inflated_pool_never_pays(pool, before, readings, amount, amount, min_lp_out);
    d_lies_between_the_means(vault as u128, vault as u128, amp);
    balanced_pool_invariant_is_the_sum(vault as u128, amp);
    balanced_pool_invariant_is_the_sum(vault_after as u128, amp);
    if payout(after, lp_supply, 0, 0) is Ok {
        let (a, b) = payout(after, lp_supply, 0, 0)->Ok_0;
        let reserves = seq![vault_after as u128, vault_after as u128];
        let supply = supply_after + MINIMUM_LIQUIDITY;
        withdrawal_is_proportional(reserves, lp_supply as u128, supply as u128);
        lemma_share_below(a, vault as int, vault_after as int, lp_supply as int, supply);
        lemma_share_below(b, vault as int, vault_after as int, lp_supply as int, supply);
    }
}

/// A share of the reserve after a deposit that is worth less than the reserve before it.
proof fn lemma_share_below(paid: int, vault: int, vault_after: int, held: int, supply: int)
    requires
        supply > 0,
        paid * supply <= vault_after * held,
        held * (2 * vault_after) < supply * (2 * vault),
    ensures
        paid < vault,
{
    assert(paid * supply < vault * supply) by (nonlinear_arith)
        requires
            paid * supply <= vault_after * held,
            held * (2 * vault_after) < supply * (2 * vault),
    ;
    assert(paid < vault) by (nonlinear_arith)
        requires
            paid * supply < vault * supply,
            supply > 0,
    ;
}

/// A balanced deposit into a balanced pool issues LP tokens in proportion to what it adds:
/// doubling the reserves doubles the LP tokens.
pub proof fn balanced_deposit_mints_in_proportion(
    before: u128,
    after: u128,
    lp_supply: u64,
    amp: u128,
)
    requires
        1 <= before <= after,
        amp >= 1,
        lp_supply > 0,
        fits((amp * 4 + 2) * (2 * before) * (2 * before)),
        fits((amp * 4 + 2) * (2 * after) * (2 * after)),
        fits(lp_supply * (2 * after - 2 * before)),
    ensures
        lp_mint(
            before as int,
            before as int,
            after as int,
            after as int,
            lp_supply as int,
            amp as int,
            MINIMUM_LIQUIDITY as int,
        ) == Ok::<int, StableSwapError>(
            lesser(lp_supply * (2 * after - 2 * before) / (2 * before), u64::MAX as int),
        ),
        after == 2 * before ==> lp_mint(
            before as int,
            before as int,
            after as int,
            after as int,
            lp_supply as int,
            amp as int,
            MINIMUM_LIQUIDITY as int,
        ) == Ok::<int, StableSwapError>(lp_supply as int),
{
    balanced_pool_invariant_is_the_sum(before, amp);
    balanced_pool_invariant_is_the_sum(after, amp);
    if after == 2 * before {
        vstd::arithmetic::div_mod::lemma_div_by_multiple(lp_supply as int, 2 * before);
    }
}

/// The invariant of uneven reserves is no larger than that of even ones with the same sum.
proof fn lemma_even_reserves_are_worth_most(even: u128, more: u128, less: u128, amp: u128)
    requires
        more + less == 2 * even,
        amp >= 1,
    ensures
        invariant_d(even as int, even as int, amp as int) matches Ok(d) ==> invariant_d(
            more as int,
            less as int,
            amp as int,
        ) matches Ok(e) ==> e <= d && d == 2 * even,
{
    if even > 0 {
        balanced_pool_invariant_is_the_sum(even, amp);
    }
    d_lies_between_the_means(more, less, amp);
}

/// Into a balanced pool an even deposit is the most efficient one: shifting some of it
/// from one token to the other never earns more LP tokens.
pub proof fn even_deposit_earns_the_most(
    pool: Pool,
    balances: Balances,
    readings: Readings,
    half: u64,
    shift: u64,
    more: u64,
    less: u64,
    min_lp_out: u64,
)
    requires
        pool.wf(),
        balances.vault_a == balances.vault_b,
        more == half + shift,
        less == half - shift,
    ensures
        deposit(pool, balances, readings, half, half, min_lp_out) matches Ok(even) ==> {
            &&& deposit(pool, balances, readings, more, less, min_lp_out) matches Ok(lp) ==> lp
                <= even
            &&& deposit(pool, balances, readings, less, more, min_lp_out) matches Ok(lp) ==> lp
                <= even
        },
{
    if deposit(pool, balances, readings, half, half, min_lp_out) is Ok {
        lemma_shifted_deposit_earns_no_more(pool, balances, readings, half, more, less, min_lp_out);
        lemma_shifted_deposit_earns_no_more(pool, balances, readings, half, less, more, min_lp_out);
    }
}

/// A deposit of the same sum as an even one earns no more.
proof fn lemma_shifted_deposit_earns_no_more(
    pool: Pool,
    balances: Balances,
    readings: Readings,
    half: u64,
    a: u64,
    b: u64,
    min_lp_out: u64,
)
    requires
        pool.wf(),
        balances.vault_a == balances.vault_b,
        a + b == 2 * half,
        deposit(pool, balances, readings, half, half, min_lp_out) is Ok,
    ensures
        deposit(pool, balances, readings, a, b, min_lp_out) matches Ok(lp) ==> lp <= deposit(
            pool,
            balances,
            readings,
            half,
            half,
            min_lp_out,
        )->Ok_0,
{
    let amp = pool.amplification as u128;
    let vault = balances.vault_a;
    lemma_even_reserves_are_worth_most(
        (vault + half) as u128,
        (vault + a) as u128,
        (vault + b) as u128,
        amp,
    );
    if deposit(pool, balances, readings, a, b, min_lp_out) is Ok && balances.lp_supply > 0 {
        d_lies_between_the_means(vault as u128, vault as u128, amp);
        let before = invariant_d(vault as int, vault as int, amp as int)->Ok_0;
        let even = invariant_d(vault + half, vault + half, amp as int)->Ok_0;
        let shifted = invariant_d(vault + a, vault + b, amp as int)->Ok_0;
        let supply = balances.lp_supply as int;
        assert(supply * (shifted - before) <= supply * (even - before)) by (nonlinear_arith)
            requires
                shifted <= even,
                supply >= 0,
        ;
        vstd::arithmetic::div_mod::lemma_div_is_ordered(
            supply * (shifted - before),
            supply * (even - before),
            before,
        );
    }
}

/// Whoever makes the first deposit and takes all of it back gets less of each token than
/// was put in, whatever the deposit was.
pub proof fn first_deposit_never_pays(
    pool: Pool,
    readings: Readings,
    amount_a: u64,
    amount_b: u64,
    min_lp_out: u64,
    lp: u64,
)
    requires
        deposit(
            pool,
            (Balances { vault_a: 0, vault_b: 0, lp_supply: 0 }),
            readings,
            amount_a,
            amount_b,
            min_lp_out,
        ) == Ok::<int, StableSwapError>(lp as int),
    ensures
        payout(
            (Balances { vault_a: amount_a, vault_b: amount_b, lp_supply: lp }),
            lp,
            0,
            0,
        ) matches Ok((a, b)) ==> a < amount_a && b < amount_b,
{
    locked_shares_keep_the_vaults_filled(
        Balances { vault_a: amount_a, vault_b: amount_b, lp_supply: lp },
        lp,
        0,
        0,
    );
}

} // verus!
