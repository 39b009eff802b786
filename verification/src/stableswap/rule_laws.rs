//! What each instruction of a pool does, in terms of its inputs and results alone.

use vstd::arithmetic::power::{lemma_pow_positive, pow};
use vstd::prelude::*;

use crate::keys::Pubkey;
use crate::stableswap::curve::{invariant_d, outcome};
use crate::stableswap::curve_laws::{d_lies_between_the_means, lemma_floor, lemma_quotient};
use crate::stableswap::errors::StableSwapError;
use crate::stableswap::liquidity::lp_outcome;
use crate::stableswap::liquidity_laws::lemma_rounded_share;
use crate::stableswap::oracle::{normalized, off_peg, usable_price, PriceReading};
use crate::stableswap::pool::{
    depeg_check, deposit, payout, setup_fault, swap_price, Balances, InitializePool, Pool, Readings,
};
use crate::stableswap::quote::{quote_agrees, SwapQuote, Trade};

verus! {

/// A normalized price is the price in units of a billionth, rounded down. A price that is
/// not positive, or vanishes at this precision, is refused as invalid; one that is too large
/// as an overflow; nothing else is refused.
pub proof fn normalized_price_has_nine_decimals(
    price: i64,
    exponent: i32,
    r: Result<u128, StableSwapError>,
)
    requires
        outcome(r) == normalized(price as int, exponent as int),
    ensures
        ({
            let up = pow(10, (exponent + 9) as nat);
            let down = pow(10, (-9 - exponent) as nat);
            match r {
                Ok(v) => {
                    &&& price > 0
                    &&& v > 0
                    &&& exponent >= -9 ==> v == price * up
                    &&& exponent < -9 ==> v * down <= price < (v + 1) * down
                },
                Err(StableSwapError::InvalidOraclePrice) => {
                    ||| price <= 0
                    ||| exponent < -9 && price < down
                },
                Err(StableSwapError::MathOverflow) => {
                    &&& price > 0
                    &&& exponent >= -9
                    &&& price * up > u128::MAX
                },
                Err(_) => false,
            }
        }),
{
    if price > 0 {
        if exponent >= -9 {
            let up = pow(10, (exponent + 9) as nat);
            lemma_pow_positive(10, (exponent + 9) as nat);
            assert(price * up > 0) by (nonlinear_arith)
                requires
                    price > 0,
                    up > 0,
            ;
        } else {
            let down = pow(10, (-9 - exponent) as nat);
            lemma_pow_positive(10, (-9 - exponent) as nat);
            lemma_floor(price as int, down);
            let q = price as int / down;
            assert(q * down == down * q && (q + 1) * down == down * q + down)
                by (nonlinear_arith);
            assert(0 <= q <= price) by (nonlinear_arith)
                requires
                    down * q <= price < down * q + down,
                    down > 0,
                    price > 0,
            ;
            assert(q == 0 ==> price < down) by (nonlinear_arith)
                requires
                    price < down * q + down,
            ;
        }
    }
}

/// A reading is refused for coming from another feed, then for being too old; any other
/// reading gives its own price, normalized.
pub proof fn reading_gives_the_feeds_price(
    reading: PriceReading,
    feed: Pubkey,
    max_age_sec: u64,
    r: Result<u128, StableSwapError>,
    price: Result<u128, StableSwapError>,
)
    requires
        outcome(r) == usable_price(reading, feed, max_age_sec),
        outcome(price) == normalized(reading.price as int, reading.exponent as int),
    ensures
        reading.feed@ != feed@ ==> r == Err::<u128, StableSwapError>(
            StableSwapError::InvalidOracleAccount,
        ),
        reading.feed@ == feed@ && reading.age_sec > max_age_sec ==> r == Err::<
            u128,
            StableSwapError,
        >(StableSwapError::StaleOraclePrice),
        reading.feed@ == feed@ && reading.age_sec <= max_age_sec ==> r == price,
{
}

/// Whether a normalized price is within `threshold` basis points of one dollar.
pub open spec fn within_band(price: int, threshold: int) -> bool {
    &&& (price - 1_000_000_000) * 10_000 <= threshold * 1_000_000_000
    &&& (1_000_000_000 - price) * 10_000 <= threshold * 1_000_000_000
}

/// A price is off its peg exactly if it differs from one dollar by more than the threshold,
/// above or below.
pub proof fn off_peg_is_beyond_the_threshold(price: u128, threshold: u16)
    ensures
        off_peg(price as int, threshold as int) <==> !within_band(price as int, threshold as int),
{
}

/// After a check with usable prices a pool is halted exactly if one of them differs from one
/// dollar by more than the threshold the pool was set up with; nothing else of the pool
/// changes. A price that cannot be used is reported, the first one first, and changes
/// nothing.
pub proof fn peg_check_halts_exactly_off_peg(
    before: Pool,
    after: Pool,
    readings: Readings,
    r: Result<(), StableSwapError>,
)
    requires
        depeg_check(r, before, after, readings),
    ensures
        ({
            let config = before.oracle_config;
            let threshold = config.depeg_threshold_bps as int;
            match (
                usable_price(readings.a, config.oracle_a, config.max_price_age_sec),
                usable_price(readings.b, config.oracle_b, config.max_price_age_sec),
            ) {
                (Err(e), _) => r == Err::<(), StableSwapError>(e) && after == before,
                (Ok(_), Err(e)) => r == Err::<(), StableSwapError>(e) && after == before,
                (Ok(a), Ok(b)) => {
                    &&& r is Ok
                    &&& after.is_paused <==> !(within_band(a, threshold) && within_band(
                        b,
                        threshold,
                    ))
                    &&& after.admin == before.admin
                    &&& after.lp_mint == before.lp_mint
                    &&& after.token_mints == before.token_mints
                    &&& after.amplification == before.amplification
                    &&& after.fee_bps == before.fee_bps
                    &&& after.max_dynamic_fee_bps == before.max_dynamic_fee_bps
                    &&& after.oracle_config == before.oracle_config
                },
            }
        }),
{
}

/// A pool can be set up exactly with an amplification between 1 and 1,000,000, fees of at
/// most one hundred percent of which the base fee is not above the maximum, a threshold and
/// an age above zero, and tokens of the same decimals. The first of these that is missing is
/// reported.
pub proof fn pool_parameters_are_held_to_their_ranges(
    accounts: InitializePool,
    amplification: u64,
    base: u16,
    max: u16,
    threshold: u16,
    age: u64,
)
    ensures
        match setup_fault(accounts, amplification, base, max, threshold, age) {
            None => {
                &&& 1 <= amplification <= 1_000_000
                &&& base <= max <= 10_000
                &&& threshold > 0
                &&& age > 0
                &&& accounts.decimals_a == accounts.decimals_b
            },
            Some(StableSwapError::InvalidAmplification) => amplification == 0 || amplification
                > 1_000_000,
            Some(StableSwapError::InvalidFee) => {
                &&& 1 <= amplification <= 1_000_000
                &&& base > 10_000 || max > 10_000
            },
            Some(StableSwapError::InvalidFeeConfig) => {
                &&& 1 <= amplification <= 1_000_000
                &&& max < base <= 10_000
            },
            Some(StableSwapError::InvalidDepegThreshold) => {
                &&& 1 <= amplification <= 1_000_000
                &&& base <= max <= 10_000
                &&& threshold == 0
            },
            Some(StableSwapError::InvalidOracleAge) => {
                &&& 1 <= amplification <= 1_000_000
                &&& base <= max <= 10_000
                &&& threshold > 0
                &&& age == 0
            },
            Some(StableSwapError::InvalidMintDecimals) => {
                &&& 1 <= amplification <= 1_000_000
                &&& base <= max <= 10_000
                &&& threshold > 0
                &&& age > 0
                &&& accounts.decimals_a != accounts.decimals_b
            },
            Some(_) => false,
        },
{
}

/// Why a pool neither trades nor takes deposits at the given readings, if it does not: it is
/// halted, a price cannot be used, or a price is outside the band.
pub open spec fn closed(pool: Pool, readings: Readings) -> Option<StableSwapError> {
    let config = pool.oracle_config;
    let threshold = config.depeg_threshold_bps as int;
    if pool.is_paused {
        Some(StableSwapError::PoolPaused)
    } else {
        match (
            usable_price(readings.a, config.oracle_a, config.max_price_age_sec),
            usable_price(readings.b, config.oracle_b, config.max_price_age_sec),
        ) {
            (Err(e), _) => Some(e),
            (Ok(_), Err(e)) => Some(e),
            (Ok(a), Ok(b)) => if within_band(a, threshold) && within_band(b, threshold) {
                None
            } else {
                Some(StableSwapError::PoolPaused)
            },
        }
    }
}

/// A deposit of nothing is refused as such, and one into a pool that is closed for the
/// reason that it is closed.
pub proof fn closed_pool_takes_no_deposit(
    pool: Pool,
    balances: Balances,
    readings: Readings,
    amount_a: u64,
    amount_b: u64,
    min_lp_out: u64,
    r: Result<u64, StableSwapError>,
)
    requires
        lp_outcome(r) == deposit(pool, balances, readings, amount_a, amount_b, min_lp_out),
    ensures
        amount_a == 0 && amount_b == 0 ==> r == Err::<u64, StableSwapError>(
            StableSwapError::ZeroAmount,
        ),
        amount_a > 0 || amount_b > 0 ==> (closed(pool, readings) matches Some(e) ==> r == Err::<
            u64,
            StableSwapError,
        >(e)),
{
}

/// The first deposit into an open pool, of either token or both, earns the invariant it
/// creates less 1000 locked shares. It is refused only if that invariant cannot be computed,
/// does not exceed the locked shares, or earns less than was asked for.
pub proof fn open_pool_takes_a_first_deposit(
    pool: Pool,
    balances: Balances,
    readings: Readings,
    amount_a: u64,
    amount_b: u64,
    min_lp_out: u64,
    r: Result<u64, StableSwapError>,
)
    requires
        lp_outcome(r) == deposit(pool, balances, readings, amount_a, amount_b, min_lp_out),
        amount_a > 0 || amount_b > 0,
        closed(pool, readings) is None,
        balances.lp_supply == 0,
    ensures
        match invariant_d(
            balances.vault_a + amount_a,
            balances.vault_b + amount_b,
            pool.amplification as int,
        ) {
            Err(e) => r == Err::<u64, StableSwapError>(e),
            Ok(d) => {
                &&& d <= 1_000 ==> r == Err::<u64, StableSwapError>(
                    StableSwapError::InsufficientInitialLiquidity,
                )
                &&& d > 1_000 && d - 1_000 < min_lp_out ==> r == Err::<u64, StableSwapError>(
                    StableSwapError::SlippageExceeded,
                )
                &&& d > 1_000 && d - 1_000 >= min_lp_out ==> r is Ok
                &&& r matches Ok(lp) ==> lp == if d - 1_000 <= u64::MAX {
                    d - 1_000
                } else {
                    u64::MAX as int
                }
            },
        },
{
}

/// A later deposit into an open pool, of either token or both, earns the share of the LP
/// supply by which the invariant grows, rounded down. It is refused only if one of the
/// invariants cannot be computed, the invariant falls, the product of supply and growth is
/// too large, or the deposit earns less than was asked for.
pub proof fn open_pool_takes_a_later_deposit(
    pool: Pool,
    balances: Balances,
    readings: Readings,
    amount_a: u64,
    amount_b: u64,
    min_lp_out: u64,
    earned: int,
    r: Result<u64, StableSwapError>,
)
    requires
        lp_outcome(r) == deposit(pool, balances, readings, amount_a, amount_b, min_lp_out),
        amount_a > 0 || amount_b > 0,
        closed(pool, readings) is None,
        balances.lp_supply > 0,
    ensures
        match (
            invariant_d(
                balances.vault_a as int,
                balances.vault_b as int,
                pool.amplification as int,
            ),
            invariant_d(
                balances.vault_a + amount_a,
                balances.vault_b + amount_b,
                pool.amplification as int,
            ),
        ) {
            (Err(e), _) => r == Err::<u64, StableSwapError>(e),
            (Ok(_), Err(e)) => r == Err::<u64, StableSwapError>(e),
            (Ok(before), Ok(after)) => {
                let growth = after - before;
                let supply = balances.lp_supply as int;
                &&& growth < 0 ==> r == Err::<u64, StableSwapError>(
                    StableSwapError::InsufficientLiquidity,
                )
                &&& growth >= 0 && supply * growth > u128::MAX ==> r == Err::<u64, StableSwapError>(
                    StableSwapError::MathOverflow,
                )
                &&& growth >= 0 && supply * growth <= u128::MAX && earned * before <= supply
                    * growth < (earned + 1) * before ==> {
                    &&& earned < min_lp_out ==> r == Err::<u64, StableSwapError>(
                        StableSwapError::SlippageExceeded,
                    )
                    &&& min_lp_out <= earned <= u64::MAX ==> r == Ok::<u64, StableSwapError>(
                        earned as u64,
                    )
                    &&& earned > u64::MAX ==> r == Ok::<u64, StableSwapError>(u64::MAX)
                }
            },
        },
{
    let amp = pool.amplification as int;
    let before = invariant_d(balances.vault_a as int, balances.vault_b as int, amp);
    let after = invariant_d(balances.vault_a + amount_a, balances.vault_b + amount_b, amp);
    if before is Ok && after is Ok {
        let d = before->Ok_0;
        let grown = balances.lp_supply * (after->Ok_0 - d);
        d_lies_between_the_means(
            balances.vault_a as u128,
            balances.vault_b as u128,
            pool.amplification as u128,
        );
        if earned * d <= grown < (earned + 1) * d {
            lemma_quotient(grown, d, earned);
        }
    }
}

/// A withdrawal pays out of each vault that vault's own share, rounded down: of the LP supply
/// together with the 1000 locked shares, the part that is burned. It is refused only if
/// nothing is burned, a vault is empty, a share is less than one unit, or a share is less
/// than was asked for.
pub proof fn withdrawal_pays_each_vaults_share(
    balances: Balances,
    lp_amount: u64,
    min_a: u64,
    min_b: u64,
)
    ensures
        ({
            let supply = balances.lp_supply + 1_000;
            let claim_a = balances.vault_a * lp_amount;
            let claim_b = balances.vault_b * lp_amount;
            match payout(balances, lp_amount, min_a, min_b) {
                Ok((a, b)) => {
                    &&& 1 <= a <= u64::MAX && 1 <= b <= u64::MAX
                    &&& min_a <= a && min_b <= b
                    &&& a * supply <= claim_a
                    &&& b * supply <= claim_b
                    &&& a < u64::MAX || lp_amount <= supply ==> claim_a < (a + 1) * supply
                    &&& b < u64::MAX || lp_amount <= supply ==> claim_b < (b + 1) * supply
                },
                Err(StableSwapError::ZeroAmount) => lp_amount == 0,
                Err(StableSwapError::EmptyPool) => {
                    &&& lp_amount > 0
                    &&& balances.vault_a == 0 || balances.vault_b == 0
                },
                Err(StableSwapError::SingleSidedWithdrawalNotAllowed) => {
                    &&& lp_amount > 0
                    &&& balances.vault_a > 0 && balances.vault_b > 0
                    &&& claim_a < supply || claim_b < supply
                },
                Err(StableSwapError::SlippageExceeded) => {
                    &&& claim_a >= supply && claim_b >= supply
                    &&& claim_a < min_a * supply || claim_b < min_b * supply
                },
                Err(_) => false,
            }
        }),
{
    let supply = balances.lp_supply + 1_000;
    lemma_vault_share(balances.vault_a, lp_amount, supply, min_a);
    lemma_vault_share(balances.vault_b, lp_amount, supply, min_b);
}

/// The share of one vault, and when it is less than was asked for.
proof fn lemma_vault_share(vault: u64, lp_amount: u64, supply: int, min: u64)
    requires
        1_000 <= supply <= u64::MAX + 1_000,
    ensures
        vault * lp_amount <= u128::MAX,
        ({
            let q = ((vault as u128) * (lp_amount as u128)) / supply;
            let paid = if q <= u64::MAX {
                q
            } else {
                u64::MAX as int
            };
            &&& 0 <= paid
            &&& paid * supply <= vault * lp_amount
            &&& paid < u64::MAX || lp_amount <= supply ==> vault * lp_amount < (paid + 1) * supply
            &&& paid == 0 <==> vault * lp_amount < supply
            &&& paid < min ==> vault * lp_amount < min * supply
        }),
{
    let whole = supply as u128;
    let claim = vault * lp_amount;
    assert(claim <= u128::MAX) by (nonlinear_arith)
        requires
            claim == vault * lp_amount,
            vault <= 0xffff_ffff_ffff_ffff,
            lp_amount <= 0xffff_ffff_ffff_ffff,
    ;
    lemma_rounded_share(vault as u128, lp_amount as u128, whole);
    let q = ((vault as u128) * (lp_amount as u128)) / supply;
    assert((vault as u128) * (lp_amount as u128) == claim);
    let paid = if q <= u64::MAX {
        q
    } else {
        u64::MAX as int
    };
    if lp_amount <= supply {
        assert(claim <= vault * supply) by (nonlinear_arith)
            requires
                claim == vault * lp_amount,
                lp_amount <= supply,
        ;
        assert(claim < (u64::MAX + 1) * supply) by (nonlinear_arith)
            requires
                claim <= vault * supply,
                vault <= u64::MAX,
                supply > 0,
        ;
    }
    if paid < min {
        assert((paid + 1) * supply <= min * supply) by (nonlinear_arith)
            requires
                paid + 1 <= min,
                supply > 0,
        ;
    }
}

/// A swap in an open pool is the trade of its two sides: what the pool holds of the token
/// sold and of the token bought, at their prices, with the pool's amplification, fees and
/// threshold. It gives the quote of that trade, or its refusal, or is refused for paying
/// less than was asked for. Before that an unknown token, a token swapped for itself and a
/// closed pool are refused, in this order.
pub proof fn swap_is_the_trade_of_its_sides(
    pool: Pool,
    balances: Balances,
    readings: Readings,
    amount_in: u64,
    min_amount_out: u64,
    input_index: u8,
    output_index: u8,
    price_a: u128,
    price_b: u128,
    traded: Result<SwapQuote, StableSwapError>,
    r: Result<SwapQuote, StableSwapError>,
)
    requires
        quote_agrees(
            r,
            swap_price(
                pool,
                balances,
                readings,
                amount_in,
                min_amount_out,
                input_index,
                output_index,
            ),
        ),
        quote_agrees(
            traded,
            (if input_index == 0 {
                Trade {
                    reserve_in: balances.vault_a as u128,
                    reserve_out: balances.vault_b as u128,
                    amount_in: amount_in as u128,
                    amp: pool.amplification as u128,
                    base_fee_bps: pool.fee_bps,
                    max_dynamic_fee_bps: pool.max_dynamic_fee_bps,
                    oracle_price_in: price_a,
                    oracle_price_out: price_b,
                    depeg_threshold_bps: pool.oracle_config.depeg_threshold_bps,
                }
            } else {
                Trade {
                    reserve_in: balances.vault_b as u128,
                    reserve_out: balances.vault_a as u128,
                    amount_in: amount_in as u128,
                    amp: pool.amplification as u128,
                    base_fee_bps: pool.fee_bps,
                    max_dynamic_fee_bps: pool.max_dynamic_fee_bps,
                    oracle_price_in: price_b,
                    oracle_price_out: price_a,
                    depeg_threshold_bps: pool.oracle_config.depeg_threshold_bps,
                }
            }).price(),
        ),
    ensures
        ({
            let config = pool.oracle_config;
            let known = input_index <= 1 && output_index <= 1;
            let priced = {
                &&& usable_price(readings.a, config.oracle_a, config.max_price_age_sec) == Ok::<
                    int,
                    StableSwapError,
                >(price_a as int)
                &&& usable_price(readings.b, config.oracle_b, config.max_price_age_sec) == Ok::<
                    int,
                    StableSwapError,
                >(price_b as int)
            };
            &&& !known ==> r == Err::<SwapQuote, StableSwapError>(
                StableSwapError::InvalidTokenIndex,
            )
            &&& known && input_index == output_index ==> r == Err::<SwapQuote, StableSwapError>(
                StableSwapError::SameTokenSwap,
            )
            &&& known && input_index != output_index ==> {
                &&& closed(pool, readings) matches Some(e) ==> r == Err::<
                    SwapQuote,
                    StableSwapError,
                >(e)
                &&& closed(pool, readings) is None && priced ==> match traded {
                    Err(e) => r == Err::<SwapQuote, StableSwapError>(e),
                    Ok(quote) => if quote.amount_out < min_amount_out {
                        r == Err::<SwapQuote, StableSwapError>(StableSwapError::SlippageExceeded)
                    } else {
                        r == Ok::<SwapQuote, StableSwapError>(quote)
                    },
                }
            }
        }),
{
}

} // verus!
