//! The pool's instructions: setting it up, watching the peg, deposits, withdrawals, swaps.

use vstd::prelude::*;

use crate::accounts::{
    associated_token_address, get_associated_token_address, token_program, TOKEN_PROGRAM,
};
use crate::keys::{canonical_address, find_address, two_seeds, Pubkey};
use crate::stableswap::errors::StableSwapError;
use crate::stableswap::liquidity::{
    calculate_lp_mint_amount, calculate_withdraw_amounts, lp_mint, lp_outcome, withdrawal,
};
use crate::stableswap::oracle::{
    is_off_peg, off_peg, read_price, usable_price, OracleConfig, PriceReading,
};
use crate::stableswap::quote::{
    calculate_swap_output, quote_agrees, Price, SwapQuote, Trade,
};

verus! {

/// LP shares that stay locked for ever, as virtual dead shares.
pub const MINIMUM_LIQUIDITY: u64 = 1_000;

/// The largest amplification coefficient.
pub const MAX_AMPLIFICATION: u64 = 1_000_000;

/// One hundred percent in basis points, the ceiling of every fee.
pub const MAX_FEE_BPS: u16 = 10_000;

/// The seed `pool` of a pool account.
pub const POOL_SEED: [u8; 4] = [112, 111, 111, 108];

/// The state of a pool.
#[derive(Debug, Clone, Copy, PartialEq, Eq)]
pub struct Pool {
    /// Who created the pool.
    pub admin: Pubkey,
    /// The mint of the pool's LP tokens.
    pub lp_mint: Pubkey,
    /// The mints of the two tokens.
    pub token_mints: [Pubkey; 2],
    /// The amplification coefficient.
    pub amplification: u64,
    /// The minimum swap fee in basis points.
    pub fee_bps: u16,
    /// The maximum swap fee, once the pool drifts away from the peg.
    pub max_dynamic_fee_bps: u16,
    /// The pool's price feeds and peg band.
    pub oracle_config: OracleConfig,
    /// Whether trading and deposits are halted.
    pub is_paused: bool,
}

impl Pool {
    /// Whether the parameters are within the supported ranges.
    pub open spec fn wf(self) -> bool {
        &&& 1 <= self.amplification <= MAX_AMPLIFICATION
        &&& self.fee_bps <= self.max_dynamic_fee_bps <= MAX_FEE_BPS
        &&& self.oracle_config.depeg_threshold_bps > 0
        &&& self.oracle_config.max_price_age_sec > 0
    }
}

/// What a new pool is made of.
#[derive(Debug, Clone, Copy, PartialEq, Eq)]
pub struct InitializePool {
    /// The signer who creates the pool.
    pub admin: Pubkey,
    pub token_mint_a: Pubkey,
    pub token_mint_b: Pubkey,
    /// Decimals of the first token.
    pub decimals_a: u8,
    /// Decimals of the second token.
    pub decimals_b: u8,
    pub lp_mint: Pubkey,
    pub oracle_price_feed_a: Pubkey,
    pub oracle_price_feed_b: Pubkey,
}

/// Where a pool and its vaults live.
#[derive(Debug, Clone, Copy, PartialEq, Eq)]
pub struct PoolAddresses {
    /// The pool account, with its bump seed.
    pub pool: (Pubkey, u8),
    /// The vault of the first token.
    pub vault_a: Pubkey,
    /// The vault of the second token.
    pub vault_b: Pubkey,
}

/// The seeds of a pool account.
pub open spec fn pool_seeds(lp_mint: Pubkey) -> Seq<Seq<u8>> {
    seq![POOL_SEED@, lp_mint@]
}

/// The bytes of the addresses of a pool and its vaults.
pub struct PoolAddressBytes {
    pub pool: Seq<u8>,
    pub bump: u8,
    pub vault_a: Seq<u8>,
    pub vault_b: Seq<u8>,
}

/// The bytes of derived addresses, if there are any.
pub open spec fn addresses_view(addresses: Option<PoolAddresses>) -> Option<PoolAddressBytes> {
    match addresses {
        Some(found) => Some(
            PoolAddressBytes {
                pool: found.pool.0@,
                bump: found.pool.1,
                vault_a: found.vault_a@,
                vault_b: found.vault_b@,
            },
        ),
        None => None,
    }
}

/// Where the pool of an LP mint and its vaults live, if they have addresses: the vaults are
/// the pool's associated token accounts for the two tokens.
pub open spec fn addresses_of(
    program_id: Pubkey,
    lp_mint: Pubkey,
    token_mint_a: Pubkey,
    token_mint_b: Pubkey,
) -> Option<PoolAddressBytes> {
    match canonical_address(pool_seeds(lp_mint), program_id@) {
        None => None,
        Some((pool, bump)) => match (
            associated_token_address(pool, token_mint_a@, TOKEN_PROGRAM@),
            associated_token_address(pool, token_mint_b@, TOKEN_PROGRAM@),
        ) {
            (Some(vault_a), Some(vault_b)) => Some(
                PoolAddressBytes { pool, bump, vault_a, vault_b },
            ),
            _ => None,
        },
    }
}

/// Derive where the pool of an LP mint and its vaults live.
pub fn pool_addresses(
    program_id: &Pubkey,
    lp_mint: &Pubkey,
    token_mint_a: &Pubkey,
    token_mint_b: &Pubkey,
) -> (r: Option<PoolAddresses>)
    ensures
        addresses_view(r) == addresses_of(*program_id, *lp_mint, *token_mint_a, *token_mint_b),
{
    let pool = match find_address(&two_seeds(&POOL_SEED, &lp_mint.bytes), program_id) {
        Some(pool) => pool,
        None => return None,
    };
    let vault_a = get_associated_token_address(&pool.0, token_mint_a, &token_program());
    let vault_b = get_associated_token_address(&pool.0, token_mint_b, &token_program());
    match (vault_a, vault_b) {
        (Some(vault_a), Some(vault_b)) => Some(PoolAddresses { pool, vault_a, vault_b }),
        _ => None,
    }
}

/// Why a pool cannot be set up with the given parameters, if it cannot.
pub open spec fn setup_fault(
    accounts: InitializePool,
    amplification: u64,
    base_fee_bps: u16,
    max_dynamic_fee_bps: u16,
    depeg_threshold_bps: u16,
    max_price_age_sec: u64,
) -> Option<StableSwapError> {
    if !(1 <= amplification <= MAX_AMPLIFICATION) {
        Some(StableSwapError::InvalidAmplification)
    } else if base_fee_bps > MAX_FEE_BPS || max_dynamic_fee_bps > MAX_FEE_BPS {
        Some(StableSwapError::InvalidFee)
    } else if base_fee_bps > max_dynamic_fee_bps {
        Some(StableSwapError::InvalidFeeConfig)
    } else if depeg_threshold_bps == 0 {
        Some(StableSwapError::InvalidDepegThreshold)
    } else if max_price_age_sec == 0 {
        Some(StableSwapError::InvalidOracleAge)
    } else if accounts.decimals_a != accounts.decimals_b {
        Some(StableSwapError::InvalidMintDecimals)
    } else {
        None
    }
}

/// Create a new two-token StableSwap pool.
///
/// * `amplification`: between 1 and 1,000,000, typically 100 to 2000.
/// * `base_fee_bps`: minimum swap fee in basis points.
/// * `max_dynamic_fee_bps`: maximum swap fee once the pool drifts away from the peg.
/// * `depeg_threshold_bps`: peg band that triggers the oracle pause.
/// * `max_price_age_sec`: maximum acceptable price age.
pub fn initialize_pool(
    accounts: &InitializePool,
    amplification: u64,
    base_fee_bps: u16,
    max_dynamic_fee_bps: u16,
    depeg_threshold_bps: u16,
    max_price_age_sec: u64,
) -> (r: Result<Pool, StableSwapError>)
    ensures
        ({
            let fault = setup_fault(
                *accounts,
                amplification,
                base_fee_bps,
                max_dynamic_fee_bps,
                depeg_threshold_bps,
                max_price_age_sec,
            );
            match r {
                Err(e) => fault == Some(e),
                Ok(pool) => {
                    &&& fault is None
                    &&& pool.wf()
                    &&& pool.admin == accounts.admin
                    &&& pool.lp_mint == accounts.lp_mint
                    &&& pool.token_mints@ == seq![accounts.token_mint_a, accounts.token_mint_b]
                    &&& pool.amplification == amplification
                    &&& pool.fee_bps == base_fee_bps
                    &&& pool.max_dynamic_fee_bps == max_dynamic_fee_bps
                    &&& pool.oracle_config == (OracleConfig {
                        oracle_a: accounts.oracle_price_feed_a,
                        oracle_b: accounts.oracle_price_feed_b,
                        depeg_threshold_bps,
                        max_price_age_sec,
                    })
                    &&& !pool.is_paused
                },
            }
        }),
{
    if !(amplification >= 1 && amplification <= MAX_AMPLIFICATION) {
        return Err(StableSwapError::InvalidAmplification);
    }
    if base_fee_bps > MAX_FEE_BPS || max_dynamic_fee_bps > MAX_FEE_BPS {
        return Err(StableSwapError::InvalidFee);
    }
    if base_fee_bps > max_dynamic_fee_bps {
        return Err(StableSwapError::InvalidFeeConfig);
    }
    if depeg_threshold_bps == 0 {
        return Err(StableSwapError::InvalidDepegThreshold);
    }
    if max_price_age_sec == 0 {
        return Err(StableSwapError::InvalidOracleAge);
    }
    if accounts.decimals_a != accounts.decimals_b {
        return Err(StableSwapError::InvalidMintDecimals);
    }
    let token_mints: [Pubkey; 2] = [accounts.token_mint_a, accounts.token_mint_b];
    assert(token_mints@ =~= seq![accounts.token_mint_a, accounts.token_mint_b]);
    Ok(
        Pool {
            admin: accounts.admin,
            lp_mint: accounts.lp_mint,
            token_mints,
            amplification,
            fee_bps: base_fee_bps,
            max_dynamic_fee_bps,
            oracle_config: OracleConfig {
                oracle_a: accounts.oracle_price_feed_a,
                oracle_b: accounts.oracle_price_feed_b,
                depeg_threshold_bps,
                max_price_age_sec,
            },
            is_paused: false,
        },
    )
}

/// Readings of a pool's two price feeds.
#[derive(Debug, Clone, Copy, PartialEq, Eq)]
pub struct Readings {
    pub a: PriceReading,
    pub b: PriceReading,
}

/// The normalized prices that the readings give a pool, or why they give none.
pub open spec fn usable_prices(pool: Pool, readings: Readings) -> Result<
    (int, int),
    StableSwapError,
> {
    let config = pool.oracle_config;
    match (
        usable_price(readings.a, config.oracle_a, config.max_price_age_sec),
        usable_price(readings.b, config.oracle_b, config.max_price_age_sec),
    ) {
        (Err(e), _) => Err(e),
        (Ok(_), Err(e)) => Err(e),
        (Ok(a), Ok(b)) => Ok((a, b)),
    }
}

/// Take both normalized prices.
fn read_prices(pool: &Pool, readings: &Readings) -> (r: Result<(u128, u128), StableSwapError>)
    ensures
        match r {
            Ok((a, b)) => usable_prices(*pool, *readings) == Ok::<(int, int), StableSwapError>(
                (a as int, b as int),
            ),
            Err(e) => usable_prices(*pool, *readings) == Err::<(int, int), StableSwapError>(e),
        },
{
    let config = &pool.oracle_config;
    let a = match read_price(&readings.a, &config.oracle_a, config.max_price_age_sec) {
        Ok(a) => a,
        Err(e) => return Err(e),
    };
    let b = match read_price(&readings.b, &config.oracle_b, config.max_price_age_sec) {
        Ok(b) => b,
        Err(e) => return Err(e),
    };
    Ok((a, b))
}

/// Whether either price is outside the pool's peg band.
pub open spec fn depegged(pool: Pool, prices: (int, int)) -> bool {
    let threshold = pool.oracle_config.depeg_threshold_bps as int;
    off_peg(prices.0, threshold) || off_peg(prices.1, threshold)
}

/// The outcome of [`check_depeg`].
pub open spec fn depeg_check(
    r: Result<(), StableSwapError>,
    before: Pool,
    after: Pool,
    readings: Readings,
) -> bool {
    match usable_prices(before, readings) {
        Err(e) => r == Err::<(), StableSwapError>(e) && after == before,
        Ok(prices) => {
            &&& r is Ok
            &&& after == (Pool { is_paused: depegged(before, prices), ..before })
        },
    }
}

/// Check whether either stablecoin has moved outside the pool's peg band, and halt the
/// pool if so.
///
/// This is the same condition that halts swaps and deposits by itself.
pub fn check_depeg(pool: &mut Pool, readings: &Readings) -> (r: Result<(), StableSwapError>)
    ensures
        depeg_check(r, *old(pool), *final(pool), *readings),
{
    let (a, b) = match read_prices(pool, readings) {
        Ok(prices) => prices,
        Err(e) => return Err(e),
    };
    let threshold = pool.oracle_config.depeg_threshold_bps;
    pool.is_paused = is_off_peg(a, threshold) || is_off_peg(b, threshold);
    Ok(())
}

/// The prices at which a pool trades and takes deposits, or why it does neither.
pub open spec fn open_at(pool: Pool, readings: Readings) -> Result<(int, int), StableSwapError> {
    if pool.is_paused {
        Err(StableSwapError::PoolPaused)
    } else {
        match usable_prices(pool, readings) {
            Err(e) => Err(e),
            Ok(prices) => if depegged(pool, prices) {
                Err(StableSwapError::PoolPaused)
            } else {
                Ok(prices)
            },
        }
    }
}

/// Take the prices at which a pool is open.
fn require_open(pool: &Pool, readings: &Readings) -> (r: Result<(u128, u128), StableSwapError>)
    ensures
        match r {
            Ok((a, b)) => open_at(*pool, *readings) == Ok::<(int, int), StableSwapError>(
                (a as int, b as int),
            ),
            Err(e) => open_at(*pool, *readings) == Err::<(int, int), StableSwapError>(e),
        },
{
    if pool.is_paused {
        return Err(StableSwapError::PoolPaused);
    }
    let (a, b) = match read_prices(pool, readings) {
        Ok(prices) => prices,
        Err(e) => return Err(e),
    };
    let threshold = pool.oracle_config.depeg_threshold_bps;
    if is_off_peg(a, threshold) || is_off_peg(b, threshold) {
        return Err(StableSwapError::PoolPaused);
    }
    Ok((a, b))
}

/// What a pool's vaults hold and how many LP tokens there are.
#[derive(Debug, Clone, Copy, PartialEq, Eq, Structural)]
pub struct Balances {
    pub vault_a: u64,
    pub vault_b: u64,
    pub lp_supply: u64,
}

/// What a pool's vaults hold and how many LP tokens there are, as integers.
pub struct Holdings {
    pub vault_a: int,
    pub vault_b: int,
    pub lp_supply: int,
}

impl View for Balances {
    type V = Holdings;

    open spec fn view(&self) -> Holdings {
        Holdings {
            vault_a: self.vault_a as int,
            vault_b: self.vault_b as int,
            lp_supply: self.lp_supply as int,
        }
    }
}

/// Holdings after a deposit that issues `lp` LP tokens.
pub open spec fn after_deposit(
    before: Holdings,
    amount_a: int,
    amount_b: int,
    lp: int,
) -> Holdings {
    Holdings {
        vault_a: before.vault_a + amount_a,
        vault_b: before.vault_b + amount_b,
        lp_supply: before.lp_supply + lp,
    }
}

/// Holdings after `lp` LP tokens were burned for `a` and `b` of the two tokens.
pub open spec fn after_withdrawal(before: Holdings, lp: int, a: int, b: int) -> Holdings {
    Holdings {
        vault_a: before.vault_a - a,
        vault_b: before.vault_b - b,
        lp_supply: before.lp_supply - lp,
    }
}

/// Holdings after `amount_in` of one token was sold for `amount_out` of the other.
pub open spec fn after_swap(
    before: Holdings,
    input_index: u8,
    amount_in: int,
    amount_out: int,
) -> Holdings {
    if input_index == 0 {
        Holdings {
            vault_a: before.vault_a + amount_in,
            vault_b: before.vault_b - amount_out,
            ..before
        }
    } else {
        Holdings {
            vault_a: before.vault_a - amount_out,
            vault_b: before.vault_b + amount_in,
            ..before
        }
    }
}

/// The LP tokens a deposit earns, or why it is refused.
pub open spec fn deposit(
    pool: Pool,
    balances: Balances,
    readings: Readings,
    amount_a: u64,
    amount_b: u64,
    min_lp_out: u64,
) -> Result<int, StableSwapError> {
    if amount_a == 0 && amount_b == 0 {
        Err(StableSwapError::ZeroAmount)
    } else {
        match open_at(pool, readings) {
            Err(e) => Err(e),
            Ok(_) => match lp_mint(
                balances.vault_a as int,
                balances.vault_b as int,
                balances.vault_a + amount_a,
                balances.vault_b + amount_b,
                balances.lp_supply as int,
                pool.amplification as int,
                MINIMUM_LIQUIDITY as int,
            ) {
                Err(e) => Err(e),
                Ok(lp) => if lp < min_lp_out {
                    Err(StableSwapError::SlippageExceeded)
                } else {
                    Ok(lp)
                },
            },
        }
    }
}

/// Deposit token A, token B or both to receive LP tokens.
///
/// Into a balanced pool, depositing as much of one token as of the other is most efficient;
/// imbalanced deposits are also supported. In a pool out of balance a deposit in the current
/// ratio keeps the ratio, and one towards balance earns more for the same sum. At least
/// `min_lp_out` LP tokens are issued.
///
/// The first deposit leaves [`MINIMUM_LIQUIDITY`] shares out of the LP supply, locked for
/// ever. Later deposits scale the bare LP supply by the growth of the invariant, while
/// withdrawals count the locked shares in.
pub fn add_liquidity(
    pool: &Pool,
    balances: &Balances,
    readings: &Readings,
    amount_a: u64,
    amount_b: u64,
    min_lp_out: u64,
) -> (r: Result<u64, StableSwapError>)
    ensures
        lp_outcome(r) == deposit(*pool, *balances, *readings, amount_a, amount_b, min_lp_out),
{
    if amount_a == 0 && amount_b == 0 {
        return Err(StableSwapError::ZeroAmount);
    }
    if let Err(e) = require_open(pool, readings) {
        return Err(e);
    }
    let lp = calculate_lp_mint_amount(
        balances.vault_a as u128,
        balances.vault_b as u128,
        balances.vault_a as u128 + amount_a as u128,
        balances.vault_b as u128 + amount_b as u128,
        balances.lp_supply as u128,
        pool.amplification as u128,
        MINIMUM_LIQUIDITY,
    )?;
    if lp < min_lp_out {
        return Err(StableSwapError::SlippageExceeded);
    }
    Ok(lp)
}

/// What burning LP tokens pays out, or why it is refused.
pub open spec fn payout(balances: Balances, lp_amount: u64, min_a: u64, min_b: u64) -> Result<
    (int, int),
    StableSwapError,
> {
    match withdrawal(
        seq![balances.vault_a as u128, balances.vault_b as u128],
        lp_amount as int,
        balances.lp_supply + MINIMUM_LIQUIDITY,
    ) {
        Err(e) => Err(e),
        Ok((a, b)) => if a < min_a || b < min_b {
            Err(StableSwapError::SlippageExceeded)
        } else {
            Ok((a, b))
        },
    }
}

/// Burn LP tokens to withdraw a proportional share of both tokens.
///
/// At least `min_a` of token A and `min_b` of token B are paid out. A halted pool pays
/// out too.
pub fn remove_liquidity(balances: &Balances, lp_amount: u64, min_a: u64, min_b: u64) -> (r: Result<
    (u64, u64),
    StableSwapError,
>)
    ensures
        match r {
            Ok((a, b)) => payout(*balances, lp_amount, min_a, min_b) == Ok::<
                (int, int),
                StableSwapError,
            >((a as int, b as int)),
            Err(e) => payout(*balances, lp_amount, min_a, min_b) == Err::<
                (int, int),
                StableSwapError,
            >(e),
        },
{
    let reserves: [u128; 2] = [balances.vault_a as u128, balances.vault_b as u128];
    assert(reserves@ =~= seq![balances.vault_a as u128, balances.vault_b as u128]);
    let amounts = calculate_withdraw_amounts(
        &reserves,
        lp_amount as u128,
        balances.lp_supply as u128 + MINIMUM_LIQUIDITY as u128,
    )?;
    if amounts[0] < min_a || amounts[1] < min_b {
        return Err(StableSwapError::SlippageExceeded);
    }
    Ok((amounts[0], amounts[1]))
}

/// The trade of `amount_in` of one token for the other, at the given prices.
pub open spec fn trade_of(
    pool: Pool,
    balances: Balances,
    prices: (int, int),
    amount_in: u64,
    input_index: u8,
) -> Trade {
    let a_in = input_index == 0;
    Trade {
        reserve_in: (if a_in {
            balances.vault_a
        } else {
            balances.vault_b
        }) as u128,
        reserve_out: (if a_in {
            balances.vault_b
        } else {
            balances.vault_a
        }) as u128,
        amount_in: amount_in as u128,
        amp: pool.amplification as u128,
        base_fee_bps: pool.fee_bps,
        max_dynamic_fee_bps: pool.max_dynamic_fee_bps,
        oracle_price_in: (if a_in {
            prices.0
        } else {
            prices.1
        }) as u128,
        oracle_price_out: (if a_in {
            prices.1
        } else {
            prices.0
        }) as u128,
        depeg_threshold_bps: pool.oracle_config.depeg_threshold_bps,
    }
}

/// The price of a swap, or why it is refused.
pub open spec fn swap_price(
    pool: Pool,
    balances: Balances,
    readings: Readings,
    amount_in: u64,
    min_amount_out: u64,
    input_index: u8,
    output_index: u8,
) -> Result<Price, StableSwapError> {
    if input_index > 1 || output_index > 1 {
        Err(StableSwapError::InvalidTokenIndex)
    } else if input_index == output_index {
        Err(StableSwapError::SameTokenSwap)
    } else {
        match open_at(pool, readings) {
            Err(e) => Err(e),
            Ok(prices) => match trade_of(pool, balances, prices, amount_in, input_index).price() {
                Err(e) => Err(e),
                Ok(price) => if price.net() < min_amount_out {
                    Err(StableSwapError::SlippageExceeded)
                } else {
                    Ok(price)
                },
            },
        }
    }
}

/// Swap one pool token for the other.
///
/// * `amount_in`: input amount to sell.
/// * `min_amount_out`: minimum output amount, as a slippage guard.
/// * `input_index`: pool token index to sell.
/// * `output_index`: pool token index to receive.
pub fn swap(
    pool: &Pool,
    balances: &Balances,
    readings: &Readings,
    amount_in: u64,
    min_amount_out: u64,
    input_index: u8,
    output_index: u8,
) -> (r: Result<SwapQuote, StableSwapError>)
    ensures
        quote_agrees(
            r,
            swap_price(
                *pool,
                *balances,
                *readings,
                amount_in,
                min_amount_out,
                input_index,
                output_index,
            ),
        ),
{
    if input_index > 1 || output_index > 1 {
        return Err(StableSwapError::InvalidTokenIndex);
    }
    if input_index == output_index {
        return Err(StableSwapError::SameTokenSwap);
    }
    let (price_a, price_b) = match require_open(pool, readings) {
        Ok(prices) => prices,
        Err(e) => return Err(e),
    };
    let (reserve_in, reserve_out, price_in, price_out) = if input_index == 0 {
        (balances.vault_a, balances.vault_b, price_a, price_b)
    } else {
        (balances.vault_b, balances.vault_a, price_b, price_a)
    };
    let quote = calculate_swap_output(
        reserve_in as u128,
        reserve_out as u128,
        amount_in as u128,
        pool.amplification as u128,
        pool.fee_bps,
        pool.max_dynamic_fee_bps,
        price_in,
        price_out,
        pool.oracle_config.depeg_threshold_bps,
    )?;
    if quote.amount_out < min_amount_out as u128 {
        return Err(StableSwapError::SlippageExceeded);
    }
    Ok(quote)
}

} // verus!
