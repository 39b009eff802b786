//! Oracle prices and the band around the peg.

use vstd::arithmetic::div_mod::{lemma_div_denominator, lemma_div_is_ordered_by_denominator};
use vstd::arithmetic::mul::lemma_mul_is_associative;
use vstd::arithmetic::power::{
    lemma_pow1, lemma_pow_adds, lemma_pow_increases, lemma_pow_positive, pow,
};
use vstd::prelude::*;

use crate::keys::Pubkey;
use crate::stableswap::curve::{fits, gap, outcome};
use crate::stableswap::errors::StableSwapError;
use crate::stableswap::fees::BASIS_POINTS_DIVISOR;

verus! {

/// The price of one dollar, with the nine decimals of a normalized price.
pub const PEG_PRICE: u128 = 1_000_000_000;

/// Where a pool's prices come from and when they halt it.
#[derive(Debug, Clone, Copy, PartialEq, Eq)]
pub struct OracleConfig {
    /// The price feed of the first token.
    pub oracle_a: Pubkey,
    /// The price feed of the second token.
    pub oracle_b: Pubkey,
    /// How far a price may be off the peg, in basis points.
    pub depeg_threshold_bps: u16,
    /// How old a price may be, in seconds.
    pub max_price_age_sec: u64,
}

/// What a price feed says.
#[derive(Debug, Clone, Copy, PartialEq, Eq)]
pub struct PriceReading {
    /// The account that was read.
    pub feed: Pubkey,
    /// The price, in units of ten to the power of `exponent` dollars.
    pub price: i64,
    pub exponent: i32,
    /// Seconds since the price was published.
    pub age_sec: u64,
}

/// A price with nine decimals, rounded down.
pub open spec fn nine_decimals(price: int, exponent: int) -> int {
    if exponent >= -9 {
        price * pow(10, (exponent + 9) as nat)
    } else {
        price / pow(10, (-9 - exponent) as nat)
    }
}

/// The normalized price, or why there is none.
pub open spec fn normalized(price: int, exponent: int) -> Result<int, StableSwapError> {
    if price <= 0 {
        Err(StableSwapError::InvalidOraclePrice)
    } else if !fits(nine_decimals(price, exponent)) {
        Err(StableSwapError::MathOverflow)
    } else if nine_decimals(price, exponent) == 0 {
        Err(StableSwapError::InvalidOraclePrice)
    } else {
        Ok(nine_decimals(price, exponent))
    }
}

/// Ten to one power more.
proof fn lemma_ten_more(n: nat)
    ensures
        pow(10, n + 1) == pow(10, n) * 10,
        pow(10, n) > 0,
{
    lemma_pow_adds(10, n, 1);
    lemma_pow1(10);
    lemma_pow_positive(10, n);
}

/// Multiply by a power of ten, if the product is a machine word.
fn scale_up(value: u128, digits: u64) -> (r: Option<u128>)
    requires
        value > 0,
    ensures
        match r {
            Some(v) => v == value * pow(10, digits as nat),
            None => !fits(value * pow(10, digits as nat)),
        },
{
    let mut scaled: u128 = value;
    let mut done: u64 = 0;
    proof {
        vstd::arithmetic::power::lemma_pow0(10);
    }
    while done < digits
        invariant
            value > 0,
            done <= digits,
            scaled == value * pow(10, done as nat),
        decreases digits - done,
    {
        proof {
            lemma_ten_more(done as nat);
            lemma_mul_is_associative(value as int, pow(10, done as nat), 10);
        }
        match scaled.checked_mul(10) {
            Some(next) => {
                scaled = next;
            },
            None => {
                proof {
                    lemma_pow_increases(10, (done + 1) as nat, digits as nat);
                    let more = pow(10, (done + 1) as nat);
                    let most = pow(10, digits as nat);
                    assert(value * most >= value * more) by (nonlinear_arith)
                        requires
                            most >= more,
                            value > 0,
                    ;
                }
                return None;
            },
        }
        done = done + 1;
    }
    Some(scaled)
}

/// Divide by a power of ten, rounding down.
fn scale_down(value: u128, digits: u64) -> (r: u128)
    ensures
        r == value as int / pow(10, digits as nat),
{
    let mut scaled: u128 = value;
    let mut done: u64 = 0;
    proof {
        vstd::arithmetic::power::lemma_pow0(10);
    }
    while done < digits && scaled > 0
        invariant
            done <= digits,
            scaled == value as int / pow(10, done as nat),
        decreases digits - done,
    {
        proof {
            lemma_ten_more(done as nat);
            lemma_div_denominator(value as int, pow(10, done as nat), 10);
        }
        scaled = scaled / 10;
        done = done + 1;
    }
    proof {
        lemma_pow_positive(10, done as nat);
        lemma_pow_positive(10, digits as nat);
        if done < digits {
            lemma_pow_increases(10, done as nat, digits as nat);
            lemma_div_is_ordered_by_denominator(
                value as int,
                pow(10, done as nat),
                pow(10, digits as nat),
            );
            vstd::arithmetic::div_mod::lemma_div_pos_is_pos(value as int, pow(10, digits as nat));
        }
    }
    scaled
}

/// Bring an oracle price to nine decimals.
///
/// A price that is not positive, or that vanishes at this precision, is unusable.
pub fn normalize_price(price: i64, exponent: i32) -> (r: Result<u128, StableSwapError>)
    ensures
        outcome(r) == normalized(price as int, exponent as int),
{
    if price <= 0 {
        return Err(StableSwapError::InvalidOraclePrice);
    }
    let value = price as u128;
    let shift = exponent as i64 + 9;
    let scaled = if shift >= 0 {
        match scale_up(value, shift as u64) {
            Some(v) => v,
            None => return Err(StableSwapError::MathOverflow),
        }
    } else {
        scale_down(value, (-shift) as u64)
    };
    if scaled == 0 {
        return Err(StableSwapError::InvalidOraclePrice);
    }
    Ok(scaled)
}

/// The normalized price that a reading of `feed` gives, or why it gives none.
pub open spec fn usable_price(reading: PriceReading, feed: Pubkey, max_age_sec: u64) -> Result<
    int,
    StableSwapError,
> {
    if reading.feed@ != feed@ {
        Err(StableSwapError::InvalidOracleAccount)
    } else if reading.age_sec > max_age_sec {
        Err(StableSwapError::StaleOraclePrice)
    } else {
        normalized(reading.price as int, reading.exponent as int)
    }
}

/// Take the normalized price from a reading of a configured feed.
pub fn read_price(reading: &PriceReading, feed: &Pubkey, max_age_sec: u64) -> (r: Result<
    u128,
    StableSwapError,
>)
    ensures
        outcome(r) == usable_price(*reading, *feed, max_age_sec),
{
    if reading.feed != *feed {
        return Err(StableSwapError::InvalidOracleAccount);
    }
    if reading.age_sec > max_age_sec {
        return Err(StableSwapError::StaleOraclePrice);
    }
    normalize_price(reading.price, reading.exponent)
}

/// Whether a normalized price lies outside the band around the peg.
pub open spec fn off_peg(price: int, threshold_bps: int) -> bool {
    gap(price, PEG_PRICE as int) * BASIS_POINTS_DIVISOR > threshold_bps * PEG_PRICE
}

/// Check whether a normalized price lies outside the band around the peg.
pub fn is_off_peg(price: u128, threshold_bps: u16) -> (r: bool)
    ensures
        r == off_peg(price as int, threshold_bps as int),
{
    let allowed: u128 = threshold_bps as u128 * 100_000;
    if price >= PEG_PRICE {
        price - PEG_PRICE > allowed
    } else {
        PEG_PRICE - price > allowed
    }
}

/// A wider band never puts a price off the peg.
pub proof fn wider_band_is_more_tolerant(price: u128, narrow: u16, wide: u16)
    requires
        narrow <= wide,
    ensures
        off_peg(price as int, wide as int) ==> off_peg(price as int, narrow as int),
{
    assert(narrow * 1_000_000_000 <= wide * 1_000_000_000) by (nonlinear_arith)
        requires
            narrow <= wide,
    ;
}

/// A price exactly on the peg is inside every band.
pub proof fn peg_price_is_on_peg(threshold_bps: u16)
    ensures
        !off_peg(PEG_PRICE as int, threshold_bps as int),
{
}

} // verus!
