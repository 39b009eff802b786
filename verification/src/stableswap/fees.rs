//! Swap fees that grow as the pool drifts away from its oracle value.

use vstd::prelude::*;

use crate::stableswap::curve::{distance, fits, gap, outcome};
use crate::stableswap::errors::StableSwapError;

verus! {

/// One hundred percent, in basis points.
pub const BASIS_POINTS_DIVISOR: u128 = 10_000;

/// The smaller of two integers.
pub open spec fn lesser(a: int, b: int) -> int {
    if a <= b {
        a
    } else {
        b
    }
}

/// The larger of two integers.
pub open spec fn greater(a: int, b: int) -> int {
    if a <= b {
        b
    } else {
        a
    }
}

/// How unequal two values are, in basis points of their sum.
pub open spec fn imbalance_bps(value_a: int, value_b: int) -> int {
    if value_a + value_b == 0 {
        0
    } else {
        gap(value_a, value_b) * BASIS_POINTS_DIVISOR / (value_a + value_b)
    }
}

/// How far the ratio of two prices is from one, in basis points.
pub open spec fn price_deviation_bps(price_in: int, price_out: int) -> int {
    gap(price_in * BASIS_POINTS_DIVISOR / price_out, BASIS_POINTS_DIVISOR as int)
}

/// The stress of a pool: its value imbalance or its price deviation, whichever is larger.
pub open spec fn stress_bps(
    reserve_in: int,
    reserve_out: int,
    price_in: int,
    price_out: int,
) -> int {
    greater(
        imbalance_bps(reserve_in * price_in, reserve_out * price_out),
        price_deviation_bps(price_in, price_out),
    )
}

/// The fee that rises linearly from `base` at no stress to `max` at `threshold`.
pub open spec fn fee_ramp(base: int, max: int, stress: int, threshold: int) -> int {
    base + (max - base) * lesser(stress, threshold) / threshold
}

/// Whether the stress of a pool can be computed on machine words.
pub open spec fn stress_fits(
    reserve_in: int,
    reserve_out: int,
    price_in: int,
    price_out: int,
) -> bool {
    let value_in = reserve_in * price_in;
    let value_out = reserve_out * price_out;
    &&& fits(value_in)
    &&& fits(value_out)
    &&& fits(value_in + value_out)
    &&& fits(gap(value_in, value_out) * BASIS_POINTS_DIVISOR)
    &&& fits(price_in * BASIS_POINTS_DIVISOR)
    &&& price_out > 0
}

/// The fee charged on a trade that leaves the given reserves, or why there is none.
pub open spec fn dynamic_fee(
    base: int,
    max: int,
    reserve_in: int,
    reserve_out: int,
    price_in: int,
    price_out: int,
    threshold: int,
) -> Result<int, StableSwapError> {
    if base > max {
        Err(StableSwapError::InvalidFeeConfig)
    } else if threshold == 0 {
        Err(StableSwapError::InvalidDepegThreshold)
    } else if !stress_fits(reserve_in, reserve_out, price_in, price_out) {
        Err(StableSwapError::MathOverflow)
    } else {
        Ok(
            fee_ramp(
                base,
                max,
                stress_bps(reserve_in, reserve_out, price_in, price_out),
                threshold,
            ),
        )
    }
}

/// An executable fee as a mathematical one.
pub open spec fn fee_outcome(r: Result<u16, StableSwapError>) -> Result<int, StableSwapError> {
    match r {
        Ok(v) => Ok(v as int),
        Err(e) => Err(e),
    }
}

/// The imbalance of two values, or why it cannot be computed.
pub open spec fn value_imbalance(value_a: int, value_b: int) -> Result<int, StableSwapError> {
    if !fits(value_a + value_b) || !fits(gap(value_a, value_b) * BASIS_POINTS_DIVISOR) {
        Err(StableSwapError::MathOverflow)
    } else {
        Ok(imbalance_bps(value_a, value_b))
    }
}

/// Compute the imbalance of two oracle-valued sides in basis points.
pub fn calculate_value_imbalance_bps(value_a: u128, value_b: u128) -> (r: Result<
    u128,
    StableSwapError,
>)
    ensures
        outcome(r) == value_imbalance(value_a as int, value_b as int),
{
    let total_value = value_a.checked_add(value_b).ok_or(StableSwapError::MathOverflow)?;
    if total_value == 0 {
        return Ok(0);
    }
    let scaled = distance(value_a, value_b).checked_mul(BASIS_POINTS_DIVISOR).ok_or(
        StableSwapError::MathOverflow,
    )?;
    Ok(scaled / total_value)
}

/// The ramp stays between the base and the maximum fee.
pub proof fn lemma_fee_ramp_bounds(base: int, max: int, stress: int, threshold: int)
    requires
        base <= max,
        stress >= 0,
        threshold > 0,
    ensures
        base <= fee_ramp(base, max, stress, threshold) <= max,
        0 <= (max - base) * lesser(stress, threshold) / threshold <= max - base,
{
    let range = max - base;
    let capped = lesser(stress, threshold);
    let product = range * capped;
    assert(0 <= product <= threshold * range) by (nonlinear_arith)
        requires
            product == range * capped,
            0 <= capped <= threshold,
            range >= 0,
    ;
    vstd::arithmetic::div_mod::lemma_div_pos_is_pos(product, threshold);
    vstd::arithmetic::div_mod::lemma_div_is_ordered(product, threshold * range, threshold);
    vstd::arithmetic::div_mod::lemma_div_multiples_vanish(range, threshold);
}

/// The stress of a pool is not negative.
proof fn lemma_stress_nonnegative(
    reserve_in: int,
    reserve_out: int,
    price_in: int,
    price_out: int,
)
    ensures
        stress_bps(reserve_in, reserve_out, price_in, price_out) >= 0,
{
    assert(price_deviation_bps(price_in, price_out) >= 0);
}

/// Increase fees as the pool becomes more imbalanced relative to the oracle.
///
/// The fee ramps linearly from `base_fee_bps` to `max_dynamic_fee_bps` as either the
/// oracle-weighted reserve imbalance or the oracle cross-price deviation approaches
/// the configured depeg threshold.
pub fn calculate_dynamic_fee_bps(
    base_fee_bps: u16,
    max_dynamic_fee_bps: u16,
    new_reserve_in: u128,
    new_reserve_out: u128,
    oracle_price_in: u128,
    oracle_price_out: u128,
    depeg_threshold_bps: u16,
) -> (r: Result<u16, StableSwapError>)
    ensures
        fee_outcome(r) == dynamic_fee(
            base_fee_bps as int,
            max_dynamic_fee_bps as int,
            new_reserve_in as int,
            new_reserve_out as int,
            oracle_price_in as int,
            oracle_price_out as int,
            depeg_threshold_bps as int,
        ),
{
    if !(base_fee_bps <= max_dynamic_fee_bps) {
        return Err(StableSwapError::InvalidFeeConfig);
    }
    if !(depeg_threshold_bps > 0) {
        return Err(StableSwapError::InvalidDepegThreshold);
    }
    let post_value_in = new_reserve_in.checked_mul(oracle_price_in).ok_or(
        StableSwapError::MathOverflow,
    )?;
    let post_value_out = new_reserve_out.checked_mul(oracle_price_out).ok_or(
        StableSwapError::MathOverflow,
    )?;
    let imbalance = calculate_value_imbalance_bps(post_value_in, post_value_out)?;
    let oracle_ratio_bps = oracle_price_in.checked_mul(BASIS_POINTS_DIVISOR).ok_or(
        StableSwapError::MathOverflow,
    )?.checked_div(oracle_price_out).ok_or(StableSwapError::MathOverflow)?;
    let oracle_deviation_bps = distance(oracle_ratio_bps, BASIS_POINTS_DIVISOR);
    let stress = if imbalance <= oracle_deviation_bps {
        oracle_deviation_bps
    } else {
        imbalance
    };
    let threshold = depeg_threshold_bps as u128;
    let stress_cap = if stress <= threshold {
        stress
    } else {
        threshold
    };
    let dynamic_range = (max_dynamic_fee_bps - base_fee_bps) as u128;
    assert(dynamic_range * stress_cap <= 65_535 * 65_535) by (nonlinear_arith)
        requires
            dynamic_range <= 65_535,
            stress_cap <= 65_535,
    ;
    proof {
        lemma_fee_ramp_bounds(
            base_fee_bps as int,
            max_dynamic_fee_bps as int,
            stress as int,
            depeg_threshold_bps as int,
        );
    }
    let rise = dynamic_range * stress_cap / threshold;
    let effective_fee = base_fee_bps as u128 + rise;
    Ok(effective_fee as u16)
}

/// A quoted fee lies between the base fee and the maximum fee.
pub proof fn fee_stays_within_its_schedule(
    base: u16,
    max: u16,
    reserve_in: u128,
    reserve_out: u128,
    price_in: u128,
    price_out: u128,
    threshold: u16,
)
    ensures
        dynamic_fee(
            base as int,
            max as int,
            reserve_in as int,
            reserve_out as int,
            price_in as int,
            price_out as int,
            threshold as int,
        ) matches Ok(fee) ==> base <= fee <= max,
{
    if base <= max && threshold > 0 {
        lemma_stress_nonnegative(
            reserve_in as int,
            reserve_out as int,
            price_in as int,
            price_out as int,
        );
        lemma_fee_ramp_bounds(
            base as int,
            max as int,
            stress_bps(reserve_in as int, reserve_out as int, price_in as int, price_out as int),
            threshold as int,
        );
    }
}

/// The ramp starts at the base fee, reaches the maximum fee at the threshold and stays
/// there.
pub proof fn fee_ramp_meets_both_ends(base: u16, max: u16, stress: nat, threshold: u16)
    requires
        base <= max,
        threshold > 0,
    ensures
        fee_ramp(base as int, max as int, 0, threshold as int) == base,
        stress >= threshold ==> fee_ramp(
            base as int,
            max as int,
            stress as int,
            threshold as int,
        ) == max,
{
    let range = max - base;
    assert(range * 0 == 0) by (nonlinear_arith);
    vstd::arithmetic::div_mod::lemma_div_by_multiple(range, threshold as int);
}

/// More stress never lowers the fee.
pub proof fn fee_ramp_is_monotone(
    base: u16,
    max: u16,
    calmer: nat,
    stressed: nat,
    threshold: u16,
)
    requires
        base <= max,
        threshold > 0,
        calmer <= stressed,
    ensures
        fee_ramp(base as int, max as int, calmer as int, threshold as int) <= fee_ramp(
            base as int,
            max as int,
            stressed as int,
            threshold as int,
        ),
{
    let range = max - base;
    let low = lesser(calmer as int, threshold as int);
    let high = lesser(stressed as int, threshold as int);
    assert(range * low <= range * high) by (nonlinear_arith)
        requires
            range >= 0,
            low <= high,
    ;
    vstd::arithmetic::div_mod::lemma_div_is_ordered(range * low, range * high, threshold as int);
}

/// A pool whose two sides have equal value at equal prices pays the base fee.
pub proof fn balanced_pool_pays_the_base_fee(
    base: u16,
    max: u16,
    reserve: u128,
    price: u128,
    threshold: u16,
)
    requires
        base <= max,
        threshold > 0,
        stress_fits(reserve as int, reserve as int, price as int, price as int),
    ensures
        dynamic_fee(
            base as int,
            max as int,
            reserve as int,
            reserve as int,
            price as int,
            price as int,
            threshold as int,
        ) == Ok::<int, StableSwapError>(base as int),
{
    let value = reserve * price;
    assert(gap(value, value) * BASIS_POINTS_DIVISOR == 0) by (nonlinear_arith)
        requires
            gap(value, value) == 0,
    ;
    assert(value >= 0) by (nonlinear_arith)
        requires
            value == reserve * price,
    ;
    if value > 0 {
        vstd::arithmetic::div_mod::lemma_basic_div(0, value + value);
    }
    vstd::arithmetic::div_mod::lemma_div_by_multiple(BASIS_POINTS_DIVISOR as int, price as int);
    assert(price * BASIS_POINTS_DIVISOR == BASIS_POINTS_DIVISOR * price) by (nonlinear_arith);
    assert(stress_bps(reserve as int, reserve as int, price as int, price as int) == 0);
    fee_ramp_meets_both_ends(base, max, 0, threshold);
}

} // verus!
