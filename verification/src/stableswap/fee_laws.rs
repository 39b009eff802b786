//! What a swap fee is, said of the reserves, the prices and the fee alone.

use vstd::prelude::*;

use crate::stableswap::curve::outcome;
use crate::stableswap::curve_laws::{lemma_floor, lemma_quotient};
use crate::stableswap::errors::StableSwapError;
use crate::stableswap::fees::{
    dynamic_fee, fee_outcome, fee_stays_within_its_schedule, value_imbalance,
};

verus! {

/// The imbalance of two values is their difference in parts of ten thousand of their sum,
/// rounded down, and nothing if both are nothing. It is refused exactly where the sum or
/// ten thousand times the difference is too large.
pub proof fn imbalance_is_the_share_of_the_difference(
    a: u128,
    b: u128,
    r: Result<u128, StableSwapError>,
)
    requires
        outcome(r) == value_imbalance(a as int, b as int),
    ensures
        ({
            let sum = a + b;
            let difference = if a <= b {
                b - a
            } else {
                a - b
            };
            match r {
                Ok(v) => {
                    &&& sum <= u128::MAX
                    &&& difference * 10_000 <= u128::MAX
                    &&& sum == 0 ==> v == 0
                    &&& sum > 0 ==> v * sum <= difference * 10_000 < (v + 1) * sum
                    &&& v <= 10_000
                },
                Err(e) => {
                    &&& e == StableSwapError::MathOverflow
                    &&& sum > u128::MAX || difference * 10_000 > u128::MAX
                },
            }
        }),
{
    let sum = a + b;
    let difference = if a <= b {
        b - a
    } else {
        a - b
    };
    if sum > 0 {
        lemma_floor(difference * 10_000, sum);
        let v = difference * 10_000 / sum;
        assert(v * sum == sum * v && (v + 1) * sum == sum * v + sum) by (nonlinear_arith);
        assert(v <= 10_000) by (nonlinear_arith)
            requires
                sum * v <= difference * 10_000,
                difference <= sum,
                sum > 0,
        ;
    }
}

/// Exchanging the two sides leaves the imbalance as it is.
pub proof fn imbalance_is_symmetric(a: u128, b: u128)
    ensures
        value_imbalance(a as int, b as int) == value_imbalance(b as int, a as int),
{
}

/// The fee of a trade rises linearly with the stress of the pool, from the base fee at no
/// stress to the maximum fee at the threshold, rounded down. The stress is the larger of the
/// imbalance of the two sides at their prices and the distance of the cross price from one,
/// above or below. Nothing but an inconsistent schedule, a threshold of zero, a price of
/// zero or a product too large is refused, each as such.
pub proof fn fee_follows_the_larger_stress(
    base: u16,
    max: u16,
    reserve_in: u128,
    reserve_out: u128,
    price_in: u128,
    price_out: u128,
    threshold: u16,
    imbalance: int,
    ratio: int,
    r: Result<u16, StableSwapError>,
)
    requires
        fee_outcome(r) == dynamic_fee(
            base as int,
            max as int,
            reserve_in as int,
            reserve_out as int,
            price_in as int,
            price_out as int,
            threshold as int,
        ),
    ensures
        ({
            let a = reserve_in * price_in;
            let b = reserve_out * price_out;
            let difference = if a <= b {
                b - a
            } else {
                a - b
            };
            let computable = {
                &&& a + b <= u128::MAX
                &&& difference * 10_000 <= u128::MAX
                &&& price_in * 10_000 <= u128::MAX
                &&& price_out > 0
            };
            match r {
                Ok(fee) => {
                    &&& base <= fee <= max
                    &&& threshold > 0
                    &&& computable
                    &&& ({
                        &&& a + b == 0 ==> imbalance == 0
                        &&& a + b > 0 ==> imbalance * (a + b) <= difference * 10_000 < (imbalance
                            + 1) * (a + b)
                        &&& ratio * price_out <= price_in * 10_000 < (ratio + 1) * price_out
                    }) ==> {
                        let deviation = if ratio <= 10_000 {
                            10_000 - ratio
                        } else {
                            ratio - 10_000
                        };
                        let stress = if imbalance <= deviation {
                            deviation
                        } else {
                            imbalance
                        };
                        let counted = if stress <= threshold {
                            stress
                        } else {
                            threshold as int
                        };
                        (fee - base) * threshold <= (max - base) * counted < (fee - base + 1)
                            * threshold
                    }
                },
                Err(StableSwapError::InvalidFeeConfig) => base > max,
                Err(StableSwapError::InvalidDepegThreshold) => base <= max && threshold == 0,
                Err(StableSwapError::MathOverflow) => {
                    &&& base <= max
                    &&& threshold > 0
                    &&& !computable
                },
                Err(_) => false,
            }
        }),
{
    let a = reserve_in * price_in;
    let b = reserve_out * price_out;
    let difference = if a <= b {
        b - a
    } else {
        a - b
    };
    assert(a >= 0 && b >= 0) by (nonlinear_arith)
        requires
            a == reserve_in * price_in,
            b == reserve_out * price_out,
    ;
    fee_stays_within_its_schedule(
        base,
        max,
        reserve_in,
        reserve_out,
        price_in,
        price_out,
        threshold,
    );
    if r is Ok {
        let fee = r->Ok_0;
        if a + b > 0 && imbalance * (a + b) <= difference * 10_000 < (imbalance + 1) * (a + b) {
            lemma_quotient(difference * 10_000, a + b, imbalance);
        }
        if ratio * price_out <= price_in * 10_000 < (ratio + 1) * price_out {
            lemma_quotient(price_in * 10_000, price_out as int, ratio);
        }
        let deviation = if ratio <= 10_000 {
            10_000 - ratio
        } else {
            ratio - 10_000
        };
        let stress = if imbalance <= deviation {
            deviation
        } else {
            imbalance
        };
        let counted = if stress <= threshold {
            stress
        } else {
            threshold as int
        };
        let product = (max - base) * counted;
        let rise = product / threshold as int;
        lemma_floor(product, threshold as int);
        assert(rise * threshold == threshold * rise && (rise + 1) * threshold == threshold * rise
            + threshold) by (nonlinear_arith);
    }
}

/// A cross price at or beyond the threshold, above one or below, pays the maximum fee
/// whatever the reserves are.
pub proof fn depegged_cross_price_pays_the_maximum(
    base: u16,
    max: u16,
    reserve_in: u128,
    reserve_out: u128,
    price_in: u128,
    price_out: u128,
    threshold: u16,
    r: Result<u16, StableSwapError>,
)
    requires
        fee_outcome(r) == dynamic_fee(
            base as int,
            max as int,
            reserve_in as int,
            reserve_out as int,
            price_in as int,
            price_out as int,
            threshold as int,
        ),
        price_in * 10_000 < (10_001 - threshold) * price_out || price_in * 10_000 >= (10_000
            + threshold) * price_out,
    ensures
        r matches Ok(fee) ==> fee == max,
{
    if r is Ok {
        let fee = r->Ok_0;
        let ratio = price_in * 10_000 / price_out as int;
        let a = reserve_in * price_in;
        let b = reserve_out * price_out;
        let difference = if a <= b {
            b - a
        } else {
            a - b
        };
        assert(a >= 0 && b >= 0) by (nonlinear_arith)
            requires
                a == reserve_in * price_in,
                b == reserve_out * price_out,
        ;
        let imbalance = if a + b == 0 {
            0
        } else {
            difference * 10_000 / (a + b)
        };
        lemma_floor(price_in * 10_000, price_out as int);
        assert(ratio * price_out == price_out * ratio && (ratio + 1) * price_out == price_out
            * ratio + price_out) by (nonlinear_arith);
        if a + b > 0 {
            lemma_floor(difference * 10_000, a + b);
            let sum = a + b;
            assert(imbalance * sum == sum * imbalance && (imbalance + 1) * sum == sum * imbalance
                + sum) by (nonlinear_arith);
        }
        fee_follows_the_larger_stress(
            base,
            max,
            reserve_in,
            reserve_out,
            price_in,
            price_out,
            threshold,
            imbalance,
            ratio,
            r,
        );
        let out = price_out as int;
        let th = threshold as int;
        assert(ratio <= 10_000 - th || ratio >= 10_000 + th) by (nonlinear_arith)
            requires
                price_in * 10_000 < (10_001 - th) * out || price_in * 10_000 >= (10_000 + th) * out,
                ratio * out <= price_in * 10_000 < (ratio + 1) * out,
                out > 0,
        ;
        let range = max - base;
        let rise = fee - base;
        assert(rise == range) by (nonlinear_arith)
            requires
                rise * th <= range * th < (rise + 1) * th,
                th > 0,
        ;
    }
}

} // verus!
