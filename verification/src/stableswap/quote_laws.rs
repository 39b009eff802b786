//! What a quote says, in terms of the reserves, the invariant and the fee rate.

use vstd::prelude::*;

use crate::stableswap::curve::{invariant_d, reserve_y};
use crate::stableswap::curve_errors::{d_errors_are_named, y_errors_are_named};
use crate::stableswap::curve_laws::{d_lies_between_the_means, lemma_floor};
use crate::stableswap::errors::StableSwapError;
use crate::stableswap::fees::{dynamic_fee, fee_stays_within_its_schedule};
use crate::stableswap::quote::{quote_agrees, SwapQuote, Trade};
use crate::stableswap::trade_laws::y_solves_the_quadratic;

verus! {

/// A quote pays out what leaves the output reserve when the input is paid in and the
/// invariant is kept, less the fee. The fee is the quoted rate of that amount, rounded down,
/// and the rate is the one for the reserves that the trade leaves behind.
pub proof fn quote_keeps_the_quoted_rate(trade: Trade, r: Result<SwapQuote, StableSwapError>)
    requires
        quote_agrees(r, trade.price()),
    ensures
        r matches Ok(quote) ==> {
            &&& trade.amount_in > 0
            &&& invariant_d(
                trade.reserve_in as int,
                trade.reserve_out as int,
                trade.amp as int,
            ) matches Ok(d)
            &&& reserve_y(
                trade.reserve_in + trade.amount_in,
                d,
                trade.amp as int,
            ) matches Ok(left)
            &&& dynamic_fee(
                trade.base_fee_bps as int,
                trade.max_dynamic_fee_bps as int,
                trade.reserve_in + trade.amount_in,
                left,
                trade.oracle_price_in as int,
                trade.oracle_price_out as int,
                trade.depeg_threshold_bps as int,
            ) == Ok::<int, StableSwapError>(quote.dynamic_fee_bps as int)
            &&& ({
                let gross = trade.reserve_out - left;
                &&& gross >= 0
                &&& quote.amount_out + quote.fee_amount == gross
                &&& quote.fee_amount * 10_000 <= gross * quote.dynamic_fee_bps
                &&& gross * quote.dynamic_fee_bps < (quote.fee_amount + 1) * 10_000
                &&& gross * quote.dynamic_fee_bps <= u128::MAX
            })
        },
{
    if r is Ok {
        let quote = r->Ok_0;
        let price = trade.price()->Ok_0;
        lemma_floor(price.gross * price.fee_bps, 10_000);
    }
}

/// A trade is refused only for a cause: nothing is paid in, the invariant or the reserve
/// that keeps it cannot be computed, that reserve exceeds the present one, the fee cannot be
/// computed, or the fee exceeds the output or the machine word.
pub proof fn trade_is_refused_only_for_a_cause(
    trade: Trade,
    r: Result<SwapQuote, StableSwapError>,
    d: int,
    left: int,
    rate: int,
)
    requires
        quote_agrees(r, trade.price()),
    ensures
        r == Err::<SwapQuote, StableSwapError>(StableSwapError::ZeroAmount) <==> trade.amount_in
            == 0,
        ({
            let before = invariant_d(
                trade.reserve_in as int,
                trade.reserve_out as int,
                trade.amp as int,
            );
            let after = reserve_y(trade.reserve_in + trade.amount_in, d, trade.amp as int);
            let fee = dynamic_fee(
                trade.base_fee_bps as int,
                trade.max_dynamic_fee_bps as int,
                trade.reserve_in + trade.amount_in,
                left,
                trade.oracle_price_in as int,
                trade.oracle_price_out as int,
                trade.depeg_threshold_bps as int,
            );
            let gross = trade.reserve_out - left;
            let overflow = Err::<SwapQuote, StableSwapError>(StableSwapError::MathOverflow);
            trade.amount_in > 0 ==> {
                &&& before matches Err(e) ==> r == Err::<SwapQuote, StableSwapError>(e)
                &&& before == Ok::<int, StableSwapError>(d) ==> {
                    &&& trade.reserve_in + trade.amount_in > u128::MAX ==> r == overflow
                    &&& trade.reserve_in + trade.amount_in <= u128::MAX ==> {
                        &&& after matches Err(e) ==> r == Err::<SwapQuote, StableSwapError>(e)
                        &&& after == Ok::<int, StableSwapError>(left) ==> {
                            &&& left > trade.reserve_out ==> r == overflow
                            &&& left <= trade.reserve_out ==> {
                                &&& fee matches Err(e) ==> r == Err::<SwapQuote, StableSwapError>(e)
                                &&& fee == Ok::<int, StableSwapError>(rate) ==> (r is Ok <==> gross
                                    * rate <= u128::MAX && gross * rate < (gross + 1) * 10_000)
                                &&& fee == Ok::<int, StableSwapError>(rate) && r is Err ==> r
                                    == overflow
                            }
                        }
                    }
                }
            }
        }),
{
    // The causes below `ZeroAmount` never carry its name.
    lemma_causes_differ(trade);
    let gross = trade.reserve_out - left;
    if gross >= 0 && rate >= 0 {
        let product = gross * rate;
        let fee = product / 10_000;
        lemma_floor(product, 10_000);
        assert(fee <= gross <==> product < (gross + 1) * 10_000);
    }
    if dynamic_fee(
        trade.base_fee_bps as int,
        trade.max_dynamic_fee_bps as int,
        trade.reserve_in + trade.amount_in,
        left,
        trade.oracle_price_in as int,
        trade.oracle_price_out as int,
        trade.depeg_threshold_bps as int,
    ) == Ok::<int, StableSwapError>(rate) && invariant_d(
        trade.reserve_in as int,
        trade.reserve_out as int,
        trade.amp as int,
    ) == Ok::<int, StableSwapError>(d) && reserve_y(
        trade.reserve_in + trade.amount_in,
        d,
        trade.amp as int,
    ) == Ok::<int, StableSwapError>(left) && trade.reserve_in + trade.amount_in <= u128::MAX
        && left <= trade.reserve_out {
        d_lies_between_the_means(trade.reserve_in, trade.reserve_out, trade.amp);
        y_solves_the_quadratic(
            (trade.reserve_in + trade.amount_in) as u128,
            d as u128,
            trade.amp,
        );
        fee_stays_within_its_schedule(
            trade.base_fee_bps,
            trade.max_dynamic_fee_bps,
            (trade.reserve_in + trade.amount_in) as u128,
            left as u128,
            trade.oracle_price_in,
            trade.oracle_price_out,
            trade.depeg_threshold_bps,
        );
    }
}

/// Neither search ends in `ZeroAmount`.
proof fn lemma_causes_differ(trade: Trade)
    ensures
        invariant_d(
            trade.reserve_in as int,
            trade.reserve_out as int,
            trade.amp as int,
        ) matches Err(e) ==> e != StableSwapError::ZeroAmount,
        invariant_d(
            trade.reserve_in as int,
            trade.reserve_out as int,
            trade.amp as int,
        ) matches Ok(d) ==> reserve_y(
            trade.reserve_in + trade.amount_in,
            d,
            trade.amp as int,
        ) matches Err(e) ==> e != StableSwapError::ZeroAmount,
{
    d_errors_are_named(
        trade.reserve_in as int,
        trade.reserve_out as int,
        trade.amp as int,
    );
    let found = invariant_d(
        trade.reserve_in as int,
        trade.reserve_out as int,
        trade.amp as int,
    );
    if found is Ok {
        y_errors_are_named(
            trade.reserve_in + trade.amount_in,
            found->Ok_0,
            trade.amp as int,
        );
    }
}

} // verus!
