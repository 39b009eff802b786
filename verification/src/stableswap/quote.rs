//! Pricing of a trade against the pool.

use vstd::prelude::*;

use crate::stableswap::curve::{compute_d, compute_y, fits, invariant_d, reserve_y};
use crate::stableswap::curve_laws::{curve_residual, d_lies_between_the_means};
use crate::stableswap::errors::StableSwapError;
use crate::stableswap::fees::{
    calculate_dynamic_fee_bps, dynamic_fee, fee_stays_within_its_schedule, BASIS_POINTS_DIVISOR,
};
use crate::stableswap::trade_laws::{y_keeps_the_invariant, y_solves_the_quadratic};

verus! {

/// Fully priced swap result.
#[derive(Debug, Clone, Copy, PartialEq, Eq, Structural)]
pub struct SwapQuote {
    /// Net output that the user receives after fees.
    pub amount_out: u128,
    /// Fee retained by the pool, denominated in the output token.
    pub fee_amount: u128,
    /// Adaptive fee applied to the trade in basis points.
    pub dynamic_fee_bps: u16,
}

/// A trade and the pool it meets.
#[derive(Debug, Clone, Copy)]
pub struct Trade {
    /// Current reserve of the input token.
    pub reserve_in: u128,
    /// Current reserve of the output token.
    pub reserve_out: u128,
    /// Token amount being sold into the pool.
    pub amount_in: u128,
    /// Amplification coefficient.
    pub amp: u128,
    /// Minimum fee charged on a healthy, balanced pool.
    pub base_fee_bps: u16,
    /// Maximum fee charged under pool stress.
    pub max_dynamic_fee_bps: u16,
    /// Normalized oracle price of the input asset.
    pub oracle_price_in: u128,
    /// Normalized oracle price of the output asset.
    pub oracle_price_out: u128,
    /// Peg band used to cap fee escalation.
    pub depeg_threshold_bps: u16,
}

/// The price of a trade.
pub struct Price {
    /// What leaves the output reserve along the curve, before the fee.
    pub gross: int,
    /// The fee rate in basis points.
    pub fee_bps: int,
}

impl Price {
    /// The part of the gross output that the pool keeps.
    pub open spec fn fee(self) -> int {
        self.gross * self.fee_bps / BASIS_POINTS_DIVISOR as int
    }

    /// The part of the gross output that the user receives.
    pub open spec fn net(self) -> int {
        self.gross - self.fee()
    }
}

impl Trade {
    /// The input reserve once the trader has paid in.
    pub open spec fn paid_in(self) -> int {
        self.reserve_in + self.amount_in
    }

    /// The output reserve that keeps the invariant once the trader has paid in.
    pub open spec fn reserve_left(self) -> Result<int, StableSwapError> {
        match invariant_d(self.reserve_in as int, self.reserve_out as int, self.amp as int) {
            Err(e) => Err(e),
            Ok(d) => if !fits(self.paid_in()) {
                Err(StableSwapError::MathOverflow)
            } else {
                reserve_y(self.paid_in(), d, self.amp as int)
            },
        }
    }

    /// The price of the trade, or why it has none.
    pub open spec fn price(self) -> Result<Price, StableSwapError> {
        if self.amount_in == 0 {
            Err(StableSwapError::ZeroAmount)
        } else {
            match self.reserve_left() {
                Err(e) => Err(e),
                Ok(left) => if left > self.reserve_out {
                    Err(StableSwapError::MathOverflow)
                } else {
                    self.price_leaving(left)
                },
            }
        }
    }

    /// The price of the trade if it leaves `left` in the output reserve.
    pub open spec fn price_leaving(self, left: int) -> Result<Price, StableSwapError> {
        match dynamic_fee(
            self.base_fee_bps as int,
            self.max_dynamic_fee_bps as int,
            self.paid_in(),
            left,
            self.oracle_price_in as int,
            self.oracle_price_out as int,
            self.depeg_threshold_bps as int,
        ) {
            Err(e) => Err(e),
            Ok(fee_bps) => {
                let price = Price { gross: self.reserve_out - left, fee_bps };
                if !fits(price.gross * fee_bps) || price.net() < 0 {
                    Err(StableSwapError::MathOverflow)
                } else {
                    Ok(price)
                }
            },
        }
    }
}

/// Whether an executable quote states a mathematical price.
pub open spec fn quote_agrees(
    r: Result<SwapQuote, StableSwapError>,
    p: Result<Price, StableSwapError>,
) -> bool {
    match (r, p) {
        (Ok(quote), Ok(price)) => {
            &&& quote.amount_out == price.net()
            &&& quote.fee_amount == price.fee()
            &&& quote.dynamic_fee_bps == price.fee_bps
        },
        (Err(e), Err(f)) => e == f,
        _ => false,
    }
}

/// Calculate the quoted output and adaptive fee for a StableSwap trade.
///
/// The invariant of the present reserves is kept while the input reserve grows by
/// `amount_in`; what leaves the output reserve, less the adaptive fee, is the output.
pub fn calculate_swap_output(
    reserve_in: u128,
    reserve_out: u128,
    amount_in: u128,
    amp: u128,
    base_fee_bps: u16,
    max_dynamic_fee_bps: u16,
    oracle_price_in: u128,
    oracle_price_out: u128,
    depeg_threshold_bps: u16,
) -> (r: Result<SwapQuote, StableSwapError>)
    ensures
        quote_agrees(
            r,
            (Trade {
                reserve_in,
                reserve_out,
                amount_in,
                amp,
                base_fee_bps,
                max_dynamic_fee_bps,
                oracle_price_in,
                oracle_price_out,
                depeg_threshold_bps,
            }).price(),
        ),
{
    if !(amount_in > 0) {
        return Err(StableSwapError::ZeroAmount);
    }
    let d = compute_d(reserve_in, reserve_out, amp)?;
    let new_reserve_in = reserve_in.checked_add(amount_in).ok_or(StableSwapError::MathOverflow)?;
    let new_reserve_out = compute_y(new_reserve_in, d, amp)?;
    let amount_out_before_fee = reserve_out.checked_sub(new_reserve_out).ok_or(
        StableSwapError::MathOverflow,
    )?;
    let dynamic_fee_bps = calculate_dynamic_fee_bps(
        base_fee_bps,
        max_dynamic_fee_bps,
        new_reserve_in,
        new_reserve_out,
        oracle_price_in,
        oracle_price_out,
        depeg_threshold_bps,
    )?;
    let fee_amount = amount_out_before_fee.checked_mul(dynamic_fee_bps as u128).ok_or(
        StableSwapError::MathOverflow,
    )? / BASIS_POINTS_DIVISOR;
    let amount_out = amount_out_before_fee.checked_sub(fee_amount).ok_or(
        StableSwapError::MathOverflow,
    )?;
    Ok(SwapQuote { amount_out, fee_amount, dynamic_fee_bps })
}

/// The invariant of a priceable trade is a machine word.
proof fn lemma_invariant_fits(trade: Trade)
    ensures
        invariant_d(
            trade.reserve_in as int,
            trade.reserve_out as int,
            trade.amp as int,
        ) matches Ok(d) ==> 0 <= d <= u128::MAX,
{
    d_lies_between_the_means(trade.reserve_in, trade.reserve_out, trade.amp);
}

/// The fee is not negative, and no more than the gross output if the rate is at most
/// one hundred percent.
proof fn lemma_fee_bounds(gross: int, fee_bps: int)
    requires
        gross >= 0,
        fee_bps >= 0,
    ensures
        0 <= gross * fee_bps / BASIS_POINTS_DIVISOR as int,
        fee_bps <= BASIS_POINTS_DIVISOR ==> gross * fee_bps / BASIS_POINTS_DIVISOR as int <= gross,
{
    assert(0 <= gross * fee_bps) by (nonlinear_arith)
        requires
            gross >= 0,
            fee_bps >= 0,
    ;
    if fee_bps <= BASIS_POINTS_DIVISOR {
        assert(gross * fee_bps <= gross * 10_000) by (nonlinear_arith)
            requires
                gross >= 0,
                fee_bps <= 10_000,
        ;
    }
}

/// What the user receives and what the pool keeps as fee make up exactly what leaves the
/// output reserve along the curve, and no trade pays out more than that reserve holds.
pub proof fn quote_splits_the_gross_output(trade: Trade)
    ensures
        trade.price() matches Ok(price) ==> {
            &&& trade.reserve_left() == Ok::<int, StableSwapError>(trade.reserve_out - price.gross)
            &&& price.net() + price.fee() == price.gross
            &&& 0 <= price.net() <= price.gross <= trade.reserve_out
            &&& trade.base_fee_bps <= price.fee_bps <= trade.max_dynamic_fee_bps
        },
{
    if trade.price() is Ok {
        let price = trade.price()->Ok_0;
        let left = trade.reserve_left()->Ok_0;
        let d = invariant_d(
            trade.reserve_in as int,
            trade.reserve_out as int,
            trade.amp as int,
        )->Ok_0;
        lemma_invariant_fits(trade);
        y_solves_the_quadratic(trade.paid_in() as u128, d as u128, trade.amp);
        fee_stays_within_its_schedule(
            trade.base_fee_bps,
            trade.max_dynamic_fee_bps,
            trade.paid_in() as u128,
            left as u128,
            trade.oracle_price_in,
            trade.oracle_price_out,
            trade.depeg_threshold_bps,
        );
        lemma_fee_bounds(price.gross, price.fee_bps);
    }
}

/// A trade moves the reserves along the curve of the invariant they had before: the
/// input reserve paid in and the output reserve before the fee is kept back solve the
/// invariant equation for the same `D`, up to the roundings of one computation.
pub proof fn swap_keeps_the_invariant(trade: Trade)
    ensures
        trade.price() matches Ok(price) ==> {
            let left = trade.reserve_out - price.gross;
            &&& invariant_d(
                trade.reserve_in as int,
                trade.reserve_out as int,
                trade.amp as int,
            ) matches Ok(d)
            &&& curve_residual(trade.paid_in(), left + 1, trade.amp * 4, d) < 0
            &&& curve_residual(trade.paid_in(), left, trade.amp * 4, d) >= -(4 * (trade.amp * 4)
                * trade.paid_in() * (left + 1))
        },
{
    if trade.price() is Ok {
        let d = invariant_d(
            trade.reserve_in as int,
            trade.reserve_out as int,
            trade.amp as int,
        )->Ok_0;
        lemma_invariant_fits(trade);
        y_keeps_the_invariant(trade.paid_in() as u128, d as u128, trade.amp);
    }
}

/// With fees capped at one hundred percent, a trade that the curve and the fee schedule
/// can price is never refused for its fee, as long as the gross output times the rate
/// is representable.
pub proof fn capped_fee_never_refuses(trade: Trade, left: u128)
    requires
        trade.max_dynamic_fee_bps <= BASIS_POINTS_DIVISOR,
        trade.amount_in > 0,
        trade.reserve_left() == Ok::<int, StableSwapError>(left as int),
        left <= trade.reserve_out,
        dynamic_fee(
            trade.base_fee_bps as int,
            trade.max_dynamic_fee_bps as int,
            trade.paid_in(),
            left as int,
            trade.oracle_price_in as int,
            trade.oracle_price_out as int,
            trade.depeg_threshold_bps as int,
        ) is Ok,
        fits((trade.reserve_out - left) * trade.max_dynamic_fee_bps),
    ensures
        trade.price() is Ok,
{
    let fee_bps = dynamic_fee(
        trade.base_fee_bps as int,
        trade.max_dynamic_fee_bps as int,
        trade.paid_in(),
        left as int,
        trade.oracle_price_in as int,
        trade.oracle_price_out as int,
        trade.depeg_threshold_bps as int,
    )->Ok_0;
    let gross = trade.reserve_out - left;
    let max = trade.max_dynamic_fee_bps as int;
    fee_stays_within_its_schedule(
        trade.base_fee_bps,
        trade.max_dynamic_fee_bps,
        trade.paid_in() as u128,
        left,
        trade.oracle_price_in,
        trade.oracle_price_out,
        trade.depeg_threshold_bps,
    );
    lemma_fee_bounds(gross, fee_bps);
    assert(gross * fee_bps <= gross * max) by (nonlinear_arith)
        requires
            gross >= 0,
            fee_bps <= max,
    ;
}

} // verus!
