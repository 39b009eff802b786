use token_programs::stableswap::curve::{compute_d, compute_y};
use token_programs::stableswap::errors::StableSwapError;
use token_programs::stableswap::fees::{
    calculate_dynamic_fee_bps, calculate_value_imbalance_bps,
};
use token_programs::stableswap::liquidity::{
    calculate_lp_mint_amount, calculate_withdraw_amounts,
};
use token_programs::stableswap::quote::{calculate_swap_output, SwapQuote};

/// Balanced pool: D should stay very close to the sum of reserves.
#[test]
fn test_compute_d_balanced() {
    let reserve = 1_000_000_000u128; // 1000 USDC (6 decimals)
    let d = compute_d(reserve, reserve, 100).unwrap();
    // For balanced pool D ~ 2 * reserve
    assert!(d > 1_900_000_000u128);
    assert!(d < 2_100_000_000u128);
}

/// Swapping 1 USDC in a 1M/1M pool should return nearly 1 USDC out.
#[test]
fn test_swap_low_slippage() {
    let reserve = 1_000_000_000_000u128; // 1M USDC (6 decimals)
    let amount_in = 1_000_000u128; // 1 USDC
    let quote = calculate_swap_output(
        reserve,
        reserve,
        amount_in,
        100,
        4,
        100,
        1_000_000_000,
        1_000_000_000,
        500,
    )
    .unwrap();
    // With A=100 and tiny trade vs huge pool: almost 1:1
    assert!(quote.amount_out > 990_000u128);
    assert!(quote.amount_out <= amount_in);
    assert_eq!(quote.dynamic_fee_bps, 4);
}

/// A large swap should still have low slippage (stablecoin advantage).
#[test]
fn test_swap_large_amount_low_slippage() {
    let reserve = 1_000_000_000_000u128; // 1M USDC
    let amount_in = 100_000_000_000u128; // 100k USDC swap (10% of pool)
    let quote = calculate_swap_output(
        reserve,
        reserve,
        amount_in,
        100,
        4,
        100,
        1_000_000_000,
        1_000_000_000,
        500,
    )
    .unwrap();
    // StableSwap should give >99% output for 10% of pool swap
    let ratio = quote.amount_out * 100 / amount_in;
    assert!(ratio >= 98, "Expected >=98% output, got {}%", ratio);
    assert!(quote.dynamic_fee_bps > 4);
}

/// First-deposit LP minting reserves dead shares for inflation protection.
#[test]
fn test_lp_mint_first_deposit() {
    let amount = 1_000_000_000u128; // 1000 tokens each
    let lp = calculate_lp_mint_amount(0, 0, amount, amount, 0, 100, 1_000).unwrap();
    // LP ~ D - MINIMUM_LIQUIDITY ~ 2_000_000_000 - 1_000
    assert!(lp > 1_999_000_000u64);
}

/// Subsequent LP issuance tracks the proportional increase in invariant D.
#[test]
fn test_lp_mint_subsequent_deposit() {
    let reserve = 1_000_000_000u128;
    let lp_supply = 2_000_000_000u128;
    // Doubling reserves should double LP supply
    let lp = calculate_lp_mint_amount(
        reserve,
        reserve,
        reserve * 2,
        reserve * 2,
        lp_supply,
        100,
        1_000,
    )
    .unwrap();
    // LP minted should be approximately equal to current supply
    assert!(lp > 1_900_000_000u64);
    assert!(lp < 2_100_000_000u64);
}

/// LP burns must return a proportional share of both reserves.
#[test]
fn test_calculate_withdraw_amounts_proportional() {
    let withdraw_amounts =
        calculate_withdraw_amounts(&[1_000_000u128, 1_000_000u128], 100_000, 1_000_000).unwrap();

    assert_eq!(withdraw_amounts, vec![100_000u64, 100_000u64]);
}

/// Dust burns that would collapse into a one-sided exit are rejected.
#[test]
fn test_calculate_withdraw_amounts_rejects_single_sided_rounding() {
    let err = calculate_withdraw_amounts(&[1u128, 1_000_000u128], 1, 1_000_000).unwrap_err();

    assert!(err
        .message()
        .to_string()
        .contains("Single-sided withdrawals are not supported"));
}

#[test]
fn compute_d_exact_values() {
    assert_eq!(compute_d(1_000_000_000, 1_000_000_000, 100), Ok(2_000_000_000));
    assert_eq!(compute_d(1_000_000_000, 2_000_000_000, 100), Ok(2_999_068_031));
    assert_eq!(compute_d(3_000_000, 1_000_000, 1), Ok(3_804_132));
    assert_eq!(compute_d(1, 1_000_000, 100), Ok(112_414));
}

#[test]
fn compute_d_errors() {
    assert_eq!(compute_d(0, 5, 100), Err(StableSwapError::EmptyPool));
    assert_eq!(compute_d(5, 0, 100), Err(StableSwapError::EmptyPool));
    assert_eq!(compute_d(u128::MAX, 1, 100), Err(StableSwapError::MathOverflow));
    assert_eq!(compute_d(1 << 100, 1 << 100, 100), Err(StableSwapError::MathOverflow));
    assert_eq!(compute_d(5, 5, 0), Err(StableSwapError::MathOverflow));
    assert_eq!(compute_d(52_862, 1, 7), Err(StableSwapError::ConvergenceFailed));
}

#[test]
fn d_is_never_above_the_sum_nor_below_the_geometric_mean() {
    for (x, y) in [(1u128, 1u128), (7, 1_000), (1_000_000, 3), (123_456_789, 987_654_321)] {
        if let Ok(d) = compute_d(x, y, 85) {
            assert!(d <= x + y);
            assert!((d + 1) * (d + 1) > 4 * x * y);
        }
    }
}

#[test]
fn compute_y_exact_values() {
    assert_eq!(compute_y(1_010_000, 2_000_000, 100), Ok(990_000));
    assert_eq!(compute_y(2_000_000_000, 3_000_000_000, 100), Ok(1_000_929_663));
}

#[test]
fn compute_y_errors() {
    assert_eq!(compute_y(0, 5, 100), Err(StableSwapError::EmptyPool));
    assert_eq!(compute_y(5, 5, 0), Err(StableSwapError::MathOverflow));
    assert_eq!(compute_y(5, 1 << 100, 1), Err(StableSwapError::MathOverflow));
}

#[test]
fn searches_settle_over_a_wide_range() {
    for amp in [1u128, 2, 100, 1_000_000] {
        for y in [16u128, 999, 1_000_000, 1_000_000_000_000] {
            for factor in [1u128, 2, 3] {
                let x = y * factor;
                if x + y > (4 * amp - 1) * y || x + y > 1 << 42 {
                    continue;
                }
                let d = compute_d(x, y, amp).unwrap();
                assert!(compute_y(x + x / 10, d, amp).is_ok());
            }
        }
    }
}

#[test]
fn reserve_search_never_runs_out_of_steps() {
    // One side is vanishingly small: the search starts far below the root.
    assert!(compute_y(1, 4_000_000_000, 1).is_ok());
    // Or the products are too large, which is another failure.
    assert_eq!(compute_y(1, 4_000_000_000_000, 1), Err(StableSwapError::MathOverflow));
}

#[test]
fn y_gives_back_the_reserve_that_d_came_from() {
    let d = compute_d(1_000_000_000, 2_000_000_000, 100).unwrap();
    let y = compute_y(1_000_000_000, d, 100).unwrap();
    assert!(y.abs_diff(2_000_000_000) <= 2);
}

#[test]
fn value_imbalance() {
    assert_eq!(calculate_value_imbalance_bps(0, 0), Ok(0));
    assert_eq!(calculate_value_imbalance_bps(300, 100), Ok(5_000));
    assert_eq!(calculate_value_imbalance_bps(100, 300), Ok(5_000));
    assert_eq!(calculate_value_imbalance_bps(7, 0), Ok(10_000));
    assert_eq!(
        calculate_value_imbalance_bps(u128::MAX, 1),
        Err(StableSwapError::MathOverflow)
    );
    assert_eq!(
        calculate_value_imbalance_bps(u128::MAX, 0),
        Err(StableSwapError::MathOverflow)
    );
}

#[test]
fn dynamic_fee_exact_values() {
    let price = 1_000_000_000u128;
    // Balanced: the base fee.
    assert_eq!(calculate_dynamic_fee_bps(4, 100, 10, 10, price, price, 500), Ok(4));
    // Half of the threshold by reserve imbalance.
    assert_eq!(
        calculate_dynamic_fee_bps(4, 100, 1_100_000, 900_000, price, price, 2_000),
        Ok(52)
    );
    // A cross price of 10204 basis points.
    assert_eq!(
        calculate_dynamic_fee_bps(4, 100, 1_000_000, 1_000_000, price, 980_000_000, 500),
        Ok(43)
    );
    // At and beyond the threshold: the maximum fee.
    assert_eq!(calculate_dynamic_fee_bps(4, 100, 21, 19, price, price, 500), Ok(100));
    assert_eq!(calculate_dynamic_fee_bps(4, 100, 3, 1, price, price, 500), Ok(100));
}

#[test]
fn dynamic_fee_errors() {
    assert_eq!(
        calculate_dynamic_fee_bps(101, 100, 1, 1, 1, 1, 0),
        Err(StableSwapError::InvalidFeeConfig)
    );
    assert_eq!(
        calculate_dynamic_fee_bps(4, 100, 1, 1, 1, 1, 0),
        Err(StableSwapError::InvalidDepegThreshold)
    );
    assert_eq!(
        calculate_dynamic_fee_bps(4, 100, 10, 10, 1, 0, 5),
        Err(StableSwapError::MathOverflow)
    );
    assert_eq!(
        calculate_dynamic_fee_bps(4, 100, u128::MAX, 1, 2, 1, 5),
        Err(StableSwapError::MathOverflow)
    );
}

#[test]
fn dynamic_fee_never_falls_with_stress() {
    let mut last = 0;
    for skew in 0..40u128 {
        let fee =
            calculate_dynamic_fee_bps(4, 100, 1_000 + skew, 1_000 - skew, 1, 1, 300).unwrap();
        assert!(fee >= last && fee >= 4 && fee <= 100);
        last = fee;
    }
    assert_eq!(last, 100);
}

#[test]
fn swap_output_exact_values() {
    let one = 1_000_000_000u128;
    let pool = 1_000_000_000_000u128;
    assert_eq!(
        calculate_swap_output(pool, pool, 1_000_000, 100, 4, 100, one, one, 500),
        Ok(SwapQuote { amount_out: 999_600, fee_amount: 400, dynamic_fee_bps: 4 })
    );
    assert_eq!(
        calculate_swap_output(pool, pool, 10_000_000_000, 100, 4, 100, one, one, 500),
        Ok(SwapQuote { amount_out: 9_976_503_609, fee_amount: 22_998_855, dynamic_fee_bps: 23 })
    );
    assert_eq!(
        calculate_swap_output(pool, pool, 100_000_000_000, 100, 4, 100, one, one, 500),
        Ok(SwapQuote {
            amount_out: 98_950_279_004,
            fee_amount: 999_497_767,
            dynamic_fee_bps: 100
        })
    );
}

#[test]
fn swap_output_errors() {
    let one = 1_000_000_000u128;
    assert_eq!(
        calculate_swap_output(10, 10, 0, 100, 4, 100, one, one, 500),
        Err(StableSwapError::ZeroAmount)
    );
    assert_eq!(
        calculate_swap_output(0, 10, 1, 100, 4, 100, one, one, 500),
        Err(StableSwapError::EmptyPool)
    );
    assert_eq!(
        calculate_swap_output(1_000, 1_000, 10, 100, 200, 100, one, one, 500),
        Err(StableSwapError::InvalidFeeConfig)
    );
    assert_eq!(
        calculate_swap_output(1_000, 1_000, 10, 100, 4, 100, one, one, 0),
        Err(StableSwapError::InvalidDepegThreshold)
    );
    // A fee above one hundred percent leaves nothing to pay out.
    assert_eq!(
        calculate_swap_output(1_000_000, 1_000_000, 10_000, 100, 20_000, 20_000, one, one, 500),
        Err(StableSwapError::MathOverflow)
    );
}

#[test]
fn swap_output_and_fee_make_up_the_gross_output() {
    let one = 1_000_000_000u128;
    let reserve = 5_000_000_000u128;
    let amount = 700_000_000u128;
    let quote =
        calculate_swap_output(reserve, reserve, amount, 100, 4, 100, one, one, 500).unwrap();
    let d = compute_d(reserve, reserve, 100).unwrap();
    let left = compute_y(reserve + amount, d, 100).unwrap();
    assert_eq!(quote.amount_out + quote.fee_amount, reserve - left);
    let after = compute_d(reserve + amount, left + quote.fee_amount, 100).unwrap();
    assert!(after >= d);
}

#[test]
fn lp_mint_exact_values() {
    let r = 1_000_000_000u128;
    assert_eq!(calculate_lp_mint_amount(0, 0, r, r, 0, 100, 1_000), Ok(1_999_999_000));
    assert_eq!(
        calculate_lp_mint_amount(r, r, 2 * r, 2 * r, 2_000_000_000, 100, 1_000),
        Ok(2_000_000_000)
    );
    assert_eq!(
        calculate_lp_mint_amount(
            r,
            2 * r,
            1_500_000_000,
            2_500_000_000,
            3_000_000_000,
            100,
            1_000
        ),
        Ok(1_000_579_784)
    );
    // Nothing added, nothing issued.
    assert_eq!(calculate_lp_mint_amount(r, r, r, r, 5, 100, 1_000), Ok(0));
    // A token amount holds no more than 64 bits.
    assert_eq!(
        calculate_lp_mint_amount(1, 1, 1 << 20, 1 << 20, u64::MAX as u128, 100, 1_000),
        Ok(u64::MAX)
    );
}

#[test]
fn lp_mint_errors() {
    assert_eq!(
        calculate_lp_mint_amount(0, 0, 500, 500, 0, 100, 1_000),
        Err(StableSwapError::InsufficientInitialLiquidity)
    );
    assert_eq!(calculate_lp_mint_amount(0, 0, 500, 501, 0, 100, 1_000), Ok(1));
    assert_eq!(
        calculate_lp_mint_amount(0, 0, 500, 0, 0, 100, 1_000),
        Err(StableSwapError::EmptyPool)
    );
    assert_eq!(
        calculate_lp_mint_amount(0, 10, 500, 500, 7, 100, 1_000),
        Err(StableSwapError::EmptyPool)
    );
    assert_eq!(
        calculate_lp_mint_amount(500, 500, 400, 400, 7, 100, 1_000),
        Err(StableSwapError::InsufficientLiquidity)
    );
    assert_eq!(
        calculate_lp_mint_amount(500, 500, 600, 600, u128::MAX, 100, 1_000),
        Err(StableSwapError::MathOverflow)
    );
}

#[test]
fn withdraw_amounts_errors() {
    assert_eq!(
        calculate_withdraw_amounts(&[1, 2, 3], 1, 1),
        Err(StableSwapError::InvalidVault)
    );
    assert_eq!(calculate_withdraw_amounts(&[], 1, 1), Err(StableSwapError::InvalidVault));
    assert_eq!(calculate_withdraw_amounts(&[1, 2], 0, 1), Err(StableSwapError::ZeroAmount));
    assert_eq!(calculate_withdraw_amounts(&[1, 2], 1, 0), Err(StableSwapError::EmptyPool));
    assert_eq!(calculate_withdraw_amounts(&[0, 2], 1, 1), Err(StableSwapError::EmptyPool));
    assert_eq!(calculate_withdraw_amounts(&[1, 0], 1, 1), Err(StableSwapError::EmptyPool));
    assert_eq!(
        calculate_withdraw_amounts(&[u128::MAX, 1], 2, 1),
        Err(StableSwapError::MathOverflow)
    );
    assert_eq!(
        calculate_withdraw_amounts(&[10, 1], 5, 10),
        Err(StableSwapError::SingleSidedWithdrawalNotAllowed)
    );
}

#[test]
fn withdraw_amounts_are_rounded_down_shares() {
    assert_eq!(calculate_withdraw_amounts(&[10, 21], 3, 7), Ok(vec![4, 9]));
    assert_eq!(calculate_withdraw_amounts(&[1 << 80, 5], 1, 1), Ok(vec![u64::MAX, 5]));
}

#[test]
fn stableswap_error_messages() {
    let all = [
        (
            StableSwapError::InvalidAmplification,
            "Amplification parameter must be between 1 and 1,000,000",
        ),
        (StableSwapError::InvalidFee, "Fee exceeds maximum of 100%"),
        (StableSwapError::InvalidFeeConfig, "Dynamic fee configuration is invalid"),
        (
            StableSwapError::InvalidDepegThreshold,
            "Depeg threshold is outside the supported range",
        ),
        (
            StableSwapError::InvalidOracleAge,
            "Oracle price maximum age must be greater than zero",
        ),
        (StableSwapError::SlippageExceeded, "Slippage exceeded: output less than minimum"),
        (StableSwapError::InsufficientLiquidity, "Insufficient liquidity in pool"),
        (StableSwapError::MathOverflow, "Math overflow"),
        (StableSwapError::ZeroAmount, "Zero amount not allowed"),
        (StableSwapError::ConvergenceFailed, "Convergence failed in Newton's method"),
        (StableSwapError::EmptyPool, "Pool is empty"),
        (StableSwapError::InsufficientInitialLiquidity, "Initial liquidity too small"),
        (
            StableSwapError::SingleSidedWithdrawalNotAllowed,
            "Single-sided withdrawals are not supported; LP exits must stay proportional",
        ),
        (StableSwapError::InvalidTokenIndex, "Invalid token index"),
        (StableSwapError::SameTokenSwap, "Input and output token must be different"),
        (
            StableSwapError::InvalidRemainingAccounts,
            "Invalid remaining accounts for swap instruction",
        ),
        (StableSwapError::InvalidVault, "Invalid vault account"),
        (StableSwapError::InvalidMint, "Invalid token mint"),
        (
            StableSwapError::InvalidMintDecimals,
            "Both token mints must use the same decimals for this StableSwap pool",
        ),
        (StableSwapError::InvalidOracleAccount, "Invalid oracle account"),
        (StableSwapError::InvalidSystemProgram, "Invalid system program account"),
        (StableSwapError::InvalidTokenProgram, "Invalid token program account"),
        (
            StableSwapError::InvalidAssociatedTokenProgram,
            "Invalid associated token program account",
        ),
        (StableSwapError::StaleOraclePrice, "Oracle price is stale"),
        (StableSwapError::InvalidOraclePrice, "Oracle price is invalid"),
        (
            StableSwapError::PoolPaused,
            "Pool is paused because one of the stablecoins is outside the peg band",
        ),
    ];
    for (error, text) in all {
        assert_eq!(error.message(), text);
    }
}
