//! Failures of the StableSwap pool.

use vstd::prelude::*;

verus! {

/// Domain-specific failures surfaced by the pool's instructions and helpers.
#[derive(Debug, Clone, Copy, PartialEq, Eq, Structural)]
pub enum StableSwapError {
    /// The configured amplification coefficient is outside the supported range.
    InvalidAmplification,
    /// A fee input exceeded the universal basis-point ceiling.
    InvalidFee,
    /// The fee schedule is internally inconsistent.
    InvalidFeeConfig,
    /// The caller configured an unsupported peg deviation threshold.
    InvalidDepegThreshold,
    /// Oracle freshness windows must be positive.
    InvalidOracleAge,
    /// User-provided slippage bounds were not met.
    SlippageExceeded,
    /// The pool does not have enough liquidity for the requested action.
    InsufficientLiquidity,
    /// Checked arithmetic overflowed or divided by zero.
    MathOverflow,
    /// Zero-value operations are rejected to avoid ambiguous behavior.
    ZeroAmount,
    /// Newton iteration failed to converge within the configured limit.
    ConvergenceFailed,
    /// The pool must hold reserves on both sides before pricing swaps.
    EmptyPool,
    /// Initial liquidity was too small after subtracting locked LP shares.
    InsufficientInitialLiquidity,
    /// Liquidity withdrawals must redeem a proportional share of both assets.
    SingleSidedWithdrawalNotAllowed,
    /// The caller referenced a token slot outside the supported token list.
    InvalidTokenIndex,
    /// Swapping a token into itself is always nonsensical.
    SameTokenSwap,
    /// The swap instruction requires the expected remaining account layout.
    InvalidRemainingAccounts,
    /// A supplied token vault does not match the pool configuration.
    InvalidVault,
    /// A supplied mint does not match the pool configuration.
    InvalidMint,
    /// Stable pairs are expected to share the same token precision.
    InvalidMintDecimals,
    /// The provided Pyth account failed key or layout validation.
    InvalidOracleAccount,
    /// The provided system program account does not match the canonical ID.
    InvalidSystemProgram,
    /// The provided SPL token program account does not match the canonical ID.
    InvalidTokenProgram,
    /// The provided associated token program account does not match the canonical ID.
    InvalidAssociatedTokenProgram,
    /// The oracle value is older than the configured freshness threshold.
    StaleOraclePrice,
    /// The oracle reported a non-positive or otherwise unusable price.
    InvalidOraclePrice,
    /// Trading and deposits are halted while a stablecoin is off peg.
    PoolPaused,
}

impl StableSwapError {
    /// The text shown to a user for each failure.
    pub open spec fn text(self) -> Seq<char> {
        match self {
            StableSwapError::InvalidAmplification => "Amplification parameter must be between 1 and 1,000,000"@,
            StableSwapError::InvalidFee => "Fee exceeds maximum of 100%"@,
            StableSwapError::InvalidFeeConfig => "Dynamic fee configuration is invalid"@,
            StableSwapError::InvalidDepegThreshold => "Depeg threshold is outside the supported range"@,
            StableSwapError::InvalidOracleAge => "Oracle price maximum age must be greater than zero"@,
            StableSwapError::SlippageExceeded => "Slippage exceeded: output less than minimum"@,
            StableSwapError::InsufficientLiquidity => "Insufficient liquidity in pool"@,
            StableSwapError::MathOverflow => "Math overflow"@,
            StableSwapError::ZeroAmount => "Zero amount not allowed"@,
            StableSwapError::ConvergenceFailed => "Convergence failed in Newton's method"@,
            StableSwapError::EmptyPool => "Pool is empty"@,
            StableSwapError::InsufficientInitialLiquidity => "Initial liquidity too small"@,
            StableSwapError::SingleSidedWithdrawalNotAllowed => "Single-sided withdrawals are not supported; LP exits must stay proportional"@,
            StableSwapError::InvalidTokenIndex => "Invalid token index"@,
            StableSwapError::SameTokenSwap => "Input and output token must be different"@,
            StableSwapError::InvalidRemainingAccounts => "Invalid remaining accounts for swap instruction"@,
            StableSwapError::InvalidVault => "Invalid vault account"@,
            StableSwapError::InvalidMint => "Invalid token mint"@,
            StableSwapError::InvalidMintDecimals => "Both token mints must use the same decimals for this StableSwap pool"@,
            StableSwapError::InvalidOracleAccount => "Invalid oracle account"@,
            StableSwapError::InvalidSystemProgram => "Invalid system program account"@,
            StableSwapError::InvalidTokenProgram => "Invalid token program account"@,
            StableSwapError::InvalidAssociatedTokenProgram => "Invalid associated token program account"@,
            StableSwapError::StaleOraclePrice => "Oracle price is stale"@,
            StableSwapError::InvalidOraclePrice => "Oracle price is invalid"@,
            StableSwapError::PoolPaused => "Pool is paused because one of the stablecoins is outside the peg band"@,
        }
    }

    /// The text of the failure.
    pub fn message(&self) -> (text: &'static str)
        ensures
            text@ == self.text(),
    {
        match self {
            StableSwapError::InvalidAmplification => "Amplification parameter must be between 1 and 1,000,000",
            StableSwapError::InvalidFee => "Fee exceeds maximum of 100%",
            StableSwapError::InvalidFeeConfig => "Dynamic fee configuration is invalid",
            StableSwapError::InvalidDepegThreshold => "Depeg threshold is outside the supported range",
            StableSwapError::InvalidOracleAge => "Oracle price maximum age must be greater than zero",
            StableSwapError::SlippageExceeded => "Slippage exceeded: output less than minimum",
            StableSwapError::InsufficientLiquidity => "Insufficient liquidity in pool",
            StableSwapError::MathOverflow => "Math overflow",
            StableSwapError::ZeroAmount => "Zero amount not allowed",
            StableSwapError::ConvergenceFailed => "Convergence failed in Newton's method",
            StableSwapError::EmptyPool => "Pool is empty",
            StableSwapError::InsufficientInitialLiquidity => "Initial liquidity too small",
            StableSwapError::SingleSidedWithdrawalNotAllowed => "Single-sided withdrawals are not supported; LP exits must stay proportional",
            StableSwapError::InvalidTokenIndex => "Invalid token index",
            StableSwapError::SameTokenSwap => "Input and output token must be different",
            StableSwapError::InvalidRemainingAccounts => "Invalid remaining accounts for swap instruction",
            StableSwapError::InvalidVault => "Invalid vault account",
            StableSwapError::InvalidMint => "Invalid token mint",
            StableSwapError::InvalidMintDecimals => "Both token mints must use the same decimals for this StableSwap pool",
            StableSwapError::InvalidOracleAccount => "Invalid oracle account",
            StableSwapError::InvalidSystemProgram => "Invalid system program account",
            StableSwapError::InvalidTokenProgram => "Invalid token program account",
            StableSwapError::InvalidAssociatedTokenProgram => "Invalid associated token program account",
            StableSwapError::StaleOraclePrice => "Oracle price is stale",
            StableSwapError::InvalidOraclePrice => "Oracle price is invalid",
            StableSwapError::PoolPaused => "Pool is paused because one of the stablecoins is outside the peg band",
        }
    }
}

} // verus!
