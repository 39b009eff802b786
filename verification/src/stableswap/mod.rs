//! A two-token liquidity pool priced by the StableSwap invariant.

pub mod curve;
pub mod curve_errors;
pub mod curve_laws;
pub mod errors;
pub mod fee_laws;
pub mod fees;
pub mod invariant_search_laws;
pub mod liquidity;
pub mod liquidity_laws;
pub mod oracle;
pub mod pool;
pub mod pool_laws;
pub mod price_account;
pub mod quote;
pub mod quote_laws;
pub mod range_laws;
pub mod request_laws;
pub mod rule_laws;
pub mod search_laws;
pub mod settlement;
pub mod settlement_laws;
pub mod trade_laws;
pub mod value_laws;
