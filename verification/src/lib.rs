//! Verified rules of three on-chain token programs.

pub mod account_laws;
pub mod accounts;
pub mod keys;
pub mod stablecoin;
pub mod stablecoin_laws;
pub mod stablecoin_rule_laws;
pub mod stableswap;
pub mod vault;
pub mod vault_laws;
pub mod vault_rule_laws;
