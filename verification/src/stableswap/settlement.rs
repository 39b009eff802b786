//! The pool's instructions with the accounts they are handed: which accounts are refused,
//! and which tokens move where.

use vstd::prelude::*;

use crate::accounts::{
    associated_token_program, system_program, token_program, Account, AccountError, Burn,
    CreateMint, CreateTokenAccount, MintTo, Rejection, Transfer, ASSOCIATED_TOKEN_PROGRAM,
    SYSTEM_PROGRAM, TOKEN_PROGRAM,
};
use crate::keys::{two_seeds, with_bump, Pubkey};
use crate::stableswap::errors::StableSwapError;
use crate::stableswap::oracle::OracleConfig;
use crate::stableswap::pool::{
    add_liquidity, addresses_of, addresses_view, check_depeg, depegged, deposit, initialize_pool,
    payout, pool_addresses, pool_seeds, remove_liquidity, setup_fault, swap, swap_price,
    usable_prices, Balances, InitializePool, Pool, PoolAddressBytes, PoolAddresses, Readings,
    POOL_SEED,
};
use crate::stableswap::pool_laws::swap_keeps_its_bounds;
use crate::stableswap::quote::{Price, SwapQuote};

verus! {

/// A rule of the pool refuses.
pub open spec fn by_rule(e: StableSwapError) -> Option<Rejection<StableSwapError>> {
    Some(Rejection::Program(e))
}

/// The refusal that an outcome of a rule amounts to, if it is one.
pub open spec fn refusal_of<T>(r: Result<T, StableSwapError>) -> Option<
    Rejection<StableSwapError>,
> {
    match r {
        Ok(_) => None,
        Err(e) => by_rule(e),
    }
}

/// A pool that is handed over where it was derived to live.
pub open spec fn at_address(pool: Pubkey, addresses: Option<PoolAddressBytes>) -> bool {
    addresses matches Some(found) && found.pool == pool@
}

/// Check that a pool lives at its derived address.
fn lives_at_pool_address(pool: &Pubkey, addresses: &Option<PoolAddresses>) -> (r: bool)
    ensures
        r == at_address(*pool, addresses_view(*addresses)),
{
    match addresses {
        Some(found) => found.pool.0 == *pool,
        None => false,
    }
}

/// Why the mints that were handed over are not those of the pool, if they are not.
pub open spec fn mint_fault(
    pool: Pool,
    token_mint_a: Pubkey,
    token_mint_b: Pubkey,
    lp_mint: Pubkey,
) -> Option<StableSwapError> {
    if token_mint_a@ != pool.token_mints@[0]@ || token_mint_b@ != pool.token_mints@[1]@ || lp_mint@
        != pool.lp_mint@ {
        Some(StableSwapError::InvalidMint)
    } else {
        None
    }
}

/// Check that mints are those of the pool.
pub fn check_mints(
    pool: &Pool,
    token_mint_a: &Pubkey,
    token_mint_b: &Pubkey,
    lp_mint: &Pubkey,
) -> (r: Option<StableSwapError>)
    ensures
        r == mint_fault(*pool, *token_mint_a, *token_mint_b, *lp_mint),
{
    if *token_mint_a != pool.token_mints[0] || *token_mint_b != pool.token_mints[1] || *lp_mint
        != pool.lp_mint {
        Some(StableSwapError::InvalidMint)
    } else {
        None
    }
}

/// Why the vaults that were handed over are not those of the pool, if they are not.
pub open spec fn vault_fault(
    vault_a: Pubkey,
    vault_b: Pubkey,
    addresses: Option<PoolAddressBytes>,
) -> Option<StableSwapError> {
    if addresses matches Some(found) && found.vault_a == vault_a@ && found.vault_b == vault_b@ {
        None
    } else {
        Some(StableSwapError::InvalidVault)
    }
}

/// Check that vaults are those of the pool.
pub fn check_vaults(vault_a: &Pubkey, vault_b: &Pubkey, addresses: &Option<PoolAddresses>) -> (r:
    Option<StableSwapError>)
    ensures
        r == vault_fault(*vault_a, *vault_b, addresses_view(*addresses)),
{
    match addresses {
        Some(found) => {
            if found.vault_a == *vault_a && found.vault_b == *vault_b {
                None
            } else {
                Some(StableSwapError::InvalidVault)
            }
        },
        None => Some(StableSwapError::InvalidVault),
    }
}

/// A transfer that a user has signed.
pub open spec fn user_transfer(
    request: Transfer,
    from: Pubkey,
    to: Pubkey,
    user: Pubkey,
    amount: int,
) -> bool {
    &&& request.token_program@ == TOKEN_PROGRAM@
    &&& request.from == from
    &&& request.to == to
    &&& request.authority == user
    &&& request.amount == amount
    &&& request.signer_seeds.deep_view() == Seq::<Seq<u8>>::empty()
}

/// A transfer that the pool signs for.
pub open spec fn pool_transfer(
    request: Transfer,
    from: Pubkey,
    to: Pubkey,
    pool: Account<Pool>,
    bump: u8,
    amount: int,
) -> bool {
    &&& request.token_program@ == TOKEN_PROGRAM@
    &&& request.from == from
    &&& request.to == to
    &&& request.authority == pool.address
    &&& request.amount == amount
    &&& request.signer_seeds.deep_view() == pool_seeds(pool.data.lp_mint).push(seq![bump])
}

/// Request a transfer that a user has signed.
fn request_user_transfer(from: Pubkey, to: Pubkey, user: Pubkey, amount: u64) -> (r: Transfer)
    ensures
        user_transfer(r, from, to, user, amount as int),
{
    let signer_seeds: Vec<Vec<u8>> = Vec::new();
    assert(signer_seeds.deep_view() =~= Seq::<Seq<u8>>::empty());
    Transfer { token_program: token_program(), from, to, authority: user, amount, signer_seeds }
}

/// Request a transfer that the pool signs for.
fn request_pool_transfer(
    from: Pubkey,
    to: Pubkey,
    pool: &Account<Pool>,
    bump: u8,
    amount: u64,
) -> (r: Transfer)
    ensures
        pool_transfer(r, from, to, *pool, bump, amount as int),
{
    Transfer {
        token_program: token_program(),
        from,
        to,
        authority: pool.address,
        amount,
        signer_seeds: with_bump(two_seeds(&POOL_SEED, &pool.data.lp_mint.bytes), bump),
    }
}

/// The parameters of a new pool.
#[derive(Debug, Clone, Copy, PartialEq, Eq)]
pub struct PoolParameters {
    pub amplification: u64,
    pub base_fee_bps: u16,
    pub max_dynamic_fee_bps: u16,
    pub depeg_threshold_bps: u16,
    pub max_price_age_sec: u64,
}

/// Accounts of [`set_up_pool`].
#[derive(Debug, Clone, Copy, PartialEq, Eq)]
pub struct PoolSetupAccounts {
    pub parts: InitializePool,
    /// The fresh pool account.
    pub pool: Pubkey,
    /// The fresh vaults of the two tokens.
    pub vault_a: Pubkey,
    pub vault_b: Pubkey,
    pub system_program: Pubkey,
    pub token_program: Pubkey,
    pub associated_token_program: Pubkey,
}

/// What [`set_up_pool`] sets up.
#[derive(Debug, Clone, Copy, PartialEq, Eq)]
pub struct PoolSetup {
    /// The pool account.
    pub pool: Account<Pool>,
    /// The request that creates the LP mint: it has the decimals that the two tokens share,
    /// the pool mints it, and nobody freezes it.
    pub create_lp_mint: CreateMint,
    /// The requests that create the vaults.
    pub create_vault_a: CreateTokenAccount,
    pub create_vault_b: CreateTokenAccount,
    /// What the new vaults hold and how many LP tokens there are.
    pub balances: Balances,
}

/// Why [`set_up_pool`] is refused, if it is, given the addresses of pool and vaults.
pub open spec fn setup_refusal(
    accounts: PoolSetupAccounts,
    parameters: PoolParameters,
    addresses: Option<PoolAddressBytes>,
) -> Option<Rejection<StableSwapError>> {
    if !at_address(accounts.pool, addresses) {
        Some(Rejection::Account(AccountError::ConstraintSeeds))
    } else if accounts.system_program@ != SYSTEM_PROGRAM@ {
        by_rule(StableSwapError::InvalidSystemProgram)
    } else if accounts.token_program@ != TOKEN_PROGRAM@ {
        by_rule(StableSwapError::InvalidTokenProgram)
    } else if accounts.associated_token_program@ != ASSOCIATED_TOKEN_PROGRAM@ {
        by_rule(StableSwapError::InvalidAssociatedTokenProgram)
    } else if let Some(e) = vault_fault(accounts.vault_a, accounts.vault_b, addresses) {
        by_rule(e)
    } else if let Some(e) = setup_fault(
        accounts.parts,
        parameters.amplification,
        parameters.base_fee_bps,
        parameters.max_dynamic_fee_bps,
        parameters.depeg_threshold_bps,
        parameters.max_price_age_sec,
    ) {
        by_rule(e)
    } else {
        None
    }
}

/// The state of a new pool.
pub open spec fn fresh_pool(
    pool: Pool,
    parts: InitializePool,
    parameters: PoolParameters,
) -> bool {
    &&& pool.admin == parts.admin
    &&& pool.lp_mint == parts.lp_mint
    &&& pool.token_mints@ == seq![parts.token_mint_a, parts.token_mint_b]
    &&& pool.amplification == parameters.amplification
    &&& pool.fee_bps == parameters.base_fee_bps
    &&& pool.max_dynamic_fee_bps == parameters.max_dynamic_fee_bps
    &&& pool.oracle_config == (OracleConfig {
        oracle_a: parts.oracle_price_feed_a,
        oracle_b: parts.oracle_price_feed_b,
        depeg_threshold_bps: parameters.depeg_threshold_bps,
        max_price_age_sec: parameters.max_price_age_sec,
    })
    &&& !pool.is_paused
}

/// A request for a vault of a new pool.
pub open spec fn creates_vault(
    request: CreateTokenAccount,
    accounts: PoolSetupAccounts,
    vault: Pubkey,
    mint: Pubkey,
) -> bool {
    &&& request.associated_token_program@ == ASSOCIATED_TOKEN_PROGRAM@
    &&& request.token_program@ == TOKEN_PROGRAM@
    &&& request.payer == accounts.parts.admin
    &&& request.address == vault
    &&& request.wallet == accounts.pool
    &&& request.mint == mint
}

/// What the requests and the state of a new pool say.
pub open spec fn sets_up(
    done: PoolSetup,
    accounts: PoolSetupAccounts,
    parameters: PoolParameters,
) -> bool {
    &&& done.pool.address == accounts.pool
    &&& done.pool.data.wf()
    &&& fresh_pool(done.pool.data, accounts.parts, parameters)
    &&& done.create_lp_mint.token_program@ == TOKEN_PROGRAM@
    &&& done.create_lp_mint.payer == accounts.parts.admin
    &&& done.create_lp_mint.mint == accounts.parts.lp_mint
    &&& done.create_lp_mint.decimals == accounts.parts.decimals_a
    &&& done.create_lp_mint.mint_authority == accounts.pool
    &&& done.create_lp_mint.freeze_authority is None
    &&& creates_vault(done.create_vault_a, accounts, accounts.vault_a, accounts.parts.token_mint_a)
    &&& creates_vault(done.create_vault_b, accounts, accounts.vault_b, accounts.parts.token_mint_b)
    &&& done.balances == (Balances { vault_a: 0, vault_b: 0, lp_supply: 0 })
}

/// The outcome of [`set_up_pool`], given the addresses of pool and vaults.
pub open spec fn setup_outcome(
    r: Result<PoolSetup, Rejection<StableSwapError>>,
    accounts: PoolSetupAccounts,
    parameters: PoolParameters,
    addresses: Option<PoolAddressBytes>,
) -> bool {
    match r {
        Err(e) => setup_refusal(accounts, parameters, addresses) == Some(e),
        Ok(done) => {
            &&& setup_refusal(accounts, parameters, addresses) is None
            &&& sets_up(done, accounts, parameters)
        },
    }
}

/// Request a vault of a new pool.
fn request_vault(accounts: &PoolSetupAccounts, vault: Pubkey, mint: Pubkey) -> (r:
    CreateTokenAccount)
    ensures
        creates_vault(r, *accounts, vault, mint),
{
    CreateTokenAccount {
        associated_token_program: associated_token_program(),
        token_program: token_program(),
        payer: accounts.parts.admin,
        address: vault,
        wallet: accounts.pool,
        mint,
    }
}

/// Set up a pool, given the addresses derived for it and its vaults.
pub fn set_up_pool_at(
    accounts: &PoolSetupAccounts,
    parameters: &PoolParameters,
    addresses: &Option<PoolAddresses>,
) -> (r: Result<PoolSetup, Rejection<StableSwapError>>)
    ensures
        setup_outcome(r, *accounts, *parameters, addresses_view(*addresses)),
{
    if !lives_at_pool_address(&accounts.pool, addresses) {
        return Err(Rejection::Account(AccountError::ConstraintSeeds));
    }
    if accounts.system_program != system_program() {
        return Err(Rejection::Program(StableSwapError::InvalidSystemProgram));
    }
    if accounts.token_program != token_program() {
        return Err(Rejection::Program(StableSwapError::InvalidTokenProgram));
    }
    if accounts.associated_token_program != associated_token_program() {
        return Err(Rejection::Program(StableSwapError::InvalidAssociatedTokenProgram));
    }
    if let Some(e) = check_vaults(&accounts.vault_a, &accounts.vault_b, addresses) {
        return Err(Rejection::Program(e));
    }
    let pool = match initialize_pool(
        &accounts.parts,
        parameters.amplification,
        parameters.base_fee_bps,
        parameters.max_dynamic_fee_bps,
        parameters.depeg_threshold_bps,
        parameters.max_price_age_sec,
    ) {
        Ok(pool) => pool,
        Err(e) => return Err(Rejection::Program(e)),
    };
    Ok(
        PoolSetup {
            pool: Account { address: accounts.pool, data: pool },
            create_lp_mint: CreateMint {
                token_program: token_program(),
                payer: accounts.parts.admin,
                mint: accounts.parts.lp_mint,
                decimals: accounts.parts.decimals_a,
                mint_authority: accounts.pool,
                freeze_authority: None,
            },
            create_vault_a: request_vault(accounts, accounts.vault_a, accounts.parts.token_mint_a),
            create_vault_b: request_vault(accounts, accounts.vault_b, accounts.parts.token_mint_b),
            balances: Balances { vault_a: 0, vault_b: 0, lp_supply: 0 },
        },
    )
}

/// Create a pool with its LP mint and its two vaults.
pub fn set_up_pool(
    program_id: &Pubkey,
    accounts: &PoolSetupAccounts,
    parameters: &PoolParameters,
) -> (r: Result<PoolSetup, Rejection<StableSwapError>>)
    ensures
        setup_outcome(
            r,
            *accounts,
            *parameters,
            addresses_of(
                *program_id,
                accounts.parts.lp_mint,
                accounts.parts.token_mint_a,
                accounts.parts.token_mint_b,
            ),
        ),
{
    let addresses = pool_addresses(
        program_id,
        &accounts.parts.lp_mint,
        &accounts.parts.token_mint_a,
        &accounts.parts.token_mint_b,
    );
    set_up_pool_at(accounts, parameters, &addresses)
}

/// The addresses at which a pool and its vaults should live, by the pool's own state.
pub open spec fn own_addresses(program_id: Pubkey, pool: Pool) -> Option<PoolAddressBytes> {
    addresses_of(program_id, pool.lp_mint, pool.token_mints@[0], pool.token_mints@[1])
}

/// Derive the addresses at which a pool and its vaults should live.
fn derive_own_addresses(program_id: &Pubkey, pool: &Pool) -> (r: Option<PoolAddresses>)
    ensures
        addresses_view(r) == own_addresses(*program_id, *pool),
{
    pool_addresses(program_id, &pool.lp_mint, &pool.token_mints[0], &pool.token_mints[1])
}

/// Accounts of [`watch_peg`].
#[derive(Debug, Clone, Copy, PartialEq, Eq)]
pub struct CheckDepeg {
    pub pool: Account<Pool>,
    pub token_mint_a: Pubkey,
    pub token_mint_b: Pubkey,
    pub lp_mint: Pubkey,
}

/// Why [`watch_peg`] is refused, if it is, given the addresses of pool and vaults.
pub open spec fn watch_refusal(
    accounts: CheckDepeg,
    readings: Readings,
    addresses: Option<PoolAddressBytes>,
) -> Option<Rejection<StableSwapError>> {
    if !at_address(accounts.pool.address, addresses) {
        Some(Rejection::Account(AccountError::ConstraintSeeds))
    } else if let Some(e) = mint_fault(
        accounts.pool.data,
        accounts.token_mint_a,
        accounts.token_mint_b,
        accounts.lp_mint,
    ) {
        by_rule(e)
    } else {
        refusal_of(usable_prices(accounts.pool.data, readings))
    }
}

/// The outcome of [`watch_peg`], given the addresses of pool and vaults.
pub open spec fn watch_outcome(
    r: Result<(), Rejection<StableSwapError>>,
    before: CheckDepeg,
    after: CheckDepeg,
    readings: Readings,
    addresses: Option<PoolAddressBytes>,
) -> bool {
    match r {
        Err(e) => {
            &&& watch_refusal(before, readings, addresses) == Some(e)
            &&& after == before
        },
        Ok(_) => {
            &&& watch_refusal(before, readings, addresses) is None
            &&& usable_prices(before.pool.data, readings) matches Ok(prices)
            &&& after == (CheckDepeg {
                pool: Account {
                    address: before.pool.address,
                    data: Pool {
                        is_paused: depegged(before.pool.data, prices),
                        ..before.pool.data
                    },
                },
                ..before
            })
        },
    }
}

/// Check the peg, given the addresses derived for the pool and its vaults.
pub fn watch_peg_at(
    accounts: &mut CheckDepeg,
    readings: &Readings,
    addresses: &Option<PoolAddresses>,
) -> (r: Result<(), Rejection<StableSwapError>>)
    ensures
        watch_outcome(
            r,
            *old(accounts),
            *final(accounts),
            *readings,
            addresses_view(*addresses),
        ),
{
    if !lives_at_pool_address(&accounts.pool.address, addresses) {
        return Err(Rejection::Account(AccountError::ConstraintSeeds));
    }
    if let Some(e) = check_mints(
        &accounts.pool.data,
        &accounts.token_mint_a,
        &accounts.token_mint_b,
        &accounts.lp_mint,
    ) {
        return Err(Rejection::Program(e));
    }
    match check_depeg(&mut accounts.pool.data, readings) {
        Ok(_) => Ok(()),
        Err(e) => Err(Rejection::Program(e)),
    }
}

/// Check whether either stablecoin of a pool is off its peg, and halt the pool if so.
pub fn watch_peg(program_id: &Pubkey, accounts: &mut CheckDepeg, readings: &Readings) -> (r: Result<
    (),
    Rejection<StableSwapError>,
>)
    ensures
        watch_outcome(
            r,
            *old(accounts),
            *final(accounts),
            *readings,
            own_addresses(*program_id, old(accounts).pool.data),
        ),
{
    let addresses = derive_own_addresses(program_id, &accounts.pool.data);
    watch_peg_at(accounts, readings, &addresses)
}

/// Accounts of [`settle_deposit`] and [`settle_withdrawal`].
#[derive(Debug, Clone, Copy, PartialEq, Eq)]
pub struct LiquidityAccounts {
    pub pool: Account<Pool>,
    pub token_mint_a: Pubkey,
    pub token_mint_b: Pubkey,
    pub lp_mint: Pubkey,
    pub vault_a: Pubkey,
    pub vault_b: Pubkey,
    /// The user's token accounts for the two tokens and for the LP token.
    pub user_token_a: Pubkey,
    pub user_token_b: Pubkey,
    pub user_lp_token: Pubkey,
    /// The signer who deposits or withdraws.
    pub user: Pubkey,
    pub token_program: Pubkey,
}

/// Why the accounts of a deposit or withdrawal are refused, if they are.
pub open spec fn liquidity_fault(
    accounts: LiquidityAccounts,
    addresses: Option<PoolAddressBytes>,
) -> Option<Rejection<StableSwapError>> {
    if !at_address(accounts.pool.address, addresses) {
        Some(Rejection::Account(AccountError::ConstraintSeeds))
    } else if accounts.token_program@ != TOKEN_PROGRAM@ {
        by_rule(StableSwapError::InvalidTokenProgram)
    } else if let Some(e) = mint_fault(
        accounts.pool.data,
        accounts.token_mint_a,
        accounts.token_mint_b,
        accounts.lp_mint,
    ) {
        by_rule(e)
    } else if let Some(e) = vault_fault(accounts.vault_a, accounts.vault_b, addresses) {
        by_rule(e)
    } else {
        None
    }
}

/// Check the accounts of a deposit or withdrawal, given the addresses derived for the pool
/// and its vaults.
pub fn check_liquidity_accounts_at(
    accounts: &LiquidityAccounts,
    addresses: &Option<PoolAddresses>,
) -> (r: Option<Rejection<StableSwapError>>)
    ensures
        r == liquidity_fault(*accounts, addresses_view(*addresses)),
{
    if !lives_at_pool_address(&accounts.pool.address, addresses) {
        return Some(Rejection::Account(AccountError::ConstraintSeeds));
    }
    if accounts.token_program != token_program() {
        return Some(Rejection::Program(StableSwapError::InvalidTokenProgram));
    }
    if let Some(e) = check_mints(
        &accounts.pool.data,
        &accounts.token_mint_a,
        &accounts.token_mint_b,
        &accounts.lp_mint,
    ) {
        return Some(Rejection::Program(e));
    }
    if let Some(e) = check_vaults(&accounts.vault_a, &accounts.vault_b, addresses) {
        return Some(Rejection::Program(e));
    }
    None
}

/// Check the accounts of a deposit or withdrawal, before anything is read out of them.
pub fn check_liquidity_accounts(program_id: &Pubkey, accounts: &LiquidityAccounts) -> (r: Option<
    Rejection<StableSwapError>,
>)
    ensures
        r == liquidity_fault(*accounts, own_addresses(*program_id, accounts.pool.data)),
{
    let addresses = derive_own_addresses(program_id, &accounts.pool.data);
    check_liquidity_accounts_at(accounts, &addresses)
}

/// The bump of a pool's address.
pub open spec fn bump_of(addresses: Option<PoolAddressBytes>) -> u8 {
    addresses->0.bump
}

/// What moves in a deposit.
#[derive(Debug, Clone, PartialEq, Eq)]
pub struct Deposited {
    /// Token A from the user to the vault.
    pub transfer_a: Transfer,
    /// Token B from the user to the vault.
    pub transfer_b: Transfer,
    /// New LP tokens for the user.
    pub mint_lp: MintTo,
}

/// The amounts of a deposit.
#[derive(Debug, Clone, Copy, PartialEq, Eq)]
pub struct DepositAmounts {
    pub amount_a: u64,
    pub amount_b: u64,
    /// The fewest LP tokens to receive.
    pub min_lp_out: u64,
}

/// The LP tokens that a deposit earns by the pool's rules, or why it is refused.
pub open spec fn deposit_of(
    accounts: LiquidityAccounts,
    balances: Balances,
    readings: Readings,
    amounts: DepositAmounts,
) -> Result<int, StableSwapError> {
    deposit(
        accounts.pool.data,
        balances,
        readings,
        amounts.amount_a,
        amounts.amount_b,
        amounts.min_lp_out,
    )
}

/// Why [`settle_deposit`] is refused, if it is, given the addresses of pool and vaults.
pub open spec fn deposit_refusal(
    accounts: LiquidityAccounts,
    balances: Balances,
    readings: Readings,
    amounts: DepositAmounts,
    addresses: Option<PoolAddressBytes>,
) -> Option<Rejection<StableSwapError>> {
    if let Some(e) = liquidity_fault(accounts, addresses) {
        Some(e)
    } else {
        refusal_of(deposit_of(accounts, balances, readings, amounts))
    }
}

/// The requests of a deposit that earns `lp` LP tokens: both amounts go from the user to
/// the vaults, and the LP tokens to the user.
pub open spec fn deposits(
    done: Deposited,
    accounts: LiquidityAccounts,
    amounts: DepositAmounts,
    lp: int,
    bump: u8,
) -> bool {
    &&& user_transfer(
        done.transfer_a,
        accounts.user_token_a,
        accounts.vault_a,
        accounts.user,
        amounts.amount_a as int,
    )
    &&& user_transfer(
        done.transfer_b,
        accounts.user_token_b,
        accounts.vault_b,
        accounts.user,
        amounts.amount_b as int,
    )
    &&& done.mint_lp.token_program@ == TOKEN_PROGRAM@
    &&& done.mint_lp.mint == accounts.lp_mint
    &&& done.mint_lp.to == accounts.user_lp_token
    &&& done.mint_lp.authority == accounts.pool.address
    &&& done.mint_lp.amount == lp
    &&& done.mint_lp.signer_seeds.deep_view() == pool_seeds(accounts.pool.data.lp_mint).push(
        seq![bump],
    )
}

/// The outcome of [`settle_deposit`], given the addresses of pool and vaults.
pub open spec fn deposit_outcome(
    r: Result<Deposited, Rejection<StableSwapError>>,
    accounts: LiquidityAccounts,
    balances: Balances,
    readings: Readings,
    amounts: DepositAmounts,
    addresses: Option<PoolAddressBytes>,
) -> bool {
    match r {
        Err(e) => deposit_refusal(accounts, balances, readings, amounts, addresses) == Some(e),
        Ok(done) => {
            &&& deposit_refusal(accounts, balances, readings, amounts, addresses) is None
            &&& deposit_of(accounts, balances, readings, amounts) matches Ok(lp)
            &&& deposits(done, accounts, amounts, lp, bump_of(addresses))
        },
    }
}

/// Settle a deposit, given the addresses derived for the pool and its vaults.
pub fn settle_deposit_at(
    accounts: &LiquidityAccounts,
    balances: &Balances,
    readings: &Readings,
    amounts: &DepositAmounts,
    addresses: &Option<PoolAddresses>,
) -> (r: Result<Deposited, Rejection<StableSwapError>>)
    ensures
        deposit_outcome(
            r,
            *accounts,
            *balances,
            *readings,
            *amounts,
            addresses_view(*addresses),
        ),
{
    if let Some(e) = check_liquidity_accounts_at(accounts, addresses) {
        return Err(e);
    }
    let bump = match addresses {
        Some(found) => found.pool.1,
        None => return Err(Rejection::Account(AccountError::ConstraintSeeds)),
    };
    let lp = match add_liquidity(
        &accounts.pool.data,
        balances,
        readings,
        amounts.amount_a,
        amounts.amount_b,
        amounts.min_lp_out,
    ) {
        Ok(lp) => lp,
        Err(e) => return Err(Rejection::Program(e)),
    };
    Ok(
        Deposited {
            transfer_a: request_user_transfer(
                accounts.user_token_a,
                accounts.vault_a,
                accounts.user,
                amounts.amount_a,
            ),
            transfer_b: request_user_transfer(
                accounts.user_token_b,
                accounts.vault_b,
                accounts.user,
                amounts.amount_b,
            ),
            mint_lp: MintTo {
                token_program: token_program(),
                mint: accounts.lp_mint,
                to: accounts.user_lp_token,
                authority: accounts.pool.address,
                amount: lp,
                signer_seeds: with_bump(
                    two_seeds(&POOL_SEED, &accounts.pool.data.lp_mint.bytes),
                    bump,
                ),
            },
        },
    )
}

/// Deposit tokens for LP tokens: the requests that move them.
pub fn settle_deposit(
    program_id: &Pubkey,
    accounts: &LiquidityAccounts,
    balances: &Balances,
    readings: &Readings,
    amounts: &DepositAmounts,
) -> (r: Result<Deposited, Rejection<StableSwapError>>)
    ensures
        deposit_outcome(
            r,
            *accounts,
            *balances,
            *readings,
            *amounts,
            own_addresses(*program_id, accounts.pool.data),
        ),
{
    let addresses = derive_own_addresses(program_id, &accounts.pool.data);
    settle_deposit_at(accounts, balances, readings, amounts, &addresses)
}

/// What moves in a withdrawal.
#[derive(Debug, Clone, PartialEq, Eq)]
pub struct Withdrawn {
    /// The user's LP tokens that are burned.
    pub burn_lp: Burn,
    /// Token A from the vault to the user.
    pub transfer_a: Transfer,
    /// Token B from the vault to the user.
    pub transfer_b: Transfer,
}

/// The amounts of a withdrawal.
#[derive(Debug, Clone, Copy, PartialEq, Eq)]
pub struct WithdrawalAmounts {
    /// The LP tokens to burn.
    pub lp_amount: u64,
    /// The least of each token to receive.
    pub min_a: u64,
    pub min_b: u64,
}

/// What a withdrawal pays out by the pool's rules, or why it is refused.
pub open spec fn payout_of(balances: Balances, amounts: WithdrawalAmounts) -> Result<
    (int, int),
    StableSwapError,
> {
    payout(balances, amounts.lp_amount, amounts.min_a, amounts.min_b)
}

/// Why [`settle_withdrawal`] is refused, if it is, given the addresses of pool and vaults.
pub open spec fn withdrawal_refusal(
    accounts: LiquidityAccounts,
    balances: Balances,
    amounts: WithdrawalAmounts,
    addresses: Option<PoolAddressBytes>,
) -> Option<Rejection<StableSwapError>> {
    if let Some(e) = liquidity_fault(accounts, addresses) {
        Some(e)
    } else {
        refusal_of(payout_of(balances, amounts))
    }
}

/// The requests of a withdrawal that pays out `a` and `b`: the LP tokens are burned from
/// the user's account, and the payout goes from the vaults to the user.
pub open spec fn withdraws(
    done: Withdrawn,
    accounts: LiquidityAccounts,
    amounts: WithdrawalAmounts,
    a: int,
    b: int,
    bump: u8,
) -> bool {
    &&& done.burn_lp.token_program@ == TOKEN_PROGRAM@
    &&& done.burn_lp.mint == accounts.lp_mint
    &&& done.burn_lp.from == accounts.user_lp_token
    &&& done.burn_lp.authority == accounts.user
    &&& done.burn_lp.amount == amounts.lp_amount
    &&& pool_transfer(
        done.transfer_a,
        accounts.vault_a,
        accounts.user_token_a,
        accounts.pool,
        bump,
        a,
    )
    &&& pool_transfer(
        done.transfer_b,
        accounts.vault_b,
        accounts.user_token_b,
        accounts.pool,
        bump,
        b,
    )
}

/// The outcome of [`settle_withdrawal`], given the addresses of pool and vaults.
pub open spec fn withdrawal_outcome(
    r: Result<Withdrawn, Rejection<StableSwapError>>,
    accounts: LiquidityAccounts,
    balances: Balances,
    amounts: WithdrawalAmounts,
    addresses: Option<PoolAddressBytes>,
) -> bool {
    match r {
        Err(e) => withdrawal_refusal(accounts, balances, amounts, addresses) == Some(e),
        Ok(done) => {
            &&& withdrawal_refusal(accounts, balances, amounts, addresses) is None
            &&& payout_of(balances, amounts) matches Ok((a, b))
            &&& withdraws(done, accounts, amounts, a, b, bump_of(addresses))
        },
    }
}

/// Settle a withdrawal, given the addresses derived for the pool and its vaults.
pub fn settle_withdrawal_at(
    accounts: &LiquidityAccounts,
    balances: &Balances,
    amounts: &WithdrawalAmounts,
    addresses: &Option<PoolAddresses>,
) -> (r: Result<Withdrawn, Rejection<StableSwapError>>)
    ensures
        withdrawal_outcome(r, *accounts, *balances, *amounts, addresses_view(*addresses)),
{
    if let Some(e) = check_liquidity_accounts_at(accounts, addresses) {
        return Err(e);
    }
    let bump = match addresses {
        Some(found) => found.pool.1,
        None => return Err(Rejection::Account(AccountError::ConstraintSeeds)),
    };
    let (a, b) = match remove_liquidity(
        balances,
        amounts.lp_amount,
        amounts.min_a,
        amounts.min_b,
    ) {
        Ok(paid) => paid,
        Err(e) => return Err(Rejection::Program(e)),
    };
    Ok(
        Withdrawn {
            burn_lp: Burn {
                token_program: token_program(),
                mint: accounts.lp_mint,
                from: accounts.user_lp_token,
                authority: accounts.user,
                amount: amounts.lp_amount,
            },
            transfer_a: request_pool_transfer(
                accounts.vault_a,
                accounts.user_token_a,
                &accounts.pool,
                bump,
                a,
            ),
            transfer_b: request_pool_transfer(
                accounts.vault_b,
                accounts.user_token_b,
                &accounts.pool,
                bump,
                b,
            ),
        },
    )
}

/// Burn LP tokens for a share of both tokens: the requests that move them.
pub fn settle_withdrawal(
    program_id: &Pubkey,
    accounts: &LiquidityAccounts,
    balances: &Balances,
    amounts: &WithdrawalAmounts,
) -> (r: Result<Withdrawn, Rejection<StableSwapError>>)
    ensures
        withdrawal_outcome(
            r,
            *accounts,
            *balances,
            *amounts,
            own_addresses(*program_id, accounts.pool.data),
        ),
{
    let addresses = derive_own_addresses(program_id, &accounts.pool.data);
    settle_withdrawal_at(accounts, balances, amounts, &addresses)
}

/// Accounts of [`settle_swap`].
#[derive(Debug, Clone, PartialEq, Eq)]
pub struct SwapAccounts {
    pub pool: Account<Pool>,
    /// The signer who trades.
    pub user: Pubkey,
    pub token_program: Pubkey,
    /// The vaults of both tokens, then the user's token accounts for them.
    pub remaining: Vec<Pubkey>,
}

/// What moves in a swap.
#[derive(Debug, Clone, PartialEq, Eq)]
pub struct Swapped {
    /// The input token from the user to its vault.
    pub transfer_in: Transfer,
    /// The output token from its vault to the user.
    pub transfer_out: Transfer,
    /// The price of the swap; the fee stays in the output vault.
    pub quote: SwapQuote,
}

/// The order of a swap.
#[derive(Debug, Clone, Copy, PartialEq, Eq)]
pub struct SwapOrder {
    pub amount_in: u64,
    pub min_amount_out: u64,
    pub input_index: u8,
    pub output_index: u8,
}

/// Why the accounts of a swap are refused, if they are.
pub open spec fn swap_fault(
    accounts: SwapAccounts,
    addresses: Option<PoolAddressBytes>,
) -> Option<Rejection<StableSwapError>> {
    if !at_address(accounts.pool.address, addresses) {
        Some(Rejection::Account(AccountError::ConstraintSeeds))
    } else if accounts.token_program@ != TOKEN_PROGRAM@ {
        by_rule(StableSwapError::InvalidTokenProgram)
    } else if accounts.remaining@.len() != 4 {
        by_rule(StableSwapError::InvalidRemainingAccounts)
    } else if let Some(e) = vault_fault(accounts.remaining@[0], accounts.remaining@[1], addresses) {
        by_rule(e)
    } else {
        None
    }
}

/// Check the accounts of a swap, given the addresses derived for the pool and its vaults.
pub fn check_swap_accounts_at(accounts: &SwapAccounts, addresses: &Option<PoolAddresses>) -> (r:
    Option<Rejection<StableSwapError>>)
    ensures
        r == swap_fault(*accounts, addresses_view(*addresses)),
{
    if !lives_at_pool_address(&accounts.pool.address, addresses) {
        return Some(Rejection::Account(AccountError::ConstraintSeeds));
    }
    if accounts.token_program != token_program() {
        return Some(Rejection::Program(StableSwapError::InvalidTokenProgram));
    }
    if accounts.remaining.len() != 4 {
        return Some(Rejection::Program(StableSwapError::InvalidRemainingAccounts));
    }
    if let Some(e) = check_vaults(&accounts.remaining[0], &accounts.remaining[1], addresses) {
        return Some(Rejection::Program(e));
    }
    None
}

/// Check the accounts of a swap, before anything is read out of them.
pub fn check_swap_accounts(program_id: &Pubkey, accounts: &SwapAccounts) -> (r: Option<
    Rejection<StableSwapError>,
>)
    ensures
        r == swap_fault(*accounts, own_addresses(*program_id, accounts.pool.data)),
{
    let addresses = derive_own_addresses(program_id, &accounts.pool.data);
    check_swap_accounts_at(accounts, &addresses)
}

/// The price of a swap by the pool's rules, or why it is refused.
pub open spec fn price_of(
    accounts: SwapAccounts,
    balances: Balances,
    readings: Readings,
    order: SwapOrder,
) -> Result<Price, StableSwapError> {
    swap_price(
        accounts.pool.data,
        balances,
        readings,
        order.amount_in,
        order.min_amount_out,
        order.input_index,
        order.output_index,
    )
}

/// Why [`settle_swap`] is refused, if it is, given the addresses of pool and vaults.
pub open spec fn swap_refusal(
    accounts: SwapAccounts,
    balances: Balances,
    readings: Readings,
    order: SwapOrder,
    addresses: Option<PoolAddressBytes>,
) -> Option<Rejection<StableSwapError>> {
    if let Some(e) = swap_fault(accounts, addresses) {
        Some(e)
    } else {
        refusal_of(price_of(accounts, balances, readings, order))
    }
}

/// The requests of a swap at the given price: all of the input goes from the user to its
/// vault, and the net output from its vault to the user, so that the fee stays in.
pub open spec fn swaps(
    done: Swapped,
    accounts: SwapAccounts,
    order: SwapOrder,
    price: Price,
    bump: u8,
) -> bool {
    &&& user_transfer(
        done.transfer_in,
        accounts.remaining@[2 + order.input_index],
        accounts.remaining@[order.input_index as int],
        accounts.user,
        order.amount_in as int,
    )
    &&& pool_transfer(
        done.transfer_out,
        accounts.remaining@[order.output_index as int],
        accounts.remaining@[2 + order.output_index],
        accounts.pool,
        bump,
        price.net(),
    )
    &&& done.quote.amount_out == price.net()
    &&& done.quote.fee_amount == price.fee()
    &&& done.quote.dynamic_fee_bps == price.fee_bps
}

/// The outcome of [`settle_swap`], given the addresses of pool and vaults.
pub open spec fn swap_outcome(
    r: Result<Swapped, Rejection<StableSwapError>>,
    accounts: SwapAccounts,
    balances: Balances,
    readings: Readings,
    order: SwapOrder,
    addresses: Option<PoolAddressBytes>,
) -> bool {
    match r {
        Err(e) => swap_refusal(accounts, balances, readings, order, addresses) == Some(e),
        Ok(done) => {
            &&& swap_refusal(accounts, balances, readings, order, addresses) is None
            &&& price_of(accounts, balances, readings, order) matches Ok(price)
            &&& swaps(done, accounts, order, price, bump_of(addresses))
        },
    }
}

/// Settle a swap, given the addresses derived for the pool and its vaults.
pub fn settle_swap_at(
    accounts: &SwapAccounts,
    balances: &Balances,
    readings: &Readings,
    order: &SwapOrder,
    addresses: &Option<PoolAddresses>,
) -> (r: Result<Swapped, Rejection<StableSwapError>>)
    ensures
        swap_outcome(
            r,
            *accounts,
            *balances,
            *readings,
            *order,
            addresses_view(*addresses),
        ),
{
    if let Some(e) = check_swap_accounts_at(accounts, addresses) {
        return Err(e);
    }
    let bump = match addresses {
        Some(found) => found.pool.1,
        None => return Err(Rejection::Account(AccountError::ConstraintSeeds)),
    };
    let quote = match swap(
        &accounts.pool.data,
        balances,
        readings,
        order.amount_in,
        order.min_amount_out,
        order.input_index,
        order.output_index,
    ) {
        Ok(quote) => quote,
        Err(e) => return Err(Rejection::Program(e)),
    };
    proof {
        swap_keeps_its_bounds(
            accounts.pool.data,
            *balances,
            *readings,
            order.amount_in,
            order.min_amount_out,
            order.input_index,
            order.output_index,
        );
    }
    let input = order.input_index as usize;
    let output = order.output_index as usize;
    Ok(
        Swapped {
            transfer_in: request_user_transfer(
                accounts.remaining[2 + input],
                accounts.remaining[input],
                accounts.user,
                order.amount_in,
            ),
            transfer_out: request_pool_transfer(
                accounts.remaining[output],
                accounts.remaining[2 + output],
                &accounts.pool,
                bump,
                quote.amount_out as u64,
            ),
            quote,
        },
    )
}

/// Swap one pool token for the other: the requests that move them.
pub fn settle_swap(
    program_id: &Pubkey,
    accounts: &SwapAccounts,
    balances: &Balances,
    readings: &Readings,
    order: &SwapOrder,
) -> (r: Result<Swapped, Rejection<StableSwapError>>)
    ensures
        swap_outcome(
            r,
            *accounts,
            *balances,
            *readings,
            *order,
            own_addresses(*program_id, accounts.pool.data),
        ),
{
    let addresses = derive_own_addresses(program_id, &accounts.pool.data);
    settle_swap_at(accounts, balances, readings, order, &addresses)
}

} // verus!
