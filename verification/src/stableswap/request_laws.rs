//! Which accounts the pool's instructions accept and what exactly they request, said of the
//! accounts and the requests alone.

use vstd::prelude::*;

use crate::accounts::{
    associated_token_address, AccountError, Rejection, ASSOCIATED_TOKEN_PROGRAM, SYSTEM_PROGRAM,
    TOKEN_PROGRAM,
};
use crate::keys::{canonical_address, derived_address, Pubkey};
use crate::stableswap::errors::StableSwapError;
use crate::stableswap::liquidity::lp_outcome;
use crate::stableswap::pool::{
    addresses_of, addresses_view, depeg_check, deposit, payout, pool_seeds, setup_fault,
    swap_price, Balances, Pool, PoolAddressBytes, PoolAddresses, Readings, POOL_SEED,
};
use crate::stableswap::quote::{quote_agrees, SwapQuote};
use crate::stableswap::settlement::{
    deposit_outcome, own_addresses, setup_outcome, swap_outcome, watch_outcome,
    withdrawal_outcome, CheckDepeg, DepositAmounts, Deposited, LiquidityAccounts, PoolParameters, PoolSetup, PoolSetupAccounts,
    SwapAccounts, SwapOrder, Swapped, Withdrawn, WithdrawalAmounts,
};

verus! {

/// A pool lives at an address derived from the word `pool`, its LP mint and a bump, and its
/// vaults are its associated token accounts for the two tokens.
pub proof fn pool_lives_at_its_seeds(
    program_id: Pubkey,
    lp_mint: Pubkey,
    token_mint_a: Pubkey,
    token_mint_b: Pubkey,
)
    ensures
        addresses_of(program_id, lp_mint, token_mint_a, token_mint_b) matches Some(found) ==> {
            &&& canonical_address(seq![seq![112u8, 111, 111, 108], lp_mint@], program_id@) == Some(
                (found.pool, found.bump),
            )
            &&& derived_address(
                seq![seq![112u8, 111, 111, 108], lp_mint@, seq![found.bump]],
                program_id@,
            ) == Some(found.pool)
            &&& associated_token_address(found.pool, token_mint_a@, TOKEN_PROGRAM@) == Some(
                found.vault_a,
            )
            &&& associated_token_address(found.pool, token_mint_b@, TOKEN_PROGRAM@) == Some(
                found.vault_b,
            )
        },
        addresses_of(program_id, lp_mint, token_mint_a, token_mint_b) is None ==> {
            ||| canonical_address(seq![seq![112u8, 111, 111, 108], lp_mint@], program_id@) is None
            ||| canonical_address(
                seq![seq![112u8, 111, 111, 108], lp_mint@],
                program_id@,
            ) matches Some((pool, _)) && (associated_token_address(
                pool,
                token_mint_a@,
                TOKEN_PROGRAM@,
            ) is None || associated_token_address(pool, token_mint_b@, TOKEN_PROGRAM@) is None)
        },
{
    let word = POOL_SEED;
    assert(word@ =~= seq![112u8, 111, 111, 108]);
    let seeds = seq![seq![112u8, 111, 111, 108], lp_mint@];
    assert(seeds =~= pool_seeds(lp_mint));
    if let Some((key, bump)) = canonical_address(seeds, program_id@) {
        assert(seeds.push(seq![bump]) =~= seq![
            seq![112u8, 111, 111, 108],
            lp_mint@,
            seq![bump],
        ]);
    }
}

/// The addresses of a pool are those of its own LP mint and its own two tokens, and derived
/// addresses are seen by their bytes.
pub proof fn pool_is_held_to_its_own_addresses(
    program_id: Pubkey,
    pool: Pool,
    addresses: PoolAddresses,
)
    ensures
        own_addresses(program_id, pool) == addresses_of(
            program_id,
            pool.lp_mint,
            pool.token_mints@[0],
            pool.token_mints@[1],
        ),
        addresses_view(None) is None,
        addresses_view(Some(addresses)) matches Some(seen) && seen.pool == addresses.pool.0.bytes@
            && seen.bump == addresses.pool.1 && seen.vault_a == addresses.vault_a.bytes@
            && seen.vault_b == addresses.vault_b.bytes@,
{
}

/// The error of a rule of the pool.
pub open spec fn rule<T>(e: StableSwapError) -> Result<T, Rejection<StableSwapError>> {
    Err(Rejection::Program(e))
}

/// The error of an account at the wrong address.
pub open spec fn misplaced<T>() -> Result<T, Rejection<StableSwapError>> {
    Err(Rejection::Account(AccountError::ConstraintSeeds))
}

/// A pool is set up exactly if it and its vaults are at their derived addresses, the programs
/// are the known ones and the parameters are in range; the first of these that fails is
/// reported. The state, the LP mint and the vaults requested are those of the accounts and
/// parameters, and the pool begins open and empty.
pub proof fn setup_follows_its_accounts(
    accounts: PoolSetupAccounts,
    parameters: PoolParameters,
    addresses: Option<PoolAddressBytes>,
    r: Result<PoolSetup, Rejection<StableSwapError>>,
)
    requires
        setup_outcome(r, accounts, parameters, addresses),
    ensures
        ({
            let pool_in_place = addresses matches Some(found) && found.pool == accounts.pool@;
            let vaults_in_place = addresses matches Some(found) && found.vault_a
                == accounts.vault_a@ && found.vault_b == accounts.vault_b@;
            let fault = setup_fault(
                accounts.parts,
                parameters.amplification,
                parameters.base_fee_bps,
                parameters.max_dynamic_fee_bps,
                parameters.depeg_threshold_bps,
                parameters.max_price_age_sec,
            );
            if !pool_in_place {
                r == misplaced::<PoolSetup>()
            } else if accounts.system_program@ != SYSTEM_PROGRAM@ {
                r == rule::<PoolSetup>(StableSwapError::InvalidSystemProgram)
            } else if accounts.token_program@ != TOKEN_PROGRAM@ {
                r == rule::<PoolSetup>(StableSwapError::InvalidTokenProgram)
            } else if accounts.associated_token_program@ != ASSOCIATED_TOKEN_PROGRAM@ {
                r == rule::<PoolSetup>(StableSwapError::InvalidAssociatedTokenProgram)
            } else if !vaults_in_place {
                r == rule::<PoolSetup>(StableSwapError::InvalidVault)
            } else if let Some(e) = fault {
                r == rule::<PoolSetup>(e)
            } else {
                r is Ok
            }
        }),
        r matches Ok(done) ==> {
            let pool = done.pool.data;
            let mint = done.create_lp_mint;
            let a = done.create_vault_a;
            let b = done.create_vault_b;
            &&& done.pool.address == accounts.pool
            &&& pool.admin == accounts.parts.admin
            &&& pool.lp_mint == accounts.parts.lp_mint
            &&& pool.token_mints@ == seq![accounts.parts.token_mint_a, accounts.parts.token_mint_b]
            &&& pool.amplification == parameters.amplification
            &&& pool.fee_bps == parameters.base_fee_bps
            &&& pool.max_dynamic_fee_bps == parameters.max_dynamic_fee_bps
            &&& pool.oracle_config.oracle_a == accounts.parts.oracle_price_feed_a
            &&& pool.oracle_config.oracle_b == accounts.parts.oracle_price_feed_b
            &&& pool.oracle_config.depeg_threshold_bps == parameters.depeg_threshold_bps
            &&& pool.oracle_config.max_price_age_sec == parameters.max_price_age_sec
            &&& !pool.is_paused
            &&& mint.token_program@ == TOKEN_PROGRAM@
            &&& mint.payer == accounts.parts.admin
            &&& mint.mint == accounts.parts.lp_mint
            &&& mint.decimals == accounts.parts.decimals_a
            &&& mint.mint_authority == accounts.pool
            &&& mint.freeze_authority is None
            &&& a.address == accounts.vault_a && a.mint == accounts.parts.token_mint_a
            &&& b.address == accounts.vault_b && b.mint == accounts.parts.token_mint_b
            &&& a.wallet == accounts.pool && b.wallet == accounts.pool
            &&& a.payer == accounts.parts.admin && b.payer == accounts.parts.admin
            &&& a.token_program@ == TOKEN_PROGRAM@ && b.token_program@ == TOKEN_PROGRAM@
            &&& a.associated_token_program@ == ASSOCIATED_TOKEN_PROGRAM@
            &&& b.associated_token_program@ == ASSOCIATED_TOKEN_PROGRAM@
            &&& done.balances.vault_a == 0
            &&& done.balances.vault_b == 0
            &&& done.balances.lp_supply == 0
        },
{
}

/// A peg check is refused for a pool at the wrong address or mints that are not the pool's,
/// and otherwise does what the check of the pool's state does.
pub proof fn watch_checks_the_pool(
    before: CheckDepeg,
    after: CheckDepeg,
    readings: Readings,
    addresses: Option<PoolAddressBytes>,
    r: Result<(), Rejection<StableSwapError>>,
    checked: Result<(), StableSwapError>,
    checked_pool: Pool,
)
    requires
        watch_outcome(r, before, after, readings, addresses),
        depeg_check(checked, before.pool.data, checked_pool, readings),
    ensures
        ({
            let pool = before.pool.data;
            let in_place = addresses matches Some(found) && found.pool == before.pool.address@;
            let own_mints = {
                &&& before.token_mint_a@ == pool.token_mints@[0]@
                &&& before.token_mint_b@ == pool.token_mints@[1]@
                &&& before.lp_mint@ == pool.lp_mint@
            };
            if !in_place {
                r == misplaced::<()>() && after == before
            } else if !own_mints {
                r == rule::<()>(StableSwapError::InvalidMint) && after == before
            } else {
                match checked {
                    Err(e) => r == rule::<()>(e) && after == before,
                    Ok(_) => {
                        &&& r is Ok
                        &&& after.pool.data == checked_pool
                        &&& after.pool.address == before.pool.address
                        &&& after.token_mint_a == before.token_mint_a
                        &&& after.token_mint_b == before.token_mint_b
                        &&& after.lp_mint == before.lp_mint
                    },
                }
            }
        }),
{
}

/// Why the accounts of a deposit or withdrawal are refused, if they are.
pub open spec fn liquidity_complaint(
    accounts: LiquidityAccounts,
    addresses: Option<PoolAddressBytes>,
) -> Option<Rejection<StableSwapError>> {
    let pool = accounts.pool.data;
    if !(addresses matches Some(found) && found.pool == accounts.pool.address@) {
        Some(Rejection::Account(AccountError::ConstraintSeeds))
    } else if accounts.token_program@ != TOKEN_PROGRAM@ {
        Some(Rejection::Program(StableSwapError::InvalidTokenProgram))
    } else if !(accounts.token_mint_a@ == pool.token_mints@[0]@ && accounts.token_mint_b@
        == pool.token_mints@[1]@ && accounts.lp_mint@ == pool.lp_mint@) {
        Some(Rejection::Program(StableSwapError::InvalidMint))
    } else if !(addresses matches Some(found) && found.vault_a == accounts.vault_a@ && found.vault_b
        == accounts.vault_b@) {
        Some(Rejection::Program(StableSwapError::InvalidVault))
    } else {
        None
    }
}

/// A deposit whose accounts are in order is granted exactly if the pool grants it, and
/// requests the deposited amounts for the vaults and what the pool issues for the user.
pub proof fn deposit_requests_follow_the_pool(
    accounts: LiquidityAccounts,
    balances: Balances,
    readings: Readings,
    amounts: DepositAmounts,
    addresses: Option<PoolAddressBytes>,
    r: Result<Deposited, Rejection<StableSwapError>>,
    issued: Result<u64, StableSwapError>,
)
    requires
        deposit_outcome(r, accounts, balances, readings, amounts, addresses),
        lp_outcome(issued) == deposit(
            accounts.pool.data,
            balances,
            readings,
            amounts.amount_a,
            amounts.amount_b,
            amounts.min_lp_out,
        ),
    ensures
        match liquidity_complaint(accounts, addresses) {
            Some(e) => r == Err::<Deposited, Rejection<StableSwapError>>(e),
            None => match issued {
                Err(e) => r == rule::<Deposited>(e),
                Ok(lp) => {
                    &&& r matches Ok(done)
                    &&& done.transfer_a.from == accounts.user_token_a
                    &&& done.transfer_a.to == accounts.vault_a
                    &&& done.transfer_a.authority == accounts.user
                    &&& done.transfer_a.amount == amounts.amount_a
                    &&& done.transfer_a.token_program@ == TOKEN_PROGRAM@
                    &&& done.transfer_a.signer_seeds.deep_view().len() == 0
                    &&& done.transfer_b.from == accounts.user_token_b
                    &&& done.transfer_b.to == accounts.vault_b
                    &&& done.transfer_b.authority == accounts.user
                    &&& done.transfer_b.amount == amounts.amount_b
                    &&& done.transfer_b.token_program@ == TOKEN_PROGRAM@
                    &&& done.transfer_b.signer_seeds.deep_view().len() == 0
                    &&& done.mint_lp.mint == accounts.lp_mint
                    &&& done.mint_lp.to == accounts.user_lp_token
                    &&& done.mint_lp.authority == accounts.pool.address
                    &&& done.mint_lp.amount == lp
                    &&& done.mint_lp.token_program@ == TOKEN_PROGRAM@
                    &&& done.mint_lp.signer_seeds.deep_view() == seq![
                        seq![112u8, 111, 111, 108],
                        accounts.pool.data.lp_mint@,
                        seq![addresses->0.bump],
                    ]
                },
            },
        },
{
    lemma_pool_seeds(accounts.pool.data.lp_mint, addresses->0.bump);
}

/// The seeds by which a pool signs.
proof fn lemma_pool_seeds(lp_mint: Pubkey, bump: u8)
    ensures
        pool_seeds(lp_mint).push(seq![bump]) == seq![
            seq![112u8, 111, 111, 108],
            lp_mint@,
            seq![bump],
        ],
{
    let word = POOL_SEED;
    assert(word@ =~= seq![112u8, 111, 111, 108]);
    assert(pool_seeds(lp_mint).push(seq![bump]) =~= seq![
        seq![112u8, 111, 111, 108],
        lp_mint@,
        seq![bump],
    ]);
}

/// A withdrawal whose accounts are in order is granted exactly if the pool grants it, and
/// requests the burn of the user's LP tokens and what the pool pays out of each vault.
pub proof fn withdrawal_requests_follow_the_pool(
    accounts: LiquidityAccounts,
    balances: Balances,
    amounts: WithdrawalAmounts,
    addresses: Option<PoolAddressBytes>,
    r: Result<Withdrawn, Rejection<StableSwapError>>,
)
    requires
        withdrawal_outcome(r, accounts, balances, amounts, addresses),
    ensures
        match liquidity_complaint(accounts, addresses) {
            Some(e) => r == Err::<Withdrawn, Rejection<StableSwapError>>(e),
            None => match payout(balances, amounts.lp_amount, amounts.min_a, amounts.min_b) {
                Err(e) => r == rule::<Withdrawn>(e),
                Ok((a, b)) => {
                    let seeds = seq![
                        seq![112u8, 111, 111, 108],
                        accounts.pool.data.lp_mint@,
                        seq![addresses->0.bump],
                    ];
                    &&& r matches Ok(done)
                    &&& done.burn_lp.mint == accounts.lp_mint
                    &&& done.burn_lp.from == accounts.user_lp_token
                    &&& done.burn_lp.authority == accounts.user
                    &&& done.burn_lp.amount == amounts.lp_amount
                    &&& done.burn_lp.token_program@ == TOKEN_PROGRAM@
                    &&& done.transfer_a.from == accounts.vault_a
                    &&& done.transfer_a.to == accounts.user_token_a
                    &&& done.transfer_a.authority == accounts.pool.address
                    &&& done.transfer_a.amount == a
                    &&& done.transfer_a.token_program@ == TOKEN_PROGRAM@
                    &&& done.transfer_a.signer_seeds.deep_view() == seeds
                    &&& done.transfer_b.from == accounts.vault_b
                    &&& done.transfer_b.to == accounts.user_token_b
                    &&& done.transfer_b.authority == accounts.pool.address
                    &&& done.transfer_b.amount == b
                    &&& done.transfer_b.token_program@ == TOKEN_PROGRAM@
                    &&& done.transfer_b.signer_seeds.deep_view() == seeds
                },
            },
        },
{
    lemma_pool_seeds(accounts.pool.data.lp_mint, addresses->0.bump);
}

/// A swap whose accounts are in order is granted exactly if the pool grants it, and requests
/// the input for the vault of the token sold and the quoted output from the vault of the
/// token bought.
pub proof fn swap_requests_follow_the_pool(
    accounts: SwapAccounts,
    balances: Balances,
    readings: Readings,
    order: SwapOrder,
    addresses: Option<PoolAddressBytes>,
    r: Result<Swapped, Rejection<StableSwapError>>,
    quoted: Result<SwapQuote, StableSwapError>,
)
    requires
        swap_outcome(r, accounts, balances, readings, order, addresses),
        quote_agrees(
            quoted,
            swap_price(
                accounts.pool.data,
                balances,
                readings,
                order.amount_in,
                order.min_amount_out,
                order.input_index,
                order.output_index,
            ),
        ),
    ensures
        ({
            let keys = accounts.remaining@;
            if !(addresses matches Some(found) && found.pool == accounts.pool.address@) {
                r == misplaced::<Swapped>()
            } else if accounts.token_program@ != TOKEN_PROGRAM@ {
                r == rule::<Swapped>(StableSwapError::InvalidTokenProgram)
            } else if keys.len() != 4 {
                r == rule::<Swapped>(StableSwapError::InvalidRemainingAccounts)
            } else if !(addresses matches Some(found) && found.vault_a == keys[0]@ && found.vault_b
                == keys[1]@) {
                r == rule::<Swapped>(StableSwapError::InvalidVault)
            } else {
                match quoted {
                    Err(e) => r == rule::<Swapped>(e),
                    Ok(quote) => {
                        let (sold, bought) = if order.input_index == 0 {
                            (0int, 1int)
                        } else {
                            (1int, 0int)
                        };
                        &&& r matches Ok(done)
                        &&& done.quote == quote
                        &&& done.transfer_in.from == keys[2 + sold]
                        &&& done.transfer_in.to == keys[sold]
                        &&& done.transfer_in.authority == accounts.user
                        &&& done.transfer_in.amount == order.amount_in
                        &&& done.transfer_in.token_program@ == TOKEN_PROGRAM@
                        &&& done.transfer_in.signer_seeds.deep_view().len() == 0
                        &&& done.transfer_out.from == keys[bought]
                        &&& done.transfer_out.to == keys[2 + bought]
                        &&& done.transfer_out.authority == accounts.pool.address
                        &&& done.transfer_out.amount == quote.amount_out
                        &&& done.transfer_out.token_program@ == TOKEN_PROGRAM@
                        &&& done.transfer_out.signer_seeds.deep_view() == seq![
                            seq![112u8, 111, 111, 108],
                            accounts.pool.data.lp_mint@,
                            seq![addresses->0.bump],
                        ]
                    },
                }
            }
        }),
{
    lemma_pool_seeds(accounts.pool.data.lp_mint, addresses->0.bump);
}

} // verus!
