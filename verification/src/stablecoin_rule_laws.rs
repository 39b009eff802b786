//! What each instruction of the stablecoin does, in terms of its accounts and results alone.

use vstd::prelude::*;

use crate::accounts::{
    associated_token_address, Account, AccountError, Burn, CloseAccount, MintTo, Rejection,
    TOKEN_2022_PROGRAM,
};
use crate::keys::{derived_address, Pubkey};
use crate::stablecoin::{
    burn_outcome, config_address, config_seeds, configure_outcome, initialize_outcome,
    mint_address, mint_addresses, mint_outcome, mint_seeds, minter_config_address, minter_seeds,
    remove_outcome, switch_outcome, BurnTokens, Config, ConfigureMinter, Initialize, Initialized,
    MintAddressBytes, MintAddresses, MintTokens, MinterConfig, RemoveMinter, StablecoinError,
    CONFIG_SEED, MINTER_SEED, MINT_SEED,
};

verus! {

/// A refusal by a rule of the program.
pub open spec fn rule<T>(e: StablecoinError) -> Result<T, Rejection<StablecoinError>> {
    Err(Rejection::Program(e))
}

/// A refusal of an account.
pub open spec fn refused<T>(e: AccountError) -> Result<T, Rejection<StablecoinError>> {
    Err(Rejection::Account(e))
}

/// The accounts of the stablecoin live at addresses derived from the words `config`, `mint`
/// and `minter`, the last with the minter's own address, each followed by its bump.
pub proof fn accounts_live_at_their_seeds(
    program_id: Pubkey,
    config: Account<Config>,
    minter: Pubkey,
    minter_config: Account<MinterConfig>,
)
    ensures
        config_seeds() == seq![seq![99u8, 111, 110, 102, 105, 103]],
        mint_seeds() == seq![seq![109u8, 105, 110, 116]],
        minter_seeds(minter) == seq![seq![109u8, 105, 110, 116, 101, 114], minter@],
        config_address(program_id, config) == derived_address(
            seq![seq![99u8, 111, 110, 102, 105, 103], seq![config.data.bump]],
            program_id@,
        ),
        mint_address(program_id, config) == derived_address(
            seq![seq![109u8, 105, 110, 116], seq![config.data.mint_bump]],
            program_id@,
        ),
        minter_config_address(program_id, minter, minter_config) == derived_address(
            seq![
                seq![109u8, 105, 110, 116, 101, 114],
                minter@,
                seq![minter_config.data.bump],
            ],
            program_id@,
        ),
{
    assert(CONFIG_SEED@ =~= seq![99u8, 111, 110, 102, 105, 103]);
    assert(MINT_SEED@ =~= seq![109u8, 105, 110, 116]);
    assert(MINTER_SEED@ =~= seq![109u8, 105, 110, 116, 101, 114]);
    assert(config_seeds().push(seq![config.data.bump]) =~= seq![
        seq![99u8, 111, 110, 102, 105, 103],
        seq![config.data.bump],
    ]);
    assert(mint_seeds().push(seq![config.data.mint_bump]) =~= seq![
        seq![109u8, 105, 110, 116],
        seq![config.data.mint_bump],
    ]);
    assert(minter_seeds(minter).push(seq![minter_config.data.bump]) =~= seq![
        seq![109u8, 105, 110, 116, 101, 114],
        minter@,
        seq![minter_config.data.bump],
    ]);
}

/// The accounts of a mint are held to the addresses of the config, of the minter's config, of
/// the mint, and of the owner's associated token account.
pub proof fn mint_accounts_have_their_own_addresses(program_id: Pubkey, accounts: MintTokens)
    ensures
        ({
            let addresses = mint_addresses(program_id, accounts);
            &&& addresses.config == config_address(program_id, accounts.config)
            &&& addresses.mint == mint_address(program_id, accounts.config)
            &&& addresses.minter_config == minter_config_address(
                program_id,
                accounts.minter,
                accounts.minter_config,
            )
            &&& addresses.destination == associated_token_address(
                accounts.destination_owner@,
                accounts.mint@,
                TOKEN_2022_PROGRAM@,
            )
        }),
{
}

/// The derived addresses of a mint are seen by their bytes, each in its own place.
pub proof fn mint_addresses_are_seen_by_their_bytes(
    addresses: MintAddresses,
    destination: Pubkey,
    config: Pubkey,
    minter_config: Pubkey,
    mint: Pubkey,
)
    ensures
        addresses.destination == Some(destination) ==> addresses@.destination == Some(
            destination.bytes@,
        ),
        addresses.config == Some(config) ==> addresses@.config == Some(config.bytes@),
        addresses.minter_config == Some(minter_config) ==> addresses@.minter_config == Some(
            minter_config.bytes@,
        ),
        addresses.mint == Some(mint) ==> addresses@.mint == Some(mint.bytes@),
        addresses.destination is None ==> addresses@.destination is None,
        addresses.config is None ==> addresses@.config is None,
        addresses.minter_config is None ==> addresses@.minter_config is None,
        addresses.mint is None ==> addresses@.mint is None,
{
}

/// The stablecoin is initialized exactly if config and mint are where they were found. The
/// signer becomes admin, minting is not paused, the bumps are those found, and the mint is a
/// Token-2022 mint of six decimals that the config mints and freezes.
pub proof fn initialization_follows_its_accounts(
    accounts: Initialize,
    config: Option<(Seq<u8>, u8)>,
    mint: Option<(Seq<u8>, u8)>,
    mint_rent: u64,
    r: Result<Initialized, Rejection<StablecoinError>>,
)
    requires
        initialize_outcome(r, accounts, config, mint, mint_rent),
    ensures
        match (config, mint) {
            (Some((config_key, bump)), Some((mint_key, mint_bump))) => if config_key
                == accounts.config@ && mint_key == accounts.mint@ {
                &&& r matches Ok(done)
                &&& done.config.admin == accounts.admin
                &&& done.config.mint == accounts.mint
                &&& !done.config.paused
                &&& done.config.bump == bump
                &&& done.config.mint_bump == mint_bump
                &&& done.create_mint.from == accounts.admin
                &&& done.create_mint.to == accounts.mint
                &&& done.create_mint.lamports == mint_rent
                &&& done.create_mint.space == 82
                &&& done.create_mint.owner@ == TOKEN_2022_PROGRAM@
                &&& done.create_mint.signer_seeds.deep_view() == seq![
                    seq![109u8, 105, 110, 116],
                    seq![mint_bump],
                ]
                &&& done.initialize_mint.token_program@ == TOKEN_2022_PROGRAM@
                &&& done.initialize_mint.mint == accounts.mint
                &&& done.initialize_mint.decimals == 6
                &&& done.initialize_mint.mint_authority == accounts.config
                &&& done.initialize_mint.freeze_authority == Some(accounts.config)
            } else {
                r == refused::<Initialized>(AccountError::ConstraintSeeds)
            },
            _ => r == refused::<Initialized>(AccountError::ConstraintSeeds),
        },
{
    assert(MINT_SEED@ =~= seq![109u8, 105, 110, 116]);
    if let Some((_, mint_bump)) = mint {
        assert(mint_seeds().push(seq![mint_bump]) =~= seq![
            seq![109u8, 105, 110, 116],
            seq![mint_bump],
        ]);
    }
}

/// A minter is configured exactly if its configuration is where it was found, the signer is
/// the admin and the config is in its place. It gets the allowance granted; a new one also
/// its name, its bump and a total of nothing, and one that exists keeps all else.
pub proof fn configuration_follows_its_accounts(
    before: ConfigureMinter,
    after: ConfigureMinter,
    allowance: u64,
    minter_config: Option<(Seq<u8>, u8)>,
    config: Option<Seq<u8>>,
    r: Result<(), Rejection<StablecoinError>>,
)
    requires
        configure_outcome(r, before, after, allowance, minter_config, config),
    ensures
        ({
            let found = minter_config matches Some((key, _)) && key
                == before.minter_config.address@;
            let old = before.minter_config.data;
            let new = after.minter_config.data;
            if !found {
                r == refused::<()>(AccountError::ConstraintSeeds) && after == before
            } else if before.admin@ != before.config.data.admin@ {
                r == rule::<()>(StablecoinError::Unauthorized) && after == before
            } else if config != Some(before.config.address@) {
                r == refused::<()>(AccountError::ConstraintSeeds) && after == before
            } else {
                &&& r is Ok
                &&& after.admin == before.admin
                &&& after.config == before.config
                &&& after.minter == before.minter
                &&& after.minter_config.address == before.minter_config.address
                &&& new.allowance == allowance
                &&& new.is_initialized
                &&& old.is_initialized ==> {
                    &&& new.minter == old.minter
                    &&& new.amount_minted == old.amount_minted
                    &&& new.bump == old.bump
                }
                &&& !old.is_initialized ==> {
                    &&& new.minter == before.minter
                    &&& new.amount_minted == 0
                    &&& minter_config matches Some((_, bump)) && new.bump == bump
                }
            }
        }),
{
}

/// A minter is removed exactly if the signer is the admin, both configurations are in their
/// places, and the balance does not go to the account that is closed. It goes to the admin.
pub proof fn removal_follows_its_accounts(
    accounts: RemoveMinter,
    config: Option<Seq<u8>>,
    minter_config: Option<Seq<u8>>,
    r: Result<CloseAccount, Rejection<StablecoinError>>,
)
    requires
        remove_outcome(r, accounts, config, minter_config),
    ensures
        if accounts.admin@ != accounts.config.data.admin@ {
            r == rule::<CloseAccount>(StablecoinError::Unauthorized)
        } else if config != Some(accounts.config.address@) || minter_config != Some(
            accounts.minter_config.address@,
        ) {
            r == refused::<CloseAccount>(AccountError::ConstraintSeeds)
        } else if accounts.minter_config.address@ == accounts.admin@ {
            r == refused::<CloseAccount>(AccountError::ConstraintClose)
        } else {
            &&& r matches Ok(close)
            &&& close.account == accounts.minter_config.address
            &&& close.destination == accounts.admin
        },
{
}

/// A mint is granted exactly if the destination is the owner's associated token account for
/// the mint, all accounts are in their places, the minter is configured, minting is not
/// paused, and the total with the amount stays within the allowance; the first of these that
/// fails is reported. It adds the amount to the minter's total and nothing else, and requests
/// that amount for the destination.
pub proof fn mint_follows_its_accounts(
    before: MintTokens,
    after: MintTokens,
    amount: u64,
    addresses: MintAddressBytes,
    r: Result<MintTo, Rejection<StablecoinError>>,
)
    requires
        mint_outcome(r, before, after, amount, addresses),
    ensures
        ({
            let minter = before.minter_config.data;
            let destination = before.destination;
            if destination.mint@ != before.mint@ {
                r == refused::<MintTo>(AccountError::ConstraintTokenMint)
            } else if destination.owner@ != before.destination_owner@ {
                r == refused::<MintTo>(AccountError::ConstraintTokenOwner)
            } else if destination.token_program@ != TOKEN_2022_PROGRAM@ {
                r == refused::<MintTo>(AccountError::ConstraintAssociatedTokenTokenProgram)
            } else if addresses.destination != Some(destination.address@) {
                r == refused::<MintTo>(AccountError::AccountNotAssociatedTokenAccount)
            } else if addresses.config != Some(before.config.address@) || addresses.minter_config
                != Some(before.minter_config.address@) {
                r == refused::<MintTo>(AccountError::ConstraintSeeds)
            } else if !minter.is_initialized {
                r == rule::<MintTo>(StablecoinError::NotMinter)
            } else if addresses.mint != Some(before.mint@) {
                r == refused::<MintTo>(AccountError::ConstraintSeeds)
            } else if before.config.data.paused {
                r == rule::<MintTo>(StablecoinError::Paused)
            } else if minter.amount_minted + amount > minter.allowance {
                r == rule::<MintTo>(StablecoinError::ExceedsAllowance)
            } else {
                &&& r matches Ok(request)
                &&& request.token_program@ == TOKEN_2022_PROGRAM@
                &&& request.mint == before.mint
                &&& request.to == destination.address
                &&& request.authority == before.config.address
                &&& request.amount == amount
                &&& request.signer_seeds.deep_view() == seq![
                    seq![99u8, 111, 110, 102, 105, 103],
                    seq![before.config.data.bump],
                ]
                &&& after.minter_config.data.amount_minted == minter.amount_minted + amount
            }
        }),
        r is Err ==> after == before,
        ({
            let old = before.minter_config;
            let new = after.minter_config;
            &&& after.minter == before.minter
            &&& after.config == before.config
            &&& after.mint == before.mint
            &&& after.destination == before.destination
            &&& after.destination_owner == before.destination_owner
            &&& new.address == old.address
            &&& new.data.minter == old.data.minter
            &&& new.data.allowance == old.data.allowance
            &&& new.data.is_initialized == old.data.is_initialized
            &&& new.data.bump == old.data.bump
        }),
{
    assert(CONFIG_SEED@ =~= seq![99u8, 111, 110, 102, 105, 103]);
    assert(config_seeds().push(seq![before.config.data.bump]) =~= seq![
        seq![99u8, 111, 110, 102, 105, 103],
        seq![before.config.data.bump],
    ]);
}

/// A burn is granted exactly if config and mint are in their places and the token account is
/// the signer's associated one of Token-2022; the first of these that fails is reported. It
/// requests the amount from that account, on the signer's own authority.
pub proof fn burn_follows_its_accounts(
    accounts: BurnTokens,
    amount: u64,
    config: Option<Seq<u8>>,
    mint: Option<Seq<u8>>,
    token_account: Option<Seq<u8>>,
    r: Result<Burn, Rejection<StablecoinError>>,
)
    requires
        burn_outcome(r, accounts, amount, config, mint, token_account),
    ensures
        if config != Some(accounts.config.address@) || mint != Some(accounts.mint@) {
            r == refused::<Burn>(AccountError::ConstraintSeeds)
        } else if accounts.token_account.token_program@ != TOKEN_2022_PROGRAM@ {
            r == refused::<Burn>(AccountError::ConstraintAssociatedTokenTokenProgram)
        } else if accounts.token_account.owner@ != accounts.owner@ {
            r == refused::<Burn>(AccountError::ConstraintTokenOwner)
        } else if token_account != Some(accounts.token_account.address@) {
            r == refused::<Burn>(AccountError::ConstraintAssociated)
        } else {
            &&& r matches Ok(request)
            &&& request.token_program@ == TOKEN_2022_PROGRAM@
            &&& request.mint == accounts.mint
            &&& request.from == accounts.token_account.address
            &&& request.authority == accounts.owner
            &&& request.amount == amount
        },
{
}

/// Minting is paused or unpaused exactly if the signer is the admin and the config is in its
/// place; nothing but the switch changes.
pub proof fn switch_follows_its_accounts(
    admin: Pubkey,
    before: Account<Config>,
    after: Account<Config>,
    paused: bool,
    expected: Option<Seq<u8>>,
    r: Result<(), Rejection<StablecoinError>>,
)
    requires
        switch_outcome(r, admin, before, after, paused, expected),
    ensures
        if admin@ != before.data.admin@ {
            r == rule::<()>(StablecoinError::Unauthorized) && after == before
        } else if expected != Some(before.address@) {
            r == refused::<()>(AccountError::ConstraintSeeds) && after == before
        } else {
            &&& r is Ok
            &&& after.data.paused == paused
            &&& after.address == before.address
            &&& after.data.admin == before.data.admin
            &&& after.data.mint == before.data.mint
            &&& after.data.bump == before.data.bump
            &&& after.data.mint_bump == before.data.mint_bump
        },
{
}

} // verus!
