use std::str::FromStr;

use token_programs::accounts::{
    get_associated_token_address, Account, AccountError, Burn, CloseAccount, MintTo, Rejection,
    TokenAccount, TOKEN_2022_PROGRAM,
};
use token_programs::keys::{find_address, Pubkey};
use token_programs::stablecoin::{
    burn_tokens, burn_tokens_at, configure_minter, configure_minter_at, initialize, initialize_at,
    mint_tokens, mint_tokens_at, pause, remove_minter, remove_minter_at, switch_at, unpause,
    BurnTokens, Config, ConfigureMinter, Initialize, MintAddresses, MintTokens, MinterConfig,
    Pause, RemoveMinter, StablecoinError, Unpause,
};

fn key(tag: u8) -> Pubkey {
    Pubkey { bytes: [tag; 32] }
}

fn program() -> Pubkey {
    let id = "GgvDxkMn9WbZJ5sJEemUdcRrrw1y6LdNTaR7QEacvV9R";
    Pubkey { bytes: anchor_lang::prelude::Pubkey::from_str(id).unwrap().to_bytes() }
}

fn token_2022() -> Pubkey {
    Pubkey { bytes: TOKEN_2022_PROGRAM }
}

fn found(seeds: &[&[u8]]) -> (Pubkey, u8) {
    let program = anchor_lang::prelude::Pubkey::new_from_array(program().bytes);
    let (address, bump) = anchor_lang::prelude::Pubkey::find_program_address(seeds, &program);
    (Pubkey { bytes: address.to_bytes() }, bump)
}

fn admin() -> Pubkey {
    key(1)
}

fn minter() -> Pubkey {
    key(2)
}

fn user() -> Pubkey {
    key(3)
}

fn zeroed() -> MinterConfig {
    MinterConfig {
        minter: key(0),
        allowance: 0,
        amount_minted: 0,
        is_initialized: false,
        bump: 0,
    }
}

fn config() -> Account<Config> {
    let (address, bump) = found(&[b"config"]);
    let (mint, mint_bump) = found(&[b"mint"]);
    Account { address, data: Config { admin: admin(), mint, paused: false, bump, mint_bump } }
}

fn configured(allowance: u64) -> Account<MinterConfig> {
    let (address, _) = found(&[b"minter", &minter().bytes]);
    let mut accounts = ConfigureMinter {
        admin: admin(),
        config: config(),
        minter: minter(),
        minter_config: Account { address, data: zeroed() },
    };
    configure_minter(&program(), &mut accounts, allowance).unwrap();
    accounts.minter_config
}

fn mint_accounts(allowance: u64) -> MintTokens {
    let mint = config().data.mint;
    let address = get_associated_token_address(&user(), &mint, &token_2022()).unwrap();
    MintTokens {
        minter: minter(),
        config: config(),
        minter_config: configured(allowance),
        mint,
        destination: TokenAccount { address, token_program: token_2022(), mint, owner: user() },
        destination_owner: user(),
    }
}

fn burn_accounts() -> BurnTokens {
    let minted = mint_accounts(0);
    BurnTokens {
        owner: user(),
        config: minted.config,
        mint: minted.mint,
        token_account: minted.destination,
    }
}

fn rule<T>(e: StablecoinError) -> Result<T, Rejection<StablecoinError>> {
    Err(Rejection::Program(e))
}

fn account<T>(e: AccountError) -> Result<T, Rejection<StablecoinError>> {
    Err(Rejection::Account(e))
}

#[test]
fn initialize_sets_up_config_and_mint() {
    let (config_address, bump) = found(&[b"config"]);
    let (mint, mint_bump) = found(&[b"mint"]);
    let accounts = Initialize { admin: admin(), config: config_address, mint };
    let done = initialize(&program(), &accounts, 1_461_600).unwrap();
    assert_eq!(
        done.config,
        Config { admin: admin(), mint, paused: false, bump, mint_bump }
    );
    assert_eq!(done.create_mint.from, admin());
    assert_eq!(done.create_mint.to, mint);
    assert_eq!(done.create_mint.lamports, 1_461_600);
    assert_eq!(done.create_mint.space, 82);
    assert_eq!(done.create_mint.owner, token_2022());
    assert_eq!(done.create_mint.signer_seeds, vec![b"mint".to_vec(), vec![mint_bump]]);
    assert_eq!(done.initialize_mint.token_program, token_2022());
    assert_eq!(done.initialize_mint.mint, mint);
    assert_eq!(done.initialize_mint.decimals, 6);
    assert_eq!(done.initialize_mint.mint_authority, config_address);
    assert_eq!(done.initialize_mint.freeze_authority, Some(config_address));
}

#[test]
fn initialize_refuses_other_addresses() {
    let good = Initialize {
        admin: admin(),
        config: found(&[b"config"]).0,
        mint: found(&[b"mint"]).0,
    };
    let wrong_config = Initialize { config: key(9), ..good };
    let wrong_mint = Initialize { mint: key(9), ..good };
    assert_eq!(initialize(&program(), &wrong_config, 1), account(AccountError::ConstraintSeeds));
    assert_eq!(initialize(&program(), &wrong_mint, 1), account(AccountError::ConstraintSeeds));
    assert_eq!(
        initialize_at(&good, None, Some((good.mint, 1)), 1),
        account(AccountError::ConstraintSeeds)
    );
    let done = initialize_at(&good, Some((good.config, 7)), Some((good.mint, 8)), 1).unwrap();
    assert_eq!((done.config.bump, done.config.mint_bump), (7, 8));
}

#[test]
fn configure_minter_grants_and_regrants() {
    let (_, bump) = found(&[b"minter", &minter().bytes]);
    let first = configured(500);
    assert_eq!(
        first.data,
        MinterConfig {
            minter: minter(),
            allowance: 500,
            amount_minted: 0,
            is_initialized: true,
            bump
        }
    );
    // A minter that already exists keeps what it has minted.
    let mut again = ConfigureMinter {
        admin: admin(),
        config: config(),
        minter: minter(),
        minter_config: first,
    };
    again.minter_config.data.amount_minted = 300;
    configure_minter(&program(), &mut again, 50).unwrap();
    assert_eq!(again.minter_config.data, MinterConfig {
        allowance: 50,
        amount_minted: 300,
        ..first.data
    });
}

#[test]
fn configure_minter_errors() {
    let mut accounts = ConfigureMinter {
        admin: key(8),
        config: config(),
        minter: minter(),
        minter_config: configured(5),
    };
    let before = accounts;
    assert_eq!(
        configure_minter(&program(), &mut accounts, 9),
        rule(StablecoinError::Unauthorized)
    );
    assert_eq!(accounts, before);
    accounts.admin = admin();
    accounts.config.address = key(7);
    assert_eq!(
        configure_minter(&program(), &mut accounts, 9),
        account(AccountError::ConstraintSeeds)
    );
    accounts.config = config();
    accounts.minter = key(6);
    assert_eq!(
        configure_minter(&program(), &mut accounts, 9),
        account(AccountError::ConstraintSeeds)
    );
    // The account to be created is checked before the signer is.
    accounts.admin = key(8);
    assert_eq!(
        configure_minter_at(&mut accounts, 9, None, None),
        account(AccountError::ConstraintSeeds)
    );
}

#[test]
fn remove_minter_closes_the_account() {
    let accounts = RemoveMinter {
        admin: admin(),
        config: config(),
        minter: minter(),
        minter_config: configured(5),
    };
    assert_eq!(
        remove_minter(&program(), &accounts),
        Ok(CloseAccount { account: accounts.minter_config.address, destination: admin() })
    );
}

#[test]
fn remove_minter_errors() {
    let good = RemoveMinter {
        admin: admin(),
        config: config(),
        minter: minter(),
        minter_config: configured(5),
    };
    let stranger = RemoveMinter { admin: key(8), ..good };
    assert_eq!(remove_minter(&program(), &stranger), rule(StablecoinError::Unauthorized));
    let other_minter = RemoveMinter { minter: key(6), ..good };
    assert_eq!(
        remove_minter(&program(), &other_minter),
        account(AccountError::ConstraintSeeds)
    );
    let mut other_bump = good;
    other_bump.config.data.bump ^= 1;
    assert_eq!(remove_minter(&program(), &other_bump), account(AccountError::ConstraintSeeds));
    // The balance cannot go to the account that is closed.
    let mut own = good;
    own.admin = own.minter_config.address;
    own.config.data.admin = own.admin;
    assert_eq!(remove_minter(&program(), &own), account(AccountError::ConstraintClose));
    assert_eq!(
        remove_minter_at(&good, Some(good.config.address), None),
        account(AccountError::ConstraintSeeds)
    );
}

#[test]
fn mint_tokens_draws_on_the_allowance() {
    let mut accounts = mint_accounts(1_000);
    let (config_address, bump) = found(&[b"config"]);
    assert_eq!(
        mint_tokens(&program(), &mut accounts, 600),
        Ok(MintTo {
            token_program: token_2022(),
            mint: accounts.mint,
            to: accounts.destination.address,
            authority: config_address,
            amount: 600,
            signer_seeds: vec![b"config".to_vec(), vec![bump]],
        })
    );
    assert_eq!(accounts.minter_config.data.amount_minted, 600);
    let before = accounts;
    assert_eq!(
        mint_tokens(&program(), &mut accounts, 401),
        rule(StablecoinError::ExceedsAllowance)
    );
    assert_eq!(accounts, before);
    assert!(mint_tokens(&program(), &mut accounts, 400).is_ok());
    assert_eq!(accounts.minter_config.data.amount_minted, 1_000);
    assert!(mint_tokens(&program(), &mut accounts, 0).is_ok());
    assert_eq!(
        mint_tokens(&program(), &mut accounts, 1),
        rule(StablecoinError::ExceedsAllowance)
    );
}

#[test]
fn minting_for_several_users_draws_on_one_allowance() {
    let mut accounts = mint_accounts(1_000);
    mint_tokens(&program(), &mut accounts, 600).unwrap();
    let mut second = mint_accounts(1_000);
    second.minter_config = accounts.minter_config;
    second.destination_owner = key(30);
    second.destination.owner = key(30);
    second.destination.address =
        get_associated_token_address(&key(30), &second.mint, &token_2022()).unwrap();
    assert_eq!(
        mint_tokens(&program(), &mut second, 401),
        rule(StablecoinError::ExceedsAllowance)
    );
    assert!(mint_tokens(&program(), &mut second, 400).is_ok());
    assert_eq!(second.minter_config.data.amount_minted, 1_000);
}

#[test]
fn minted_total_outlives_reconfiguration() {
    let mut minting = mint_accounts(1_000);
    let mut requested = 0;
    for (amount, allowance) in [(600, 700), (100, 50), (1, 5_000), (4_000, 4_700)] {
        if let Ok(request) = mint_tokens(&program(), &mut minting, amount) {
            requested += request.amount;
        }
        let mut granting = ConfigureMinter {
            admin: admin(),
            config: config(),
            minter: minter(),
            minter_config: minting.minter_config,
        };
        configure_minter(&program(), &mut granting, allowance).unwrap();
        minting.minter_config = granting.minter_config;
    }
    assert_eq!(requested, 4_700);
    assert_eq!(minting.minter_config.data.amount_minted, requested);
}

#[test]
fn the_whole_range_can_be_minted_without_overflow() {
    let mut accounts = mint_accounts(u64::MAX);
    assert!(mint_tokens(&program(), &mut accounts, u64::MAX).is_ok());
    assert_eq!(
        mint_tokens(&program(), &mut accounts, u64::MAX),
        rule(StablecoinError::ExceedsAllowance)
    );
}

#[test]
fn lowered_allowance_stops_even_empty_mints() {
    let mut accounts = mint_accounts(1_000);
    mint_tokens(&program(), &mut accounts, 600).unwrap();
    accounts.minter_config.data.allowance = 599;
    assert_eq!(
        mint_tokens(&program(), &mut accounts, 0),
        rule(StablecoinError::ExceedsAllowance)
    );
}

#[test]
fn mint_tokens_account_errors() {
    let good = mint_accounts(1_000);
    let mut a = good;
    a.destination.mint = key(9);
    assert_eq!(
        mint_tokens(&program(), &mut a, 1),
        account(AccountError::ConstraintTokenMint)
    );
    a = good;
    a.destination_owner = key(9);
    assert_eq!(
        mint_tokens(&program(), &mut a, 1),
        account(AccountError::ConstraintTokenOwner)
    );
    a = good;
    a.destination.token_program = key(9);
    assert_eq!(
        mint_tokens(&program(), &mut a, 1),
        account(AccountError::ConstraintAssociatedTokenTokenProgram)
    );
    a = good;
    a.destination.address = key(9);
    assert_eq!(
        mint_tokens(&program(), &mut a, 1),
        account(AccountError::AccountNotAssociatedTokenAccount)
    );
    a = good;
    a.config.address = key(9);
    assert_eq!(mint_tokens(&program(), &mut a, 1), account(AccountError::ConstraintSeeds));
    a = good;
    a.minter = key(9);
    assert_eq!(mint_tokens(&program(), &mut a, 1), account(AccountError::ConstraintSeeds));
    a = good;
    a.minter_config.data.is_initialized = false;
    assert_eq!(mint_tokens(&program(), &mut a, 1), rule(StablecoinError::NotMinter));
    a = good;
    a.config.data.mint_bump ^= 1;
    assert_eq!(mint_tokens(&program(), &mut a, 1), account(AccountError::ConstraintSeeds));
    a = good;
    a.config.data.paused = true;
    assert_eq!(mint_tokens(&program(), &mut a, 9_999), rule(StablecoinError::Paused));
}

#[test]
fn mint_tokens_at_takes_the_derived_addresses() {
    let mut accounts = mint_accounts(10);
    accounts.config.address = key(20);
    accounts.minter_config.address = key(21);
    accounts.mint = key(22);
    accounts.destination.address = key(23);
    accounts.destination.mint = key(22);
    let addresses = MintAddresses {
        destination: Some(key(23)),
        config: Some(key(20)),
        minter_config: Some(key(21)),
        mint: Some(key(22)),
    };
    let request = mint_tokens_at(&mut accounts, 10, &addresses).unwrap();
    assert_eq!((request.to, request.authority), (key(23), key(20)));
    let off = MintAddresses { mint: None, ..addresses };
    assert_eq!(
        mint_tokens_at(&mut accounts, 0, &off),
        account(AccountError::ConstraintSeeds)
    );
}

#[test]
fn burn_tokens_needs_no_authority_but_the_owner() {
    let mut accounts = burn_accounts();
    let expected = Burn {
        token_program: token_2022(),
        mint: accounts.mint,
        from: accounts.token_account.address,
        authority: user(),
        amount: 77,
    };
    assert_eq!(burn_tokens(&program(), &accounts, 77), Ok(expected));
    accounts.config.data.paused = true;
    assert_eq!(burn_tokens(&program(), &accounts, 77), Ok(expected));
}

#[test]
fn burn_tokens_errors() {
    let good = burn_accounts();
    let mut a = good;
    a.config.address = key(9);
    assert_eq!(burn_tokens(&program(), &a, 1), account(AccountError::ConstraintSeeds));
    a = good;
    a.mint = key(9);
    assert_eq!(burn_tokens(&program(), &a, 1), account(AccountError::ConstraintSeeds));
    a = good;
    a.token_account.token_program = key(9);
    assert_eq!(
        burn_tokens(&program(), &a, 1),
        account(AccountError::ConstraintAssociatedTokenTokenProgram)
    );
    a = good;
    a.owner = key(9);
    assert_eq!(burn_tokens(&program(), &a, 1), account(AccountError::ConstraintTokenOwner));
    a = good;
    a.token_account.address = key(9);
    assert_eq!(burn_tokens(&program(), &a, 1), account(AccountError::ConstraintAssociated));
    assert_eq!(
        burn_tokens_at(&good, 1, Some(good.config.address), None, None),
        account(AccountError::ConstraintSeeds)
    );
}

#[test]
fn pause_stops_minting_and_unpause_undoes_it() {
    let mut paused = Pause { admin: admin(), config: config() };
    pause(&program(), &mut paused).unwrap();
    assert!(paused.config.data.paused);
    let mut minting = mint_accounts(10);
    minting.config = paused.config;
    assert_eq!(mint_tokens(&program(), &mut minting, 1), rule(StablecoinError::Paused));
    let mut unpaused = Unpause { admin: admin(), config: paused.config };
    unpause(&program(), &mut unpaused).unwrap();
    assert_eq!(unpaused.config, config());
}

#[test]
fn only_the_admin_pauses() {
    let mut accounts = Pause { admin: key(8), config: config() };
    assert_eq!(pause(&program(), &mut accounts), rule(StablecoinError::Unauthorized));
    assert_eq!(accounts.config, config());
    let mut back = Unpause { admin: key(8), config: config() };
    assert_eq!(unpause(&program(), &mut back), rule(StablecoinError::Unauthorized));
    let mut moved = config();
    moved.address = key(9);
    assert_eq!(
        switch_at(&admin(), &mut moved, true, Some(config().address)),
        account(AccountError::ConstraintSeeds)
    );
}

#[test]
fn stablecoin_error_messages() {
    assert_eq!(
        StablecoinError::Unauthorized.message(),
        "You are not authorized to perform this action"
    );
    assert_eq!(StablecoinError::Paused.message(), "Minting is currently paused");
    assert_eq!(
        StablecoinError::ExceedsAllowance.message(),
        "Mint amount exceeds minter's remaining allowance"
    );
    assert_eq!(StablecoinError::NotMinter.message(), "Account is not an authorized minter");
    assert_eq!(StablecoinError::Overflow.message(), "Arithmetic overflow");
}

#[test]
fn minter_addresses_come_from_the_minter() {
    let seeds = vec![b"minter".to_vec(), minter().bytes.to_vec()];
    assert_eq!(find_address(&seeds, &program()), Some(found(&[b"minter", &minter().bytes])));
}
