//! A stablecoin whose admin grants minters a capped allowance and can pause minting.

use vstd::prelude::*;

use crate::accounts::{
    associated_fault, associated_token_address, check_associated, check_ensured, ensured_fault,
    get_associated_token_address, token_2022_program, Account, AccountError, Burn, CloseAccount,
    CreateAccount, InitializeMint, MintTo, Rejection, TokenAccount, TOKEN_2022_PROGRAM,
};
use crate::keys::{
    address_at, at_found, bump_at, canonical_address, derive_at, find_address, found_view,
    key_view, lives_at, one_seed, two_seeds, with_bump, Pubkey,
};

verus! {

/// The seed `config` of the configuration account.
pub const CONFIG_SEED: [u8; 6] = [99, 111, 110, 102, 105, 103];

/// The seed `mint` of the stablecoin's mint.
pub const MINT_SEED: [u8; 4] = [109, 105, 110, 116];

/// The seed `minter` of a minter's configuration account.
pub const MINTER_SEED: [u8; 6] = [109, 105, 110, 116, 101, 114];

/// Decimals of the stablecoin.
pub const MINT_DECIMALS: u8 = 6;

/// Bytes of a mint account without extensions.
pub const MINT_SPACE: u64 = 82;

/// Config account that stores the stablecoin configuration.
#[derive(Debug, Clone, Copy, PartialEq, Eq)]
pub struct Config {
    /// The admin who can configure minters.
    pub admin: Pubkey,
    /// The mint address of the stablecoin.
    pub mint: Pubkey,
    /// Whether minting is paused.
    pub paused: bool,
    /// Bump seed for the config address.
    pub bump: u8,
    /// Bump seed for the mint address.
    pub mint_bump: u8,
}

/// Minter configuration account; each authorized minter has one with an allowance.
#[derive(Debug, Clone, Copy, PartialEq, Eq)]
pub struct MinterConfig {
    /// The minter's public key.
    pub minter: Pubkey,
    /// Maximum amount the minter can mint in total.
    pub allowance: u64,
    /// Amount already minted by this minter.
    pub amount_minted: u64,
    /// Whether this account has been initialized.
    pub is_initialized: bool,
    /// Bump seed for this address.
    pub bump: u8,
}

/// Accounts of [`initialize`].
#[derive(Debug, Clone, Copy, PartialEq, Eq)]
pub struct Initialize {
    /// The future admin, who signs and pays.
    pub admin: Pubkey,
    /// The fresh configuration account.
    pub config: Pubkey,
    /// The fresh mint account.
    pub mint: Pubkey,
}

/// Accounts of [`configure_minter`].
#[derive(Debug, Clone, Copy, PartialEq, Eq)]
pub struct ConfigureMinter {
    /// The signer who acts as admin.
    pub admin: Pubkey,
    pub config: Account<Config>,
    /// The minter being configured.
    pub minter: Pubkey,
    /// The minter's configuration, zeroed if it was created just now.
    pub minter_config: Account<MinterConfig>,
}

/// Accounts of [`remove_minter`].
#[derive(Debug, Clone, Copy, PartialEq, Eq)]
pub struct RemoveMinter {
    /// The signer who acts as admin.
    pub admin: Pubkey,
    pub config: Account<Config>,
    /// The minter being removed.
    pub minter: Pubkey,
    pub minter_config: Account<MinterConfig>,
}

/// Accounts of [`mint_tokens`].
#[derive(Debug, Clone, Copy, PartialEq, Eq)]
pub struct MintTokens {
    /// The signer who acts as minter.
    pub minter: Pubkey,
    pub config: Account<Config>,
    pub minter_config: Account<MinterConfig>,
    /// The stablecoin mint.
    pub mint: Pubkey,
    /// The token account to mint to.
    pub destination: TokenAccount,
    /// The owner of the destination.
    pub destination_owner: Pubkey,
}

/// Accounts of [`burn_tokens`].
#[derive(Debug, Clone, Copy, PartialEq, Eq)]
pub struct BurnTokens {
    /// The signer who owns the tokens.
    pub owner: Pubkey,
    pub config: Account<Config>,
    /// The stablecoin mint.
    pub mint: Pubkey,
    /// The token account to burn from.
    pub token_account: TokenAccount,
}

/// Accounts of [`pause`].
#[derive(Debug, Clone, Copy, PartialEq, Eq)]
pub struct Pause {
    /// The signer who acts as admin.
    pub admin: Pubkey,
    pub config: Account<Config>,
}

/// Accounts of [`unpause`].
#[derive(Debug, Clone, Copy, PartialEq, Eq)]
pub struct Unpause {
    /// The signer who acts as admin.
    pub admin: Pubkey,
    pub config: Account<Config>,
}

/// Failures of the stablecoin's own rules.
#[derive(Debug, Clone, Copy, PartialEq, Eq, Structural)]
pub enum StablecoinError {
    /// The signer is not the admin.
    Unauthorized,
    /// Minting is paused.
    Paused,
    /// The amount exceeds what is left of the allowance.
    ExceedsAllowance,
    /// The account is not an authorized minter.
    NotMinter,
    /// The minted total would overflow.
    Overflow,
}

impl StablecoinError {
    /// The text shown to a user for each failure.
    pub open spec fn text(self) -> Seq<char> {
        match self {
            StablecoinError::Unauthorized => "You are not authorized to perform this action"@,
            StablecoinError::Paused => "Minting is currently paused"@,
            StablecoinError::ExceedsAllowance => "Mint amount exceeds minter's remaining allowance"@,
            StablecoinError::NotMinter => "Account is not an authorized minter"@,
            StablecoinError::Overflow => "Arithmetic overflow"@,
        }
    }

    /// The text of the failure.
    pub fn message(&self) -> (text: &'static str)
        ensures
            text@ == self.text(),
    {
        match self {
            StablecoinError::Unauthorized => "You are not authorized to perform this action",
            StablecoinError::Paused => "Minting is currently paused",
            StablecoinError::ExceedsAllowance => "Mint amount exceeds minter's remaining allowance",
            StablecoinError::NotMinter => "Account is not an authorized minter",
            StablecoinError::Overflow => "Arithmetic overflow",
        }
    }
}

/// The seeds of the configuration account.
pub open spec fn config_seeds() -> Seq<Seq<u8>> {
    seq![CONFIG_SEED@]
}

/// The seeds of the mint.
pub open spec fn mint_seeds() -> Seq<Seq<u8>> {
    seq![MINT_SEED@]
}

/// The seeds of a minter's configuration account.
pub open spec fn minter_seeds(minter: Pubkey) -> Seq<Seq<u8>> {
    seq![MINTER_SEED@, minter@]
}

/// A rule of the program refuses.
pub open spec fn by_rule(e: StablecoinError) -> Option<Rejection<StablecoinError>> {
    Some(Rejection::Program(e))
}

/// A rule on the accounts refuses.
pub open spec fn by_account(e: AccountError) -> Option<Rejection<StablecoinError>> {
    Some(Rejection::Account(e))
}

/// What [`initialize`] sets up.
#[derive(Debug, Clone, PartialEq, Eq)]
pub struct Initialized {
    /// The content of the configuration account.
    pub config: Config,
    /// The request that creates the mint account.
    pub create_mint: CreateAccount,
    /// The request that makes it the stablecoin's mint.
    pub initialize_mint: InitializeMint,
}

/// Why [`initialize`] is refused, if it is, given the canonical addresses of the config
/// and of the mint.
pub open spec fn initialize_refusal(
    accounts: Initialize,
    config: Option<(Seq<u8>, u8)>,
    mint: Option<(Seq<u8>, u8)>,
) -> Option<Rejection<StablecoinError>> {
    if !at_found(accounts.config, config) || !at_found(accounts.mint, mint) {
        by_account(AccountError::ConstraintSeeds)
    } else {
        None
    }
}

/// What [`initialize`] sets up with the given bumps.
pub open spec fn initializes(
    done: Initialized,
    accounts: Initialize,
    bump: u8,
    mint_bump: u8,
    mint_rent: u64,
) -> bool {
    &&& done.config == (Config {
        admin: accounts.admin,
        mint: accounts.mint,
        paused: false,
        bump,
        mint_bump,
    })
    &&& done.create_mint.from == accounts.admin
    &&& done.create_mint.to == accounts.mint
    &&& done.create_mint.lamports == mint_rent
    &&& done.create_mint.space == MINT_SPACE
    &&& done.create_mint.owner@ == TOKEN_2022_PROGRAM@
    &&& done.create_mint.signer_seeds.deep_view() == mint_seeds().push(seq![mint_bump])
    &&& done.initialize_mint.token_program@ == TOKEN_2022_PROGRAM@
    &&& done.initialize_mint.mint == accounts.mint
    &&& done.initialize_mint.decimals == MINT_DECIMALS
    &&& done.initialize_mint.mint_authority == accounts.config
    &&& done.initialize_mint.freeze_authority == Some(accounts.config)
}

/// The outcome of [`initialize`], given the canonical addresses of the config and of the
/// mint.
pub open spec fn initialize_outcome(
    r: Result<Initialized, Rejection<StablecoinError>>,
    accounts: Initialize,
    config: Option<(Seq<u8>, u8)>,
    mint: Option<(Seq<u8>, u8)>,
    mint_rent: u64,
) -> bool {
    match r {
        Err(e) => initialize_refusal(accounts, config, mint) == Some(e),
        Ok(done) => {
            &&& initialize_refusal(accounts, config, mint) is None
            &&& config matches Some((_, bump))
            &&& mint matches Some((_, mint_bump))
            &&& initializes(done, accounts, bump, mint_bump, mint_rent)
        },
    }
}

/// Initialize the stablecoin, given the canonical addresses found for the config and for
/// the mint.
pub fn initialize_at(
    accounts: &Initialize,
    config: Option<(Pubkey, u8)>,
    mint: Option<(Pubkey, u8)>,
    mint_rent: u64,
) -> (r: Result<Initialized, Rejection<StablecoinError>>)
    ensures
        initialize_outcome(r, *accounts, found_view(config), found_view(mint), mint_rent),
{
    let bump = match bump_at(&accounts.config, &config) {
        Some(bump) => bump,
        None => return Err(Rejection::Account(AccountError::ConstraintSeeds)),
    };
    let mint_bump = match bump_at(&accounts.mint, &mint) {
        Some(bump) => bump,
        None => return Err(Rejection::Account(AccountError::ConstraintSeeds)),
    };
    Ok(
        Initialized {
            config: Config {
                admin: accounts.admin,
                mint: accounts.mint,
                paused: false,
                bump,
                mint_bump,
            },
            create_mint: CreateAccount {
                from: accounts.admin,
                to: accounts.mint,
                lamports: mint_rent,
                space: MINT_SPACE,
                owner: token_2022_program(),
                signer_seeds: with_bump(one_seed(&MINT_SEED), mint_bump),
            },
            initialize_mint: InitializeMint {
                token_program: token_2022_program(),
                mint: accounts.mint,
                decimals: MINT_DECIMALS,
                mint_authority: accounts.config,
                freeze_authority: Some(accounts.config),
            },
        },
    )
}

/// Initialize the stablecoin's config and mint.
///
/// The mint is a new Token-2022 mint with the config account as mint authority and
/// freeze authority; `mint_rent` is the balance that keeps its account alive.
pub fn initialize(program_id: &Pubkey, accounts: &Initialize, mint_rent: u64) -> (r: Result<
    Initialized,
    Rejection<StablecoinError>,
>)
    ensures
        initialize_outcome(
            r,
            *accounts,
            canonical_address(config_seeds(), program_id@),
            canonical_address(mint_seeds(), program_id@),
            mint_rent,
        ),
{
    let config = find_address(&one_seed(&CONFIG_SEED), program_id);
    let mint = find_address(&one_seed(&MINT_SEED), program_id);
    initialize_at(accounts, config, mint, mint_rent)
}

/// The address that a config's own bump derives.
pub open spec fn config_address(program_id: Pubkey, config: Account<Config>) -> Option<Seq<u8>> {
    address_at(config_seeds(), config.data.bump, program_id@)
}

/// The address that a config's bump derives for the mint.
pub open spec fn mint_address(program_id: Pubkey, config: Account<Config>) -> Option<Seq<u8>> {
    address_at(mint_seeds(), config.data.mint_bump, program_id@)
}

/// The address that a minter config's own bump derives.
pub open spec fn minter_config_address(
    program_id: Pubkey,
    minter: Pubkey,
    minter_config: Account<MinterConfig>,
) -> Option<Seq<u8>> {
    address_at(minter_seeds(minter), minter_config.data.bump, program_id@)
}

/// Derive the address of a config.
fn derive_config(program_id: &Pubkey, config: &Account<Config>) -> (r: Option<Pubkey>)
    ensures
        key_view(r) == config_address(*program_id, *config),
{
    derive_at(one_seed(&CONFIG_SEED), config.data.bump, program_id)
}

/// Derive the address of the mint.
fn derive_mint(program_id: &Pubkey, config: &Account<Config>) -> (r: Option<Pubkey>)
    ensures
        key_view(r) == mint_address(*program_id, *config),
{
    derive_at(one_seed(&MINT_SEED), config.data.mint_bump, program_id)
}

/// Derive the address of a minter's config.
fn derive_minter_config(
    program_id: &Pubkey,
    minter: &Pubkey,
    minter_config: &Account<MinterConfig>,
) -> (r: Option<Pubkey>)
    ensures
        key_view(r) == minter_config_address(*program_id, *minter, *minter_config),
{
    derive_at(two_seeds(&MINTER_SEED, &minter.bytes), minter_config.data.bump, program_id)
}

/// Why a signer may not act as admin of a config that should live at `expected`, if it
/// may not.
pub open spec fn admin_refusal(
    admin: Pubkey,
    config: Account<Config>,
    expected: Option<Seq<u8>>,
) -> Option<Rejection<StablecoinError>> {
    if admin@ != config.data.admin@ {
        by_rule(StablecoinError::Unauthorized)
    } else if expected != Some(config.address@) {
        by_account(AccountError::ConstraintSeeds)
    } else {
        None
    }
}

/// Check that a signer may act as admin.
fn check_admin(admin: &Pubkey, config: &Account<Config>, expected: &Option<Pubkey>) -> (r: Option<
    Rejection<StablecoinError>,
>)
    ensures
        r == admin_refusal(*admin, *config, key_view(*expected)),
{
    if *admin != config.data.admin {
        return Some(Rejection::Program(StablecoinError::Unauthorized));
    }
    if !lives_at(&config.address, expected) {
        return Some(Rejection::Account(AccountError::ConstraintSeeds));
    }
    None
}

/// Why [`configure_minter`] is refused, if it is, given the canonical address of the
/// minter's config and the address of the config.
pub open spec fn configure_refusal(
    accounts: ConfigureMinter,
    minter_config: Option<(Seq<u8>, u8)>,
    config: Option<Seq<u8>>,
) -> Option<Rejection<StablecoinError>> {
    if !at_found(accounts.minter_config.address, minter_config) {
        by_account(AccountError::ConstraintSeeds)
    } else {
        admin_refusal(accounts.admin, accounts.config, config)
    }
}

/// A minter's configuration after the admin has granted `allowance`.
pub open spec fn configured(
    minter: Pubkey,
    before: MinterConfig,
    bump: u8,
    allowance: u64,
) -> MinterConfig {
    if before.is_initialized {
        MinterConfig { allowance, ..before }
    } else {
        MinterConfig { minter, allowance, amount_minted: 0, is_initialized: true, bump }
    }
}

/// The outcome of [`configure_minter`], given the canonical address of the minter's config
/// and the address of the config.
pub open spec fn configure_outcome(
    r: Result<(), Rejection<StablecoinError>>,
    before: ConfigureMinter,
    after: ConfigureMinter,
    allowance: u64,
    minter_config: Option<(Seq<u8>, u8)>,
    config: Option<Seq<u8>>,
) -> bool {
    match r {
        Err(e) => {
            &&& configure_refusal(before, minter_config, config) == Some(e)
            &&& after == before
        },
        Ok(_) => {
            &&& configure_refusal(before, minter_config, config) is None
            &&& minter_config matches Some((_, bump))
            &&& after == (ConfigureMinter {
                minter_config: Account {
                    address: before.minter_config.address,
                    data: configured(before.minter, before.minter_config.data, bump, allowance),
                },
                ..before
            })
        },
    }
}

/// Configure a minter, given the canonical address found for its config and the address
/// derived for the config.
pub fn configure_minter_at(
    accounts: &mut ConfigureMinter,
    allowance: u64,
    minter_config: Option<(Pubkey, u8)>,
    config: Option<Pubkey>,
) -> (r: Result<(), Rejection<StablecoinError>>)
    ensures
        configure_outcome(
            r,
            *old(accounts),
            *final(accounts),
            allowance,
            found_view(minter_config),
            key_view(config),
        ),
{
    let bump = match bump_at(&accounts.minter_config.address, &minter_config) {
        Some(bump) => bump,
        None => return Err(Rejection::Account(AccountError::ConstraintSeeds)),
    };
    if let Some(e) = check_admin(&accounts.admin, &accounts.config, &config) {
        return Err(e);
    }
    if !accounts.minter_config.data.is_initialized {
        accounts.minter_config.data.minter = accounts.minter;
        accounts.minter_config.data.amount_minted = 0;
        accounts.minter_config.data.is_initialized = true;
        accounts.minter_config.data.bump = bump;
    }
    accounts.minter_config.data.allowance = allowance;
    Ok(())
}

/// Configure a minter with a specific allowance.
///
/// Only the admin can do this. A minter that already exists keeps its minted total and
/// gets the new allowance.
pub fn configure_minter(
    program_id: &Pubkey,
    accounts: &mut ConfigureMinter,
    allowance: u64,
) -> (r: Result<(), Rejection<StablecoinError>>)
    ensures
        configure_outcome(
            r,
            *old(accounts),
            *final(accounts),
            allowance,
            canonical_address(minter_seeds(old(accounts).minter), program_id@),
            config_address(*program_id, old(accounts).config),
        ),
{
    let seeds = two_seeds(&MINTER_SEED, &accounts.minter.bytes);
    let minter_config = find_address(&seeds, program_id);
    let config = derive_config(program_id, &accounts.config);
    configure_minter_at(accounts, allowance, minter_config, config)
}

/// Why [`remove_minter`] is refused, if it is, given the addresses of the config and of
/// the minter's config.
pub open spec fn remove_refusal(
    accounts: RemoveMinter,
    config: Option<Seq<u8>>,
    minter_config: Option<Seq<u8>>,
) -> Option<Rejection<StablecoinError>> {
    if let Some(e) = admin_refusal(accounts.admin, accounts.config, config) {
        Some(e)
    } else if minter_config != Some(accounts.minter_config.address@) {
        by_account(AccountError::ConstraintSeeds)
    } else if accounts.minter_config.address@ == accounts.admin@ {
        by_account(AccountError::ConstraintClose)
    } else {
        None
    }
}

/// The outcome of [`remove_minter`], given the addresses of the config and of the
/// minter's config.
pub open spec fn remove_outcome(
    r: Result<CloseAccount, Rejection<StablecoinError>>,
    accounts: RemoveMinter,
    config: Option<Seq<u8>>,
    minter_config: Option<Seq<u8>>,
) -> bool {
    match r {
        Err(e) => remove_refusal(accounts, config, minter_config) == Some(e),
        Ok(close) => {
            &&& remove_refusal(accounts, config, minter_config) is None
            &&& close == (CloseAccount {
                account: accounts.minter_config.address,
                destination: accounts.admin,
            })
        },
    }
}

/// Remove a minter, given the addresses derived for the config and for the minter's
/// config.
pub fn remove_minter_at(
    accounts: &RemoveMinter,
    config: Option<Pubkey>,
    minter_config: Option<Pubkey>,
) -> (r: Result<CloseAccount, Rejection<StablecoinError>>)
    ensures
        remove_outcome(r, *accounts, key_view(config), key_view(minter_config)),
{
    if let Some(e) = check_admin(&accounts.admin, &accounts.config, &config) {
        return Err(e);
    }
    if !lives_at(&accounts.minter_config.address, &minter_config) {
        return Err(Rejection::Account(AccountError::ConstraintSeeds));
    }
    if accounts.minter_config.address == accounts.admin {
        return Err(Rejection::Account(AccountError::ConstraintClose));
    }
    Ok(CloseAccount { account: accounts.minter_config.address, destination: accounts.admin })
}

/// Remove a minter's authorization.
///
/// Only the admin can do this. The minter's configuration is closed and its balance
/// goes to the admin.
pub fn remove_minter(program_id: &Pubkey, accounts: &RemoveMinter) -> (r: Result<
    CloseAccount,
    Rejection<StablecoinError>,
>)
    ensures
        remove_outcome(
            r,
            *accounts,
            config_address(*program_id, accounts.config),
            minter_config_address(*program_id, accounts.minter, accounts.minter_config),
        ),
{
    let config = derive_config(program_id, &accounts.config);
    let minter_config = derive_minter_config(
        program_id,
        &accounts.minter,
        &accounts.minter_config,
    );
    remove_minter_at(accounts, config, minter_config)
}

/// Whether the allowance rule lets a minter mint `amount` more.
pub open spec fn within_allowance(minter_config: MinterConfig, amount: u64) -> bool {
    minter_config.amount_minted + amount <= minter_config.allowance
}

/// A minter's configuration after minting `amount` more.
pub open spec fn after_mint(minter_config: MinterConfig, amount: u64) -> MinterConfig {
    MinterConfig { amount_minted: (minter_config.amount_minted + amount) as u64, ..minter_config }
}

/// The addresses at which the accounts of [`mint_tokens`] should live.
#[derive(Debug, Clone, Copy, PartialEq, Eq)]
pub struct MintAddresses {
    pub destination: Option<Pubkey>,
    pub config: Option<Pubkey>,
    pub minter_config: Option<Pubkey>,
    pub mint: Option<Pubkey>,
}

/// The bytes of those addresses.
pub struct MintAddressBytes {
    pub destination: Option<Seq<u8>>,
    pub config: Option<Seq<u8>>,
    pub minter_config: Option<Seq<u8>>,
    pub mint: Option<Seq<u8>>,
}

impl View for MintAddresses {
    type V = MintAddressBytes;

    open spec fn view(&self) -> MintAddressBytes {
        MintAddressBytes {
            destination: key_view(self.destination),
            config: key_view(self.config),
            minter_config: key_view(self.minter_config),
            mint: key_view(self.mint),
        }
    }
}

/// The addresses that the accounts of [`mint_tokens`] are held to.
pub open spec fn mint_addresses(program_id: Pubkey, accounts: MintTokens) -> MintAddressBytes {
    MintAddressBytes {
        destination: associated_token_address(
            accounts.destination_owner@,
            accounts.mint@,
            TOKEN_2022_PROGRAM@,
        ),
        config: config_address(program_id, accounts.config),
        minter_config: minter_config_address(program_id, accounts.minter, accounts.minter_config),
        mint: mint_address(program_id, accounts.config),
    }
}

/// Why [`mint_tokens`] is refused for its accounts, if it is.
pub open spec fn mint_account_refusal(
    accounts: MintTokens,
    addresses: MintAddressBytes,
) -> Option<Rejection<StablecoinError>> {
    if let Some(e) = ensured_fault(
        accounts.destination,
        accounts.destination_owner@,
        accounts.mint@,
        TOKEN_2022_PROGRAM@,
        addresses.destination,
    ) {
        by_account(e)
    } else if addresses.config != Some(accounts.config.address@) {
        by_account(AccountError::ConstraintSeeds)
    } else if addresses.minter_config != Some(accounts.minter_config.address@) {
        by_account(AccountError::ConstraintSeeds)
    } else if !accounts.minter_config.data.is_initialized {
        by_rule(StablecoinError::NotMinter)
    } else if addresses.mint != Some(accounts.mint@) {
        by_account(AccountError::ConstraintSeeds)
    } else {
        None
    }
}

/// Why [`mint_tokens`] is refused, if it is.
pub open spec fn mint_refusal(
    accounts: MintTokens,
    amount: u64,
    addresses: MintAddressBytes,
) -> Option<Rejection<StablecoinError>> {
    if let Some(e) = mint_account_refusal(accounts, addresses) {
        Some(e)
    } else if accounts.config.data.paused {
        by_rule(StablecoinError::Paused)
    } else if !within_allowance(accounts.minter_config.data, amount) {
        by_rule(StablecoinError::ExceedsAllowance)
    } else {
        None
    }
}

/// The outcome of [`mint_tokens`], given the addresses its accounts are held to.
pub open spec fn mint_outcome(
    r: Result<MintTo, Rejection<StablecoinError>>,
    before: MintTokens,
    after: MintTokens,
    amount: u64,
    addresses: MintAddressBytes,
) -> bool {
    match r {
        Err(e) => {
            &&& mint_refusal(before, amount, addresses) == Some(e)
            &&& after == before
        },
        Ok(request) => {
            &&& mint_refusal(before, amount, addresses) is None
            &&& after == (MintTokens {
                minter_config: Account {
                    address: before.minter_config.address,
                    data: after_mint(before.minter_config.data, amount),
                },
                ..before
            })
            &&& request.token_program@ == TOKEN_2022_PROGRAM@
            &&& request.mint == before.mint
            &&& request.to == before.destination.address
            &&& request.authority == before.config.address
            &&& request.amount == amount
            &&& request.signer_seeds.deep_view() == config_seeds().push(
                seq![before.config.data.bump],
            )
        },
    }
}

/// Check the accounts of [`mint_tokens`].
fn check_mint_accounts(accounts: &MintTokens, addresses: &MintAddresses) -> (r: Option<
    Rejection<StablecoinError>,
>)
    ensures
        r == mint_account_refusal(*accounts, addresses@),
{
    if let Some(e) = check_ensured(
        &accounts.destination,
        &accounts.destination_owner,
        &accounts.mint,
        &token_2022_program(),
        &addresses.destination,
    ) {
        return Some(Rejection::Account(e));
    }
    if !lives_at(&accounts.config.address, &addresses.config) {
        return Some(Rejection::Account(AccountError::ConstraintSeeds));
    }
    if !lives_at(&accounts.minter_config.address, &addresses.minter_config) {
        return Some(Rejection::Account(AccountError::ConstraintSeeds));
    }
    if !accounts.minter_config.data.is_initialized {
        return Some(Rejection::Program(StablecoinError::NotMinter));
    }
    if !lives_at(&accounts.mint, &addresses.mint) {
        return Some(Rejection::Account(AccountError::ConstraintSeeds));
    }
    None
}

/// Mint new stablecoins, given the addresses derived for the accounts.
pub fn mint_tokens_at(accounts: &mut MintTokens, amount: u64, addresses: &MintAddresses) -> (r:
    Result<MintTo, Rejection<StablecoinError>>)
    ensures
        mint_outcome(r, *old(accounts), *final(accounts), amount, addresses@),
{
    if let Some(e) = check_mint_accounts(accounts, addresses) {
        return Err(e);
    }
    if accounts.config.data.paused {
        return Err(Rejection::Program(StablecoinError::Paused));
    }
    let minted = accounts.minter_config.data.amount_minted;
    let remaining = match accounts.minter_config.data.allowance.checked_sub(minted) {
        Some(remaining) => remaining,
        None => return Err(Rejection::Program(StablecoinError::ExceedsAllowance)),
    };
    if !(amount <= remaining) {
        return Err(Rejection::Program(StablecoinError::ExceedsAllowance));
    }
    let total = match minted.checked_add(amount) {
        Some(total) => total,
        None => return Err(Rejection::Program(StablecoinError::Overflow)),
    };
    accounts.minter_config.data.amount_minted = total;
    Ok(
        MintTo {
            token_program: token_2022_program(),
            mint: accounts.mint,
            to: accounts.destination.address,
            authority: accounts.config.address,
            amount,
            signer_seeds: with_bump(one_seed(&CONFIG_SEED), accounts.config.data.bump),
        },
    )
}

/// Mint new stablecoins to a user.
///
/// Only authorized minters can do this, while minting is not paused and within what is
/// left of their allowance. The returned request does the minting.
pub fn mint_tokens(program_id: &Pubkey, accounts: &mut MintTokens, amount: u64) -> (r: Result<
    MintTo,
    Rejection<StablecoinError>,
>)
    ensures
        mint_outcome(
            r,
            *old(accounts),
            *final(accounts),
            amount,
            mint_addresses(*program_id, *old(accounts)),
        ),
{
    let addresses = MintAddresses {
        destination: get_associated_token_address(
            &accounts.destination_owner,
            &accounts.mint,
            &token_2022_program(),
        ),
        config: derive_config(program_id, &accounts.config),
        minter_config: derive_minter_config(
            program_id,
            &accounts.minter,
            &accounts.minter_config,
        ),
        mint: derive_mint(program_id, &accounts.config),
    };
    mint_tokens_at(accounts, amount, &addresses)
}

/// Why [`burn_tokens`] is refused, if it is, given the addresses of the config, the mint
/// and the token account.
pub open spec fn burn_refusal(
    accounts: BurnTokens,
    config: Option<Seq<u8>>,
    mint: Option<Seq<u8>>,
    token_account: Option<Seq<u8>>,
) -> Option<Rejection<StablecoinError>> {
    if config != Some(accounts.config.address@) || mint != Some(accounts.mint@) {
        by_account(AccountError::ConstraintSeeds)
    } else if let Some(e) = associated_fault(
        accounts.token_account,
        accounts.owner@,
        TOKEN_2022_PROGRAM@,
        token_account,
    ) {
        by_account(e)
    } else {
        None
    }
}

/// The outcome of [`burn_tokens`], given the addresses of the config, the mint and the
/// token account.
pub open spec fn burn_outcome(
    r: Result<Burn, Rejection<StablecoinError>>,
    accounts: BurnTokens,
    amount: u64,
    config: Option<Seq<u8>>,
    mint: Option<Seq<u8>>,
    token_account: Option<Seq<u8>>,
) -> bool {
    match r {
        Err(e) => burn_refusal(accounts, config, mint, token_account) == Some(e),
        Ok(request) => {
            &&& burn_refusal(accounts, config, mint, token_account) is None
            &&& request.token_program@ == TOKEN_2022_PROGRAM@
            &&& request.mint == accounts.mint
            &&& request.from == accounts.token_account.address
            &&& request.authority == accounts.owner
            &&& request.amount == amount
        },
    }
}

/// Burn stablecoins, given the addresses derived for the config, the mint and the token
/// account.
pub fn burn_tokens_at(
    accounts: &BurnTokens,
    amount: u64,
    config: Option<Pubkey>,
    mint: Option<Pubkey>,
    token_account: Option<Pubkey>,
) -> (r: Result<Burn, Rejection<StablecoinError>>)
    ensures
        burn_outcome(
            r,
            *accounts,
            amount,
            key_view(config),
            key_view(mint),
            key_view(token_account),
        ),
{
    if !lives_at(&accounts.config.address, &config) || !lives_at(&accounts.mint, &mint) {
        return Err(Rejection::Account(AccountError::ConstraintSeeds));
    }
    if let Some(e) = check_associated(
        &accounts.token_account,
        &accounts.owner,
        &token_2022_program(),
        &token_account,
    ) {
        return Err(Rejection::Account(e));
    }
    Ok(
        Burn {
            token_program: token_2022_program(),
            mint: accounts.mint,
            from: accounts.token_account.address,
            authority: accounts.owner,
            amount,
        },
    )
}

/// Burn stablecoins from the caller's own account.
///
/// Anyone can burn their own tokens, paused or not. The returned request does the
/// burning.
pub fn burn_tokens(program_id: &Pubkey, accounts: &BurnTokens, amount: u64) -> (r: Result<
    Burn,
    Rejection<StablecoinError>,
>)
    ensures
        burn_outcome(
            r,
            *accounts,
            amount,
            config_address(*program_id, accounts.config),
            mint_address(*program_id, accounts.config),
            associated_token_address(accounts.owner@, accounts.mint@, TOKEN_2022_PROGRAM@),
        ),
{
    let config = derive_config(program_id, &accounts.config);
    let mint = derive_mint(program_id, &accounts.config);
    let token_account = get_associated_token_address(
        &accounts.owner,
        &accounts.mint,
        &token_2022_program(),
    );
    burn_tokens_at(accounts, amount, config, mint, token_account)
}

/// A configuration account with minting paused or not.
pub open spec fn with_paused(config: Account<Config>, paused: bool) -> Account<Config> {
    Account { address: config.address, data: Config { paused, ..config.data } }
}

/// The outcome of pausing or unpausing as `admin`, given the address of the config.
pub open spec fn switch_outcome(
    r: Result<(), Rejection<StablecoinError>>,
    admin: Pubkey,
    before: Account<Config>,
    after: Account<Config>,
    paused: bool,
    expected: Option<Seq<u8>>,
) -> bool {
    match r {
        Err(e) => {
            &&& admin_refusal(admin, before, expected) == Some(e)
            &&& after == before
        },
        Ok(_) => {
            &&& admin_refusal(admin, before, expected) is None
            &&& after == with_paused(before, paused)
        },
    }
}

/// Pause or unpause minting, given the address derived for the config.
pub fn switch_at(
    admin: &Pubkey,
    config: &mut Account<Config>,
    paused: bool,
    expected: Option<Pubkey>,
) -> (r: Result<(), Rejection<StablecoinError>>)
    ensures
        switch_outcome(r, *admin, *old(config), *final(config), paused, key_view(expected)),
{
    if let Some(e) = check_admin(admin, config, &expected) {
        return Err(e);
    }
    config.data.paused = paused;
    Ok(())
}

/// Pause all minting operations; only the admin can do this.
pub fn pause(program_id: &Pubkey, accounts: &mut Pause) -> (r: Result<
    (),
    Rejection<StablecoinError>,
>)
    ensures
        switch_outcome(
            r,
            old(accounts).admin,
            old(accounts).config,
            final(accounts).config,
            true,
            config_address(*program_id, old(accounts).config),
        ),
        final(accounts).admin == old(accounts).admin,
{
    let expected = derive_config(program_id, &accounts.config);
    let admin = accounts.admin;
    switch_at(&admin, &mut accounts.config, true, expected)
}

/// Unpause minting operations; only the admin can do this.
pub fn unpause(program_id: &Pubkey, accounts: &mut Unpause) -> (r: Result<
    (),
    Rejection<StablecoinError>,
>)
    ensures
        switch_outcome(
            r,
            old(accounts).admin,
            old(accounts).config,
            final(accounts).config,
            false,
            config_address(*program_id, old(accounts).config),
        ),
        final(accounts).admin == old(accounts).admin,
{
    let expected = derive_config(program_id, &accounts.config);
    let admin = accounts.admin;
    switch_at(&admin, &mut accounts.config, false, expected)
}

} // verus!
