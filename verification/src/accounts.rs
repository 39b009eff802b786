//! What the programs read of the accounts they are handed, the rules those accounts are
//! held to, and the requests that the programs send to other programs.

use vstd::prelude::*;

use crate::keys::{canonical_address, find_address, key_view, lives_at, two_seeds, Pubkey};

verus! {

/// An account of a program: its address and the state stored in it.
#[derive(Debug, Clone, Copy, PartialEq, Eq)]
pub struct Account<T> {
    pub address: Pubkey,
    pub data: T,
}

/// What the programs read of a token account.
#[derive(Debug, Clone, Copy, PartialEq, Eq)]
pub struct TokenAccount {
    /// Where the account lives.
    pub address: Pubkey,
    /// The token program that owns the account.
    pub token_program: Pubkey,
    /// The mint whose tokens it holds.
    pub mint: Pubkey,
    /// The wallet whose tokens it holds.
    pub owner: Pubkey,
}

/// Why an account handed to an instruction is refused.
#[derive(Debug, Clone, Copy, PartialEq, Eq, Structural)]
pub enum AccountError {
    /// The address is not derived from the expected seeds.
    ConstraintSeeds,
    /// A stored key does not match the account of that name.
    ConstraintHasOne,
    /// The account to close is the one that would receive its balance.
    ConstraintClose,
    /// A token account holds tokens of another mint.
    ConstraintTokenMint,
    /// A token account belongs to another wallet.
    ConstraintTokenOwner,
    /// A token account belongs to another token program.
    ConstraintAssociatedTokenTokenProgram,
    /// An existing token account is not the wallet's associated token account.
    ConstraintAssociated,
    /// A token account to be created is not the wallet's associated token account.
    AccountNotAssociatedTokenAccount,
}

/// Why an instruction is refused: by a rule of the program or by a rule on its accounts.
#[derive(Debug, Clone, Copy, PartialEq, Eq)]
pub enum Rejection<E> {
    Program(E),
    Account(AccountError),
}

/// Request to mint tokens.
#[derive(Debug, Clone, PartialEq, Eq)]
pub struct MintTo {
    pub token_program: Pubkey,
    pub mint: Pubkey,
    pub to: Pubkey,
    pub authority: Pubkey,
    pub amount: u64,
    /// The seeds by which the program signs for the authority.
    pub signer_seeds: Vec<Vec<u8>>,
}

/// Request to burn tokens, signed by their owner.
#[derive(Debug, Clone, Copy, PartialEq, Eq)]
pub struct Burn {
    pub token_program: Pubkey,
    pub mint: Pubkey,
    pub from: Pubkey,
    pub authority: Pubkey,
    pub amount: u64,
}

/// Request to move tokens from one token account to another.
#[derive(Debug, Clone, PartialEq, Eq)]
pub struct Transfer {
    pub token_program: Pubkey,
    pub from: Pubkey,
    pub to: Pubkey,
    pub authority: Pubkey,
    pub amount: u64,
    /// The seeds by which the program signs for the authority; none where the authority
    /// is a user who has signed.
    pub signer_seeds: Vec<Vec<u8>>,
}

/// Request to create a mint at an address that signs for itself.
#[derive(Debug, Clone, Copy, PartialEq, Eq)]
pub struct CreateMint {
    pub token_program: Pubkey,
    pub payer: Pubkey,
    pub mint: Pubkey,
    pub decimals: u8,
    pub mint_authority: Pubkey,
    pub freeze_authority: Option<Pubkey>,
}

/// Request to create a wallet's associated token account.
#[derive(Debug, Clone, Copy, PartialEq, Eq)]
pub struct CreateTokenAccount {
    pub associated_token_program: Pubkey,
    pub token_program: Pubkey,
    pub payer: Pubkey,
    pub address: Pubkey,
    pub wallet: Pubkey,
    pub mint: Pubkey,
}

/// Request to create an account.
#[derive(Debug, Clone, PartialEq, Eq)]
pub struct CreateAccount {
    pub from: Pubkey,
    pub to: Pubkey,
    pub lamports: u64,
    pub space: u64,
    pub owner: Pubkey,
    /// The seeds by which the program signs for the new account.
    pub signer_seeds: Vec<Vec<u8>>,
}

/// Request to turn a fresh account into a token mint.
#[derive(Debug, Clone, Copy, PartialEq, Eq)]
pub struct InitializeMint {
    pub token_program: Pubkey,
    pub mint: Pubkey,
    pub decimals: u8,
    pub mint_authority: Pubkey,
    pub freeze_authority: Option<Pubkey>,
}

/// Request to close an account and hand its balance on.
#[derive(Debug, Clone, Copy, PartialEq, Eq)]
pub struct CloseAccount {
    pub account: Pubkey,
    pub destination: Pubkey,
}

/// The address of the system program.
pub const SYSTEM_PROGRAM: [u8; 32] = [
    0, 0, 0, 0, 0, 0, 0, 0, 0, 0, 0, 0, 0, 0, 0, 0, 0, 0, 0, 0, 0, 0, 0, 0, 0, 0, 0, 0, 0, 0, 0, 0,
];

/// The address of the Token-2022 program.
pub const TOKEN_2022_PROGRAM: [u8; 32] = [
    6, 221, 246, 225, 238, 117, 143, 222, 24, 66, 93, 188, 228, 108, 205, 218, 182, 26, 252, 77,
    131, 185, 13, 39, 254, 189, 249, 40, 216, 161, 139, 252,
];

/// The address of the SPL Token program.
pub const TOKEN_PROGRAM: [u8; 32] = [
    6, 221, 246, 225, 215, 101, 161, 147, 217, 203, 225, 70, 206, 235, 121, 172, 28, 180, 133, 237,
    95, 91, 55, 145, 58, 140, 245, 133, 126, 255, 0, 169,
];

/// The address of the associated token account program.
pub const ASSOCIATED_TOKEN_PROGRAM: [u8; 32] = [
    140, 151, 37, 143, 78, 36, 137, 241, 187, 61, 16, 41, 20, 142, 13, 131, 11, 90, 19, 153, 218,
    255, 16, 132, 4, 142, 123, 216, 219, 233, 248, 89,
];

/// The address of the system program.
///
/// Reads `anchor_lang::system_program::ID`, which is the constant stated here.
#[verifier::external_body]
pub(crate) fn system_program() -> (r: Pubkey)
    ensures
        r@ == SYSTEM_PROGRAM@,
{
    Pubkey { bytes: anchor_lang::system_program::ID.to_bytes() }
}

/// The address of the Token-2022 program.
///
/// Reads `anchor_spl::token_2022::ID`, which is the constant stated here.
#[verifier::external_body]
pub(crate) fn token_2022_program() -> (r: Pubkey)
    ensures
        r@ == TOKEN_2022_PROGRAM@,
{
    Pubkey { bytes: anchor_spl::token_2022::ID.to_bytes() }
}

/// The address of the SPL Token program.
///
/// Reads `anchor_spl::token::ID`, which is the constant stated here.
#[verifier::external_body]
pub(crate) fn token_program() -> (r: Pubkey)
    ensures
        r@ == TOKEN_PROGRAM@,
{
    Pubkey { bytes: anchor_spl::token::ID.to_bytes() }
}

/// The address of the associated token account program.
///
/// Reads `anchor_spl::associated_token::ID`, which is the constant stated here.
#[verifier::external_body]
pub(crate) fn associated_token_program() -> (r: Pubkey)
    ensures
        r@ == ASSOCIATED_TOKEN_PROGRAM@,
{
    Pubkey { bytes: anchor_spl::associated_token::ID.to_bytes() }
}

/// The address of a wallet's associated token account for a mint of a token program.
pub open spec fn associated_token_address(
    wallet: Seq<u8>,
    mint: Seq<u8>,
    token_program: Seq<u8>,
) -> Option<Seq<u8>> {
    match canonical_address(seq![wallet, token_program, mint], ASSOCIATED_TOKEN_PROGRAM@) {
        Some((key, _)) => Some(key),
        None => None,
    }
}

/// Derive the address of a wallet's associated token account.
pub fn get_associated_token_address(wallet: &Pubkey, mint: &Pubkey, token_program: &Pubkey) -> (r:
    Option<Pubkey>)
    ensures
        key_view(r) == associated_token_address(wallet@, mint@, token_program@),
{
    let mut seeds = two_seeds(&wallet.bytes, &token_program.bytes);
    let ghost before = seeds.deep_view();
    let part = vstd::slice::slice_to_vec(&mint.bytes);
    assert(part.deep_view() =~= mint@);
    seeds.push(part);
    assert(seeds.deep_view() =~= before.push(mint@));
    assert(before.push(mint@) =~= seq![wallet@, token_program@, mint@]);
    match find_address(&seeds, &associated_token_program()) {
        Some((key, _)) => Some(key),
        None => None,
    }
}

/// Why an existing token account is not the given wallet's associated one, which lives at
/// `expected`, if it is not.
pub open spec fn associated_fault(
    account: TokenAccount,
    wallet: Seq<u8>,
    token_program: Seq<u8>,
    expected: Option<Seq<u8>>,
) -> Option<AccountError> {
    if account.token_program@ != token_program {
        Some(AccountError::ConstraintAssociatedTokenTokenProgram)
    } else if account.owner@ != wallet {
        Some(AccountError::ConstraintTokenOwner)
    } else if expected != Some(account.address@) {
        Some(AccountError::ConstraintAssociated)
    } else {
        None
    }
}

/// Check that an existing token account is the given wallet's associated one.
pub fn check_associated(
    account: &TokenAccount,
    wallet: &Pubkey,
    token_program: &Pubkey,
    expected: &Option<Pubkey>,
) -> (r: Option<AccountError>)
    ensures
        r == associated_fault(*account, wallet@, token_program@, key_view(*expected)),
{
    if account.token_program != *token_program {
        return Some(AccountError::ConstraintAssociatedTokenTokenProgram);
    }
    if account.owner != *wallet {
        return Some(AccountError::ConstraintTokenOwner);
    }
    if !lives_at(&account.address, expected) {
        return Some(AccountError::ConstraintAssociated);
    }
    None
}

/// Why a token account that is created if needed is not the given wallet's associated
/// one, which lives at `expected`, if it is not.
pub open spec fn ensured_fault(
    account: TokenAccount,
    wallet: Seq<u8>,
    mint: Seq<u8>,
    token_program: Seq<u8>,
    expected: Option<Seq<u8>>,
) -> Option<AccountError> {
    if account.mint@ != mint {
        Some(AccountError::ConstraintTokenMint)
    } else if account.owner@ != wallet {
        Some(AccountError::ConstraintTokenOwner)
    } else if account.token_program@ != token_program {
        Some(AccountError::ConstraintAssociatedTokenTokenProgram)
    } else if expected != Some(account.address@) {
        Some(AccountError::AccountNotAssociatedTokenAccount)
    } else {
        None
    }
}

/// Check a token account that is created if needed.
pub fn check_ensured(
    account: &TokenAccount,
    wallet: &Pubkey,
    mint: &Pubkey,
    token_program: &Pubkey,
    expected: &Option<Pubkey>,
) -> (r: Option<AccountError>)
    ensures
        r == ensured_fault(*account, wallet@, mint@, token_program@, key_view(*expected)),
{
    if account.mint != *mint {
        return Some(AccountError::ConstraintTokenMint);
    }
    if account.owner != *wallet {
        return Some(AccountError::ConstraintTokenOwner);
    }
    if account.token_program != *token_program {
        return Some(AccountError::ConstraintAssociatedTokenTokenProgram);
    }
    if !lives_at(&account.address, expected) {
        return Some(AccountError::AccountNotAssociatedTokenAccount);
    }
    None
}

} // verus!
