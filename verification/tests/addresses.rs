use token_programs::accounts::{
    check_associated, check_ensured, get_associated_token_address, AccountError, TokenAccount,
    ASSOCIATED_TOKEN_PROGRAM, SYSTEM_PROGRAM, TOKEN_2022_PROGRAM, TOKEN_PROGRAM,
};
use token_programs::keys::{bump_at, derive_at, find_address, lives_at, Pubkey};

fn key(tag: u8) -> Pubkey {
    Pubkey { bytes: [tag; 32] }
}

fn outside(key: &Pubkey) -> anchor_lang::prelude::Pubkey {
    anchor_lang::prelude::Pubkey::new_from_array(key.bytes)
}

fn inside(key: anchor_lang::prelude::Pubkey) -> Pubkey {
    Pubkey { bytes: key.to_bytes() }
}

#[test]
fn program_addresses_are_the_published_ones() {
    assert_eq!(
        outside(&Pubkey { bytes: TOKEN_2022_PROGRAM }).to_string(),
        "TokenzQdBNbLqP5VEhdkAS6EPFLC1PHnBqCXEpPxuEb"
    );
    assert_eq!(
        outside(&Pubkey { bytes: TOKEN_PROGRAM }).to_string(),
        "TokenkegQfeZyiNwAJbNbGKPFXCWuBvf9Ss623VQ5DA"
    );
    assert_eq!(
        outside(&Pubkey { bytes: ASSOCIATED_TOKEN_PROGRAM }).to_string(),
        "ATokenGPvbdGVxr1b2hvZbsiqW5xWH25efTNsLJA8knL"
    );
    assert_eq!(
        outside(&Pubkey { bytes: SYSTEM_PROGRAM }).to_string(),
        "11111111111111111111111111111111"
    );
    assert_eq!(anchor_lang::system_program::ID.to_bytes(), SYSTEM_PROGRAM);
    assert_eq!(anchor_spl::token_2022::ID.to_bytes(), TOKEN_2022_PROGRAM);
    assert_eq!(anchor_spl::token::ID.to_bytes(), TOKEN_PROGRAM);
    assert_eq!(anchor_spl::associated_token::ID.to_bytes(), ASSOCIATED_TOKEN_PROGRAM);
}

#[test]
fn find_address_gives_the_canonical_bump() {
    for tag in 0..8u8 {
        let program = key(100 + tag);
        let (expected, bump) = anchor_lang::prelude::Pubkey::find_program_address(
            &[b"config", &[tag]],
            &outside(&program),
        );
        let seeds = vec![b"config".to_vec(), vec![tag]];
        assert_eq!(find_address(&seeds, &program), Some((inside(expected), bump)));
        // The canonical bump derives the same address, and no larger one derives any.
        assert_eq!(derive_at(seeds.clone(), bump, &program), Some(inside(expected)));
        for larger in (bump as u16 + 1)..=255 {
            assert_eq!(derive_at(seeds.clone(), larger as u8, &program), None);
        }
    }
}

#[test]
fn derive_at_agrees_with_the_runtime() {
    let program = key(9);
    for bump in 0..=255u8 {
        let expected = anchor_lang::prelude::Pubkey::create_program_address(
            &[b"mint", &[bump]],
            &outside(&program),
        );
        let derived = derive_at(vec![b"mint".to_vec()], bump, &program);
        assert_eq!(derived, expected.ok().map(inside));
    }
}

#[test]
fn too_long_seeds_derive_nothing() {
    let seeds = vec![vec![1u8; 33]];
    assert_eq!(find_address(&seeds, &key(9)), None);
    assert_eq!(derive_at(seeds, 255, &key(9)), None);
    let many = vec![vec![1u8]; 16];
    assert_eq!(find_address(&many, &key(9)), None);
}

#[test]
fn associated_token_addresses() {
    let expected =
        anchor_spl::associated_token::get_associated_token_address_with_program_id(
            &outside(&key(1)),
            &outside(&key(2)),
            &anchor_spl::token_2022::ID,
        );
    assert_eq!(
        get_associated_token_address(&key(1), &key(2), &Pubkey { bytes: TOKEN_2022_PROGRAM }),
        Some(inside(expected))
    );
    assert_ne!(
        get_associated_token_address(&key(1), &key(2), &Pubkey { bytes: TOKEN_PROGRAM }),
        Some(inside(expected))
    );
}

#[test]
fn accounts_are_held_to_their_addresses() {
    assert!(lives_at(&key(1), &Some(key(1))));
    assert!(!lives_at(&key(1), &Some(key(2))));
    assert!(!lives_at(&key(1), &None));
    assert_eq!(bump_at(&key(1), &Some((key(1), 254))), Some(254));
    assert_eq!(bump_at(&key(1), &Some((key(2), 254))), None);
    assert_eq!(bump_at(&key(1), &None), None);
}

#[test]
fn keys_differ_in_any_byte() {
    let mut other = key(7);
    other.bytes[31] = 8;
    assert_ne!(key(7), other);
    assert_eq!(key(7), key(7));
}

fn token_account() -> TokenAccount {
    TokenAccount { address: key(1), token_program: key(2), mint: key(3), owner: key(4) }
}

#[test]
fn existing_token_account_faults() {
    let account = token_account();
    let at = Some(key(1));
    assert_eq!(check_associated(&account, &key(4), &key(2), &at), None);
    assert_eq!(
        check_associated(&account, &key(9), &key(8), &at),
        Some(AccountError::ConstraintAssociatedTokenTokenProgram)
    );
    assert_eq!(
        check_associated(&account, &key(9), &key(2), &None),
        Some(AccountError::ConstraintTokenOwner)
    );
    assert_eq!(
        check_associated(&account, &key(4), &key(2), &Some(key(9))),
        Some(AccountError::ConstraintAssociated)
    );
    assert_eq!(
        check_associated(&account, &key(4), &key(2), &None),
        Some(AccountError::ConstraintAssociated)
    );
}

#[test]
fn ensured_token_account_faults() {
    let account = token_account();
    let at = Some(key(1));
    assert_eq!(check_ensured(&account, &key(4), &key(3), &key(2), &at), None);
    assert_eq!(
        check_ensured(&account, &key(9), &key(9), &key(9), &None),
        Some(AccountError::ConstraintTokenMint)
    );
    assert_eq!(
        check_ensured(&account, &key(9), &key(3), &key(9), &None),
        Some(AccountError::ConstraintTokenOwner)
    );
    assert_eq!(
        check_ensured(&account, &key(4), &key(3), &key(9), &None),
        Some(AccountError::ConstraintAssociatedTokenTokenProgram)
    );
    assert_eq!(
        check_ensured(&account, &key(4), &key(3), &key(2), &None),
        Some(AccountError::AccountNotAssociatedTokenAccount)
    );
}
