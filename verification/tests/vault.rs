use std::str::FromStr;

use token_programs::accounts::{
    get_associated_token_address, Account, AccountError, MintTo, Rejection, TokenAccount,
    TOKEN_2022_PROGRAM,
};
use token_programs::keys::Pubkey;
use token_programs::vault::{
    create_labubu_mint, create_labubu_mint_at, initialize_collection, initialize_collection_at,
    mint_random, mint_random_at, CreateLabubuMint, InitializeCollection, LabubuCollection,
    LabubuError, MintRandom, NORMAL_SUPPLY, RARE_SUPPLY, TOTAL_LABUBU_TYPES,
};

fn key(tag: u8) -> Pubkey {
    Pubkey { bytes: [tag; 32] }
}

fn program() -> Pubkey {
    let id = "Cf8PP8nDWSspGghGXH3KtMwMMviMPGQX4jesPf4nBbuJ";
    Pubkey { bytes: anchor_lang::prelude::Pubkey::from_str(id).unwrap().to_bytes() }
}

fn token_2022() -> Pubkey {
    Pubkey { bytes: TOKEN_2022_PROGRAM }
}

fn found(seeds: &[&[u8]]) -> (Pubkey, u8) {
    let program = anchor_lang::prelude::Pubkey::new_from_array(program().bytes);
    let (address, bump) = anchor_lang::prelude::Pubkey::find_program_address(seeds, &program);
    (Pubkey { bytes: address.to_bytes() }, bump)
}

fn new_collection() -> Account<LabubuCollection> {
    let address = found(&[b"collection"]).0;
    let accounts = InitializeCollection { authority: key(1), collection: address };
    Account { address, data: initialize_collection(&program(), &accounts).unwrap() }
}

fn create_accounts(labubu_id: u8) -> CreateLabubuMint {
    CreateLabubuMint {
        authority: key(1),
        collection: new_collection(),
        mint: found(&[b"labubu_mint", &[labubu_id]]).0,
    }
}

fn mint_accounts(labubu_id: u8) -> MintRandom {
    let mint = found(&[b"labubu_mint", &[labubu_id]]).0;
    let user = key(2);
    let address = get_associated_token_address(&user, &mint, &token_2022()).unwrap();
    MintRandom {
        user,
        collection: new_collection(),
        mint,
        user_token_account: TokenAccount {
            address,
            token_program: token_2022(),
            mint,
            owner: user,
        },
    }
}

fn rule<T>(e: LabubuError) -> Result<T, Rejection<LabubuError>> {
    Err(Rejection::Program(e))
}

fn account<T>(e: AccountError) -> Result<T, Rejection<LabubuError>> {
    Err(Rejection::Account(e))
}

#[test]
fn collection_starts_full() {
    let collection = new_collection().data;
    assert_eq!(collection.authority, key(1));
    assert_eq!(
        collection.remaining_supply,
        [120, 120, 120, 120, 120, 120, 120, 120, 120, 120, 6]
    );
    assert_eq!(collection.total_minted, 0);
    assert_eq!((TOTAL_LABUBU_TYPES, NORMAL_SUPPLY, RARE_SUPPLY), (11, 120, 6));
}

#[test]
fn collection_lives_at_its_address() {
    let accounts = InitializeCollection { authority: key(1), collection: key(9) };
    assert_eq!(
        initialize_collection(&program(), &accounts),
        account(AccountError::ConstraintSeeds)
    );
    assert_eq!(
        initialize_collection_at(&accounts, None),
        account(AccountError::ConstraintSeeds)
    );
    assert!(initialize_collection_at(&accounts, Some((key(9), 3))).is_ok());
}

#[test]
fn create_mint_asks_for_an_indivisible_token() {
    for id in 1..=11u8 {
        let accounts = create_accounts(id);
        let bump = found(&[b"labubu_mint", &[id]]).1;
        let done = create_labubu_mint(&program(), &accounts, id, 1_461_600).unwrap();
        assert_eq!(done.create_mint.from, key(1));
        assert_eq!(done.create_mint.to, accounts.mint);
        assert_eq!(done.create_mint.lamports, 1_461_600);
        assert_eq!(done.create_mint.space, 82);
        assert_eq!(done.create_mint.owner, token_2022());
        assert_eq!(
            done.create_mint.signer_seeds,
            vec![b"labubu_mint".to_vec(), vec![id], vec![bump]]
        );
        assert_eq!(done.initialize_mint.token_program, token_2022());
        assert_eq!(done.initialize_mint.mint, accounts.mint);
        assert_eq!(done.initialize_mint.decimals, 0);
        assert_eq!(done.initialize_mint.mint_authority, accounts.collection.address);
        assert_eq!(done.initialize_mint.freeze_authority, None);
    }
}

#[test]
fn create_mint_errors() {
    for id in [0u8, 12, 255] {
        assert_eq!(
            create_labubu_mint(&program(), &create_accounts(id), id, 1),
            rule(LabubuError::InvalidLabubuId)
        );
    }
    let good = create_accounts(3);
    let stranger = CreateLabubuMint { authority: key(8), ..good };
    assert_eq!(
        create_labubu_mint(&program(), &stranger, 3, 1),
        account(AccountError::ConstraintHasOne)
    );
    assert_eq!(
        create_labubu_mint(&program(), &good, 4, 1),
        account(AccountError::ConstraintSeeds)
    );
    let mut moved = good;
    moved.collection.address = key(9);
    assert_eq!(
        create_labubu_mint(&program(), &moved, 3, 1),
        account(AccountError::ConstraintSeeds)
    );
    // The collection is checked before its authority.
    moved.authority = key(8);
    assert_eq!(
        create_labubu_mint_at(&moved, 3, None, None, 1),
        account(AccountError::ConstraintSeeds)
    );
}

#[test]
fn mint_random_takes_one_of_its_kind() {
    let mut accounts = mint_accounts(11);
    let bump = found(&[b"collection"]).1;
    assert_eq!(
        mint_random(&program(), &mut accounts, 11),
        Ok(MintTo {
            token_program: token_2022(),
            mint: accounts.mint,
            to: accounts.user_token_account.address,
            authority: accounts.collection.address,
            amount: 1,
            signer_seeds: vec![b"collection".to_vec(), vec![bump]],
        })
    );
    assert_eq!(
        accounts.collection.data.remaining_supply,
        [120, 120, 120, 120, 120, 120, 120, 120, 120, 120, 5]
    );
    assert_eq!(accounts.collection.data.total_minted, 1);
}

#[test]
fn kinds_sell_out_and_the_books_balance() {
    let mut collection = new_collection();
    let mut granted = 0u32;
    for id in 1..=11u8 {
        let mut accounts = mint_accounts(id);
        accounts.collection = collection;
        let supply = if id <= 10 { 120 } else { 6 };
        for _ in 0..supply {
            let found_collection = Some(found_key(&accounts));
            let answer = mint_random_at(
                &mut accounts,
                id,
                Some(accounts_address(id)),
                found_collection,
                Some((key_of_mint(id), 1)),
            );
            assert!(answer.is_ok());
            granted += 1;
            let left: u32 =
                accounts.collection.data.remaining_supply.iter().map(|n| *n as u32).sum();
            assert_eq!(left + accounts.collection.data.total_minted, 1206);
        }
        let before = accounts;
        assert_eq!(mint_random(&program(), &mut accounts, id), rule(LabubuError::SoldOut));
        assert_eq!(accounts, before);
        collection = accounts.collection;
    }
    assert_eq!(granted, 1206);
    assert_eq!(collection.data.total_minted, 1206);
    assert_eq!(collection.data.remaining_supply, [0; 11]);
}

fn found_key(accounts: &MintRandom) -> (Pubkey, u8) {
    (accounts.collection.address, 1)
}

fn accounts_address(labubu_id: u8) -> Pubkey {
    get_associated_token_address(&key(2), &key_of_mint(labubu_id), &token_2022()).unwrap()
}

fn key_of_mint(labubu_id: u8) -> Pubkey {
    found(&[b"labubu_mint", &[labubu_id]]).0
}

#[test]
fn mint_random_errors() {
    for id in [0u8, 12, 255] {
        assert_eq!(
            mint_random(&program(), &mut mint_accounts(id), id),
            rule(LabubuError::InvalidLabubuId)
        );
    }
    let good = mint_accounts(5);
    let mut a = good;
    assert_eq!(mint_random(&program(), &mut a, 6), account(AccountError::ConstraintSeeds));
    a.collection.address = key(9);
    assert_eq!(mint_random(&program(), &mut a, 5), account(AccountError::ConstraintSeeds));
    a = good;
    a.user_token_account.mint = key(9);
    assert_eq!(mint_random(&program(), &mut a, 5), account(AccountError::ConstraintTokenMint));
    a = good;
    a.user = key(9);
    assert_eq!(mint_random(&program(), &mut a, 5), account(AccountError::ConstraintTokenOwner));
    a = good;
    a.user_token_account.token_program = key(9);
    assert_eq!(
        mint_random(&program(), &mut a, 5),
        account(AccountError::ConstraintAssociatedTokenTokenProgram)
    );
    a = good;
    a.user_token_account.address = key(9);
    assert_eq!(
        mint_random(&program(), &mut a, 5),
        account(AccountError::AccountNotAssociatedTokenAccount)
    );
}

#[test]
fn labubu_error_messages() {
    assert_eq!(LabubuError::SoldOut.message(), "All Labubu sold out");
    assert_eq!(LabubuError::InvalidLabubuId.message(), "Invalid Labubu ID (must be 1-11)");
}
